//! Character-level helpers shared by the address types: splitting on a
//! separator, reading unsigned numbers in a radix, and writing hexadecimal and
//! decimal digits.
use vstd::prelude::*;

verus! {

/// The pieces of `s` between occurrences of `sep`, as `str::split` yields them:
/// there is always at least one piece, and `k` separators give `k + 1` pieces.
pub open spec fn split(s: Seq<char>, sep: char) -> Seq<Seq<char>>
    decreases s.len(),
{
    if s.len() == 0 {
        seq![Seq::<char>::empty()]
    } else {
        let p = split(s.drop_last(), sep);
        if s.last() == sep {
            p.push(Seq::<char>::empty())
        } else {
            p.update(p.len() - 1, p.last().push(s.last()))
        }
    }
}

/// The pieces `gs` written one after another with `sep` between them.
pub open spec fn join(gs: Seq<Seq<char>>, sep: char) -> Seq<char>
    decreases gs.len(),
{
    if gs.len() == 0 {
        Seq::<char>::empty()
    } else if gs.len() == 1 {
        gs[0]
    } else {
        join(gs.drop_last(), sep).push(sep) + gs.last()
    }
}

/// Value of `c` read as a digit in `radix` (`char::to_digit`).
pub open spec fn digit_value(c: char, radix: nat) -> Option<nat> {
    let v: int = if '0' <= c && c <= '9' {
        c as int - '0' as int
    } else if 'a' <= c && c <= 'z' {
        c as int - 'a' as int + 10
    } else if 'A' <= c && c <= 'Z' {
        c as int - 'A' as int + 10
    } else {
        36
    };
    if v < radix {
        Some(v as nat)
    } else {
        None
    }
}

pub open spec fn is_digit(c: char, radix: nat) -> bool {
    digit_value(c, radix) is Some
}

pub open spec fn all_digits(ds: Seq<char>, radix: nat) -> bool {
    forall|i: int| 0 <= i < ds.len() ==> #[trigger] is_digit(ds[i], radix)
}

/// Value of the digit string `ds`, most significant digit first.
pub open spec fn digits_value(ds: Seq<char>, radix: nat) -> nat
    decreases ds.len(),
{
    if ds.len() == 0 {
        0
    } else {
        let d = match digit_value(ds.last(), radix) {
            Some(v) => v,
            None => 0,
        };
        digits_value(ds.drop_last(), radix) * radix + d
    }
}

/// An unsigned integer no larger than `max` written in `radix`: `g` is one or
/// more digits and nothing else (no sign), and its value is in range.
pub open spec fn parse_unsigned(g: Seq<char>, radix: nat, max: nat) -> Option<nat> {
    if g.len() > 0 && all_digits(g, radix) && digits_value(g, radix) <= max {
        Some(digits_value(g, radix))
    } else {
        None
    }
}

/// Number of bytes that `c` takes in UTF-8 (`char::len_utf8`).
pub open spec fn char_utf8_len(c: char) -> nat {
    if (c as u32) < 0x80 {
        1
    } else if (c as u32) < 0x800 {
        2
    } else if (c as u32) < 0x10000 {
        3
    } else {
        4
    }
}

/// Number of bytes that `g` takes in UTF-8 (`str::len`).
pub open spec fn utf8_len(g: Seq<char>) -> nat
    decreases g.len(),
{
    if g.len() == 0 {
        0
    } else {
        utf8_len(g.drop_last()) + char_utf8_len(g.last())
    }
}

/// Upper-case hexadecimal digit for `n < 16`.
pub open spec fn hex_char(n: nat) -> char {
    if n == 0 {
        '0'
    } else if n == 1 {
        '1'
    } else if n == 2 {
        '2'
    } else if n == 3 {
        '3'
    } else if n == 4 {
        '4'
    } else if n == 5 {
        '5'
    } else if n == 6 {
        '6'
    } else if n == 7 {
        '7'
    } else if n == 8 {
        '8'
    } else if n == 9 {
        '9'
    } else if n == 10 {
        'A'
    } else if n == 11 {
        'B'
    } else if n == 12 {
        'C'
    } else if n == 13 {
        'D'
    } else if n == 14 {
        'E'
    } else {
        'F'
    }
}

/// A byte as two upper-case hexadecimal digits (`{:02X}`).
pub open spec fn hex_byte_text(b: u8) -> Seq<char> {
    seq![hex_char(b as nat / 16), hex_char(b as nat % 16)]
}

/// A number in decimal, without leading zeros (`{}`).
pub open spec fn dec_text(n: nat) -> Seq<char>
    decreases n,
{
    if n < 10 {
        seq![hex_char(n)]
    } else {
        dec_text(n / 10).push(hex_char(n % 10))
    }
}

pub proof fn lemma_split_nonempty(s: Seq<char>, sep: char)
    ensures
        split(s, sep).len() >= 1,
    decreases s.len(),
{
    if s.len() > 0 {
        lemma_split_nonempty(s.drop_last(), sep);
    }
}

/// Appending text free of `sep` extends the last piece.
proof fn lemma_split_append(s: Seq<char>, g: Seq<char>, sep: char)
    requires
        !g.contains(sep),
    ensures
        split(s + g, sep) == split(s, sep).update(
            split(s, sep).len() - 1,
            split(s, sep).last() + g,
        ),
    decreases g.len(),
{
    lemma_split_nonempty(s, sep);
    if g.len() == 0 {
        assert(s + g =~= s);
        assert(split(s, sep).last() + g =~= split(s, sep).last());
        assert(split(s, sep).update(split(s, sep).len() - 1, split(s, sep).last())
            =~= split(s, sep));
    } else {
        let g0 = g.drop_last();
        assert(!g0.contains(sep)) by {
            if g0.contains(sep) {
                let k = choose|k: int| 0 <= k < g0.len() && g0[k] == sep;
                assert(g[k] == sep);
            }
        }
        lemma_split_append(s, g0, sep);
        assert((s + g).drop_last() =~= s + g0);
        assert(g.last() != sep) by {
            assert(g[g.len() - 1] == g.last());
        }
        assert(split(s, sep).last() + g0 + seq![g.last()] =~= split(s, sep).last() + g);
        assert((split(s, sep).last() + g0).push(g.last()) =~= split(s, sep).last() + g);
        assert(split(s + g, sep) =~= split(s, sep).update(
            split(s, sep).len() - 1,
            split(s, sep).last() + g,
        ));
    }
}

/// Splitting the joined pieces gives the pieces back, when none holds `sep`.
pub proof fn lemma_split_join(gs: Seq<Seq<char>>, sep: char)
    requires
        gs.len() >= 1,
        forall|i: int| 0 <= i < gs.len() ==> !(#[trigger] gs[i]).contains(sep),
    ensures
        split(join(gs, sep), sep) == gs,
    decreases gs.len(),
{
    if gs.len() == 1 {
        let e = Seq::<char>::empty();
        lemma_split_append(e, gs[0], sep);
        assert(e + gs[0] =~= gs[0]);
        assert(split(join(gs, sep), sep) =~= gs);
    } else {
        let front = gs.drop_last();
        assert forall|i: int| 0 <= i < front.len() implies !(#[trigger] front[i]).contains(sep) by {
            assert(front[i] == gs[i]);
        }
        lemma_split_join(front, sep);
        let j = join(front, sep);
        assert(!gs[gs.len() - 1].contains(sep));
        lemma_split_append(j.push(sep), gs.last(), sep);
        assert(j.push(sep).drop_last() =~= j);
        assert(split(j.push(sep), sep) =~= front.push(Seq::<char>::empty()));
        assert(Seq::<char>::empty() + gs.last() =~= gs.last());
        assert(split(join(gs, sep), sep) =~= gs);
    }
}

pub proof fn lemma_hex_char_digit(n: nat)
    requires
        n < 16,
    ensures
        digit_value(hex_char(n), 16) == Some(n),
        hex_char(n) != ':',
        hex_char(n) != '.',
        (hex_char(n) as u32) < 0x80,
{
}

proof fn lemma_dec_char_digit(n: nat)
    requires
        n < 10,
    ensures
        digit_value(hex_char(n), 10) == Some(n),
{
}

/// Two hexadecimal digits read back give the byte.
pub proof fn lemma_hex_byte_parse(b: u8)
    ensures
        parse_unsigned(hex_byte_text(b), 16, 255) == Some(b as nat),
        !hex_byte_text(b).contains(':'),
        !hex_byte_text(b).contains('.'),
        hex_byte_text(b).len() == 2,
{
    let t = hex_byte_text(b);
    lemma_hex_char_digit(b as nat / 16);
    lemma_hex_char_digit(b as nat % 16);
    assert(t.drop_last() =~= seq![hex_char(b as nat / 16)]);
    assert(t.drop_last().drop_last() =~= Seq::<char>::empty());
    assert(digits_value(t.drop_last().drop_last(), 16) == 0);
    assert(t.drop_last().last() == hex_char(b as nat / 16));
    assert(digits_value(t.drop_last(), 16) == b as nat / 16);
    assert(t.last() == hex_char(b as nat % 16));
    assert(digits_value(t, 16) == b as nat);
    assert(!t.contains(':')) by {
        if t.contains(':') {
            let k = choose|k: int| 0 <= k < t.len() && t[k] == ':';
        }
    }
    assert(!t.contains('.')) by {
        if t.contains('.') {
            let k = choose|k: int| 0 <= k < t.len() && t[k] == '.';
        }
    }
}

/// The decimal text of `n` is made of digits and reads back as `n`.
pub proof fn lemma_dec_text(n: nat)
    ensures
        dec_text(n).len() >= 1,
        all_digits(dec_text(n), 10),
        digits_value(dec_text(n), 10) == n,
        !dec_text(n).contains('.'),
    decreases n,
{
    let t = dec_text(n);
    if n < 10 {
        lemma_dec_char_digit(n);
        assert(t.drop_last() =~= Seq::<char>::empty());
    } else {
        lemma_dec_text(n / 10);
        lemma_dec_char_digit(n % 10);
        let f = dec_text(n / 10);
        assert(t.drop_last() =~= f);
        assert(t.last() == hex_char(n % 10));
        assert(digits_value(t, 10) == digits_value(f, 10) * 10 + n % 10);
        assert(t[0] == f[0]);
        assert forall|i: int| 0 <= i < t.len() implies #[trigger] is_digit(t[i], 10) by {
            if i < f.len() {
                assert(t[i] == f[i]);
                assert(is_digit(f[i], 10));
            }
        }
    }
    assert(!t.contains('.')) by {
        if t.contains('.') {
            let k = choose|k: int| 0 <= k < t.len() && t[k] == '.';
            assert(is_digit(t[k], 10));
        }
    }
}

/// Appends `c` to `s`.
/// Relies on `String::push`: the character is added at the end.
#[verifier::external_body]
pub fn push_char(s: &mut String, c: char)
    ensures
        final(s)@ == old(s)@.push(c),
{
    s.push(c)
}

/// Upper-case hexadecimal digit of `n`.
pub fn hex_digit(n: u8) -> (c: char)
    requires
        n < 16,
    ensures
        c == hex_char(n as nat),
{
    match n {
        0 => '0',
        1 => '1',
        2 => '2',
        3 => '3',
        4 => '4',
        5 => '5',
        6 => '6',
        7 => '7',
        8 => '8',
        9 => '9',
        10 => 'A',
        11 => 'B',
        12 => 'C',
        13 => 'D',
        14 => 'E',
        _ => 'F',
    }
}

/// Appends `b` as two upper-case hexadecimal digits.
pub fn push_hex_byte(s: &mut String, b: u8)
    ensures
        final(s)@ == old(s)@ + hex_byte_text(b),
{
    push_char(s, hex_digit(b / 16));
    push_char(s, hex_digit(b % 16));
    assert(s@ =~= old(s)@ + hex_byte_text(b));
}

/// Appends `n` in decimal.
pub fn push_decimal(s: &mut String, n: u32)
    ensures
        final(s)@ == old(s)@ + dec_text(n as nat),
    decreases n,
{
    if n >= 10 {
        push_decimal(s, n / 10);
    }
    push_char(s, hex_digit((n % 10) as u8));
    assert(s@ =~= old(s)@ + dec_text(n as nat));
}

/// The characters of `s`, split at each `sep`.
pub fn split_chars(s: &str, sep: char) -> (parts: Vec<Vec<char>>)
    ensures
        parts@.len() == split(s@, sep).len(),
        forall|i: int| 0 <= i < parts@.len() ==> (#[trigger] parts@[i])@ == split(s@, sep)[i],
{
    let n = s.unicode_len();
    let mut parts: Vec<Vec<char>> = Vec::new();
    let mut cur: Vec<char> = Vec::new();
    let mut i: usize = 0;
    proof {
        assert(s@.take(0) =~= Seq::<char>::empty());
    }
    while i < n
        invariant
            n == s@.len(),
            i <= n,
            parts@.len() + 1 == split(s@.take(i as int), sep).len(),
            forall|j: int|
                0 <= j < parts@.len() ==> (#[trigger] parts@[j])@ == split(
                    s@.take(i as int),
                    sep,
                )[j],
            cur@ == split(s@.take(i as int), sep).last(),
        decreases n - i,
    {
        let c = s.get_char(i);
        let ghost before = s@.take(i as int);
        let ghost after = s@.take(i + 1);
        proof {
            assert(after.drop_last() =~= before);
            assert(after.last() == c);
            lemma_split_nonempty(before, sep);
        }
        if c == sep {
            parts.push(cur);
            cur = Vec::new();
            proof {
                assert(cur@ =~= Seq::<char>::empty());
            }
        } else {
            cur.push(c);
        }
        i = i + 1;
    }
    proof {
        assert(s@.take(n as int) =~= s@);
    }
    parts.push(cur);
    parts
}

/// Value of `c` as a digit in `radix` (`char::to_digit`).
pub fn digit_of(c: char, radix: u32) -> (r: Option<u32>)
    requires
        2 <= radix <= 36,
    ensures
        match digit_value(c, radix as nat) {
            Some(v) => r == Some(v as u32),
            None => r is None,
        },
{
    let v: u32 = if '0' <= c && c <= '9' {
        (c as u32) - ('0' as u32)
    } else if 'a' <= c && c <= 'z' {
        (c as u32) - ('a' as u32) + 10
    } else if 'A' <= c && c <= 'Z' {
        (c as u32) - ('A' as u32) + 10
    } else {
        36
    };
    if v < radix {
        Some(v)
    } else {
        None
    }
}

/// Reads an unsigned number no larger than `max` from `g` in `radix`.
pub fn parse_unsigned_chars(g: &Vec<char>, radix: u32, max: u32) -> (r: Option<u32>)
    requires
        2 <= radix <= 16,
        max <= 0xFFFF,
    ensures
        match parse_unsigned(g@, radix as nat, max as nat) {
            Some(v) => r == Some(v as u32),
            None => r is None,
        },
{
    let ghost ds = g@;
    let start: usize = 0;
    proof {
        assert(ds =~= g@.subrange(start as int, g@.len() as int));
    }
    if start >= g.len() {
        return None;
    }
    let mut acc: u32 = 0;
    let mut i: usize = start;
    proof {
        assert(g@.subrange(start as int, start as int) =~= Seq::<char>::empty());
    }
    while i < g.len()
        invariant
            start <= i <= g@.len(),
            2 <= radix <= 16,
            max <= 0xFFFF,
            ds == g@.subrange(start as int, g@.len() as int),
            ds == g@,
            all_digits(g@.subrange(start as int, i as int), radix as nat),
            acc as nat == if digits_value(g@.subrange(start as int, i as int), radix as nat)
                <= max as nat {
                digits_value(g@.subrange(start as int, i as int), radix as nat)
            } else {
                max as nat + 1
            },
        decreases g.len() - i,
    {
        let ghost pre = g@.subrange(start as int, i as int);
        let ghost next = g@.subrange(start as int, i + 1);
        proof {
            assert(next.drop_last() =~= pre);
            assert(next.last() == g@[i as int]);
        }
        match digit_of(g[i], radix) {
            None => {
                proof {
                    assert(ds[i - start] == g@[i as int]);
                    assert(!is_digit(ds[i - start], radix as nat));
                    assert(!all_digits(ds, radix as nat));
                }
                return None;
            },
            Some(d) => {
                let ghost pv = digits_value(pre, radix as nat);
                proof {
                    assert(pv * radix as nat >= pv) by (nonlinear_arith)
                        requires
                            radix >= 2,
                    ;
                    if pv > max as nat {
                        assert((max as nat + 1) * radix as nat >= max as nat + 1) by (nonlinear_arith)
                            requires
                                radix >= 2,
                        ;
                    }
                    assert(acc as nat * radix as nat <= 0x10000 * 16) by (nonlinear_arith)
                        requires
                            acc <= 0x10000,
                            radix <= 16,
                    ;
                }
                let nv = acc * radix + d;
                if nv > max {
                    acc = max + 1;
                } else {
                    acc = nv;
                }
                proof {
                    assert forall|k: int| 0 <= k < next.len() implies #[trigger] is_digit(
                        next[k],
                        radix as nat,
                    ) by {
                        if k < pre.len() {
                            assert(next[k] == pre[k]);
                        }
                    }
                }
            },
        }
        i = i + 1;
    }
    proof {
        assert(g@.subrange(start as int, g@.len() as int) == ds);
    }
    if acc > max {
        None
    } else {
        Some(acc)
    }
}

/// Whether `g` takes at most `limit` bytes in UTF-8.
pub fn utf8_len_within(g: &Vec<char>, limit: usize) -> (r: bool)
    requires
        limit <= 16,
    ensures
        r == (utf8_len(g@) <= limit as nat),
{
    let mut total: usize = 0;
    let mut i: usize = 0;
    proof {
        assert(g@.take(0) =~= Seq::<char>::empty());
    }
    while i < g.len()
        invariant
            i <= g@.len(),
            limit <= 16,
            total as nat == utf8_len(g@.take(i as int)),
            total <= limit,
        decreases g.len() - i,
    {
        let c = g[i];
        proof {
            assert(g@.take(i + 1).drop_last() =~= g@.take(i as int));
        }
        let w: usize = if (c as u32) < 0x80 {
            1
        } else if (c as u32) < 0x800 {
            2
        } else if (c as u32) < 0x10000 {
            3
        } else {
            4
        };
        total = total + w;
        i = i + 1;
        if total > limit {
            proof {
                lemma_utf8_len_prefix(g@, i as int);
            }
            return false;
        }
    }
    proof {
        assert(g@.take(i as int) =~= g@);
    }
    true
}

proof fn lemma_utf8_len_prefix(g: Seq<char>, i: int)
    requires
        0 <= i <= g.len(),
    ensures
        utf8_len(g.take(i)) <= utf8_len(g),
    decreases g.len(),
{
    if i < g.len() {
        lemma_utf8_len_prefix(g.drop_last(), i);
        assert(g.drop_last().take(i) =~= g.take(i));
    } else {
        assert(g.take(i) =~= g);
    }
}

} // verus!
