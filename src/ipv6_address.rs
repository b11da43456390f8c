//! Internetwork version 6 addresses: sixteen bytes.
use crate::random::random_bytes;
use crate::text::{
    all_digits, digits_value, hex_byte_text, hex_char, is_digit, join, lemma_hex_char_digit,
    lemma_split_join, parse_unsigned, parse_unsigned_chars, push_char, push_hex_byte, split,
    split_chars,
    utf8_len, utf8_len_within,
};
use vstd::prelude::*;

verus! {

/// Error for text with a number of colon-separated groups other than eight.
pub const IPV6_FORMAT_ERROR: &'static str = "Invalid IPv6 address format";

/// Error for a group longer than four bytes.
pub const IPV6_SEGMENT_ERROR: &'static str = "Invalid segment in IPv6 address";

/// Error for a group that is not a hexadecimal number.
pub const IPV6_NUMBER_ERROR: &'static str = "Invalid number in IPv6 address";

/// An internetwork version 6 address.
#[derive(Clone, Copy, Debug, PartialEq, Eq, Hash, Default)]
pub struct IPv6Address(pub [u8; 16]);

/// Group `i` of the canonical text: bytes `2i` and `2i + 1` as four upper-case
/// hex digits.
pub open spec fn ipv6_group_text(b: Seq<u8>, i: int) -> Seq<char> {
    hex_byte_text(b[2 * i]) + hex_byte_text(b[2 * i + 1])
}

pub open spec fn ipv6_groups(b: Seq<u8>) -> Seq<Seq<char>> {
    Seq::new(8, |i: int| ipv6_group_text(b, i))
}

/// Text of an internetwork version 6 address with the groups separated by
/// `sep`: `2001:0DB8:...` for `sep == ':'`.
pub open spec fn ipv6_text(b: Seq<u8>, sep: char) -> Seq<char> {
    join(ipv6_groups(b), sep)
}

/// Human-readable rendering of an internetwork version 6 address.
pub open spec fn ipv6_display_text(b: Seq<u8>) -> Seq<char> {
    "#IPv6 address="@ + ipv6_text(b, ':')
}

/// The error that one group gives, if any: a group longer than four bytes,
/// else one that is not a hexadecimal number of at most `0xFFFF`.
pub open spec fn ipv6_group_error(g: Seq<char>) -> Option<&'static str> {
    if utf8_len(g) > 4 {
        Some(IPV6_SEGMENT_ERROR)
    } else if parse_unsigned(g, 16, 0xFFFF) is None {
        Some(IPV6_NUMBER_ERROR)
    } else {
        None
    }
}

/// The error of the first group that has one.
pub open spec fn ipv6_first_error(gs: Seq<Seq<char>>) -> Option<&'static str>
    decreases gs.len(),
{
    if gs.len() == 0 {
        None
    } else if ipv6_group_error(gs[0]) is Some {
        ipv6_group_error(gs[0])
    } else {
        ipv6_first_error(gs.drop_first())
    }
}

/// The value of group `i`.
pub open spec fn ipv6_group_value(gs: Seq<Seq<char>>, i: int) -> nat {
    parse_unsigned(gs[i], 16, 0xFFFF)->0
}

/// The sixteen bytes that eight group values give, each value big-endian.
pub open spec fn ipv6_bytes(gs: Seq<Seq<char>>) -> Seq<u8> {
    Seq::new(
        16,
        |k: int|
            if k % 2 == 0 {
                (ipv6_group_value(gs, k / 2) / 256) as u8
            } else {
                (ipv6_group_value(gs, k / 2) % 256) as u8
            },
    )
}

/// What reading `s` as an internetwork version 6 address gives: the bytes,
/// or the error. The count of groups is checked first, then the groups in
/// order.
pub open spec fn ipv6_from_text(s: Seq<char>) -> Result<Seq<u8>, &'static str> {
    let gs = split(s, ':');
    if gs.len() != 8 {
        Err(IPV6_FORMAT_ERROR)
    } else if ipv6_first_error(gs) is Some {
        Err(ipv6_first_error(gs)->0)
    } else {
        Ok(ipv6_bytes(gs))
    }
}

proof fn lemma_group_parse(x: u8, y: u8)
    ensures
        utf8_len(hex_byte_text(x) + hex_byte_text(y)) == 4,
        parse_unsigned(hex_byte_text(x) + hex_byte_text(y), 16, 0xFFFF) == Some(
            x as nat * 256 + y as nat,
        ),
        !(hex_byte_text(x) + hex_byte_text(y)).contains(':'),
{
    let tx = hex_byte_text(x);
    let ty = hex_byte_text(y);
    let t = tx + ty;
    lemma_hex_char_digit(x as nat / 16);
    lemma_hex_char_digit(x as nat % 16);
    lemma_hex_char_digit(y as nat / 16);
    lemma_hex_char_digit(y as nat % 16);
    let c0 = hex_char(x as nat / 16);
    let c1 = hex_char(x as nat % 16);
    let c2 = hex_char(y as nat / 16);
    let c3 = hex_char(y as nat % 16);
    let p1 = seq![c0];
    let p2 = seq![c0, c1];
    let p3 = seq![c0, c1, c2];
    assert(t =~= seq![c0, c1, c2, c3]);
    assert(t.drop_last() =~= p3);
    assert(p3.drop_last() =~= p2);
    assert(p2.drop_last() =~= p1);
    assert(p1.drop_last() =~= Seq::<char>::empty());
    assert(digits_value(Seq::<char>::empty(), 16) == 0);
    assert(utf8_len(Seq::<char>::empty()) == 0);
    assert(p1.last() == c0 && p2.last() == c1 && p3.last() == c2 && t.last() == c3);
    assert(digits_value(p1, 16) == x as nat / 16);
    assert(digits_value(p2, 16) == x as nat);
    assert(digits_value(p3, 16) == x as nat * 16 + y as nat / 16);
    assert(digits_value(t, 16) == x as nat * 256 + y as nat);
    assert(utf8_len(p1) == 1);
    assert(utf8_len(p2) == 2);
    assert(utf8_len(p3) == 3);
    assert(utf8_len(t) == 4);
    assert(all_digits(t, 16)) by {
        assert forall|i: int| 0 <= i < t.len() implies #[trigger] is_digit(t[i], 16) by {
            if i == 0 {
            } else if i == 1 {
            } else if i == 2 {
            } else {
            }
        }
    }
    assert(!t.contains(':')) by {
        if t.contains(':') {
            let k = choose|k: int| 0 <= k < t.len() && t[k] == ':';
        }
    }
}

/// Reading the colon-separated text of an internetwork version 6 address
/// gives the address back.
pub proof fn lemma_ipv6_round_trip(a: IPv6Address)
    ensures
        ipv6_from_text(ipv6_text(a.0@, ':')) == Ok::<Seq<u8>, &'static str>(a.0@),
{
    let b = a.0@;
    let gs = ipv6_groups(b);
    assert forall|i: int| 0 <= i < gs.len() implies !(#[trigger] gs[i]).contains(':') by {
        lemma_group_parse(b[2 * i], b[2 * i + 1]);
    }
    lemma_split_join(gs, ':');
    assert forall|i: int| 0 <= i < gs.len() implies #[trigger] ipv6_group_error(gs[i]) is None
        && ipv6_group_value(gs, i) == b[2 * i] as nat * 256 + b[2 * i + 1] as nat by {
        lemma_group_parse(b[2 * i], b[2 * i + 1]);
    }
    assert forall|k: int| 0 <= k <= 8 implies ipv6_first_error(#[trigger] gs.skip(k)) is None by {
        lemma_first_error_none(gs, k);
    }
    assert(gs.skip(0) =~= gs);
    assert forall|k: int| 0 <= k < 16 implies #[trigger] ipv6_bytes(gs)[k] == b[k] by {
        let i = k / 2;
        assert(0 <= i < 8);
        let v = ipv6_group_value(gs, i);
        lemma_group_parse(b[2 * i], b[2 * i + 1]);
        assert(v == b[2 * i] as nat * 256 + b[2 * i + 1] as nat);
        if k % 2 == 0 {
            assert(k == 2 * i);
            assert(v / 256 == b[2 * i] as nat);
        } else {
            assert(k == 2 * i + 1);
            assert(v % 256 == b[2 * i + 1] as nat);
        }
    }
    assert(ipv6_bytes(gs) =~= b);
}

proof fn lemma_first_error_none(gs: Seq<Seq<char>>, k: int)
    requires
        0 <= k <= gs.len(),
        forall|i: int| 0 <= i < gs.len() ==> #[trigger] ipv6_group_error(gs[i]) is None,
    ensures
        ipv6_first_error(gs.skip(k)) is None,
    decreases gs.len() - k,
{
    if k < gs.len() {
        lemma_first_error_none(gs, k + 1);
        assert(gs.skip(k).drop_first() =~= gs.skip(k + 1));
        assert(gs.skip(k)[0] == gs[k]);
    }
}

impl IPv6Address {
    /// A random address under the documentation prefix `2001:0db8`: the
    /// remaining twelve bytes are random.
    pub fn new() -> (r: IPv6Address)
        ensures
            r.0[0] == 0x20,
            r.0[1] == 0x01,
            r.0[2] == 0x0d,
            r.0[3] == 0xb8,
    {
        let raw = random_bytes(12);
        IPv6Address::from_random_suffix(
            [
                raw[0],
                raw[1],
                raw[2],
                raw[3],
                raw[4],
                raw[5],
                raw[6],
                raw[7],
                raw[8],
                raw[9],
                raw[10],
                raw[11],
            ],
        )
    }

    /// The address under the documentation prefix `2001:0db8` whose
    /// remaining twelve bytes are `raw`.
    pub fn from_random_suffix(raw: [u8; 12]) -> (r: IPv6Address)
        ensures
            r.0@ == seq![0x20u8, 0x01u8, 0x0du8, 0xb8u8] + raw@,
    {
        let r = IPv6Address(
            [
                0x20,
                0x01,
                0x0d,
                0xb8,
                raw[0],
                raw[1],
                raw[2],
                raw[3],
                raw[4],
                raw[5],
                raw[6],
                raw[7],
                raw[8],
                raw[9],
                raw[10],
                raw[11],
            ],
        );
        assert(r.0@ =~= seq![0x20u8, 0x01u8, 0x0du8, 0xb8u8] + raw@);
        r
    }

    /// Reads an address from eight colon-separated groups of at most four
    /// hexadecimal digits, each group giving two bytes, high byte first.
    pub fn from_string(s: &str) -> (r: Result<IPv6Address, &'static str>)
        ensures
            match ipv6_from_text(s@) {
                Ok(b) => r is Ok && r->Ok_0.0@ == b,
                Err(e) => r == Err::<IPv6Address, &'static str>(e),
            },
    {
        let parts = split_chars(s, ':');
        let ghost gs = split(s@, ':');
        if parts.len() != 8 {
            return Err(IPV6_FORMAT_ERROR);
        }
        proof {
            assert(gs.skip(0) =~= gs);
        }
        let mut bytes: Vec<u8> = Vec::new();
        let mut i: usize = 0;
        while i < 8
            invariant
                i <= 8,
                gs == split(s@, ':'),
                parts@.len() == gs.len(),
                gs.len() == 8,
                forall|j: int| 0 <= j < parts@.len() ==> (#[trigger] parts@[j])@ == gs[j],
                ipv6_first_error(gs) == ipv6_first_error(gs.skip(i as int)),
                bytes@.len() == 2 * i,
                forall|k: int| 0 <= k < 2 * i ==> #[trigger] bytes@[k] == ipv6_bytes(gs)[k],
                forall|j: int| 0 <= j < i ==> #[trigger] ipv6_group_error(gs[j]) is None,
            decreases 8 - i,
        {
            proof {
                assert(gs.skip(i as int)[0] == gs[i as int]);
                assert(gs.skip(i as int).drop_first() =~= gs.skip(i + 1));
            }
            if !utf8_len_within(&parts[i], 4) {
                return Err(IPV6_SEGMENT_ERROR);
            }
            match parse_unsigned_chars(&parts[i], 16, 0xFFFF) {
                None => {
                    return Err(IPV6_NUMBER_ERROR);
                },
                Some(v) => {
                    bytes.push((v / 256) as u8);
                    bytes.push((v % 256) as u8);
                    proof {
                        assert(ipv6_group_value(gs, i as int) == v as nat);
                        assert(bytes@[2 * i as int] == ipv6_bytes(gs)[2 * i as int]);
                        assert(bytes@[2 * i + 1] == ipv6_bytes(gs)[2 * i + 1]);
                    }
                },
            }
            i = i + 1;
        }
        proof {
            assert(gs.skip(8) =~= Seq::<Seq<char>>::empty());
        }
        let a = IPv6Address(
            [
                bytes[0],
                bytes[1],
                bytes[2],
                bytes[3],
                bytes[4],
                bytes[5],
                bytes[6],
                bytes[7],
                bytes[8],
                bytes[9],
                bytes[10],
                bytes[11],
                bytes[12],
                bytes[13],
                bytes[14],
                bytes[15],
            ],
        );
        assert(a.0@ =~= ipv6_bytes(gs));
        Ok(a)
    }

    /// The address with the given bytes.
    pub fn from_array(array: [u8; 16]) -> (r: IPv6Address)
        ensures
            r.0 == array,
    {
        IPv6Address(array)
    }

    /// The bytes of the address.
    pub fn as_slice(&self) -> (r: &[u8])
        ensures
            r@ == self.0@,
    {
        self.0.as_slice()
    }

    /// The bytes of the address.
    pub fn to_array(&self) -> (r: [u8; 16])
        ensures
            r == self.0,
    {
        self.0
    }

    /// The address as eight groups of four upper-case hex digits, separated
    /// by `separator`.
    pub fn to_string_with_separator(&self, separator: char) -> (s: String)
        ensures
            s@ == ipv6_text(self.0@, separator),
    {
        let ghost gs = ipv6_groups(self.0@);
        let mut s = String::new();
        let mut i: usize = 0;
        while i < 8
            invariant
                i <= 8,
                gs == ipv6_groups(self.0@),
                s@ == join(gs.take(i as int), separator),
            decreases 8 - i,
        {
            proof {
                assert(gs.take(i + 1).drop_last() =~= gs.take(i as int));
            }
            if i > 0 {
                push_char(&mut s, separator);
            }
            push_hex_byte(&mut s, self.0[2 * i]);
            push_hex_byte(&mut s, self.0[2 * i + 1]);
            proof {
                if i == 0 {
                    assert(s@ =~= join(gs.take(1), separator));
                } else {
                    assert(s@ =~= join(gs.take(i + 1), separator));
                }
            }
            i = i + 1;
        }
        proof {
            assert(gs.take(8) =~= gs);
        }
        s
    }

    /// Canonical text of the address: the groups separated by `:`.
    pub fn to_text(&self) -> (s: String)
        ensures
            s@ == ipv6_text(self.0@, ':'),
    {
        self.to_string_with_separator(':')
    }

    /// Human-readable rendering: `#IPv6 address=2001:0DB8:...`.
    pub fn to_string(&self) -> (s: String)
        ensures
            s@ == ipv6_display_text(self.0@),
    {
        let mut s = String::new();
        s.append("#IPv6 address=");
        let t = self.to_text();
        s.append(t.as_str());
        s
    }
}

} // verus!
