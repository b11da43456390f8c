//! Internetwork version 4 addresses: four bytes.
use crate::random::random_in_range;
use crate::text::{
    dec_text, join, lemma_dec_text, lemma_split_join, parse_unsigned, parse_unsigned_chars,
    push_char, push_decimal, split, split_chars,
};
use vstd::prelude::*;

verus! {

/// Error for text with a number of dot-separated groups other than four.
pub const IPV4_FORMAT_ERROR: &'static str = "Invalid IPv4 address format";

/// Error for text with a group that is not a decimal number of at most 255.
pub const IPV4_NUMBER_ERROR: &'static str = "Invalid number in IPv4 address";

/// An internetwork version 4 address.
#[derive(Clone, Copy, Debug, PartialEq, Eq, Hash, Default)]
pub struct IPv4Address(pub [u8; 4]);

/// The groups of the canonical text: each byte in decimal.
pub open spec fn ipv4_groups(b: Seq<u8>) -> Seq<Seq<char>> {
    b.map_values(|x: u8| dec_text(x as nat))
}

/// Canonical text of an internetwork version 4 address: `192.168.0.1`.
pub open spec fn ipv4_text(b: Seq<u8>) -> Seq<char> {
    join(ipv4_groups(b), '.')
}

/// Human-readable rendering of an internetwork version 4 address.
pub open spec fn ipv4_display_text(b: Seq<u8>) -> Seq<char> {
    "#IPv4 address="@ + ipv4_text(b)
}

/// What reading `s` as an internetwork version 4 address gives: the bytes, or
/// the error. The count of groups is checked first, then each group, which is
/// a decimal number of at most 255.
pub open spec fn ipv4_from_text(s: Seq<char>) -> Result<Seq<u8>, &'static str> {
    let gs = split(s, '.');
    if gs.len() != 4 {
        Err(IPV4_FORMAT_ERROR)
    } else if exists|i: int|
        0 <= i < gs.len() && (#[trigger] parse_unsigned(gs[i], 10, 255)) is None {
        Err(IPV4_NUMBER_ERROR)
    } else {
        Ok(gs.map_values(|g: Seq<char>| parse_unsigned(g, 10, 255)->0 as u8))
    }
}

/// Reading the canonical text of an internetwork version 4 address gives the
/// address back.
pub proof fn lemma_ipv4_round_trip(a: IPv4Address)
    ensures
        ipv4_from_text(ipv4_text(a.0@)) == Ok::<Seq<u8>, &'static str>(a.0@),
{
    let b = a.0@;
    let gs = ipv4_groups(b);
    assert forall|i: int| 0 <= i < gs.len() implies !(#[trigger] gs[i]).contains('.') by {
        lemma_dec_text(b[i] as nat);
    }
    lemma_split_join(gs, '.');
    assert forall|i: int| 0 <= i < gs.len() implies #[trigger] parse_unsigned(gs[i], 10, 255)
        == Some(b[i] as nat) by {
        lemma_dec_text(b[i] as nat);
    }
    let parsed = gs.map_values(|g: Seq<char>| parse_unsigned(g, 10, 255)->0 as u8);
    assert(parsed =~= b);
}

impl IPv4Address {
    /// A random address `192.168.0.x` with `x` in `1..=254`.
    pub fn new() -> (r: IPv4Address)
        ensures
            r.0[0] == 192,
            r.0[1] == 168,
            r.0[2] == 0,
            1 <= r.0[3] <= 254,
    {
        let host = random_in_range(1, 254);
        IPv4Address::from_host(host as u8)
    }

    /// The address `192.168.0.host`.
    pub fn from_host(host: u8) -> (r: IPv4Address)
        ensures
            r.0@ == seq![192u8, 168u8, 0u8, host],
    {
        let r = IPv4Address([192, 168, 0, host]);
        assert(r.0@ =~= seq![192u8, 168u8, 0u8, host]);
        r
    }

    /// Reads an address from four dot-separated decimal groups.
    pub fn from_string(s: &str) -> (r: Result<IPv4Address, &'static str>)
        ensures
            match ipv4_from_text(s@) {
                Ok(b) => r is Ok && r->Ok_0.0@ == b,
                Err(e) => r == Err::<IPv4Address, &'static str>(e),
            },
    {
        let parts = split_chars(s, '.');
        let ghost gs = split(s@, '.');
        if parts.len() != 4 {
            return Err(IPV4_FORMAT_ERROR);
        }
        let mut bytes: Vec<u8> = Vec::new();
        let mut i: usize = 0;
        while i < 4
            invariant
                i <= 4,
                gs == split(s@, '.'),
                parts@.len() == gs.len(),
                gs.len() == 4,
                forall|j: int| 0 <= j < parts@.len() ==> (#[trigger] parts@[j])@ == gs[j],
                bytes@.len() == i,
                forall|j: int|
                    0 <= j < i ==> #[trigger] parse_unsigned(gs[j], 10, 255) == Some(
                        bytes@[j] as nat,
                    ),
            decreases 4 - i,
        {
            match parse_unsigned_chars(&parts[i], 10, 255) {
                None => {
                    assert(parse_unsigned(gs[i as int], 10, 255) is None);
                    return Err(IPV4_NUMBER_ERROR);
                },
                Some(v) => {
                    bytes.push(v as u8);
                },
            }
            i = i + 1;
        }
        let a = IPv4Address([bytes[0], bytes[1], bytes[2], bytes[3]]);
        assert(a.0@ =~= gs.map_values(|g: Seq<char>| parse_unsigned(g, 10, 255)->0 as u8));
        Ok(a)
    }

    /// The address with the given bytes.
    pub fn from_array(array: [u8; 4]) -> (r: IPv4Address)
        ensures
            r.0 == array,
    {
        IPv4Address(array)
    }

    /// The bytes of the address.
    pub fn as_slice(&self) -> (r: &[u8])
        ensures
            r@ == self.0@,
    {
        self.0.as_slice()
    }

    /// The bytes of the address.
    pub fn to_array(&self) -> (r: [u8; 4])
        ensures
            r == self.0,
    {
        self.0
    }

    /// Canonical text of the address: `192.168.0.1`.
    pub fn to_text(&self) -> (s: String)
        ensures
            s@ == ipv4_text(self.0@),
    {
        let ghost gs = ipv4_groups(self.0@);
        let mut s = String::new();
        let mut i: usize = 0;
        while i < 4
            invariant
                i <= 4,
                gs == ipv4_groups(self.0@),
                s@ == join(gs.take(i as int), '.'),
            decreases 4 - i,
        {
            proof {
                assert(gs.take(i + 1).drop_last() =~= gs.take(i as int));
            }
            if i > 0 {
                push_char(&mut s, '.');
            }
            push_decimal(&mut s, self.0[i] as u32);
            proof {
                if i == 0 {
                    assert(s@ =~= join(gs.take(1), '.'));
                } else {
                    assert(s@ =~= join(gs.take(i + 1), '.'));
                }
            }
            i = i + 1;
        }
        proof {
            assert(gs.take(4) =~= gs);
        }
        s
    }

    /// Human-readable rendering: `#IPv4 address=192.168.0.1`.
    pub fn to_string(&self) -> (s: String)
        ensures
            s@ == ipv4_display_text(self.0@),
    {
        let mut s = String::new();
        s.append("#IPv4 address=");
        let t = self.to_text();
        s.append(t.as_str());
        s
    }
}

} // verus!
