//! Link-layer (MAC) addresses: six bytes.
use crate::random::random_bytes;
use crate::text::{
    hex_byte_text, join, lemma_hex_byte_parse, lemma_split_join, parse_unsigned,
    parse_unsigned_chars, push_char, push_hex_byte, split, split_chars,
};
use vstd::prelude::*;

verus! {

/// Error for text with a group that is not a hexadecimal byte.
pub const MAC_FORMAT_ERROR: &'static str = "Invalid MAC address format";

/// Error for text with a number of groups other than six.
pub const MAC_LENGTH_ERROR: &'static str = "MAC address must contain exactly 6 bytes";

/// A link-layer address.
#[derive(Clone, Copy, Debug, PartialEq, Eq, Hash, Default)]
pub struct MacAddress(pub [u8; 6]);

/// The groups of the canonical text: each byte as two upper-case hex digits.
pub open spec fn mac_groups(b: Seq<u8>) -> Seq<Seq<char>> {
    b.map_values(|x: u8| hex_byte_text(x))
}

/// Canonical text of a link-layer address: `01:23:45:67:89:AB`.
pub open spec fn mac_text(b: Seq<u8>) -> Seq<char> {
    join(mac_groups(b), ':')
}

/// Human-readable rendering of a link-layer address.
pub open spec fn mac_display_text(b: Seq<u8>) -> Seq<char> {
    "#MAC ADDRESS="@ + mac_text(b)
}

/// The byte that one group of a link-layer address stands for: the group is
/// exactly two hexadecimal digits.
pub open spec fn mac_group_value(g: Seq<char>) -> Option<nat> {
    if g.len() == 2 {
        parse_unsigned(g, 16, 255)
    } else {
        None
    }
}

/// What reading `s` as a link-layer address gives: the bytes, or the error.
/// Each colon-separated group is two hexadecimal digits; a group that is not
/// comes before a wrong count of groups.
pub open spec fn mac_from_text(s: Seq<char>) -> Result<Seq<u8>, &'static str> {
    let gs = split(s, ':');
    if exists|i: int| 0 <= i < gs.len() && (#[trigger] mac_group_value(gs[i])) is None {
        Err(MAC_FORMAT_ERROR)
    } else if gs.len() != 6 {
        Err(MAC_LENGTH_ERROR)
    } else {
        Ok(gs.map_values(|g: Seq<char>| mac_group_value(g)->0 as u8))
    }
}

/// Reading the canonical text of a link-layer address gives the address back.
pub proof fn lemma_mac_round_trip(a: MacAddress)
    ensures
        mac_from_text(mac_text(a.0@)) == Ok::<Seq<u8>, &'static str>(a.0@),
{
    let b = a.0@;
    let gs = mac_groups(b);
    assert forall|i: int| 0 <= i < gs.len() implies !(#[trigger] gs[i]).contains(':') by {
        lemma_hex_byte_parse(b[i]);
    }
    lemma_split_join(gs, ':');
    assert forall|i: int| 0 <= i < gs.len() implies #[trigger] mac_group_value(gs[i]) == Some(
        b[i] as nat,
    ) by {
        lemma_hex_byte_parse(b[i]);
    }
    let parsed = gs.map_values(|g: Seq<char>| mac_group_value(g)->0 as u8);
    assert(parsed =~= b);
}

impl MacAddress {
    /// A random, locally administered address: six random bytes with bit 1
    /// of the first byte set.
    pub fn new() -> (r: MacAddress)
        ensures
            r.0[0] & 0x02 == 0x02,
    {
        let raw = random_bytes(6);
        MacAddress::local_from_random([raw[0], raw[1], raw[2], raw[3], raw[4], raw[5]])
    }

    /// The locally administered address made from the bytes `raw`: bit 1 of
    /// the first byte is set, the other bits and bytes are kept.
    pub fn local_from_random(raw: [u8; 6]) -> (r: MacAddress)
        ensures
            r.0[0] == raw[0] | 0x02,
            r.0[0] & 0x02 == 0x02,
            forall|i: int| 1 <= i < 6 ==> r.0[i] == raw[i],
    {
        let r0 = raw[0];
        let first = r0 | 0x02;
        assert(first & 0x02 == 0x02) by (bit_vector)
            requires
                first == r0 | 0x02,
        ;
        MacAddress([first, raw[1], raw[2], raw[3], raw[4], raw[5]])
    }

    /// Reads an address from six colon-separated groups of two hexadecimal
    /// digits.
    pub fn from_string(mac_str: &str) -> (r: Result<MacAddress, &'static str>)
        ensures
            match mac_from_text(mac_str@) {
                Ok(b) => r is Ok && r->Ok_0.0@ == b,
                Err(e) => r == Err::<MacAddress, &'static str>(e),
            },
    {
        let parts = split_chars(mac_str, ':');
        let ghost gs = split(mac_str@, ':');
        let mut bytes: Vec<u8> = Vec::new();
        let mut i: usize = 0;
        while i < parts.len()
            invariant
                i <= parts@.len(),
                gs == split(mac_str@, ':'),
                parts@.len() == gs.len(),
                forall|j: int| 0 <= j < parts@.len() ==> (#[trigger] parts@[j])@ == gs[j],
                bytes@.len() == i,
                forall|j: int|
                    0 <= j < i ==> #[trigger] mac_group_value(gs[j]) == Some(bytes@[j] as nat),
            decreases parts.len() - i,
        {
            if parts[i].len() != 2 {
                assert(mac_group_value(gs[i as int]) is None);
                return Err(MAC_FORMAT_ERROR);
            }
            match parse_unsigned_chars(&parts[i], 16, 255) {
                None => {
                    assert(mac_group_value(gs[i as int]) is None);
                    return Err(MAC_FORMAT_ERROR);
                },
                Some(v) => {
                    bytes.push(v as u8);
                },
            }
            i = i + 1;
        }
        if bytes.len() == 6 {
            let a = MacAddress([bytes[0], bytes[1], bytes[2], bytes[3], bytes[4], bytes[5]]);
            assert(a.0@ =~= gs.map_values(|g: Seq<char>| mac_group_value(g)->0 as u8));
            Ok(a)
        } else {
            Err(MAC_LENGTH_ERROR)
        }
    }

    /// The address with the given bytes.
    pub fn from_array(bytes: [u8; 6]) -> (r: MacAddress)
        ensures
            r.0 == bytes,
    {
        MacAddress(bytes)
    }

    /// The bytes of the address.
    pub fn as_slice(&self) -> (r: &[u8])
        ensures
            r@ == self.0@,
    {
        self.0.as_slice()
    }

    /// The bytes of the address.
    pub fn to_array(&self) -> (r: [u8; 6])
        ensures
            r == self.0,
    {
        self.0
    }

    /// The broadcast address: every byte `0xFF`.
    pub fn get_broadcast_mac_addr() -> (r: MacAddress)
        ensures
            forall|i: int| 0 <= i < 6 ==> r.0[i] == 0xFF,
    {
        MacAddress([0xFF, 0xFF, 0xFF, 0xFF, 0xFF, 0xFF])
    }

    /// The placeholder target of an address-resolution request: every byte
    /// `0x00`.
    pub fn get_arp_target_mac_addr() -> (r: MacAddress)
        ensures
            forall|i: int| 0 <= i < 6 ==> r.0[i] == 0x00,
    {
        MacAddress([0x00, 0x00, 0x00, 0x00, 0x00, 0x00])
    }

    /// Canonical text of the address: `01:23:45:67:89:AB`.
    pub fn to_text(&self) -> (s: String)
        ensures
            s@ == mac_text(self.0@),
    {
        let ghost gs = mac_groups(self.0@);
        let mut s = String::new();
        let mut i: usize = 0;
        while i < 6
            invariant
                i <= 6,
                gs == mac_groups(self.0@),
                s@ == join(gs.take(i as int), ':'),
            decreases 6 - i,
        {
            proof {
                assert(gs.take(i + 1).drop_last() =~= gs.take(i as int));
            }
            if i > 0 {
                push_char(&mut s, ':');
            }
            push_hex_byte(&mut s, self.0[i]);
            proof {
                if i == 0 {
                    assert(s@ =~= join(gs.take(1), ':'));
                } else {
                    assert(s@ =~= join(gs.take(i + 1), ':'));
                }
            }
            i = i + 1;
        }
        proof {
            assert(gs.take(6) =~= gs);
        }
        s
    }

    /// Human-readable rendering: `#MAC ADDRESS=01:23:45:67:89:AB`.
    pub fn to_string(&self) -> (s: String)
        ensures
            s@ == mac_display_text(self.0@),
    {
        let mut s = String::new();
        s.append("#MAC ADDRESS=");
        let t = self.to_text();
        s.append(t.as_str());
        s
    }
}

} // verus!
