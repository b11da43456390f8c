//! Link-layer (Ethernet) frames: two addresses, a type field and a payload.
use crate::mac_address::{mac_display_text, MacAddress};
use crate::text::{hex_byte_text, join, push_char, push_hex_byte};
use vstd::prelude::*;

verus! {

/// Type field of a frame that carries an internetwork version 4 packet.
pub const ETHERTYPE_IPV4: u16 = 0x0800;

/// Bytes of a frame header: destination, source, type.
pub const HEADER_LEN: usize = 14;

/// A link-layer frame.
#[derive(Clone, Debug, PartialEq, Eq, Hash)]
pub struct EthernetFrame {
    pub dst_mac: MacAddress,
    pub src_mac: MacAddress,
    pub ethertype: u16,
    pub data: Vec<u8>,
}

/// A 16-bit value as two bytes, high byte first.
pub open spec fn be_bytes(v: u16) -> Seq<u8> {
    seq![(v / 256) as u8, (v % 256) as u8]
}

/// The bytes of a link-layer frame: destination, source, type (big-endian),
/// payload.
pub open spec fn frame_bytes(f: EthernetFrame) -> Seq<u8> {
    f.dst_mac.0@ + f.src_mac.0@ + be_bytes(f.ethertype) + f.data@
}

/// Length of a link-layer frame in bytes.
pub open spec fn frame_length(f: EthernetFrame) -> nat {
    14 + f.data@.len()
}

/// Whether the length of `f` can be counted in a `usize`.
pub open spec fn frame_fits(f: EthernetFrame) -> bool {
    f.data@.len() + 14 <= usize::MAX
}

/// Bytes as upper-case hex pairs separated by `sep`.
pub open spec fn hex_bytes_text(b: Seq<u8>, sep: char) -> Seq<char> {
    join(b.map_values(|x: u8| hex_byte_text(x)), sep)
}

/// Human-readable rendering of a link-layer frame, one field per line.
pub open spec fn frame_display_text(f: EthernetFrame) -> Seq<char> {
    "#dst_mac     : "@ + mac_display_text(f.dst_mac.0@) + "\n#src_mac     : "@ + mac_display_text(
        f.src_mac.0@,
    ) + "\n#ethertype   : "@ + hex_byte_text((f.ethertype / 256) as u8) + hex_byte_text(
        (f.ethertype % 256) as u8,
    ) + "\n#data        : ["@ + hex_bytes_text(f.data@, ' ') + "]\n"@
}

/// Appends `b` as upper-case hex pairs separated by `sep`.
pub fn push_hex_bytes(s: &mut String, b: &[u8], sep: char)
    ensures
        final(s)@ == old(s)@ + hex_bytes_text(b@, sep),
{
    let ghost gs = b@.map_values(|x: u8| hex_byte_text(x));
    let mut i: usize = 0;
    proof {
        assert(gs.take(0) =~= Seq::<Seq<char>>::empty());
        assert(old(s)@ + join(gs.take(0), sep) =~= old(s)@);
    }
    while i < b.len()
        invariant
            i <= b@.len(),
            gs == b@.map_values(|x: u8| hex_byte_text(x)),
            s@ == old(s)@ + join(gs.take(i as int), sep),
        decreases b.len() - i,
    {
        proof {
            assert(gs.take(i + 1).drop_last() =~= gs.take(i as int));
        }
        if i > 0 {
            push_char(s, sep);
        }
        push_hex_byte(s, b[i]);
        proof {
            if i == 0 {
                assert(s@ =~= old(s)@ + join(gs.take(1), sep));
            } else {
                assert(s@ =~= old(s)@ + join(gs.take(i + 1), sep));
            }
        }
        i = i + 1;
    }
    proof {
        assert(gs.take(b@.len() as int) =~= gs);
    }
}

/// Appends the bytes of `s` to `v`.
pub fn append_bytes(v: &mut Vec<u8>, s: &[u8])
    ensures
        final(v)@ == old(v)@ + s@,
{
    let mut i: usize = 0;
    while i < s.len()
        invariant
            i <= s@.len(),
            v@ == old(v)@ + s@.take(i as int),
        decreases s.len() - i,
    {
        v.push(s[i]);
        i = i + 1;
        assert(v@ =~= old(v)@ + s@.take(i as int));
    }
    assert(s@.take(i as int) =~= s@);
}

impl EthernetFrame {
    /// A frame from optional parts: the destination defaults to broadcast,
    /// the source to a fresh random address, the type to internetwork
    /// version 4, the payload to empty.
    pub fn new(
        dst_mac: Option<MacAddress>,
        src_mac: Option<MacAddress>,
        ethertype: Option<u16>,
        data: Option<Vec<u8>>,
    ) -> (r: EthernetFrame)
        ensures
            match dst_mac {
                Some(d) => r.dst_mac == d,
                None => forall|i: int| 0 <= i < 6 ==> r.dst_mac.0[i] == 0xFF,
            },
            match src_mac {
                Some(s) => r.src_mac == s,
                None => r.src_mac.0[0] & 0x02 == 0x02,
            },
            match ethertype {
                Some(t) => r.ethertype == t,
                None => r.ethertype == ETHERTYPE_IPV4,
            },
            match data {
                Some(d) => r.data@ == d@,
                None => r.data@.len() == 0,
            },
    {
        let dst = match dst_mac {
            Some(d) => d,
            None => MacAddress::get_broadcast_mac_addr(),
        };
        let src = match src_mac {
            Some(s) => s,
            None => MacAddress::new(),
        };
        let kind = match ethertype {
            Some(t) => t,
            None => ETHERTYPE_IPV4,
        };
        let payload = match data {
            Some(d) => d,
            None => Vec::new(),
        };
        EthernetFrame { dst_mac: dst, src_mac: src, ethertype: kind, data: payload }
    }

    /// A frame from its raw parts.
    pub fn from_raw(dst_mac: [u8; 6], src_mac: [u8; 6], ethertype: u16, data: Vec<u8>) -> (r:
        EthernetFrame)
        ensures
            r.dst_mac.0 == dst_mac,
            r.src_mac.0 == src_mac,
            r.ethertype == ethertype,
            r.data@ == data@,
    {
        EthernetFrame {
            dst_mac: MacAddress(dst_mac),
            src_mac: MacAddress(src_mac),
            ethertype,
            data,
        }
    }

    /// Length of the frame in bytes: the 14 header bytes and the payload.
    pub fn total_length(&self) -> (r: usize)
        requires
            frame_fits(*self),
        ensures
            r == frame_length(*self),
    {
        HEADER_LEN + self.data.len()
    }

    /// Appends the bytes of the frame to `out`.
    pub fn write_bytes(&self, out: &mut Vec<u8>)
        ensures
            final(out)@ == old(out)@ + frame_bytes(*self),
    {
        append_bytes(out, self.dst_mac.as_slice());
        append_bytes(out, self.src_mac.as_slice());
        out.push((self.ethertype / 256) as u8);
        out.push((self.ethertype % 256) as u8);
        append_bytes(out, self.data.as_slice());
        assert(out@ =~= old(out)@ + frame_bytes(*self));
    }

    /// The bytes of the frame: destination, source, type (big-endian),
    /// payload.
    pub fn to_bytes(&self) -> (r: Vec<u8>)
        ensures
            r@ == frame_bytes(*self),
    {
        let mut out: Vec<u8> = Vec::new();
        self.write_bytes(&mut out);
        assert(out@ =~= frame_bytes(*self));
        out
    }
}

impl EthernetFrame {
    /// Human-readable rendering of the frame, one field per line.
    pub fn to_string(&self) -> (s: String)
        ensures
            s@ == frame_display_text(*self),
    {
        let mut s = String::new();
        s.append("#dst_mac     : ");
        let d = self.dst_mac.to_string();
        s.append(d.as_str());
        s.append("\n#src_mac     : ");
        let r = self.src_mac.to_string();
        s.append(r.as_str());
        s.append("\n#ethertype   : ");
        push_hex_byte(&mut s, (self.ethertype / 256) as u8);
        push_hex_byte(&mut s, (self.ethertype % 256) as u8);
        s.append("\n#data        : [");
        push_hex_bytes(&mut s, self.data.as_slice(), ' ');
        s.append("]\n");
        assert(s@ =~= frame_display_text(*self));
        s
    }
}

impl Default for EthernetFrame {
    /// The all-zero frame: both addresses zero, type zero, no payload.
    fn default() -> (r: EthernetFrame)
        ensures
            r.dst_mac.0@ == Seq::new(6, |i: int| 0u8),
            r.src_mac.0@ == Seq::new(6, |i: int| 0u8),
            r.ethertype == 0,
            r.data@.len() == 0,
    {
        let r = EthernetFrame {
            dst_mac: MacAddress([0, 0, 0, 0, 0, 0]),
            src_mac: MacAddress([0, 0, 0, 0, 0, 0]),
            ethertype: 0,
            data: Vec::new(),
        };
        assert(r.dst_mac.0@ =~= Seq::new(6, |i: int| 0u8));
        assert(r.src_mac.0@ =~= Seq::new(6, |i: int| 0u8));
        r
    }
}

/// A frame's length counts its bytes, payload of any length included.
pub proof fn lemma_frame_length(f: EthernetFrame)
    ensures
        frame_bytes(f).len() == frame_length(f),
        frame_length(f) == 14 + f.data@.len(),
{
}

} // verus!
