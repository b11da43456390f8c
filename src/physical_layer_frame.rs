//! Physical-layer frames: a preamble and a start-of-frame delimiter around one
//! link-layer frame.
use crate::ethernet_frame::{
    append_bytes, frame_bytes, frame_display_text, frame_length, hex_bytes_text, push_hex_bytes,
    EthernetFrame,
};
use crate::text::{hex_byte_text, push_hex_byte};
use vstd::prelude::*;

verus! {

/// Each of the seven preamble bytes.
pub const PREAMBLE_BYTE: u8 = 0xAA;

/// The start-of-frame delimiter.
pub const SFD: u8 = 0xAB;

/// A physical-layer frame.
#[derive(Clone, Debug, PartialEq, Eq, Hash)]
pub struct PhysicalLayerFrame {
    pub preamble: [u8; 7],
    pub sfd: u8,
    pub ethernet_frame: EthernetFrame,
}

/// Whether `p` carries the fixed preamble and delimiter.
pub open spec fn has_standard_header(p: PhysicalLayerFrame) -> bool {
    &&& forall|i: int| 0 <= i < 7 ==> p.preamble[i] == PREAMBLE_BYTE
    &&& p.sfd == SFD
}

/// The bytes of a physical-layer frame: preamble, delimiter, then the bytes
/// of the link-layer frame.
pub open spec fn physical_bytes(p: PhysicalLayerFrame) -> Seq<u8> {
    p.preamble@ + seq![p.sfd] + frame_bytes(p.ethernet_frame)
}

/// Human-readable rendering of a physical-layer frame.
pub open spec fn physical_display_text(p: PhysicalLayerFrame) -> Seq<char> {
    "#preamble       : "@ + hex_bytes_text(p.preamble@, ' ') + "\n#sfd            : "@
        + hex_byte_text(p.sfd) + "\n#ethernet_frame : \n"@ + frame_display_text(p.ethernet_frame)
        + "\n"@
}

/// Length of a physical-layer frame in bytes.
pub open spec fn physical_length(p: PhysicalLayerFrame) -> nat {
    8 + frame_length(p.ethernet_frame)
}

/// Whether the length of `p` can be counted in a `usize`.
pub open spec fn physical_fits(p: PhysicalLayerFrame) -> bool {
    p.ethernet_frame.data@.len() + 22 <= usize::MAX
}

impl PhysicalLayerFrame {
    /// A frame with the fixed preamble and delimiter around `frame`, or
    /// around the all-zero link-layer frame when there is none.
    pub fn new(frame: Option<EthernetFrame>) -> (r: PhysicalLayerFrame)
        ensures
            has_standard_header(r),
            match frame {
                Some(f) => r.ethernet_frame == f,
                None => {
                    &&& r.ethernet_frame.dst_mac.0@ == Seq::new(6, |i: int| 0u8)
                    &&& r.ethernet_frame.src_mac.0@ == Seq::new(6, |i: int| 0u8)
                    &&& r.ethernet_frame.ethertype == 0
                    &&& r.ethernet_frame.data@.len() == 0
                },
            },
    {
        let inner = match frame {
            Some(f) => f,
            None => EthernetFrame::default(),
        };
        PhysicalLayerFrame {
            preamble: [
                PREAMBLE_BYTE,
                PREAMBLE_BYTE,
                PREAMBLE_BYTE,
                PREAMBLE_BYTE,
                PREAMBLE_BYTE,
                PREAMBLE_BYTE,
                PREAMBLE_BYTE,
            ],
            sfd: SFD,
            ethernet_frame: inner,
        }
    }

    /// A frame from its raw parts.
    pub fn from_raw(preamble: [u8; 7], sfd: u8, ethernet_frame: EthernetFrame) -> (r:
        PhysicalLayerFrame)
        ensures
            r.preamble == preamble,
            r.sfd == sfd,
            r.ethernet_frame == ethernet_frame,
    {
        PhysicalLayerFrame { preamble, sfd, ethernet_frame }
    }

    /// Length of the frame in bytes: eight header bytes and the link-layer
    /// frame.
    pub fn total_length(&self) -> (r: usize)
        requires
            physical_fits(*self),
        ensures
            r == physical_length(*self),
    {
        8 + self.ethernet_frame.total_length()
    }

    /// Human-readable rendering of the frame and of the link-layer frame it
    /// carries.
    pub fn to_string(&self) -> (s: String)
        ensures
            s@ == physical_display_text(*self),
    {
        let mut s = String::new();
        s.append("#preamble       : ");
        push_hex_bytes(&mut s, self.preamble.as_slice(), ' ');
        s.append("\n#sfd            : ");
        push_hex_byte(&mut s, self.sfd);
        s.append("\n#ethernet_frame : \n");
        let f = self.ethernet_frame.to_string();
        s.append(f.as_str());
        s.append("\n");
        assert(s@ =~= physical_display_text(*self));
        s
    }

    /// The bytes of the frame: preamble, delimiter, destination, source,
    /// type (big-endian), payload.
    pub fn to_bytes(&self) -> (r: Vec<u8>)
        ensures
            r@ == physical_bytes(*self),
    {
        let mut out: Vec<u8> = Vec::new();
        append_bytes(&mut out, self.preamble.as_slice());
        out.push(self.sfd);
        self.ethernet_frame.write_bytes(&mut out);
        assert(out@ =~= physical_bytes(*self));
        out
    }
}

/// The bytes of a physical-layer frame number its length, and a frame with the
/// fixed header starts with seven `0xAA` bytes and one `0xAB` byte.
pub proof fn lemma_physical_layout(p: PhysicalLayerFrame)
    ensures
        physical_bytes(p).len() == physical_length(p),
        has_standard_header(p) ==> {
            &&& forall|i: int| 0 <= i < 7 ==> physical_bytes(p)[i] == 0xAA
            &&& physical_bytes(p)[7] == 0xAB
        },
{
    let b = physical_bytes(p);
    assert(b.len() == 7 + 1 + frame_bytes(p.ethernet_frame).len());
    if has_standard_header(p) {
        assert forall|i: int| 0 <= i < 7 implies physical_bytes(p)[i] == 0xAA by {
            assert(b[i] == p.preamble@[i]);
        }
        assert(b[7] == p.sfd);
    }
}

} // verus!
