use netsim_link::ethernet_frame::ETHERTYPE_IPV4;
use netsim_link::{EthernetFrame, MacAddress, PhysicalLayerFrame};

fn sample() -> EthernetFrame {
    EthernetFrame::from_raw([1, 2, 3, 4, 5, 6], [7, 8, 9, 10, 11, 12], 0x86dd, vec![0xde, 0xad])
}

#[test]
fn ethernet_defaults() {
    let f = EthernetFrame::new(None, None, None, None);
    assert_eq!(f.dst_mac, MacAddress::get_broadcast_mac_addr());
    assert_eq!(f.src_mac.to_array()[0] & 0x02, 0x02);
    assert_eq!(f.ethertype, ETHERTYPE_IPV4);
    assert_eq!(f.ethertype, 0x0800);
    assert!(f.data.is_empty());
}

#[test]
fn ethernet_given_parts() {
    let d = MacAddress::from_array([1, 1, 1, 1, 1, 1]);
    let s = MacAddress::from_array([2, 2, 2, 2, 2, 2]);
    let f = EthernetFrame::new(Some(d), Some(s), Some(0x0806), Some(vec![5, 6, 7]));
    assert_eq!(f.dst_mac, d);
    assert_eq!(f.src_mac, s);
    assert_eq!(f.ethertype, 0x0806);
    assert_eq!(f.data, vec![5, 6, 7]);
}

#[test]
fn ethernet_total_length() {
    assert_eq!(EthernetFrame::from_raw([0; 6], [0; 6], 0, vec![]).total_length(), 14);
    assert_eq!(sample().total_length(), 16);
    assert_eq!(EthernetFrame::from_raw([0; 6], [0; 6], 0, vec![0; 1500]).total_length(), 1514);
}

#[test]
fn ethernet_bytes() {
    assert_eq!(
        sample().to_bytes(),
        vec![1, 2, 3, 4, 5, 6, 7, 8, 9, 10, 11, 12, 0x86, 0xdd, 0xde, 0xad]
    );
}

#[test]
fn physical_defaults_wrap_zero_frame() {
    let p = PhysicalLayerFrame::new(None);
    assert_eq!(p.preamble, [0xaa; 7]);
    assert_eq!(p.sfd, 0xab);
    assert_eq!(p.ethernet_frame, EthernetFrame::default());
    assert_eq!(p.ethernet_frame.dst_mac.to_array(), [0; 6]);
    assert_eq!(p.ethernet_frame.ethertype, 0);
    assert_eq!(p.total_length(), 22);
}

#[test]
fn physical_bytes_layout() {
    let p = PhysicalLayerFrame::new(Some(sample()));
    let b = p.to_bytes();
    assert_eq!(b.len(), p.total_length());
    assert_eq!(p.total_length(), 24);
    assert_eq!(&b[..7], &[0xaa; 7]);
    assert_eq!(b[7], 0xab);
    assert_eq!(&b[8..], &sample().to_bytes()[..]);
}

#[test]
fn physical_empty_payload_length() {
    let p = PhysicalLayerFrame::new(Some(EthernetFrame::from_raw([3; 6], [4; 6], 1, vec![])));
    assert_eq!(p.to_bytes().len(), p.total_length());
    assert_eq!(p.total_length(), 22);
}

#[test]
fn physical_from_raw_keeps_header() {
    let p = PhysicalLayerFrame::from_raw([1; 7], 2, sample());
    let b = p.to_bytes();
    assert_eq!(&b[..8], &[1, 1, 1, 1, 1, 1, 1, 2]);
    assert_eq!(b.len(), p.total_length());
}

#[test]
fn frame_renderings() {
    let eth = "#dst_mac     : #MAC ADDRESS=01:02:03:04:05:06\n\
               #src_mac     : #MAC ADDRESS=07:08:09:0A:0B:0C\n\
               #ethertype   : 86DD\n\
               #data        : [DE AD]\n";
    assert_eq!(sample().to_string(), eth);
    let phy = format!(
        "#preamble       : AA AA AA AA AA AA AA\n#sfd            : AB\n#ethernet_frame : \n{}\n",
        eth
    );
    assert_eq!(PhysicalLayerFrame::new(Some(sample())).to_string(), phy);
    let empty = EthernetFrame::from_raw([0; 6], [0; 6], 0x0800, vec![]);
    assert!(empty.to_string().ends_with("#ethertype   : 0800\n#data        : []\n"));
}
