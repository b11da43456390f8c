use netsim_link::ethernet_cable::generated_id;
use netsim_link::{
    Endpoint, EthernetCable, EthernetFrame, FrameLog, FrameReceiver, PhysicalLayerFrame,
};
use std::sync::{Arc, Mutex};

#[derive(Clone)]
struct Recorder {
    name: &'static str,
    log: Arc<Mutex<Vec<(&'static str, PhysicalLayerFrame)>>>,
}

impl FrameReceiver for Recorder {
    fn receive(&mut self, frame: PhysicalLayerFrame) {
        self.log.lock().unwrap().push((self.name, frame));
    }
}

fn recorders() -> (Recorder, Recorder, Arc<Mutex<Vec<(&'static str, PhysicalLayerFrame)>>>) {
    let log = Arc::new(Mutex::new(Vec::new()));
    (
        Recorder { name: "a", log: log.clone() },
        Recorder { name: "b", log: log.clone() },
        log,
    )
}

fn frame_x() -> PhysicalLayerFrame {
    PhysicalLayerFrame::new(Some(EthernetFrame::from_raw([1; 6], [2; 6], 0x0800, vec![42, 43])))
}

#[test]
fn new_cable_is_unconnected() {
    let c: EthernetCable<Recorder> = EthernetCable::new(Some("c1".to_string()));
    assert_eq!(c.get_id(), "c1");
    assert!(!c.is_connected());
    assert_eq!(c.get_endpoint1_component_id(), None);
    assert_eq!(c.get_endpoint2_component_id(), None);
}

#[test]
fn generated_cable_id() {
    let c: EthernetCable<Recorder> = EthernetCable::new(None);
    let id = c.get_id();
    let n: u32 = id.strip_prefix("cable-").unwrap().parse().unwrap();
    assert!(n >= 9 && n <= 9998);
    assert_eq!(generated_id(42), "cable-42");
}

#[test]
fn scenario_connect_register_transmit() {
    let (cb_a, cb_b, log) = recorders();
    let mut c = EthernetCable::new(None);
    c.connect(Some("A".to_string()), Some("B".to_string()));
    assert!(c.is_connected());
    c.set_callback("A".to_string(), cb_a);
    c.set_callback("B".to_string(), cb_b);
    let r = c.transmit_signal("A".to_string(), frame_x());
    assert_eq!(r, Some(Endpoint::Endpoint2));
    let got = log.lock().unwrap().clone();
    assert_eq!(got.len(), 1);
    assert_eq!(got[0].0, "b");
    assert_eq!(got[0].1, frame_x());
}

#[test]
fn delivery_goes_both_ways() {
    let (cb_a, cb_b, log) = recorders();
    let mut c = EthernetCable::new(Some("c".to_string()));
    c.connect_endpoint1(Some("A".to_string()));
    assert!(!c.is_connected());
    c.connect_endpoint2(Some("B".to_string()));
    assert!(c.is_connected());
    c.set_callback("A".to_string(), cb_a);
    c.set_callback("B".to_string(), cb_b);
    assert_eq!(c.transmit_signal("B".to_string(), frame_x()), Some(Endpoint::Endpoint1));
    assert_eq!(c.transmit_signal("A".to_string(), PhysicalLayerFrame::new(None)), Some(Endpoint::Endpoint2));
    let got = log.lock().unwrap().clone();
    assert_eq!(got.len(), 2);
    assert_eq!(got[0], ("a", frame_x()));
    assert_eq!(got[1], ("b", PhysicalLayerFrame::new(None)));
}

#[test]
fn unknown_sender_reaches_nobody() {
    let (cb_a, cb_b, log) = recorders();
    let mut c = EthernetCable::new(None);
    c.connect(Some("A".to_string()), Some("B".to_string()));
    c.set_callback("A".to_string(), cb_a);
    c.set_callback("B".to_string(), cb_b);
    assert!(c.can_transmit(&"Z".to_string()));
    assert_eq!(c.transmit_signal("Z".to_string(), frame_x()), None);
    assert_eq!(c.transmit_signal("a".to_string(), frame_x()), None);
    assert!(log.lock().unwrap().is_empty());
}

#[test]
fn callback_for_unbound_id_is_ignored() {
    let (cb_a, cb_b, log) = recorders();
    let mut c = EthernetCable::new(None);
    c.set_callback("A".to_string(), cb_a.clone());
    c.connect(Some("A".to_string()), Some("B".to_string()));
    c.set_callback("B".to_string(), cb_b);
    c.set_callback("Q".to_string(), cb_a);
    // endpoint 1 has no receiver yet, so a frame sent from B cannot go out
    assert!(!c.can_transmit(&"B".to_string()));
    assert_eq!(c.transmit_signal("A".to_string(), frame_x()), Some(Endpoint::Endpoint2));
    assert_eq!(log.lock().unwrap().len(), 1);
}

#[test]
fn same_component_on_both_ends() {
    let (cb_a, _cb_b, log) = recorders();
    let mut c = EthernetCable::new(None);
    c.connect(Some("A".to_string()), Some("A".to_string()));
    c.set_callback("A".to_string(), cb_a);
    assert_eq!(c.transmit_signal("A".to_string(), frame_x()), Some(Endpoint::Endpoint2));
    assert_eq!(log.lock().unwrap()[0].0, "a");
}

#[test]
fn rebinding_keeps_connected_and_other_end() {
    let mut c: EthernetCable<Recorder> = EthernetCable::new(None);
    c.connect(Some("A".to_string()), Some("B".to_string()));
    c.connect_endpoint1(None);
    assert!(c.is_connected());
    assert_eq!(c.get_endpoint1_component_id(), None);
    assert_eq!(c.get_endpoint2_component_id(), Some("B".to_string()));
    c.connect_endpoint2(Some("C".to_string()));
    assert_eq!(c.get_endpoint2_component_id(), Some("C".to_string()));
}

#[test]
fn unwired_cable_cannot_transmit() {
    let c: EthernetCable<Recorder> = EthernetCable::new(None);
    assert!(!c.can_transmit(&"A".to_string()));
    let mut d: EthernetCable<Recorder> = EthernetCable::new(None);
    d.connect(Some("A".to_string()), None);
    assert!(!d.can_transmit(&"A".to_string()));
}

#[test]
fn receivers_without_connection_stop_early() {
    let (cb_a, cb_b, log) = recorders();
    let mut c = EthernetCable::new(None);
    c.connect(Some("A".to_string()), None);
    c.set_callback("A".to_string(), cb_a);
    c.connect(None, Some("B".to_string()));
    c.set_callback("B".to_string(), cb_b);
    assert!(!c.is_connected());
    assert!(c.can_transmit(&"A".to_string()));
    assert_eq!(c.transmit_signal("A".to_string(), frame_x()), None);
    assert!(log.lock().unwrap().is_empty());
}

#[test]
fn frame_log_receivers_take_exactly_the_frame() {
    let mut c = EthernetCable::new(None);
    c.connect(Some("A".to_string()), Some("B".to_string()));
    c.set_callback("A".to_string(), FrameLog::new());
    c.set_callback("B".to_string(), FrameLog::new());
    assert_eq!(c.transmit_signal("A".to_string(), frame_x()), Some(Endpoint::Endpoint2));
    assert_eq!(c.get_endpoint2_callback().unwrap().frames, vec![frame_x()]);
    assert!(c.get_endpoint1_callback().unwrap().frames.is_empty());
    assert_eq!(c.transmit_signal("C".to_string(), frame_x()), None);
    assert_eq!(c.get_endpoint2_callback().unwrap().frames.len(), 1);
    assert!(c.get_endpoint1_callback().unwrap().frames.is_empty());
}
