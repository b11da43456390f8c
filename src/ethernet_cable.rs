//! A point-to-point cable: two endpoints, each bound to a component and to
//! the receiver that the component registered, relaying frames from one end
//! to the other.
//!
//! A receiver runs while the cable is borrowed for the transmission: it must
//! not reach back into the cable that is delivering to it.
use crate::physical_layer_frame::PhysicalLayerFrame;
use crate::random::random_in_range;
use crate::text::{dec_text, push_decimal};
use vstd::prelude::*;

verus! {

/// Lowest number of a generated cable identifier.
pub const GENERATED_ID_MIN: u32 = 9;

/// Highest number of a generated cable identifier.
pub const GENERATED_ID_MAX: u32 = 9998;

/// What an endpoint hands the frames that reach it to.
pub trait FrameReceiver {
    /// The frames this receiver has taken so far, oldest first. A receiver
    /// that keeps no account of its frames leaves the default, and then no
    /// proof can rest on what it was given.
    open spec fn delivered(&self) -> Seq<PhysicalLayerFrame> {
        Seq::empty()
    }

    /// Takes one frame that arrived at the endpoint.
    fn receive(&mut self, frame: PhysicalLayerFrame)
        ensures
            final(self).delivered() == old(self).delivered().push(frame),
    ;
}

/// A receiver that keeps every frame it is given.
#[derive(Clone, Debug)]
pub struct FrameLog {
    pub frames: Vec<PhysicalLayerFrame>,
}

impl FrameLog {
    /// A log that has taken no frame yet.
    pub fn new() -> (r: FrameLog)
        ensures
            r.delivered() == Seq::<PhysicalLayerFrame>::empty(),
    {
        FrameLog { frames: Vec::new() }
    }
}

impl FrameReceiver for FrameLog {
    open spec fn delivered(&self) -> Seq<PhysicalLayerFrame> {
        self.frames@
    }

    fn receive(&mut self, frame: PhysicalLayerFrame) {
        self.frames.push(frame);
    }
}

/// Whether the receiver slot went from `before` to `after` by taking exactly
/// `frame`.
pub open spec fn took_frame<R: FrameReceiver>(
    before: Option<R>,
    after: Option<R>,
    frame: PhysicalLayerFrame,
) -> bool {
    &&& before is Some
    &&& after is Some
    &&& after->0.delivered() == before->0.delivered().push(frame)
}

/// One of the two ends of a cable.
#[derive(Clone, Copy, Debug, PartialEq, Eq, Hash)]
pub enum Endpoint {
    Endpoint1,
    Endpoint2,
}

/// The state of a cable.
pub struct EthernetCableState<R> {
    pub id: String,
    pub endpoint1_component_id: Option<String>,
    pub endpoint1_callback: Option<R>,
    pub endpoint2_component_id: Option<String>,
    pub endpoint2_callback: Option<R>,
    pub connected: bool,
}

/// The text of an optional identifier.
pub open spec fn id_view(o: Option<String>) -> Option<Seq<char>> {
    match o {
        Some(s) => Some(s@),
        None => None,
    }
}

/// Whether the optional identifier `o` is `id`.
pub open spec fn bound_to(o: Option<String>, id: Seq<char>) -> bool {
    id_view(o) == Some(id)
}

/// The identifier generated from number `n`: `cable-<n>`.
pub open spec fn generated_id_text(n: nat) -> Seq<char> {
    seq!['c', 'a', 'b', 'l', 'e', '-'] + dec_text(n)
}

impl<R> EthernetCableState<R> {
    /// Once both endpoints have been bound, the cable is connected.
    pub open spec fn well_formed(&self) -> bool {
        self.endpoint1_component_id is Some && self.endpoint2_component_id is Some
            ==> self.connected
    }

    /// Whether a transmission stops at once. The cable stops only when it is
    /// not connected and yet both endpoints have receivers; a cable that is
    /// wired less than that goes on to look up the sender.
    pub open spec fn stops_early(&self) -> bool {
        !self.connected && self.endpoint1_callback is Some && self.endpoint2_callback is Some
    }

    /// Whether a transmission from `from` can be carried out: it stops at
    /// once, or both endpoints are bound and the endpoint that it is sent to
    /// has a receiver.
    pub open spec fn can_transmit(&self, from: Seq<char>) -> bool {
        self.stops_early() || {
            &&& self.endpoint1_component_id is Some
            &&& self.endpoint2_component_id is Some
            &&& bound_to(self.endpoint1_component_id, from) ==> self.endpoint2_callback is Some
            &&& !bound_to(self.endpoint1_component_id, from) && bound_to(
                self.endpoint2_component_id,
                from,
            ) ==> self.endpoint1_callback is Some
        }
    }

    /// The endpoint whose receiver gets a frame sent from `from`: the other
    /// end from the sender, or none for a sender at neither end.
    pub open spec fn delivery_target(&self, from: Seq<char>) -> Option<Endpoint> {
        if self.stops_early() {
            None
        } else if bound_to(self.endpoint1_component_id, from) {
            Some(Endpoint::Endpoint2)
        } else if bound_to(self.endpoint2_component_id, from) {
            Some(Endpoint::Endpoint1)
        } else {
            None
        }
    }

    /// A fresh, unconnected state with identifier `id`, or a generated one.
    pub fn new(id: Option<String>) -> (r: EthernetCableState<R>)
        ensures
            match id {
                Some(s) => r.id == s,
                None => exists|n: nat|
                    GENERATED_ID_MIN <= n <= GENERATED_ID_MAX && r.id@ == generated_id_text(n),
            },
            r.endpoint1_component_id is None,
            r.endpoint1_callback is None,
            r.endpoint2_component_id is None,
            r.endpoint2_callback is None,
            !r.connected,
            r.well_formed(),
    {
        let cable_id = match id {
            Some(s) => s,
            None => generated_id(random_in_range(GENERATED_ID_MIN, GENERATED_ID_MAX)),
        };
        EthernetCableState {
            id: cable_id,
            endpoint1_component_id: None,
            endpoint1_callback: None,
            endpoint2_component_id: None,
            endpoint2_callback: None,
            connected: false,
        }
    }
}

/// The identifier generated from number `n`: `cable-<n>`.
pub fn generated_id(n: u32) -> (s: String)
    ensures
        s@ == generated_id_text(n as nat),
{
    let mut s = String::from_str("cable-");
    proof {
        reveal_strlit("cable-");
    }
    push_decimal(&mut s, n);
    s
}

/// A cable between two endpoints.
pub struct EthernetCable<R> {
    state: EthernetCableState<R>,
}

impl<R> View for EthernetCable<R> {
    type V = EthernetCableState<R>;

    closed spec fn view(&self) -> EthernetCableState<R> {
        self.state
    }
}

/// Both ends of `s` keep their receivers and `s` its identifier from `t`.
pub open spec fn keeps_receivers<R>(s: EthernetCableState<R>, t: EthernetCableState<R>) -> bool {
    &&& s.id == t.id
    &&& s.endpoint1_callback == t.endpoint1_callback
    &&& s.endpoint2_callback == t.endpoint2_callback
}

impl<R: FrameReceiver + Clone> EthernetCable<R> {
    /// A new, unconnected cable with identifier `id`, or a generated one
    /// (`cable-<n>` for some `n` in `9..=9998`).
    pub fn new(id: Option<String>) -> (r: EthernetCable<R>)
        ensures
            match id {
                Some(s) => r@.id == s,
                None => exists|n: nat|
                    GENERATED_ID_MIN <= n <= GENERATED_ID_MAX && r@.id@ == generated_id_text(n),
            },
            r@.endpoint1_component_id is None,
            r@.endpoint1_callback is None,
            r@.endpoint2_component_id is None,
            r@.endpoint2_callback is None,
            !r@.connected,
            r@.well_formed(),
    {
        EthernetCable { state: EthernetCableState::new(id) }
    }

    /// The identifier of the cable.
    pub fn get_id(&self) -> (r: String)
        ensures
            r == self@.id,
    {
        self.state.id.clone()
    }

    /// Whether both endpoints have been bound.
    pub fn is_connected(&self) -> (r: bool)
        ensures
            r == self@.connected,
    {
        self.state.connected
    }

    /// Binds both endpoints at once; the cable is connected from the moment
    /// both are bound.
    pub fn connect(&mut self, ep1_connect_id: Option<String>, ep2_connect_id: Option<String>)
        ensures
            final(self)@.endpoint1_component_id == ep1_connect_id,
            final(self)@.endpoint2_component_id == ep2_connect_id,
            final(self)@.connected == (old(self)@.connected || (ep1_connect_id is Some
                && ep2_connect_id is Some)),
            keeps_receivers(final(self)@, old(self)@),
            old(self)@.well_formed() ==> final(self)@.well_formed(),
    {
        self.state.endpoint1_component_id = ep1_connect_id;
        self.state.endpoint2_component_id = ep2_connect_id;
        if self.state.endpoint1_component_id.is_some()
            && self.state.endpoint2_component_id.is_some() {
            self.state.connected = true;
        }
    }

    /// Binds endpoint 1 and leaves endpoint 2 as it is.
    pub fn connect_endpoint1(&mut self, ep1_connect_id: Option<String>)
        ensures
            final(self)@.endpoint1_component_id == ep1_connect_id,
            final(self)@.endpoint2_component_id == old(self)@.endpoint2_component_id,
            final(self)@.connected == (old(self)@.connected || (ep1_connect_id is Some
                && old(self)@.endpoint2_component_id is Some)),
            keeps_receivers(final(self)@, old(self)@),
            old(self)@.well_formed() ==> final(self)@.well_formed(),
    {
        self.state.endpoint1_component_id = ep1_connect_id;
        if self.state.endpoint1_component_id.is_some()
            && self.state.endpoint2_component_id.is_some() {
            self.state.connected = true;
        }
    }

    /// The component bound to endpoint 1, if any.
    pub fn get_endpoint1_component_id(&self) -> (r: Option<String>)
        ensures
            r == self@.endpoint1_component_id,
    {
        match &self.state.endpoint1_component_id {
            Some(s) => Some(s.clone()),
            None => None,
        }
    }

    /// Binds endpoint 2 and leaves endpoint 1 as it is.
    pub fn connect_endpoint2(&mut self, ep2_connect_id: Option<String>)
        ensures
            final(self)@.endpoint2_component_id == ep2_connect_id,
            final(self)@.endpoint1_component_id == old(self)@.endpoint1_component_id,
            final(self)@.connected == (old(self)@.connected || (ep2_connect_id is Some
                && old(self)@.endpoint1_component_id is Some)),
            keeps_receivers(final(self)@, old(self)@),
            old(self)@.well_formed() ==> final(self)@.well_formed(),
    {
        self.state.endpoint2_component_id = ep2_connect_id;
        if self.state.endpoint1_component_id.is_some()
            && self.state.endpoint2_component_id.is_some() {
            self.state.connected = true;
        }
    }

    /// The component bound to endpoint 2, if any.
    pub fn get_endpoint2_component_id(&self) -> (r: Option<String>)
        ensures
            r == self@.endpoint2_component_id,
    {
        match &self.state.endpoint2_component_id {
            Some(s) => Some(s.clone()),
            None => None,
        }
    }

    /// The receiver registered at endpoint 1, if any.
    pub fn get_endpoint1_callback(&self) -> (r: Option<&R>)
        ensures
            match self@.endpoint1_callback {
                Some(c) => r matches Some(x) && *x == c,
                None => r is None,
            },
    {
        match &self.state.endpoint1_callback {
            Some(c) => Some(c),
            None => None,
        }
    }

    /// The receiver registered at endpoint 2, if any.
    pub fn get_endpoint2_callback(&self) -> (r: Option<&R>)
        ensures
            match self@.endpoint2_callback {
                Some(c) => r matches Some(x) && *x == c,
                None => r is None,
            },
    {
        match &self.state.endpoint2_callback {
            Some(c) => Some(c),
            None => None,
        }
    }

    /// Registers `callback` as the receiver of each endpoint bound to
    /// component `id`; an endpoint bound to another component, or to none,
    /// keeps its receiver.
    pub fn set_callback(&mut self, id: String, callback: R)
        ensures
            bound_to(old(self)@.endpoint1_component_id, id@) && bound_to(
                old(self)@.endpoint2_component_id,
                id@,
            ) ==> (final(self)@.endpoint1_callback matches Some(c) && cloned(callback, c)
                && final(self)@.endpoint2_callback == Some(callback)),
            bound_to(old(self)@.endpoint1_component_id, id@) && !bound_to(
                old(self)@.endpoint2_component_id,
                id@,
            ) ==> final(self)@.endpoint1_callback == Some(callback),
            !bound_to(old(self)@.endpoint1_component_id, id@) && bound_to(
                old(self)@.endpoint2_component_id,
                id@,
            ) ==> final(self)@.endpoint2_callback == Some(callback),
            !bound_to(old(self)@.endpoint1_component_id, id@) ==> final(self)@.endpoint1_callback
                == old(self)@.endpoint1_callback,
            !bound_to(old(self)@.endpoint2_component_id, id@) ==> final(self)@.endpoint2_callback
                == old(self)@.endpoint2_callback,
            final(self)@.id == old(self)@.id,
            final(self)@.endpoint1_component_id == old(self)@.endpoint1_component_id,
            final(self)@.endpoint2_component_id == old(self)@.endpoint2_component_id,
            final(self)@.connected == old(self)@.connected,
            old(self)@.well_formed() ==> final(self)@.well_formed(),
    {
        if self.state.endpoint1_component_id.is_none()
            && self.state.endpoint2_component_id.is_none() {
            return;
        }
        let at1 = match &self.state.endpoint1_component_id {
            Some(ep1_id) => *ep1_id == id,
            None => false,
        };
        let at2 = match &self.state.endpoint2_component_id {
            Some(ep2_id) => *ep2_id == id,
            None => false,
        };
        if at1 && at2 {
            self.state.endpoint1_callback = Some(callback.clone());
            self.state.endpoint2_callback = Some(callback);
        } else if at1 {
            self.state.endpoint1_callback = Some(callback);
        } else if at2 {
            self.state.endpoint2_callback = Some(callback);
        }
    }

    /// Whether `transmit_signal` can be called with sender `from_id`.
    pub fn can_transmit(&self, from_id: &String) -> (r: bool)
        ensures
            r == self@.can_transmit(from_id@),
    {
        let s = &self.state;
        if !s.connected && s.endpoint1_callback.is_some() && s.endpoint2_callback.is_some() {
            return true;
        }
        match (&s.endpoint1_component_id, &s.endpoint2_component_id) {
            (Some(ep1), Some(ep2)) => {
                if *from_id == *ep1 {
                    s.endpoint2_callback.is_some()
                } else if *from_id == *ep2 {
                    s.endpoint1_callback.is_some()
                } else {
                    true
                }
            },
            _ => false,
        }
    }

    /// Sends `frame` from the component `from_id` across the cable: the
    /// receiver at the other end from the sender takes it, once and as it is,
    /// and the endpoint of that receiver is returned. A sender at neither end
    /// sends nothing, and no receiver is called.
    pub fn transmit_signal(&mut self, from_id: String, frame: PhysicalLayerFrame) -> (r: Option<
        Endpoint,
    >)
        requires
            old(self)@.can_transmit(from_id@),
        ensures
            r == old(self)@.delivery_target(from_id@),
            final(self)@.id == old(self)@.id,
            final(self)@.endpoint1_component_id == old(self)@.endpoint1_component_id,
            final(self)@.endpoint2_component_id == old(self)@.endpoint2_component_id,
            final(self)@.connected == old(self)@.connected,
            r == Some(Endpoint::Endpoint2) ==> took_frame(
                old(self)@.endpoint2_callback,
                final(self)@.endpoint2_callback,
                frame,
            ),
            r != Some(Endpoint::Endpoint2) ==> final(self)@.endpoint2_callback == old(
                self,
            )@.endpoint2_callback,
            r == Some(Endpoint::Endpoint1) ==> took_frame(
                old(self)@.endpoint1_callback,
                final(self)@.endpoint1_callback,
                frame,
            ),
            r != Some(Endpoint::Endpoint1) ==> final(self)@.endpoint1_callback == old(
                self,
            )@.endpoint1_callback,
    {
        if !self.state.connected && self.state.endpoint1_callback.is_some()
            && self.state.endpoint2_callback.is_some() {
            return None;
        }
        let (at1, at2) = match (
            &self.state.endpoint1_component_id,
            &self.state.endpoint2_component_id,
        ) {
            (Some(ep1), Some(ep2)) => (from_id == *ep1, from_id == *ep2),
            _ => {
                return None;
            },
        };
        if at1 {
            match &mut self.state.endpoint2_callback {
                Some(cb) => {
                    cb.receive(frame);
                    Some(Endpoint::Endpoint2)
                },
                None => None,
            }
        } else if at2 {
            match &mut self.state.endpoint1_callback {
                Some(cb) => {
                    cb.receive(frame);
                    Some(Endpoint::Endpoint1)
                },
                None => None,
            }
        } else {
            None
        }
    }
}

/// On a cable whose two endpoints are bound to different components and
/// both have receivers, a frame from the component at endpoint 1 goes to
/// endpoint 2, and one from the component at endpoint 2 goes to endpoint 1.
pub proof fn lemma_delivery_crosses<R>(s: EthernetCableState<R>)
    requires
        s.well_formed(),
        s.endpoint1_component_id is Some,
        s.endpoint2_component_id is Some,
        s.endpoint1_callback is Some,
        s.endpoint2_callback is Some,
        s.endpoint1_component_id->0@ != s.endpoint2_component_id->0@,
    ensures
        s.can_transmit(s.endpoint1_component_id->0@),
        s.delivery_target(s.endpoint1_component_id->0@) == Some(Endpoint::Endpoint2),
        s.can_transmit(s.endpoint2_component_id->0@),
        s.delivery_target(s.endpoint2_component_id->0@) == Some(Endpoint::Endpoint1),
{
}

/// A frame from a component bound to neither endpoint reaches no receiver.
pub proof fn lemma_unknown_sender<R>(s: EthernetCableState<R>, from: Seq<char>)
    requires
        !bound_to(s.endpoint1_component_id, from),
        !bound_to(s.endpoint2_component_id, from),
    ensures
        s.delivery_target(from) is None,
{
}

} // verus!
