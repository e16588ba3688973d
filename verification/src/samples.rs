//! Minimal systems that exercise corner cases of the model: a system whose
//! only envelope is addressed to an actor that does not exist, and a
//! one-actor system whose timer is set once and never re-armed.

use vstd::prelude::*;

use crate::actor::{Actor, Command, Id, Out, TimerRange};
use crate::network::Envelope;
use crate::system::{
    model_timeout, DuplicatingNetwork, Expectation, LossyNetwork, Property, System, SystemState,
    SystemStateView,
};

verus! {

/// An actor that does nothing: it starts with unit state and ignores every
/// message and timeout.
pub struct IdleActor;

impl Actor for IdleActor {
    type Msg = ();

    type State = ();

    open spec fn start_spec(&self, id: Id) -> ((), Seq<Command<()>>) {
        ((), Seq::empty())
    }

    open spec fn msg_spec(&self, id: Id, state: (), src: Id, msg: ()) -> (
        Option<()>,
        Seq<Command<()>>,
    ) {
        (None, Seq::empty())
    }

    open spec fn timeout_spec(&self, id: Id, state: ()) -> (Option<()>, Seq<Command<()>>) {
        (None, Seq::empty())
    }

    fn on_start(&self, id: Id, o: &mut Out<()>) -> (st: ()) {
    }

    fn on_msg(&self, id: Id, state: &(), src: Id, msg: (), o: &mut Out<()>) -> (r: Option<()>) {
        None
    }

    fn on_timeout(&self, id: Id, state: &(), o: &mut Out<()>) -> (r: Option<()>) {
        None
    }
}

/// A system with no actors whose seeded network carries one envelope to an
/// unknown destination: the envelope is never delivered, so the initial
/// snapshot is the entire state space.
pub struct UndeliverableSystem;

impl System for UndeliverableSystem {
    type Actor = IdleActor;

    type History = ();

    open spec fn actors_spec(&self) -> Seq<IdleActor> {
        Seq::empty()
    }

    open spec fn init_network_spec(&self) -> Seq<Envelope<()>> {
        seq![Envelope { src: Id(0), dst: Id(99), msg: () }]
    }

    open spec fn lossy_network_spec(&self) -> LossyNetwork {
        LossyNetwork::No
    }

    open spec fn duplicating_network_spec(&self) -> DuplicatingNetwork {
        DuplicatingNetwork::Yes
    }

    open spec fn properties_spec(&self) -> Seq<Property> {
        seq![Property { expectation: Expectation::Always, name: "unused" }]
    }

    /// The single placeholder property holds of every snapshot.
    open spec fn property_spec(&self, index: int, state: SystemStateView<Self>) -> bool {
        index == 0
    }

    open spec fn within_boundary_spec(&self, state: SystemStateView<Self>) -> bool {
        true
    }

    open spec fn record_in_spec(&self, history: (), src: Id, dst: Id, msg: ()) -> Option<()> {
        None
    }

    open spec fn record_out_spec(&self, history: (), src: Id, dst: Id, msg: ()) -> Option<()> {
        None
    }

    fn actors(&self) -> (r: Vec<IdleActor>) {
        Vec::new()
    }

    fn init_network(&self) -> (r: Vec<Envelope<()>>) {
        let mut v: Vec<Envelope<()>> = Vec::new();
        v.push(Envelope { src: Id(0), dst: Id(99), msg: () });
        proof {
            assert(v@ =~= self.init_network_spec());
        }
        v
    }

    fn lossy_network(&self) -> (r: LossyNetwork) {
        LossyNetwork::No
    }

    fn duplicating_network(&self) -> (r: DuplicatingNetwork) {
        DuplicatingNetwork::Yes
    }

    fn record_msg_in(&self, history: &(), src: Id, dst: Id, msg: &()) -> (r: Option<()>) {
        None
    }

    fn record_msg_out(&self, history: &(), src: Id, dst: Id, msg: &()) -> (r: Option<()>) {
        None
    }

    fn properties(&self) -> (r: Vec<Property>) {
        let mut v: Vec<Property> = Vec::new();
        v.push(Property::always("unused"));
        proof {
            assert(v@ =~= self.properties_spec());
        }
        v
    }

    fn property_holds(&self, index: usize, state: &SystemState<Self>) -> (r: bool) {
        index == 0
    }

    fn within_boundary(&self, state: &SystemState<Self>) -> (r: bool) {
        true
    }
}

/// An actor that sets its timer at start and does nothing else; the timer is
/// never re-armed, so the first timeout clears it for good.
pub struct TimerActor;

impl Actor for TimerActor {
    type Msg = ();

    type State = ();

    open spec fn start_spec(&self, id: Id) -> ((), Seq<Command<()>>) {
        ((), seq![Command::SetTimer(TimerRange { min_micros: 0, max_micros: 0 })])
    }

    open spec fn msg_spec(&self, id: Id, state: (), src: Id, msg: ()) -> (
        Option<()>,
        Seq<Command<()>>,
    ) {
        (None, Seq::empty())
    }

    open spec fn timeout_spec(&self, id: Id, state: ()) -> (Option<()>, Seq<Command<()>>) {
        (None, Seq::empty())
    }

    fn on_start(&self, id: Id, o: &mut Out<()>) -> (st: ()) {
        o.set_timer(model_timeout());
    }

    fn on_msg(&self, id: Id, state: &(), src: Id, msg: (), o: &mut Out<()>) -> (r: Option<()>) {
        None
    }

    fn on_timeout(&self, id: Id, state: &(), o: &mut Out<()>) -> (r: Option<()>) {
        None
    }
}

/// A one-actor system whose timer fires exactly once: the timer-set initial
/// snapshot and the timer-cleared successor are its whole state space.
pub struct TimerSystem;

impl System for TimerSystem {
    type Actor = TimerActor;

    type History = ();

    open spec fn actors_spec(&self) -> Seq<TimerActor> {
        seq![TimerActor]
    }

    open spec fn init_network_spec(&self) -> Seq<Envelope<()>> {
        Seq::empty()
    }

    open spec fn lossy_network_spec(&self) -> LossyNetwork {
        LossyNetwork::No
    }

    open spec fn duplicating_network_spec(&self) -> DuplicatingNetwork {
        DuplicatingNetwork::Yes
    }

    open spec fn properties_spec(&self) -> Seq<Property> {
        seq![Property { expectation: Expectation::Always, name: "unused" }]
    }

    /// The single placeholder property holds of every snapshot.
    open spec fn property_spec(&self, index: int, state: SystemStateView<Self>) -> bool {
        index == 0
    }

    open spec fn within_boundary_spec(&self, state: SystemStateView<Self>) -> bool {
        true
    }

    open spec fn record_in_spec(&self, history: (), src: Id, dst: Id, msg: ()) -> Option<()> {
        None
    }

    open spec fn record_out_spec(&self, history: (), src: Id, dst: Id, msg: ()) -> Option<()> {
        None
    }

    fn actors(&self) -> (r: Vec<TimerActor>) {
        let mut v: Vec<TimerActor> = Vec::new();
        v.push(TimerActor);
        proof {
            assert(v@ =~= self.actors_spec());
        }
        v
    }

    fn init_network(&self) -> (r: Vec<Envelope<()>>) {
        Vec::new()
    }

    fn lossy_network(&self) -> (r: LossyNetwork) {
        LossyNetwork::No
    }

    fn duplicating_network(&self) -> (r: DuplicatingNetwork) {
        DuplicatingNetwork::Yes
    }

    fn record_msg_in(&self, history: &(), src: Id, dst: Id, msg: &()) -> (r: Option<()>) {
        None
    }

    fn record_msg_out(&self, history: &(), src: Id, dst: Id, msg: &()) -> (r: Option<()>) {
        None
    }

    fn properties(&self) -> (r: Vec<Property>) {
        let mut v: Vec<Property> = Vec::new();
        v.push(Property::always("unused"));
        proof {
            assert(v@ =~= self.properties_spec());
        }
        v
    }

    fn property_holds(&self, index: usize, state: &SystemState<Self>) -> (r: bool) {
        index == 0
    }

    fn within_boundary(&self, state: &SystemState<Self>) -> (r: bool) {
        true
    }
}

} // verus!
