//! A two-actor ping-pong system: the pinger opens with `Ping(0)`; on
//! `Pong(m)` matching its count it advances and sends `Ping(m + 1)`; the
//! ponger answers each `Ping(n)` matching its count with `Pong(n)` and
//! advances. The state-space boundary caps both counters at `max_nat`.

use vstd::prelude::*;

use crate::actor::{Actor, Command, Data, Id, Out};
use crate::network::Envelope;
use crate::system::{
    DuplicatingNetwork, Expectation, LossyNetwork, Property, System, SystemState, SystemStateView,
};

verus! {

#[derive(Clone, Copy, Debug, Hash, PartialEq, Eq, PartialOrd, Ord, Structural)]
pub enum PingPongMsg {
    Ping(u32),
    Pong(u32),
}

#[derive(Clone, Copy, Debug, Hash, PartialEq, Eq, Structural)]
pub struct PingPongCount(pub u32);

impl Data for PingPongMsg {
    fn dup(&self) -> (r: Self) {
        *self
    }

    fn eq_val(&self, other: &Self) -> (r: bool) {
        *self == *other
    }
}

impl crate::actor::DataOrd for PingPongMsg {
    /// Pings in counter order, then pongs in counter order.
    open spec fn le_spec(&self, other: &Self) -> bool {
        match (*self, *other) {
            (PingPongMsg::Ping(a), PingPongMsg::Ping(b)) => a <= b,
            (PingPongMsg::Ping(_), PingPongMsg::Pong(_)) => true,
            (PingPongMsg::Pong(_), PingPongMsg::Ping(_)) => false,
            (PingPongMsg::Pong(a), PingPongMsg::Pong(b)) => a <= b,
        }
    }

    proof fn lemma_total(a: &Self, b: &Self) {
    }

    proof fn lemma_antisymmetric(a: &Self, b: &Self) {
    }

    proof fn lemma_transitive(a: &Self, b: &Self, c: &Self) {
    }

    fn le_val(&self, other: &Self) -> (r: bool) {
        match (self, other) {
            (PingPongMsg::Ping(a), PingPongMsg::Ping(b)) => *a <= *b,
            (PingPongMsg::Ping(_), PingPongMsg::Pong(_)) => true,
            (PingPongMsg::Pong(_), PingPongMsg::Ping(_)) => false,
            (PingPongMsg::Pong(a), PingPongMsg::Pong(b)) => *a <= *b,
        }
    }
}

impl Data for PingPongCount {
    fn dup(&self) -> (r: Self) {
        *self
    }

    fn eq_val(&self, other: &Self) -> (r: bool) {
        *self == *other
    }
}

/// One of the two ping-pong roles.
pub enum PingPongActor {
    /// Bootstraps the exchange by pinging the ponger.
    Pinger { ponger_id: Id },
    /// Answers each matching ping.
    Ponger,
}

impl Actor for PingPongActor {
    type Msg = PingPongMsg;

    type State = PingPongCount;

    open spec fn start_spec(&self, id: Id) -> (PingPongCount, Seq<Command<PingPongMsg>>) {
        match *self {
            PingPongActor::Pinger { ponger_id } => (
                PingPongCount(0),
                seq![Command::Send(ponger_id, PingPongMsg::Ping(0))],
            ),
            PingPongActor::Ponger => (PingPongCount(0), Seq::empty()),
        }
    }

    open spec fn msg_spec(&self, id: Id, state: PingPongCount, src: Id, msg: PingPongMsg) -> (
        Option<PingPongCount>,
        Seq<Command<PingPongMsg>>,
    ) {
        match (*self, msg) {
            (PingPongActor::Pinger { .. }, PingPongMsg::Pong(n)) => {
                if n == state.0 && n < u32::MAX {
                    (
                        Some(PingPongCount((n + 1) as u32)),
                        seq![Command::Send(src, PingPongMsg::Ping((n + 1) as u32))],
                    )
                } else {
                    (None, Seq::empty())
                }
            },
            (PingPongActor::Ponger, PingPongMsg::Ping(n)) => {
                if n == state.0 && n < u32::MAX {
                    (
                        Some(PingPongCount((n + 1) as u32)),
                        seq![Command::Send(src, PingPongMsg::Pong(n))],
                    )
                } else {
                    (None, Seq::empty())
                }
            },
            _ => (None, Seq::empty()),
        }
    }

    open spec fn timeout_spec(&self, id: Id, state: PingPongCount) -> (
        Option<PingPongCount>,
        Seq<Command<PingPongMsg>>,
    ) {
        (None, Seq::empty())
    }

    fn on_start(&self, id: Id, o: &mut Out<PingPongMsg>) -> (st: PingPongCount) {
        match self {
            PingPongActor::Pinger { ponger_id } => {
                o.send(*ponger_id, PingPongMsg::Ping(0));
            },
            PingPongActor::Ponger => {},
        }
        PingPongCount(0)
    }

    fn on_msg(&self, id: Id, state: &PingPongCount, src: Id, msg: PingPongMsg, o: &mut Out<
        PingPongMsg,
    >) -> (r: Option<PingPongCount>) {
        match (self, msg) {
            (PingPongActor::Pinger { .. }, PingPongMsg::Pong(n)) => {
                if n == state.0 && n < u32::MAX {
                    o.send(src, PingPongMsg::Ping(n + 1));
                    Some(PingPongCount(n + 1))
                } else {
                    None
                }
            },
            (PingPongActor::Ponger, PingPongMsg::Ping(n)) => {
                if n == state.0 && n < u32::MAX {
                    o.send(src, PingPongMsg::Pong(n));
                    Some(PingPongCount(n + 1))
                } else {
                    None
                }
            },
            _ => None,
        }
    }

    fn on_timeout(&self, id: Id, state: &PingPongCount, o: &mut Out<PingPongMsg>) -> (r: Option<
        PingPongCount,
    >) {
        None
    }
}

/// Whether the first `upto` counters include one that reached `target`.
pub open spec fn some_count_is(states: Seq<PingPongCount>, target: u32, upto: int) -> bool {
    exists|k: int| 0 <= k < upto && (#[trigger] states[k]).0 == target
}

/// Whether the first `upto` counters include one beyond `bound`.
pub open spec fn some_count_exceeds(states: Seq<PingPongCount>, bound: u32, upto: int) -> bool {
    exists|k: int| 0 <= k < upto && (#[trigger] states[k]).0 > bound
}

/// Whether the first `upto` counters all stay at or below `bound`.
pub open spec fn counts_at_most(states: Seq<PingPongCount>, bound: u32, upto: int) -> bool {
    forall|k: int| 0 <= k < upto ==> (#[trigger] states[k]).0 <= bound
}

/// A ping-pong pair under a configurable network, with an in/out traffic
/// counter as optional history.
pub struct PingPongSystem {
    pub max_nat: u32,
    pub lossy: LossyNetwork,
    pub duplicating: DuplicatingNetwork,
    pub maintains_history: bool,
}

impl System for PingPongSystem {
    type Actor = PingPongActor;

    type History = (u32, u32);  // (delivered count, sent count)

    open spec fn actors_spec(&self) -> Seq<PingPongActor> {
        seq![PingPongActor::Pinger { ponger_id: Id(1) }, PingPongActor::Ponger]
    }

    open spec fn init_network_spec(&self) -> Seq<Envelope<PingPongMsg>> {
        Seq::empty()
    }

    open spec fn lossy_network_spec(&self) -> LossyNetwork {
        self.lossy
    }

    open spec fn duplicating_network_spec(&self) -> DuplicatingNetwork {
        self.duplicating
    }

    open spec fn properties_spec(&self) -> Seq<Property> {
        seq![
            Property { expectation: Expectation::Always, name: "delta within 1" },
            Property { expectation: Expectation::Eventually, name: "must reach max" },
            Property { expectation: Expectation::Sometimes, name: "can reach max" },
            Property { expectation: Expectation::Eventually, name: "must exceed max" },
        ]
    }

    /// The predicates, by index: the two counters never drift more than one
    /// step apart; some counter reached the maximum (for both the liveness
    /// demand and the witness); some counter exceeded the maximum.
    open spec fn property_spec(&self, index: int, state: SystemStateView<Self>) -> bool {
        if index == 0 {
            state.actor_states.len() == 2 ==> ({
                let a = state.actor_states[0].0;
                let b = state.actor_states[1].0;
                a <= b + 1 && b <= a + 1
            })
        } else if index == 1 || index == 2 {
            some_count_is(state.actor_states, self.max_nat, state.actor_states.len() as int)
        } else if index == 3 {
            some_count_exceeds(state.actor_states, self.max_nat, state.actor_states.len() as int)
        } else {
            false
        }
    }

    /// The fence: every counter stays at or below the maximum.
    open spec fn within_boundary_spec(&self, state: SystemStateView<Self>) -> bool {
        counts_at_most(state.actor_states, self.max_nat, state.actor_states.len() as int)
    }

    open spec fn record_in_spec(&self, history: (u32, u32), src: Id, dst: Id, msg: PingPongMsg)
        -> Option<(u32, u32)> {
        if self.maintains_history {
            Some(((if history.0 < u32::MAX { (history.0 + 1) as u32 } else { 0u32 }), history.1))
        } else {
            None
        }
    }

    open spec fn record_out_spec(&self, history: (u32, u32), src: Id, dst: Id, msg: PingPongMsg)
        -> Option<(u32, u32)> {
        if self.maintains_history {
            Some((history.0, (if history.1 < u32::MAX { (history.1 + 1) as u32 } else { 0u32 })))
        } else {
            None
        }
    }

    fn actors(&self) -> (r: Vec<PingPongActor>) {
        let mut v: Vec<PingPongActor> = Vec::new();
        v.push(PingPongActor::Pinger { ponger_id: Id(1) });
        v.push(PingPongActor::Ponger);
        proof {
            assert(v@ =~= self.actors_spec());
        }
        v
    }

    fn init_network(&self) -> (r: Vec<Envelope<PingPongMsg>>) {
        Vec::new()
    }

    fn lossy_network(&self) -> (r: LossyNetwork) {
        self.lossy
    }

    fn duplicating_network(&self) -> (r: DuplicatingNetwork) {
        self.duplicating
    }

    fn record_msg_in(&self, history: &(u32, u32), src: Id, dst: Id, msg: &PingPongMsg) -> (r:
        Option<(u32, u32)>) {
        if self.maintains_history {
            let delivered: u32 = if history.0 < u32::MAX {
                history.0 + 1
            } else {
                0
            };
            Some((delivered, history.1))
        } else {
            None
        }
    }

    fn record_msg_out(&self, history: &(u32, u32), src: Id, dst: Id, msg: &PingPongMsg) -> (r:
        Option<(u32, u32)>) {
        if self.maintains_history {
            let sent: u32 = if history.1 < u32::MAX {
                history.1 + 1
            } else {
                0
            };
            Some((history.0, sent))
        } else {
            None
        }
    }

    fn properties(&self) -> (r: Vec<Property>) {
        let mut v: Vec<Property> = Vec::new();
        v.push(Property::always("delta within 1"));
        v.push(Property::eventually("must reach max"));
        v.push(Property::sometimes("can reach max"));
        v.push(Property::eventually("must exceed max"));
        proof {
            assert(v@ =~= self.properties_spec());
        }
        v
    }

    fn property_holds(&self, index: usize, state: &SystemState<Self>) -> (r: bool) {
        if index == 0 {
            if state.actor_states.len() == 2 {
                let a = state.actor_states[0].0;
                let b = state.actor_states[1].0;
                if a >= b {
                    a - b <= 1
                } else {
                    b - a <= 1
                }
            } else {
                true
            }
        } else if index == 1 || index == 2 {
            let mut i: usize = 0;
            let mut reached = false;
            while i < state.actor_states.len()
                invariant
                    0 <= i <= state.actor_states@.len(),
                    reached == some_count_is(state.actor_states@, self.max_nat, i as int),
                decreases state.actor_states@.len() - i,
            {
                if state.actor_states[i].0 == self.max_nat {
                    reached = true;
                }
                i += 1;
            }
            reached
        } else if index == 3 {
            let mut i: usize = 0;
            let mut exceeded = false;
            while i < state.actor_states.len()
                invariant
                    0 <= i <= state.actor_states@.len(),
                    exceeded == some_count_exceeds(state.actor_states@, self.max_nat, i as int),
                decreases state.actor_states@.len() - i,
            {
                if state.actor_states[i].0 > self.max_nat {
                    exceeded = true;
                }
                i += 1;
            }
            exceeded
        } else {
            false
        }
    }

    fn within_boundary(&self, state: &SystemState<Self>) -> (r: bool) {
        let mut i: usize = 0;
        let mut inside = true;
        while i < state.actor_states.len()
            invariant
                0 <= i <= state.actor_states@.len(),
                inside == counts_at_most(state.actor_states@, self.max_nat, i as int),
            decreases state.actor_states@.len() - i,
        {
            if state.actor_states[i].0 > self.max_nat {
                inside = false;
            }
            i += 1;
        }
        inside
    }
}

} // verus!
