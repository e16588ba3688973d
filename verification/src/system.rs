//! The system model: lifts a collection of actors into one nondeterministic
//! global transition system over an asynchronous network.
//!
//! An external explorer drives the model through three entry points:
//! [`SystemModel::init_states`] produces the single initial snapshot,
//! [`SystemModel::actions`] enumerates the legal moves of a snapshot in a
//! deterministic order, and [`SystemModel::next_state`] applies one move.
//! Every entry point carries an exact contract: its result equals a
//! specification-level function of the model and the snapshot, so exploration
//! is reproducible and successor construction is provably deterministic.

use vstd::pervasive::VecAdditionalExecFns;
use vstd::prelude::*;

use crate::actor::{Actor, Command, Data, HistoryData, Id, Out, TimerRange, is_no_op};
use crate::network::{
    Envelope, Network, net_dedup, net_insert, net_remove,
};

verus! {

/// The message type of a system's actors.
pub type SysMsg<S> = <<S as System>::Actor as Actor>::Msg;

/// The private state type of a system's actors.
pub type SysActorState<S> = <<S as System>::Actor as Actor>::State;

/// The abstract history content of a system.
pub type SysHistory<S> = <<S as System>::History as HistoryData>::V;

/// Indicates whether the network loses messages. As long as properties do
/// not inspect the network, losing a message is indistinguishable from an
/// unlimited delay, so disabling loss can shrink the state space.
#[derive(Clone, Copy, Debug, PartialEq, Eq, Structural)]
pub enum LossyNetwork {
    Yes,
    No,
}

/// Indicates whether the network duplicates messages. If duplication is
/// disabled, messages are forgotten once delivered.
#[derive(Clone, Copy, Debug, PartialEq, Eq, Structural)]
pub enum DuplicatingNetwork {
    Yes,
    No,
}

/// Classifies a property of a system.
#[derive(Clone, Copy, Debug, PartialEq, Eq, Structural)]
pub enum Expectation {
    /// A safety property: the predicate holds of every reachable snapshot.
    Always,
    /// A witness property: some reachable snapshot satisfies the predicate.
    Sometimes,
    /// A liveness property: every maximal execution reaches the predicate.
    Eventually,
}

/// A named, classified predicate over snapshots. The predicate itself is
/// evaluated through [`System::property_holds`], keyed by the property's
/// position in [`System::properties`].
#[derive(Clone, Copy, Debug, PartialEq, Eq)]
pub struct Property {
    pub expectation: Expectation,
    pub name: &'static str,
}

impl Property {
    /// A safety property.
    pub fn always(name: &'static str) -> (r: Property)
        ensures
            r == (Property { expectation: Expectation::Always, name }),
    {
        Property { expectation: Expectation::Always, name }
    }

    /// A witness property.
    pub fn sometimes(name: &'static str) -> (r: Property)
        ensures
            r == (Property { expectation: Expectation::Sometimes, name }),
    {
        Property { expectation: Expectation::Sometimes, name }
    }

    /// A liveness property.
    pub fn eventually(name: &'static str) -> (r: Property)
        ensures
            r == (Property { expectation: Expectation::Eventually, name }),
    {
        Property { expectation: Expectation::Eventually, name }
    }
}

/// Represents a system of actors that communicate over a network.
///
/// The record hooks fold observed traffic into auxiliary history state; each
/// hook is specified by a twin specification function, which keeps the whole
/// transition system deterministic.
pub trait System: Sized {
    /// The type of actor for this system.
    type Actor: Actor;

    /// The type of history to maintain as auxiliary state, if any. Use `()`
    /// if history is not needed to define the relevant properties.
    type History: HistoryData;

    /// Specifies the actors; the index in the sequence is the actor's id.
    spec fn actors_spec(&self) -> Seq<Self::Actor>;

    /// Specifies the initial network.
    spec fn init_network_spec(&self) -> Seq<Envelope<SysMsg<Self>>>;

    /// Specifies the loss policy.
    spec fn lossy_network_spec(&self) -> LossyNetwork;

    /// Specifies the duplication policy.
    spec fn duplicating_network_spec(&self) -> DuplicatingNetwork;

    /// Specifies the property list.
    spec fn properties_spec(&self) -> Seq<Property>;

    /// Specifies the predicate of the property at `index` over a snapshot
    /// view; out-of-range indices answer `false`.
    spec fn property_spec(&self, index: int, state: SystemStateView<Self>) -> bool;

    /// Specifies the state-space fence.
    spec fn within_boundary_spec(&self, state: SystemStateView<Self>) -> bool;

    /// Specifies how an incoming message contributes to the history, over
    /// the history's abstract content.
    spec fn record_in_spec(
        &self,
        history: SysHistory<Self>,
        src: Id,
        dst: Id,
        msg: SysMsg<Self>,
    ) -> Option<SysHistory<Self>>;

    /// Specifies how an outgoing message contributes to the history, over
    /// the history's abstract content.
    spec fn record_out_spec(
        &self,
        history: SysHistory<Self>,
        src: Id,
        dst: Id,
        msg: SysMsg<Self>,
    ) -> Option<SysHistory<Self>>;

    /// Defines the actors; the index in the returned vector is the actor's
    /// [`Id`].
    fn actors(&self) -> (r: Vec<Self::Actor>)
        ensures
            r@ == self.actors_spec(),
    ;

    /// Defines the initial network.
    fn init_network(&self) -> (r: Vec<Envelope<SysMsg<Self>>>)
        ensures
            r@ == self.init_network_spec(),
    ;

    /// Defines whether the network loses messages or not.
    fn lossy_network(&self) -> (r: LossyNetwork)
        ensures
            r == self.lossy_network_spec(),
    ;

    /// Defines whether the network duplicates messages or not.
    fn duplicating_network(&self) -> (r: DuplicatingNetwork)
        ensures
            r == self.duplicating_network_spec(),
    ;

    /// Folds an incoming message into the history. Returning `Some` updates
    /// the history, `None` leaves it unchanged.
    fn record_msg_in(&self, history: &Self::History, src: Id, dst: Id, msg: &SysMsg<Self>) -> (r:
        Option<Self::History>)
        ensures
            hist_opt(r) == self.record_in_spec(history.hist(), src, dst, *msg),
    ;

    /// Folds an outgoing message into the history. Returning `Some` updates
    /// the history, `None` leaves it unchanged.
    fn record_msg_out(&self, history: &Self::History, src: Id, dst: Id, msg: &SysMsg<Self>) -> (r:
        Option<Self::History>)
        ensures
            hist_opt(r) == self.record_out_spec(history.hist(), src, dst, *msg),
    ;

    /// Generates the expected properties for this model.
    fn properties(&self) -> (r: Vec<Property>)
        ensures
            r@ == self.properties_spec(),
    ;

    /// Evaluates the predicate of the property at `index` in
    /// [`System::properties`] against a snapshot. Out-of-range indices
    /// answer `false`.
    fn property_holds(&self, index: usize, state: &SystemState<Self>) -> (r: bool)
        ensures
            r == self.property_spec(
                index as int,
                (SystemStateView {
                    actor_states: state.actor_states@,
                    network: state.network@,
                    is_timer_set: state.is_timer_set@,
                    history: state.history.hist(),
                }),
            ),
    ;

    /// Indicates whether a state is within the state space that should be
    /// explored; the explorer does not descend through states outside it.
    fn within_boundary(&self, state: &SystemState<Self>) -> (r: bool)
        ensures
            r == self.within_boundary_spec(
                (SystemStateView {
                    actor_states: state.actor_states@,
                    network: state.network@,
                    is_timer_set: state.is_timer_set@,
                    history: state.history.hist(),
                }),
            ),
    ;

    /// Converts this system into a model that can be explored.
    fn into_model(self) -> (m: SystemModel<Self>)
        ensures
            m.actors@ == self.actors_spec(),
            m.init_network@ == self.init_network_spec(),
            m.lossy_network == self.lossy_network_spec(),
            m.duplicating_network == self.duplicating_network_spec(),
            m.system == self,
    {
        let actors = self.actors();
        let init_network = self.init_network();
        let lossy_network = self.lossy_network();
        let duplicating_network = self.duplicating_network();
        SystemModel { actors, init_network, lossy_network, duplicating_network, system: self }
    }
}

/// A model of an actor system.
pub struct SystemModel<S: System> {
    pub actors: Vec<S::Actor>,
    pub init_network: Vec<Envelope<SysMsg<S>>>,
    pub lossy_network: LossyNetwork,
    pub duplicating_network: DuplicatingNetwork,
    pub system: S,
}

/// Represents a snapshot in time for the entire actor system.
///
/// Snapshot equality (`==`) is structural over all four fields, with the
/// network compared as a set, so two snapshots carrying the same envelopes in
/// different orders collapse under deduplication.
pub struct SystemState<S: System> {
    pub actor_states: Vec<SysActorState<S>>,
    pub network: Network<SysMsg<S>>,
    pub is_timer_set: Vec<bool>,
    pub history: S::History,
}

/// The mathematical content of a snapshot.
pub struct SystemStateView<S: System> {
    pub actor_states: Seq<SysActorState<S>>,
    pub network: Seq<Envelope<SysMsg<S>>>,
    pub is_timer_set: Seq<bool>,
    pub history: SysHistory<S>,
}

/// The content of an optional history value.
pub open spec fn hist_opt<H: HistoryData>(o: Option<H>) -> Option<H::V> {
    match o {
        Option::Some(h) => Option::Some(h.hist()),
        Option::None => Option::None,
    }
}

impl<S: System> View for SystemState<S> {
    type V = SystemStateView<S>;

    open spec fn view(&self) -> SystemStateView<S> {
        SystemStateView {
            actor_states: self.actor_states@,
            network: self.network@,
            is_timer_set: self.is_timer_set@,
            history: self.history.hist(),
        }
    }
}

impl<S: System> SystemState<S> {
    /// Returns a snapshot equal to this one.
    pub fn duplicate(&self) -> (r: Self)
        ensures
            r@ == self@,
    {
        let mut actor_states: Vec<SysActorState<S>> = Vec::new();
        let mut i: usize = 0;
        while i < self.actor_states.len()
            invariant
                0 <= i <= self.actor_states@.len(),
                actor_states@ == self.actor_states@.take(i as int),
            decreases self.actor_states@.len() - i,
        {
            proof {
                assert(self.actor_states@.take(i + 1) =~= self.actor_states@.take(
                    i as int,
                ).push(self.actor_states@[i as int]));
            }
            actor_states.push(self.actor_states[i].dup());
            i += 1;
        }
        let mut is_timer_set: Vec<bool> = Vec::new();
        let mut k: usize = 0;
        while k < self.is_timer_set.len()
            invariant
                0 <= k <= self.is_timer_set@.len(),
                is_timer_set@ == self.is_timer_set@.take(k as int),
            decreases self.is_timer_set@.len() - k,
        {
            proof {
                assert(self.is_timer_set@.take(k + 1) =~= self.is_timer_set@.take(
                    k as int,
                ).push(self.is_timer_set@[k as int]));
            }
            is_timer_set.push(self.is_timer_set[k]);
            k += 1;
        }
        proof {
            assert(self.actor_states@.take(self.actor_states@.len() as int)
                =~= self.actor_states@);
            assert(self.is_timer_set@.take(self.is_timer_set@.len() as int)
                =~= self.is_timer_set@);
        }
        SystemState {
            actor_states,
            network: self.network.duplicate(),
            is_timer_set,
            history: self.history.dup(),
        }
    }
}

impl<S: System> PartialEq for SystemState<S> {
    /// Structural equality over all four fields, with the network compared
    /// as a set of envelopes.
    fn eq(&self, other: &SystemState<S>) -> (r: bool) {
        if self.actor_states.len() != other.actor_states.len() {
            return false;
        }
        let mut i: usize = 0;
        while i < self.actor_states.len()
            invariant
                0 <= i <= self.actor_states@.len(),
                self.actor_states@.len() == other.actor_states@.len(),
                forall|j: int| 0 <= j < i ==> self.actor_states@[j] == other.actor_states@[j],
            decreases self.actor_states@.len() - i,
        {
            if !self.actor_states[i].eq_val(&other.actor_states[i]) {
                return false;
            }
            i += 1;
        }
        if self.is_timer_set.len() != other.is_timer_set.len() {
            return false;
        }
        let mut k: usize = 0;
        while k < self.is_timer_set.len()
            invariant
                0 <= k <= self.is_timer_set@.len(),
                self.is_timer_set@.len() == other.is_timer_set@.len(),
                forall|j: int| 0 <= j < k ==> self.is_timer_set@[j] == other.is_timer_set@[j],
            decreases self.is_timer_set@.len() - k,
        {
            if self.is_timer_set[k] != other.is_timer_set[k] {
                return false;
            }
            k += 1;
        }
        if !self.history.eq_val(&other.history) {
            return false;
        }
        let r = self.network.set_eq(&other.network);
        proof {
            assert(self.actor_states@ =~= other.actor_states@);
            assert(self.is_timer_set@ =~= other.is_timer_set@);
        }
        r
    }
}

impl<S: System> vstd::std_specs::cmp::PartialEqSpecImpl for SystemState<S> {
    open spec fn obeys_eq_spec() -> bool {
        true
    }

    open spec fn eq_spec(&self, other: &SystemState<S>) -> bool {
        &&& self@.actor_states == other@.actor_states
        &&& self@.is_timer_set == other@.is_timer_set
        &&& self@.history == other@.history
        &&& self@.network.to_set() == other@.network.to_set()
    }
}

/// Indicates possible steps that an actor system can take as it evolves.
#[derive(Clone, Debug, PartialEq)]
pub enum SystemAction<Msg> {
    /// A message can be delivered to an actor.
    Deliver { src: Id, dst: Id, msg: Msg },
    /// A message can be dropped if the network is lossy.
    Drop(Envelope<Msg>),
    /// An actor can be notified after a timeout.
    Timeout(Id),
}

/// The vector index that an id addresses.
pub open spec fn actor_index(id: Id) -> int {
    id.0 as usize as int
}

/// The timer flags after a `SetTimer` for slot `i`: the sequence grows with
/// unset flags as far as needed, then slot `i` is set.
pub open spec fn timer_set(t: Seq<bool>, i: int) -> Seq<bool> {
    let grown = if i < t.len() {
        t
    } else {
        t + Seq::new((i + 1 - t.len()) as nat, |_j: int| false)
    };
    grown.update(i, true)
}

/// The timer flags after a `CancelTimer` for slot `i`: slot `i` is cleared
/// when present, and an absent slot is left absent.
pub open spec fn timer_clear(t: Seq<bool>, i: int) -> Seq<bool> {
    if 0 <= i < t.len() {
        t.update(i, false)
    } else {
        t
    }
}

/// The snapshot after one command of actor `id` is applied.
pub open spec fn apply_command_view<S: System>(
    sys: S,
    id: Id,
    cmd: Command<SysMsg<S>>,
    v: SystemStateView<S>,
) -> SystemStateView<S> {
    match cmd {
        Command::Send(dst, msg) => {
            let history = match sys.record_out_spec(v.history, id, dst, msg) {
                Option::Some(h) => h,
                Option::None => v.history,
            };
            SystemStateView {
                history,
                network: net_insert(v.network, Envelope { src: id, dst, msg }),
                ..v
            }
        },
        Command::SetTimer(_) => SystemStateView {
            is_timer_set: timer_set(v.is_timer_set, actor_index(id)),
            ..v
        },
        Command::CancelTimer => SystemStateView {
            is_timer_set: timer_clear(v.is_timer_set, actor_index(id)),
            ..v
        },
    }
}

/// The snapshot after all commands of actor `id` are applied, in order.
pub open spec fn apply_commands_view<S: System>(
    sys: S,
    id: Id,
    cmds: Seq<Command<SysMsg<S>>>,
    v: SystemStateView<S>,
) -> SystemStateView<S>
    decreases cmds.len(),
{
    if cmds.len() == 0 {
        v
    } else {
        apply_command_view(sys, id, cmds.last(), apply_commands_view(sys, id, cmds.drop_last(), v))
    }
}

/// Whether a command sequence contains a `SetTimer`.
pub open spec fn has_set_timer<Msg>(cmds: Seq<Command<Msg>>) -> bool {
    exists|k: int| 0 <= k < cmds.len() && cmds[k] is SetTimer
}

/// The actions that one envelope contributes: a drop when the network is
/// lossy, then a delivery when the destination addresses a real actor.
pub open spec fn envelope_actions<Msg>(
    lossy: LossyNetwork,
    actor_count: int,
    e: Envelope<Msg>,
) -> Seq<SystemAction<Msg>> {
    let drops: Seq<SystemAction<Msg>> = if lossy == LossyNetwork::Yes {
        seq![SystemAction::Drop(e)]
    } else {
        Seq::empty()
    };
    let delivers: Seq<SystemAction<Msg>> = if e.dst.0 < actor_count {
        seq![SystemAction::Deliver { src: e.src, dst: e.dst, msg: e.msg }]
    } else {
        Seq::empty()
    };
    drops + delivers
}

/// The actions contributed by the network, in network iteration order.
pub open spec fn network_actions<Msg>(
    lossy: LossyNetwork,
    actor_count: int,
    net: Seq<Envelope<Msg>>,
) -> Seq<SystemAction<Msg>>
    decreases net.len(),
{
    if net.len() == 0 {
        Seq::empty()
    } else {
        network_actions(lossy, actor_count, net.drop_last()) + envelope_actions(
            lossy,
            actor_count,
            net.last(),
        )
    }
}

/// The timeout actions: one per actor whose timer flag is set, in id order.
pub open spec fn timeout_actions<Msg>(timers: Seq<bool>) -> Seq<SystemAction<Msg>>
    decreases timers.len(),
{
    if timers.len() == 0 {
        Seq::empty()
    } else {
        timeout_actions(timers.drop_last()) + (if timers.last() {
            seq![SystemAction::Timeout(Id((timers.len() - 1) as u64))]
        } else {
            Seq::empty()
        })
    }
}

/// All legal next moves of a snapshot, in enumeration order: network actions
/// first, then timeouts.
pub open spec fn actions_view<S: System>(
    m: SystemModel<S>,
    v: SystemStateView<S>,
) -> Seq<SystemAction<SysMsg<S>>> {
    network_actions(m.lossy_network, m.actors@.len() as int, v.network) + timeout_actions(
        v.is_timer_set,
    )
}

/// The successor of a delivery, or `None` when the destination is unknown or
/// the transition is a no-op.
pub open spec fn deliver_view<S: System>(
    m: SystemModel<S>,
    v: SystemStateView<S>,
    src: Id,
    dst: Id,
    msg: SysMsg<S>,
) -> Option<SystemStateView<S>> {
    if dst.0 >= v.actor_states.len() || dst.0 >= m.actors@.len() {
        Option::None
    } else {
        let i = actor_index(dst);
        let (next, cmds) = m.actors@[i].msg_spec(dst, v.actor_states[i], src, msg);
        if next is None && cmds.len() == 0 {
            Option::None
        } else {
            let hooked = m.system.record_in_spec(v.history, src, dst, msg);
            let v1 = if m.duplicating_network == DuplicatingNetwork::No {
                SystemStateView { network: net_remove(v.network, Envelope { src, dst, msg }), ..v }
            } else {
                v
            };
            let v2 = match next {
                Option::Some(ns) => SystemStateView {
                    actor_states: v1.actor_states.update(i, ns),
                    ..v1
                },
                Option::None => v1,
            };
            let v3 = match hooked {
                Option::Some(h) => SystemStateView { history: h, ..v2 },
                Option::None => v2,
            };
            Option::Some(apply_commands_view(m.system, dst, cmds, v3))
        }
    }
}

/// The successor of a timeout, or `None` when the id is unknown, no timer
/// slot exists, or the transition is a no-op that would re-arm the timer.
pub open spec fn timeout_view<S: System>(
    m: SystemModel<S>,
    v: SystemStateView<S>,
    id: Id,
) -> Option<SystemStateView<S>> {
    if id.0 >= v.actor_states.len() || id.0 >= m.actors@.len() || id.0 >= v.is_timer_set.len() {
        Option::None
    } else {
        let i = actor_index(id);
        let (next, cmds) = m.actors@[i].timeout_spec(id, v.actor_states[i]);
        if next is None && cmds.len() == 0 && has_set_timer(cmds) {
            Option::None
        } else {
            let v1 = SystemStateView { is_timer_set: v.is_timer_set.update(i, false), ..v };
            let v2 = match next {
                Option::Some(ns) => SystemStateView {
                    actor_states: v1.actor_states.update(i, ns),
                    ..v1
                },
                Option::None => v1,
            };
            Option::Some(apply_commands_view(m.system, id, cmds, v2))
        }
    }
}

/// The successor that one action produces, or `None` when the action yields
/// no successor.
pub open spec fn next_state_view<S: System>(
    m: SystemModel<S>,
    v: SystemStateView<S>,
    action: SystemAction<SysMsg<S>>,
) -> Option<SystemStateView<S>> {
    match action {
        SystemAction::Drop(env) => Option::Some(
            SystemStateView { network: net_remove(v.network, env), ..v },
        ),
        SystemAction::Deliver { src, dst, msg } => deliver_view(m, v, src, dst, msg),
        SystemAction::Timeout(id) => timeout_view(m, v, id),
    }
}

/// The initial snapshot after the first `n` actors have started.
pub open spec fn init_view_rec<S: System>(m: SystemModel<S>, n: int) -> SystemStateView<S>
    decreases n,
{
    if n <= 0 {
        SystemStateView {
            actor_states: Seq::empty(),
            network: net_dedup(m.init_network@),
            is_timer_set: Seq::empty(),
            history: <S::History as HistoryData>::init_spec(),
        }
    } else {
        let prev = init_view_rec(m, n - 1);
        let id = Id((n - 1) as u64);
        let (st, cmds) = m.actors@[n - 1].start_spec(id);
        let v1 = SystemStateView { actor_states: prev.actor_states.push(st), ..prev };
        apply_commands_view(m.system, id, cmds, v1)
    }
}

/// The single initial snapshot of a model.
pub open spec fn init_view<S: System>(m: SystemModel<S>) -> SystemStateView<S> {
    init_view_rec(m, m.actors@.len() as int)
}

/// The view of an optional snapshot.
pub open spec fn opt_view<S: System>(o: Option<SystemState<S>>) -> Option<SystemStateView<S>> {
    match o {
        Option::Some(s) => Option::Some(s@),
        Option::None => Option::None,
    }
}

impl<S: System> SystemModel<S> {
    /// Produces the initial snapshot: the seeded network, the default
    /// history, and every actor started in id order with its commands
    /// processed.
    pub fn init_states(&self) -> (r: Vec<SystemState<S>>)
        ensures
            r@.len() == 1,
            r@[0]@ == init_view(*self),
    {
        let mut init_network: Vec<Envelope<SysMsg<S>>> = Vec::new();
        let mut k: usize = 0;
        while k < self.init_network.len()
            invariant
                0 <= k <= self.init_network@.len(),
                init_network@ == self.init_network@.take(k as int),
            decreases self.init_network@.len() - k,
        {
            proof {
                assert(self.init_network@.take(k + 1) =~= self.init_network@.take(
                    k as int,
                ).push(self.init_network@[k as int]));
            }
            init_network.push(self.init_network[k].dup());
            k += 1;
        }
        proof {
            assert(self.init_network@.take(self.init_network@.len() as int)
                =~= self.init_network@);
        }
        let mut state: SystemState<S> = SystemState {
            actor_states: Vec::new(),
            network: Network::from_vec(init_network),
            is_timer_set: Vec::new(),
            history: <S::History as HistoryData>::init(),
        };
        let mut i: usize = 0;
        while i < self.actors.len()
            invariant
                0 <= i <= self.actors@.len(),
                state@ == init_view_rec(*self, i as int),
            decreases self.actors@.len() - i,
        {
            let id = Id(i as u64);
            let mut out: Out<SysMsg<S>> = Out::new();
            let st = self.actors[i].on_start(id, &mut out);
            proof {
                assert(Seq::<Command<SysMsg<S>>>::empty() + self.actors@[i as int].start_spec(
                    id,
                ).1 =~= self.actors@[i as int].start_spec(id).1);
            }
            state.actor_states.push(st);
            self.process_commands(id, out, &mut state);
            i += 1;
        }
        let mut r: Vec<SystemState<S>> = Vec::new();
        r.push(state);
        r
    }

    /// Enumerates all legal next moves of a snapshot, appending them in the
    /// order fixed by [`actions_view`]: for each envelope in network order a
    /// drop (lossy networks only) and then a delivery (real destinations
    /// only), followed by one timeout per set timer flag, in id order.
    pub fn actions(&self, state: &SystemState<S>, actions: &mut Vec<SystemAction<SysMsg<S>>>)
        ensures
            final(actions)@ == old(actions)@ + actions_view(*self, state@),
    {
        let ghost entry = old(actions)@;
        let actor_count = self.actors.len();
        let mut i: usize = 0;
        while i < state.network.len()
            invariant
                0 <= i <= state.network@.len(),
                actions@ == entry + network_actions(
                    self.lossy_network,
                    self.actors@.len() as int,
                    state.network@.take(i as int),
                ),
            decreases state.network@.len() - i,
        {
            let ghost prefix = state.network@.take(i as int);
            proof {
                assert(state.network@.take(i + 1).drop_last() =~= prefix);
                assert(state.network@.take(i + 1).last() == state.network@[i as int]);
            }
            let env = state.network.index(i);
            if self.lossy_network == LossyNetwork::Yes {
                actions.push(SystemAction::Drop(env.dup()));
            }
            if env.dst.0 < actor_count as u64 {
                actions.push(
                    SystemAction::Deliver { src: env.src, dst: env.dst, msg: env.msg.dup() },
                );
            }
            proof {
                assert(actions@ =~= entry + network_actions(
                    self.lossy_network,
                    self.actors@.len() as int,
                    state.network@.take(i + 1),
                ));
            }
            i += 1;
        }
        proof {
            assert(state.network@.take(state.network@.len() as int) =~= state.network@);
        }
        let ghost after_net = actions@;
        let mut t: usize = 0;
        while t < state.is_timer_set.len()
            invariant
                0 <= t <= state.is_timer_set@.len(),
                actions@ == after_net + timeout_actions(state.is_timer_set@.take(t as int)),
            decreases state.is_timer_set@.len() - t,
        {
            proof {
                assert(state.is_timer_set@.take(t + 1).drop_last() =~= state.is_timer_set@.take(
                    t as int,
                ));
                assert(state.is_timer_set@.take(t + 1).last() == state.is_timer_set@[t as int]);
            }
            if state.is_timer_set[t] {
                actions.push(SystemAction::Timeout(Id(t as u64)));
            }
            proof {
                assert(actions@ =~= after_net + timeout_actions(
                    state.is_timer_set@.take(t + 1),
                ));
            }
            t += 1;
        }
        proof {
            assert(state.is_timer_set@.take(state.is_timer_set@.len() as int)
                =~= state.is_timer_set@);
            assert(actions@ =~= entry + actions_view(*self, state@));
        }
    }

    /// Applies one action to a snapshot and returns the successor, or `None`
    /// when the action yields no successor: a delivery to an unknown actor, a
    /// no-op delivery transition, or a timeout without a timer slot.
    ///
    /// The input snapshot is borrowed immutably and is never modified; the
    /// successor is a fresh snapshot.
    pub fn next_state(&self, last_sys_state: &SystemState<S>, action: SystemAction<SysMsg<S>>)
        -> (r: Option<SystemState<S>>)
        ensures
            opt_view(r) == next_state_view(*self, last_sys_state@, action),
    {
        match action {
            SystemAction::Drop(env) => {
                let mut next_state = last_sys_state.duplicate();
                next_state.network.remove(&env);
                Some(next_state)
            },
            SystemAction::Deliver { src, dst, msg } => {
                if dst.0 >= last_sys_state.actor_states.len() as u64 || dst.0
                    >= self.actors.len() as u64 {
                    return None;
                }
                let index = dst.0 as usize;
                let mut out: Out<SysMsg<S>> = Out::new();
                let next = self.actors[index].on_msg(
                    dst,
                    &last_sys_state.actor_states[index],
                    src,
                    msg.dup(),
                    &mut out,
                );
                proof {
                    assert(Seq::<Command<SysMsg<S>>>::empty()
                        + self.actors@[index as int].msg_spec(
                        dst,
                        last_sys_state.actor_states@[index as int],
                        src,
                        msg,
                    ).1 =~= self.actors@[index as int].msg_spec(
                        dst,
                        last_sys_state.actor_states@[index as int],
                        src,
                        msg,
                    ).1);
                }
                if is_no_op(&next, &out) {
                    return None;
                }
                let history = self.system.record_msg_in(&last_sys_state.history, src, dst, &msg);
                let mut next_sys_state = last_sys_state.duplicate();
                if self.duplicating_network == DuplicatingNetwork::No {
                    let env = Envelope { src, dst, msg };
                    next_sys_state.network.remove(&env);
                } else {
                    let _unused = msg;
                }
                if let Some(next_actor_state) = next {
                    next_sys_state.actor_states.set(index, next_actor_state);
                }
                if let Some(history) = history {
                    next_sys_state.history = history;
                }
                self.process_commands(dst, out, &mut next_sys_state);
                Some(next_sys_state)
            },
            SystemAction::Timeout(id) => {
                if id.0 >= last_sys_state.actor_states.len() as u64 || id.0
                    >= self.actors.len() as u64 || id.0
                    >= last_sys_state.is_timer_set.len() as u64 {
                    return None;
                }
                let index = id.0 as usize;
                let mut out: Out<SysMsg<S>> = Out::new();
                let next = self.actors[index].on_timeout(
                    id,
                    &last_sys_state.actor_states[index],
                    &mut out,
                );
                proof {
                    assert(Seq::<Command<SysMsg<S>>>::empty()
                        + self.actors@[index as int].timeout_spec(
                        id,
                        last_sys_state.actor_states@[index as int],
                    ).1 =~= self.actors@[index as int].timeout_spec(
                        id,
                        last_sys_state.actor_states@[index as int],
                    ).1);
                }
                let mut keep_timer = false;
                let mut c: usize = 0;
                while c < out.len()
                    invariant
                        0 <= c <= out@.len(),
                        keep_timer == exists|k: int| 0 <= k < c && out@[k] is SetTimer,
                    decreases out@.len() - c,
                {
                    if matches!(out.index(c), Command::SetTimer(_)) {
                        keep_timer = true;
                    }
                    c += 1;
                }
                // A no-op transition that leaves its timer armed would reproduce
                // the snapshot and cycle the exploration. With command-carried
                // timers the two conjuncts are mutually exclusive (re-arming is a
                // command, so the transition is not a no-op); the guard states the
                // intent and never fires.
                if is_no_op(&next, &out) && keep_timer {
                    return None;
                }
                let mut next_sys_state = last_sys_state.duplicate();
                next_sys_state.is_timer_set.set(index, false);
                if let Some(next_actor_state) = next {
                    next_sys_state.actor_states.set(index, next_actor_state);
                }
                self.process_commands(id, out, &mut next_sys_state);
                Some(next_sys_state)
            },
        }
    }

    /// Updates the history, the network, and the timer flags by applying the
    /// commands of actor `id` in emission order.
    pub fn process_commands(&self, id: Id, commands: Out<SysMsg<S>>, state: &mut SystemState<S>)
        ensures
            final(state)@ == apply_commands_view(self.system, id, commands@, old(state)@),
    {
        let index = #[verifier::truncate] (id.0 as usize);
        let mut i: usize = 0;
        while i < commands.len()
            invariant
                0 <= i <= commands@.len(),
                index == actor_index(id),
                state@ == apply_commands_view(
                    self.system,
                    id,
                    commands@.take(i as int),
                    old(state)@,
                ),
            decreases commands@.len() - i,
        {
            let ghost prev = state@;
            proof {
                assert(commands@.take(i + 1).drop_last() =~= commands@.take(i as int));
                assert(commands@.take(i + 1).last() == commands@[i as int]);
            }
            match commands.index(i) {
                Command::Send(dst, msg) => {
                    let dst = *dst;
                    if let Some(history) = self.system.record_msg_out(
                        &state.history,
                        id,
                        dst,
                        msg,
                    ) {
                        state.history = history;
                    }
                    let env = Envelope { src: id, dst, msg: msg.dup() };
                    state.network.insert(env);
                },
                Command::SetTimer(_) => {
                    let ghost before = state.is_timer_set@;
                    if index < state.is_timer_set.len() {
                        state.is_timer_set.set(index, true);
                        proof {
                            assert(state.is_timer_set@ =~= timer_set(before, index as int));
                        }
                    } else {
                        while state.is_timer_set.len() <= index
                            invariant
                                state.actor_states@ == prev.actor_states,
                                state.network@ == prev.network,
                                state.history.hist() == prev.history,
                                before.len() <= state.is_timer_set@.len() <= index + 1,
                                state.is_timer_set@.take(before.len() as int) == before,
                                forall|j: int|
                                    before.len() <= j < state.is_timer_set@.len()
                                        ==> state.is_timer_set@[j] == false,
                            decreases index + 1 - state.is_timer_set@.len(),
                        {
                            state.is_timer_set.push(false);
                        }
                        state.is_timer_set.set(index, true);
                        proof {
                            assert(state.is_timer_set@ =~= timer_set(before, index as int));
                        }
                    }
                },
                Command::CancelTimer => {
                    if index < state.is_timer_set.len() {
                        state.is_timer_set.set(index, false);
                    }
                },
            }
            proof {
                assert(state@ == apply_command_view(self.system, id, commands@[i as int], prev));
                assert(state@ == apply_commands_view(
                    self.system,
                    id,
                    commands@.take(i + 1),
                    old(state)@,
                ));
            }
            i += 1;
        }
        proof {
            assert(commands@.take(commands@.len() as int) =~= commands@);
        }
    }

    /// The properties of the underlying system.
    pub fn properties(&self) -> (r: Vec<Property>)
        ensures
            r@ == self.system.properties_spec(),
    {
        self.system.properties()
    }

    /// Evaluates one property predicate of the underlying system.
    pub fn property_holds(&self, index: usize, state: &SystemState<S>) -> (r: bool)
        ensures
            r == self.system.property_spec(index as int, state@),
    {
        self.system.property_holds(index, state)
    }

    /// Whether a snapshot lies within the explored state space.
    pub fn within_boundary(&self, state: &SystemState<S>) -> (r: bool)
        ensures
            r == self.system.within_boundary_spec(state@),
    {
        self.system.within_boundary(state)
    }
}

/// The specific timeout range is irrelevant for model checking, where only
/// the set/unset bit is tracked, so this helper supplies an arbitrary range.
pub fn model_timeout() -> (r: TimerRange)
    ensures
        r == (TimerRange { min_micros: 0, max_micros: 0 }),
{
    TimerRange { min_micros: 0, max_micros: 0 }
}

/// The peer ids of actor `self_ix` among `count` actors, in id order.
pub open spec fn peers_view(self_ix: int, count: int) -> Seq<Id>
    decreases count,
{
    if count <= 0 {
        Seq::empty()
    } else {
        peers_view(self_ix, count - 1) + (if count - 1 == self_ix {
            Seq::empty()
        } else {
            seq![Id((count - 1) as u64)]
        })
    }
}

/// A helper to generate the list of peer [`Id`]s given an actor count and the
/// index of a particular actor.
pub fn model_peers(self_ix: usize, count: usize) -> (r: Vec<Id>)
    ensures
        r@ == peers_view(self_ix as int, count as int),
{
    let mut r: Vec<Id> = Vec::new();
    let mut j: usize = 0;
    while j < count
        invariant
            0 <= j <= count,
            r@ == peers_view(self_ix as int, j as int),
        decreases count - j,
    {
        if j != self_ix {
            r.push(Id(j as u64));
        }
        proof {
            if j != self_ix {
                assert(peers_view(self_ix as int, j + 1) =~= peers_view(
                    self_ix as int,
                    j as int,
                ).push(Id(j as u64)));
            } else {
                assert(peers_view(self_ix as int, j + 1) =~= peers_view(self_ix as int, j as int));
            }
        }
        j += 1;
    }
    r
}

} // verus!
