//! Actors: deterministic state machines that react to incoming events by
//! updating private state and emitting a stream of [`Command`]s.
//!
//! An [`Actor`] describes its behaviour twice: once as executable transition
//! functions (`on_start`, `on_msg`, `on_timeout`) and once as specification
//! functions (`start_spec`, `msg_spec`, `timeout_spec`). The trait contract
//! binds each executable transition to its specification, which makes every
//! actor transition provably deterministic: identical arguments yield the
//! identical next state and the identical command sequence.

use vstd::prelude::*;

verus! {

/// Uniquely identifies an [`Actor`]. In a model the value is the actor's
/// index in the system's actor vector; ids at or above the actor count are
/// legal but undeliverable destinations.
#[derive(Clone, Copy, Debug, Hash, PartialEq, Eq, PartialOrd, Ord, Structural)]
pub struct Id(pub u64);

impl Default for Id {
    fn default() -> (r: Self)
        ensures
            r == (Id(0)),
    {
        Id(0)
    }
}

impl From<usize> for Id {
    fn from(u: usize) -> (r: Self)
        ensures
            r == (Id(u as u64)),
    {
        Id(u as u64)
    }
}

impl vstd::std_specs::convert::FromSpecImpl<usize> for Id {
    open spec fn obeys_from_spec() -> bool {
        true
    }

    open spec fn from_spec(u: usize) -> Id {
        Id(u as u64)
    }
}

impl From<Id> for usize {
    fn from(id: Id) -> (r: Self)
        ensures
            r == id.0 as usize,
    {
        id.0 as usize
    }
}

impl vstd::std_specs::convert::FromSpecImpl<Id> for usize {
    open spec fn obeys_from_spec() -> bool {
        true
    }

    open spec fn from_spec(id: Id) -> usize {
        id.0 as usize
    }
}

/// Plain data that actors and systems traffic in: values that can be copied
/// and compared, with both operations pinned to specification-level equality.
pub trait Data: Sized {
    /// Returns a copy of the value.
    fn dup(&self) -> (r: Self)
        ensures
            r == *self,
    ;

    /// Compares two values; the result agrees with mathematical equality.
    fn eq_val(&self, other: &Self) -> (r: bool)
        ensures
            r == (*self == *other),
    ;
}

/// Plain data with a total order, pinned to a specification-level relation.
/// The order lets equal envelope sets be put into one canonical sequence,
/// the building block of a fingerprint that is consistent with snapshot
/// equality.
pub trait DataOrd: Data {
    /// The order relation.
    spec fn le_spec(&self, other: &Self) -> bool;

    /// The order relates every pair, one way or the other.
    proof fn lemma_total(a: &Self, b: &Self)
        ensures
            a.le_spec(b) || b.le_spec(a),
    ;

    /// Mutually related values are equal.
    proof fn lemma_antisymmetric(a: &Self, b: &Self)
        requires
            a.le_spec(b),
            b.le_spec(a),
        ensures
            a == b,
    ;

    /// The order is transitive.
    proof fn lemma_transitive(a: &Self, b: &Self, c: &Self)
        requires
            a.le_spec(b),
            b.le_spec(c),
        ensures
            a.le_spec(c),
    ;

    /// Decides the order.
    fn le_val(&self, other: &Self) -> (r: bool)
        ensures
            r == self.le_spec(other),
    ;
}

impl DataOrd for u64 {
    open spec fn le_spec(&self, other: &Self) -> bool {
        *self <= *other
    }

    proof fn lemma_total(a: &Self, b: &Self) {
    }

    proof fn lemma_antisymmetric(a: &Self, b: &Self) {
    }

    proof fn lemma_transitive(a: &Self, b: &Self, c: &Self) {
    }

    fn le_val(&self, other: &Self) -> (r: bool) {
        *self <= *other
    }
}

impl DataOrd for char {
    open spec fn le_spec(&self, other: &Self) -> bool {
        *self <= *other
    }

    proof fn lemma_total(a: &Self, b: &Self) {
    }

    proof fn lemma_antisymmetric(a: &Self, b: &Self) {
    }

    proof fn lemma_transitive(a: &Self, b: &Self, c: &Self) {
    }

    fn le_val(&self, other: &Self) -> (r: bool) {
        *self <= *other
    }
}

/// Auxiliary history kept alongside a running system. Such a value starts
/// from a designated initial value and is folded forward by the system's
/// record hooks.
///
/// A history is understood through its abstract content `V` (for a plain
/// history, the value itself; for a recorder backed by a vector, the
/// recorded sequence), and every operation is specified over that content.
pub trait HistoryData: Sized {
    /// The type of the abstract content.
    type V;

    /// The abstract content of this history value.
    spec fn hist(&self) -> Self::V;

    /// The content of the initial history value.
    spec fn init_spec() -> Self::V;

    /// Produces the initial history value.
    fn init() -> (r: Self)
        ensures
            r.hist() == Self::init_spec(),
    ;

    /// Returns a history with the same content.
    fn dup(&self) -> (r: Self)
        ensures
            r.hist() == self.hist(),
    ;

    /// Compares two histories by content.
    fn eq_val(&self, other: &Self) -> (r: bool)
        ensures
            r == (self.hist() == other.hist()),
    ;
}

impl Data for () {
    fn dup(&self) -> (r: Self) {
    }

    fn eq_val(&self, other: &Self) -> (r: bool) {
        true
    }
}

impl HistoryData for () {
    type V = ();

    open spec fn hist(&self) -> () {
        ()
    }

    open spec fn init_spec() -> () {
        ()
    }

    fn init() -> (r: Self) {
    }

    fn dup(&self) -> (r: Self) {
    }

    fn eq_val(&self, other: &Self) -> (r: bool) {
        true
    }
}

impl Data for u32 {
    fn dup(&self) -> (r: Self) {
        *self
    }

    fn eq_val(&self, other: &Self) -> (r: bool) {
        *self == *other
    }
}

impl Data for u64 {
    fn dup(&self) -> (r: Self) {
        *self
    }

    fn eq_val(&self, other: &Self) -> (r: bool) {
        *self == *other
    }
}

impl Data for char {
    fn dup(&self) -> (r: Self) {
        *self
    }

    fn eq_val(&self, other: &Self) -> (r: bool) {
        *self == *other
    }
}

impl Data for bool {
    fn dup(&self) -> (r: Self) {
        *self
    }

    fn eq_val(&self, other: &Self) -> (r: bool) {
        *self == *other
    }
}

impl Data for (u32, u32) {
    fn dup(&self) -> (r: Self) {
        (self.0, self.1)
    }

    fn eq_val(&self, other: &Self) -> (r: bool) {
        self.0 == other.0 && self.1 == other.1
    }
}

impl HistoryData for (u32, u32) {
    type V = (u32, u32);

    open spec fn hist(&self) -> (u32, u32) {
        *self
    }

    open spec fn init_spec() -> (u32, u32) {
        (0u32, 0u32)
    }

    fn init() -> (r: Self) {
        (0u32, 0u32)
    }

    fn dup(&self) -> (r: Self) {
        (self.0, self.1)
    }

    fn eq_val(&self, other: &Self) -> (r: bool) {
        self.0 == other.0 && self.1 == other.1
    }
}

/// A timer duration range. The model checker tracks only whether a timer is
/// set, so the bounds are carried for the benefit of runtimes and are
/// otherwise opaque.
#[derive(Clone, Copy, Debug, Hash, PartialEq, Eq, Structural)]
pub struct TimerRange {
    pub min_micros: u64,
    pub max_micros: u64,
}

/// Commands with which an actor can respond.
pub enum Command<Msg> {
    /// Cancel the timer if one is set.
    CancelTimer,
    /// Set/reset the timer.
    SetTimer(TimerRange),
    /// Send a message to a destination.
    Send(Id, Msg),
}

/// Holds [`Command`]s output by an actor during one transition, in emission
/// order.
pub struct Out<Msg> {
    cmds: Vec<Command<Msg>>,
}

impl<Msg> View for Out<Msg> {
    type V = Seq<Command<Msg>>;

    closed spec fn view(&self) -> Seq<Command<Msg>> {
        self.cmds@
    }
}

impl<Msg> Out<Msg> {
    /// Constructs an empty `Out`.
    pub fn new() -> (r: Self)
        ensures
            r@ == Seq::<Command<Msg>>::empty(),
    {
        Out { cmds: Vec::new() }
    }

    /// The number of commands recorded so far.
    pub fn len(&self) -> (r: usize)
        ensures
            r == self@.len(),
    {
        self.cmds.len()
    }

    /// Whether no command has been recorded.
    pub fn is_empty(&self) -> (r: bool)
        ensures
            r == (self@.len() == 0),
    {
        self.cmds.len() == 0
    }

    /// Reads the command at position `i`.
    pub fn index(&self, i: usize) -> (r: &Command<Msg>)
        requires
            i < self@.len(),
        ensures
            *r == self@[i as int],
    {
        &self.cmds[i]
    }

    /// Moves all commands of `other` into `self`, leaving `other` empty.
    pub fn append(&mut self, other: &mut Out<Msg>)
        ensures
            final(self)@ == old(self)@ + old(other)@,
            final(other)@ == Seq::<Command<Msg>>::empty(),
    {
        self.cmds.append(&mut other.cmds);
    }

    /// Records the need to set the timer. See [`Actor::on_timeout`].
    pub fn set_timer(&mut self, duration: TimerRange)
        ensures
            final(self)@ == old(self)@.push(Command::SetTimer(duration)),
    {
        self.cmds.push(Command::SetTimer(duration));
    }

    /// Records the need to cancel the timer.
    pub fn cancel_timer(&mut self)
        ensures
            final(self)@ == old(self)@.push(Command::CancelTimer),
    {
        self.cmds.push(Command::CancelTimer);
    }

    /// Records the need to send a message. See [`Actor::on_msg`].
    pub fn send(&mut self, recipient: Id, msg: Msg)
        ensures
            final(self)@ == old(self)@.push(Command::Send(recipient, msg)),
    {
        self.cmds.push(Command::Send(recipient, msg));
    }
}

/// The command sequence that a broadcast appends: one send per recipient, in
/// recipient order.
pub open spec fn broadcast_cmds<Msg>(recipients: Seq<Id>, msg: Msg) -> Seq<Command<Msg>> {
    recipients.map_values(|r: Id| Command::Send(r, msg))
}

impl<Msg: Data> Out<Msg> {
    /// Records the need to send a copy of one message to every recipient.
    pub fn broadcast(&mut self, recipients: &[Id], msg: &Msg)
        ensures
            final(self)@ == old(self)@ + broadcast_cmds(recipients@, *msg),
    {
        let mut i: usize = 0;
        while i < recipients.len()
            invariant
                0 <= i <= recipients@.len(),
                self@ == old(self)@ + broadcast_cmds(recipients@, *msg).take(i as int),
            decreases recipients@.len() - i,
        {
            proof {
                assert(broadcast_cmds(recipients@, *msg).take(i + 1) =~= broadcast_cmds(
                    recipients@,
                    *msg,
                ).take(i as int).push(Command::Send(recipients@[i as int], *msg)));
            }
            let recipient = recipients[i];
            self.send(recipient, msg.dup());
            i += 1;
        }
        proof {
            assert(broadcast_cmds(recipients@, *msg).take(recipients@.len() as int)
                =~= broadcast_cmds(recipients@, *msg));
        }
    }
}

/// If true, then the actor did not update its state or output commands.
pub fn is_no_op<State, Msg>(state: &Option<State>, o: &Out<Msg>) -> (r: bool)
    ensures
        r == (state is None && o@.len() == 0),
{
    state.is_none() && o.is_empty()
}

/// An actor initializes internal state, optionally emitting commands; then it
/// waits for incoming events, responding by returning a replacement state
/// (`None` for "unchanged") and optionally emitting commands.
///
/// Every transition carries a specification twin, and the trait contract
/// requires the executable transition to match it exactly. An actor is
/// therefore deterministic by construction; all nondeterminism (delivery
/// order, loss, duplication, timeouts) belongs to the surrounding model.
pub trait Actor: Sized {
    /// The type of messages sent and received by the actor.
    type Msg: Data;

    /// The type of state maintained by the actor.
    type State: Data;

    /// Specifies the initial state and the commands emitted at start.
    spec fn start_spec(&self, id: Id) -> (Self::State, Seq<Command<Self::Msg>>);

    /// Specifies the transition on message receipt: the replacement state
    /// (`None` when the state is kept) and the commands emitted.
    spec fn msg_spec(&self, id: Id, state: Self::State, src: Id, msg: Self::Msg) -> (
        Option<Self::State>,
        Seq<Command<Self::Msg>>,
    );

    /// Specifies the transition on a timeout.
    spec fn timeout_spec(&self, id: Id, state: Self::State) -> (
        Option<Self::State>,
        Seq<Command<Self::Msg>>,
    );

    /// Indicates the initial state and commands.
    fn on_start(&self, id: Id, o: &mut Out<Self::Msg>) -> (st: Self::State)
        ensures
            st == self.start_spec(id).0,
            final(o)@ == old(o)@ + self.start_spec(id).1,
    ;

    /// Indicates the next state and commands when a message is received.
    /// Returns `None` when the actor keeps its current state.
    fn on_msg(&self, id: Id, state: &Self::State, src: Id, msg: Self::Msg, o: &mut Out<Self::Msg>)
        -> (r: Option<Self::State>)
        ensures
            r == self.msg_spec(id, *state, src, msg).0,
            final(o)@ == old(o)@ + self.msg_spec(id, *state, src, msg).1,
    ;

    /// Indicates the next state and commands when a timeout is encountered.
    fn on_timeout(&self, id: Id, state: &Self::State, o: &mut Out<Self::Msg>) -> (r: Option<
        Self::State,
    >)
        ensures
            r == self.timeout_spec(id, *state).0,
            final(o)@ == old(o)@ + self.timeout_spec(id, *state).1,
    ;
}

/// Indicates the number of nodes that constitute a majority for a particular
/// cluster size.
pub fn majority(cluster_size: usize) -> (r: usize)
    ensures
        r == cluster_size as int / 2 + 1,
{
    cluster_size / 2 + 1
}

} // verus!
