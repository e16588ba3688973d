//! Defines an interface for register-like actors (via [`RegisterMsg`]) and a
//! test harness ([`RegisterTestSystem`]) that composes user-supplied server
//! actors with synthetic clients to exercise linearizability.
//!
//! Clients are appended after all servers, so a client's id minus the server
//! count yields a 0-based client index, which derives a deterministic
//! starting letter (counting up from `'A'`) and a mirror letter (counting
//! down from `'Z'`). The k-th request of a client targets server
//! `(client_id + k) % server_count`, so different clients exercise different
//! servers over time.

use vstd::prelude::*;

use crate::actor::{Actor, Command, Data, Id, Out};
use crate::network::Envelope;
use crate::semantics::{serialization_spec, LinearizabilityTester, RegisterOp, RegisterRet};
use crate::system::{
    DuplicatingNetwork, Expectation, LossyNetwork, Property, System, SystemState,
    SystemStateView,
};

verus! {

/// A simple request ID type for tests.
pub type TestRequestId = u64;

/// A simple value type for tests.
pub type TestValue = char;

/// Defines an interface for a register-like actor.
#[derive(Clone, Debug, Hash, PartialEq, Eq)]
pub enum RegisterMsg<RequestId, Value, InternalMsg> {
    /// A message specific to the register system's internal protocol.
    Internal(InternalMsg),
    /// Indicates that a value should be written.
    Put(RequestId, Value),
    /// Indicates that a value should be retrieved.
    Get(RequestId),
    /// Indicates a successful `Put`.
    PutOk(RequestId),
    /// Indicates a successful `Get`.
    GetOk(RequestId, Value),
}

impl<RequestId: Data, Value: Data, InternalMsg: Data> Data for RegisterMsg<
    RequestId,
    Value,
    InternalMsg,
> {
    fn dup(&self) -> (r: Self) {
        match self {
            RegisterMsg::Internal(m) => RegisterMsg::Internal(m.dup()),
            RegisterMsg::Put(rid, v) => RegisterMsg::Put(rid.dup(), v.dup()),
            RegisterMsg::Get(rid) => RegisterMsg::Get(rid.dup()),
            RegisterMsg::PutOk(rid) => RegisterMsg::PutOk(rid.dup()),
            RegisterMsg::GetOk(rid, v) => RegisterMsg::GetOk(rid.dup(), v.dup()),
        }
    }

    fn eq_val(&self, other: &Self) -> (r: bool) {
        match (self, other) {
            (RegisterMsg::Internal(m), RegisterMsg::Internal(n)) => m.eq_val(n),
            (RegisterMsg::Put(a, v), RegisterMsg::Put(b, w)) => a.eq_val(b) && v.eq_val(w),
            (RegisterMsg::Get(a), RegisterMsg::Get(b)) => a.eq_val(b),
            (RegisterMsg::PutOk(a), RegisterMsg::PutOk(b)) => a.eq_val(b),
            (RegisterMsg::GetOk(a, v), RegisterMsg::GetOk(b, w)) => a.eq_val(b) && v.eq_val(w),
            _ => false,
        }
    }
}

/// The composite actor of the harness: a synthetic client, or a wrapped
/// user-supplied server.
pub enum RegisterActor<ServerActor, InternalMsg> {
    /// A client that puts a sequence of values and then gets one: it sends
    /// `Put` requests (two for the first client, one for the others) and,
    /// once each is acknowledged, follows up with a `Get`.
    Client { server_count: u64, marker: core::marker::PhantomData<InternalMsg> },
    /// A server actor being validated.
    Server(ServerActor),
}

/// The composite actor's state.
pub enum RegisterActorState<ServerState> {
    /// The client's progress: the outstanding request id, if any, and the
    /// number of requests issued so far.
    Client { awaiting: Option<TestRequestId>, op_count: u64 },
    /// Wraps the state of a server actor.
    Server(ServerState),
}

impl<ServerState: Data> Data for RegisterActorState<ServerState> {
    fn dup(&self) -> (r: Self) {
        match self {
            RegisterActorState::Client { awaiting, op_count } => RegisterActorState::Client {
                awaiting: match awaiting {
                    Some(rid) => Some(*rid),
                    None => None,
                },
                op_count: *op_count,
            },
            RegisterActorState::Server(s) => RegisterActorState::Server(s.dup()),
        }
    }

    fn eq_val(&self, other: &Self) -> (r: bool) {
        match (self, other) {
            (
                RegisterActorState::Client { awaiting: a, op_count: n },
                RegisterActorState::Client { awaiting: b, op_count: m },
            ) => {
                let same_awaiting = match (a, b) {
                    (Some(x), Some(y)) => x == y,
                    (None, None) => true,
                    _ => false,
                };
                same_awaiting && n == m
            },
            (RegisterActorState::Server(s), RegisterActorState::Server(t)) => s.eq_val(t),
            _ => false,
        }
    }
}

/// The client's starting letter: `'A'` plus the 0-based client index, as
/// wrapping byte arithmetic (so `'['` follows `'Z'`, and the letters cycle
/// through the byte range for large indices).
pub open spec fn start_letter(client_index: u64) -> char {
    (65u8).wrapping_add(client_index as u8) as char
}

/// The client's mirror letter: `'Z'` minus the 0-based client index, as
/// wrapping byte arithmetic.
pub open spec fn mirror_letter(client_index: u64) -> char {
    (90u8).wrapping_sub(client_index as u8) as char
}

fn start_letter_exec(client_index: u64) -> (r: char)
    ensures
        r == start_letter(client_index),
{
    (65u8).wrapping_add(client_index as u8) as char
}

fn mirror_letter_exec(client_index: u64) -> (r: char)
    ensures
        r == mirror_letter(client_index),
{
    (90u8).wrapping_sub(client_index as u8) as char
}

impl<ServerActor, InternalMsg> Actor for RegisterActor<ServerActor, InternalMsg> where
    ServerActor: Actor<Msg = RegisterMsg<TestRequestId, TestValue, InternalMsg>>,
    InternalMsg: Data,
 {
    type Msg = RegisterMsg<TestRequestId, TestValue, InternalMsg>;

    type State = RegisterActorState<ServerActor::State>;

    open spec fn start_spec(&self, id: Id) -> (Self::State, Seq<Command<Self::Msg>>) {
        match *self {
            RegisterActor::Client { server_count, .. } => {
                if server_count == 0 {
                    (
                        RegisterActorState::Client { awaiting: None, op_count: 1 },
                        Seq::<Command<Self::Msg>>::empty(),
                    )
                } else {
                    let index = id.0;
                    let value = start_letter(index.wrapping_sub(server_count));
                    (
                        RegisterActorState::Client { awaiting: Some(index), op_count: 1 },
                        seq![
                            Command::Send(
                                Id(index % server_count),
                                RegisterMsg::Put(index, value),
                            ),
                        ],
                    )
                }
            },
            RegisterActor::Server(server_actor) => {
                let (st, cmds) = server_actor.start_spec(id);
                (RegisterActorState::Server(st), cmds)
            },
        }
    }

    open spec fn msg_spec(&self, id: Id, state: Self::State, src: Id, msg: Self::Msg) -> (
        Option<Self::State>,
        Seq<Command<Self::Msg>>,
    ) {
        match (*self, state) {
            (
                RegisterActor::Client { server_count, .. },
                RegisterActorState::Client { awaiting: Some(awaiting), op_count },
            ) => {
                match msg {
                    RegisterMsg::PutOk(rid) => {
                        if rid == awaiting && server_count > 0 {
                            let index = id.0;
                            let next_rid = op_count.wrapping_add(1).wrapping_mul(index);
                            let max_put_count: u64 = if index == server_count {
                                2
                            } else {
                                1
                            };
                            let dst = Id(index.wrapping_add(op_count) % server_count);
                            let next_state = RegisterActorState::Client {
                                awaiting: Some(next_rid),
                                op_count: op_count.wrapping_add(1),
                            };
                            if op_count < max_put_count {
                                let value = mirror_letter(index.wrapping_sub(server_count));
                                (
                                    Some(next_state),
                                    seq![Command::Send(dst, RegisterMsg::Put(next_rid, value))],
                                )
                            } else {
                                (
                                    Some(next_state),
                                    seq![Command::Send(dst, RegisterMsg::Get(next_rid))],
                                )
                            }
                        } else {
                            (None, Seq::<Command<Self::Msg>>::empty())
                        }
                    },
                    RegisterMsg::GetOk(rid, _value) => {
                        if rid == awaiting {
                            (
                                Some(
                                    RegisterActorState::Client {
                                        awaiting: None,
                                        op_count: op_count.wrapping_add(1),
                                    },
                                ),
                                Seq::<Command<Self::Msg>>::empty(),
                            )
                        } else {
                            (None, Seq::<Command<Self::Msg>>::empty())
                        }
                    },
                    _ => (None, Seq::<Command<Self::Msg>>::empty()),
                }
            },
            (RegisterActor::Server(server_actor), RegisterActorState::Server(server_state)) => {
                let (st, cmds) = server_actor.msg_spec(id, server_state, src, msg);
                (
                    match st {
                        Some(s) => Some(RegisterActorState::Server(s)),
                        None => None,
                    },
                    cmds,
                )
            },
            _ => (None, Seq::<Command<Self::Msg>>::empty()),
        }
    }

    open spec fn timeout_spec(&self, id: Id, state: Self::State) -> (
        Option<Self::State>,
        Seq<Command<Self::Msg>>,
    ) {
        match (*self, state) {
            (RegisterActor::Server(server_actor), RegisterActorState::Server(server_state)) => {
                let (st, cmds) = server_actor.timeout_spec(id, server_state);
                (
                    match st {
                        Some(s) => Some(RegisterActorState::Server(s)),
                        None => None,
                    },
                    cmds,
                )
            },
            _ => (None, Seq::<Command<Self::Msg>>::empty()),
        }
    }

    fn on_start(&self, id: Id, o: &mut Out<Self::Msg>) -> (st: Self::State) {
        match self {
            RegisterActor::Client { server_count, .. } => {
                let server_count = *server_count;
                if server_count == 0 {
                    RegisterActorState::Client { awaiting: None, op_count: 1 }
                } else {
                    let index = id.0;
                    let value = start_letter_exec(index.wrapping_sub(server_count));
                    o.send(Id(index % server_count), RegisterMsg::Put(index, value));
                    RegisterActorState::Client { awaiting: Some(index), op_count: 1 }
                }
            },
            RegisterActor::Server(server_actor) => {
                let mut server_out: Out<Self::Msg> = Out::new();
                let st = server_actor.on_start(id, &mut server_out);
                o.append(&mut server_out);
                proof {
                    assert(old(o)@ + (Seq::<Command<Self::Msg>>::empty()
                        + server_actor.start_spec(id).1) =~= old(o)@ + server_actor.start_spec(
                        id,
                    ).1);
                }
                RegisterActorState::Server(st)
            },
        }
    }

    fn on_msg(&self, id: Id, state: &Self::State, src: Id, msg: Self::Msg, o: &mut Out<Self::Msg>)
        -> (r: Option<Self::State>) {
        match (self, state) {
            (
                RegisterActor::Client { server_count, .. },
                RegisterActorState::Client { awaiting: Some(awaiting), op_count },
            ) => {
                let server_count = *server_count;
                let awaiting = *awaiting;
                let op_count = *op_count;
                match msg {
                    RegisterMsg::PutOk(rid) => {
                        if rid == awaiting && server_count > 0 {
                            let index = id.0;
                            let next_rid = op_count.wrapping_add(1).wrapping_mul(index);
                            let max_put_count: u64 = if index == server_count {
                                2
                            } else {
                                1
                            };
                            let dst = Id(index.wrapping_add(op_count) % server_count);
                            if op_count < max_put_count {
                                let value = mirror_letter_exec(index.wrapping_sub(server_count));
                                o.send(dst, RegisterMsg::Put(next_rid, value));
                            } else {
                                o.send(dst, RegisterMsg::Get(next_rid));
                            }
                            Some(
                                RegisterActorState::Client {
                                    awaiting: Some(next_rid),
                                    op_count: op_count.wrapping_add(1),
                                },
                            )
                        } else {
                            None
                        }
                    },
                    RegisterMsg::GetOk(rid, _value) => {
                        if rid == awaiting {
                            Some(
                                RegisterActorState::Client {
                                    awaiting: None,
                                    op_count: op_count.wrapping_add(1),
                                },
                            )
                        } else {
                            None
                        }
                    },
                    _ => None,
                }
            },
            (RegisterActor::Server(server_actor), RegisterActorState::Server(server_state)) => {
                let mut server_out: Out<Self::Msg> = Out::new();
                let st = server_actor.on_msg(id, server_state, src, msg, &mut server_out);
                o.append(&mut server_out);
                proof {
                    assert(old(o)@ + (Seq::<Command<Self::Msg>>::empty()
                        + server_actor.msg_spec(id, *server_state, src, msg).1) =~= old(o)@
                        + server_actor.msg_spec(id, *server_state, src, msg).1);
                }
                match st {
                    Some(s) => Some(RegisterActorState::Server(s)),
                    None => None,
                }
            },
            _ => None,
        }
    }

    fn on_timeout(&self, id: Id, state: &Self::State, o: &mut Out<Self::Msg>) -> (r: Option<
        Self::State,
    >) {
        match (self, state) {
            (RegisterActor::Server(server_actor), RegisterActorState::Server(server_state)) => {
                let mut server_out: Out<Self::Msg> = Out::new();
                let st = server_actor.on_timeout(id, server_state, &mut server_out);
                o.append(&mut server_out);
                proof {
                    assert(old(o)@ + (Seq::<Command<Self::Msg>>::empty()
                        + server_actor.timeout_spec(id, *server_state).1) =~= old(o)@
                        + server_actor.timeout_spec(id, *server_state).1);
                }
                match st {
                    Some(s) => Some(RegisterActorState::Server(s)),
                    None => None,
                }
            },
            _ => None,
        }
    }
}

/// A system for testing an actor service with register semantics: the given
/// servers, followed by synthetic clients, with the observed operation
/// history threaded into a [`LinearizabilityTester`].
#[verifier::reject_recursive_types(InternalMsg)]
pub struct RegisterTestSystem<ServerActor, InternalMsg> where
    ServerActor: Actor<Msg = RegisterMsg<TestRequestId, TestValue, InternalMsg>> + Data,
    InternalMsg: Data,
 {
    pub servers: Vec<ServerActor>,
    pub client_count: u8,
    pub lossy_network: LossyNetwork,
    pub duplicating_network: DuplicatingNetwork,
    pub marker: core::marker::PhantomData<InternalMsg>,
}

impl<ServerActor, InternalMsg> Default for RegisterTestSystem<ServerActor, InternalMsg> where
    ServerActor: Actor<Msg = RegisterMsg<TestRequestId, TestValue, InternalMsg>> + Data,
    InternalMsg: Data,
 {
    fn default() -> (r: Self)
        ensures
            r.servers@ == Seq::<ServerActor>::empty(),
            r.client_count == 2,
            r.lossy_network == LossyNetwork::No,
            r.duplicating_network == DuplicatingNetwork::Yes,
    {
        RegisterTestSystem {
            servers: Vec::new(),
            client_count: 2,
            lossy_network: LossyNetwork::No,
            duplicating_network: DuplicatingNetwork::Yes,
            marker: core::marker::PhantomData,
        }
    }
}

/// Whether a message carries a retrieved value other than the default.
pub open spec fn chosen_value<RequestId, InternalMsg>(
    m: RegisterMsg<RequestId, TestValue, InternalMsg>,
) -> bool {
    match m {
        RegisterMsg::GetOk(_rid, v) => v != '\0',
        _ => false,
    }
}

/// Whether the first `upto` envelopes include a retrieved value other than
/// the default.
pub open spec fn some_value_chosen<RequestId, InternalMsg>(
    net: Seq<Envelope<RegisterMsg<RequestId, TestValue, InternalMsg>>>,
    upto: int,
) -> bool {
    exists|k: int| 0 <= k < upto && chosen_value(#[trigger] net[k].msg)
}

impl<ServerActor, InternalMsg> System for RegisterTestSystem<ServerActor, InternalMsg> where
    ServerActor: Actor<Msg = RegisterMsg<TestRequestId, TestValue, InternalMsg>> + Data,
    InternalMsg: Data,
 {
    type Actor = RegisterActor<ServerActor, InternalMsg>;

    type History = LinearizabilityTester;

    /// The wrapped servers first, then `client_count` clients, so client ids
    /// start at the server count.
    open spec fn actors_spec(&self) -> Seq<RegisterActor<ServerActor, InternalMsg>> {
        self.servers@.map_values(|s: ServerActor| RegisterActor::<ServerActor, InternalMsg>::Server(s))
            + Seq::new(
            self.client_count as nat,
            |i: int|
                RegisterActor::<ServerActor, InternalMsg>::Client {
                    server_count: self.servers@.len() as u64,
                    marker: core::marker::PhantomData,
                },
        )
    }

    open spec fn init_network_spec(&self) -> Seq<
        Envelope<RegisterMsg<TestRequestId, TestValue, InternalMsg>>,
    > {
        Seq::empty()
    }

    open spec fn lossy_network_spec(&self) -> LossyNetwork {
        self.lossy_network
    }

    open spec fn duplicating_network_spec(&self) -> DuplicatingNetwork {
        self.duplicating_network
    }

    open spec fn properties_spec(&self) -> Seq<Property> {
        seq![
            Property { expectation: Expectation::Always, name: "linearizable" },
            Property { expectation: Expectation::Sometimes, name: "value chosen" },
        ]
    }

    /// The predicates, by index: the recorded operation history serializes
    /// against the sequential register semantics; some envelope carries a
    /// retrieved value other than the default.
    open spec fn property_spec(&self, index: int, state: SystemStateView<Self>) -> bool {
        if index == 0 {
            serialization_spec(state.history) is Some
        } else if index == 1 {
            some_value_chosen(state.network, state.network.len() as int)
        } else {
            false
        }
    }

    open spec fn within_boundary_spec(&self, state: SystemStateView<Self>) -> bool {
        true
    }

    open spec fn record_in_spec(
        &self,
        history: Seq<crate::semantics::HistoryEvent>,
        src: Id,
        dst: Id,
        msg: RegisterMsg<TestRequestId, TestValue, InternalMsg>,
    ) -> Option<Seq<crate::semantics::HistoryEvent>> {
        match msg {
            RegisterMsg::GetOk(_rid, v) => Some(
                history.push(
                    crate::semantics::HistoryEvent::Return(dst, RegisterRet::ReadOk(v)),
                ),
            ),
            RegisterMsg::PutOk(_rid) => Some(
                history.push(crate::semantics::HistoryEvent::Return(dst, RegisterRet::WriteOk)),
            ),
            _ => None,
        }
    }

    open spec fn record_out_spec(
        &self,
        history: Seq<crate::semantics::HistoryEvent>,
        src: Id,
        dst: Id,
        msg: RegisterMsg<TestRequestId, TestValue, InternalMsg>,
    ) -> Option<Seq<crate::semantics::HistoryEvent>> {
        match msg {
            RegisterMsg::Get(_rid) => Some(
                history.push(crate::semantics::HistoryEvent::Invoke(src, RegisterOp::Read)),
            ),
            RegisterMsg::Put(_rid, v) => Some(
                history.push(
                    crate::semantics::HistoryEvent::Invoke(src, RegisterOp::Write(v)),
                ),
            ),
            _ => None,
        }
    }

    fn actors(&self) -> (r: Vec<RegisterActor<ServerActor, InternalMsg>>) {
        let ghost servers_part = self.servers@.map_values(
            |s: ServerActor| RegisterActor::<ServerActor, InternalMsg>::Server(s),
        );
        let mut actors: Vec<RegisterActor<ServerActor, InternalMsg>> = Vec::new();
        let mut i: usize = 0;
        while i < self.servers.len()
            invariant
                0 <= i <= self.servers@.len(),
                actors@.len() == i,
                forall|k: int|
                    0 <= k < i ==> actors@[k] == RegisterActor::<ServerActor, InternalMsg>::Server(
                        self.servers@[k],
                    ),
            decreases self.servers@.len() - i,
        {
            actors.push(RegisterActor::Server(self.servers[i].dup()));
            i += 1;
        }
        let server_count = self.servers.len() as u64;
        let mut c: u8 = 0;
        while c < self.client_count
            invariant
                0 <= c <= self.client_count,
                actors@.len() == self.servers@.len() + c,
                forall|k: int|
                    0 <= k < self.servers@.len() ==> actors@[k] == RegisterActor::<
                        ServerActor,
                        InternalMsg,
                    >::Server(self.servers@[k]),
                forall|k: int|
                    self.servers@.len() <= k < actors@.len() ==> actors@[k] == (RegisterActor::<
                        ServerActor,
                        InternalMsg,
                    >::Client {
                        server_count: self.servers@.len() as u64,
                        marker: core::marker::PhantomData,
                    }),
            decreases self.client_count - c,
        {
            actors.push(RegisterActor::Client { server_count, marker: core::marker::PhantomData });
            c += 1;
        }
        proof {
            assert(actors@ =~= self.actors_spec());
        }
        actors
    }

    fn init_network(&self) -> (r: Vec<Envelope<RegisterMsg<TestRequestId, TestValue, InternalMsg>>>) {
        Vec::new()
    }

    fn lossy_network(&self) -> (r: LossyNetwork) {
        self.lossy_network
    }

    fn duplicating_network(&self) -> (r: DuplicatingNetwork) {
        self.duplicating_network
    }

    fn record_msg_in(
        &self,
        history: &LinearizabilityTester,
        src: Id,
        dst: Id,
        msg: &RegisterMsg<TestRequestId, TestValue, InternalMsg>,
    ) -> (r: Option<LinearizabilityTester>) {
        match msg {
            RegisterMsg::GetOk(_rid, v) => {
                let mut h = crate::actor::HistoryData::dup(history);
                h.on_return(dst, RegisterRet::ReadOk(v.dup()));
                Some(h)
            },
            RegisterMsg::PutOk(_rid) => {
                let mut h = crate::actor::HistoryData::dup(history);
                h.on_return(dst, RegisterRet::WriteOk);
                Some(h)
            },
            _ => None,
        }
    }

    fn record_msg_out(
        &self,
        history: &LinearizabilityTester,
        src: Id,
        dst: Id,
        msg: &RegisterMsg<TestRequestId, TestValue, InternalMsg>,
    ) -> (r: Option<LinearizabilityTester>) {
        match msg {
            RegisterMsg::Get(_rid) => {
                let mut h = crate::actor::HistoryData::dup(history);
                h.on_invoke(src, RegisterOp::Read);
                Some(h)
            },
            RegisterMsg::Put(_rid, v) => {
                let mut h = crate::actor::HistoryData::dup(history);
                h.on_invoke(src, RegisterOp::Write(v.dup()));
                Some(h)
            },
            _ => None,
        }
    }

    fn properties(&self) -> (r: Vec<Property>) {
        let mut v: Vec<Property> = Vec::new();
        v.push(Property::always("linearizable"));
        v.push(Property::sometimes("value chosen"));
        proof {
            assert(v@ =~= self.properties_spec());
        }
        v
    }

    fn property_holds(&self, index: usize, state: &SystemState<Self>) -> (r: bool) {
        if index == 0 {
            state.history.serialized_history().is_some()
        } else if index == 1 {
            let mut i: usize = 0;
            let mut chosen = false;
            while i < state.network.len()
                invariant
                    0 <= i <= state.network@.len(),
                    chosen == some_value_chosen(state.network@, i as int),
                decreases state.network@.len() - i,
            {
                match &state.network.index(i).msg {
                    RegisterMsg::GetOk(_rid, value) => {
                        if *value != '\0' {
                            chosen = true;
                        }
                    },
                    _ => {},
                }
                i += 1;
            }
            chosen
        } else {
            false
        }
    }

    fn within_boundary(&self, state: &SystemState<Self>) -> (r: bool) {
        true
    }
}

/// A server holding one copy of the register: `Put` overwrites the value and
/// is acknowledged; `Get` answers with the current value.
pub struct SingleCopyServer;

impl Data for SingleCopyServer {
    fn dup(&self) -> (r: Self) {
        SingleCopyServer
    }

    fn eq_val(&self, other: &Self) -> (r: bool) {
        true
    }
}

impl Actor for SingleCopyServer {
    type Msg = RegisterMsg<TestRequestId, TestValue, ()>;

    type State = char;

    open spec fn start_spec(&self, id: Id) -> (char, Seq<Command<Self::Msg>>) {
        ('\0', Seq::empty())
    }

    open spec fn msg_spec(&self, id: Id, state: char, src: Id, msg: Self::Msg) -> (
        Option<char>,
        Seq<Command<Self::Msg>>,
    ) {
        match msg {
            RegisterMsg::Put(rid, v) => (
                Some(v),
                seq![Command::Send(src, RegisterMsg::PutOk(rid))],
            ),
            RegisterMsg::Get(rid) => (
                None,
                seq![Command::Send(src, RegisterMsg::GetOk(rid, state))],
            ),
            _ => (None, Seq::empty()),
        }
    }

    open spec fn timeout_spec(&self, id: Id, state: char) -> (Option<char>, Seq<Command<Self::Msg>>) {
        (None, Seq::empty())
    }

    fn on_start(&self, id: Id, o: &mut Out<Self::Msg>) -> (st: char) {
        '\0'
    }

    fn on_msg(&self, id: Id, state: &char, src: Id, msg: Self::Msg, o: &mut Out<Self::Msg>) -> (r:
        Option<char>) {
        match msg {
            RegisterMsg::Put(rid, v) => {
                o.send(src, RegisterMsg::PutOk(rid));
                Some(v)
            },
            RegisterMsg::Get(rid) => {
                o.send(src, RegisterMsg::GetOk(rid, *state));
                None
            },
            _ => None,
        }
    }

    fn on_timeout(&self, id: Id, state: &char, o: &mut Out<Self::Msg>) -> (r: Option<char>) {
        None
    }
}

} // verus!
