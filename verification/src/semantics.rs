//! A recorder of register operation histories with a linearizability test.
//!
//! The recorder keeps the observed sequence of invocation and return events,
//! one entry per hook call, and [`LinearizabilityTester::serialized_history`]
//! searches for a serialization of that history: an order of the observed
//! operations, consistent both with real time (an operation that returned
//! before another was invoked must come first) and with the sequential
//! semantics of a single register, in which every read returns the most
//! recently written value. Pending operations may take effect or be dropped.

use vstd::pervasive::VecAdditionalExecFns;
use vstd::prelude::*;

use crate::actor::{Data, HistoryData, Id};

verus! {

/// An operation on a shared register.
#[derive(Clone, Copy, Debug, Hash, PartialEq, Eq)]
pub enum RegisterOp {
    Read,
    Write(char),
}

/// The return of a register operation.
#[derive(Clone, Copy, Debug, Hash, PartialEq, Eq)]
pub enum RegisterRet {
    ReadOk(char),
    WriteOk,
}

/// One observed event: a client invoked an operation, or an operation of a
/// client returned.
#[derive(Clone, Copy, Debug, Hash, PartialEq, Eq)]
pub enum HistoryEvent {
    Invoke(Id, RegisterOp),
    Return(Id, RegisterRet),
}

impl Data for RegisterOp {
    fn dup(&self) -> (r: Self) {
        *self
    }

    fn eq_val(&self, other: &Self) -> (r: bool) {
        match (self, other) {
            (RegisterOp::Read, RegisterOp::Read) => true,
            (RegisterOp::Write(a), RegisterOp::Write(b)) => a == b,
            _ => false,
        }
    }
}

impl Data for RegisterRet {
    fn dup(&self) -> (r: Self) {
        *self
    }

    fn eq_val(&self, other: &Self) -> (r: bool) {
        match (self, other) {
            (RegisterRet::ReadOk(a), RegisterRet::ReadOk(b)) => a == b,
            (RegisterRet::WriteOk, RegisterRet::WriteOk) => true,
            _ => false,
        }
    }
}

impl Data for HistoryEvent {
    fn dup(&self) -> (r: Self) {
        *self
    }

    fn eq_val(&self, other: &Self) -> (r: bool) {
        match (self, other) {
            (HistoryEvent::Invoke(c, op), HistoryEvent::Invoke(d, oq)) => c == d && op.eq_val(oq),
            (HistoryEvent::Return(c, rp), HistoryEvent::Return(d, rq)) => c == d && rp.eq_val(rq),
            _ => false,
        }
    }
}

/// Records invocation and return events of register operations, per client,
/// in observation order.
pub struct LinearizabilityTester {
    events: Vec<HistoryEvent>,
}

impl View for LinearizabilityTester {
    type V = Seq<HistoryEvent>;

    closed spec fn view(&self) -> Seq<HistoryEvent> {
        self.events@
    }
}

impl HistoryData for LinearizabilityTester {
    type V = Seq<HistoryEvent>;

    open spec fn hist(&self) -> Seq<HistoryEvent> {
        self@
    }

    open spec fn init_spec() -> Seq<HistoryEvent> {
        Seq::empty()
    }

    fn init() -> (r: Self) {
        LinearizabilityTester::new()
    }

    fn dup(&self) -> (r: Self) {
        self.duplicate()
    }

    fn eq_val(&self, other: &Self) -> (r: bool) {
        if self.events.len() != other.events.len() {
            return false;
        }
        let mut i: usize = 0;
        while i < self.events.len()
            invariant
                i <= self@.len(),
                self@.len() == other@.len(),
                forall|j: int| 0 <= j < i ==> self@[j] == other@[j],
            decreases self@.len() - i,
        {
            if !self.events[i].eq_val(&other.events[i]) {
                return false;
            }
            i += 1;
        }
        proof {
            assert(self@ =~= other@);
        }
        true
    }
}

/// One operation extracted from the event log: who invoked what and when,
/// and — for a completed operation — what it returned and when.
#[derive(Clone, Copy)]
pub struct OpSlot {
    pub client: Id,
    pub op: RegisterOp,
    pub ret: Option<RegisterRet>,
    pub invoke_pos: usize,
    pub return_pos: usize,
    pub done: bool,
}

/// Whether some operation of `client` is outstanding.
pub open spec fn has_pending(ops: Seq<OpSlot>, client: Id) -> bool {
    exists|j: int| 0 <= j < ops.len() && (#[trigger] ops[j]).client == client && !ops[j].done
}

/// The position of the first outstanding operation of `client` (meaningful
/// only when one exists).
pub open spec fn first_pending(ops: Seq<OpSlot>, client: Id) -> int
    decreases ops.len(),
{
    if ops.len() == 0 {
        0
    } else if ops[0].client == client && !ops[0].done {
        0
    } else {
        1 + first_pending(ops.drop_first(), client)
    }
}

proof fn lemma_first_pending(ops: Seq<OpSlot>, client: Id, j: int)
    requires
        0 <= j < ops.len(),
        ops[j].client == client,
        !ops[j].done,
        forall|k: int| 0 <= k < j ==> ((#[trigger] ops[k]).done || ops[k].client != client),
    ensures
        first_pending(ops, client) == j,
    decreases j,
{
    if j > 0 {
        lemma_first_pending(ops.drop_first(), client, j - 1);
    }
}

/// The operations extracted from the events at positions `i` and beyond,
/// starting from the already-extracted `acc`: an invocation opens a new slot
/// unless its client has one outstanding, and a return completes the
/// client's first outstanding slot; a history that breaks either rule is
/// malformed and extracts to `None`.
pub open spec fn extract_ops_rec(events: Seq<HistoryEvent>, i: int, acc: Seq<OpSlot>) -> Option<
    Seq<OpSlot>,
>
    decreases events.len() - i,
{
    if i < 0 || i >= events.len() {
        Some(acc)
    } else {
        match events[i] {
            HistoryEvent::Invoke(client, op) => {
                if has_pending(acc, client) {
                    None
                } else {
                    extract_ops_rec(
                        events,
                        i + 1,
                        acc.push(
                            OpSlot {
                                client,
                                op,
                                ret: None,
                                invoke_pos: i as usize,
                                return_pos: 0,
                                done: false,
                            },
                        ),
                    )
                }
            },
            HistoryEvent::Return(client, ret) => {
                if !has_pending(acc, client) {
                    None
                } else {
                    let j = first_pending(acc, client);
                    extract_ops_rec(
                        events,
                        i + 1,
                        acc.update(
                            j,
                            OpSlot {
                                client,
                                op: acc[j].op,
                                ret: Some(ret),
                                invoke_pos: acc[j].invoke_pos,
                                return_pos: i as usize,
                                done: true,
                            },
                        ),
                    )
                }
            },
        }
    }
}

/// The operations extracted from a whole event log.
pub open spec fn extract_ops(events: Seq<HistoryEvent>) -> Option<Seq<OpSlot>> {
    extract_ops_rec(events, 0, Seq::empty())
}

/// The sequential return of an operation against the current register value.
pub open spec fn sem_ret_of(op: RegisterOp, value: char) -> RegisterRet {
    match op {
        RegisterOp::Write(_) => RegisterRet::WriteOk,
        RegisterOp::Read => RegisterRet::ReadOk(value),
    }
}

/// The register value after an operation.
pub open spec fn next_value_of(op: RegisterOp, value: char) -> char {
    match op {
        RegisterOp::Write(v) => v,
        RegisterOp::Read => value,
    }
}

/// Whether every completed operation has been placed.
pub open spec fn all_done_used(ops: Seq<OpSlot>, used: Seq<bool>) -> bool {
    forall|j: int| 0 <= j < ops.len() ==> ((#[trigger] ops[j]).done ==> used[j])
}

/// Whether no unplaced completed operation returned before operation `idx`
/// was invoked — the real-time condition for placing `idx` next.
pub open spec fn minimal_choice(ops: Seq<OpSlot>, used: Seq<bool>, idx: int) -> bool {
    forall|k: int| #![auto]
        0 <= k < ops.len() ==> !(k != idx && !used[k] && ops[k].done && ops[k].return_pos
            < ops[idx].invoke_pos)
}

/// Whether operation `idx` may be placed next: unplaced, no unplaced
/// completed operation precedes it in real time, and — when it completed —
/// its recorded return matches the sequential semantics.
pub open spec fn eligible(ops: Seq<OpSlot>, used: Seq<bool>, value: char, idx: int) -> bool {
    &&& !used[idx]
    &&& minimal_choice(ops, used, idx)
    &&& match ops[idx].ret {
        Option::None => true,
        Option::Some(actual) => actual == sem_ret_of(ops[idx].op, value),
    }
}

/// The serialization that the search finds from a given frontier, if any:
/// done once every completed operation is placed, else the first success of
/// placing any eligible operation next.
pub open spec fn search_rec(
    ops: Seq<OpSlot>,
    used: Seq<bool>,
    value: char,
    acc: Seq<(RegisterOp, RegisterRet)>,
) -> Option<Seq<(RegisterOp, RegisterRet)>>
    decreases count_unused(used), ops.len() + 1,
{
    if all_done_used(ops, used) {
        Some(acc)
    } else {
        search_from(ops, used, value, acc, 0)
    }
}

/// The first success of placing an eligible operation at position `idx` or
/// beyond.
pub open spec fn search_from(
    ops: Seq<OpSlot>,
    used: Seq<bool>,
    value: char,
    acc: Seq<(RegisterOp, RegisterRet)>,
    idx: int,
) -> Option<Seq<(RegisterOp, RegisterRet)>>
    decreases count_unused(used), ops.len() - idx,
    via search_from_decreases
{
    if idx < 0 || idx >= ops.len() {
        None
    } else if used.len() == ops.len() && eligible(ops, used, value, idx) {
        match search_rec(
            ops,
            used.update(idx, true),
            next_value_of(ops[idx].op, value),
            acc.push((ops[idx].op, sem_ret_of(ops[idx].op, value))),
        ) {
            Some(w) => Some(w),
            None => search_from(ops, used, value, acc, idx + 1),
        }
    } else {
        search_from(ops, used, value, acc, idx + 1)
    }
}

#[via_fn]
proof fn search_from_decreases(
    ops: Seq<OpSlot>,
    used: Seq<bool>,
    value: char,
    acc: Seq<(RegisterOp, RegisterRet)>,
    idx: int,
) {
    if 0 <= idx < ops.len() && used.len() == ops.len() && eligible(ops, used, value, idx) {
        lemma_count_unused_update(used, idx);
    }
}

/// A sequence of `n` unplaced marks.
pub open spec fn no_used(n: int) -> Seq<bool> {
    Seq::new(n as nat, |i: int| false)
}

/// The serialization of a whole event log: the extracted operations searched
/// from an all-unplaced frontier and the initial register value.
pub open spec fn serialization_spec(events: Seq<HistoryEvent>) -> Option<
    Seq<(RegisterOp, RegisterRet)>,
> {
    if events.len() == 0 {
        Some(Seq::empty())
    } else {
        match extract_ops(events) {
            Some(ops) => search_rec(ops, no_used(ops.len() as int), '\0', Seq::empty()),
            None => None,
        }
    }
}

/// The content of an optional serialization.
pub open spec fn run_opt(o: Option<Vec<(RegisterOp, RegisterRet)>>) -> Option<
    Seq<(RegisterOp, RegisterRet)>,
> {
    match o {
        Option::Some(v) => Option::Some(v@),
        Option::None => Option::None,
    }
}

/// The number of entries still unused by the serialization search.
pub open spec fn count_unused(s: Seq<bool>) -> nat
    decreases s.len(),
{
    if s.len() == 0 {
        0
    } else {
        count_unused(s.drop_last()) + (if s.last() {
            0nat
        } else {
            1nat
        })
    }
}

proof fn lemma_count_unused_update(s: Seq<bool>, i: int)
    requires
        0 <= i < s.len(),
        !s[i],
    ensures
        count_unused(s.update(i, true)) < count_unused(s),
    decreases s.len(),
{
    if i == s.len() - 1 {
        assert(s.update(i, true).drop_last() =~= s.drop_last());
        assert(s.update(i, true).last());
    } else {
        assert(s.update(i, true).drop_last() =~= s.drop_last().update(i, true));
        lemma_count_unused_update(s.drop_last(), i);
        assert(s.update(i, true).last() == s.last());
    }
}

/// Finds the first outstanding operation of `client`.
fn find_pending(ops: &Vec<OpSlot>, client: Id) -> (r: Option<usize>)
    ensures
        match r {
            Some(j) => {
                &&& j < ops@.len()
                &&& ops@[j as int].client == client
                &&& !ops@[j as int].done
                &&& first_pending(ops@, client) == j as int
                &&& has_pending(ops@, client)
            },
            None => !has_pending(ops@, client),
        },
{
    let mut j: usize = 0;
    while j < ops.len()
        invariant
            0 <= j <= ops@.len(),
            forall|k: int| 0 <= k < j ==> ((#[trigger] ops@[k]).done || ops@[k].client != client),
        decreases ops@.len() - j,
    {
        if ops[j].client == client && !ops[j].done {
            proof {
                lemma_first_pending(ops@, client, j as int);
            }
            return Some(j);
        }
        j += 1;
    }
    None
}

impl LinearizabilityTester {
    /// An empty history.
    pub fn new() -> (r: Self)
        ensures
            r@ == Seq::<HistoryEvent>::empty(),
    {
        LinearizabilityTester { events: Vec::new() }
    }

    /// Records that `client` invoked `op`.
    pub fn on_invoke(&mut self, client: Id, op: RegisterOp)
        ensures
            final(self)@ == old(self)@.push(HistoryEvent::Invoke(client, op)),
    {
        self.events.push(HistoryEvent::Invoke(client, op));
    }

    /// Records that an operation of `client` returned `ret`.
    pub fn on_return(&mut self, client: Id, ret: RegisterRet)
        ensures
            final(self)@ == old(self)@.push(HistoryEvent::Return(client, ret)),
    {
        self.events.push(HistoryEvent::Return(client, ret));
    }

    /// Returns a copy with the same recorded events.
    pub fn duplicate(&self) -> (r: Self)
        ensures
            r@ == self@,
    {
        let mut events: Vec<HistoryEvent> = Vec::new();
        let mut i: usize = 0;
        while i < self.events.len()
            invariant
                0 <= i <= self@.len(),
                events@ == self@.take(i as int),
            decreases self@.len() - i,
        {
            proof {
                assert(self@.take(i + 1) =~= self@.take(i as int).push(self@[i as int]));
            }
            events.push(self.events[i].dup());
            i += 1;
        }
        proof {
            assert(self@.take(self@.len() as int) =~= self@);
        }
        LinearizabilityTester { events }
    }

    /// Searches for a serialization of the recorded history against the
    /// sequential register semantics (initial value `'\0'`): the result is
    /// exactly [`serialization_spec`] of the recorded events — the extracted
    /// operations ([`extract_ops`]) searched over every real-time-respecting
    /// placement ([`search_rec`]). A malformed history — a client invoking
    /// while an operation of its is outstanding, or a return without an
    /// invocation — yields `None`.
    pub fn serialized_history(&self) -> (r: Option<Vec<(RegisterOp, RegisterRet)>>)
        ensures
            run_opt(r) == serialization_spec(self@),
            self@.len() == 0 ==> r is Some,
            r matches Some(w) ==> register_run_consistent(w@),
    {
        if self.events.len() == 0 {
            let empty: Vec<(RegisterOp, RegisterRet)> = Vec::new();
            return Some(empty);
        }
        // Pair invocations with returns, in observation order.
        let mut ops: Vec<OpSlot> = Vec::new();
        let mut i: usize = 0;
        while i < self.events.len()
            invariant
                0 <= i <= self@.len(),
                extract_ops(self@) == extract_ops_rec(self@, i as int, ops@),
            decreases self@.len() - i,
        {
            let ghost prev_ops = ops@;
            match self.events[i] {
                HistoryEvent::Invoke(client, op) => {
                    if find_pending(&ops, client).is_some() {
                        return None;
                    }
                    ops.push(
                        OpSlot {
                            client,
                            op,
                            ret: None,
                            invoke_pos: i,
                            return_pos: 0,
                            done: false,
                        },
                    );
                },
                HistoryEvent::Return(client, ret) => {
                    match find_pending(&ops, client) {
                        None => {
                            return None;
                        },
                        Some(j) => {
                            let slot = ops[j];
                            ops.set(
                                j,
                                OpSlot {
                                    client,
                                    op: slot.op,
                                    ret: Some(ret),
                                    invoke_pos: slot.invoke_pos,
                                    return_pos: i,
                                    done: true,
                                },
                            );
                        },
                    }
                },
            }
            proof {
                assert(extract_ops_rec(self@, i as int, prev_ops) == extract_ops_rec(
                    self@,
                    i + 1,
                    ops@,
                ));
            }
            i += 1;
        }
        let ghost all = ops@;
        let mut used: Vec<bool> = Vec::new();
        let mut k: usize = 0;
        while k < ops.len()
            invariant
                0 <= k <= ops@.len(),
                ops@ == all,
                used@ == no_used(k as int),
            decreases ops@.len() - k,
        {
            proof {
                assert(no_used(k + 1) =~= no_used(k as int).push(false));
            }
            used.push(false);
            k += 1;
        }
        serialize_search(&ops, used, '\0', Vec::new())
    }
}

/// The value a register holds after a serialized sequence of operations,
/// starting from `'\0'`.
pub open spec fn register_value_after(w: Seq<(RegisterOp, RegisterRet)>) -> char
    decreases w.len(),
{
    if w.len() == 0 {
        '\0'
    } else {
        match w.last().0 {
            RegisterOp::Write(v) => v,
            RegisterOp::Read => register_value_after(w.drop_last()),
        }
    }
}

/// Whether a serialized sequence of operations is consistent with the
/// sequential semantics of a single register: every write acknowledges, and
/// every read returns the most recently written value (initially `'\0'`).
pub open spec fn register_run_consistent(w: Seq<(RegisterOp, RegisterRet)>) -> bool
    decreases w.len(),
{
    if w.len() == 0 {
        true
    } else {
        register_run_consistent(w.drop_last()) && (match w.last().0 {
            RegisterOp::Write(_) => w.last().1 == RegisterRet::WriteOk,
            RegisterOp::Read => w.last().1 == RegisterRet::ReadOk(
                register_value_after(w.drop_last()),
            ),
        })
    }
}

/// One step of the serialization search, computing [`search_rec`]: succeed
/// once every completed operation is placed, else place any eligible
/// operation next and recurse.
fn serialize_search(
    ops: &Vec<OpSlot>,
    used: Vec<bool>,
    value: char,
    acc: Vec<(RegisterOp, RegisterRet)>,
) -> (r: Option<Vec<(RegisterOp, RegisterRet)>>)
    requires
        used@.len() == ops@.len(),
        register_run_consistent(acc@),
        value == register_value_after(acc@),
    ensures
        run_opt(r) == search_rec(ops@, used@, value, acc@),
        r matches Some(w) ==> register_run_consistent(w@),
    decreases count_unused(used@),
{
    let mut complete = true;
    let mut j: usize = 0;
    while j < ops.len()
        invariant
            0 <= j <= ops@.len(),
            used@.len() == ops@.len(),
            complete == (forall|k: int| 0 <= k < j ==> ((#[trigger] ops@[k]).done ==> used@[k])),
        decreases ops@.len() - j,
    {
        if ops[j].done && !used[j] {
            complete = false;
        }
        j += 1;
    }
    if complete {
        proof {
            assert(all_done_used(ops@, used@));
        }
        return Some(acc);
    }
    proof {
        assert(!all_done_used(ops@, used@));
    }
    let mut idx: usize = 0;
    while idx < ops.len()
        invariant
            0 <= idx <= ops@.len(),
            used@.len() == ops@.len(),
            register_run_consistent(acc@),
            value == register_value_after(acc@),
            search_rec(ops@, used@, value, acc@) == search_from(
                ops@,
                used@,
                value,
                acc@,
                idx as int,
            ),
        decreases ops@.len() - idx,
    {
        if !used[idx] {
            let mut minimal = true;
            let mut k: usize = 0;
            while k < ops.len()
                invariant
                    0 <= k <= ops@.len(),
                    used@.len() == ops@.len(),
                    idx < ops@.len(),
                    minimal == (forall|k2: int| #![auto]
                        0 <= k2 < k ==> !(k2 != idx && !used@[k2] && ops@[k2].done
                            && ops@[k2].return_pos < ops@[idx as int].invoke_pos)),
                decreases ops@.len() - k,
            {
                if k != idx && !used[k] && ops[k].done && ops[k].return_pos
                    < ops[idx].invoke_pos {
                    minimal = false;
                }
                k += 1;
            }
            let sem_ret = match ops[idx].op {
                RegisterOp::Write(_) => RegisterRet::WriteOk,
                RegisterOp::Read => RegisterRet::ReadOk(value),
            };
            let consistent = match ops[idx].ret {
                None => true,
                Some(actual) => actual.eq_val(&sem_ret),
            };
            if minimal && consistent {
                proof {
                    assert(eligible(ops@, used@, value, idx as int));
                }
                let new_value = match ops[idx].op {
                    RegisterOp::Write(v) => v,
                    RegisterOp::Read => value,
                };
                let mut used2: Vec<bool> = Vec::new();
                let mut u: usize = 0;
                while u < used.len()
                    invariant
                        0 <= u <= used@.len(),
                        used2@ == used@.take(u as int),
                    decreases used@.len() - u,
                {
                    proof {
                        assert(used@.take(u + 1) =~= used@.take(u as int).push(used@[u as int]));
                    }
                    used2.push(used[u]);
                    u += 1;
                }
                proof {
                    assert(used@.take(used@.len() as int) =~= used@);
                }
                used2.set(idx, true);
                let mut acc2: Vec<(RegisterOp, RegisterRet)> = Vec::new();
                let mut a: usize = 0;
                while a < acc.len()
                    invariant
                        0 <= a <= acc@.len(),
                        acc2@ == acc@.take(a as int),
                    decreases acc@.len() - a,
                {
                    proof {
                        assert(acc@.take(a + 1) =~= acc@.take(a as int).push(acc@[a as int]));
                    }
                    let entry = acc[a];
                    acc2.push((entry.0.dup(), entry.1.dup()));
                    a += 1;
                }
                proof {
                    assert(acc@.take(acc@.len() as int) =~= acc@);
                }
                acc2.push((ops[idx].op.dup(), sem_ret));
                proof {
                    lemma_count_unused_update(used@, idx as int);
                    assert(acc2@.drop_last() =~= acc@);
                    assert(acc2@.last() == (ops@[idx as int].op, sem_ret_of(
                        ops@[idx as int].op,
                        value,
                    )));
                    assert(register_run_consistent(acc2@));
                    assert(new_value == register_value_after(acc2@));
                }
                let attempt = serialize_search(ops, used2, new_value, acc2);
                if attempt.is_some() {
                    return attempt;
                }
            }
        }
        proof {
            assert(search_from(ops@, used@, value, acc@, idx as int) == search_from(
                ops@,
                used@,
                value,
                acc@,
                idx + 1,
            ));
        }
        idx += 1;
    }
    None
}

} // verus!
