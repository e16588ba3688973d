//! Laws of the transition system: the universal guarantees that the model
//! offers to every system, stated over the specification-level views and
//! proved once and for all.

use vstd::prelude::*;

use crate::actor::{Actor, Command, Id};
use crate::network::{net_dedup, net_remove, lemma_net_dedup, lemma_net_remove_set, Envelope};
use crate::system::{
    actions_view, actor_index, apply_command_view, apply_commands_view, envelope_actions,
    network_actions, next_state_view, timeout_actions, timer_set, DuplicatingNetwork,
    LossyNetwork, SysMsg, System, SystemAction, SystemModel, SystemStateView,
};

verus! {

/// Membership in a concatenation is membership in either part.
pub proof fn lemma_seq_add_contains<T>(a: Seq<T>, b: Seq<T>, x: T)
    ensures
        (a + b).contains(x) <==> (a.contains(x) || b.contains(x)),
{
    if a.contains(x) {
        let i = choose|i: int| 0 <= i < a.len() && a[i] == x;
        assert((a + b)[i] == x);
    }
    if b.contains(x) {
        let i = choose|i: int| 0 <= i < b.len() && b[i] == x;
        assert((a + b)[a.len() + i] == x);
    }
    if (a + b).contains(x) {
        let i = choose|i: int| 0 <= i < (a + b).len() && (a + b)[i] == x;
        if i < a.len() {
            assert(a[i] == x);
        } else {
            assert(b[i - a.len()] == x);
        }
    }
}

/// A sequence is its first part plus its last element.
proof fn lemma_unsnoc<T>(s: Seq<T>, x: T)
    requires
        s.len() > 0,
    ensures
        s.contains(x) <==> (s.drop_last().contains(x) || s.last() == x),
{
    if s.contains(x) {
        let i = choose|i: int| 0 <= i < s.len() && s[i] == x;
        if i < s.len() - 1 {
            assert(s.drop_last()[i] == x);
        }
    }
    if s.drop_last().contains(x) {
        let i = choose|i: int| 0 <= i < s.drop_last().len() && s.drop_last()[i] == x;
        assert(s[i] == x);
    }
}

/// Determinism: the successor of a snapshot under an action is a function of
/// the model, the snapshot, and the action — two applications of
/// [`next_state_view`] to the same arguments are one and the same result.
/// The executable `next_state` returns exactly this function of its inputs,
/// so two calls on equal arguments yield structurally equal results.
pub proof fn lemma_next_state_deterministic<S: System>(
    m: SystemModel<S>,
    v: SystemStateView<S>,
    a: SystemAction<SysMsg<S>>,
    r1: Option<SystemStateView<S>>,
    r2: Option<SystemStateView<S>>,
)
    requires
        r1 == next_state_view(m, v, a),
        r2 == next_state_view(m, v, a),
    ensures
        r1 == r2,
{
}

/// No-op pruning: a delivery whose transition neither replaces the actor's
/// state nor emits a command yields no successor.
pub proof fn lemma_no_op_delivery_pruned<S: System>(
    m: SystemModel<S>,
    v: SystemStateView<S>,
    src: Id,
    dst: Id,
    msg: SysMsg<S>,
)
    requires
        ({
            let (next, cmds) = m.actors@[actor_index(dst)].msg_spec(
                dst,
                v.actor_states[actor_index(dst)],
                src,
                msg,
            );
            next is None && cmds.len() == 0
        }),
    ensures
        next_state_view(m, v, SystemAction::Deliver { src, dst, msg }) is None,
{
}

/// Which envelopes a command sequence of actor `id` puts on the network.
pub open spec fn sends_envelope<S: System>(
    id: Id,
    cmds: Seq<Command<SysMsg<S>>>,
    e: Envelope<SysMsg<S>>,
) -> bool {
    exists|k: int|
        0 <= k < cmds.len() && cmds[k] == Command::Send(e.dst, e.msg) && e.src == id
}

/// Command processing touches only the network, the timer flags, and the
/// history: actor states are untouched; envelopes are only ever added, each
/// traceable to a `Send` command; freedom from duplicates is preserved.
pub proof fn lemma_apply_commands_effects<S: System>(
    sys: S,
    id: Id,
    cmds: Seq<Command<SysMsg<S>>>,
    v: SystemStateView<S>,
)
    ensures
        apply_commands_view(sys, id, cmds, v).actor_states == v.actor_states,
        forall|e: Envelope<SysMsg<S>>|
            v.network.contains(e) ==> #[trigger] apply_commands_view(
                sys,
                id,
                cmds,
                v,
            ).network.contains(e),
        forall|e: Envelope<SysMsg<S>>|
            #[trigger] apply_commands_view(sys, id, cmds, v).network.contains(e) ==> (
            v.network.contains(e) || sends_envelope::<S>(id, cmds, e)),
        v.network.no_duplicates() ==> apply_commands_view(sys, id, cmds, v).network.no_duplicates(),
    decreases cmds.len(),
{
    if cmds.len() > 0 {
        lemma_apply_commands_effects(sys, id, cmds.drop_last(), v);
        let prev = apply_commands_view(sys, id, cmds.drop_last(), v);
        let out = apply_command_view(sys, id, cmds.last(), prev);
        match cmds.last() {
            Command::Send(dst, msg) => {
                let e0 = Envelope { src: id, dst, msg };
                crate::network::lemma_net_insert_set(prev.network, e0);
                if v.network.no_duplicates() {
                    crate::network::lemma_net_insert_no_dup(prev.network, e0);
                }
                assert forall|e: Envelope<SysMsg<S>>| #[trigger] out.network.contains(e) implies (
                v.network.contains(e) || sends_envelope::<S>(id, cmds, e)) by {
                    if e == e0 {
                        assert(cmds[cmds.len() - 1] == Command::Send(e.dst, e.msg));
                    } else {
                        assert(prev.network.contains(e));
                        if !v.network.contains(e) {
                            let k = choose|k: int|
                                0 <= k < cmds.drop_last().len() && cmds.drop_last()[k]
                                    == Command::Send(e.dst, e.msg) && e.src == id;
                            assert(cmds[k] == Command::Send(e.dst, e.msg));
                        }
                    }
                }
                assert forall|e: Envelope<SysMsg<S>>| v.network.contains(e) implies #[trigger]
                out.network.contains(e) by {
                    assert(prev.network.contains(e));
                }
            },
            Command::SetTimer(_) => {
                assert forall|e: Envelope<SysMsg<S>>| #[trigger] out.network.contains(e) implies (
                v.network.contains(e) || sends_envelope::<S>(id, cmds, e)) by {
                    if !v.network.contains(e) {
                        let k = choose|k: int|
                            0 <= k < cmds.drop_last().len() && cmds.drop_last()[k]
                                == Command::Send(e.dst, e.msg) && e.src == id;
                        assert(cmds[k] == Command::Send(e.dst, e.msg));
                    }
                }
            },
            Command::CancelTimer => {
                assert forall|e: Envelope<SysMsg<S>>| #[trigger] out.network.contains(e) implies (
                v.network.contains(e) || sends_envelope::<S>(id, cmds, e)) by {
                    if !v.network.contains(e) {
                        let k = choose|k: int|
                            0 <= k < cmds.drop_last().len() && cmds.drop_last()[k]
                                == Command::Send(e.dst, e.msg) && e.src == id;
                        assert(cmds[k] == Command::Send(e.dst, e.msg));
                    }
                }
            },
        }
    }
}

/// Non-duplicating delivery: under `DuplicatingNetwork::No`, after a
/// delivery whose transition does not itself send the identical envelope
/// again, the delivered envelope is absent from the successor's network.
/// (A transition of actor `dst` can re-create the envelope only by sending
/// `msg` to itself, with `src == dst`.)
pub proof fn lemma_non_duplicating_delivery<S: System>(
    m: SystemModel<S>,
    v: SystemStateView<S>,
    src: Id,
    dst: Id,
    msg: SysMsg<S>,
    s2: SystemStateView<S>,
)
    requires
        m.duplicating_network == DuplicatingNetwork::No,
        v.network.no_duplicates(),
        next_state_view(m, v, SystemAction::Deliver { src, dst, msg }) == Some(s2),
        !sends_envelope::<S>(
            dst,
            m.actors@[actor_index(dst)].msg_spec(
                dst,
                v.actor_states[actor_index(dst)],
                src,
                msg,
            ).1,
            Envelope { src, dst, msg },
        ),
    ensures
        !s2.network.contains(Envelope { src, dst, msg }),
{
    let e = Envelope { src, dst, msg };
    let i = actor_index(dst);
    let (next, cmds) = m.actors@[i].msg_spec(dst, v.actor_states[i], src, msg);
    lemma_net_remove_set(v.network, e);
    let v1 = SystemStateView { network: net_remove(v.network, e), ..v };
    let v2 = match next {
        Option::Some(ns) => SystemStateView { actor_states: v1.actor_states.update(i, ns), ..v1 },
        Option::None => v1,
    };
    let hooked = m.system.record_in_spec(v.history, src, dst, msg);
    let v3 = match hooked {
        Option::Some(h) => SystemStateView { history: h, ..v2 },
        Option::None => v2,
    };
    lemma_apply_commands_effects(m.system, dst, cmds, v3);
}

/// Duplicating delivery: under `DuplicatingNetwork::Yes`, the delivered
/// envelope remains on the successor's network.
pub proof fn lemma_duplicating_delivery_keeps_envelope<S: System>(
    m: SystemModel<S>,
    v: SystemStateView<S>,
    src: Id,
    dst: Id,
    msg: SysMsg<S>,
    s2: SystemStateView<S>,
)
    requires
        m.duplicating_network == DuplicatingNetwork::Yes,
        v.network.contains(Envelope { src, dst, msg }),
        next_state_view(m, v, SystemAction::Deliver { src, dst, msg }) == Some(s2),
    ensures
        s2.network.contains(Envelope { src, dst, msg }),
{
    let e = Envelope { src, dst, msg };
    let i = actor_index(dst);
    let (next, cmds) = m.actors@[i].msg_spec(dst, v.actor_states[i], src, msg);
    let v2 = match next {
        Option::Some(ns) => SystemStateView { actor_states: v.actor_states.update(i, ns), ..v },
        Option::None => v,
    };
    let hooked = m.system.record_in_spec(v.history, src, dst, msg);
    let v3 = match hooked {
        Option::Some(h) => SystemStateView { history: h, ..v2 },
        Option::None => v2,
    };
    lemma_apply_commands_effects(m.system, dst, cmds, v3);
}

/// Drops enumerated by the network part of the action list: one per carried
/// envelope when the network is lossy, none otherwise.
pub proof fn lemma_network_actions_drop<Msg>(
    lossy: LossyNetwork,
    actor_count: int,
    net: Seq<Envelope<Msg>>,
    e: Envelope<Msg>,
)
    ensures
        network_actions(lossy, actor_count, net).contains(SystemAction::Drop(e)) <==> (lossy
            == LossyNetwork::Yes && net.contains(e)),
    decreases net.len(),
{
    if net.len() == 0 {
    } else {
        let prefix = net.drop_last();
        lemma_network_actions_drop(lossy, actor_count, prefix, e);
        lemma_seq_add_contains(
            network_actions(lossy, actor_count, prefix),
            envelope_actions(lossy, actor_count, net.last()),
            SystemAction::Drop(e),
        );
        lemma_unsnoc(net, e);
        let drops: Seq<SystemAction<Msg>> = if lossy == LossyNetwork::Yes {
            seq![SystemAction::Drop(net.last())]
        } else {
            Seq::empty()
        };
        let delivers: Seq<SystemAction<Msg>> = if net.last().dst.0 < actor_count {
            seq![
                SystemAction::Deliver {
                    src: net.last().src,
                    dst: net.last().dst,
                    msg: net.last().msg,
                },
            ]
        } else {
            Seq::empty()
        };
        lemma_seq_add_contains(drops, delivers, SystemAction::Drop(e));
        assert(envelope_actions(lossy, actor_count, net.last()) == drops + delivers);
        if drops.contains(SystemAction::Drop(e)) {
            assert(drops[0] == SystemAction::Drop(e));
        }
        if lossy == LossyNetwork::Yes && net.last() == e {
            assert(drops[0] == SystemAction::Drop(e));
        }
    }
}

/// Deliveries enumerated by the network part of the action list: one per
/// carried envelope whose destination addresses a real actor.
pub proof fn lemma_network_actions_deliver<Msg>(
    lossy: LossyNetwork,
    actor_count: int,
    net: Seq<Envelope<Msg>>,
    e: Envelope<Msg>,
)
    ensures
        network_actions(lossy, actor_count, net).contains(
            SystemAction::Deliver { src: e.src, dst: e.dst, msg: e.msg },
        ) <==> (e.dst.0 < actor_count && net.contains(e)),
    decreases net.len(),
{
    let d = SystemAction::Deliver { src: e.src, dst: e.dst, msg: e.msg };
    if net.len() == 0 {
    } else {
        let prefix = net.drop_last();
        lemma_network_actions_deliver(lossy, actor_count, prefix, e);
        lemma_seq_add_contains(
            network_actions(lossy, actor_count, prefix),
            envelope_actions(lossy, actor_count, net.last()),
            d,
        );
        lemma_unsnoc(net, e);
        let drops: Seq<SystemAction<Msg>> = if lossy == LossyNetwork::Yes {
            seq![SystemAction::Drop(net.last())]
        } else {
            Seq::empty()
        };
        let delivers: Seq<SystemAction<Msg>> = if net.last().dst.0 < actor_count {
            seq![
                SystemAction::Deliver {
                    src: net.last().src,
                    dst: net.last().dst,
                    msg: net.last().msg,
                },
            ]
        } else {
            Seq::empty()
        };
        lemma_seq_add_contains(drops, delivers, d);
        assert(envelope_actions(lossy, actor_count, net.last()) == drops + delivers);
        if delivers.contains(d) {
            assert(delivers[0] == d);
            assert(net.last() == (Envelope { src: e.src, dst: e.dst, msg: e.msg }));
        }
        if e.dst.0 < actor_count && net.last() == e {
            assert(delivers[0] == d);
        }
        if drops.contains(d) {
            assert(drops[0] == d);
        }
    }
}

/// The timeout part of the action list: exactly one timeout per set timer
/// flag, in id order, with no other kind of action and no duplicates.
pub proof fn lemma_timeout_actions<Msg>(timers: Seq<bool>)
    requires
        timers.len() <= 0xffff_ffff_ffff_ffff,
    ensures
        forall|a: SystemAction<Msg>| #[trigger]
            timeout_actions::<Msg>(timers).contains(a) ==> a is Timeout,
        forall|i: int|
            0 <= i < timers.len() ==> (timeout_actions::<Msg>(timers).contains(
                SystemAction::Timeout(Id(i as u64)),
            ) <==> timers[i]),
        forall|id: Id|
            #[trigger] timeout_actions::<Msg>(timers).contains(SystemAction::Timeout(id)) ==> (
            id.0 < timers.len() && timers[id.0 as int]),
        timeout_actions::<Msg>(timers).no_duplicates(),
    decreases timers.len(),
{
    if timers.len() > 0 {
        let prefix = timers.drop_last();
        lemma_timeout_actions::<Msg>(prefix);
        let tail: Seq<SystemAction<Msg>> = if timers.last() {
            seq![SystemAction::Timeout(Id((timers.len() - 1) as u64))]
        } else {
            Seq::empty()
        };
        let whole = timeout_actions::<Msg>(prefix) + tail;
        assert(timeout_actions::<Msg>(timers) == whole);
        assert forall|a: SystemAction<Msg>| #[trigger] whole.contains(a) implies a is Timeout by {
            lemma_seq_add_contains(timeout_actions::<Msg>(prefix), tail, a);
            if tail.contains(a) {
                assert(tail[0] == a);
            }
        }
        assert forall|i: int| 0 <= i < timers.len() implies (whole.contains(
            SystemAction::Timeout(Id(i as u64)),
        ) <==> timers[i]) by {
            let a = SystemAction::Timeout::<Msg>(Id(i as u64));
            lemma_seq_add_contains(timeout_actions::<Msg>(prefix), tail, a);
            if i < timers.len() - 1 {
                assert(prefix[i] == timers[i]);
                if tail.contains(a) {
                    assert(tail[0] == a);
                    assert(i as u64 == (timers.len() - 1) as u64);
                    assert(false);
                }
            } else {
                assert(i == timers.len() - 1);
                if timers[i] {
                    assert(tail[0] == a);
                }
                if timeout_actions::<Msg>(prefix).contains(a) {
                    assert((i as u64) < prefix.len());
                    assert(false);
                }
            }
        }
        assert forall|id: Id| #[trigger] whole.contains(SystemAction::Timeout::<Msg>(id)) implies (
        id.0 < timers.len() && timers[id.0 as int]) by {
            let a = SystemAction::Timeout::<Msg>(id);
            lemma_seq_add_contains(timeout_actions::<Msg>(prefix), tail, a);
            if tail.contains(a) {
                assert(tail[0] == a);
            }
        }
        assert forall|i: int, j: int| 0 <= i < j < whole.len() implies whole[i] != whole[j] by {
            if j < whole.len() - 1 || tail.len() == 0 {
                assert(whole[i] == timeout_actions::<Msg>(prefix)[i]);
                assert(whole[j] == timeout_actions::<Msg>(prefix)[j]);
            } else {
                assert(whole[j] == tail[0]);
                assert(whole[i] == timeout_actions::<Msg>(prefix)[i]);
                assert(timeout_actions::<Msg>(prefix).contains(
                    timeout_actions::<Msg>(prefix)[i],
                ));
            }
        }
    }
}

/// Loss only when lossy: the enumerated actions of a snapshot include a
/// `Drop` of an envelope exactly when the network policy is lossy and the
/// envelope is carried; and they include no duplicate timeout.
pub proof fn lemma_loss_only_when_lossy<S: System>(
    m: SystemModel<S>,
    v: SystemStateView<S>,
    e: Envelope<SysMsg<S>>,
)
    requires
        v.is_timer_set.len() <= 0xffff_ffff_ffff_ffff,
    ensures
        actions_view(m, v).contains(SystemAction::Drop(e)) <==> (m.lossy_network
            == LossyNetwork::Yes && v.network.contains(e)),
{
    let net_part = network_actions(m.lossy_network, m.actors@.len() as int, v.network);
    let t_part = timeout_actions::<SysMsg<S>>(v.is_timer_set);
    lemma_seq_add_contains(net_part, t_part, SystemAction::Drop(e));
    lemma_network_actions_drop(m.lossy_network, m.actors@.len() as int, v.network, e);
    lemma_timeout_actions::<SysMsg<S>>(v.is_timer_set);
}

/// No delivery to unknown actors: every enumerated delivery addresses a real
/// actor, and a delivery action whose destination is out of range yields no
/// successor.
pub proof fn lemma_no_unknown_delivery<S: System>(
    m: SystemModel<S>,
    v: SystemStateView<S>,
    src: Id,
    dst: Id,
    msg: SysMsg<S>,
)
    requires
        v.is_timer_set.len() <= 0xffff_ffff_ffff_ffff,
    ensures
        actions_view(m, v).contains(SystemAction::Deliver { src, dst, msg }) <==> (dst.0
            < m.actors@.len() && v.network.contains(Envelope { src, dst, msg })),
        dst.0 >= v.actor_states.len() ==> next_state_view(
            m,
            v,
            SystemAction::Deliver { src, dst, msg },
        ) is None,
{
    let e = Envelope { src, dst, msg };
    let net_part = network_actions(m.lossy_network, m.actors@.len() as int, v.network);
    let t_part = timeout_actions::<SysMsg<S>>(v.is_timer_set);
    lemma_seq_add_contains(net_part, t_part, SystemAction::Deliver { src, dst, msg });
    lemma_network_actions_deliver(m.lossy_network, m.actors@.len() as int, v.network, e);
    lemma_timeout_actions::<SysMsg<S>>(v.is_timer_set);
}

/// Timer idempotence, first half: when a transition's commands set the timer
/// at some point and never cancel it afterwards — in particular when they
/// set it twice — the actor's flag ends up set. (The second half, that no
/// duplicate timeout action is ever enumerated, is part of
/// [`lemma_timeout_actions`].)
pub proof fn lemma_set_timer_wins<S: System>(
    sys: S,
    id: Id,
    cmds: Seq<Command<SysMsg<S>>>,
    v: SystemStateView<S>,
    k: int,
)
    requires
        0 <= k < cmds.len(),
        cmds[k] is SetTimer,
        forall|j: int| k < j < cmds.len() ==> !(#[trigger] cmds[j] is CancelTimer),
    ensures
        ({
            let t = apply_commands_view(sys, id, cmds, v).is_timer_set;
            0 <= actor_index(id) < t.len() && t[actor_index(id)] == true
        }),
    decreases cmds.len(),
{
    let i = actor_index(id);
    let prev = apply_commands_view(sys, id, cmds.drop_last(), v);
    if k == cmds.len() - 1 {
        assert(apply_commands_view(sys, id, cmds, v).is_timer_set == timer_set(
            prev.is_timer_set,
            i,
        ));
    } else {
        lemma_set_timer_wins(sys, id, cmds.drop_last(), v, k);
        match cmds.last() {
            Command::Send(_, _) => {},
            Command::SetTimer(_) => {
                assert(apply_commands_view(sys, id, cmds, v).is_timer_set == timer_set(
                    prev.is_timer_set,
                    i,
                ));
            },
            Command::CancelTimer => {
                assert(cmds[cmds.len() - 1] is CancelTimer);
                assert(false);
            },
        }
    }
}

/// The initial snapshot's network is free of duplicate envelopes.
pub proof fn lemma_init_network_no_dup<S: System>(m: SystemModel<S>)
    ensures
        crate::system::init_view(m).network.no_duplicates(),
{
    lemma_init_network_no_dup_rec(m, m.actors@.len() as int);
}

proof fn lemma_init_network_no_dup_rec<S: System>(m: SystemModel<S>, n: int)
    ensures
        crate::system::init_view_rec(m, n).network.no_duplicates(),
    decreases n,
{
    if n <= 0 {
        lemma_net_dedup(m.init_network@);
    } else {
        lemma_init_network_no_dup_rec(m, n - 1);
        let prev = crate::system::init_view_rec(m, n - 1);
        let id = Id(#[verifier::truncate] ((n - 1) as u64));
        let (st, cmds) = m.actors@[n - 1].start_spec(id);
        let v1 = SystemStateView { actor_states: prev.actor_states.push(st), ..prev };
        lemma_apply_commands_effects(m.system, id, cmds, v1);
    }
}

/// Every successor of a snapshot whose network is free of duplicates has a
/// duplicate-free network too — so, with [`lemma_init_network_no_dup`],
/// every reachable snapshot carries each envelope at most once.
pub proof fn lemma_step_network_no_dup<S: System>(
    m: SystemModel<S>,
    v: SystemStateView<S>,
    a: SystemAction<SysMsg<S>>,
    s2: SystemStateView<S>,
)
    requires
        v.network.no_duplicates(),
        next_state_view(m, v, a) == Some(s2),
    ensures
        s2.network.no_duplicates(),
{
    match a {
        SystemAction::Drop(env) => {
            lemma_net_remove_set(v.network, env);
        },
        SystemAction::Deliver { src, dst, msg } => {
            let i = actor_index(dst);
            let (next, cmds) = m.actors@[i].msg_spec(dst, v.actor_states[i], src, msg);
            lemma_net_remove_set(v.network, Envelope { src, dst, msg });
            let v1 = if m.duplicating_network == DuplicatingNetwork::No {
                SystemStateView { network: net_remove(v.network, Envelope { src, dst, msg }), ..v }
            } else {
                v
            };
            let v2 = match next {
                Option::Some(ns) => SystemStateView {
                    actor_states: v1.actor_states.update(i, ns),
                    ..v1
                },
                Option::None => v1,
            };
            let hooked = m.system.record_in_spec(v.history, src, dst, msg);
            let v3 = match hooked {
                Option::Some(h) => SystemStateView { history: h, ..v2 },
                Option::None => v2,
            };
            lemma_apply_commands_effects(m.system, dst, cmds, v3);
        },
        SystemAction::Timeout(id) => {
            let i = actor_index(id);
            let (next, cmds) = m.actors@[i].timeout_spec(id, v.actor_states[i]);
            let v1 = SystemStateView { is_timer_set: v.is_timer_set.update(i, false), ..v };
            let v2 = match next {
                Option::Some(ns) => SystemStateView {
                    actor_states: v1.actor_states.update(i, ns),
                    ..v1
                },
                Option::None => v1,
            };
            lemma_apply_commands_effects(m.system, id, cmds, v2);
        },
    }
}

/// Command processing keeps the timer flags within `bound` slots, provided
/// the acting actor's slot lies within `bound`.
pub proof fn lemma_apply_commands_timers<S: System>(
    sys: S,
    id: Id,
    cmds: Seq<Command<SysMsg<S>>>,
    v: SystemStateView<S>,
    bound: int,
)
    requires
        v.is_timer_set.len() <= bound,
        actor_index(id) < bound,
    ensures
        apply_commands_view(sys, id, cmds, v).is_timer_set.len() <= bound,
    decreases cmds.len(),
{
    if cmds.len() > 0 {
        lemma_apply_commands_timers(sys, id, cmds.drop_last(), v, bound);
    }
}

/// Shape of the initial snapshot: one private state per actor, and no timer
/// slot beyond the actor count.
pub proof fn lemma_init_snapshot_shape<S: System>(m: SystemModel<S>)
    ensures
        crate::system::init_view(m).actor_states.len() == m.actors@.len(),
        crate::system::init_view(m).is_timer_set.len() <= m.actors@.len(),
{
    lemma_init_snapshot_shape_rec(m, m.actors@.len() as int);
}

proof fn lemma_init_snapshot_shape_rec<S: System>(m: SystemModel<S>, n: int)
    requires
        0 <= n <= m.actors@.len(),
    ensures
        crate::system::init_view_rec(m, n).actor_states.len() == n,
        crate::system::init_view_rec(m, n).is_timer_set.len() <= n,
    decreases n,
{
    broadcast use vstd::std_specs::vec::axiom_spec_len;

    if n > 0 {
        lemma_init_snapshot_shape_rec(m, n - 1);
        let prev = crate::system::init_view_rec(m, n - 1);
        let id = Id(#[verifier::truncate] ((n - 1) as u64));
        let (st, cmds) = m.actors@[n - 1].start_spec(id);
        let v1 = SystemStateView { actor_states: prev.actor_states.push(st), ..prev };
        assert(vstd::std_specs::vec::spec_vec_len(&m.actors) == m.actors@.len());
        assert(m.actors@.len() <= usize::MAX);
        assert(actor_index(id) == n - 1);
        lemma_apply_commands_effects(m.system, id, cmds, v1);
        lemma_apply_commands_timers(m.system, id, cmds, v1, n);
    }
}

/// Shape preservation: a successor keeps one private state per actor, never
/// resizing the actor vector, and keeps the timer flags within the actor
/// count.
pub proof fn lemma_step_snapshot_shape<S: System>(
    m: SystemModel<S>,
    v: SystemStateView<S>,
    a: SystemAction<SysMsg<S>>,
    s2: SystemStateView<S>,
)
    requires
        next_state_view(m, v, a) == Some(s2),
        v.is_timer_set.len() <= v.actor_states.len(),
    ensures
        s2.actor_states.len() == v.actor_states.len(),
        s2.is_timer_set.len() <= v.actor_states.len(),
{
    let bound = v.actor_states.len() as int;
    match a {
        SystemAction::Drop(_) => {},
        SystemAction::Deliver { src, dst, msg } => {
            let i = actor_index(dst);
            let (next, cmds) = m.actors@[i].msg_spec(dst, v.actor_states[i], src, msg);
            let v1 = if m.duplicating_network == DuplicatingNetwork::No {
                SystemStateView { network: net_remove(v.network, Envelope { src, dst, msg }), ..v }
            } else {
                v
            };
            let v2 = match next {
                Option::Some(ns) => SystemStateView {
                    actor_states: v1.actor_states.update(i, ns),
                    ..v1
                },
                Option::None => v1,
            };
            let hooked = m.system.record_in_spec(v.history, src, dst, msg);
            let v3 = match hooked {
                Option::Some(h) => SystemStateView { history: h, ..v2 },
                Option::None => v2,
            };
            lemma_apply_commands_effects(m.system, dst, cmds, v3);
            lemma_apply_commands_timers(m.system, dst, cmds, v3, bound);
        },
        SystemAction::Timeout(id) => {
            let i = actor_index(id);
            let (next, cmds) = m.actors@[i].timeout_spec(id, v.actor_states[i]);
            let v1 = SystemStateView { is_timer_set: v.is_timer_set.update(i, false), ..v };
            let v2 = match next {
                Option::Some(ns) => SystemStateView {
                    actor_states: v1.actor_states.update(i, ns),
                    ..v1
                },
                Option::None => v1,
            };
            lemma_apply_commands_effects(m.system, id, cmds, v2);
            lemma_apply_commands_timers(m.system, id, cmds, v2, bound);
        },
    }
}

/// Well-addressed sources, initial snapshot: when every seeded envelope
/// names a real actor as its source, so does every envelope of the initial
/// snapshot's network — actors can only send under their own id.
pub proof fn lemma_init_envelope_sources<S: System>(m: SystemModel<S>)
    requires
        forall|e: Envelope<SysMsg<S>>|
            m.init_network@.contains(e) ==> #[trigger] e.src.0 < m.actors@.len(),
    ensures
        forall|e: Envelope<SysMsg<S>>|
            crate::system::init_view(m).network.contains(e) ==> #[trigger] e.src.0
                < m.actors@.len(),
{
    lemma_init_envelope_sources_rec(m, m.actors@.len() as int);
}

proof fn lemma_init_envelope_sources_rec<S: System>(m: SystemModel<S>, n: int)
    requires
        0 <= n <= m.actors@.len(),
        forall|e: Envelope<SysMsg<S>>|
            m.init_network@.contains(e) ==> #[trigger] e.src.0 < m.actors@.len(),
    ensures
        forall|e: Envelope<SysMsg<S>>|
            crate::system::init_view_rec(m, n).network.contains(e) ==> #[trigger] e.src.0
                < m.actors@.len(),
    decreases n,
{
    broadcast use vstd::std_specs::vec::axiom_spec_len;

    if n <= 0 {
        lemma_net_dedup(m.init_network@);
        assert forall|e: Envelope<SysMsg<S>>|
            crate::system::init_view_rec(m, n).network.contains(e) implies #[trigger] e.src.0
            < m.actors@.len() by {
            assert(net_dedup(m.init_network@).to_set().contains(e));
            assert(m.init_network@.to_set().contains(e));
        }
    } else {
        lemma_init_envelope_sources_rec(m, n - 1);
        let prev = crate::system::init_view_rec(m, n - 1);
        let id = Id(#[verifier::truncate] ((n - 1) as u64));
        let (st, cmds) = m.actors@[n - 1].start_spec(id);
        let v1 = SystemStateView { actor_states: prev.actor_states.push(st), ..prev };
        lemma_apply_commands_effects(m.system, id, cmds, v1);
        assert(vstd::std_specs::vec::spec_vec_len(&m.actors) == m.actors@.len());
        assert(id.0 == n - 1);
        assert forall|e: Envelope<SysMsg<S>>|
            crate::system::init_view_rec(m, n).network.contains(e) implies #[trigger] e.src.0
            < m.actors@.len() by {
            if !v1.network.contains(e) {
                assert(sends_envelope::<S>(id, cmds, e));
            }
        }
    }
}

/// Well-addressed sources, step: a successor's network only ever gains
/// envelopes sent by the acting actor, whose id names a real actor.
pub proof fn lemma_step_envelope_sources<S: System>(
    m: SystemModel<S>,
    v: SystemStateView<S>,
    a: SystemAction<SysMsg<S>>,
    s2: SystemStateView<S>,
)
    requires
        next_state_view(m, v, a) == Some(s2),
        v.network.no_duplicates(),
        forall|e: Envelope<SysMsg<S>>|
            v.network.contains(e) ==> #[trigger] e.src.0 < m.actors@.len(),
    ensures
        forall|e: Envelope<SysMsg<S>>|
            s2.network.contains(e) ==> #[trigger] e.src.0 < m.actors@.len(),
{
    match a {
        SystemAction::Drop(env) => {
            lemma_net_remove_set(v.network, env);
        },
        SystemAction::Deliver { src, dst, msg } => {
            let i = actor_index(dst);
            let (next, cmds) = m.actors@[i].msg_spec(dst, v.actor_states[i], src, msg);
            lemma_net_remove_set(v.network, Envelope { src, dst, msg });
            let v1 = if m.duplicating_network == DuplicatingNetwork::No {
                SystemStateView { network: net_remove(v.network, Envelope { src, dst, msg }), ..v }
            } else {
                v
            };
            let v2 = match next {
                Option::Some(ns) => SystemStateView {
                    actor_states: v1.actor_states.update(i, ns),
                    ..v1
                },
                Option::None => v1,
            };
            let hooked = m.system.record_in_spec(v.history, src, dst, msg);
            let v3 = match hooked {
                Option::Some(h) => SystemStateView { history: h, ..v2 },
                Option::None => v2,
            };
            lemma_apply_commands_effects(m.system, dst, cmds, v3);
            assert forall|e: Envelope<SysMsg<S>>| s2.network.contains(e) implies #[trigger]
            e.src.0 < m.actors@.len() by {
                if !v3.network.contains(e) {
                    assert(sends_envelope::<S>(dst, cmds, e));
                }
            }
        },
        SystemAction::Timeout(id) => {
            let i = actor_index(id);
            let (next, cmds) = m.actors@[i].timeout_spec(id, v.actor_states[i]);
            let v1 = SystemStateView { is_timer_set: v.is_timer_set.update(i, false), ..v };
            let v2 = match next {
                Option::Some(ns) => SystemStateView {
                    actor_states: v1.actor_states.update(i, ns),
                    ..v1
                },
                Option::None => v1,
            };
            lemma_apply_commands_effects(m.system, id, cmds, v2);
            assert forall|e: Envelope<SysMsg<S>>| s2.network.contains(e) implies #[trigger]
            e.src.0 < m.actors@.len() by {
                if !v2.network.contains(e) {
                    assert(sends_envelope::<S>(id, cmds, e));
                }
            }
        },
    }
}

/// History-hook consistency, initial snapshot: when the system's outbound
/// record hook never contributes, the initial snapshot's history is the
/// initial history value.
pub proof fn lemma_quiet_hooks_init<S: System>(m: SystemModel<S>)
    requires
        forall|h: crate::system::SysHistory<S>, src: Id, dst: Id, msg: SysMsg<S>|
            m.system.record_out_spec(h, src, dst, msg) is None,
    ensures
        crate::system::init_view(m).history == <S::History as crate::actor::HistoryData>::init_spec(),
{
    lemma_quiet_hooks_init_rec(m, m.actors@.len() as int);
}

proof fn lemma_quiet_hooks_init_rec<S: System>(m: SystemModel<S>, n: int)
    requires
        forall|h: crate::system::SysHistory<S>, src: Id, dst: Id, msg: SysMsg<S>|
            m.system.record_out_spec(h, src, dst, msg) is None,
    ensures
        crate::system::init_view_rec(m, n).history == <S::History as crate::actor::HistoryData>::init_spec(),
    decreases n,
{
    if n > 0 {
        lemma_quiet_hooks_init_rec(m, n - 1);
        let prev = crate::system::init_view_rec(m, n - 1);
        let id = Id(#[verifier::truncate] ((n - 1) as u64));
        let (st, cmds) = m.actors@[n - 1].start_spec(id);
        let v1 = SystemStateView { actor_states: prev.actor_states.push(st), ..prev };
        lemma_quiet_hooks_commands(m.system, id, cmds, v1);
    }
}

/// Command processing leaves the history alone when the outbound record hook
/// never contributes.
pub proof fn lemma_quiet_hooks_commands<S: System>(
    sys: S,
    id: Id,
    cmds: Seq<Command<SysMsg<S>>>,
    v: SystemStateView<S>,
)
    requires
        forall|h: crate::system::SysHistory<S>, src: Id, dst: Id, msg: SysMsg<S>|
            sys.record_out_spec(h, src, dst, msg) is None,
    ensures
        apply_commands_view(sys, id, cmds, v).history == v.history,
    decreases cmds.len(),
{
    if cmds.len() > 0 {
        lemma_quiet_hooks_commands(sys, id, cmds.drop_last(), v);
    }
}

/// History-hook consistency, step: when both record hooks never contribute,
/// every successor keeps its predecessor's history — so by induction from
/// [`lemma_quiet_hooks_init`], the history in every reachable snapshot is the
/// initial history value.
pub proof fn lemma_quiet_hooks_step<S: System>(
    m: SystemModel<S>,
    v: SystemStateView<S>,
    a: SystemAction<SysMsg<S>>,
    s2: SystemStateView<S>,
)
    requires
        forall|h: crate::system::SysHistory<S>, src: Id, dst: Id, msg: SysMsg<S>|
            m.system.record_out_spec(h, src, dst, msg) is None,
        forall|h: crate::system::SysHistory<S>, src: Id, dst: Id, msg: SysMsg<S>|
            m.system.record_in_spec(h, src, dst, msg) is None,
        next_state_view(m, v, a) == Some(s2),
    ensures
        s2.history == v.history,
{
    match a {
        SystemAction::Drop(_) => {},
        SystemAction::Deliver { src, dst, msg } => {
            let i = actor_index(dst);
            let (next, cmds) = m.actors@[i].msg_spec(dst, v.actor_states[i], src, msg);
            let v1 = if m.duplicating_network == DuplicatingNetwork::No {
                SystemStateView { network: net_remove(v.network, Envelope { src, dst, msg }), ..v }
            } else {
                v
            };
            let v2 = match next {
                Option::Some(ns) => SystemStateView {
                    actor_states: v1.actor_states.update(i, ns),
                    ..v1
                },
                Option::None => v1,
            };
            lemma_quiet_hooks_commands(m.system, dst, cmds, v2);
        },
        SystemAction::Timeout(id) => {
            let i = actor_index(id);
            let (next, cmds) = m.actors@[i].timeout_spec(id, v.actor_states[i]);
            let v1 = SystemStateView { is_timer_set: v.is_timer_set.update(i, false), ..v };
            let v2 = match next {
                Option::Some(ns) => SystemStateView {
                    actor_states: v1.actor_states.update(i, ns),
                    ..v1
                },
                Option::None => v1,
            };
            lemma_quiet_hooks_commands(m.system, id, cmds, v2);
        },
    }
}

} // verus!
