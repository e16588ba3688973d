use std::collections::HashMap;
use std::hash::Hash;
use std::marker::PhantomData;

use actor_model::actor::{Id, Out};
use actor_model::network::{Envelope, Network};
use actor_model::ping_pong::{PingPongCount, PingPongMsg, PingPongSystem};
use actor_model::register::{RegisterMsg, RegisterTestSystem, SingleCopyServer};
use actor_model::samples::{TimerSystem, UndeliverableSystem};
use actor_model::system::{
    DuplicatingNetwork, LossyNetwork, SysMsg, System, SystemAction, SystemModel, SystemState,
};

/// The reachable state space of a model: snapshots in generation order, the
/// within-boundary transition edges, and whether each snapshot has any
/// within-boundary successor.
struct Exploration<S: System> {
    states: Vec<SystemState<S>>,
    init_count: usize,
    edges: Vec<(usize, SystemAction<SysMsg<S>>, usize)>,
    has_successor: Vec<bool>,
}

/// Breadth-first exhaustive exploration with deduplication by snapshot
/// equality. `key_of` buckets snapshots; it must map equal snapshots to
/// equal keys.
fn explore<S, K, F>(model: &SystemModel<S>, key_of: F) -> Exploration<S>
where
    S: System,
    SysMsg<S>: Clone,
    K: Hash + Eq,
    F: Fn(&SystemState<S>) -> K,
{
    let mut states: Vec<SystemState<S>> = Vec::new();
    let mut buckets: HashMap<K, Vec<usize>> = HashMap::new();
    let mut edges: Vec<(usize, SystemAction<SysMsg<S>>, usize)> = Vec::new();
    let mut has_successor: Vec<bool> = Vec::new();

    for init in model.init_states() {
        let bucket = buckets.entry(key_of(&init)).or_default();
        if !bucket.iter().any(|&j| states[j] == init) {
            bucket.push(states.len());
            states.push(init);
        }
    }
    let init_count = states.len();

    let mut i = 0;
    while i < states.len() {
        let current = states[i].duplicate();
        let mut actions: Vec<SystemAction<SysMsg<S>>> = Vec::new();
        model.actions(&current, &mut actions);
        let mut any = false;
        for action in actions {
            let recorded = action.clone();
            if let Some(next) = model.next_state(&current, action) {
                if !model.within_boundary(&next) {
                    continue;
                }
                any = true;
                let bucket = buckets.entry(key_of(&next)).or_default();
                let target = match bucket.iter().copied().find(|&j| states[j] == next) {
                    Some(j) => j,
                    None => {
                        let j = states.len();
                        bucket.push(j);
                        states.push(next);
                        j
                    }
                };
                edges.push((i, recorded, target));
            }
        }
        has_successor.push(any);
        i += 1;
    }
    Exploration { states, init_count, edges, has_successor }
}

/// Shortest action path from an initial snapshot to one satisfying `target`,
/// through snapshots satisfying `allowed` only.
fn bfs_path<S: System>(
    ex: &Exploration<S>,
    allowed: impl Fn(usize) -> bool,
    target: impl Fn(usize) -> bool,
) -> Option<(Vec<SystemAction<SysMsg<S>>>, usize)>
where
    SysMsg<S>: Clone,
{
    let mut adjacency: Vec<Vec<usize>> = vec![Vec::new(); ex.states.len()];
    for (e, &(from, _, _)) in ex.edges.iter().enumerate() {
        adjacency[from].push(e);
    }
    let mut prev: Vec<Option<usize>> = vec![None; ex.states.len()]; // incoming edge index
    let mut seen: Vec<bool> = vec![false; ex.states.len()];
    let mut queue: Vec<usize> = Vec::new();
    for i in 0..ex.init_count {
        if allowed(i) {
            seen[i] = true;
            queue.push(i);
        }
    }
    let mut q = 0;
    while q < queue.len() {
        let i = queue[q];
        q += 1;
        if target(i) {
            let mut actions: Vec<SystemAction<SysMsg<S>>> = Vec::new();
            let mut at = i;
            while let Some(e) = prev[at] {
                actions.push(ex.edges[e].1.clone());
                at = ex.edges[e].0;
            }
            actions.reverse();
            return Some((actions, i));
        }
        for &e in &adjacency[i] {
            let to = ex.edges[e].2;
            if !seen[to] && allowed(to) {
                seen[to] = true;
                prev[to] = Some(e);
                queue.push(to);
            }
        }
    }
    None
}

/// The index of a property by name.
fn property_index<S: System>(model: &SystemModel<S>, name: &str) -> usize {
    model
        .properties()
        .iter()
        .position(|p| p.name == name)
        .expect("property name")
}

/// A counterexample for an `always` property: a path to a violating snapshot.
fn counterexample_always<S: System>(
    model: &SystemModel<S>,
    ex: &Exploration<S>,
    name: &str,
) -> Option<(Vec<SystemAction<SysMsg<S>>>, usize)>
where
    SysMsg<S>: Clone,
{
    let p = property_index(model, name);
    bfs_path(ex, |_| true, |i| !model.property_holds(p, &ex.states[i]))
}

/// A discovery for a `sometimes` property: a path to a satisfying snapshot.
fn discovery_sometimes<S: System>(
    model: &SystemModel<S>,
    ex: &Exploration<S>,
    name: &str,
) -> Option<(Vec<SystemAction<SysMsg<S>>>, usize)>
where
    SysMsg<S>: Clone,
{
    let p = property_index(model, name);
    bfs_path(ex, |_| true, |i| model.property_holds(p, &ex.states[i]))
}

/// A counterexample for an `eventually` property: a path along which the
/// predicate never holds, ending in a snapshot with no successor.
fn counterexample_eventually<S: System>(
    model: &SystemModel<S>,
    ex: &Exploration<S>,
    name: &str,
) -> Option<(Vec<SystemAction<SysMsg<S>>>, usize)>
where
    SysMsg<S>: Clone,
{
    let p = property_index(model, name);
    bfs_path(
        ex,
        |i| !model.property_holds(p, &ex.states[i]),
        |i| !model.property_holds(p, &ex.states[i]) && !ex.has_successor[i],
    )
}

/// A canonical bucket key for ping-pong snapshots: equal snapshots (set
/// equality on the network) map to equal keys.
fn pp_key(
    s: &SystemState<PingPongSystem>,
) -> (Vec<u32>, Vec<Envelope<PingPongMsg>>, Vec<bool>, (u32, u32)) {
    let counts: Vec<u32> = s.actor_states.iter().map(|c| c.0).collect();
    let envs = s.network.sorted_envelopes();
    (counts, envs, s.is_timer_set.clone(), s.history)
}

fn pp_model(
    max_nat: u32,
    lossy: LossyNetwork,
    duplicating: DuplicatingNetwork,
) -> SystemModel<PingPongSystem> {
    PingPongSystem { max_nat, lossy, duplicating, maintains_history: false }.into_model()
}

fn states_and_network(
    states: Vec<PingPongCount>,
    envelopes: Vec<Envelope<PingPongMsg>>,
) -> SystemState<PingPongSystem> {
    SystemState {
        actor_states: states,
        network: Network::from_vec(envelopes),
        is_timer_set: Vec::new(),
        history: (0_u32, 0_u32), // constant as `maintains_history: false`
    }
}

#[test]
fn visits_expected_states() {
    let model = pp_model(1, LossyNetwork::Yes, DuplicatingNetwork::Yes);
    let ex = explore(&model, pp_key);
    assert_eq!(ex.states.len(), 14);

    let expected = vec![
        // When the network loses no messages...
        states_and_network(
            vec![PingPongCount(0), PingPongCount(0)],
            vec![Envelope { src: Id(0), dst: Id(1), msg: PingPongMsg::Ping(0) }],
        ),
        states_and_network(
            vec![PingPongCount(0), PingPongCount(1)],
            vec![
                Envelope { src: Id(0), dst: Id(1), msg: PingPongMsg::Ping(0) },
                Envelope { src: Id(1), dst: Id(0), msg: PingPongMsg::Pong(0) },
            ],
        ),
        states_and_network(
            vec![PingPongCount(1), PingPongCount(1)],
            vec![
                Envelope { src: Id(0), dst: Id(1), msg: PingPongMsg::Ping(0) },
                Envelope { src: Id(1), dst: Id(0), msg: PingPongMsg::Pong(0) },
                Envelope { src: Id(0), dst: Id(1), msg: PingPongMsg::Ping(1) },
            ],
        ),
        // When the network loses the message for pinger-ponger state (0, 0)...
        states_and_network(vec![PingPongCount(0), PingPongCount(0)], Vec::new()),
        // When the network loses a message for pinger-ponger state (0, 1)
        states_and_network(
            vec![PingPongCount(0), PingPongCount(1)],
            vec![Envelope { src: Id(1), dst: Id(0), msg: PingPongMsg::Pong(0) }],
        ),
        states_and_network(
            vec![PingPongCount(0), PingPongCount(1)],
            vec![Envelope { src: Id(0), dst: Id(1), msg: PingPongMsg::Ping(0) }],
        ),
        states_and_network(vec![PingPongCount(0), PingPongCount(1)], Vec::new()),
        // When the network loses a message for pinger-ponger state (1, 1)
        states_and_network(
            vec![PingPongCount(1), PingPongCount(1)],
            vec![
                Envelope { src: Id(1), dst: Id(0), msg: PingPongMsg::Pong(0) },
                Envelope { src: Id(0), dst: Id(1), msg: PingPongMsg::Ping(1) },
            ],
        ),
        states_and_network(
            vec![PingPongCount(1), PingPongCount(1)],
            vec![
                Envelope { src: Id(0), dst: Id(1), msg: PingPongMsg::Ping(0) },
                Envelope { src: Id(0), dst: Id(1), msg: PingPongMsg::Ping(1) },
            ],
        ),
        states_and_network(
            vec![PingPongCount(1), PingPongCount(1)],
            vec![
                Envelope { src: Id(0), dst: Id(1), msg: PingPongMsg::Ping(0) },
                Envelope { src: Id(1), dst: Id(0), msg: PingPongMsg::Pong(0) },
            ],
        ),
        states_and_network(
            vec![PingPongCount(1), PingPongCount(1)],
            vec![Envelope { src: Id(0), dst: Id(1), msg: PingPongMsg::Ping(1) }],
        ),
        states_and_network(
            vec![PingPongCount(1), PingPongCount(1)],
            vec![Envelope { src: Id(1), dst: Id(0), msg: PingPongMsg::Pong(0) }],
        ),
        states_and_network(
            vec![PingPongCount(1), PingPongCount(1)],
            vec![Envelope { src: Id(0), dst: Id(1), msg: PingPongMsg::Ping(0) }],
        ),
        states_and_network(vec![PingPongCount(1), PingPongCount(1)], Vec::new()),
    ];
    assert_eq!(expected.len(), 14); // same as the generated count
    for want in &expected {
        assert!(ex.states.iter().any(|s| s == want));
    }
}

#[test]
fn maintains_fixed_delta_despite_lossy_duplicating_network() {
    let model = pp_model(5, LossyNetwork::Yes, DuplicatingNetwork::Yes);
    let ex = explore(&model, pp_key);
    assert_eq!(ex.states.len(), 4_094);
    assert!(counterexample_always(&model, &ex, "delta within 1").is_none());
}

#[test]
fn may_never_reach_max_on_lossy_network() {
    let model = pp_model(5, LossyNetwork::Yes, DuplicatingNetwork::Yes);
    let ex = explore(&model, pp_key);
    assert_eq!(ex.states.len(), 4_094);

    // can lose the first message and get stuck, for example
    let (actions, _) = counterexample_eventually(&model, &ex, "must reach max").unwrap();
    assert_eq!(
        actions,
        vec![SystemAction::Drop(Envelope { src: Id(0), dst: Id(1), msg: PingPongMsg::Ping(0) })]
    );
}

#[test]
fn eventually_reaches_max_on_perfect_delivery_network() {
    let model = pp_model(5, LossyNetwork::No, DuplicatingNetwork::No);
    let ex = explore(&model, pp_key);
    assert_eq!(ex.states.len(), 11);
    assert!(counterexample_eventually(&model, &ex, "must reach max").is_none());
}

#[test]
fn can_reach_max() {
    let model = pp_model(5, LossyNetwork::No, DuplicatingNetwork::Yes);
    let ex = explore(&model, pp_key);
    assert_eq!(ex.states.len(), 11);
    let (_, last) = discovery_sometimes(&model, &ex, "can reach max").unwrap();
    assert_eq!(ex.states[last].actor_states, vec![PingPongCount(4), PingPongCount(5)]);
}

#[test]
fn might_never_reach_beyond_max() {
    // ^ and in fact will never. This is a subtle distinction: we're exercising a
    //   falsifiable liveness property here (eventually must exceed max), whereas
    //   "will never" refers to a verifiable safety property (always will not exceed).
    let model = pp_model(5, LossyNetwork::No, DuplicatingNetwork::No);
    let ex = explore(&model, pp_key);
    assert_eq!(ex.states.len(), 11);

    // this is an example of a liveness property that fails to hold (due to the boundary)
    let (_, last) = counterexample_eventually(&model, &ex, "must exceed max").unwrap();
    assert_eq!(ex.states[last].actor_states, vec![PingPongCount(5), PingPongCount(5)]);
}

#[test]
fn handles_undeliverable_messages() {
    let model = UndeliverableSystem.into_model();
    let ex = explore(&model, |_s| 0u8);
    assert_eq!(ex.states.len(), 1);
    assert!(counterexample_always(&model, &ex, "unused").is_none());
}

#[test]
fn resets_timer() {
    // Init state with timer, followed by next state without timer.
    let model = TimerSystem.into_model();
    let ex = explore(&model, |_s| 0u8);
    assert_eq!(2, ex.states.len());
    assert_eq!(ex.states[0].is_timer_set, vec![true]);
    assert_eq!(ex.states[1].is_timer_set, vec![false]);
}

#[test]
fn single_copy_register_is_linearizable() {
    let model = RegisterTestSystem::<SingleCopyServer, ()> {
        servers: vec![SingleCopyServer],
        client_count: 2,
        lossy_network: LossyNetwork::No,
        duplicating_network: DuplicatingNetwork::No,
        marker: PhantomData,
    }
    .into_model();
    let ex = explore(&model, |_s| 0u8);
    assert!(counterexample_always(&model, &ex, "linearizable").is_none());
    assert!(discovery_sometimes(&model, &ex, "value chosen").is_some());
}

#[test]
fn next_state_is_deterministic() {
    let model = pp_model(3, LossyNetwork::Yes, DuplicatingNetwork::Yes);
    let init = model.init_states().remove(0);
    let a = SystemAction::Deliver { src: Id(0), dst: Id(1), msg: PingPongMsg::Ping(0) };
    let r1 = model.next_state(&init, a.clone());
    let r2 = model.next_state(&init, a);
    assert!(r1.is_some());
    assert!(r1 == r2);
}

#[test]
fn next_state_leaves_snapshot_unchanged() {
    let model = pp_model(3, LossyNetwork::Yes, DuplicatingNetwork::Yes);
    let init = model.init_states().remove(0);
    let before = init.duplicate();
    let a = SystemAction::Deliver { src: Id(0), dst: Id(1), msg: PingPongMsg::Ping(0) };
    let _ = model.next_state(&init, a);
    assert!(init == before);
}

#[test]
fn no_op_delivery_yields_no_successor() {
    let model = pp_model(3, LossyNetwork::No, DuplicatingNetwork::Yes);
    let init = model.init_states().remove(0);
    // The ponger is at 0, so a Ping(2) does not match and the transition is a no-op.
    let a = SystemAction::Deliver { src: Id(0), dst: Id(1), msg: PingPongMsg::Ping(2) };
    assert!(model.next_state(&init, a).is_none());
}

#[test]
fn non_duplicating_delivery_consumes_envelope() {
    let model = pp_model(3, LossyNetwork::No, DuplicatingNetwork::No);
    let init = model.init_states().remove(0);
    let env = Envelope { src: Id(0), dst: Id(1), msg: PingPongMsg::Ping(0) };
    let a = SystemAction::Deliver { src: Id(0), dst: Id(1), msg: PingPongMsg::Ping(0) };
    let next = model.next_state(&init, a).unwrap();
    assert!(init.network.contains(&env));
    assert!(!next.network.contains(&env));
}

#[test]
fn duplicating_delivery_keeps_envelope() {
    let model = pp_model(3, LossyNetwork::No, DuplicatingNetwork::Yes);
    let init = model.init_states().remove(0);
    let env = Envelope { src: Id(0), dst: Id(1), msg: PingPongMsg::Ping(0) };
    let a = SystemAction::Deliver { src: Id(0), dst: Id(1), msg: PingPongMsg::Ping(0) };
    let next = model.next_state(&init, a).unwrap();
    assert!(next.network.contains(&env));
}

#[test]
fn drops_are_enumerated_only_on_lossy_networks() {
    let lossy = pp_model(3, LossyNetwork::Yes, DuplicatingNetwork::Yes);
    let init = lossy.init_states().remove(0);
    let mut actions = Vec::new();
    lossy.actions(&init, &mut actions);
    assert!(actions
        .iter()
        .any(|a| matches!(a, SystemAction::Drop(_))));

    let lossless = pp_model(3, LossyNetwork::No, DuplicatingNetwork::Yes);
    let init = lossless.init_states().remove(0);
    let mut actions = Vec::new();
    lossless.actions(&init, &mut actions);
    assert!(!actions
        .iter()
        .any(|a| matches!(a, SystemAction::Drop(_))));
}

#[test]
fn setting_the_timer_twice_arms_it_once() {
    let model = pp_model(3, LossyNetwork::No, DuplicatingNetwork::Yes);
    let mut state = model.init_states().remove(0);
    let mut out: Out<PingPongMsg> = Out::new();
    out.set_timer(actor_model::system::model_timeout());
    out.set_timer(actor_model::system::model_timeout());
    model.process_commands(Id(0), out, &mut state);
    assert_eq!(state.is_timer_set, vec![true]);

    let mut actions = Vec::new();
    model.actions(&state, &mut actions);
    let timeouts: Vec<_> = actions
        .iter()
        .filter(|a| matches!(a, SystemAction::Timeout(_)))
        .collect();
    assert_eq!(timeouts.len(), 1);
}

#[test]
fn network_collapses_equal_envelopes() {
    let mut network: Network<PingPongMsg> = Network::new();
    network.insert(Envelope { src: Id(0), dst: Id(1), msg: PingPongMsg::Ping(0) });
    assert_eq!(network.len(), 1);
    network.insert(Envelope { src: Id(0), dst: Id(1), msg: PingPongMsg::Ping(0) });
    assert_eq!(network.len(), 1);
    network.insert(Envelope { src: Id(1), dst: Id(0), msg: PingPongMsg::Pong(0) });
    assert_eq!(network.len(), 2);
}

#[test]
fn quiet_hooks_leave_history_initial() {
    // With `maintains_history: false` both record hooks always answer `None`,
    // so every reachable snapshot keeps the initial history.
    let model = pp_model(2, LossyNetwork::Yes, DuplicatingNetwork::Yes);
    let ex = explore(&model, pp_key);
    for s in &ex.states {
        assert_eq!(s.history, (0u32, 0u32));
    }
}

#[test]
fn unknown_destinations_are_never_delivered() {
    let model = UndeliverableSystem.into_model();
    let init = model.init_states().remove(0);
    let mut actions: Vec<SystemAction<()>> = Vec::new();
    model.actions(&init, &mut actions);
    assert!(actions.is_empty());
    let a = SystemAction::Deliver { src: Id(0), dst: Id(99), msg: () };
    assert!(model.next_state(&init, a).is_none());
}

#[test]
fn register_messages_round_trip_through_clients() {
    // The first client opens with Put(id, 'B') when one server is present:
    // client ids start after the servers, and 'A' + (1 - 1) = 'A' belongs to
    // the client with id equal to the server count.
    let model = RegisterTestSystem::<SingleCopyServer, ()> {
        servers: vec![SingleCopyServer],
        client_count: 1,
        lossy_network: LossyNetwork::No,
        duplicating_network: DuplicatingNetwork::No,
        marker: PhantomData,
    }
    .into_model();
    let init = model.init_states().remove(0);
    let put = Envelope {
        src: Id(1),
        dst: Id(0),
        msg: RegisterMsg::<u64, char, ()>::Put(1, 'A'),
    };
    assert!(init.network.contains(&put));
}

#[test]
fn history_counts_traffic_when_maintained() {
    // With history maintained, each processed send bumps the sent counter and
    // each delivery bumps the delivered counter.
    let model = PingPongSystem {
        max_nat: 1,
        lossy: LossyNetwork::No,
        duplicating: DuplicatingNetwork::No,
        maintains_history: true,
    }
    .into_model();
    let ex = explore(&model, pp_key);
    assert_eq!(ex.states.len(), 3);
    assert_eq!(ex.states[0].history, (0, 1)); // the pinger's opening send
    assert_eq!(ex.states[1].history, (1, 2)); // ping delivered, pong sent
    assert_eq!(ex.states[2].history, (2, 3)); // pong delivered, next ping sent
}

#[test]
fn register_test_system_defaults() {
    let sys = RegisterTestSystem::<SingleCopyServer, ()>::default();
    assert_eq!(sys.servers.len(), 0);
    assert_eq!(sys.client_count, 2);
    assert_eq!(sys.lossy_network, LossyNetwork::No);
    assert_eq!(sys.duplicating_network, DuplicatingNetwork::Yes);
}

#[test]
fn sorted_view_is_canonical() {
    let a = Envelope { src: Id(0), dst: Id(1), msg: PingPongMsg::Ping(0) };
    let b = Envelope { src: Id(1), dst: Id(0), msg: PingPongMsg::Pong(0) };
    let c = Envelope { src: Id(0), dst: Id(1), msg: PingPongMsg::Ping(1) };
    let one = Network::from_vec(vec![b.clone(), c.clone(), a.clone(), b.clone()]);
    let two = Network::from_vec(vec![a.clone(), b.clone(), c.clone()]);
    assert!(one.set_eq(&two));
    assert_eq!(one.sorted_envelopes(), two.sorted_envelopes());
    assert_eq!(one.sorted_envelopes(), vec![a, c, b]);
}
