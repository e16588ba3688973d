use actor_model::actor::{is_no_op, majority, Id, Out, TimerRange};
use actor_model::ping_pong::{PingPongCount, PingPongMsg};
use actor_model::system::{model_peers, model_timeout};

#[test]
fn majority_is_computed_correctly() {
    assert_eq!(majority(1), 1);
    assert_eq!(majority(2), 2);
    assert_eq!(majority(3), 2);
    assert_eq!(majority(4), 3);
    assert_eq!(majority(5), 3);
}

#[test]
fn out_records_commands_in_emission_order() {
    let mut out: Out<PingPongMsg> = Out::new();
    assert!(out.is_empty());
    out.send(Id(1), PingPongMsg::Ping(0));
    out.set_timer(model_timeout());
    out.cancel_timer();
    assert_eq!(out.len(), 3);
    assert!(matches!(out.index(0), actor_model::actor::Command::Send(id, PingPongMsg::Ping(0)) if *id == Id(1)));
    assert!(matches!(out.index(1), actor_model::actor::Command::SetTimer(_)));
    assert!(matches!(out.index(2), actor_model::actor::Command::CancelTimer));
}

#[test]
fn broadcast_sends_one_copy_per_recipient() {
    let mut out: Out<PingPongMsg> = Out::new();
    let recipients = [Id(0), Id(2), Id(5)];
    out.broadcast(&recipients, &PingPongMsg::Pong(7));
    assert_eq!(out.len(), 3);
    for (i, id) in recipients.iter().enumerate() {
        assert!(
            matches!(out.index(i), actor_model::actor::Command::Send(dst, PingPongMsg::Pong(7)) if dst == id)
        );
    }
}

#[test]
fn append_moves_commands_and_empties_the_source() {
    let mut a: Out<PingPongMsg> = Out::new();
    let mut b: Out<PingPongMsg> = Out::new();
    a.send(Id(0), PingPongMsg::Ping(1));
    b.send(Id(1), PingPongMsg::Pong(1));
    b.cancel_timer();
    a.append(&mut b);
    assert_eq!(a.len(), 3);
    assert!(b.is_empty());
    assert!(matches!(a.index(0), actor_model::actor::Command::Send(id, PingPongMsg::Ping(1)) if *id == Id(0)));
    assert!(matches!(a.index(1), actor_model::actor::Command::Send(id, PingPongMsg::Pong(1)) if *id == Id(1)));
}

#[test]
fn no_op_means_no_state_change_and_no_commands() {
    let empty: Out<PingPongMsg> = Out::new();
    let unchanged: Option<PingPongCount> = None;
    assert!(is_no_op(&unchanged, &empty));

    let replaced: Option<PingPongCount> = Some(PingPongCount(1));
    assert!(!is_no_op(&replaced, &empty));

    let mut with_cmd: Out<PingPongMsg> = Out::new();
    with_cmd.cancel_timer();
    let unchanged: Option<PingPongCount> = None;
    assert!(!is_no_op(&unchanged, &with_cmd));
}

#[test]
fn model_timeout_is_the_zero_range() {
    assert_eq!(model_timeout(), TimerRange { min_micros: 0, max_micros: 0 });
}

#[test]
fn model_peers_lists_everyone_else() {
    assert_eq!(model_peers(1, 4), vec![Id(0), Id(2), Id(3)]);
    assert_eq!(model_peers(0, 1), Vec::<Id>::new());
    assert_eq!(model_peers(7, 3), vec![Id(0), Id(1), Id(2)]);
}

#[test]
fn id_converts_to_and_from_indexes() {
    assert_eq!(usize::from(Id(3)), 3);
    assert_eq!(Id::from(5usize), Id(5));
    assert_eq!(Id::default(), Id(0));
}
