use ettllama::{Action, Event, FeedSignal, Phase, Scheduler};

fn start_generating(s: &mut Scheduler, i: usize) {
    s.step_session(i, Event::Message("go".to_string()));
    s.step_session(i, Event::Fed(FeedSignal::Continue));
    assert_eq!(s.session(i).phase(), Phase::Generating);
}

#[test]
fn ids_are_fresh_per_connection() {
    let mut s = Scheduler::new();
    assert_eq!(s.open("{{prompt}}".to_string()), Some(0));
    assert_eq!(s.open("{{prompt}}".to_string()), Some(1));
    assert_eq!(s.len(), 2);
    assert_eq!(s.find(1), Some(1));
    assert_eq!(s.find(5), None);
}

#[test]
fn waiting_sessions_are_not_picked() {
    let mut s = Scheduler::new();
    s.open("{{prompt}}".to_string());
    s.open("{{prompt}}".to_string());
    assert_eq!(s.pick_next(), None);
    s.step_session(1, Event::Message("hi".to_string()));
    assert_eq!(s.pick_next(), Some(1));
    assert!(matches!(s.engine_call(1), Action::Feed(_)));
    assert_eq!(s.pick_next(), Some(1));
}

#[test]
fn scenario_two_generations_interleave() {
    let mut s = Scheduler::new();
    s.open("{{prompt}}".to_string());
    s.open("{{prompt}}".to_string());
    start_generating(&mut s, 0);
    start_generating(&mut s, 1);
    let mut delivered: Vec<(usize, usize)> = Vec::new();
    let mut count = [0usize; 2];
    while count[0] < 5 || count[1] < 5 {
        let i = s.pick_next().unwrap();
        assert!(matches!(s.engine_call(i), Action::InferNext));
        let a = s.step_session(i, Event::Token(b"tok".to_vec()));
        assert!(matches!(a, Action::SendToken(_)));
        count[i] += 1;
        delivered.push((i, count[i]));
        s.step_session(i, Event::Sent);
    }
    let b_first = delivered.iter().position(|d| d.0 == 1).unwrap();
    let a_last = delivered.iter().rposition(|d| d.0 == 0).unwrap();
    assert!(b_first < a_last);
    let order: Vec<usize> = delivered.iter().map(|d| d.0).collect();
    assert_eq!(order, vec![0, 1, 0, 1, 0, 1, 0, 1, 0, 1]);
}

#[test]
fn round_robin_visits_everyone_between_turns() {
    let mut s = Scheduler::new();
    for _ in 0..4 {
        s.open("{{prompt}}".to_string());
    }
    for i in 0..4 {
        start_generating(&mut s, i);
    }
    let picks: Vec<usize> = (0..8).map(|_| s.pick_next().unwrap()).collect();
    assert_eq!(picks, vec![0, 1, 2, 3, 0, 1, 2, 3]);
}

#[test]
fn closing_one_connection_leaves_others_untouched() {
    let mut s = Scheduler::new();
    s.open("{{prompt}}".to_string());
    s.open("{{prompt}}".to_string());
    s.open("{{prompt}}".to_string());
    start_generating(&mut s, 0);
    start_generating(&mut s, 2);
    assert_eq!(s.pick_next(), Some(0));
    s.step_session(1, Event::ChannelClosed);
    assert_eq!(s.close(1), 1);
    assert_eq!(s.len(), 2);
    assert_eq!(s.session(0).phase(), Phase::Generating);
    assert_eq!(s.session(1).phase(), Phase::Generating);
    assert_eq!(s.session(1).id(), 2);
    assert_eq!(s.pick_next(), Some(1));
    assert_eq!(s.pick_next(), Some(0));
}

#[test]
fn closing_the_last_picked_moves_on() {
    let mut s = Scheduler::new();
    for _ in 0..3 {
        s.open("{{prompt}}".to_string());
    }
    for i in 0..3 {
        start_generating(&mut s, i);
    }
    assert_eq!(s.pick_next(), Some(0));
    assert_eq!(s.pick_next(), Some(1));
    s.close(1);
    assert_eq!(s.pick_next(), Some(1));
    assert_eq!(s.session(1).id(), 2);
}
