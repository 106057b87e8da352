use ettllama::{Action, Event, FeedSignal, Phase, Session};

fn text(a: &Action) -> Option<String> {
    match a {
        Action::SendToken(t) => Some(String::from_utf8(t.clone()).unwrap()),
        Action::SendSentinel => Some(String::new()),
        _ => None,
    }
}

fn fed(a: &Action) -> String {
    match a {
        Action::Feed(u) => u.iter().collect(),
        other => panic!("expected a feed request, got {:?}", other),
    }
}

#[test]
fn scenario_single_prompt_streams_tokens_then_sentinel() {
    let mut s = Session::new(7, "<<prompt>>".to_string());
    let mut wire: Vec<String> = Vec::new();
    let a = s.step(Event::Message("hello".to_string()));
    assert_eq!(fed(&a), "<<prompt>>");
    let a = s.step(Event::Fed(FeedSignal::Continue));
    assert!(matches!(a, Action::InferNext));
    assert_eq!(s.phase(), Phase::Generating);
    for tok in ["Hi", " there"] {
        let a = s.step(Event::Token(tok.as_bytes().to_vec()));
        wire.push(text(&a).unwrap());
        assert_eq!(s.phase(), Phase::SendingToken);
        assert!(matches!(s.step(Event::Sent), Action::InferNext));
    }
    let a = s.step(Event::InferFailed);
    wire.push(text(&a).unwrap());
    assert_eq!(wire, vec!["Hi", " there", ""]);
    assert!(matches!(s.step(Event::Sent), Action::AwaitPrompt));
    assert_eq!(s.phase(), Phase::AwaitingPrompt);
}

#[test]
fn scenario_first_inference_fails() {
    let mut s = Session::new(1, "{{prompt}}".to_string());
    let a = s.step(Event::Message("hello".to_string()));
    assert_eq!(fed(&a), "hello");
    assert!(matches!(s.step(Event::Fed(FeedSignal::Continue)), Action::InferNext));
    let a = s.step(Event::InferFailed);
    assert_eq!(text(&a), Some(String::new()));
    assert!(matches!(s.step(Event::Sent), Action::AwaitPrompt));
    assert_eq!(s.phase(), Phase::AwaitingPrompt);
}

#[test]
fn scenario_two_prompts_share_one_engine_session() {
    let mut s = Session::new(42, "{{prompt}}".to_string());
    for prompt in ["first one", "second"] {
        let mut a = s.step(Event::Message(prompt.to_string()));
        while matches!(a, Action::Feed(_)) {
            a = s.step(Event::Fed(FeedSignal::Continue));
        }
        assert!(matches!(a, Action::InferNext));
        assert!(matches!(s.step(Event::Token(b"ok".to_vec())), Action::SendToken(_)));
        assert!(matches!(s.step(Event::Sent), Action::InferNext));
        assert!(matches!(s.step(Event::InferFailed), Action::SendSentinel));
        assert!(matches!(s.step(Event::Sent), Action::AwaitPrompt));
        assert_eq!(s.id(), 42);
    }
}

#[test]
fn feeds_every_word_in_order() {
    let mut s = Session::new(0, "Q: {{prompt}}".to_string());
    let mut words = vec![fed(&s.step(Event::Message("a b  c".to_string())))];
    loop {
        let a = s.step(Event::Fed(FeedSignal::Continue));
        match a {
            Action::Feed(_) => words.push(fed(&a)),
            Action::InferNext => break,
            other => panic!("unexpected {:?}", other),
        }
    }
    assert_eq!(words, vec!["Q:", "a", "b", "c"]);
}

#[test]
fn feed_failure_ends_turn_with_sentinel() {
    let mut s = Session::new(0, "{{prompt}}".to_string());
    s.step(Event::Message("one two".to_string()));
    assert!(matches!(s.step(Event::Fed(FeedSignal::Failed)), Action::SendSentinel));
    assert_eq!(s.phase(), Phase::SendingSentinel);
    assert!(matches!(s.step(Event::Sent), Action::AwaitPrompt));
}

#[test]
fn feed_stop_starts_generation_early() {
    let mut s = Session::new(0, "{{prompt}}".to_string());
    s.step(Event::Message("one two three".to_string()));
    assert!(matches!(s.step(Event::Fed(FeedSignal::Stop)), Action::InferNext));
    assert_eq!(s.phase(), Phase::Generating);
}

#[test]
fn blank_prompt_goes_straight_to_generation() {
    let mut s = Session::new(0, "{{prompt}}".to_string());
    assert!(matches!(s.step(Event::Message("   ".to_string())), Action::InferNext));
    assert_eq!(s.phase(), Phase::Generating);
}

#[test]
fn empty_token_closes_connection() {
    let mut s = Session::new(0, "{{prompt}}".to_string());
    s.step(Event::Message("x".to_string()));
    s.step(Event::Fed(FeedSignal::Continue));
    assert!(matches!(s.step(Event::Token(Vec::new())), Action::Close));
    assert_eq!(s.phase(), Phase::Closed);
    assert!(matches!(s.step(Event::Sent), Action::Close));
}

#[test]
fn transport_failures_close_connection() {
    let mut s = Session::new(0, "{{prompt}}".to_string());
    assert!(matches!(s.step(Event::Malformed), Action::Close));
    let mut s = Session::new(0, "{{prompt}}".to_string());
    assert!(matches!(s.step(Event::ChannelClosed), Action::Close));
    let mut s = Session::new(0, "{{prompt}}".to_string());
    s.step(Event::Message("x".to_string()));
    s.step(Event::Fed(FeedSignal::Continue));
    s.step(Event::Token(b"t".to_vec()));
    assert!(matches!(s.step(Event::SendFailed), Action::Close));
    assert_eq!(s.phase(), Phase::Closed);
}

#[test]
fn messages_on_the_wire() {
    assert_eq!(Action::SendToken(b"Hi".to_vec()).into_message(), Some(b"Hi".to_vec()));
    assert_eq!(Action::SendSentinel.into_message(), Some(Vec::new()));
    assert_eq!(Action::InferNext.into_message(), None);
    assert_eq!(Action::Close.into_message(), None);
}
