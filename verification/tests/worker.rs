use gramcheck::codec::GramcheckRequest;
use gramcheck::error::ErrorKind;
use gramcheck::worker::{Directive, GramcheckExecutor};

fn request(text: &str) -> GramcheckRequest {
    GramcheckRequest::new(text.to_string())
}

fn answer(text: &str) -> String {
    format!("{{\"errs\":[],\"text\":\"{}\"}}\n", text)
}

fn written(directive: &Directive) -> Option<&str> {
    match directive {
        Directive::Write(line) => Some(line.as_str()),
        Directive::Wait => None,
    }
}

#[test]
fn fresh_actor_is_alive_and_idle() {
    let actor = GramcheckExecutor::new();
    assert!(actor.is_alive());
    assert_eq!(actor.pending(), 0);
}

#[test]
fn idle_actor_writes_at_once() {
    let mut actor = GramcheckExecutor::new();
    let directive = actor.submit(&request("first\nsecond line")).unwrap();
    assert_eq!(written(&directive), Some("first"));
    assert_eq!(actor.pending(), 1);
}

#[test]
fn busy_actor_lets_requests_wait_in_order() {
    let mut actor = GramcheckExecutor::new();
    assert_eq!(written(&actor.submit(&request("one")).unwrap()), Some("one"));
    assert_eq!(written(&actor.submit(&request("two")).unwrap()), None);
    assert_eq!(written(&actor.submit(&request("three")).unwrap()), None);
    assert_eq!(actor.pending(), 3);

    let done = actor.complete(&answer("one")).unwrap();
    assert_eq!(done.result.unwrap().text, "one");
    assert_eq!(written(&done.next), Some("two"));
    assert_eq!(actor.pending(), 2);

    assert_eq!(written(&actor.submit(&request("four")).unwrap()), None);

    let done = actor.complete(&answer("two")).unwrap();
    assert_eq!(done.result.unwrap().text, "two");
    assert_eq!(written(&done.next), Some("three"));

    let done = actor.complete(&answer("three")).unwrap();
    assert_eq!(done.result.unwrap().text, "three");
    assert_eq!(written(&done.next), Some("four"));

    let done = actor.complete(&answer("four")).unwrap();
    assert_eq!(done.result.unwrap().text, "four");
    assert_eq!(written(&done.next), None);
    assert_eq!(actor.pending(), 0);

    assert_eq!(written(&actor.submit(&request("five")).unwrap()), Some("five"));
}

#[test]
fn many_requests_resolve_in_submission_order() {
    let mut actor = GramcheckExecutor::new();
    let mut wire = Vec::new();
    for n in 0..50 {
        if let Directive::Write(line) = actor.submit(&request(&format!("request {}", n))).unwrap() {
            wire.push(line);
        }
    }
    assert_eq!(wire, vec!["request 0".to_string()]);
    for n in 0..50 {
        let in_flight = wire.last().unwrap().clone();
        assert_eq!(in_flight, format!("request {}", n));
        let done = actor.complete(&answer(&in_flight)).unwrap();
        assert_eq!(done.result.unwrap().text, in_flight);
        if let Directive::Write(line) = done.next {
            wire.push(line);
        }
    }
    assert_eq!(wire.len(), 50);
    assert_eq!(actor.pending(), 0);
}

#[test]
fn malformed_response_fails_one_request_only() {
    let mut actor = GramcheckExecutor::new();
    actor.submit(&request("one")).unwrap();
    actor.submit(&request("two")).unwrap();

    let done = actor.complete("not json").unwrap();
    let error = done.result.unwrap_err();
    assert_eq!(error.kind, ErrorKind::ProtocolViolation);
    assert!(error.message.ends_with(", line: 'not json'"));
    assert_eq!(written(&done.next), Some("two"));
    assert!(actor.is_alive());

    let done = actor.complete(&answer("two")).unwrap();
    assert_eq!(done.result.unwrap().text, "two");
    assert_eq!(written(&actor.submit(&request("three")).unwrap()), Some("three"));
}

#[test]
fn response_without_a_request_is_dropped() {
    let mut actor = GramcheckExecutor::new();
    assert!(actor.complete(&answer("stray")).is_none());
    assert!(actor.is_alive());
    assert_eq!(actor.pending(), 0);
    assert_eq!(written(&actor.submit(&request("one")).unwrap()), Some("one"));
}

#[test]
fn death_fails_every_pending_request() {
    let mut actor = GramcheckExecutor::new();
    actor.submit(&request("one")).unwrap();
    actor.submit(&request("two")).unwrap();
    actor.submit(&request("three")).unwrap();

    let errors = actor.fail();
    assert_eq!(errors.len(), 3);
    for error in &errors {
        assert_eq!(error.kind, ErrorKind::WorkerUnavailable);
        assert_eq!(error.message, "Something failed in the message delivery process");
    }
    assert!(!actor.is_alive());
    assert_eq!(actor.pending(), 0);
}

#[test]
fn dead_actor_refuses_requests() {
    let mut actor = GramcheckExecutor::new();
    assert!(actor.fail().is_empty());
    let error = actor.submit(&request("late")).unwrap_err();
    assert_eq!(error.kind, ErrorKind::WorkerUnavailable);
    assert_eq!(actor.pending(), 0);
    assert!(actor.complete(&answer("late")).is_none());
    assert!(actor.fail().is_empty());
    assert!(!actor.is_alive());
}
