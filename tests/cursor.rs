use gvk::newsfeed::{NewsProvider, PageOutcome};
use gvk::worker::{
    auth_step, do_send, on_request, AuthEvent, AuthPhase, Request, RequestAction, SendOutcome,
};

#[test]
fn start_is_one_window_back() {
    let mut c = NewsProvider::starting_at(10_000);
    let q = c.prev_update();
    assert_eq!((q.start_time, q.end_time, q.count), (2_800, Some(6_400), 100));
    let n = c.next_update_at(10_000);
    assert_eq!((n.start_time, n.end_time), (6_400, None));
    let tiny = NewsProvider::starting_at(5);
    assert_eq!(tiny.prev_update().end_time, Some(0));
}

#[test]
fn newest_boundary_advances_even_after_failure() {
    let mut c = NewsProvider::starting_at(10_000);
    let first = c.next_update_at(10_050);
    // the page request failed; nothing is reported back
    let second = c.next_update_at(10_100);
    assert!(second.start_time > first.start_time);
    assert_eq!(second.start_time, 10_050);
    let third = c.next_update_at(9_000);
    assert_eq!(third.start_time, 10_100);
    assert_eq!(c.next_update_at(10_200).start_time, 10_100);
}

#[test]
fn failed_history_request_is_retried_identically() {
    let mut c = NewsProvider::starting_at(10_000);
    let q1 = c.prev_update();
    assert!(!c.prev_completed(PageOutcome::Failed));
    let q2 = c.prev_update();
    assert_eq!((q1.start_time, q1.end_time), (q2.start_time, q2.end_time));
    assert!(c.prev_completed(PageOutcome::Received(Some("tok".to_string()))));
    let q3 = c.prev_update();
    assert_eq!(q3.end_time, Some(q1.start_time));
}

#[test]
fn send_backpressure() {
    let d = do_send(SendOutcome::Full);
    assert!(d.keep_running && d.warn_dropped);
    let d = do_send(SendOutcome::Delivered);
    assert!(d.keep_running && !d.warn_dropped);
    let d = do_send(SendOutcome::Closed);
    assert!(!d.keep_running && !d.warn_dropped);
    let mut warnings = 0;
    for o in vec![SendOutcome::Full, SendOutcome::Delivered, SendOutcome::Full] {
        if do_send(o).warn_dropped {
            warnings += 1;
        }
    }
    assert_eq!(warnings, 2);
}

#[test]
fn request_reactions() {
    assert!(matches!(on_request(None), RequestAction::Stop));
    assert!(matches!(on_request(Some(Request::Stop)), RequestAction::Stop));
    assert!(matches!(on_request(Some(Request::NewsOlder)), RequestAction::FetchOlder));
    assert!(matches!(on_request(Some(Request::NewsNext)), RequestAction::Ignore));
}

#[test]
fn authentication_phases() {
    let p = auth_step(AuthPhase::LoadingStored, AuthEvent::Loaded(true));
    assert!(matches!(p, AuthPhase::ProbingStored));
    let p = auth_step(p, AuthEvent::Probed(false));
    assert!(matches!(p, AuthPhase::AwaitingUser));
    let p = auth_step(p, AuthEvent::Answered(true));
    assert!(matches!(p, AuthPhase::ProbingNew));
    assert!(matches!(auth_step(AuthPhase::ProbingNew, AuthEvent::Probed(true)), AuthPhase::Ready));
    assert!(matches!(auth_step(AuthPhase::ProbingNew, AuthEvent::Probed(false)), AuthPhase::Failed));
    assert!(matches!(auth_step(AuthPhase::AwaitingUser, AuthEvent::Answered(false)), AuthPhase::Failed));
    assert!(matches!(auth_step(AuthPhase::LoadingStored, AuthEvent::Loaded(false)), AuthPhase::AwaitingUser));
    assert!(matches!(auth_step(AuthPhase::Ready, AuthEvent::Loaded(false)), AuthPhase::Ready));
}
