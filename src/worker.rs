//! The ingestion worker's decisions. The worker itself (the runtime, the
//! channels, the timers) runs outside; it reports what happened and acts on
//! what these functions decide.

use vstd::prelude::*;

verus! {

/// How often, in milliseconds, the feed is polled.
pub const POLL_PERIOD_MS: u64 = 60_000;

/// How long, in milliseconds, the worker waits for the user to sign in;
/// past it the answer counts as not given and authentication fails.
pub const AUTH_TIMEOUT_MS: u64 = 600_000;

/// Requests of the presentation layer.
pub enum Request {
    /// Stop working.
    Stop,
    /// A page of news older than the oldest shown.
    NewsOlder,
    /// A page of news newer than the newest shown.
    NewsNext,
}

/// What a non-blocking send to the presentation layer gave.
pub enum SendOutcome {
    Delivered,
    /// The channel is full: the message was dropped.
    Full,
    /// The channel is closed: the presentation layer has stopped.
    Closed,
}

/// What to do after a send.
pub struct SendDecision {
    /// The loop goes on.
    pub keep_running: bool,
    /// A warning about a dropped message is logged.
    pub warn_dropped: bool,
}

/// After a send: a dropped message is warned about once and the loop goes
/// on; a closed channel ends the loop.
pub open spec fn send_decision(o: SendOutcome) -> SendDecision {
    SendDecision { keep_running: !(o is Closed), warn_dropped: o is Full }
}

/// Decides what follows a non-blocking send.
pub fn do_send(outcome: SendOutcome) -> (r: SendDecision)
    ensures
        r == send_decision(outcome),
{
    match outcome {
        SendOutcome::Delivered => SendDecision { keep_running: true, warn_dropped: false },
        SendOutcome::Full => SendDecision { keep_running: true, warn_dropped: true },
        SendOutcome::Closed => SendDecision { keep_running: false, warn_dropped: false },
    }
}

/// How many warnings a run of sends logs.
pub open spec fn warnings(os: Seq<SendOutcome>) -> nat
    decreases os.len(),
{
    if os.len() == 0 {
        0
    } else {
        warnings(os.drop_last()) + if send_decision(os.last()).warn_dropped {
            1nat
        } else {
            0nat
        }
    }
}

/// How many messages a run of sends dropped.
pub open spec fn dropped(os: Seq<SendOutcome>) -> nat
    decreases os.len(),
{
    if os.len() == 0 {
        0
    } else {
        dropped(os.drop_last()) + if os.last() is Full {
            1nat
        } else {
            0nat
        }
    }
}

/// Sending never waits for the presentation layer: each dropped message
/// is warned about exactly once, and a full channel never stops the loop.
pub proof fn lemma_one_warning_per_drop(os: Seq<SendOutcome>)
    ensures
        warnings(os) == dropped(os),
        forall|i: int| 0 <= i < os.len() && os[i] is Full ==> #[trigger] send_decision(
            os[i],
        ).keep_running,
    decreases os.len(),
{
    if os.len() > 0 {
        lemma_one_warning_per_drop(os.drop_last());
    }
}

/// What the request handler does next.
pub enum RequestAction {
    /// Fetch and transform the page before the oldest boundary.
    FetchOlder,
    /// Nothing to fetch; wait for the next request.
    Ignore,
    /// Stop handling requests.
    Stop,
}

/// The reaction to a request, `None` standing for a closed request channel.
pub open spec fn request_action(req: Option<Request>) -> RequestAction {
    match req {
        None => RequestAction::Stop,
        Some(Request::Stop) => RequestAction::Stop,
        Some(Request::NewsOlder) => RequestAction::FetchOlder,
        Some(Request::NewsNext) => RequestAction::Ignore,
    }
}

/// Decides the reaction to a request, or to the closing of the channel.
pub fn on_request(req: Option<Request>) -> (r: RequestAction)
    ensures
        r == request_action(req),
{
    match req {
        None => RequestAction::Stop,
        Some(Request::Stop) => RequestAction::Stop,
        Some(Request::NewsOlder) => RequestAction::FetchOlder,
        Some(Request::NewsNext) => RequestAction::Ignore,
    }
}

/// Where authentication stands.
#[derive(Clone, Copy, PartialEq, Eq, Debug)]
pub enum AuthPhase {
    /// Reading the credential stored on disk.
    LoadingStored,
    /// Testing the stored credential against the account endpoint.
    ProbingStored,
    /// Waiting for the user to sign in.
    AwaitingUser,
    /// Testing the credential the user just gave.
    ProbingNew,
    /// A credential that works is at hand.
    Ready,
    /// No credential works; the worker ends.
    Failed,
}

/// What was learnt at the current phase.
pub enum AuthEvent {
    /// Whether a stored credential was read.
    Loaded(bool),
    /// Whether the account answered to the credential.
    Probed(bool),
    /// Whether the user gave a credential.
    Answered(bool),
}

/// The next phase: a stored credential is tried first; the user is asked
/// only when there is none or it does not work; a credential from the user
/// that does not work ends the worker. An event that does not belong to the
/// phase changes nothing.
pub open spec fn auth_transition(phase: AuthPhase, event: AuthEvent) -> AuthPhase {
    match (phase, event) {
        (AuthPhase::LoadingStored, AuthEvent::Loaded(true)) => AuthPhase::ProbingStored,
        (AuthPhase::LoadingStored, AuthEvent::Loaded(false)) => AuthPhase::AwaitingUser,
        (AuthPhase::ProbingStored, AuthEvent::Probed(true)) => AuthPhase::Ready,
        (AuthPhase::ProbingStored, AuthEvent::Probed(false)) => AuthPhase::AwaitingUser,
        (AuthPhase::AwaitingUser, AuthEvent::Answered(true)) => AuthPhase::ProbingNew,
        (AuthPhase::AwaitingUser, AuthEvent::Answered(false)) => AuthPhase::Failed,
        (AuthPhase::ProbingNew, AuthEvent::Probed(true)) => AuthPhase::Ready,
        (AuthPhase::ProbingNew, AuthEvent::Probed(false)) => AuthPhase::Failed,
        (p, _) => p,
    }
}

/// Moves authentication on by one event.
pub fn auth_step(phase: AuthPhase, event: AuthEvent) -> (r: AuthPhase)
    ensures
        r == auth_transition(phase, event),
{
    match (phase, event) {
        (AuthPhase::LoadingStored, AuthEvent::Loaded(true)) => AuthPhase::ProbingStored,
        (AuthPhase::LoadingStored, AuthEvent::Loaded(false)) => AuthPhase::AwaitingUser,
        (AuthPhase::ProbingStored, AuthEvent::Probed(true)) => AuthPhase::Ready,
        (AuthPhase::ProbingStored, AuthEvent::Probed(false)) => AuthPhase::AwaitingUser,
        (AuthPhase::AwaitingUser, AuthEvent::Answered(true)) => AuthPhase::ProbingNew,
        (AuthPhase::AwaitingUser, AuthEvent::Answered(false)) => AuthPhase::Failed,
        (AuthPhase::ProbingNew, AuthEvent::Probed(true)) => AuthPhase::Ready,
        (AuthPhase::ProbingNew, AuthEvent::Probed(false)) => AuthPhase::Failed,
        (p, _) => p,
    }
}

} // verus!
