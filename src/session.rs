use vstd::prelude::*;
use vstd::string::StringExecFns;
use crate::callback::{extract_manual_code, manual_code, result_view};
use crate::error::FlowError;

verus! {

/// Where a capture attempt stands.
#[derive(Clone, Copy, Debug, PartialEq, Eq, Structural)]
pub enum Phase {
    /// No attempt: nothing is bound and nothing can be delivered.
    Idle,
    /// Listeners are bound and the result has not been claimed by a waiter.
    Prepared,
    /// A waiter has claimed the result and waits for it.
    Consumed,
}

/// What the waiter observed that woke it.
#[derive(Clone, Copy, Debug, PartialEq, Eq, Structural)]
pub enum WaitEvent {
    /// A delivery may have arrived.
    Woken,
    /// The cancellation signal fired.
    Cancelled,
    /// The deadline passed.
    TimedOut,
    /// Every sender went away.
    Closed,
}

/// What the caller of `prepare_step` must do next.
#[derive(Debug)]
pub enum PrepareStep {
    /// The current attempt is still unclaimed: hand out its URL again.
    Reuse(String),
    /// Nothing is prepared: bind listeners and call `begin`.
    Bind,
    /// A claimed attempt was dropped: signal its listeners to stop, then bind
    /// and call `begin`.
    CancelThenBind,
}

/// A `PrepareStep` as plain values.
pub enum StepView {
    Reuse(Seq<char>),
    Bind,
    CancelThenBind,
}

pub open spec fn step_view(p: PrepareStep) -> StepView {
    match p {
        PrepareStep::Reuse(u) => StepView::Reuse(u@),
        PrepareStep::Bind => StepView::Bind,
        PrepareStep::CancelThenBind => StepView::CancelThenBind,
    }
}

/// The single-flight state of authorization-code capture: at most one attempt
/// is active, and its first delivery is the only one the waiter sees.
pub struct CaptureSession {
    phase: Phase,
    attempt: u64,
    auth_url: String,
    redirect_uri: String,
    csrf_state: String,
    delivered: Option<Result<String, FlowError>>,
}

/// The state of a session as plain values.
pub struct SessionView {
    pub phase: Phase,
    pub attempt: u64,
    pub auth_url: Seq<char>,
    pub redirect_uri: Seq<char>,
    pub csrf_state: Seq<char>,
    pub delivered: Option<Result<Seq<char>, FlowError>>,
}

impl View for CaptureSession {
    type V = SessionView;

    closed spec fn view(&self) -> SessionView {
        SessionView {
            phase: self.phase,
            attempt: self.attempt,
            auth_url: self.auth_url@,
            redirect_uri: self.redirect_uri@,
            csrf_state: self.csrf_state@,
            delivered: match self.delivered {
                Some(r) => Some(result_view(r)),
                None => None,
            },
        }
    }
}

/// The session with no attempt, keeping the attempt counter.
pub open spec fn idle_after(s: SessionView) -> SessionView {
    SessionView {
        phase: Phase::Idle,
        attempt: s.attempt,
        auth_url: Seq::empty(),
        redirect_uri: Seq::empty(),
        csrf_state: Seq::empty(),
        delivered: None,
    }
}

/// The number of the attempt after `a`.
pub open spec fn next_attempt(a: u64) -> u64 {
    if a == u64::MAX {
        0
    } else {
        (a + 1) as u64
    }
}

/// What a request for an authorization URL decides, and the session
/// afterwards: an unclaimed attempt hands out its URL again and stays; a
/// claimed one is dropped before new listeners are bound.
pub open spec fn prepared(s: SessionView) -> (StepView, SessionView) {
    match s.phase {
        Phase::Prepared => (StepView::Reuse(s.auth_url), s),
        Phase::Consumed => (StepView::CancelThenBind, idle_after(s)),
        Phase::Idle => (StepView::Bind, s),
    }
}

/// The session after a new attempt starts.
pub open spec fn begun(s: SessionView, auth_url: Seq<char>, redirect_uri: Seq<char>, csrf: Seq<char>) -> SessionView {
    SessionView {
        phase: Phase::Prepared,
        attempt: next_attempt(s.attempt),
        auth_url,
        redirect_uri,
        csrf_state: csrf,
        delivered: None,
    }
}

/// A delivery for attempt `a` is taken: an attempt is active, it is `a`, and
/// nothing was delivered to it before.
pub open spec fn accepts(s: SessionView, a: u64) -> bool {
    s.phase != Phase::Idle && s.attempt == a && s.delivered is None
}

/// The session after a delivery for attempt `a`.
pub open spec fn after_delivery(s: SessionView, a: u64, r: Result<Seq<char>, FlowError>) -> SessionView {
    if accepts(s, a) {
        SessionView { delivered: Some(r), ..s }
    } else {
        s
    }
}

/// What the waiter of attempt `a` learns on `ev`, and the session afterwards.
/// A superseded or cancelled attempt ends cancelled; a delivery, once there,
/// wins over any event; otherwise the event decides, and `Woken` goes on
/// waiting.
pub open spec fn resolved(s: SessionView, a: u64, ev: WaitEvent) -> (Option<Result<Seq<char>, FlowError>>, SessionView) {
    if s.phase != Phase::Consumed || s.attempt != a {
        (Some(Err(FlowError::FlowCancelled)), s)
    } else if s.delivered is Some {
        (s.delivered, idle_after(s))
    } else {
        match ev {
            WaitEvent::Woken => (None, s),
            WaitEvent::Cancelled => (Some(Err(FlowError::FlowCancelled)), idle_after(s)),
            WaitEvent::TimedOut => (Some(Err(FlowError::FlowTimedOut)), idle_after(s)),
            WaitEvent::Closed => (Some(Err(FlowError::ChannelClosed)), idle_after(s)),
        }
    }
}

/// What a manual submission returns, and the session afterwards: nothing
/// happens without an active attempt; a supplied state that is not the CSRF
/// token is refused; otherwise the code is delivered to the current attempt.
pub open spec fn submitted(s: SessionView, code_input: Seq<char>, state: Option<Seq<char>>) -> (Result<bool, FlowError>, SessionView) {
    if s.phase == Phase::Idle {
        (Ok(false), s)
    } else if state is Some && state != Some(s.csrf_state) {
        (Err(FlowError::StateMismatch), s)
    } else {
        (
            Ok(accepts(s, s.attempt)),
            after_delivery(s, s.attempt, Ok(manual_code(code_input))),
        )
    }
}

impl CaptureSession {
    /// A session with no attempt.
    pub fn new() -> (r: CaptureSession)
        ensures
            r@.phase == Phase::Idle,
            r@.attempt == 0,
            r@ == idle_after(r@),
    {
        CaptureSession {
            phase: Phase::Idle,
            attempt: 0,
            auth_url: String::new(),
            redirect_uri: String::new(),
            csrf_state: String::new(),
            delivered: None,
        }
    }

    pub fn phase(&self) -> (r: Phase)
        ensures
            r == self@.phase,
    {
        self.phase
    }

    pub fn attempt(&self) -> (r: u64)
        ensures
            r == self@.attempt,
    {
        self.attempt
    }

    /// The authorization URL of the current attempt.
    pub fn auth_url(&self) -> (r: String)
        ensures
            r@ == self@.auth_url,
    {
        self.auth_url.clone()
    }

    /// The redirect URI of the current attempt.
    pub fn redirect_uri(&self) -> (r: String)
        ensures
            r@ == self@.redirect_uri,
    {
        self.redirect_uri.clone()
    }

    fn clear(&mut self)
        ensures
            final(self)@ == idle_after(old(self)@),
    {
        self.phase = Phase::Idle;
        self.auth_url = String::new();
        self.redirect_uri = String::new();
        self.csrf_state = String::new();
        self.delivered = None;
    }

    /// Decides how a request for an authorization URL is served. An unclaimed
    /// attempt hands out its URL again and stays as it is; a claimed one is
    /// dropped, so that a fresh one can start.
    pub fn prepare_step(&mut self) -> (r: PrepareStep)
        ensures
            (step_view(r), final(self)@) == prepared(old(self)@),
    {
        match self.phase {
            Phase::Prepared => PrepareStep::Reuse(self.auth_url.clone()),
            Phase::Consumed => {
                self.clear();
                PrepareStep::CancelThenBind
            },
            Phase::Idle => PrepareStep::Bind,
        }
    }

    /// Starts a new attempt once its listeners are bound; returns its number.
    /// Whatever attempt stood before is superseded.
    pub fn begin(&mut self, auth_url: String, redirect_uri: String, csrf_state: String) -> (r: u64)
        ensures
            final(self)@ == begun(old(self)@, auth_url@, redirect_uri@, csrf_state@),
            r == final(self)@.attempt,
    {
        self.attempt = if self.attempt == u64::MAX {
            0
        } else {
            self.attempt + 1
        };
        self.phase = Phase::Prepared;
        self.auth_url = auth_url;
        self.redirect_uri = redirect_uri;
        self.csrf_state = csrf_state;
        self.delivered = None;
        self.attempt
    }

    /// Claims the result of the current attempt for a waiter; returns the
    /// attempt's number. Only one waiter can claim an attempt.
    pub fn take_receiver(&mut self) -> (r: Result<u64, FlowError>)
        ensures
            old(self)@.phase == Phase::Prepared ==> r == Ok::<u64, FlowError>(old(self)@.attempt)
                && final(self)@ == (SessionView { phase: Phase::Consumed, ..old(self)@ }),
            old(self)@.phase == Phase::Consumed ==> r == Err::<u64, FlowError>(
                FlowError::FlowAlreadyInProgress,
            ) && final(self)@ == old(self)@,
            old(self)@.phase == Phase::Idle ==> r == Err::<u64, FlowError>(FlowError::NoActiveFlow)
                && final(self)@ == old(self)@,
    {
        match self.phase {
            Phase::Prepared => {
                self.phase = Phase::Consumed;
                Ok(self.attempt)
            },
            Phase::Consumed => Err(FlowError::FlowAlreadyInProgress),
            Phase::Idle => Err(FlowError::NoActiveFlow),
        }
    }

    /// The CSRF token that a callback for attempt `attempt` must carry, while
    /// that attempt is active.
    pub fn expected_state(&self, attempt: u64) -> (r: Option<String>)
        ensures
            match r {
                Some(s) => self@.phase != Phase::Idle && self@.attempt == attempt && s@
                    == self@.csrf_state,
                None => self@.phase == Phase::Idle || self@.attempt != attempt,
            },
    {
        if self.phase != Phase::Idle && self.attempt == attempt {
            Some(self.csrf_state.clone())
        } else {
            None
        }
    }

    /// Offers a result to attempt `attempt`. The first delivery to an active
    /// attempt is kept; any later one, or one for another attempt, is dropped
    /// without error. Returns whether it was kept.
    pub fn deliver(&mut self, attempt: u64, result: Result<String, FlowError>) -> (r: bool)
        ensures
            r == accepts(old(self)@, attempt),
            final(self)@ == after_delivery(old(self)@, attempt, result_view(result)),
    {
        if self.phase != Phase::Idle && self.attempt == attempt && self.delivered.is_none() {
            self.delivered = Some(result);
            true
        } else {
            false
        }
    }

    /// Decides what the waiter of attempt `attempt` returns on `event`;
    /// `None` means it goes on waiting. Any outcome ends the attempt.
    pub fn resolve(&mut self, attempt: u64, event: WaitEvent) -> (r: Option<Result<String, FlowError>>)
        ensures
            (match r {
                Some(x) => Some(result_view(x)),
                None => None,
            }) == resolved(old(self)@, attempt, event).0,
            final(self)@ == resolved(old(self)@, attempt, event).1,
    {
        if self.phase != Phase::Consumed || self.attempt != attempt {
            return Some(Err(FlowError::FlowCancelled));
        }
        if self.delivered.is_some() {
            let d = self.delivered.take();
            self.clear();
            return d;
        }
        match event {
            WaitEvent::Woken => None,
            WaitEvent::Cancelled => {
                self.clear();
                Some(Err(FlowError::FlowCancelled))
            },
            WaitEvent::TimedOut => {
                self.clear();
                Some(Err(FlowError::FlowTimedOut))
            },
            WaitEvent::Closed => {
                self.clear();
                Some(Err(FlowError::ChannelClosed))
            },
        }
    }
}

/// Ends the current attempt, whatever its phase; returns whether there was one,
/// so that its listeners and waiter can be signalled. Calling it again does
/// nothing.
pub fn cancel_oauth_flow(session: &mut CaptureSession) -> (r: bool)
    ensures
        r == (old(session)@.phase != Phase::Idle),
        final(session)@ == idle_after(old(session)@),
{
    let active = session.phase != Phase::Idle;
    session.clear();
    active
}

/// A code pasted by the user, bare or inside the redirect URL. With a state,
/// that state must be the attempt's CSRF token, or the submission is refused
/// and nothing changes. Returns whether the code reached the attempt: without
/// an active attempt, or after an earlier delivery, it is dropped.
pub fn submit_oauth_code(session: &mut CaptureSession, code_input: &str, state_input: Option<&str>) -> (r: Result<bool, FlowError>)
    ensures
        r == submitted(
            old(session)@,
            code_input@,
            match state_input {
                Some(s) => Some(s@),
                None => None,
            },
        ).0,
        final(session)@ == submitted(
            old(session)@,
            code_input@,
            match state_input {
                Some(s) => Some(s@),
                None => None,
            },
        ).1,
{
    if session.phase == Phase::Idle {
        return Ok(false);
    }
    if let Some(s) = state_input {
        if s.to_string() != session.csrf_state {
            return Err(FlowError::StateMismatch);
        }
    }
    let code = extract_manual_code(code_input);
    let attempt = session.attempt;
    let kept = session.deliver(attempt, Ok(code));
    Ok(kept)
}

/// Asking twice for the URL of an attempt that no waiter has claimed hands
/// out the attempt's URL both times and changes nothing, so no listener is
/// bound a second time.
pub proof fn prepare_twice_same_url(
    s: SessionView,
    auth_url: Seq<char>,
    redirect_uri: Seq<char>,
    csrf: Seq<char>,
)
    ensures
        ({
            let b = begun(s, auth_url, redirect_uri, csrf);
            let (r1, s1) = prepared(b);
            let (r2, s2) = prepared(s1);
            r1 == StepView::Reuse(auth_url) && r2 == r1 && s1 == b && s2 == b
        }),
{
}

/// Of two deliveries to a claimed attempt, the first is what the waiter
/// returns, whatever woke it. The second, from a listener or a manual
/// submission, is dropped without error and changes nothing; after the
/// outcome, deliveries are dropped too.
pub proof fn first_delivery_wins(
    s: SessionView,
    first: Result<Seq<char>, FlowError>,
    second: Result<Seq<char>, FlowError>,
    code_input: Seq<char>,
    ev: WaitEvent,
)
    requires
        s.phase == Phase::Consumed,
        s.delivered is None,
    ensures
        ({
            let a = s.attempt;
            let s1 = after_delivery(s, a, first);
            let (out, s2) = resolved(s1, a, ev);
            &&& accepts(s, a)
            &&& !accepts(s1, a)
            &&& after_delivery(s1, a, second) == s1
            &&& submitted(s1, code_input, None) == (Ok::<bool, FlowError>(false), s1)
            &&& out == Some(first)
            &&& s2.phase == Phase::Idle
            &&& !accepts(s2, a)
        }),
{
}

/// A claimed attempt that sees its deadline with nothing delivered ends with
/// `FlowTimedOut` and leaves the session idle; the next request for a URL
/// then binds new listeners and starts an attempt with a new number.
pub proof fn timeout_then_fresh_attempt(
    s: SessionView,
    auth_url: Seq<char>,
    redirect_uri: Seq<char>,
    csrf: Seq<char>,
)
    requires
        s.phase == Phase::Consumed,
        s.delivered is None,
    ensures
        resolved(s, s.attempt, WaitEvent::TimedOut) == (
            Some(Err::<Seq<char>, FlowError>(FlowError::FlowTimedOut)),
            idle_after(s),
        ),
        prepared(idle_after(s)) == (StepView::Bind, idle_after(s)),
        begun(idle_after(s), auth_url, redirect_uri, csrf).phase == Phase::Prepared,
        begun(idle_after(s), auth_url, redirect_uri, csrf).attempt != s.attempt,
{
}

/// A manual submission with a wrong state is refused with `StateMismatch`
/// and changes nothing; a later submission with the right state still
/// reaches the same wait, which returns its code.
pub proof fn mismatch_then_correct_submission(
    s: SessionView,
    code_input: Seq<char>,
    wrong: Seq<char>,
)
    requires
        s.phase == Phase::Consumed,
        s.delivered is None,
        wrong != s.csrf_state,
    ensures
        submitted(s, code_input, Some(wrong)) == (
            Err::<bool, FlowError>(FlowError::StateMismatch),
            s,
        ),
        ({
            let (r, s1) = submitted(s, code_input, Some(s.csrf_state));
            &&& r == Ok::<bool, FlowError>(true)
            &&& resolved(s1, s.attempt, WaitEvent::Woken).0 == Some(
                Ok::<Seq<char>, FlowError>(manual_code(code_input)),
            )
        }),
{
}

} // verus!
