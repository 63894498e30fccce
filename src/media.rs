//! Lazily fetched resources: the `MaybeLoaded` state machine, advanced one
//! step per tick, and the media kinds that a document embeds.
use vstd::prelude::*;

verus! {

/// Whether an HTTP status code is a success (2xx).
pub open spec fn status_success(code: u16) -> bool {
    200 <= code <= 299
}

/// Whether an HTTP status code is a success (2xx).
pub fn is_success(code: u16) -> (r: bool)
    ensures
        r == status_success(code),
{
    200 <= code && code <= 299
}

/// The loading state of a resource fetched from a URL: `T` is the decoded
/// resource, `E` a decoding error and `F` a download failure.
pub enum MaybeLoaded<T, E, F> {
    NotStarted(String),
    Working(String),
    Done(String, Result<T, E>),
    Failed(String, F),
    BadStatus(u16),
}

/// What a tick asks of the downloader.
pub enum TickRequest {
    /// Register a download of this URL.
    Start(String),
    /// Poll the download of this URL.
    Poll(String),
    /// Nothing: the state is terminal.
    Idle,
}

/// What the downloader reports back to a tick.
pub enum TickEvent<T, E, F> {
    /// The download was registered.
    Started,
    /// The download has not completed.
    Pending,
    /// The download failed.
    FetchFailed(F),
    /// The response arrived with this status; on success the body follows.
    Status(u16),
    /// The body of a successful response, decoded.
    Body(Result<T, E>),
}

impl<T, E, F> MaybeLoaded<T, E, F> {
    /// No tick moves a terminal state.
    pub open spec fn is_terminal(&self) -> bool {
        match self {
            MaybeLoaded::Done(..) | MaybeLoaded::Failed(..) | MaybeLoaded::BadStatus(_) => true,
            _ => false,
        }
    }

    /// How many steps at most separate the state from a terminal one.
    pub open spec fn distance(&self) -> nat {
        match self {
            MaybeLoaded::NotStarted(_) => 2,
            MaybeLoaded::Working(_) => 1,
            _ => 0,
        }
    }

    /// The state after one tick that received `ev`.
    pub open spec fn step(self, ev: TickEvent<T, E, F>) -> Self {
        match (self, ev) {
            (MaybeLoaded::NotStarted(u), TickEvent::Started) => MaybeLoaded::Working(u),
            (MaybeLoaded::Working(u), TickEvent::FetchFailed(e)) => MaybeLoaded::Failed(u, e),
            (MaybeLoaded::Working(u), TickEvent::Status(c)) => if status_success(c) {
                MaybeLoaded::Working(u)
            } else {
                MaybeLoaded::BadStatus(c)
            },
            (MaybeLoaded::Working(u), TickEvent::Body(r)) => MaybeLoaded::Done(u, r),
            (s, _) => s,
        }
    }

    /// What the next tick must ask of the downloader.
    pub fn request(&self) -> (r: TickRequest)
        ensures
            *self matches MaybeLoaded::NotStarted(u) ==> r == TickRequest::Start(u),
            *self matches MaybeLoaded::Working(u) ==> r == TickRequest::Poll(u),
            self.is_terminal() ==> r == TickRequest::Idle,
    {
        match self {
            MaybeLoaded::NotStarted(u) => TickRequest::Start(u.clone()),
            MaybeLoaded::Working(u) => TickRequest::Poll(u.clone()),
            _ => TickRequest::Idle,
        }
    }

    /// Advances the state by the downloader's report: at most one transition.
    pub fn tick(&mut self, ev: TickEvent<T, E, F>)
        ensures
            *final(self) == old(self).step(ev),
    {
        let mut cur = MaybeLoaded::BadStatus(0);
        std::mem::swap(self, &mut cur);
        *self = match (cur, ev) {
            (MaybeLoaded::NotStarted(u), TickEvent::Started) => MaybeLoaded::Working(u),
            (MaybeLoaded::Working(u), TickEvent::FetchFailed(e)) => MaybeLoaded::Failed(u, e),
            (MaybeLoaded::Working(u), TickEvent::Status(c)) => if is_success(c) {
                MaybeLoaded::Working(u)
            } else {
                MaybeLoaded::BadStatus(c)
            },
            (MaybeLoaded::Working(u), TickEvent::Body(r)) => MaybeLoaded::Done(u, r),
            (s, _) => s,
        };
    }
}

/// A tick never moves away from a terminal state, and never moves further
/// from one.
pub proof fn lemma_tick_terminal_fixed<T, E, F>(s: MaybeLoaded<T, E, F>, ev: TickEvent<T, E, F>)
    ensures
        s.is_terminal() ==> s.step(ev) == s,
        s.step(ev).distance() <= s.distance(),
{
}

/// From `NotStarted(url)`, a registered download followed by any completion
/// (a failure, a refused status, or a body) reaches a terminal state.
pub proof fn lemma_tick_reaches_terminal<T, E, F>(url: String, outcome: TickEvent<T, E, F>)
    requires
        match outcome {
            TickEvent::FetchFailed(_) | TickEvent::Body(_) => true,
            TickEvent::Status(c) => !status_success(c),
            _ => false,
        },
    ensures
        MaybeLoaded::<T, E, F>::NotStarted(url).step(TickEvent::Started) == MaybeLoaded::<T, E, F>::Working(url),
        MaybeLoaded::<T, E, F>::NotStarted(url).step(TickEvent::Started).step(outcome).is_terminal(),
{
}

/// A video downloaded to a local file.
pub struct Video {
    pub cache_path: String,
}

/// Why a video could not be prepared.
pub enum VideoError {
    /// Built without a user interface to play it.
    NoGUI,
    /// Writing the local copy failed, with the reason.
    IoError(String),
}

/// An audio file downloaded to a local file.
pub struct Audio {
    pub cache_path: String,
}

/// Why an audio file could not be prepared.
pub enum AudioError {
    /// Built without a user interface to play it.
    NoGUI,
    /// Writing the local copy failed, with the reason.
    IoError(String),
}

} // verus!
