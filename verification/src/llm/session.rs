//! Sessions with the language models, which end when they are released or their time is over.
use vstd::prelude::*;

use crate::llm::error::Error;

verus! {

/// How a session is opened.
#[derive(Clone, Debug, Default)]
pub struct LlmSessionOptions {
    /// After how many milliseconds it ends by itself.
    pub max_duration_ms: Option<u64>,
    pub name: Option<String>,
}

/// The reason that a released session gives.
pub const SESSION_RELEASED_REASON: &'static str = "session released";

/// A session with the models that `llm` stands for.
#[derive(Debug)]
pub struct LlmSession<L> {
    llm: L,
    name: String,
    deadline_ms: Option<u64>,
    released: bool,
    cancelled: bool,
}

impl<L> LlmSession<L> {
    /// What the session asks.
    pub closed spec fn model(self) -> L {
        self.llm
    }

    /// The name of the session.
    pub closed spec fn label(self) -> Seq<char> {
        self.name@
    }

    /// After how many milliseconds the session ends by itself.
    pub closed spec fn deadline_ms(self) -> Option<u64> {
        self.deadline_ms
    }

    /// Whether the session was released.
    pub closed spec fn is_released(self) -> bool {
        self.released
    }

    /// Whether what the session asked for is called off.
    pub closed spec fn is_cancelled(self) -> bool {
        self.cancelled
    }

    /// Whether the session can be used.
    pub open spec fn is_open(self) -> bool {
        !self.is_released() && !self.is_cancelled()
    }

    /// A released session has called off what it asked for.
    pub open spec fn wf(self) -> bool {
        self.is_released() ==> self.is_cancelled()
    }

    /// Opens a session.
    pub fn new(llm: L, options: LlmSessionOptions) -> (s: Self)
        ensures
            s.wf(),
            s.is_open(),
            s.model() == llm,
            s.deadline_ms() == options.max_duration_ms,
            s.label() == match options.name {
                Some(n) => n@,
                None => "unnamed"@,
            },
    {
        let name: String = match options.name {
            Some(n) => n,
            None => "unnamed".to_owned(),
        };
        LlmSession {
            llm,
            name,
            deadline_ms: options.max_duration_ms,
            released: false,
            cancelled: false,
        }
    }

    /// The name of the session.
    pub fn name(&self) -> (r: &str)
        ensures
            r@ == self.label(),
    {
        self.name.as_str()
    }

    /// What the session asks.
    pub fn llm(&self) -> (r: &L)
        ensures
            *r == self.model(),
    {
        &self.llm
    }

    /// Whether what the session asked for is called off.
    pub fn cancelled(&self) -> (r: bool)
        ensures
            r == self.is_cancelled(),
    {
        self.cancelled
    }

    /// Whether the session can be used.
    pub fn is_valid(&self) -> (r: bool)
        ensures
            r == self.is_open(),
    {
        !self.released && !self.cancelled
    }

    /// Releases the session. Only the first call has an effect.
    pub fn release(&mut self)
        requires
            old(self).wf(),
        ensures
            final(self).wf(),
            final(self).is_released(),
            final(self).is_cancelled(),
            final(self).model() == old(self).model(),
            final(self).label() == old(self).label(),
            final(self).deadline_ms() == old(self).deadline_ms(),
            old(self).is_released() ==> *final(self) == *old(self),
    {
        if !self.released {
            self.released = true;
            self.cancelled = true;
        }
    }

    /// The time of the session is over. A released session is left as it is.
    pub fn expire(&mut self)
        requires
            old(self).wf(),
        ensures
            final(self).wf(),
            final(self).is_cancelled(),
            final(self).is_released() == old(self).is_released(),
            final(self).model() == old(self).model(),
            final(self).label() == old(self).label(),
            final(self).deadline_ms() == old(self).deadline_ms(),
            old(self).is_released() ==> *final(self) == *old(self),
    {
        if !self.released {
            self.cancelled = true;
        }
    }

    /// The session has been open for so many milliseconds: its time is over where that is as long
    /// as it may last.
    pub fn elapse(&mut self, elapsed_ms: u64)
        requires
            old(self).wf(),
        ensures
            final(self).wf(),
            final(self).is_cancelled() == (old(self).is_cancelled() || (old(
                self,
            ).deadline_ms() matches Some(d) && elapsed_ms >= d)),
            final(self).is_released() == old(self).is_released(),
            final(self).model() == old(self).model(),
            final(self).label() == old(self).label(),
            final(self).deadline_ms() == old(self).deadline_ms(),
    {
        match self.deadline_ms {
            Some(d) => if elapsed_ms >= d {
                self.expire();
            },
            None => {},
        }
    }

    /// Refuses to go on with a session that cannot be used.
    pub fn check_valid(&self) -> (r: Result<(), Error>)
        ensures
            r is Ok <==> self.is_open(),
            r is Err ==> r->Err_0 is SessionReleased && r->Err_0->SessionReleased_0@
                == self.label(),
    {
        if self.is_valid() {
            Ok(())
        } else {
            Err(Error::SessionReleased(self.name.clone()))
        }
    }
}

/// Something that can happen to a session.
#[derive(Clone, Copy, Debug, PartialEq, Eq, Structural)]
pub enum SessionEvent {
    Released,
    Expired,
}

/// What a session is after an event: whether it is released and whether it is called off.
pub open spec fn after_event(state: (bool, bool), event: SessionEvent) -> (bool, bool) {
    match event {
        SessionEvent::Released => if state.0 {
            state
        } else {
            (true, true)
        },
        SessionEvent::Expired => if state.0 {
            state
        } else {
            (false, true)
        },
    }
}

/// Lets something happen to a session.
pub fn apply_event<L>(s: &mut LlmSession<L>, event: SessionEvent)
    requires
        old(s).wf(),
    ensures
        final(s).wf(),
        (final(s).is_released(), final(s).is_cancelled()) == after_event(
            (old(s).is_released(), old(s).is_cancelled()),
            event,
        ),
        final(s).model() == old(s).model(),
        final(s).label() == old(s).label(),
        final(s).deadline_ms() == old(s).deadline_ms(),
{
    match event {
        SessionEvent::Released => s.release(),
        SessionEvent::Expired => s.expire(),
    }
}

/// What a session is after some events.
pub open spec fn after_events(state: (bool, bool), events: Seq<SessionEvent>) -> (bool, bool)
    decreases events.len(),
{
    if events.len() == 0 {
        state
    } else {
        after_event(after_events(state, events.drop_last()), events.last())
    }
}

/// Releasing a session twice is releasing it once.
pub proof fn law_release_is_idempotent(state: (bool, bool))
    ensures
        after_event(after_event(state, SessionEvent::Released), SessionEvent::Released)
            == after_event(state, SessionEvent::Released),
{
}

/// A session that cannot be used cannot be used again, whatever happens to it; and any event
/// makes it so.
pub proof fn law_closed_sessions_stay_closed(state: (bool, bool), events: Seq<SessionEvent>)
    requires
        state.0 ==> state.1,
        state.1 || events.len() > 0,
    ensures
        after_events(state, events).1,
    decreases events.len(),
{
    if events.len() > 0 {
        let before = events.drop_last();
        if state.1 || before.len() > 0 {
            law_closed_sessions_stay_closed(state, before);
        } else {
            assert(after_events(state, before) == state);
        }
    }
}

} // verus!
