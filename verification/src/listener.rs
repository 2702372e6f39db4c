//! Out-of-band terminal events (window title, bell) captured into a state
//! shared between the emulator and the screen.
//!
//! Only the title and the bell are kept; clipboard, colour and PTY-write
//! requests from the child are dropped, so untrusted output cannot drive
//! host-side actions.
use vstd::prelude::*;
use std::sync::{Arc, Mutex};
use std::time::Instant;

verus! {

/// `std::time::Instant`, carried through as an opaque value.
#[verifier::external_type_specification]
#[verifier::external_body]
pub struct ExInstant(Instant);

/// `std::sync::Mutex`, carried through as an opaque value.
#[verifier::external_type_specification]
#[verifier::external_body]
#[verifier::reject_recursive_types(T)]
pub struct ExMutex<T: ?Sized>(Mutex<T>);

/// An emulator event, as far as the title and the bell are concerned.
#[derive(Debug)]
pub enum TermEvent {
    /// The child set the window title (OSC 0/2).
    Title(String),
    /// The child reset the window title.
    ResetTitle,
    /// The child rang the bell (BEL).
    Bell,
    /// Anything else: wake-ups, cursor changes, clipboard and colour
    /// requests, PTY writes.
    Other,
}

/// What the emulator has told about a child outside its screen contents.
#[derive(Debug)]
pub struct TerminalState {
    /// The latest title the child set, if any.
    pub title: Option<String>,
    /// When the child last rang the bell.
    pub bell_at: Option<Instant>,
}

/// The title a state holds.
pub open spec fn title_of(s: &TerminalState) -> Option<Seq<char>> {
    match s.title {
        Some(t) => Some(t@),
        None => None,
    }
}

impl TerminalState {
    /// No title and no bell yet.
    pub fn new() -> (s: TerminalState)
        ensures
            s.title is None,
            s.bell_at is None,
    {
        TerminalState { title: None, bell_at: None }
    }

    /// Applies one event received at `now`: a title is stored, a reset
    /// clears it, a bell records `now`; other events change nothing.
    pub fn apply(&mut self, event: TermEvent, now: Instant)
        ensures
            match event {
                TermEvent::Title(t) => title_of(final(self)) == Some(t@)
                    && final(self).bell_at == old(self).bell_at,
                TermEvent::ResetTitle => final(self).title is None && final(self).bell_at == old(self).bell_at,
                TermEvent::Bell => title_of(final(self)) == title_of(old(self))
                    && final(self).bell_at == Some(now),
                TermEvent::Other => title_of(final(self)) == title_of(old(self))
                    && final(self).bell_at == old(self).bell_at,
            },
    {
        match event {
            TermEvent::Title(t) => {
                self.title = Some(t);
            },
            TermEvent::ResetTitle => {
                self.title = None;
            },
            TermEvent::Bell => {
                self.bell_at = Some(now);
            },
            TermEvent::Other => {},
        }
    }
}

/// `Instant::now`: the current time; nothing is claimed of its value.
#[verifier::external_body]
fn instant_now() -> (t: Instant) {
    Instant::now()
}

/// `Mutex::new`: a lock around the given state.  Nothing is claimed of
/// what later reads see: the state is shared and may change through other
/// handles.
#[verifier::external_body]
fn new_mutex(s: TerminalState) -> (r: Mutex<TerminalState>) {
    Mutex::new(s)
}

/// `Mutex::lock` on the shared state, then `update` on the locked state
/// while the guard is held; a poisoned lock is left as it is and `update`
/// is not called.  Nothing is claimed of the shared state afterwards: it is
/// reached through `Arc`/`Mutex`, which the verifier does not model, and
/// other handles may change it.
#[verifier::external_body]
fn with_locked<F: FnOnce(&mut TerminalState)>(state: &Arc<Mutex<TerminalState>>, update: F) {
    if let Ok(mut s) = state.lock() {
        update(&mut s)
    }
}

/// `Arc::clone`: another handle on the same shared state.
#[verifier::external_body]
fn share(state: &Arc<Mutex<TerminalState>>) -> (r: Arc<Mutex<TerminalState>>)
    ensures
        r == *state,
{
    Arc::clone(state)
}

/// The listener wired into each emulator: holds the process's shared
/// terminal state so the screen can read what the emulator thread wrote.
#[derive(Debug)]
pub struct FrostListener {
    state: Arc<Mutex<TerminalState>>,
}

impl FrostListener {
    /// A listener that writes into the given shared state.
    pub fn new(state: Arc<Mutex<TerminalState>>) -> (l: FrostListener)
        ensures
            l.shared() == state,
    {
        FrostListener { state }
    }

    /// A listener whose state nothing else holds.
    pub fn dummy() -> (l: FrostListener) {
        FrostListener::new(Arc::new(new_mutex(TerminalState::new())))
    }

    /// The state this listener writes into.
    pub closed spec fn shared(&self) -> Arc<Mutex<TerminalState>> {
        self.state
    }

    /// Another handle on the shared state.
    pub fn state(&self) -> (s: Arc<Mutex<TerminalState>>)
        ensures
            s == self.shared(),
    {
        share(&self.state)
    }

    /// Records an event from the emulator in the shared state.
    pub fn send_event(&self, event: TermEvent) {
        let now = instant_now();
        with_locked(&self.state, move |s: &mut TerminalState| s.apply(event, now));
    }
}

} // verus!
