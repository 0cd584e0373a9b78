//! The terminal session: when the terminal is taken over and given back.

use vstd::prelude::*;

verus! {

/// The state of the terminal, as far as the display changes it.
#[derive(Debug, Clone, Copy, PartialEq, Eq, Structural)]
pub enum Mode {
    /// The terminal has not been touched.
    Untouched,
    /// The terminal is in raw mode, on the alternate screen.
    TakenOver,
    /// The terminal has been given back.
    Restored,
}

/// What the program can ask of a session.
#[derive(Debug, Clone, Copy, PartialEq, Eq, Structural)]
pub enum Request {
    /// To take the terminal over.
    Enter,
    /// To give the terminal back.
    Leave,
}

/// The mode after a request. An untouched terminal can be taken over and a
/// terminal that was taken over can be given back; any other request changes
/// nothing.
pub open spec fn mode_after(mode: Mode, request: Request) -> Mode {
    match (mode, request) {
        (Mode::Untouched, Request::Enter) => Mode::TakenOver,
        (Mode::TakenOver, Request::Leave) => Mode::Restored,
        _ => mode,
    }
}

/// Whether a request is to be carried out on the terminal.
pub open spec fn granted(mode: Mode, request: Request) -> bool {
    mode_after(mode, request) != mode
}

/// The mode after a run of requests, from an untouched terminal.
pub open spec fn mode_at_end(requests: Seq<Request>) -> Mode
    decreases requests.len(),
{
    if requests.len() == 0 {
        Mode::Untouched
    } else {
        mode_after(mode_at_end(requests.drop_last()), requests.last())
    }
}

/// How often a run of requests, from an untouched terminal, has the terminal
/// given back.
pub open spec fn restorations(requests: Seq<Request>) -> nat
    decreases requests.len(),
{
    if requests.len() == 0 {
        0
    } else {
        let before = restorations(requests.drop_last());
        if requests.last() == Request::Leave && granted(
            mode_at_end(requests.drop_last()),
            Request::Leave,
        ) {
            before + 1
        } else {
            before
        }
    }
}

/// The terminal is given back once where it ends restored, and not at all
/// otherwise: never twice.
pub proof fn lemma_restored_at_most_once(requests: Seq<Request>)
    ensures
        restorations(requests) == if mode_at_end(requests) == Mode::Restored {
            1nat
        } else {
            0nat
        },
    decreases requests.len(),
{
    if requests.len() > 0 {
        lemma_restored_at_most_once(requests.drop_last());
    }
}

/// Once the terminal has been taken over, it is given back exactly once by
/// the first request to leave that follows, however many more come after and
/// on whichever path they are made.
pub proof fn lemma_restored_exactly_once(requests: Seq<Request>, enter: int, leave: int)
    requires
        0 <= enter < leave < requests.len(),
        requests[enter] == Request::Enter,
        requests[leave] == Request::Leave,
    ensures
        mode_at_end(requests) == Mode::Restored,
        restorations(requests) == 1,
    decreases requests.len(),
{
    let earlier = requests.drop_last();
    if leave < requests.len() - 1 {
        assert(earlier[enter] == requests[enter]);
        assert(earlier[leave] == requests[leave]);
        lemma_restored_exactly_once(earlier, enter, leave);
    } else {
        assert(earlier[enter] == requests[enter]);
        lemma_entered_stays(earlier, enter);
    }
    lemma_restored_at_most_once(requests);
}

/// After a request to enter the terminal is never untouched again.
pub proof fn lemma_entered_stays(requests: Seq<Request>, enter: int)
    requires
        0 <= enter < requests.len(),
        requests[enter] == Request::Enter,
    ensures
        mode_at_end(requests) != Mode::Untouched,
    decreases requests.len(),
{
    let earlier = requests.drop_last();
    if enter < requests.len() - 1 {
        assert(earlier[enter] == requests[enter]);
        lemma_entered_stays(earlier, enter);
    }
}

/// A terminal session: it keeps track of the terminal's mode and says which
/// requests are to be carried out.
#[derive(Debug)]
pub struct Session {
    mode: Mode,
}

impl Session {
    /// The mode that the terminal is in.
    pub closed spec fn mode(&self) -> Mode {
        self.mode
    }

    /// A session on a terminal that has not been touched.
    pub fn new() -> (session: Session)
        ensures
            session.mode() == Mode::Untouched,
    {
        Session { mode: Mode::Untouched }
    }

    /// Asks to take the terminal over. The answer is whether to do so now.
    pub fn enter(&mut self) -> (go: bool)
        ensures
            go == granted(old(self).mode(), Request::Enter),
            final(self).mode() == mode_after(old(self).mode(), Request::Enter),
    {
        match self.mode {
            Mode::Untouched => {
                self.mode = Mode::TakenOver;
                true
            },
            _ => false,
        }
    }

    /// Asks to give the terminal back. The answer is whether to do so now:
    /// it is yes the first time after the terminal was taken over, and no
    /// ever after.
    pub fn leave(&mut self) -> (go: bool)
        ensures
            go == granted(old(self).mode(), Request::Leave),
            final(self).mode() == mode_after(old(self).mode(), Request::Leave),
    {
        match self.mode {
            Mode::TakenOver => {
                self.mode = Mode::Restored;
                true
            },
            _ => false,
        }
    }

    /// Whether a message may be printed: not while the terminal is taken over.
    pub fn may_print(&self) -> (ok: bool)
        ensures
            ok == (self.mode() != Mode::TakenOver),
    {
        match self.mode {
            Mode::TakenOver => false,
            _ => true,
        }
    }
}

} // verus!
