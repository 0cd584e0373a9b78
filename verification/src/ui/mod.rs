//! The state of the live display and how input changes it.

pub mod frame;
pub mod layout;
pub mod session;

use crate::acc::{all_wf, Account};
use crate::parse::{AccList, DataSrc, SourceError};
use vstd::prelude::*;

verus! {

/// Milliseconds that one tick waits for input before the next frame.
pub const TICK_MILLIS: u64 = 25;

/// The keys that the display tells apart.
#[derive(Debug, Clone, Copy, PartialEq, Eq, Structural)]
pub enum KeyCode {
    /// A key that types a character.
    Char(char),
    /// The escape key.
    Esc,
    /// Any other key.
    Other,
}

/// What happened to a key.
#[derive(Debug, Clone, Copy, PartialEq, Eq, Structural)]
pub enum KeyKind {
    Press,
    Repeat,
    Release,
}

/// One event from the terminal.
#[derive(Debug, Clone, Copy, PartialEq, Eq, Structural)]
pub enum InputEvent {
    /// A key event.
    Key(KeyCode, KeyKind),
    /// Anything that is not a key event.
    Other,
}

/// The three switches of the display.
#[derive(Debug, Clone, Copy, PartialEq, Eq, Structural)]
pub struct Flags {
    /// The display stops before the next frame.
    pub quitting: bool,
    /// The codes of the next time step are shown too.
    pub peek_enabled: bool,
    /// The window for a new entry is open.
    pub modal_open: bool,
}

/// The switches of a display that has just started.
pub open spec fn initial_flags() -> Flags {
    Flags { quitting: false, peek_enabled: false, modal_open: false }
}

/// The switches after a key press. While the window for a new entry is open
/// only escape counts, and closes it. Otherwise `q` quits, `p` turns the peek
/// on or off and `n` opens the window; every other key changes nothing.
pub open spec fn after_key(flags: Flags, code: KeyCode) -> Flags {
    if flags.modal_open {
        if code == KeyCode::Esc {
            Flags { modal_open: false, ..flags }
        } else {
            flags
        }
    } else if code == KeyCode::Char('q') {
        Flags { quitting: true, ..flags }
    } else if code == KeyCode::Char('p') {
        Flags { peek_enabled: !flags.peek_enabled, ..flags }
    } else if code == KeyCode::Char('n') {
        Flags { modal_open: true, ..flags }
    } else {
        flags
    }
}

/// The key of the most recent press among the events, if there is one.
pub open spec fn latest_press(batch: Seq<InputEvent>) -> Option<KeyCode>
    decreases batch.len(),
{
    if batch.len() == 0 {
        None
    } else {
        match batch.last() {
            InputEvent::Key(code, KeyKind::Press) => Some(code),
            _ => latest_press(batch.drop_last()),
        }
    }
}

/// The switches after the events of one tick: only the most recent key press
/// is applied.
pub open spec fn after_batch(flags: Flags, batch: Seq<InputEvent>) -> Flags {
    match latest_press(batch) {
        Some(code) => after_key(flags, code),
        None => flags,
    }
}

/// Pressing `p` twice puts every switch back where it was.
pub proof fn lemma_peek_twice(flags: Flags)
    ensures
        after_key(after_key(flags, KeyCode::Char('p')), KeyCode::Char('p')) == flags,
{
}

/// After `n` and then escape the window for a new entry is closed, and the
/// other switches are as before.
pub proof fn lemma_open_then_close(flags: Flags)
    ensures
        after_key(after_key(flags, KeyCode::Char('n')), KeyCode::Esc) == (Flags {
            modal_open: false,
            ..flags
        }),
{
}

/// While the window for a new entry is open, no key but escape changes
/// anything.
pub proof fn lemma_modal_swallows(flags: Flags, code: KeyCode)
    requires
        flags.modal_open,
        code != KeyCode::Esc,
    ensures
        after_key(flags, code) == flags,
{
}

/// Events that hold no key press change nothing.
pub proof fn lemma_no_press_no_change(flags: Flags, batch: Seq<InputEvent>)
    requires
        forall|i: int|
            0 <= i < batch.len() ==> !(#[trigger] batch[i] matches InputEvent::Key(
                _,
                KeyKind::Press,
            )),
    ensures
        after_batch(flags, batch) == flags,
    decreases batch.len(),
{
    if batch.len() > 0 {
        assert(!(batch[batch.len() - 1] matches InputEvent::Key(_, KeyKind::Press)));
        assert forall|i: int| 0 <= i < batch.drop_last().len() implies !(
        #[trigger] batch.drop_last()[i] matches InputEvent::Key(_, KeyKind::Press)) by {
            assert(batch.drop_last()[i] == batch[i]);
        }
        lemma_no_press_no_change(flags, batch.drop_last());
    }
}

/// Why the loop of the display broke off.
#[derive(Debug, Clone, Copy, PartialEq, Eq, Structural)]
pub enum LoopError {
    /// A frame could not be drawn.
    RenderFailure,
    /// The terminal could not be asked for input.
    InputFailure,
}

/// What the outside work of one tick came to: the frame was not drawn, or
/// it was and the wait for input failed, or it was and the wait brought
/// these events (none, where the wait timed out).
#[derive(Debug, Clone)]
pub enum Tick {
    DrawFailed,
    PollFailed,
    Polled(Vec<InputEvent>),
}

/// A tick as plain values.
pub enum TickView {
    DrawFailed,
    PollFailed,
    Polled(Seq<InputEvent>),
}

impl View for Tick {
    type V = TickView;

    open spec fn view(&self) -> TickView {
        match *self {
            Tick::DrawFailed => TickView::DrawFailed,
            Tick::PollFailed => TickView::PollFailed,
            Tick::Polled(batch) => TickView::Polled(batch@),
        }
    }
}

impl DeepView for Tick {
    type V = TickView;

    open spec fn deep_view(&self) -> TickView {
        self@
    }
}

/// How a run of the loop over some ticks ended: it was told to quit, it
/// broke off at a failure, or the ticks ran out while it was still going.
#[derive(Debug, Clone, Copy, PartialEq, Eq, Structural)]
pub enum RunEnd {
    Quit,
    Failed(LoopError),
    Running,
}

/// The switches after one tick, or the failure that the tick ends in.
pub open spec fn after_tick(flags: Flags, tick: TickView) -> Result<Flags, LoopError> {
    match tick {
        TickView::DrawFailed => Err(LoopError::RenderFailure),
        TickView::PollFailed => Err(LoopError::InputFailure),
        TickView::Polled(batch) => Ok(after_batch(flags, batch)),
    }
}

/// The loop over a run of ticks: it stops before a tick once told to quit,
/// breaks off at the first tick that fails, and takes the ticks in order
/// until then. The result is the switches it stops with and how it ended.
pub open spec fn run_over(flags: Flags, ticks: Seq<TickView>) -> (Flags, RunEnd)
    decreases ticks.len(),
{
    if flags.quitting {
        (flags, RunEnd::Quit)
    } else if ticks.len() == 0 {
        (flags, RunEnd::Running)
    } else {
        match after_tick(flags, ticks[0]) {
            Err(e) => (flags, RunEnd::Failed(e)),
            Ok(next) => run_over(next, ticks.skip(1)),
        }
    }
}

/// A loop that was told to quit takes no further tick.
pub proof fn lemma_quit_is_final(flags: Flags, ticks: Seq<TickView>)
    requires
        flags.quitting,
    ensures
        run_over(flags, ticks) == (flags, RunEnd::Quit),
{
}

/// A failure in the first tick ends the run there, with that failure and
/// with the switches untouched.
pub proof fn lemma_failure_is_final(flags: Flags, ticks: Seq<TickView>)
    requires
        !flags.quitting,
        ticks.len() > 0,
        after_tick(flags, ticks[0]) is Err,
    ensures
        run_over(flags, ticks) == (flags, RunEnd::Failed(after_tick(flags, ticks[0])->Err_0)),
{
}

/// A run never ends with switches that its end contradicts: it ends in
/// `Quit` exactly when the switches say so.
pub proof fn lemma_run_end_agrees(flags: Flags, ticks: Seq<TickView>)
    ensures
        run_over(flags, ticks).1 == RunEnd::Quit <==> run_over(flags, ticks).0.quitting,
    decreases ticks.len(),
{
    if !flags.quitting && ticks.len() > 0 {
        match after_tick(flags, ticks[0]) {
            Err(_) => {},
            Ok(next) => {
                lemma_run_end_agrees(next, ticks.skip(1));
            },
        }
    }
}

/// The state of the display: its switches, where the accounts came from,
/// and the accounts in the order in which they are shown.
pub struct App {
    quitting: bool,
    is_peek: bool,
    is_new: bool,
    acc_src: DataSrc<String>,
    accs: Vec<Account>,
}

impl App {
    /// The switches of the display.
    pub closed spec fn flags(&self) -> Flags {
        Flags { quitting: self.quitting, peek_enabled: self.is_peek, modal_open: self.is_new }
    }

    /// Where the accounts came from.
    pub closed spec fn origin(&self) -> DataSrc<String> {
        self.acc_src
    }

    /// The accounts, in the order in which they are shown.
    pub closed spec fn accounts(&self) -> Seq<Account> {
        self.accs@
    }

    /// Every account of a display can be shown.
    #[verifier::type_invariant]
    spec fn shown(&self) -> bool {
        all_wf(self.accs@)
    }

    /// `k` is the first account of the list that cannot be shown.
    pub open spec fn first_unfit(accounts: Seq<Account>, k: int) -> bool {
        &&& 0 <= k < accounts.len()
        &&& !accounts[k].wf()
        &&& forall|j: int| 0 <= j < k ==> (#[trigger] accounts[j]).wf()
    }

    /// `r` is the display that starts on what a source handed out. A failed
    /// load is handed on; a list with an account that cannot be shown is
    /// refused at the first such account; any other list is taken whole, in its
    /// order, with every switch off.
    pub open spec fn assembled(
        src: DataSrc<String>,
        loaded: Result<Vec<Account>, SourceError>,
        r: Result<App, SourceError>,
    ) -> bool {
        match loaded {
            Err(e) => r matches Err(f) && f == e,
            Ok(accounts) => match r {
                Ok(app) => {
                    &&& all_wf(accounts@)
                    &&& app.accounts() == accounts@
                    &&& app.origin() == src
                    &&& app.flags() == initial_flags()
                },
                Err(SourceError::MalformedEntry(k)) => App::first_unfit(accounts@, k as int),
                Err(_) => false,
            },
        }
    }

    /// Starts a display on what a source handed out.
    pub fn assemble(src: DataSrc<String>, loaded: Result<Vec<Account>, SourceError>) -> (r: Result<
        App,
        SourceError,
    >)
        ensures
            App::assembled(src, loaded, r),
    {
        match loaded {
            Err(e) => Err(e),
            Ok(accounts) => match App::find_unfit(&accounts) {
                Some(k) => Err(SourceError::MalformedEntry(k)),
                None => Ok(
                    App {
                        quitting: false,
                        is_peek: false,
                        is_new: false,
                        acc_src: src,
                        accs: accounts,
                    },
                ),
            },
        }
    }

    /// Looks for the first account of a list that cannot be shown.
    pub fn find_unfit(accounts: &Vec<Account>) -> (found: Option<usize>)
        ensures
            match found {
                Some(k) => App::first_unfit(accounts@, k as int),
                None => all_wf(accounts@),
            },
    {
        let mut k: usize = 0;
        while k < accounts.len()
            invariant
                k <= accounts@.len(),
                forall|j: int| 0 <= j < k ==> (#[trigger] accounts@[j]).wf(),
            decreases accounts@.len() - k,
        {
            let account: &Account = &accounts[k];
            if account.name.as_str().is_empty() || account.key.len() == 0 || account.interval()
                == 0 {
                return Some(k);
            }
            k += 1;
        }
        None
    }

    /// Creates the display on the accounts of a source: the result is the
    /// display that starts on a descriptor and a list that the source may hand
    /// out. A display that comes back has every switch off and only accounts
    /// that can be shown.
    pub fn new<L: AccList>(inp: &L) -> (r: Result<App, SourceError>)
        ensures
            exists|src: DataSrc<String>, loaded: Result<Vec<Account>, SourceError>|
                #![trigger inp.describes(src), inp.hands_out(loaded)]
                inp.describes(src) && inp.hands_out(loaded) && App::assembled(src, loaded, r),
            r matches Ok(app) ==> app.flags() == initial_flags() && all_wf(app.accounts()),
    {
        let src: DataSrc<String> = inp.get_src();
        let loaded: Result<Vec<Account>, SourceError> = inp.get_accs();
        App::assemble(src, loaded)
    }

    /// Whether the display stops before the next frame.
    pub fn quitting(&self) -> (b: bool)
        ensures
            b == self.flags().quitting,
    {
        self.quitting
    }

    /// Whether the codes of the next time step are shown too.
    pub fn peek_enabled(&self) -> (b: bool)
        ensures
            b == self.flags().peek_enabled,
    {
        self.is_peek
    }

    /// Whether the window for a new entry is open.
    pub fn modal_open(&self) -> (b: bool)
        ensures
            b == self.flags().modal_open,
    {
        self.is_new
    }

    /// The accounts, in the order in which they are shown.
    pub fn accs(&self) -> (accounts: &Vec<Account>)
        ensures
            accounts@ == self.accounts(),
            all_wf(accounts@),
    {
        proof {
            use_type_invariant(self);
        }
        &self.accs
    }

    /// Where the accounts came from.
    pub fn source(&self) -> (src: &DataSrc<String>)
        ensures
            *src == self.origin(),
    {
        &self.acc_src
    }

    /// Applies one key press.
    pub fn press(&mut self, code: KeyCode)
        ensures
            final(self).flags() == after_key(old(self).flags(), code),
            final(self).accounts() == old(self).accounts(),
            final(self).origin() == old(self).origin(),
    {
        proof {
            use_type_invariant(&*self);
        }
        if self.is_new {
            match code {
                KeyCode::Esc => {
                    self.is_new = false;
                },
                _ => {},
            }
        } else {
            match code {
                KeyCode::Char(c) => {
                    if c == 'q' {
                        self.quitting = true;
                    } else if c == 'p' {
                        self.is_peek = !self.is_peek;
                    } else if c == 'n' {
                        self.is_new = true;
                    }
                },
                _ => {},
            }
        }
    }

    /// Takes in what one tick came to. A tick that failed leaves the display
    /// as it was and gives the failure; any other has its events handled.
    pub fn step(&mut self, tick: &Tick) -> (r: Result<(), LoopError>)
        ensures
            match after_tick(old(self).flags(), tick@) {
                Ok(flags) => r is Ok && final(self).flags() == flags,
                Err(e) => r == Err::<(), LoopError>(e) && final(self).flags() == old(self).flags(),
            },
            final(self).accounts() == old(self).accounts(),
            final(self).origin() == old(self).origin(),
    {
        match tick {
            Tick::DrawFailed => Err(LoopError::RenderFailure),
            Tick::PollFailed => Err(LoopError::InputFailure),
            Tick::Polled(batch) => {
                self.handle_events(batch);
                Ok(())
            },
        }
    }

    /// Runs the loop over ticks whose outside work has been done already, in
    /// their order, and says how it ended.
    pub fn run(&mut self, ticks: &Vec<Tick>) -> (end: RunEnd)
        ensures
            (final(self).flags(), end) == run_over(old(self).flags(), ticks.deep_view()),
            final(self).accounts() == old(self).accounts(),
            final(self).origin() == old(self).origin(),
    {
        let ghost all: Seq<TickView> = ticks.deep_view();
        let mut i: usize = 0;
        assert(all.skip(0) =~= all);
        loop
            invariant
                i <= ticks@.len(),
                all == ticks.deep_view(),
                run_over(old(self).flags(), all) == run_over(self.flags(), all.skip(i as int)),
                self.accounts() == old(self).accounts(),
                self.origin() == old(self).origin(),
            decreases ticks@.len() - i,
        {
            if self.quitting {
                return RunEnd::Quit;
            }
            if i == ticks.len() {
                return RunEnd::Running;
            }
            proof {
                assert(all.skip(i as int)[0] == ticks@[i as int]@);
                assert(all.skip(i as int).skip(1) =~= all.skip(i + 1));
            }
            match self.step(&ticks[i]) {
                Ok(()) => {},
                Err(e) => {
                    return RunEnd::Failed(e);
                },
            }
            i += 1;
        }
    }

    /// Handles the events that came in during one tick: the most recent key
    /// press among them is applied, everything else is ignored.
    pub fn handle_events(&mut self, batch: &Vec<InputEvent>)
        ensures
            final(self).flags() == after_batch(old(self).flags(), batch@),
            final(self).accounts() == old(self).accounts(),
            final(self).origin() == old(self).origin(),
    {
        let mut i: usize = batch.len();
        assert(batch@.take(i as int) =~= batch@);
        while i > 0
            invariant
                i <= batch@.len(),
                latest_press(batch@) == latest_press(batch@.take(i as int)),
                *self == *old(self),
            decreases i,
        {
            let ghost seen: Seq<InputEvent> = batch@.take(i as int);
            proof {
                assert(seen.drop_last() =~= batch@.take(i - 1));
                assert(seen.last() == batch@[i - 1]);
            }
            i -= 1;
            match batch[i] {
                InputEvent::Key(code, KeyKind::Press) => {
                    self.press(code);
                    return ;
                },
                _ => {},
            }
        }
        assert(batch@.take(0) =~= Seq::<InputEvent>::empty());
    }
}

} // verus!
