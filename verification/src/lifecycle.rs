//! The life cycle of a native library: it is set up once, at the first use,
//! and what that set-up gave is kept for every later use.
//!
//! The functions of this module decide; the caller holds the lock, does the
//! set-up that is asked for, and builds the handles.

use vstd::prelude::*;
use crate::types::opt_text;

verus! {

/// Where the native library was found.
#[derive(Debug)]
pub struct LibraryContext {
    /// The directory of the library; nothing where the system library is used.
    pub lib_dir: Option<String>,
}

/// The state of the native library.
#[derive(Debug)]
pub enum NativeLibraryState {
    /// The library has not been used yet.
    Uninitialized,
    /// The set-up succeeded.
    Initialized(LibraryContext),
    /// The set-up failed, with this error.
    Failed(String),
}

/// What is to be done for a use of the library.
#[derive(Debug)]
pub enum Acquisition {
    /// The set-up is to be done now, and its outcome reported.
    SetUp,
    /// A new handle is to be bound to this context.
    Bind(LibraryContext),
    /// The use fails with this message.
    Fail(String),
}

/// The mathematical form of the state of the native library.
pub enum StateView {
    Uninitialized,
    Initialized(Option<Seq<char>>),
    Failed(Seq<char>),
}

/// The mathematical form of what is to be done.
pub enum AcquisitionView {
    SetUp,
    Bind(Option<Seq<char>>),
    Fail(Seq<char>),
}

impl View for NativeLibraryState {
    type V = StateView;

    open spec fn view(&self) -> StateView {
        match self {
            NativeLibraryState::Uninitialized => StateView::Uninitialized,
            NativeLibraryState::Initialized(c) => StateView::Initialized(opt_text(c.lib_dir)),
            NativeLibraryState::Failed(e) => StateView::Failed(e@),
        }
    }
}

impl View for Acquisition {
    type V = AcquisitionView;

    open spec fn view(&self) -> AcquisitionView {
        match self {
            Acquisition::SetUp => AcquisitionView::SetUp,
            Acquisition::Bind(c) => AcquisitionView::Bind(opt_text(c.lib_dir)),
            Acquisition::Fail(m) => AcquisitionView::Fail(m@),
        }
    }
}

/// A message made of a label, the context of the use in parentheses, and
/// the error behind a colon.
pub open spec fn failure_message(label: Seq<char>, context: Seq<char>, error: Seq<char>) -> Seq<
    char,
> {
    label + " ("@ + context + "): "@ + error
}

/// What is to be done for a use in a state: the set-up at the first use, a
/// new handle once the set-up has succeeded, and the failure that is kept
/// once it has failed.
pub open spec fn plan(state: StateView, context: Seq<char>) -> AcquisitionView {
    match state {
        StateView::Uninitialized => AcquisitionView::SetUp,
        StateView::Initialized(dir) => AcquisitionView::Bind(dir),
        StateView::Failed(error) => AcquisitionView::Fail(
            failure_message("Pdfium initialization previously failed"@, context, error),
        ),
    }
}

/// The state after a set-up has ended: only the state before the first use
/// changes, to what the set-up gave.
pub open spec fn after_set_up(state: StateView, outcome: Result<Option<Seq<char>>, Seq<char>>) -> StateView {
    match state {
        StateView::Uninitialized => match outcome {
            Ok(dir) => StateView::Initialized(dir),
            Err(error) => StateView::Failed(error),
        },
        _ => state,
    }
}

/// What the use that did the set-up comes to: the context to bind a handle
/// to, or the message of the failure.
pub open spec fn set_up_result(
    state: StateView,
    outcome: Result<Option<Seq<char>>, Seq<char>>,
    context: Seq<char>,
) -> Result<Option<Seq<char>>, Seq<char>> {
    match state {
        StateView::Uninitialized => match outcome {
            Ok(dir) => Ok(dir),
            Err(error) => Err(failure_message("Pdfium extraction failed"@, context, error)),
        },
        StateView::Initialized(dir) => Ok(dir),
        StateView::Failed(error) => Err(
            failure_message("Pdfium initialization previously failed"@, context, error),
        ),
    }
}

/// The state after a sequence of set-ups has ended, one after the other.
pub open spec fn after_set_ups(state: StateView, outcomes: Seq<Result<Option<Seq<char>>, Seq<char>>>) -> StateView
    decreases outcomes.len(),
{
    if outcomes.len() == 0 {
        state
    } else {
        after_set_up(after_set_ups(state, outcomes.drop_last()), outcomes.last())
    }
}

/// Once the set-up has failed, every later use fails with the error that
/// is kept and asks for no set-up, and nothing changes the state.
pub proof fn lemma_failure_is_sticky(
    error: Seq<char>,
    outcomes: Seq<Result<Option<Seq<char>>, Seq<char>>>,
    context: Seq<char>,
)
    ensures
        after_set_ups(StateView::Failed(error), outcomes) == StateView::Failed(error),
        plan(after_set_ups(StateView::Failed(error), outcomes), context) == AcquisitionView::Fail(
            failure_message("Pdfium initialization previously failed"@, context, error),
        ),
    decreases outcomes.len(),
{
    if outcomes.len() > 0 {
        lemma_failure_is_sticky(error, outcomes.drop_last(), context);
    }
}

/// Once the set-up has succeeded, every later use binds a handle to the
/// context that is kept, and nothing changes the state.
pub proof fn lemma_context_is_kept(
    dir: Option<Seq<char>>,
    outcomes: Seq<Result<Option<Seq<char>>, Seq<char>>>,
    context: Seq<char>,
)
    ensures
        after_set_ups(StateView::Initialized(dir), outcomes) == StateView::Initialized(dir),
        plan(after_set_ups(StateView::Initialized(dir), outcomes), context)
            == AcquisitionView::Bind(dir),
    decreases outcomes.len(),
{
    if outcomes.len() > 0 {
        lemma_context_is_kept(dir, outcomes.drop_last(), context);
    }
}

/// A state changes only before the first use, and then to the outcome of
/// the set-up.
pub proof fn lemma_transitions(state: StateView, outcome: Result<Option<Seq<char>>, Seq<char>>)
    ensures
        after_set_up(state, outcome) != state ==> state == StateView::Uninitialized,
        state == StateView::Uninitialized ==> after_set_up(state, outcome) != state,
{
}

fn message(label: &str, context: &str, error: &str) -> (r: String)
    ensures
        r@ == failure_message(label@, context@, error@),
{
    let mut r = String::from_str(label);
    r.append(" (");
    r.append(context);
    r.append("): ");
    r.append(error);
    r
}

impl LibraryContext {
    /// A copy of the context.
    pub fn duplicate(&self) -> (r: LibraryContext)
        ensures
            opt_text(r.lib_dir) == opt_text(self.lib_dir),
    {
        LibraryContext {
            lib_dir: match &self.lib_dir {
                Some(d) => Some(d.clone()),
                None => None,
            },
        }
    }
}

impl NativeLibraryState {
    /// The state before the first use.
    pub fn new() -> (r: Self)
        ensures
            r@ == StateView::Uninitialized,
    {
        NativeLibraryState::Uninitialized
    }

    /// Decides what is to be done for a use of the library in this state.
    pub fn begin_acquire(&self, context: &str) -> (r: Acquisition)
        ensures
            r@ == plan(self@, context@),
    {
        match self {
            NativeLibraryState::Uninitialized => Acquisition::SetUp,
            NativeLibraryState::Initialized(c) => Acquisition::Bind(c.duplicate()),
            NativeLibraryState::Failed(error) => Acquisition::Fail(
                message("Pdfium initialization previously failed", context, error.as_str()),
            ),
        }
    }

    /// Takes the outcome of the set-up into the state, and says what the
    /// use that did the set-up comes to.
    pub fn finish_set_up(&mut self, outcome: Result<LibraryContext, String>, context: &str) -> (r:
        Result<LibraryContext, String>)
        ensures
            final(self)@ == after_set_up(old(self)@, outcome_view(outcome)),
            outcome_view(r) == set_up_result(old(self)@, outcome_view(outcome), context@),
    {
        match self {
            NativeLibraryState::Uninitialized => match outcome {
                Ok(c) => {
                    let kept = c.duplicate();
                    *self = NativeLibraryState::Initialized(kept);
                    Ok(c)
                },
                Err(error) => {
                    let m = message("Pdfium extraction failed", context, error.as_str());
                    *self = NativeLibraryState::Failed(error);
                    Err(m)
                },
            },
            NativeLibraryState::Initialized(c) => Ok(c.duplicate()),
            NativeLibraryState::Failed(error) => Err(
                message("Pdfium initialization previously failed", context, error.as_str()),
            ),
        }
    }
}

/// The mathematical form of the outcome of a set-up.
pub open spec fn outcome_view(o: Result<LibraryContext, String>) -> Result<Option<Seq<char>>, Seq<char>> {
    match o {
        Ok(c) => Ok(opt_text(c.lib_dir)),
        Err(e) => Err(e@),
    }
}

/// The message of a use that failed because no handle could be bound.
pub fn binding_failure(context: &str, error: &str) -> (r: String)
    ensures
        r@ == failure_message("Pdfium binding failed"@, context@, error@),
{
    message("Pdfium binding failed", context, error)
}

} // verus!
