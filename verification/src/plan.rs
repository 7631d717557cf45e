//! What one invocation asks of the machine: steps that a caller performs.

use crate::error::{Error, ErrorView};
use vstd::prelude::*;

verus! {

/// Whether the configuration on disk was modified, so that the network
/// manager has to reload it.
#[derive(Clone, Copy, Debug, PartialEq, Eq, Structural)]
pub enum Changed {
    Yes,
    No,
}

/// One operation on the machine. The library hands steps out in the order in
/// which they are to be performed; each is performed only after the one
/// before it has succeeded.
#[derive(Clone, Debug, PartialEq, Eq)]
pub enum Step {
    /// Show `text` to the user on standard output, as it stands.
    Notice { text: String },
    /// Create the directory that holds `path`, with its ancestors.
    EnsureParentDir { path: String },
    /// Create the file at `path`, or empty it if it exists.
    CreateFile { path: String },
    /// Write `text` at the end of the file created at `path`.
    Append { path: String, text: String },
    /// Delete the file at `path`, without looking first whether it exists.
    RemoveFile { path: String },
    /// Tell the network manager to reload its configuration.
    Reload,
}

/// What a `Step` holds, as mathematical values.
pub enum StepView {
    Notice { text: Seq<char> },
    EnsureParentDir { path: Seq<char> },
    CreateFile { path: Seq<char> },
    Append { path: Seq<char>, text: Seq<char> },
    RemoveFile { path: Seq<char> },
    Reload,
}

impl View for Step {
    type V = StepView;

    open spec fn view(&self) -> StepView {
        match self {
            Step::Notice { text } => StepView::Notice { text: text@ },
            Step::EnsureParentDir { path } => StepView::EnsureParentDir { path: path@ },
            Step::CreateFile { path } => StepView::CreateFile { path: path@ },
            Step::Append { path, text } => StepView::Append { path: path@, text: text@ },
            Step::RemoveFile { path } => StepView::RemoveFile { path: path@ },
            Step::Reload => StepView::Reload,
        }
    }
}

impl StepView {
    /// Whether the step creates, modifies or deletes anything in the
    /// filesystem.
    pub open spec fn touches_files(self) -> bool {
        self is EnsureParentDir || self is CreateFile || self is Append || self is RemoveFile
    }

    /// The path that the step names, where it names one.
    pub open spec fn path(self) -> Option<Seq<char>> {
        match self {
            StepView::EnsureParentDir { path } => Some(path),
            StepView::CreateFile { path } => Some(path),
            StepView::Append { path, text } => Some(path),
            StepView::RemoveFile { path } => Some(path),
            _ => None,
        }
    }
}

/// The views of a list of steps, in order.
pub open spec fn step_views(steps: Seq<Step>) -> Seq<StepView> {
    Seq::new(steps.len(), |i: int| steps[i]@)
}

/// Whether `steps` touch no file but the one at `path`, and hold no reload.
pub open spec fn confined_to(steps: Seq<StepView>, path: Seq<char>) -> bool {
    forall|i: int|
        0 <= i < steps.len() ==> !(#[trigger] steps[i] is Reload) && (steps[i].touches_files()
            ==> steps[i].path() == Some(path))
}

/// Steps that are confined to a file stay so when put one after the other.
pub proof fn lemma_confined_concat(a: Seq<StepView>, b: Seq<StepView>, path: Seq<char>)
    requires
        confined_to(a, path),
        confined_to(b, path),
    ensures
        confined_to(a + b, path),
{
    assert forall|i: int| 0 <= i < (a + b).len() implies !(#[trigger] (a + b)[i] is Reload) && ((a
        + b)[i].touches_files() ==> (a + b)[i].path() == Some(path)) by {
        if i < a.len() {
            assert((a + b)[i] == a[i]);
        } else {
            assert((a + b)[i] == b[i - a.len()]);
        }
    }
}

/// The view of a result that may hold a failure.
pub open spec fn result_view<T>(r: Result<T, Error>) -> Result<T, ErrorView> {
    match r {
        Ok(value) => Ok(value),
        Err(e) => Err(e@),
    }
}

/// What the configuration synthesizer decided for one event: the steps to
/// perform, and what the event comes to once all of them have succeeded.
#[derive(Debug, PartialEq, Eq)]
pub struct Synthesis {
    pub steps: Vec<Step>,
    pub outcome: Result<Changed, Error>,
}

/// What a `Synthesis` holds, as mathematical values.
pub struct SynthesisView {
    pub steps: Seq<StepView>,
    pub outcome: Result<Changed, ErrorView>,
}

impl View for Synthesis {
    type V = SynthesisView;

    open spec fn view(&self) -> SynthesisView {
        SynthesisView { steps: step_views(self.steps@), outcome: result_view(self.outcome) }
    }
}

} // verus!
