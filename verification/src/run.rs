//! The bookkeeping of one interpreter run: the step budget and the failures
//! of the statements that had to be abandoned.

use vstd::prelude::*;
use vstd::string::*;

verus! {

/// Why a statement was abandoned. A failure never stops the run: the
/// statements after it are still executed.
#[derive(Eq, PartialEq, Debug, Clone)]
pub enum ExecError {
    /// The key is bound neither to a value nor to a sub-component.
    UnboundReference(String),
    /// The value written to the key did not reduce to a value.
    Unevaluated(String),
    /// The dimension text is neither a bound name nor a number.
    UnresolvedArrayDimension(String),
    /// The statement text was not in the grammar. The run keeps the byte
    /// range of the text beside the failure.
    UnparseableStatement,
    /// The statement is of a kind that the interpreter does not execute.
    NotSupported,
}

/// Mathematical model of an [`ExecError`].
pub enum ExecErrorView {
    UnboundReference(Seq<char>),
    Unevaluated(Seq<char>),
    UnresolvedArrayDimension(Seq<char>),
    UnparseableStatement,
    NotSupported,
}

impl View for ExecError {
    type V = ExecErrorView;

    open spec fn view(&self) -> ExecErrorView {
        match self {
            ExecError::UnboundReference(k) => ExecErrorView::UnboundReference(k@),
            ExecError::Unevaluated(k) => ExecErrorView::Unevaluated(k@),
            ExecError::UnresolvedArrayDimension(d) => ExecErrorView::UnresolvedArrayDimension(d@),
            ExecError::UnparseableStatement => ExecErrorView::UnparseableStatement,
            ExecError::NotSupported => ExecErrorView::NotSupported,
        }
    }
}

/// The state of a run besides the heap.
#[derive(Debug)]
pub struct Run {
    /// How many more commands and loop rounds may be started.
    pub fuel: u64,
    /// Set once a command or loop round was due with no fuel left. Nothing
    /// is executed after that.
    pub halted: bool,
    /// The failures so far, oldest first.
    pub errors: Vec<ExecError>,
    /// For each failure, in the same order, the byte range in the source
    /// of the statement that was abandoned; `None` for a failure of a
    /// declaration or of a loop's boundary condition, which carry no range.
    pub spans: Vec<Option<(usize, usize)>>,
}

/// Mathematical model of a [`Run`].
pub struct RunView {
    pub fuel: nat,
    pub halted: bool,
    pub errors: Seq<ExecErrorView>,
    pub spans: Seq<Option<(usize, usize)>>,
}

/// The models of a list of failures, element by element.
pub open spec fn errors_view(errors: Seq<ExecError>) -> Seq<ExecErrorView> {
    errors.map_values(|e: ExecError| e@)
}

impl View for Run {
    type V = RunView;

    open spec fn view(&self) -> RunView {
        RunView {
            fuel: self.fuel as nat,
            halted: self.halted,
            errors: errors_view(self.errors@),
            spans: self.spans@,
        }
    }
}

impl Run {
    /// A run that may start `fuel` commands and loop rounds.
    pub fn new(fuel: u64) -> (res: Run)
        ensures
            res@ == (RunView {
                fuel: fuel as nat,
                halted: false,
                errors: Seq::empty(),
                spans: Seq::empty(),
            }),
    {
        let r = Run { fuel, halted: false, errors: Vec::new(), spans: Vec::new() };
        assert(r@.errors =~= Seq::empty());
        r
    }

    /// Records a failure of the statement that stands at `span` of the
    /// source, if the failure is one of a statement.
    pub fn fail(&mut self, error: ExecError, span: Option<(usize, usize)>)
        ensures
            final(self)@ == (RunView {
                fuel: old(self)@.fuel,
                halted: old(self)@.halted,
                errors: old(self)@.errors.push(error@),
                spans: old(self)@.spans.push(span),
            }),
    {
        self.errors.push(error);
        self.spans.push(span);
        assert(self@.errors =~= old(self)@.errors.push(error@));
    }
}

} // verus!
