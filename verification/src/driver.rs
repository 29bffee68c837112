//! What the analysis asks of the front end.

use vstd::prelude::*;

verus! {

/// Whether the front end goes on to its next phase.
#[derive(Clone, Copy, Debug, PartialEq, Eq, Structural)]
pub enum Compilation {
    Stop,
    Continue,
}

/// What the front end is to run when a phase is over.
#[derive(Clone, Copy, Debug, PartialEq, Eq, Structural)]
pub enum Callback {
    /// Nothing.
    Nothing,
    /// [`process_ast`](crate::report::process_ast), on the state as it is
    /// then.
    ProcessAst,
}

/// What happens when one phase of the front end is over.
#[derive(Clone, Copy, Debug, PartialEq, Eq, Structural)]
pub struct PhaseController {
    pub stop: Compilation,
    pub callback: Callback,
}

/// What happens at the points at which the front end hands over control.
#[derive(Clone, Copy, Debug, PartialEq, Eq, Structural)]
pub struct CompileController {
    /// When the source has been parsed, and nothing has been expanded or
    /// checked yet.
    pub after_parse: PhaseController,
}

impl CompileController {
    /// The front end left to itself: it runs nothing and goes on.
    pub fn basic() -> (control: CompileController)
        ensures
            control == (CompileController {
                after_parse: PhaseController {
                    stop: Compilation::Continue,
                    callback: Callback::Nothing,
                },
            }),
    {
        CompileController {
            after_parse: PhaseController {
                stop: Compilation::Continue,
                callback: Callback::Nothing,
            },
        }
    }
}

/// The analysis as the front end's client.
#[derive(Clone, Copy, Debug, PartialEq, Eq, Structural)]
pub struct UnsafeAnalyzer {}

impl UnsafeAnalyzer {
    /// The analysis. It has no settings, so all its values are alike.
    pub fn new() -> (analyzer: UnsafeAnalyzer)
        ensures
            analyzer == (UnsafeAnalyzer {  }),
    {
        UnsafeAnalyzer {  }
    }

    /// The analysis needs the syntax tree and nothing that later phases
    /// compute: it runs as soon as the source is parsed, and the front end
    /// stops there.
    pub fn build_controller(&self) -> (control: CompileController)
        ensures
            control == (CompileController {
                after_parse: PhaseController {
                    stop: Compilation::Stop,
                    callback: Callback::ProcessAst,
                },
            }),
    {
        let mut control = CompileController::basic();
        control.after_parse.stop = Compilation::Stop;
        control.after_parse.callback = Callback::ProcessAst;
        control
    }
}

} // verus!
