//! Diagnostics: spans, warnings, fatal errors and the sink that collects
//! them during one compilation.
//!
//! The two pipeline stages treat failure asymmetrically on purpose.
//! Evaluation fails fast: a missing file, a cyclic import or an unbound
//! name aborts the module being evaluated with a [`Fatal`] error.  Layout
//! is fault tolerant: a missing image or content too large for any page
//! only records a [`Warning`] and the document is still produced.
//! Warnings accumulated before a fatal error are kept, never discarded.

use vstd::prelude::*;

verus! {

/// A location in a source file: the file's identifier and a byte range.
#[derive(Clone, Copy, PartialEq, Eq, Structural, Debug)]
pub struct Span {
    /// Identifier of the source file the range refers to.
    pub file: u64,
    /// Byte offset at which the range starts.
    pub start: u64,
    /// Byte offset one past the end of the range.
    pub end: u64,
}

/// What a warning reports.
#[derive(Clone, Copy, PartialEq, Eq, Structural, Debug)]
pub enum WarnKind {
    /// An image reference could not be resolved; a placeholder of the
    /// requested size was placed instead.
    MissingImage,
    /// An atomic piece of content was taller than a whole page and was
    /// placed anyway, overflowing the page.
    Overflow,
    /// The current date was requested but the provider has none.
    DateUnavailable,
}

/// A non-fatal diagnostic, tagged with the span it refers to.
#[derive(Clone, Copy, PartialEq, Eq, Structural, Debug)]
pub struct Warning {
    /// Where in the source the warning arose.
    pub span: Span,
    /// What the warning reports.
    pub kind: WarnKind,
}

/// A failure to resolve an identifier through the world.
#[derive(Clone, Copy, PartialEq, Eq, Structural, Debug)]
pub enum FileError {
    /// No source or file is known under the identifier.
    NotFound,
}

/// A fatal evaluation error.  Any of these aborts the evaluation of the
/// enclosing module and propagates to the compilation result.
#[derive(Debug, Clone, PartialEq, Eq)]
pub enum Fatal {
    /// An import referred to a source identifier the world cannot resolve.
    FileNotFound { id: u64, span: Span },
    /// An import closed a cycle; `chain` lists the identifiers of the
    /// modules in progress, ending with the repeated one.
    Cyclic { chain: Vec<u64>, span: Span },
    /// An expression referred to a name bound neither locally nor in the
    /// standard scope.
    Unbound { name: Vec<u8>, span: Span },
}

/// The mathematical value of a [`Fatal`] error.
pub ghost enum FatalV {
    /// An import referred to a source identifier the world cannot resolve.
    FileNotFound { id: u64, span: Span },
    /// An import closed a cycle.
    Cyclic { chain: Seq<u64>, span: Span },
    /// An expression referred to an unbound name.
    Unbound { name: Seq<u8>, span: Span },
}

impl View for Fatal {
    type V = FatalV;

    open spec fn view(&self) -> FatalV {
        match self {
            Fatal::FileNotFound { id, span } => FatalV::FileNotFound { id: *id, span: *span },
            Fatal::Cyclic { chain, span } => FatalV::Cyclic { chain: chain@, span: *span },
            Fatal::Unbound { name, span } => FatalV::Unbound { name: name@, span: *span },
        }
    }
}

/// The shared sink that one compilation appends its warnings to.  It is
/// only ever appended to; a caller reads it once the compilation is done.
pub struct Diagnostics {
    /// The warnings recorded so far, in the order they arose.
    pub warnings: Vec<Warning>,
}

impl View for Diagnostics {
    type V = Seq<Warning>;

    open spec fn view(&self) -> Seq<Warning> {
        self.warnings@
    }
}

impl Diagnostics {
    /// An empty sink.
    pub fn new() -> (r: Diagnostics)
        ensures
            r@ == Seq::<Warning>::empty(),
    {
        Diagnostics { warnings: Vec::new() }
    }

    /// Record one warning.
    pub fn warn(&mut self, w: Warning)
        ensures
            final(self)@ == old(self)@.push(w),
    {
        self.warnings.push(w);
    }

    /// How many warnings have been recorded.
    pub fn len(&self) -> (r: usize)
        ensures
            r == self@.len(),
    {
        self.warnings.len()
    }
}

} // verus!
