//! Errors raised while a source file is loaded and parsed.

use vstd::prelude::*;
use vstd::string::*;

verus! {

/// How loading a source file failed.
#[derive(Eq, PartialEq, Debug, Clone)]
pub enum ParseError {
    /// The file could not be read; the payload is the reader's message.
    IOError(String),
    /// The file was read but is not in the grammar; the payload is the parser's message.
    PestError(String),
}

/// A file named by an include that could not be loaded.
#[derive(Eq, PartialEq, Debug)]
pub struct UnknownFileIncludeError {
    pub file_error: String,
    pub source_error: String,
    pub span_error: (usize, usize),
    pub invalid_file: String,
}

/// A file that does not follow the grammar.
#[derive(Eq, PartialEq, Debug)]
pub struct SyntaxError {
    pub file_error: String,
    pub source_error: String,
    pub span_error: (usize, usize),
}

impl Clone for UnknownFileIncludeError {
    fn clone(&self) -> (res: Self)
        ensures
            res == *self,
    {
        UnknownFileIncludeError {
            file_error: self.file_error.clone(),
            source_error: self.source_error.clone(),
            span_error: (self.span_error.0, self.span_error.1),
            invalid_file: self.invalid_file.clone(),
        }
    }
}

impl Clone for SyntaxError {
    fn clone(&self) -> (res: Self)
        ensures
            res == *self,
    {
        SyntaxError {
            file_error: self.file_error.clone(),
            source_error: self.source_error.clone(),
            span_error: (self.span_error.0, self.span_error.1),
        }
    }
}

/// What stops the compilation of a file.
#[derive(Eq, PartialEq, Debug, Clone)]
pub enum CompileError {
    UnknownFileIncludeError(UnknownFileIncludeError),
    SyntaxError(SyntaxError),
}

/// Mathematical model of a [`CompileError`].
pub enum CompileErrorView {
    UnknownFileIncludeError {
        file_error: Seq<char>,
        source_error: Seq<char>,
        span_error: (usize, usize),
        invalid_file: Seq<char>,
    },
    SyntaxError { file_error: Seq<char>, source_error: Seq<char>, span_error: (usize, usize) },
}

impl View for CompileError {
    type V = CompileErrorView;

    open spec fn view(&self) -> CompileErrorView {
        match self {
            CompileError::UnknownFileIncludeError(e) => CompileErrorView::UnknownFileIncludeError {
                file_error: e.file_error@,
                source_error: e.source_error@,
                span_error: e.span_error,
                invalid_file: e.invalid_file@,
            },
            CompileError::SyntaxError(e) => CompileErrorView::SyntaxError {
                file_error: e.file_error@,
                source_error: e.source_error@,
                span_error: e.span_error,
            },
        }
    }
}

/// The text that stands in for the offending source until spans are tracked.
pub open spec fn placeholder_source() -> Seq<char> {
    "TODO"@
}

/// The span reported until spans are tracked.
pub open spec fn placeholder_span() -> (usize, usize) {
    (10, 12)
}

/// The compile error for a file whose loading failed with `err`: a read
/// failure is an unknown include of that file, a grammar failure a syntax
/// error in it.
pub open spec fn compile_error_of(file: Seq<char>, err: ParseError) -> CompileErrorView {
    match err {
        ParseError::IOError(_) => CompileErrorView::UnknownFileIncludeError {
            file_error: file,
            source_error: placeholder_source(),
            span_error: placeholder_span(),
            invalid_file: file,
        },
        ParseError::PestError(_) => CompileErrorView::SyntaxError {
            file_error: file,
            source_error: placeholder_source(),
            span_error: placeholder_span(),
        },
    }
}

/// Turns a loading failure of `file` into a compile error.
pub fn from_pest_parsing(file: &String, err: &ParseError) -> (res: CompileError)
    ensures
        res@ == compile_error_of(file@, *err),
{
    match err {
        ParseError::IOError(_) => CompileError::UnknownFileIncludeError(
            UnknownFileIncludeError {
                file_error: file.clone(),
                source_error: String::from_str("TODO"),
                span_error: (10, 12),
                invalid_file: file.clone(),
            },
        ),
        ParseError::PestError(_) => CompileError::SyntaxError(
            SyntaxError {
                file_error: file.clone(),
                source_error: String::from_str("TODO"),
                span_error: (10, 12),
            },
        ),
    }
}

} // verus!
