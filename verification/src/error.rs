//! Source locations and the failures that the compiler reports.

use vstd::prelude::*;

verus! {

/// A byte range in one source file.
#[derive(Debug, Clone, Copy, PartialEq, Eq, Structural)]
pub struct Location {
    pub file: u32,
    pub start: u32,
    pub end: u32,
}

/// One diagnostic of the C front end.
#[derive(Debug, PartialEq, Eq)]
pub struct CompileError {
    pub location: Location,
    pub message: String,
}

/// What a [`CompileError`] says.
pub struct CompileErrorView {
    pub location: Location,
    pub message: Seq<char>,
}

impl View for CompileError {
    type V = CompileErrorView;

    open spec fn view(&self) -> CompileErrorView {
        CompileErrorView { location: self.location, message: self.message@ }
    }
}

impl CompileError {
    /// A copy of this diagnostic.
    pub fn duplicate(&self) -> (result: CompileError)
        ensures
            result@ == self@,
    {
        CompileError { location: self.location, message: self.message.clone() }
    }
}

/// A failure reported by the C front end or the SIA lowering stage.
#[derive(Debug, PartialEq, Eq)]
pub enum Error {
    /// Existing C parsing or semantic diagnostics.
    Source(Vec<CompileError>),
    /// A valid C construct outside the deliberately small initial SIA subset.
    Unsupported { location: Location, message: String },
    /// A bundle or backend failure.
    Codegen(String),
}

/// What an [`Error`] says.
pub enum ErrorView {
    Source(Seq<CompileErrorView>),
    Unsupported { location: Location, message: Seq<char> },
    Codegen(Seq<char>),
}

/// The diagnostics of a list, in order.
pub open spec fn source_view(errors: Seq<CompileError>) -> Seq<CompileErrorView> {
    Seq::new(errors.len(), |i: int| errors[i]@)
}

impl View for Error {
    type V = ErrorView;

    open spec fn view(&self) -> ErrorView {
        match *self {
            Error::Source(errors) => ErrorView::Source(source_view(errors@)),
            Error::Unsupported { location, message } => ErrorView::Unsupported {
                location,
                message: message@,
            },
            Error::Codegen(message) => ErrorView::Codegen(message@),
        }
    }
}

/// A result with its error taken by its view.
pub open spec fn outcome<T>(result: Result<T, Error>) -> Result<T, ErrorView> {
    match result {
        Ok(value) => Ok(value),
        Err(error) => Err(error@),
    }
}

/// A result of a type with a view, taken by its view on both sides.
pub open spec fn outcome_view<T: View>(result: Result<T, Error>) -> Result<T::V, ErrorView> {
    match result {
        Ok(value) => Ok(value@),
        Err(error) => Err(error@),
    }
}

/// The messages of `errors` from `from` on, one per line.
pub open spec fn message_lines(errors: Seq<CompileErrorView>, from: int) -> Seq<char>
    decreases errors.len() - from,
{
    if 0 <= from < errors.len() {
        let rest = message_lines(errors, from + 1);
        if from == 0 {
            errors[from].message + rest
        } else {
            "\n"@ + errors[from].message + rest
        }
    } else {
        Seq::empty()
    }
}

/// The text that is shown for an error.
pub open spec fn error_text(error: ErrorView) -> Seq<char> {
    match error {
        ErrorView::Source(errors) => message_lines(errors, 0),
        ErrorView::Unsupported { location, message } => message,
        ErrorView::Codegen(message) => message,
    }
}

impl Error {
    /// The text that is shown for this error: source diagnostics one per
    /// line, any other failure its message alone.
    pub fn to_string(&self) -> (text: String)
        ensures
            text@ == error_text(self@),
    {
        match self {
            Error::Source(errors) => {
                let mut text = String::new();
                let ghost view = source_view(errors@);
                let mut index: usize = 0;
                while index < errors.len()
                    invariant
                        index <= errors@.len(),
                        view == source_view(errors@),
                        text@ + message_lines(view, index as int) == message_lines(view, 0),
                    decreases errors@.len() - index,
                {
                    if index != 0 {
                        text.append("\n");
                    }
                    text.append(errors[index].message.as_str());
                    index += 1;
                    assert(text@ + message_lines(view, index as int) == message_lines(view, 0));
                }
                assert(text@ + message_lines(view, index as int) =~= text@);
                text
            },
            Error::Unsupported { location: _, message } => message.clone(),
            Error::Codegen(message) => message.clone(),
        }
    }
}

/// The front end's diagnostic as a failure of the compiler.
pub open spec fn source_error_view(error: CompileErrorView) -> ErrorView {
    ErrorView::Source(seq![error])
}

/// Reports one diagnostic of the front end.
pub fn source_error(error: CompileError) -> (result: Error)
    ensures
        result@ == source_error_view(error@),
{
    let mut errors: Vec<CompileError> = Vec::new();
    errors.push(error);
    assert(source_view(errors@) =~= seq![error@]);
    Error::Source(errors)
}

/// A construct at `location` that this target does not support.
pub open spec fn unsupported_view(location: Location, message: Seq<char>) -> ErrorView {
    ErrorView::Unsupported { location, message }
}

/// Reports a construct at `location` that this target does not support.
pub fn unsupported(location: Location, message: &str) -> (result: Error)
    ensures
        result@ == unsupported_view(location, message@),
{
    Error::Unsupported { location, message: message.to_owned() }
}

/// Reports a failure of the bundle or of code generation.
pub fn codegen(message: &str) -> (result: Error)
    ensures
        result@ == ErrorView::Codegen(message@),
{
    Error::Codegen(message.to_owned())
}

} // verus!
