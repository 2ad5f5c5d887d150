use vstd::prelude::*;
use vstd::string::*;

verus! {

/// Everything that can stop a line from being rendered.
#[derive(Debug, PartialEq, Eq)]
pub enum RenderError {
    /// A `}` outside a placeholder, or a `{` inside one.
    UnexpectedBrace,
    /// The line ended inside a placeholder.
    UnclosedBrace,
    /// A placeholder whose content names nothing known.
    UnknownVariable(String),
    /// A `color` suffix that is not an integer from 0 to 255.
    UnknownColor(String),
    /// A `$name` placeholder whose variable is not set.
    MissingEnvVar(String),
    /// A command that wrote to its standard error; holds what it wrote.
    CommandExecution(String),
    /// A command could not be started, or a file could not be read.
    IoFailure(String),
}

/// The mathematical value of a [`RenderError`].
pub enum ErrorView {
    UnexpectedBrace,
    UnclosedBrace,
    UnknownVariable(Seq<char>),
    UnknownColor(Seq<char>),
    MissingEnvVar(Seq<char>),
    CommandExecution(Seq<char>),
    IoFailure(Seq<char>),
}

impl View for RenderError {
    type V = ErrorView;

    open spec fn view(&self) -> ErrorView {
        match self {
            RenderError::UnexpectedBrace => ErrorView::UnexpectedBrace,
            RenderError::UnclosedBrace => ErrorView::UnclosedBrace,
            RenderError::UnknownVariable(s) => ErrorView::UnknownVariable(s@),
            RenderError::UnknownColor(s) => ErrorView::UnknownColor(s@),
            RenderError::MissingEnvVar(s) => ErrorView::MissingEnvVar(s@),
            RenderError::CommandExecution(s) => ErrorView::CommandExecution(s@),
            RenderError::IoFailure(s) => ErrorView::IoFailure(s@),
        }
    }
}

pub open spec fn error_option_view(e: Option<RenderError>) -> Option<ErrorView> {
    match e {
        Some(e) => Some(e@),
        None => None,
    }
}

pub open spec fn result_view(r: Result<String, RenderError>) -> Result<Seq<char>, ErrorView> {
    match r {
        Ok(s) => Ok(s@),
        Err(e) => Err(e@),
    }
}

impl RenderError {
    /// A copy of the error.
    pub fn duplicate(&self) -> (r: RenderError)
        ensures
            r == *self,
    {
        match self {
            RenderError::UnexpectedBrace => RenderError::UnexpectedBrace,
            RenderError::UnclosedBrace => RenderError::UnclosedBrace,
            RenderError::UnknownVariable(s) => RenderError::UnknownVariable(s.clone()),
            RenderError::UnknownColor(s) => RenderError::UnknownColor(s.clone()),
            RenderError::MissingEnvVar(s) => RenderError::MissingEnvVar(s.clone()),
            RenderError::CommandExecution(s) => RenderError::CommandExecution(s.clone()),
            RenderError::IoFailure(s) => RenderError::IoFailure(s.clone()),
        }
    }

    /// A sentence that describes the error.
    pub fn message(&self) -> (r: String)
        ensures
            r@ == message_of(self@),
    {
        let (head, detail): (&str, &str) = match self {
            RenderError::UnexpectedBrace => ("Unexpected curly brace found.", ""),
            RenderError::UnclosedBrace => ("Unclosed curly brace at the end of the line.", ""),
            RenderError::UnknownVariable(s) => ("Unknown variable: ", s.as_str()),
            RenderError::UnknownColor(s) => ("Unknown color: ", s.as_str()),
            RenderError::MissingEnvVar(s) => ("Environment variable not set: ", s.as_str()),
            RenderError::CommandExecution(s) => ("Command failed: ", s.as_str()),
            RenderError::IoFailure(s) => ("I/O failure: ", s.as_str()),
        };
        proof {
            reveal_strlit("");
        }
        let mut r = String::from_str(head);
        r.append(detail);
        assert(r@ =~= message_of(self@));
        r
    }
}

/// The sentence that describes an error.
pub open spec fn message_of(e: ErrorView) -> Seq<char> {
    match e {
        ErrorView::UnexpectedBrace => "Unexpected curly brace found."@,
        ErrorView::UnclosedBrace => "Unclosed curly brace at the end of the line."@,
        ErrorView::UnknownVariable(s) => "Unknown variable: "@ + s,
        ErrorView::UnknownColor(s) => "Unknown color: "@ + s,
        ErrorView::MissingEnvVar(s) => "Environment variable not set: "@ + s,
        ErrorView::CommandExecution(s) => "Command failed: "@ + s,
        ErrorView::IoFailure(s) => "I/O failure: "@ + s,
    }
}

} // verus!
