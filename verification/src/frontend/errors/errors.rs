use vstd::prelude::*;
use crate::frontend::errors::span::Span;

verus! {

/// The stage of compilation that found an error.
#[derive(Debug, Clone, Copy, PartialEq, Eq)]
pub enum ErrorKind {
    Lexical,
    Syntax,
    Semantic,
}

impl ErrorKind {
    /// The code under which an error of this kind is reported.
    pub fn code(&self) -> (c: u8)
        ensures
            c == match *self {
                ErrorKind::Lexical => 1u8,
                ErrorKind::Syntax => 2u8,
                ErrorKind::Semantic => 3u8,
            },
    {
        match self {
            ErrorKind::Lexical => 1,
            ErrorKind::Syntax => 2,
            ErrorKind::Semantic => 3,
        }
    }
}

/// A compile error, with the file and source text it refers to.
#[derive(Debug)]
pub struct Error {
    pub kind: ErrorKind,
    pub file: String,
    pub source: String,
    pub span: Span,
    pub message: String,
    pub note: Option<String>,
}

/// The mathematical model of an [`Error`].
pub struct ErrorView {
    pub kind: ErrorKind,
    pub file: Seq<char>,
    pub source: Seq<char>,
    pub span: Span,
    pub message: Seq<char>,
    pub note: Option<Seq<char>>,
}

/// What an error says about a place in the source: where, what, and an optional hint.
pub struct Diagnostic {
    pub span: Span,
    pub message: Seq<char>,
    pub note: Option<Seq<char>>,
}

pub open spec fn opt_view(o: Option<String>) -> Option<Seq<char>> {
    match o {
        Some(s) => Some(s@),
        None => None,
    }
}

pub open spec fn opt_str_view(o: Option<&str>) -> Option<Seq<char>> {
    match o {
        Some(s) => Some(s@),
        None => None,
    }
}

impl View for Error {
    type V = ErrorView;

    open spec fn view(&self) -> ErrorView {
        ErrorView {
            kind: self.kind,
            file: self.file@,
            source: self.source@,
            span: self.span,
            message: self.message@,
            note: opt_view(self.note),
        }
    }
}

/// The error that a stage of `kind`, reading `file` whose text is `source`, reports for `d`.
pub open spec fn error_of(kind: ErrorKind, file: Seq<char>, source: Seq<char>, d: Diagnostic) -> ErrorView {
    ErrorView { kind, file, source, span: d.span, message: d.message, note: d.note }
}

impl Error {
    pub fn new(
        kind: ErrorKind,
        file: &str,
        source: &str,
        span: Span,
        message: &str,
        note: Option<&str>,
    ) -> (e: Self)
        ensures
            e@ == (ErrorView {
                kind,
                file: file@,
                source: source@,
                span,
                message: message@,
                note: opt_str_view(note),
            }),
    {
        let note = match note {
            Some(n) => Some(n.to_owned()),
            None => None,
        };
        Self {
            kind,
            file: file.to_owned(),
            source: source.to_owned(),
            span,
            message: message.to_owned(),
            note,
        }
    }
}

} // verus!
