use std::ops::Range;
use std::str::Utf8Error;
use vstd::prelude::*;

verus! {

/// `std::str::Utf8Error`, carried along for whoever reports the error.
#[verifier::external_type_specification]
#[verifier::external_body]
pub struct ExUtf8Error(Utf8Error);

/// Why a function could not be turned into a flow graph.
#[derive(Debug)]
pub enum Error {
    /// The source could not be parsed at all.
    TreesitterParseFailed,
    /// A piece of the source is not valid UTF-8.
    UTF8(Utf8Error),
    /// No function of the wanted name; `range` spans the name inside `src`.
    FunctionNotFound { src: String, range: Range<usize> },
    /// A function definition without a declarator.
    DeclaratorNotFound,
    /// A syntax node lacks a child that its kind must have.
    ChildNotFound,
    /// A syntax node of a kind that is not a statement; whoever meets it skips the node.
    GarbageToken(String),
    /// `continue` outside of any loop.
    UnexpectedContinue { range: Range<usize> },
    /// `break` outside of any loop.
    UnexpectedBreak { range: Range<usize> },
    /// Scaffolding was left in a graph that should be finished.
    UnexpectedDummyGraphNode,
    /// The tree holds a statement that could not be read.
    UnexpectedDummyAstNode { range: Range<usize> },
    /// A scaffolding node that does not have exactly one outgoing edge.
    UnexpectedOutgoingEdges { node_index: usize, neighbors: Vec<usize> },
    /// A `switch` or a `goto`: no translation is defined for them.
    UnsupportedConstruct { range: Range<usize> },
}

/// What the functions of this library return where they can fail.
pub type Result<T> = std::result::Result<T, Error>;

/// An error as a mathematical value: texts as sequences of characters, and of a
/// decoding error only that it is one.
pub enum ErrorView {
    TreesitterParseFailed,
    UTF8,
    FunctionNotFound { src: Seq<char>, range: Range<usize> },
    DeclaratorNotFound,
    ChildNotFound,
    GarbageToken(Seq<char>),
    UnexpectedContinue { range: Range<usize> },
    UnexpectedBreak { range: Range<usize> },
    UnexpectedDummyGraphNode,
    UnexpectedDummyAstNode { range: Range<usize> },
    UnexpectedOutgoingEdges { node_index: usize, neighbors: Seq<usize> },
    UnsupportedConstruct { range: Range<usize> },
}

impl View for Error {
    type V = ErrorView;

    open spec fn view(&self) -> ErrorView {
        match *self {
            Error::TreesitterParseFailed => ErrorView::TreesitterParseFailed,
            Error::UTF8(_) => ErrorView::UTF8,
            Error::FunctionNotFound { src, range } => ErrorView::FunctionNotFound {
                src: src@,
                range,
            },
            Error::DeclaratorNotFound => ErrorView::DeclaratorNotFound,
            Error::ChildNotFound => ErrorView::ChildNotFound,
            Error::GarbageToken(kind) => ErrorView::GarbageToken(kind@),
            Error::UnexpectedContinue { range } => ErrorView::UnexpectedContinue { range },
            Error::UnexpectedBreak { range } => ErrorView::UnexpectedBreak { range },
            Error::UnexpectedDummyGraphNode => ErrorView::UnexpectedDummyGraphNode,
            Error::UnexpectedDummyAstNode { range } => ErrorView::UnexpectedDummyAstNode { range },
            Error::UnexpectedOutgoingEdges { node_index, neighbors } => {
                ErrorView::UnexpectedOutgoingEdges { node_index, neighbors: neighbors@ }
            },
            Error::UnsupportedConstruct { range } => ErrorView::UnsupportedConstruct { range },
        }
    }
}

} // verus!
