//! The errors that end a compilation.

use vstd::prelude::*;
use crate::recognizer::Construct;
use crate::token::Position;

verus! {

/// What went wrong.
#[derive(Clone, Copy, Debug, PartialEq, Eq, Structural)]
pub enum ErrorKind {
    /// A marker begins nothing that the recognizer knows, or a construct is
    /// not written as its grammar asks.
    Syntax,
    /// A field's name is already bound in the scope chain.
    DuplicateField,
    /// A guard cites a name that is bound nowhere in sight, nor later.
    UndeclaredGuardReference,
    /// A guard cites a name that is bound only later in the template.
    ForwardReference,
    /// A repetition's body binds more than one variable.
    MultipleBindingInRepetition,
    /// Groups are nested deeper than the compiler will follow.
    DepthExceeded,
}

/// The one error of a failed compilation: what went wrong, the construct
/// in which it went wrong where it arose in one, and the position of the
/// token that it started from.
#[derive(Clone, Copy, Debug, PartialEq, Eq)]
pub struct SchemaError {
    pub kind: ErrorKind,
    pub construct: Option<Construct>,
    pub pos: Position,
}

impl ErrorKind {
    /// The sentence that describes an error of this kind.
    pub open spec fn sentence(self) -> Seq<char> {
        match self {
            ErrorKind::Syntax => "Expected `ident`, `{`, `(`, `?` or `[doc]` after `#`."@,
            ErrorKind::DuplicateField => "A field of this name is already declared."@,
            ErrorKind::UndeclaredGuardReference =>
                "The guard refers to a field that is not declared."@,
            ErrorKind::ForwardReference =>
                "The guard refers to a field that is declared only later."@,
            ErrorKind::MultipleBindingInRepetition =>
                "Only one interpolation variable is allowed per repetition."@,
            ErrorKind::DepthExceeded => "The template is nested too deeply."@,
        }
    }
}

impl SchemaError {
    /// This error as one that arose in `construct`, unless it is already
    /// said to have arisen in another.
    pub open spec fn tagged(self, construct: Construct) -> SchemaError {
        if self.construct is None {
            SchemaError { construct: Some(construct), ..self }
        } else {
            self
        }
    }

    /// The error of the given kind at the given position, in no construct.
    pub open spec fn at(kind: ErrorKind, pos: Position) -> SchemaError {
        SchemaError { kind, construct: None, pos }
    }

    /// The error of the given kind at the given position, in no construct.
    #[verifier::when_used_as_spec(at)]
    pub fn new(kind: ErrorKind, pos: Position) -> (e: SchemaError)
        ensures
            e == SchemaError::at(kind, pos),
    {
        SchemaError { kind, construct: None, pos }
    }

    /// This error as one that arose in `construct`, unless it is already
    /// said to have arisen in another.
    pub fn within(self, construct: Construct) -> (e: SchemaError)
        ensures
            e == self.tagged(construct),
    {
        match self.construct {
            None => SchemaError { kind: self.kind, construct: Some(construct), pos: self.pos },
            Some(_) => self,
        }
    }

    /// The sentence to show for this error.
    pub fn message(&self) -> (text: String)
        ensures
            text@ == self.kind.sentence(),
    {
        match self.kind {
            ErrorKind::Syntax => "Expected `ident`, `{`, `(`, `?` or `[doc]` after `#`.".to_owned(),
            ErrorKind::DuplicateField => "A field of this name is already declared.".to_owned(),
            ErrorKind::UndeclaredGuardReference =>
                "The guard refers to a field that is not declared.".to_owned(),
            ErrorKind::ForwardReference =>
                "The guard refers to a field that is declared only later.".to_owned(),
            ErrorKind::MultipleBindingInRepetition =>
                "Only one interpolation variable is allowed per repetition.".to_owned(),
            ErrorKind::DepthExceeded => "The template is nested too deeply.".to_owned(),
        }
    }
}

} // verus!
