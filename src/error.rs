use crate::model::Card;
use vstd::prelude::*;

verus! {

/// Everything that can go wrong, in the rules and at the text boundary.
#[allow(inconsistent_fields)]
#[derive(Debug, PartialEq)]
pub enum Error {
    CardNotFound { card: Card },
    HandFull,
    DuplicateCard { card: Card },
    GameOver,
    CannotAccept { card: Card },
    DiscardPileEmpty,
    CannotParseCard { cause: Box<Error> },
    CannotParseColor { cause: Box<Error> },
    CannotParseValue { cause: Box<Error> },
    InputTooShort,
    UnexpectedCharacter { c: char },
    CannotPlay { cause: Box<Error> },
    IOError { cause: String },
}

/// The kinds of error that wrap another one as their cause.
#[derive(Clone, Copy, Debug, PartialEq, Eq, Structural)]
pub enum BoxType {
    CannotParseCard,
    CannotParseColor,
    CannotParseValue,
    CannotPlay,
}

/// `e` wrapped as the cause of an error of kind `b`.
pub open spec fn wrapped(e: Error, b: BoxType) -> Error {
    match b {
        BoxType::CannotParseCard => Error::CannotParseCard { cause: Box::new(e) },
        BoxType::CannotParseColor => Error::CannotParseColor { cause: Box::new(e) },
        BoxType::CannotParseValue => Error::CannotParseValue { cause: Box::new(e) },
        BoxType::CannotPlay => Error::CannotPlay { cause: Box::new(e) },
    }
}

/// A result with its success seen through its view.
pub open spec fn viewed<T: View>(r: Result<T, Error>) -> Result<T::V, Error> {
    match r {
        Ok(t) => Ok(t@),
        Err(e) => Err(e),
    }
}

impl Error {
    pub fn boxed(self, boxType: BoxType) -> (r: Error)
        ensures
            r == wrapped(self, boxType),
    {
        match boxType {
            BoxType::CannotParseCard => Error::CannotParseCard { cause: Box::new(self) },
            BoxType::CannotParseColor => Error::CannotParseColor { cause: Box::new(self) },
            BoxType::CannotParseValue => Error::CannotParseValue { cause: Box::new(self) },
            BoxType::CannotPlay => Error::CannotPlay { cause: Box::new(self) },
        }
    }
}

/// Wraps the error of a failed result, keeping a success as it is.
pub trait Boxable<T>: Sized {
    spec fn boxed_spec(self, boxType: BoxType) -> Result<T, Error>;

    fn boxed(self, boxType: BoxType) -> (r: Result<T, Error>)
        ensures
            r == self.boxed_spec(boxType),
    ;
}

impl<T> Boxable<T> for Result<T, Error> {
    open spec fn boxed_spec(self, boxType: BoxType) -> Result<T, Error> {
        match self {
            Ok(t) => Ok(t),
            Err(e) => Err(wrapped(e, boxType)),
        }
    }

    fn boxed(self, boxType: BoxType) -> (r: Result<T, Error>) {
        match self {
            Ok(t) => Ok(t),
            Err(e) => Err(e.boxed(boxType)),
        }
    }
}

} // verus!
