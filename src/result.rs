//! A three-way outcome for reading from a token stream: a value, an error,
//! or the end of the input.
use vstd::prelude::*;

verus! {

pub enum ParserResult<T, E> {
    Value(T),
    Error(E),
    /// The input is exhausted.
    Done,
}

impl<T, E> ParserResult<T, E> {
    /// `Ok(Some(v))`, `Err(e)` or, at the end, `Ok(None)`.
    pub fn to_res_opt(self) -> (r: Result<Option<T>, E>)
        ensures
            match self {
                ParserResult::Value(v) => r == Ok::<Option<T>, E>(Some(v)),
                ParserResult::Error(e) => r == Err::<Option<T>, E>(e),
                ParserResult::Done => r == Ok::<Option<T>, E>(None),
            },
    {
        match self {
            ParserResult::Value(v) => Ok(Some(v)),
            ParserResult::Error(e) => Err(e),
            ParserResult::Done => Ok(None),
        }
    }

    /// `Some(Ok(v))`, `Some(Err(e))` or, at the end, `None`.
    pub fn to_opt_res(self) -> (r: Option<Result<T, E>>)
        ensures
            match self {
                ParserResult::Value(v) => r == Some(Ok::<T, E>(v)),
                ParserResult::Error(e) => r == Some(Err::<T, E>(e)),
                ParserResult::Done => r is None,
            },
    {
        match self {
            ParserResult::Value(v) => Some(Ok(v)),
            ParserResult::Error(e) => Some(Err(e)),
            ParserResult::Done => None,
        }
    }
}

} // verus!
