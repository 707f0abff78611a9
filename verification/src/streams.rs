//! Where an error of a stream comes from: the side that produces the triples
//! (upstream) or the side that consumes them (downstream).
//!
//! The two sides themselves, `TripleSource` and `TripleSink`, are defined in
//! `triple::stream` and can be had from here as well.

use crate::triple::stream::AsOks;
pub use crate::triple::stream::{TripleSink, TripleSource};
use vstd::pervasive::unreached;
use vstd::prelude::*;

verus! {

/// An error of a stream, tagged with the side that raised it.
#[derive(Debug, PartialEq, Eq)]
pub enum WhereFrom<U, D> {
    /// The source of the stream failed.
    Upstream(U),
    /// The sink of the stream failed.
    Downstream(D),
}

/// The plain result `r` with its error marked as raised upstream.
pub open spec fn upstream<T, U, D>(r: Result<T, U>) -> Result<T, WhereFrom<U, D>> {
    match r {
        Ok(v) => Ok(v),
        Err(e) => Err(WhereFrom::Upstream(e)),
    }
}

/// The plain result `r` with its error marked as raised downstream.
pub open spec fn downstream<T, U, D>(r: Result<T, D>) -> Result<T, WhereFrom<U, D>> {
    match r {
        Ok(v) => Ok(v),
        Err(e) => Err(WhereFrom::Downstream(e)),
    }
}

/// Marks the error of a plain result as raised upstream.
pub trait AsUpstream<T, E> {
    /// Keeps a success as it is and wraps an error in `Upstream`.
    fn as_upstream<F>(self) -> Result<T, WhereFrom<E, F>>;
}

impl<T, E> AsUpstream<T, E> for Result<T, E> {
    fn as_upstream<F>(self) -> (tagged: Result<T, WhereFrom<E, F>>)
        ensures
            tagged == upstream::<T, E, F>(self),
    {
        match self {
            Ok(ok) => Ok(ok),
            Err(err) => Err(WhereFrom::Upstream(err)),
        }
    }
}

/// Marks the error of a plain result as raised downstream.
pub trait AsDownstream<T, E> {
    /// Keeps a success as it is and wraps an error in `Downstream`.
    fn as_downstream<F>(self) -> Result<T, WhereFrom<F, E>>;
}

impl<T, E> AsDownstream<T, E> for Result<T, E> {
    fn as_downstream<F>(self) -> (tagged: Result<T, WhereFrom<F, E>>)
        ensures
            tagged == downstream::<T, F, E>(self),
    {
        match self {
            Ok(ok) => Ok(ok),
            Err(err) => Err(WhereFrom::Downstream(err)),
        }
    }
}

/// Takes the tag off a result of which one side is known never to fail.
pub trait UnwrapWhereFrom<T, U, D>: Sized {
    /// The tagged result that is to be unwrapped.
    spec fn tagged(self) -> Result<T, WhereFrom<U, D>>;

    /// The result without its tag, for a stream whose source cannot have
    /// failed. An upstream error is a misuse: the caller rules it out.
    fn unwrap_upstream(self) -> (bare: Result<T, D>)
        requires
            !(self.tagged() matches Err(WhereFrom::Upstream(_))),
        ensures
            self.tagged() == downstream::<T, U, D>(bare),
    ;

    /// The result without its tag, for a stream whose sink cannot have
    /// failed. A downstream error is a misuse: the caller rules it out.
    fn unwrap_downstream(self) -> (bare: Result<T, U>)
        requires
            !(self.tagged() matches Err(WhereFrom::Downstream(_))),
        ensures
            self.tagged() == upstream::<T, U, D>(bare),
    ;
}

impl<T, U, D> UnwrapWhereFrom<T, U, D> for Result<T, WhereFrom<U, D>> {
    open spec fn tagged(self) -> Result<T, WhereFrom<U, D>> {
        self
    }

    fn unwrap_upstream(self) -> (bare: Result<T, D>) {
        match self {
            Ok(ok) => Ok(ok),
            Err(WhereFrom::Upstream(_)) => unreached(),
            Err(WhereFrom::Downstream(err)) => Err(err),
        }
    }

    fn unwrap_downstream(self) -> (bare: Result<T, U>) {
        match self {
            Ok(ok) => Ok(ok),
            Err(WhereFrom::Upstream(err)) => Err(err),
            Err(WhereFrom::Downstream(_)) => unreached(),
        }
    }
}

/// Makes a source of a list of triples by wrapping each of them in `Ok`.
/// The source has `()` for its error, and never makes one.
pub trait WrapAsOks<T>: Sized {
    /// The source that yields each triple of the list as a success.
    fn wrap_as_oks(self) -> AsOks<T, ()>;
}

impl<T> WrapAsOks<T> for Vec<T> {
    fn wrap_as_oks(self) -> (source: AsOks<T, ()>)
        ensures
            source.remaining() == self@,
    {
        AsOks::new(self)
    }
}

} // verus!
