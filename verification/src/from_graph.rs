//! Values that are read from a graph: what the triples about a subject say
//! of it, made a value of a type.

use crate::graph::{Graph, GraphError, OwnedGraph};
use crate::triple::stream::Results;
use crate::triple::Triple;
use core::convert::Infallible;
use core::num::ParseIntError;
use vstd::prelude::*;
use vstd::std_specs::convert::FromSpecImpl;

verus! {

/// The error that `str::parse` gives for a text that is no integer.
#[verifier::external_type_specification]
#[verifier::external_body]
pub struct ExParseIntError(core::num::ParseIntError);

/// The predicate that links a subject to its value.
pub const RDF_VALUE: &'static str = "http://www.w3.org/1999/02/22-rdf-syntax-ns#value";

/// The predicate that links a `B` to its `A`.
pub const HAS_A: &'static str = "http://ex.co/ns/has_a";

/// A value could not be read from the graph.
#[derive(Debug, Clone, Copy, PartialEq, Eq)]
pub struct MyError {}

impl From<Infallible> for MyError {
    fn from(_never: Infallible) -> (e: MyError) {
        MyError {}
    }
}

impl FromSpecImpl<Infallible> for MyError {
    open spec fn obeys_from_spec() -> bool {
        true
    }

    open spec fn from_spec(_never: Infallible) -> MyError {
        MyError {}
    }
}

impl From<ParseIntError> for MyError {
    fn from(_cause: ParseIntError) -> (e: MyError) {
        MyError {}
    }
}

impl FromSpecImpl<ParseIntError> for MyError {
    open spec fn obeys_from_spec() -> bool {
        true
    }

    open spec fn from_spec(_cause: ParseIntError) -> MyError {
        MyError {}
    }
}

/// What reading a value from a graph gives.
pub type MyResult<T> = Result<T, MyError>;

/// The integer that `str::parse::<i32>` reads from `text`, or `None` where
/// it reads none.
pub uninterp spec fn parsed_i32(text: Seq<char>) -> Option<i32>;

/// Calls `str::parse::<i32>` on `text`. The result depends on the text
/// alone: it is `Ok` with the integer that `parsed_i32` names, or an error
/// where `parsed_i32` names none.
#[verifier::external_body]
fn parse_i32(text: &str) -> (r: Result<i32, ParseIntError>)
    ensures
        parsed_i32(text@) == match r {
            Ok(n) => Some(n),
            Err(_) => None,
        },
{
    text.parse::<i32>()
}

/// A type whose values can be read from a graph.
pub trait FromGraph<T, G, E>: Sized where
    G: OwnedGraph<E, Term = T>,
    E: GraphError,
    MyError: From<E>,
{
    /// Reading the value of the subject `s` from `graph` may give `r`. A
    /// type that does not state this admits every result.
    open spec fn reads(s: T, graph: &G, r: MyResult<Self>) -> bool {
        true
    }

    /// Reads the value that the triples of `graph` give to the subject `s`.
    fn from_graph(s: &T, graph: &G) -> (r: MyResult<Self>)
        ensures
            Self::reads(*s, graph, r),
    ;
}

/// The triple that a value is read from: the last of the answers of a
/// graph. No answer at all is an error, and so is a last answer that is an
/// error itself.
pub open spec fn last_triple<T, E>(answers: Seq<Result<[T; 3], E>>) -> MyResult<[T; 3]> {
    if answers.len() == 0 {
        Err(MyError {})
    } else {
        match answers.last() {
            Ok(t) => Ok(t),
            Err(_) => Err(MyError {}),
        }
    }
}

/// Picks the triple that a value is read from out of the answers of a graph.
pub fn pick_last<T, E>(found: Results<[T; 3], E>) -> (r: MyResult<[T; 3]>) where MyError: From<E>
    ensures
        r == last_triple(found.items()),
{
    let t = found.last().ok_or(MyError {})??;
    Ok(t)
}

/// A value with an integer.
#[derive(Debug, Clone, Copy, PartialEq, Eq)]
pub struct A {
    pub value: i32,
}

impl A {
    /// The `A` that a text gives, from what `str::parse::<i32>` made of the
    /// text.
    pub fn from_parsed(parsed: Result<i32, ParseIntError>) -> (r: MyResult<A>)
        ensures
            r == match parsed {
                Ok(value) => Ok::<A, MyError>(A { value }),
                Err(_) => Err(MyError {}),
            },
    {
        let value = parsed?;
        Ok(A { value })
    }

    /// The `A` that the answers of a graph give: its integer is the object
    /// of the last answer.
    pub open spec fn of_answers<E>(answers: Seq<Result<[String; 3], E>>) -> MyResult<A> {
        match last_triple(answers) {
            Err(e) => Err(e),
            Ok(t) => match parsed_i32(t[2]@) {
                Some(value) => Ok(A { value }),
                None => Err(MyError {}),
            },
        }
    }
}

impl<G, E> FromGraph<String, G, E> for A where
    G: OwnedGraph<E, Term = String>,
    E: GraphError,
    MyError: From<E>,
{
    open spec fn reads(s: String, graph: &G, r: MyResult<A>) -> bool {
        exists|p: String, found: Results<[String; 3], E>|
            {
                &&& p@ == RDF_VALUE@
                &&& #[trigger] graph.answers_for_sp(s, p, found)
                &&& r == A::of_answers(found.items())
            }
    }

    fn from_graph(s: &String, graph: &G) -> (r: MyResult<A>) {
        let p = RDF_VALUE.to_owned();
        let found = graph.iter_for_sp(s, &p);
        let t_value = pick_last(found)?;
        A::from_parsed(parse_i32(t_value.o().as_str()))
    }
}

/// A value with an integer and an `A`.
#[derive(Debug, Clone, Copy, PartialEq, Eq)]
pub struct B {
    pub a: A,
    pub value: i32,
}

impl B {
    /// The `B` that holds `a` and the integer that a text gives, from what
    /// `str::parse::<i32>` made of the text.
    pub fn from_parsed(a: A, parsed: Result<i32, ParseIntError>) -> (r: MyResult<B>)
        ensures
            r == match parsed {
                Ok(value) => Ok::<B, MyError>(B { a, value }),
                Err(_) => Err(MyError {}),
            },
    {
        let value = parsed?;
        Ok(B { a, value })
    }

    /// The `B` that holds `a` and that the answers of a graph give: its
    /// integer is the object of the last answer.
    pub open spec fn of_answers<E>(a: A, answers: Seq<Result<[String; 3], E>>) -> MyResult<B> {
        match last_triple(answers) {
            Err(e) => Err(e),
            Ok(t) => match parsed_i32(t[2]@) {
                Some(value) => Ok(B { a, value }),
                None => Err(MyError {}),
            },
        }
    }
}

impl<G, E> FromGraph<String, G, E> for B where
    G: OwnedGraph<E, Term = String>,
    E: GraphError,
    MyError: From<E>,
{
    open spec fn reads(s: String, graph: &G, r: MyResult<B>) -> bool {
        exists|p: String, found: Results<[String; 3], E>|
            {
                &&& p@ == HAS_A@
                &&& #[trigger] graph.answers_for_sp(s, p, found)
                &&& match last_triple(found.items()) {
                    Err(e) => r == Err::<B, MyError>(e),
                    Ok(t_a) => exists|a: MyResult<A>|
                        {
                            &&& #[trigger] <A as FromGraph<String, G, E>>::reads(t_a[2], graph, a)
                            &&& match a {
                                Err(e) => r == Err::<B, MyError>(e),
                                Ok(a) => exists|p: String, found: Results<[String; 3], E>|
                                    {
                                        &&& p@ == RDF_VALUE@
                                        &&& #[trigger] graph.answers_for_sp(s, p, found)
                                        &&& r == B::of_answers(a, found.items())
                                    },
                            }
                        },
                }
            }
    }

    fn from_graph(s: &String, graph: &G) -> (r: MyResult<B>) {
        let p_a = HAS_A.to_owned();
        let found_a = graph.iter_for_sp(s, &p_a);
        let ghost answers_a = found_a;
        let t_a = match pick_last(found_a) {
            Ok(t) => t,
            Err(e) => {
                return Err(e);
            },
        };
        let a = match A::from_graph(t_a.o(), graph) {
            Ok(a) => a,
            Err(e) => {
                return Err(e);
            },
        };
        let p_value = RDF_VALUE.to_owned();
        let found = graph.iter_for_sp(s, &p_value);
        let ghost answers = found;
        let r = match pick_last(found) {
            Ok(t_value) => B::from_parsed(a, parse_i32(t_value.o().as_str())),
            Err(e) => Err(e),
        };
        r
    }
}

} // verus!
