//! Graphs: what a stream of triples is loaded into.
//!
//! How a graph stores its triples is its own business. This module says what
//! a stream asks of a graph that it changes, and wraps such a graph as a sink.

use crate::streams::WhereFrom;
use crate::triple::stream::{Results, TripleSink};
use crate::triple::{Spo, Triple};
use core::convert::Infallible;
use vstd::prelude::*;

verus! {

/// Marks the types that a graph may fail with.
pub trait GraphError: core::fmt::Debug {

}

/// The error of a graph that cannot fail.
impl GraphError for Infallible {

}

/// A graph that can be asked for its triples.
///
/// What the graph answers is stated by a relation. A graph that does not
/// state it admits every answer.
pub trait Graph: Sized {
    /// The terms of the triples that the graph holds.
    type Term;

    /// What a question to the graph fails with.
    type Error: GraphError;

    /// Asked for the triples with the subject `s` and the predicate `p`,
    /// the graph may answer with `found`.
    open spec fn answers_for_sp(
        &self,
        s: Self::Term,
        p: Self::Term,
        found: Results<[Self::Term; 3], Self::Error>,
    ) -> bool {
        true
    }

    /// The triples of the graph with the subject `s` and the predicate `p`,
    /// as a source that yields them one by one.
    fn iter_for_sp(&self, s: &Self::Term, p: &Self::Term) -> (found: Results<
        [Self::Term; 3],
        Self::Error,
    >)
        ensures
            self.answers_for_sp(*s, *p, found),
    ;
}

/// A graph whose questions fail with `E`.
pub trait OwnedGraph<E: GraphError>: Graph<Error = E> {

}

impl<G, E> OwnedGraph<E> for G where G: Graph<Error = E>, E: GraphError {

}

/// A graph that triples can be added to and taken from.
///
/// What a call does to the graph is stated by a relation between the graph
/// before and after it. Whether a triple that the graph already holds is
/// added once more, left out or refused is the graph's own rule: `inserts`
/// states it. A graph that does not state its relations admits every call.
pub trait MutableGraph: Sized {
    /// The terms of the triples that the graph holds.
    type Term;

    /// What a change of the graph fails with.
    type MutationError: GraphError;

    /// Adding the triple `t` to the graph `self` may leave the graph `after`
    /// and return `r`.
    open spec fn inserts(
        self,
        t: Spo<Self::Term>,
        after: Self,
        r: Result<bool, Self::MutationError>,
    ) -> bool {
        true
    }

    /// Taking the triple `t` from the graph `self` may leave the graph
    /// `after` and return `r`.
    open spec fn removes(
        self,
        t: Spo<Self::Term>,
        after: Self,
        r: Result<bool, Self::MutationError>,
    ) -> bool {
        true
    }

    /// Adds a triple. Returns whether the graph took it as a new one.
    fn insert(&mut self, s: &Self::Term, p: &Self::Term, o: &Self::Term) -> (r: Result<
        bool,
        Self::MutationError,
    >)
        ensures
            old(self).inserts((*s, *p, *o), *final(self), r),
    ;

    /// Takes a triple out. Returns whether the graph held it.
    fn remove(&mut self, s: &Self::Term, p: &Self::Term, o: &Self::Term) -> (r: Result<
        bool,
        Self::MutationError,
    >)
        ensures
            old(self).removes((*s, *p, *o), *final(self), r),
    ;

    /// A sink that adds to this graph each triple that it is fed.
    fn inserter(&mut self) -> (sink: Inserter<'_, Self>)
        ensures
            sink.graph() == *old(self),
            sink.count() == 0,
    {
        Inserter { graph: self, count: 0 }
    }

    /// A sink that takes from this graph each triple that it is fed.
    fn remover(&mut self) -> (sink: Remover<'_, Self>)
        ensures
            sink.graph() == *old(self),
            sink.count() == 0,
    {
        Remover { graph: self, count: 0 }
    }
}

/// The count `count` after one more call of a graph that returned `changed`.
/// A count that has reached `usize::MAX` stays there.
pub open spec fn counted(count: usize, changed: bool) -> usize {
    if changed && count < usize::MAX {
        (count + 1) as usize
    } else {
        count
    }
}

/// A sink that adds the triples to a graph and counts those that the graph
/// took as new ones (see `counted`). The count is its outcome.
pub struct Inserter<'a, G> {
    graph: &'a mut G,
    count: usize,
}

impl<'a, G> Inserter<'a, G> {
    /// The graph as the sink has left it so far.
    pub closed spec fn graph(&self) -> G {
        *self.graph
    }

    /// How many triples the graph has taken as new ones so far.
    pub closed spec fn count(&self) -> usize {
        self.count
    }
}

impl<'a, G: MutableGraph> TripleSink<G::Term> for Inserter<'a, G> {
    type Outcome = usize;

    type Error = G::MutationError;

    open spec fn fed(self, t: Spo<G::Term>, after: Self, r: Result<(), G::MutationError>) -> bool {
        exists|g: Result<bool, G::MutationError>| #[trigger]
            self.graph().inserts(t, after.graph(), g) && match g {
                Ok(added) => r is Ok && after.count() == counted(self.count(), added),
                Err(e) => r == Err::<(), G::MutationError>(e) && after.count() == self.count(),
            }
    }

    open spec fn finished(self, after: Self, r: Result<usize, G::MutationError>) -> bool {
        after == self && r == Ok::<usize, G::MutationError>(self.count())
    }

    fn feed<T: Triple<Term = G::Term>>(&mut self, t: &T) -> (r: Result<(), G::MutationError>) {
        let g = self.graph.insert(t.s(), t.p(), t.o());
        let r = match g {
            Ok(added) => {
                if added && self.count < usize::MAX {
                    self.count = self.count + 1;
                }
                Ok(())
            },
            Err(e) => Err(e),
        };
        assert(old(self).graph().inserts(t.spo(), self.graph(), g));
        r
    }

    fn finish(&mut self) -> (r: Result<usize, G::MutationError>) {
        Ok(self.count)
    }
}

/// A sink that takes the triples out of a graph and counts those that the
/// graph held (see `counted`). The count is its outcome.
pub struct Remover<'a, G> {
    graph: &'a mut G,
    count: usize,
}

impl<'a, G> Remover<'a, G> {
    /// The graph as the sink has left it so far.
    pub closed spec fn graph(&self) -> G {
        *self.graph
    }

    /// How many triples the graph has given up so far.
    pub closed spec fn count(&self) -> usize {
        self.count
    }
}

impl<'a, G: MutableGraph> TripleSink<G::Term> for Remover<'a, G> {
    type Outcome = usize;

    type Error = G::MutationError;

    open spec fn fed(self, t: Spo<G::Term>, after: Self, r: Result<(), G::MutationError>) -> bool {
        exists|g: Result<bool, G::MutationError>| #[trigger]
            self.graph().removes(t, after.graph(), g) && match g {
                Ok(removed) => r is Ok && after.count() == counted(self.count(), removed),
                Err(e) => r == Err::<(), G::MutationError>(e) && after.count() == self.count(),
            }
    }

    open spec fn finished(self, after: Self, r: Result<usize, G::MutationError>) -> bool {
        after == self && r == Ok::<usize, G::MutationError>(self.count())
    }

    fn feed<T: Triple<Term = G::Term>>(&mut self, t: &T) -> (r: Result<(), G::MutationError>) {
        let g = self.graph.remove(t.s(), t.p(), t.o());
        let r = match g {
            Ok(removed) => {
                if removed && self.count < usize::MAX {
                    self.count = self.count + 1;
                }
                Ok(())
            },
            Err(e) => Err(e),
        };
        assert(old(self).graph().removes(t.spo(), self.graph(), g));
        r
    }

    fn finish(&mut self) -> (r: Result<usize, G::MutationError>) {
        Ok(self.count)
    }
}

/// The loading of a graph from a source. The source has `items` left to
/// yield, the graph is `graph`, and `count` triples were added so far. The
/// items are taken one by one, from the front:
/// - at the end of the items the count is the result;
/// - an error among the items ends the loading at once, with that error,
///   marked as upstream, as the result;
/// - a triple is added to the graph, and an error of the graph ends the
///   loading at once, with that error, marked as downstream, as the result.
/// The loading leaves `rest` in the source and the graph as `after`, and
/// returns `res`.
pub open spec fn loaded<G: MutableGraph, E>(
    items: Seq<Result<Spo<G::Term>, E>>,
    graph: G,
    count: usize,
    rest: Seq<Result<Spo<G::Term>, E>>,
    after: G,
    res: Result<usize, WhereFrom<E, G::MutationError>>,
) -> bool
    decreases items.len(),
{
    if items.len() == 0 {
        &&& rest == items
        &&& after == graph
        &&& res == Ok::<usize, WhereFrom<E, G::MutationError>>(count)
    } else {
        match items[0] {
            Err(e) => {
                &&& rest == items.drop_first()
                &&& after == graph
                &&& res == Err::<usize, WhereFrom<E, G::MutationError>>(WhereFrom::Upstream(e))
            },
            Ok(t) => exists|mid: G, r: Result<bool, G::MutationError>| #[trigger]
                graph.inserts(t, mid, r) && match r {
                    Err(e) => {
                        &&& rest == items.drop_first()
                        &&& after == mid
                        &&& res == Err::<usize, WhereFrom<E, G::MutationError>>(
                            WhereFrom::Downstream(e),
                        )
                    },
                    Ok(added) => loaded(
                        items.drop_first(),
                        mid,
                        counted(count, added),
                        rest,
                        after,
                        res,
                    ),
                },
        }
    }
}

} // verus!
