//! Sources and sinks of triples.
//!
//! A source yields triples one at a time and may fail while doing so. A sink
//! takes triples one at a time, may fail on each, and gives its outcome when
//! it is finished. `TripleSource::in_sink` connects the two.

use crate::graph::MutableGraph;
use crate::streams::{AsDownstream, AsUpstream, WhereFrom};
use crate::triple::{Spo, Triple};
use core::convert::Infallible;
use core::marker::PhantomData;
use std::collections::VecDeque;
use vstd::prelude::*;

verus! {

/// A consumer of triples.
///
/// What a sink does is stated by two relations between its value before a
/// call and its value after it. They are relations, not functions: a sink may
/// depend on more than its own value (a file, a network). A sink that does
/// not state them admits every call.
pub trait TripleSink<X>: Sized {
    /// What the sink hands back once all triples were fed.
    type Outcome;

    /// What the sink fails with.
    type Error: core::fmt::Debug;

    /// Feeding the triple `t` to the sink `self` may leave the sink `after`
    /// and return `r`.
    open spec fn fed(self, t: Spo<X>, after: Self, r: Result<(), Self::Error>) -> bool {
        true
    }

    /// Finishing the sink `self` may leave the sink `after` and return `r`.
    open spec fn finished(self, after: Self, r: Result<Self::Outcome, Self::Error>) -> bool {
        true
    }

    /// Takes one triple. The triple is only lent for the call: a sink that
    /// keeps anything of it copies that.
    fn feed<T: Triple<Term = X>>(&mut self, t: &T) -> (r: Result<(), Self::Error>)
        ensures
            old(self).fed(t.spo(), *final(self), r),
    ;

    /// Gives the outcome once all triples were fed.
    fn finish(&mut self) -> (r: Result<Self::Outcome, Self::Error>)
        ensures
            old(self).finished(*final(self), r),
    ;
}

/// What a source yields for the item `item`: the terms of the triple, or
/// the error.
pub open spec fn yielded<T: Triple, E>(item: Result<&T, E>) -> Result<Spo<T::Term>, E> {
    match item {
        Ok(t) => Ok(t.spo()),
        Err(e) => Err(e),
    }
}

/// A run of the stream. The source has `items` left to yield and the sink
/// is `sink`. The run takes the items one by one, from the front:
/// - at the end of the items the sink is finished, and its outcome or its
///   error, marked as downstream, is the result;
/// - an error among the items ends the run at once: the sink is left as it
///   is, and the error, marked as upstream, is the result;
/// - a triple is fed to the sink, and an error of the sink ends the run at
///   once, with that error, marked as downstream, as the result.
/// The run leaves `rest` in the source and the sink as `after`, and returns
/// `res`.
pub open spec fn drained<X, E, TS: TripleSink<X>>(
    items: Seq<Result<Spo<X>, E>>,
    sink: TS,
    rest: Seq<Result<Spo<X>, E>>,
    after: TS,
    res: Result<TS::Outcome, WhereFrom<E, TS::Error>>,
) -> bool
    decreases items.len(),
{
    if items.len() == 0 {
        &&& rest == items
        &&& exists|r: Result<TS::Outcome, TS::Error>|
            #[trigger] sink.finished(after, r) && res == crate::streams::downstream::<
                TS::Outcome,
                E,
                TS::Error,
            >(r)
    } else {
        match items[0] {
            Err(e) => {
                &&& rest == items.drop_first()
                &&& after == sink
                &&& res == Err::<TS::Outcome, WhereFrom<E, TS::Error>>(WhereFrom::Upstream(e))
            },
            Ok(t) => exists|mid: TS, r: Result<(), TS::Error>| #[trigger]
                sink.fed(t, mid, r) && match r {
                    Err(e) => {
                        &&& rest == items.drop_first()
                        &&& after == mid
                        &&& res == Err::<TS::Outcome, WhereFrom<E, TS::Error>>(
                            WhereFrom::Downstream(e),
                        )
                    },
                    Ok(_) => drained(items.drop_first(), mid, rest, after, res),
                },
        }
    }
}

/// A producer of triples.
pub trait TripleSource: Sized {
    /// The triples that the source yields.
    type Triple: Triple;

    /// What the source fails with.
    type Error: core::fmt::Debug;

    /// What the source has left to yield, in order: for each item the terms
    /// of a triple, or an error.
    spec fn pending(&self) -> Seq<Result<Spo<<Self::Triple as Triple>::Term>, Self::Error>>;

    /// Yields the next item, or `None` when nothing is left. A triple is
    /// only lent, until the source is asked again.
    fn next_triple(&mut self) -> (item: Option<Result<&Self::Triple, Self::Error>>)
        ensures
            match item {
                None => old(self).pending().len() == 0 && final(self).pending() == old(
                    self,
                ).pending(),
                Some(x) => {
                    &&& old(self).pending().len() > 0
                    &&& old(self).pending()[0] == yielded(x)
                    &&& final(self).pending() == old(self).pending().drop_first()
                },
            },
    ;

    /// Feeds the triples of this source to `sink`, in the order in which the
    /// source yields them, and finishes the sink.
    ///
    /// Stops on the first error, of the source or of the sink.
    fn in_sink<TS: TripleSink<<Self::Triple as Triple>::Term>>(&mut self, sink: &mut TS) -> (res:
        Result<TS::Outcome, WhereFrom<Self::Error, TS::Error>>)
        ensures
            drained(old(self).pending(), *old(sink), final(self).pending(), *final(sink), res),
    {
        loop
            invariant
                forall|
                    rest: Seq<Result<Spo<<Self::Triple as Triple>::Term>, Self::Error>>,
                    after: TS,
                    res: Result<TS::Outcome, WhereFrom<Self::Error, TS::Error>>,
                |
                    drained(self.pending(), *sink, rest, after, res) ==> drained(
                        old(self).pending(),
                        *old(sink),
                        rest,
                        after,
                        res,
                    ),
            decreases self.pending().len(),
        {
            let ghost items = self.pending();
            let ghost before = *sink;
            match self.next_triple() {
                None => {
                    return sink.finish().as_downstream();
                },
                Some(item) => {
                    let t = item.as_upstream()?;
                    let r = sink.feed(t);
                    assert(before.fed(items[0]->Ok_0, *sink, r));
                    r.as_downstream()?;
                },
            }
        }
    }

    /// Adds the triples of this source to `graph`, in the order in which
    /// the source yields them, and returns how many of them the graph took
    /// as new ones.
    ///
    /// Stops on the first error, of the source or of the graph.
    fn in_graph<G: MutableGraph<Term = <Self::Triple as Triple>::Term>>(
        &mut self,
        graph: &mut G,
    ) -> (res: Result<usize, WhereFrom<Self::Error, G::MutationError>>)
        ensures
            crate::graph::loaded(
                old(self).pending(),
                *old(graph),
                0,
                final(self).pending(),
                *final(graph),
                res,
            ),
    {
        let mut count: usize = 0;
        loop
            invariant
                forall|
                    rest: Seq<Result<Spo<<Self::Triple as Triple>::Term>, Self::Error>>,
                    after: G,
                    res: Result<usize, WhereFrom<Self::Error, G::MutationError>>,
                |
                    crate::graph::loaded(self.pending(), *graph, count, rest, after, res)
                        ==> crate::graph::loaded(
                        old(self).pending(),
                        *old(graph),
                        0,
                        rest,
                        after,
                        res,
                    ),
            decreases self.pending().len(),
        {
            let ghost items = self.pending();
            let ghost before = *graph;
            match self.next_triple() {
                None => {
                    return Ok(count);
                },
                Some(item) => {
                    let t = item.as_upstream()?;
                    let r = graph.insert(t.s(), t.p(), t.o());
                    assert(before.inserts(items[0]->Ok_0, *graph, r));
                    if r.as_downstream()? && count < usize::MAX {
                        count = count + 1;
                    }
                },
            }
        }
    }

    /// Feeds the triples of this source to `sink` as `in_sink` does, and
    /// gives the source up.
    fn into_sink<TS: TripleSink<<Self::Triple as Triple>::Term>>(self, sink: &mut TS) -> (res:
        Result<TS::Outcome, WhereFrom<Self::Error, TS::Error>>)
        ensures
            exists|rest: Seq<Result<Spo<<Self::Triple as Triple>::Term>, Self::Error>>|
                drained(self.pending(), *old(sink), rest, *final(sink), res),
    {
        let mut source = self;
        source.in_sink(sink)
    }

    /// Adds the triples of this source to `graph` as `in_graph` does, and
    /// gives the source up.
    fn into_graph<G: MutableGraph<Term = <Self::Triple as Triple>::Term>>(
        self,
        graph: &mut G,
    ) -> (res: Result<usize, WhereFrom<Self::Error, G::MutationError>>)
        ensures
            exists|rest: Seq<Result<Spo<<Self::Triple as Triple>::Term>, Self::Error>>|
                crate::graph::loaded(self.pending(), *old(graph), 0, rest, *final(graph), res),
    {
        let mut source = self;
        source.in_graph(graph)
    }
}

/// The sink that takes every triple, does nothing with it and never fails.
impl<X> TripleSink<X> for () {
    type Outcome = ();

    type Error = Infallible;

    open spec fn fed(self, t: Spo<X>, after: Self, r: Result<(), Infallible>) -> bool {
        r is Ok
    }

    open spec fn finished(self, after: Self, r: Result<(), Infallible>) -> bool {
        r is Ok
    }

    fn feed<T: Triple<Term = X>>(&mut self, _t: &T) -> (r: Result<(), Infallible>) {
        Ok(())
    }

    fn finish(&mut self) -> (r: Result<(), Infallible>) {
        Ok(())
    }
}

/// A source over a list of triples that yields each of them as a success.
/// Its error type `E` is never made: with `Infallible` for `E` the type
/// itself says that the source cannot fail.
pub struct AsOks<T, E> {
    items: Vec<T>,
    next: usize,
    error: PhantomData<E>,
}

/// A source over a list of triples that cannot fail.
pub type AsInfallibleSource<T> = AsOks<T, Infallible>;

impl<T, E> AsOks<T, E> {
    /// The triples that the source has left to yield.
    pub closed spec fn remaining(&self) -> Seq<T> {
        if self.next <= self.items@.len() {
            self.items@.skip(self.next as int)
        } else {
            Seq::empty()
        }
    }

    /// The source that yields `items` from the first to the last.
    pub fn new(items: Vec<T>) -> (source: Self)
        ensures
            source.remaining() == items@,
    {
        AsOks { items, next: 0, error: PhantomData }
    }
}

impl<T: Triple, E: core::fmt::Debug> TripleSource for AsOks<T, E> {
    type Triple = T;

    type Error = E;

    open spec fn pending(&self) -> Seq<Result<Spo<T::Term>, E>> {
        self.remaining().map_values(|t: T| Ok::<Spo<T::Term>, E>(t.spo()))
    }

    fn next_triple(&mut self) -> (item: Option<Result<&T, E>>)
        ensures
            match item {
                None => final(self).remaining() == old(self).remaining(),
                Some(Ok(t)) => {
                    &&& *t == old(self).remaining()[0]
                    &&& final(self).remaining() == old(self).remaining().drop_first()
                },
                Some(Err(_)) => false,
            },
    {
        if self.next < self.items.len() {
            let at: usize = self.next;
            self.next = at + 1;
            Some(Ok(&self.items[at]))
        } else {
            None
        }
    }
}

/// Makes a source that cannot fail of a list of triples. A list of results
/// is no list of triples: what may fail already cannot be wrapped again.
pub trait AsTripleSource<T>: Sized {
    /// The source that yields each triple of the list as a success.
    fn as_triple_source(self) -> AsInfallibleSource<T>;
}

impl<T: Triple> AsTripleSource<T> for Vec<T> {
    fn as_triple_source(self) -> (source: AsInfallibleSource<T>)
        ensures
            source.remaining() == self@,
    {
        AsOks::new(self)
    }
}

/// A source over a queue of results: it yields the triples and the errors
/// of the queue from the front to the back.
pub struct Results<T, E> {
    queue: VecDeque<Result<T, E>>,
    lent: Option<T>,
}

impl<T, E> Results<T, E> {
    /// The results that the source has left to yield.
    pub closed spec fn items(&self) -> Seq<Result<T, E>> {
        self.queue@
    }

    /// The source that yields the results of `queue` from the front.
    pub fn new(queue: VecDeque<Result<T, E>>) -> (source: Self)
        ensures
            source.items() == queue@,
    {
        Results { queue, lent: None }
    }

    /// The source that yields `items` from the first to the last.
    pub fn from_vec(items: Vec<Result<T, E>>) -> (source: Self)
        ensures
            source.items() == items@,
    {
        let mut items = items;
        let ghost all = items@;
        let mut queue: VecDeque<Result<T, E>> = VecDeque::new();
        loop
            invariant
                items@ + queue@ == all,
            ensures
                queue@ == all,
            decreases items@.len(),
        {
            match items.pop() {
                None => {
                    break ;
                },
                Some(item) => {
                    queue.push_front(item);
                },
            }
        }
        Results { queue, lent: None }
    }

    /// The last of the results that are left, or `None` where none is left.
    pub fn last(self) -> (item: Option<Result<T, E>>)
        ensures
            item == if self.items().len() == 0 {
                None
            } else {
                Some(self.items().last())
            },
    {
        let mut queue = self.queue;
        queue.pop_back()
    }
}

impl<T: Triple, E: core::fmt::Debug> TripleSource for Results<T, E> {
    type Triple = T;

    type Error = E;

    open spec fn pending(&self) -> Seq<Result<Spo<T::Term>, E>> {
        self.items().map_values(
            |item: Result<T, E>|
                match item {
                    Ok(t) => Ok(t.spo()),
                    Err(e) => Err(e),
                },
        )
    }

    fn next_triple(&mut self) -> (item: Option<Result<&T, E>>)
        ensures
            match item {
                None => final(self).items() == old(self).items(),
                Some(Ok(t)) => {
                    &&& old(self).items()[0] == Ok::<T, E>(*t)
                    &&& final(self).items() == old(self).items().drop_first()
                },
                Some(Err(e)) => {
                    &&& old(self).items()[0] == Err::<T, E>(e)
                    &&& final(self).items() == old(self).items().drop_first()
                },
            },
    {
        match self.queue.pop_front() {
            None => None,
            Some(Err(e)) => Some(Err(e)),
            Some(Ok(t)) => {
                self.lent = Some(t);
                match &self.lent {
                    Some(t) => Some(Ok(t)),
                    None => None,
                }
            },
        }
    }
}

} // verus!
