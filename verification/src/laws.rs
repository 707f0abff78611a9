//! What holds of every run of a stream, whatever the source and the sink.
//!
//! `TripleSource::in_sink` promises `drained`, which follows the run step by
//! step. The laws below restate it as a record of the run, `ran`, and read
//! off the record what a caller wants to know: how often the sink was fed,
//! in which order, whether it was finished, and whose error came back.

#![allow(unused_imports)]

use crate::graph::{Inserter, MutableGraph};
use crate::streams::WhereFrom;
use crate::triple::stream::{AsInfallibleSource, TripleSink, TripleSource};
use crate::triple::{Spo, Triple};
use core::convert::Infallible;
use vstd::prelude::*;

verus! {

/// Every item of `items` is a triple, none an error.
pub open spec fn all_ok<T, E>(items: Seq<Result<T, E>>) -> bool {
    forall|i: int| 0 <= i < items.len() ==> (#[trigger] items[i]) is Ok
}

/// The feed number `i` of a run, counted from zero: the item `items[i]` is
/// a triple, the sink `states[i]` was fed it and became `states[i + 1]`, and
/// the feed succeeded.
pub open spec fn fed_at<X, E, TS: TripleSink<X>>(
    items: Seq<Result<Spo<X>, E>>,
    states: Seq<TS>,
    i: int,
) -> bool {
    &&& items[i] is Ok
    &&& states[i].fed(items[i]->Ok_0, states[i + 1], Ok(()))
}

/// The feeds of a run that succeeded: the sink was fed the first `fed`
/// items, each of them once, in their order. `states[i]` is the sink before
/// it was fed `items[i]`, and `states[fed]` the sink after the last of them.
pub open spec fn fed_in_order<X, E, TS: TripleSink<X>>(
    items: Seq<Result<Spo<X>, E>>,
    fed: int,
    states: Seq<TS>,
) -> bool {
    &&& 0 <= fed <= items.len()
    &&& states.len() == fed + 1
    &&& forall|i: int| 0 <= i < fed ==> #[trigger] fed_at(items, states, i)
}

/// The record of a run. After `fed` feeds that succeeded (see
/// `fed_in_order`) the run ended in one of three ways:
/// - the items were at their end: the sink was finished, once, and the
///   result is what it gave;
/// - the next item was an error: the sink was left as the last feed left it,
///   and the result is that error, marked as upstream;
/// - the next item was a triple on which the sink failed: the sink was left
///   as that feed left it, and the result is its error, marked as downstream.
/// In the last two the sink was not finished, and in all three the source
/// was asked for nothing more.
pub open spec fn ran<X, E, TS: TripleSink<X>>(
    items: Seq<Result<Spo<X>, E>>,
    sink: TS,
    fed: int,
    states: Seq<TS>,
    rest: Seq<Result<Spo<X>, E>>,
    after: TS,
    res: Result<TS::Outcome, WhereFrom<E, TS::Error>>,
) -> bool {
    &&& fed_in_order(items, fed, states)
    &&& states[0] == sink
    &&& if fed == items.len() {
        &&& rest.len() == 0
        &&& exists|r: Result<TS::Outcome, TS::Error>|
            #[trigger] states[fed].finished(after, r) && res == crate::streams::downstream::<
                TS::Outcome,
                E,
                TS::Error,
            >(r)
    } else {
        &&& rest == items.skip(fed + 1)
        &&& match items[fed] {
            Err(e) => {
                &&& after == states[fed]
                &&& res == Err::<TS::Outcome, WhereFrom<E, TS::Error>>(WhereFrom::Upstream(e))
            },
            Ok(t) => exists|e: TS::Error|
                {
                    &&& #[trigger] states[fed].fed(t, after, Err(e))
                    &&& res == Err::<TS::Outcome, WhereFrom<E, TS::Error>>(
                        WhereFrom::Downstream(e),
                    )
                },
        }
    }
}

/// The sink has no choice: what a feed leaves and returns depends on the
/// sink and on the triple alone.
pub open spec fn feeds_without_choice<X, TS: TripleSink<X>>() -> bool {
    forall|
        sink: TS,
        t: Spo<X>,
        after1: TS,
        r1: Result<(), TS::Error>,
        after2: TS,
        r2: Result<(), TS::Error>,
    |
        #![trigger sink.fed(t, after1, r1), sink.fed(t, after2, r2)]
        sink.fed(t, after1, r1) && sink.fed(t, after2, r2) ==> after1 == after2 && r1 == r2
}

/// Writes down the record of a run, by induction over the items.
proof fn lemma_record<X, E, TS: TripleSink<X>>(
    items: Seq<Result<Spo<X>, E>>,
    sink: TS,
    rest: Seq<Result<Spo<X>, E>>,
    after: TS,
    res: Result<TS::Outcome, WhereFrom<E, TS::Error>>,
) -> (record: (int, Seq<TS>))
    requires
        crate::triple::stream::drained(items, sink, rest, after, res),
    ensures
        ran(items, sink, record.0, record.1, rest, after, res),
    decreases items.len(),
{
    let alone = seq![sink];
    assert(alone[0] == sink);
    if items.len() == 0 {
        (0, alone)
    } else {
        match items[0] {
            Err(_) => (0, alone),
            Ok(t) => {
                let (mid, r) = choose|mid: TS, r: Result<(), TS::Error>| #[trigger]
                    sink.fed(t, mid, r) && match r {
                        Err(e) => {
                            &&& rest == items.drop_first()
                            &&& after == mid
                            &&& res == Err::<TS::Outcome, WhereFrom<E, TS::Error>>(
                                WhereFrom::Downstream(e),
                            )
                        },
                        Ok(_) => crate::triple::stream::drained(
                            items.drop_first(),
                            mid,
                            rest,
                            after,
                            res,
                        ),
                    };
                match r {
                    Err(e) => {
                        assert(alone[0].fed(t, after, Err(e)));
                        (0, alone)
                    },
                    Ok(unit) => {
                        // The record of the run on the other items, with the
                        // sink of now put before it.
                        assert(unit == ());
                        let tail = items.drop_first();
                        let (fed, states) = lemma_record(tail, mid, rest, after, res);
                        let all = alone + states;
                        assert forall|i: int| 0 <= i < fed + 1 implies #[trigger] fed_at(
                            items,
                            all,
                            i,
                        ) by {
                            if i > 0 {
                                assert(fed_at(tail, states, i - 1));
                                assert(all[i] == states[i - 1]);
                                assert(all[i + 1] == states[i]);
                                assert(items[i] == tail[i - 1]);
                            } else {
                                assert(all[0] == sink);
                                assert(all[1] == mid);
                                assert(sink.fed(t, mid, Ok(())));
                            }
                        }
                        assert(all[fed + 1] == states[fed]);
                        if fed < tail.len() {
                            assert(tail.skip(fed + 1) == items.skip(fed + 2));
                        }
                        (fed + 1, all)
                    },
                }
            },
        }
    }
}

/// Goes through a record from its first feed, and finds the run that it is
/// the record of.
proof fn lemma_replay<X, E, TS: TripleSink<X>>(
    items: Seq<Result<Spo<X>, E>>,
    sink: TS,
    fed: int,
    states: Seq<TS>,
    rest: Seq<Result<Spo<X>, E>>,
    after: TS,
    res: Result<TS::Outcome, WhereFrom<E, TS::Error>>,
)
    requires
        ran(items, sink, fed, states, rest, after, res),
    ensures
        crate::triple::stream::drained(items, sink, rest, after, res),
    decreases fed,
{
    if fed == 0 {
        if items.len() == 0 {
            assert(rest == items);
        }
    } else {
        let tail = items.drop_first();
        let later = states.drop_first();
        assert(fed_at(items, states, 0));
        assert forall|i: int| 0 <= i < fed - 1 implies #[trigger] fed_at(tail, later, i) by {
            assert(fed_at(items, states, i + 1));
        }
        assert(later[fed - 1] == states[fed]);
        if fed - 1 < tail.len() {
            assert(tail.skip(fed) == items.skip(fed + 1));
        }
        lemma_replay(tail, states[1], fed - 1, later, rest, after, res);
    }
}

/// Two records of feeds on the same items, from the same sink, go through
/// the same sinks, where the sink has no choice.
proof fn lemma_same_states<X, E, TS: TripleSink<X>>(
    items: Seq<Result<Spo<X>, E>>,
    fed1: int,
    states1: Seq<TS>,
    fed2: int,
    states2: Seq<TS>,
    i: int,
)
    requires
        feeds_without_choice::<X, TS>(),
        fed_in_order(items, fed1, states1),
        fed_in_order(items, fed2, states2),
        states1[0] == states2[0],
        0 <= i <= fed1,
        i <= fed2,
    ensures
        states1[i] == states2[i],
    decreases i,
{
    if i > 0 {
        lemma_same_states(items, fed1, states1, fed2, states2, i - 1);
        assert(fed_at(items, states1, i - 1));
        assert(fed_at(items, states2, i - 1));
    }
}

/// Every run has a record, and every record is that of a run: `drained` and
/// `ran` say the same.
pub proof fn law_record<X, E, TS: TripleSink<X>>(
    items: Seq<Result<Spo<X>, E>>,
    sink: TS,
    rest: Seq<Result<Spo<X>, E>>,
    after: TS,
    res: Result<TS::Outcome, WhereFrom<E, TS::Error>>,
)
    ensures
        crate::triple::stream::drained(items, sink, rest, after, res) <==> exists|
            fed: int,
            states: Seq<TS>,
        | ran(items, sink, fed, states, rest, after, res),
{
    if crate::triple::stream::drained(items, sink, rest, after, res) {
        let (fed, states) = lemma_record(items, sink, rest, after, res);
        assert(ran(items, sink, fed, states, rest, after, res));
    }
    if exists|fed: int, states: Seq<TS>| ran(items, sink, fed, states, rest, after, res) {
        let (fed, states) = choose|fed: int, states: Seq<TS>|
            ran(items, sink, fed, states, rest, after, res);
        lemma_replay(items, sink, fed, states, rest, after, res);
    }
}

/// A run that succeeds has fed every item of the source to the sink, in
/// order, and then finished the sink, which gave the outcome.
pub proof fn law_success<X, E, TS: TripleSink<X>>(
    items: Seq<Result<Spo<X>, E>>,
    sink: TS,
    rest: Seq<Result<Spo<X>, E>>,
    after: TS,
    res: Result<TS::Outcome, WhereFrom<E, TS::Error>>,
)
    requires
        crate::triple::stream::drained(items, sink, rest, after, res),
        res is Ok,
    ensures
        all_ok(items),
        rest.len() == 0,
        exists|states: Seq<TS>|
            {
                &&& #[trigger] fed_in_order(items, items.len() as int, states)
                &&& states[0] == sink
                &&& states[items.len() as int].finished(after, Ok(res->Ok_0))
            },
{
    let (fed, states) = lemma_record(items, sink, rest, after, res);
    assert(fed == items.len());
    assert forall|i: int| 0 <= i < items.len() implies (#[trigger] items[i]) is Ok by {
        assert(fed_at(items, states, i));
    }
    assert(fed_in_order(items, items.len() as int, states));
}

/// A run that ends with an upstream error has found that error in the
/// source, after triples only. It has fed these triples to the sink, in
/// order, and has left the sink as the last feed left it: not finished.
pub proof fn law_upstream_error<X, E, TS: TripleSink<X>>(
    items: Seq<Result<Spo<X>, E>>,
    sink: TS,
    rest: Seq<Result<Spo<X>, E>>,
    after: TS,
    res: Result<TS::Outcome, WhereFrom<E, TS::Error>>,
)
    requires
        crate::triple::stream::drained(items, sink, rest, after, res),
        res matches Err(WhereFrom::Upstream(_)),
    ensures
        exists|k: int, states: Seq<TS>|
            {
                &&& #[trigger] fed_in_order(items, k, states)
                &&& k < items.len()
                &&& items[k] == Err::<Spo<X>, E>(res->Err_0->Upstream_0)
                &&& states[0] == sink
                &&& states[k] == after
                &&& rest == items.skip(k + 1)
            },
{
    let (fed, states) = lemma_record(items, sink, rest, after, res);
    assert(fed_in_order(items, fed, states));
}

/// A run that ends with a downstream error has fed the sink some of the
/// triples of the source, in order, and then
/// - either the sink failed on the next triple: it was left as that feed
///   left it, not finished, and the source was asked for nothing more;
/// - or the source was at its end, and the sink failed when it was finished.
pub proof fn law_downstream_error<X, E, TS: TripleSink<X>>(
    items: Seq<Result<Spo<X>, E>>,
    sink: TS,
    rest: Seq<Result<Spo<X>, E>>,
    after: TS,
    res: Result<TS::Outcome, WhereFrom<E, TS::Error>>,
)
    requires
        crate::triple::stream::drained(items, sink, rest, after, res),
        res matches Err(WhereFrom::Downstream(_)),
    ensures
        exists|k: int, states: Seq<TS>|
            {
                &&& #[trigger] fed_in_order(items, k, states)
                &&& states[0] == sink
                &&& if k < items.len() {
                    &&& items[k] is Ok
                    &&& states[k].fed(items[k]->Ok_0, after, Err(res->Err_0->Downstream_0))
                    &&& rest == items.skip(k + 1)
                } else {
                    &&& states[k].finished(after, Err(res->Err_0->Downstream_0))
                    &&& rest.len() == 0
                }
            },
{
    let (fed, states) = lemma_record(items, sink, rest, after, res);
    assert(fed_in_order(items, fed, states));
}

/// A source that does not fail, run into the sink `()`, gives `Ok(())` and
/// is left empty.
pub proof fn law_black_hole_succeeds<X, E>(
    items: Seq<Result<Spo<X>, E>>,
    rest: Seq<Result<Spo<X>, E>>,
    res: Result<(), WhereFrom<E, Infallible>>,
)
    requires
        all_ok(items),
        crate::triple::stream::drained(items, (), rest, (), res),
    ensures
        res == Ok::<(), WhereFrom<E, Infallible>>(()),
        rest.len() == 0,
{
    let (fed, states) = lemma_record(items, (), rest, (), res);
    if fed < items.len() {
        // The sink `()` fails on no triple, and no item is an error.
        assert(items[fed] is Ok);
        assert(false);
    }
}

/// The sink `()` is never seen to fail: whatever the source, no run into it
/// ends with a downstream error.
pub proof fn law_black_hole_never_fails<X, E>(
    items: Seq<Result<Spo<X>, E>>,
    rest: Seq<Result<Spo<X>, E>>,
    res: Result<(), WhereFrom<E, Infallible>>,
)
    requires
        crate::triple::stream::drained(items, (), rest, (), res),
    ensures
        !(res matches Err(WhereFrom::Downstream(_))),
{
    let (fed, states) = lemma_record(items, (), rest, (), res);
}

/// The sink is fed the triples in the order in which the source yields
/// them, none is left out and none is fed twice: a run feeds the first `fed`
/// items, one after the other. Where the source does not fail, `fed` is the
/// number of its triples, unless the sink fails on one of them.
pub proof fn law_order_preserved<X, E, TS: TripleSink<X>>(
    items: Seq<Result<Spo<X>, E>>,
    sink: TS,
    rest: Seq<Result<Spo<X>, E>>,
    after: TS,
    res: Result<TS::Outcome, WhereFrom<E, TS::Error>>,
)
    requires
        all_ok(items),
        crate::triple::stream::drained(items, sink, rest, after, res),
    ensures
        !(res matches Err(WhereFrom::Upstream(_))),
        exists|fed: int, states: Seq<TS>| #[trigger]
            ran(items, sink, fed, states, rest, after, res) && (fed == items.len()
                || res matches Err(WhereFrom::Downstream(_))),
{
    let (fed, states) = lemma_record(items, sink, rest, after, res);
    if fed < items.len() {
        assert(items[fed] is Ok);
    }
    assert(ran(items, sink, fed, states, rest, after, res));
}

/// Where the source fails on the item number `k`, counted from zero, and
/// the sink has not failed before, the sink is fed the `k` triples before
/// that item and nothing after them, it is not finished, and the result is
/// the error of the source, marked as upstream.
pub proof fn law_source_failure<X, E, TS: TripleSink<X>>(
    items: Seq<Result<Spo<X>, E>>,
    sink: TS,
    rest: Seq<Result<Spo<X>, E>>,
    after: TS,
    res: Result<TS::Outcome, WhereFrom<E, TS::Error>>,
    k: int,
)
    requires
        0 <= k < items.len(),
        all_ok(items.take(k)),
        items[k] is Err,
        crate::triple::stream::drained(items, sink, rest, after, res),
        !(res matches Err(WhereFrom::Downstream(_))),
    ensures
        res == Err::<TS::Outcome, WhereFrom<E, TS::Error>>(WhereFrom::Upstream(items[k]->Err_0)),
        rest == items.skip(k + 1),
        exists|states: Seq<TS>|
            {
                &&& #[trigger] fed_in_order(items, k, states)
                &&& states[0] == sink
                &&& states[k] == after
            },
{
    let (fed, states) = lemma_record(items, sink, rest, after, res);
    if fed > k {
        // No feed goes past the error.
        assert(fed_at(items, states, k));
        assert(false);
    }
    if fed < k {
        // A run that stops at a triple stops on a failure of the sink.
        assert(items.take(k)[fed] is Ok);
        assert(false);
    }
    assert(fed_in_order(items, k, states));
}

/// Where the sink fails on the item number `k`, counted from zero, after
/// `k` feeds that succeeded, the sink is left as that feed left it (it is
/// not finished), the source is asked for nothing more, and the result is
/// the error of the sink, marked as downstream. This is stated of a sink
/// that has no choice: of another, that a feed may fail does not say that
/// it failed in the run.
pub proof fn law_sink_failure<X, E, TS: TripleSink<X>>(
    items: Seq<Result<Spo<X>, E>>,
    sink: TS,
    rest: Seq<Result<Spo<X>, E>>,
    after: TS,
    res: Result<TS::Outcome, WhereFrom<E, TS::Error>>,
    k: int,
    states: Seq<TS>,
    failed: TS,
    e: TS::Error,
)
    requires
        feeds_without_choice::<X, TS>(),
        fed_in_order(items, k, states),
        states[0] == sink,
        k < items.len(),
        items[k] is Ok,
        states[k].fed(items[k]->Ok_0, failed, Err(e)),
        crate::triple::stream::drained(items, sink, rest, after, res),
    ensures
        res == Err::<TS::Outcome, WhereFrom<E, TS::Error>>(WhereFrom::Downstream(e)),
        after == failed,
        rest == items.skip(k + 1),
{
    let (fed, seen) = lemma_record(items, sink, rest, after, res);
    if fed < k {
        // The run stopped on a triple that the sink is known to take.
        lemma_same_states(items, k, states, fed, seen, fed);
        assert(fed_at(items, states, fed));
        assert(false);
    } else if fed > k {
        // The run went past a triple that the sink is known to refuse.
        lemma_same_states(items, k, states, fed, seen, k);
        assert(fed_at(items, seen, k));
        assert(false);
    } else {
        lemma_same_states(items, k, states, fed, seen, k);
    }
}

/// A list of triples, made a source that cannot fail and run into the sink
/// `()`, always gives `Ok(())`.
pub proof fn law_infallible_source_succeeds<T: Triple>(
    source: AsInfallibleSource<T>,
    rest: Seq<Result<Spo<T::Term>, Infallible>>,
    res: Result<(), WhereFrom<Infallible, Infallible>>,
)
    requires
        crate::triple::stream::drained(source.pending(), (), rest, (), res),
    ensures
        res == Ok::<(), WhereFrom<Infallible, Infallible>>(()),
        rest.len() == 0,
{
    law_black_hole_succeeds(source.pending(), rest, res);
}

/// Running a source into the inserter of a graph loads the graph: what
/// `drained` says of the inserter, `loaded` says of the graph that it holds
/// and of its count.
pub proof fn law_inserter_loads<G: MutableGraph, E>(
    items: Seq<Result<Spo<G::Term>, E>>,
    sink: Inserter<'_, G>,
    rest: Seq<Result<Spo<G::Term>, E>>,
    after: Inserter<'_, G>,
    res: Result<usize, WhereFrom<E, G::MutationError>>,
)
    requires
        crate::triple::stream::drained(items, sink, rest, after, res),
    ensures
        crate::graph::loaded(items, sink.graph(), sink.count(), rest, after.graph(), res),
    decreases items.len(),
{
    if items.len() > 0 {
        if let Ok(t) = items[0] {
            let (mid, r) = choose|mid: Inserter<'_, G>, r: Result<(), G::MutationError>| #[trigger]
                sink.fed(t, mid, r) && match r {
                    Err(e) => {
                        &&& rest == items.drop_first()
                        &&& after == mid
                        &&& res == Err::<usize, WhereFrom<E, G::MutationError>>(
                            WhereFrom::Downstream(e),
                        )
                    },
                    Ok(_) => crate::triple::stream::drained(
                        items.drop_first(),
                        mid,
                        rest,
                        after,
                        res,
                    ),
                };
            if r is Ok {
                law_inserter_loads(items.drop_first(), mid, rest, after, res);
            }
            let g = choose|g: Result<bool, G::MutationError>| #[trigger]
                sink.graph().inserts(t, mid.graph(), g) && match g {
                    Ok(added) => r is Ok && mid.count() == crate::graph::counted(
                        sink.count(),
                        added,
                    ),
                    Err(e) => r == Err::<(), G::MutationError>(e) && mid.count() == sink.count(),
                };
            assert(sink.graph().inserts(t, mid.graph(), g));
        }
    }
}

/// The graph takes every triple that it is given as a new one, and does not
/// fail.
pub open spec fn takes_all<G: MutableGraph>() -> bool {
    forall|graph: G, t: Spo<G::Term>, after: G, r: Result<bool, G::MutationError>| #[trigger]
        graph.inserts(t, after, r) ==> r == Ok::<bool, G::MutationError>(true)
}

/// A source that does not fail, loaded into a graph that takes every triple
/// as a new one, is loaded to its end, and the count goes up by the number
/// of its triples.
pub proof fn law_all_taken_all_counted<G: MutableGraph, E>(
    items: Seq<Result<Spo<G::Term>, E>>,
    graph: G,
    count: usize,
    rest: Seq<Result<Spo<G::Term>, E>>,
    after: G,
    res: Result<usize, WhereFrom<E, G::MutationError>>,
)
    requires
        takes_all::<G>(),
        all_ok(items),
        count + items.len() <= usize::MAX,
        crate::graph::loaded(items, graph, count, rest, after, res),
    ensures
        res == Ok::<usize, WhereFrom<E, G::MutationError>>((count + items.len()) as usize),
        rest.len() == 0,
    decreases items.len(),
{
    if items.len() > 0 {
        assert(items[0] is Ok);
        let t = items[0]->Ok_0;
        let tail = items.drop_first();
        let (mid, r) = choose|mid: G, r: Result<bool, G::MutationError>| #[trigger]
            graph.inserts(t, mid, r) && match r {
                Err(e) => {
                    &&& rest == tail
                    &&& after == mid
                    &&& res == Err::<usize, WhereFrom<E, G::MutationError>>(
                        WhereFrom::Downstream(e),
                    )
                },
                Ok(added) => crate::graph::loaded(
                    tail,
                    mid,
                    crate::graph::counted(count, added),
                    rest,
                    after,
                    res,
                ),
            };
        assert(r == Ok::<bool, G::MutationError>(true));
        assert forall|i: int| 0 <= i < tail.len() implies (#[trigger] tail[i]) is Ok by {
            assert(items[i + 1] is Ok);
        }
        law_all_taken_all_counted(tail, mid, (count + 1) as usize, rest, after, res);
    }
}

/// The sink has no choice when it is finished either: what it leaves and
/// returns depends on the sink alone.
pub open spec fn finishes_without_choice<X, TS: TripleSink<X>>() -> bool {
    forall|
        sink: TS,
        after1: TS,
        r1: Result<TS::Outcome, TS::Error>,
        after2: TS,
        r2: Result<TS::Outcome, TS::Error>,
    |
        #![trigger sink.finished(after1, r1), sink.finished(after2, r2)]
        sink.finished(after1, r1) && sink.finished(after2, r2) ==> after1 == after2 && r1 == r2
}

/// A source and a sink that has no choice have one run only: what is left
/// of the source, what becomes of the sink and what is returned depend on
/// the two alone.
pub proof fn law_one_run<X, E, TS: TripleSink<X>>(
    items: Seq<Result<Spo<X>, E>>,
    sink: TS,
    rest1: Seq<Result<Spo<X>, E>>,
    after1: TS,
    res1: Result<TS::Outcome, WhereFrom<E, TS::Error>>,
    rest2: Seq<Result<Spo<X>, E>>,
    after2: TS,
    res2: Result<TS::Outcome, WhereFrom<E, TS::Error>>,
)
    requires
        feeds_without_choice::<X, TS>(),
        finishes_without_choice::<X, TS>(),
        crate::triple::stream::drained(items, sink, rest1, after1, res1),
        crate::triple::stream::drained(items, sink, rest2, after2, res2),
    ensures
        rest1 == rest2,
        after1 == after2,
        res1 == res2,
    decreases items.len(),
{
    if items.len() == 0 {
        let r1 = choose|r: Result<TS::Outcome, TS::Error>|
            #[trigger] sink.finished(after1, r) && res1 == crate::streams::downstream::<
                TS::Outcome,
                E,
                TS::Error,
            >(r);
        let r2 = choose|r: Result<TS::Outcome, TS::Error>|
            #[trigger] sink.finished(after2, r) && res2 == crate::streams::downstream::<
                TS::Outcome,
                E,
                TS::Error,
            >(r);
        assert(r1 == r2);
    } else if let Ok(t) = items[0] {
        let tail = items.drop_first();
        let (mid1, r1) = choose|mid: TS, r: Result<(), TS::Error>| #[trigger]
            sink.fed(t, mid, r) && match r {
                Err(e) => {
                    &&& rest1 == tail
                    &&& after1 == mid
                    &&& res1 == Err::<TS::Outcome, WhereFrom<E, TS::Error>>(
                        WhereFrom::Downstream(e),
                    )
                },
                Ok(_) => crate::triple::stream::drained(tail, mid, rest1, after1, res1),
            };
        let (mid2, r2) = choose|mid: TS, r: Result<(), TS::Error>| #[trigger]
            sink.fed(t, mid, r) && match r {
                Err(e) => {
                    &&& rest2 == tail
                    &&& after2 == mid
                    &&& res2 == Err::<TS::Outcome, WhereFrom<E, TS::Error>>(
                        WhereFrom::Downstream(e),
                    )
                },
                Ok(_) => crate::triple::stream::drained(tail, mid, rest2, after2, res2),
            };
        assert(mid1 == mid2 && r1 == r2);
        if r1 is Ok {
            law_one_run(tail, mid1, rest1, after1, res1, rest2, after2, res2);
        }
    }
}

} // verus!
