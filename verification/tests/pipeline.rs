use sophia::graph::{GraphError, MutableGraph};
use sophia::streams::WhereFrom;
use sophia::triple::stream::{
    AsInfallibleSource, AsOks, AsTripleSource, Results, TripleSink, TripleSource,
};
use sophia::triple::Triple;
use std::collections::VecDeque;
use std::convert::Infallible;

type Terms = [&'static str; 3];

/// What the test sources and sinks fail with.
#[derive(Debug, Clone, PartialEq, Eq)]
struct Failure(&'static str);

impl GraphError for Failure {}

/// A sink that keeps what it is fed, counts its calls and can be told to
/// refuse a feed or to fail when finished.
struct Probe {
    fed: Vec<Terms>,
    finishes: usize,
    refuse_feed: Option<usize>,
    refuse_finish: bool,
}

impl Probe {
    fn new() -> Probe {
        Probe { fed: Vec::new(), finishes: 0, refuse_feed: None, refuse_finish: false }
    }

    /// A probe that refuses the feed number `n`, counted from one.
    fn refusing(n: usize) -> Probe {
        Probe { fed: Vec::new(), finishes: 0, refuse_feed: Some(n), refuse_finish: false }
    }
}

impl TripleSink<&'static str> for Probe {
    type Outcome = usize;
    type Error = Failure;

    fn feed<T: Triple<Term = &'static str>>(&mut self, t: &T) -> Result<(), Failure> {
        self.fed.push([*t.s(), *t.p(), *t.o()]);
        if self.refuse_feed == Some(self.fed.len()) {
            Err(Failure("refused"))
        } else {
            Ok(())
        }
    }

    fn finish(&mut self) -> Result<usize, Failure> {
        self.finishes += 1;
        if self.refuse_finish {
            Err(Failure("not finished"))
        } else {
            Ok(self.fed.len())
        }
    }
}

/// A graph that keeps its triples in the order in which they came. It can
/// be told to take a triple a second time or not, and to fail on a call.
struct ListGraph {
    triples: Vec<Terms>,
    keeps_duplicates: bool,
    calls: usize,
    fail_on_call: Option<usize>,
}

impl ListGraph {
    fn new(keeps_duplicates: bool) -> ListGraph {
        ListGraph { triples: Vec::new(), keeps_duplicates, calls: 0, fail_on_call: None }
    }
}

impl MutableGraph for ListGraph {
    type Term = &'static str;
    type MutationError = Failure;

    fn insert(
        &mut self,
        s: &&'static str,
        p: &&'static str,
        o: &&'static str,
    ) -> Result<bool, Failure> {
        self.calls += 1;
        if self.fail_on_call == Some(self.calls) {
            return Err(Failure("graph is full"));
        }
        let t = [*s, *p, *o];
        if !self.keeps_duplicates && self.triples.contains(&t) {
            return Ok(false);
        }
        self.triples.push(t);
        Ok(true)
    }

    fn remove(
        &mut self,
        s: &&'static str,
        p: &&'static str,
        o: &&'static str,
    ) -> Result<bool, Failure> {
        self.calls += 1;
        if self.fail_on_call == Some(self.calls) {
            return Err(Failure("graph is locked"));
        }
        let t = [*s, *p, *o];
        match self.triples.iter().position(|held| *held == t) {
            Some(at) => {
                self.triples.remove(at);
                Ok(true)
            }
            None => Ok(false),
        }
    }
}

fn three() -> Vec<Terms> {
    vec![["a", "p", "1"], ["a", "p", "2"], ["b", "p", "3"]]
}

fn failing_after(triples: Vec<Terms>, failure: &'static str) -> Results<Terms, Failure> {
    let mut items: Vec<Result<Terms, Failure>> = triples.into_iter().map(Ok).collect();
    items.push(Err(Failure(failure)));
    Results::from_vec(items)
}

#[test]
fn three_triples_into_a_graph_count_three_in_order() {
    let mut graph = ListGraph::new(true);
    let res = three().as_triple_source().in_graph(&mut graph);
    assert_eq!(res, Ok(3));
    assert_eq!(graph.triples, three());
}

#[test]
fn three_triples_into_an_inserter_count_three_in_order() {
    let mut graph = ListGraph::new(true);
    let res = three().as_triple_source().in_sink(&mut graph.inserter());
    assert_eq!(res, Ok(3));
    assert_eq!(graph.triples, three());
    assert_eq!(graph.calls, 3);
}

#[test]
fn a_failing_source_is_tagged_upstream_and_the_sink_is_not_finished() {
    let mut source = failing_after(vec![["a", "p", "1"]], "torn record");
    let mut sink = Probe::new();
    let res = source.in_sink(&mut sink);
    assert_eq!(res, Err(WhereFrom::Upstream(Failure("torn record"))));
    assert_eq!(sink.fed, vec![["a", "p", "1"]]);
    assert_eq!(sink.finishes, 0);
}

#[test]
fn a_sink_that_rejects_the_second_triple_is_tagged_downstream_after_two_feeds() {
    let mut source = three().as_triple_source();
    let mut sink = Probe::refusing(2);
    let res = source.in_sink(&mut sink);
    assert_eq!(res, Err(WhereFrom::Downstream(Failure("refused"))));
    assert_eq!(sink.fed, vec![["a", "p", "1"], ["a", "p", "2"]]);
    assert_eq!(sink.finishes, 0);
}

#[test]
fn the_black_hole_takes_any_number_of_triples() {
    for n in [0usize, 1, 2, 3, 50] {
        let triples: Vec<Terms> = (0..n).map(|_| ["a", "p", "o"]).collect();
        let mut source = triples.as_triple_source();
        let res: Result<(), WhereFrom<Infallible, Infallible>> = source.in_sink(&mut ());
        assert_eq!(res, Ok(()));
        assert_eq!(source.next_triple(), None);
    }
}

#[test]
fn the_black_hole_does_not_hide_a_failure_of_the_source() {
    let mut source = failing_after(three(), "torn record");
    let res = source.in_sink(&mut ());
    assert_eq!(res, Err(WhereFrom::Upstream(Failure("torn record"))));
}

#[test]
fn the_black_hole_is_fed_and_finished_without_failing() {
    let mut sink = ();
    assert_eq!(sink.feed(&["a", "p", "1"]), Ok(()));
    assert_eq!(sink.feed(&("a", "p", "2")), Ok(()));
    assert_eq!(TripleSink::<&str>::finish(&mut sink), Ok(()));
}

#[test]
fn every_triple_is_fed_once_and_in_order() {
    let triples: Vec<Terms> = vec![
        ["s1", "p", "o"],
        ["s2", "p", "o"],
        ["s1", "p", "o"],
        ["s3", "q", "o"],
        ["s2", "p", "o"],
    ];
    let mut sink = Probe::new();
    let res = triples.clone().as_triple_source().in_sink(&mut sink);
    assert_eq!(res, Ok(5));
    assert_eq!(sink.fed, triples);
    assert_eq!(sink.finishes, 1);
}

#[test]
fn an_empty_source_finishes_the_sink_at_once() {
    let mut sink = Probe::new();
    let res = Vec::<Terms>::new().as_triple_source().in_sink(&mut sink);
    assert_eq!(res, Ok(0));
    assert!(sink.fed.is_empty());
    assert_eq!(sink.finishes, 1);
}

#[test]
fn a_source_that_fails_on_pull_k_feeds_k_minus_one_triples() {
    let all: Vec<Terms> = vec![["a", "p", "1"], ["a", "p", "2"], ["b", "p", "3"], ["c", "p", "4"]];
    for k in 1..=5usize {
        let mut source = failing_after(all[..k - 1].to_vec(), "torn record");
        let mut sink = Probe::new();
        let res = source.in_sink(&mut sink);
        assert_eq!(res, Err(WhereFrom::Upstream(Failure("torn record"))));
        assert_eq!(sink.fed, all[..k - 1].to_vec());
        assert_eq!(sink.finishes, 0);
    }
}

#[test]
fn nothing_is_fed_after_a_failure_of_the_source() {
    let items: Vec<Result<Terms, Failure>> = vec![
        Ok(["a", "p", "1"]),
        Err(Failure("torn record")),
        Ok(["a", "p", "2"]),
    ];
    let mut source = Results::from_vec(items);
    let mut sink = Probe::new();
    let res = source.in_sink(&mut sink);
    assert_eq!(res, Err(WhereFrom::Upstream(Failure("torn record"))));
    assert_eq!(sink.fed, vec![["a", "p", "1"]]);
    assert_eq!(source.next_triple(), Some(Ok(&["a", "p", "2"])));
    assert_eq!(source.next_triple(), None);
}

#[test]
fn a_sink_that_fails_on_feed_k_is_never_finished() {
    for k in 1..=3usize {
        let mut source = three().as_triple_source();
        let mut sink = Probe::refusing(k);
        let res = source.in_sink(&mut sink);
        assert_eq!(res, Err(WhereFrom::Downstream(Failure("refused"))));
        assert_eq!(sink.fed, three()[..k].to_vec());
        assert_eq!(sink.finishes, 0);
    }
}

#[test]
fn the_source_is_not_drained_after_a_failure_of_the_sink() {
    let mut source = three().as_triple_source();
    let mut sink = Probe::refusing(1);
    let res = source.in_sink(&mut sink);
    assert_eq!(res, Err(WhereFrom::Downstream(Failure("refused"))));
    assert_eq!(source.next_triple(), Some(Ok(&["a", "p", "2"])));
    assert_eq!(source.next_triple(), Some(Ok(&["b", "p", "3"])));
    assert_eq!(source.next_triple(), None);
}

#[test]
fn the_first_error_wins() {
    let mut source = failing_after(three(), "torn record");
    let mut sink = Probe::refusing(3);
    let res = source.in_sink(&mut sink);
    assert_eq!(res, Err(WhereFrom::Downstream(Failure("refused"))));
    assert_eq!(sink.finishes, 0);
    let mut source = failing_after(three(), "torn record");
    let mut sink = Probe::refusing(4);
    let res = source.in_sink(&mut sink);
    assert_eq!(res, Err(WhereFrom::Upstream(Failure("torn record"))));
    assert_eq!(sink.fed, three());
    assert_eq!(sink.finishes, 0);
}

#[test]
fn a_sink_that_fails_when_finished_is_tagged_downstream() {
    let mut sink = Probe::new();
    sink.refuse_finish = true;
    let res = three().as_triple_source().in_sink(&mut sink);
    assert_eq!(res, Err(WhereFrom::Downstream(Failure("not finished"))));
    assert_eq!(sink.fed, three());
    assert_eq!(sink.finishes, 1);
}

#[test]
fn an_infallible_source_into_the_black_hole_always_succeeds() {
    let lists: Vec<Vec<Terms>> = vec![vec![], vec![["a", "p", "1"]], three()];
    for triples in lists {
        let res = triples.as_triple_source().into_sink(&mut ());
        assert_eq!(res, Ok(()));
    }
}

#[test]
fn as_triple_source_yields_every_triple_as_a_success() {
    let mut source = three().as_triple_source();
    assert_eq!(source.next_triple(), Some(Ok(&["a", "p", "1"])));
    assert_eq!(source.next_triple(), Some(Ok(&["a", "p", "2"])));
    assert_eq!(source.next_triple(), Some(Ok(&["b", "p", "3"])));
    assert_eq!(source.next_triple(), None);
    assert_eq!(source.next_triple(), None);
}

#[test]
fn tuples_are_triples_too() {
    let triples = vec![("a", "p", "1"), ("b", "p", "2")];
    assert_eq!(*triples[0].s(), "a");
    assert_eq!(*triples[0].p(), "p");
    assert_eq!(*triples[0].o(), "1");
    let mut sink = Probe::new();
    let res = triples.as_triple_source().in_sink(&mut sink);
    assert_eq!(res, Ok(2));
    assert_eq!(sink.fed, vec![["a", "p", "1"], ["b", "p", "2"]]);
}

#[test]
fn an_array_gives_its_terms_in_order() {
    let t = ["subject", "predicate", "object"];
    assert_eq!(*t.s(), "subject");
    assert_eq!(*t.p(), "predicate");
    assert_eq!(*t.o(), "object");
}

#[test]
fn results_yield_the_queue_from_the_front() {
    let mut queue: VecDeque<Result<Terms, Failure>> = VecDeque::new();
    queue.push_back(Ok(["a", "p", "1"]));
    queue.push_back(Err(Failure("torn record")));
    queue.push_back(Ok(["a", "p", "2"]));
    let mut source = Results::new(queue);
    assert_eq!(source.next_triple(), Some(Ok(&["a", "p", "1"])));
    assert_eq!(source.next_triple(), Some(Err(Failure("torn record"))));
    assert_eq!(source.next_triple(), Some(Ok(&["a", "p", "2"])));
    assert_eq!(source.next_triple(), None);
}

#[test]
fn results_from_a_list_keep_its_order() {
    let items: Vec<Result<Terms, Failure>> =
        vec![Ok(["a", "p", "1"]), Ok(["a", "p", "2"]), Ok(["b", "p", "3"])];
    let mut sink = Probe::new();
    let res = Results::from_vec(items).in_sink(&mut sink);
    assert_eq!(res, Ok(3));
    assert_eq!(sink.fed, three());
}

#[test]
fn the_last_of_the_results() {
    let items: Vec<Result<Terms, Failure>> = vec![Ok(["a", "p", "1"]), Ok(["a", "p", "2"])];
    assert_eq!(Results::from_vec(items).last(), Some(Ok(["a", "p", "2"])));
    let items: Vec<Result<Terms, Failure>> = vec![Ok(["a", "p", "1"]), Err(Failure("late"))];
    assert_eq!(Results::from_vec(items).last(), Some(Err(Failure("late"))));
    let items: Vec<Result<Terms, Failure>> = vec![];
    assert_eq!(Results::from_vec(items).last(), None);
}

#[test]
fn the_last_of_results_that_were_partly_yielded() {
    let items: Vec<Result<Terms, Failure>> = vec![Ok(["a", "p", "1"]), Ok(["a", "p", "2"])];
    let mut source = Results::from_vec(items);
    assert_eq!(source.next_triple(), Some(Ok(&["a", "p", "1"])));
    assert_eq!(source.next_triple(), Some(Ok(&["a", "p", "2"])));
    assert_eq!(source.last(), None);
}

#[test]
fn a_graph_that_drops_duplicates_counts_the_new_triples_only() {
    let triples: Vec<Terms> = vec![["a", "p", "1"], ["a", "p", "1"], ["b", "p", "3"]];
    let mut graph = ListGraph::new(false);
    let res = triples.as_triple_source().in_graph(&mut graph);
    assert_eq!(res, Ok(2));
    assert_eq!(graph.triples, vec![["a", "p", "1"], ["b", "p", "3"]]);
    assert_eq!(graph.calls, 3);
}

#[test]
fn an_inserter_counts_as_in_graph_does() {
    let triples: Vec<Terms> = vec![["a", "p", "1"], ["a", "p", "1"], ["b", "p", "3"]];
    let mut graph = ListGraph::new(false);
    let res = triples.as_triple_source().in_sink(&mut graph.inserter());
    assert_eq!(res, Ok(2));
    assert_eq!(graph.triples, vec![["a", "p", "1"], ["b", "p", "3"]]);
}

#[test]
fn an_inserter_that_was_fed_nothing_counts_zero() {
    let mut graph = ListGraph::new(true);
    let mut sink = graph.inserter();
    assert_eq!(sink.finish(), Ok(0));
}

#[test]
fn an_inserter_is_fed_by_hand() {
    let mut graph = ListGraph::new(false);
    let mut sink = graph.inserter();
    assert_eq!(sink.feed(&["a", "p", "1"]), Ok(()));
    assert_eq!(sink.feed(&["a", "p", "1"]), Ok(()));
    assert_eq!(sink.feed(&("a", "p", "2")), Ok(()));
    assert_eq!(sink.finish(), Ok(2));
    assert_eq!(graph.triples, vec![["a", "p", "1"], ["a", "p", "2"]]);
}

#[test]
fn a_graph_that_fails_is_tagged_downstream_and_keeps_what_it_took() {
    let mut graph = ListGraph::new(true);
    graph.fail_on_call = Some(3);
    let mut source = three().as_triple_source();
    let res = source.in_graph(&mut graph);
    assert_eq!(res, Err(WhereFrom::Downstream(Failure("graph is full"))));
    assert_eq!(graph.triples, vec![["a", "p", "1"], ["a", "p", "2"]]);
    assert_eq!(source.next_triple(), None);
}

#[test]
fn a_failing_source_is_tagged_upstream_and_the_graph_keeps_what_it_took() {
    let mut graph = ListGraph::new(true);
    let res = failing_after(vec![["a", "p", "1"], ["a", "p", "2"]], "torn record")
        .in_graph(&mut graph);
    assert_eq!(res, Err(WhereFrom::Upstream(Failure("torn record"))));
    assert_eq!(graph.triples, vec![["a", "p", "1"], ["a", "p", "2"]]);
    assert_eq!(graph.calls, 2);
}

#[test]
fn a_remover_counts_the_triples_that_the_graph_held() {
    let mut graph = ListGraph::new(true);
    assert_eq!(three().as_triple_source().in_graph(&mut graph), Ok(3));
    let gone: Vec<Terms> = vec![["a", "p", "2"], ["z", "p", "9"], ["a", "p", "1"]];
    let res = gone.as_triple_source().in_sink(&mut graph.remover());
    assert_eq!(res, Ok(2));
    assert_eq!(graph.triples, vec![["b", "p", "3"]]);
}

#[test]
fn a_remover_passes_the_error_of_the_graph_on() {
    let mut graph = ListGraph::new(true);
    assert_eq!(three().as_triple_source().in_graph(&mut graph), Ok(3));
    graph.fail_on_call = Some(5);
    let res = three().as_triple_source().in_sink(&mut graph.remover());
    assert_eq!(res, Err(WhereFrom::Downstream(Failure("graph is locked"))));
    assert_eq!(graph.triples, vec![["a", "p", "2"], ["b", "p", "3"]]);
}

#[test]
fn into_sink_and_into_graph_give_the_source_up() {
    let mut sink = Probe::new();
    assert_eq!(three().as_triple_source().into_sink(&mut sink), Ok(3));
    assert_eq!(sink.fed, three());
    let mut graph = ListGraph::new(true);
    assert_eq!(three().as_triple_source().into_graph(&mut graph), Ok(3));
    assert_eq!(graph.triples, three());
    let mut graph = ListGraph::new(true);
    let res = failing_after(vec![["a", "p", "1"]], "torn record").into_graph(&mut graph);
    assert_eq!(res, Err(WhereFrom::Upstream(Failure("torn record"))));
}

#[test]
fn a_source_can_be_run_twice() {
    let mut source = three().as_triple_source();
    let mut sink = Probe::new();
    assert_eq!(source.in_sink(&mut sink), Ok(3));
    assert_eq!(source.in_sink(&mut sink), Ok(3));
    assert_eq!(sink.fed, three());
    assert_eq!(sink.finishes, 2);
}

#[test]
fn a_list_of_triples_is_a_source_whatever_the_error_type() {
    let mut source: AsOks<Terms, Failure> = AsOks::new(three());
    let mut sink = Probe::new();
    let res: Result<usize, WhereFrom<Failure, Failure>> = source.in_sink(&mut sink);
    assert_eq!(res, Ok(3));
    assert_eq!(sink.fed, three());
    let mut source: AsInfallibleSource<Terms> = AsInfallibleSource::new(three());
    assert_eq!(source.in_sink(&mut ()), Ok(()));
}
