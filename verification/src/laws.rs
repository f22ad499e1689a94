//! What a search finds, held against the graph that it walks.
//!
//! A run of the search over a graph hands each expanded article the links
//! that the graph gives it. The laws say of every graph what such a run
//! returns.

use vstd::prelude::*;
use crate::address::AddressView;
use crate::graph::{
    Graph,
    connects,
    is_walk,
    leads,
    lemma_walk_drop_last,
    lemma_walk_push,
    lemma_walk_shortcut,
    linked,
    reachable,
};
use crate::search::{
    SearchView,
    lemma_absorb_sound,
    lemma_begin_sound,
    lemma_discover_sound,
    lemma_fetched_differ,
    lemma_no_return,
    lemma_retire_sound,
};

verus! {

/// How a run of the search ends.
pub enum Outcome {
    /// The end was sighted: the path from the start to it.
    Found(Seq<AddressView>),
    /// The frontier is empty and the end was never sighted.
    NoPath,
    /// The run was cut short: articles still wait.
    Unfinished,
}

/// The search `search` run over `graph` for at most `budget` fetches: the
/// state it ends in, and how it ends.
pub open spec fn run(graph: Graph, search: SearchView, budget: nat) -> (SearchView, Outcome)
    decreases budget,
{
    if !search.active() {
        (search, Outcome::NoPath)
    } else if budget == 0 {
        (search, Outcome::Unfinished)
    } else {
        let (next, found) = search.expand(graph(search.current()));
        match found {
            Some(path) => (next, Outcome::Found(path)),
            None => run(graph, next, (budget - 1) as nat),
        }
    }
}

/// The search from `start` for `end` over `graph`, for at most `budget`
/// fetches.
pub open spec fn shortest_path(
    graph: Graph,
    start: AddressView,
    end: AddressView,
    budget: nat,
) -> (SearchView, Outcome) {
    run(graph, SearchView::begin(start, end), budget)
}

impl SearchView {
    /// Whether the search is what a run over `graph` can have come to:
    /// every recorded path is a walk of the graph, and no walk to its
    /// article is shorter; every link of an expanded article is discovered,
    /// and none is the end.
    pub open spec fn agrees(self, graph: Graph) -> bool {
        &&& self.sound()
        &&& forall|i: int| 0 <= i < self.paths.len() ==> is_walk(graph, #[trigger] self.paths[i])
        &&& forall|i: int, to: AddressView|
            0 <= i < self.expanded && #[trigger] linked(graph, self.nodes()[i], to) ==> to
                != self.end && self.nodes().contains(to)
        &&& forall|i: int, walk: Seq<AddressView>|
            0 <= i < self.paths.len() && #[trigger] leads(
                graph,
                walk,
                self.start(),
                self.nodes()[i],
            ) ==> self.paths[i].len() <= walk.len()
    }
}

/// A search that has just begun agrees with every graph.
pub proof fn lemma_begin_agrees(graph: Graph, start: AddressView, end: AddressView)
    ensures
        SearchView::begin(start, end).agrees(graph),
{
    let s = SearchView::begin(start, end);
    lemma_begin_sound(start, end);
    assert forall|i: int| 0 <= i < s.paths.len() implies is_walk(graph, #[trigger] s.paths[i]) by {}
}

/// An article that the search has not discovered lies further from the
/// start than the article at the front of the frontier, and an article
/// waits.
pub proof fn lemma_unknown_is_far(graph: Graph, s: SearchView, walk: Seq<AddressView>)
    requires
        s.agrees(graph),
        is_walk(graph, walk),
        walk[0] == s.start(),
        !s.nodes().contains(walk.last()),
    ensures
        s.active(),
        walk.len() >= s.trail().len() + 1,
    decreases walk.len(),
{
    // The start is known, so the walk has a last link: from `via`.
    assert(s.nodes()[0] == s.start());
    let shorter = walk.drop_last();
    lemma_walk_drop_last(graph, walk);
    let via = shorter.last();
    if !s.nodes().contains(via) {
        lemma_unknown_is_far(graph, s, shorter);
    } else {
        // A known article with an unknown link was not expanded: it waits,
        // no nearer to the start than the front of the frontier.
        let k = s.nodes().index_of(via);
        assert(leads(graph, shorter, s.start(), s.nodes()[k]));
    }
}

/// No walk of at least one link from the start to the end is shorter than
/// the trail of the article at the front of the frontier and one link more.
pub proof fn lemma_end_is_far(graph: Graph, s: SearchView, walk: Seq<AddressView>)
    requires
        s.agrees(graph),
        connects(graph, walk, s.start(), s.end),
    ensures
        s.active(),
        walk.len() >= s.trail().len() + 1,
{
    let shorter = walk.drop_last();
    lemma_walk_drop_last(graph, walk);
    let via = shorter.last();
    if !s.nodes().contains(via) {
        lemma_unknown_is_far(graph, s, shorter);
    } else {
        // An article with a link to the end was not expanded.
        let k = s.nodes().index_of(via);
        assert(leads(graph, shorter, s.start(), s.nodes()[k]));
    }
}

/// Discovering a link of the current article keeps the search in agreement
/// with the graph.
pub proof fn lemma_discover_agrees(graph: Graph, s: SearchView, link: AddressView)
    requires
        s.agrees(graph),
        s.active(),
        linked(graph, s.current(), link),
    ensures
        s.discover(link).agrees(graph),
        s.discover(link).nodes().contains(link),
        forall|node: AddressView|
            s.nodes().contains(node) ==> s.discover(link).nodes().contains(node),
{
    let t = s.discover(link);
    lemma_discover_sound(s, link);
    let n = s.paths.len() as int;
    assert forall|i: int| 0 <= i < n implies t.nodes()[i] == s.nodes()[i] by {}
    assert forall|node: AddressView| s.nodes().contains(node) implies t.nodes().contains(
        node,
    ) by {
        let k = s.nodes().index_of(node);
    }
    if !s.nodes().contains(link) && link != s.current() {
        assert(t.nodes()[n] == link);
        assert forall|i: int| 0 <= i < t.paths.len() implies is_walk(
            graph,
            #[trigger] t.paths[i],
        ) by {
            if i == n {
                lemma_walk_push(graph, s.trail(), link);
            }
        }
        assert forall|i: int, to: AddressView|
            0 <= i < t.expanded && #[trigger] linked(graph, t.nodes()[i], to) implies to != t.end
            && t.nodes().contains(to) by {}
        assert forall|i: int, walk: Seq<AddressView>|
            0 <= i < t.paths.len() && #[trigger] leads(
                graph,
                walk,
                t.start(),
                t.nodes()[i],
            ) implies t.paths[i].len() <= walk.len() by {
            if i == n {
                lemma_unknown_is_far(graph, s, walk);
            }
        }
    }
}

/// Reading the links of the current article off the graph: when the end is
/// among them, the path returned is a shortest one; when it is not, the
/// search stays in agreement with the graph. `done` holds the links that
/// were read before, `rest` those that are still to read.
pub proof fn lemma_absorb_agrees(
    graph: Graph,
    s: SearchView,
    done: Seq<AddressView>,
    rest: Seq<AddressView>,
)
    requires
        s.agrees(graph),
        s.active(),
        graph(s.current()) == done + rest,
        forall|k: int| 0 <= k < done.len() ==> done[k] != s.end && s.nodes().contains(done[k]),
    ensures
        match s.absorb(rest).1 {
            Some(path) => {
                &&& connects(graph, path, s.start(), s.end)
                &&& forall|walk: Seq<AddressView>| #[trigger]
                    connects(graph, walk, s.start(), s.end) ==> path.len() <= walk.len()
            },
            None => s.absorb(rest).0.agrees(graph),
        },
    decreases rest.len(),
{
    let links = graph(s.current());
    if rest.len() == 0 {
        let t = s.retire();
        lemma_retire_sound(s);
        assert forall|i: int, to: AddressView|
            0 <= i < t.expanded && #[trigger] linked(graph, t.nodes()[i], to) implies to != t.end
            && t.nodes().contains(to) by {
            if i == s.expanded {
                let k = done.index_of(to);
            }
        }
        assert forall|i: int, walk: Seq<AddressView>|
            0 <= i < t.paths.len() && #[trigger] leads(
                graph,
                walk,
                t.start(),
                t.nodes()[i],
            ) implies t.paths[i].len() <= walk.len() by {}
    } else if rest[0] == s.end {
        let path = s.trail().push(s.end);
        assert(links[done.len() as int] == rest[0]);
        lemma_walk_push(graph, s.trail(), s.end);
        assert forall|walk: Seq<AddressView>| #[trigger]
            connects(graph, walk, s.start(), s.end) implies path.len() <= walk.len() by {
            lemma_end_is_far(graph, s, walk);
        }
    } else {
        let link = rest[0];
        let t = s.discover(link);
        assert(links[done.len() as int] == link);
        lemma_discover_sound(s, link);
        lemma_discover_agrees(graph, s, link);
        let read = done.push(link);
        assert(read + rest.drop_first() =~= done + rest);
        lemma_absorb_agrees(graph, t, read, rest.drop_first());
    }
}

/// One step of a search over the graph. When the search is handed the links
/// that the graph gives the current article, the path that it returns is a
/// shortest one, and where it returns none it stays in agreement with the
/// graph.
pub proof fn lemma_expand_agrees(graph: Graph, s: SearchView)
    requires
        s.agrees(graph),
    ensures
        match s.expand(graph(s.current())).1 {
            Some(path) => {
                &&& connects(graph, path, s.start(), s.end)
                &&& forall|walk: Seq<AddressView>| #[trigger]
                    connects(graph, walk, s.start(), s.end) ==> path.len() <= walk.len()
            },
            None => s.expand(graph(s.current())).0.agrees(graph),
        },
{
    if s.active() {
        let links = graph(s.current());
        lemma_absorb_agrees(graph, s, Seq::empty(), links);
    }
}

/// Once nothing waits, the discovered articles are those that a walk from
/// the start leads to, each was fetched, and no walk of at least one link
/// leads from the start to the end.
pub proof fn lemma_exhausted(graph: Graph, s: SearchView)
    requires
        s.agrees(graph),
        !s.active(),
    ensures
        forall|walk: Seq<AddressView>| !#[trigger] connects(graph, walk, s.start(), s.end),
        s.fetched() == s.nodes(),
        s.fetched().to_set() == reachable(graph, s.start()),
{
    assert forall|walk: Seq<AddressView>| !#[trigger] connects(
        graph,
        walk,
        s.start(),
        s.end,
    ) by {
        if connects(graph, walk, s.start(), s.end) {
            lemma_end_is_far(graph, s, walk);
        }
    }
    assert(s.fetched() =~= s.nodes());
    assert forall|node: AddressView| s.nodes().contains(node) implies reachable(
        graph,
        s.start(),
    ).contains(node) by {
        let k = s.nodes().index_of(node);
        assert(leads(graph, s.paths[k], s.start(), node));
    }
    assert forall|node: AddressView| reachable(graph, s.start()).contains(
        node,
    ) implies s.nodes().contains(node) by {
        let walk = choose|walk: Seq<AddressView>| leads(graph, walk, s.start(), node);
        if !s.nodes().contains(node) {
            lemma_unknown_is_far(graph, s, walk);
        }
    }
}

/// A run from a search that agrees with the graph: what it found is a
/// shortest walk, and where it found nothing the state it ends in still
/// agrees with the graph. Each step of the run fetches one article.
pub proof fn lemma_run(graph: Graph, s: SearchView, budget: nat)
    requires
        s.agrees(graph),
    ensures
        run(graph, s, budget).0.sound(),
        run(graph, s, budget).0.start() == s.start(),
        run(graph, s, budget).0.end == s.end,
        s.paths.is_prefix_of(run(graph, s, budget).0.paths),
        match run(graph, s, budget).1 {
            Outcome::Found(path) => {
                &&& connects(graph, path, s.start(), s.end)
                &&& forall|walk: Seq<AddressView>| #[trigger]
                    connects(graph, walk, s.start(), s.end) ==> path.len() <= walk.len()
            },
            Outcome::NoPath => {
                &&& run(graph, s, budget).0.agrees(graph)
                &&& !run(graph, s, budget).0.active()
                &&& run(graph, s, budget).0.expanded <= s.expanded + budget
            },
            Outcome::Unfinished => {
                &&& run(graph, s, budget).0.agrees(graph)
                &&& run(graph, s, budget).0.active()
                &&& run(graph, s, budget).0.expanded == s.expanded + budget
            },
        },
    decreases budget,
{
    if s.active() && budget > 0 {
        let links = graph(s.current());
        let (next, found) = s.expand(links);
        lemma_absorb_sound(s, links);
        lemma_expand_agrees(graph, s);
        if found is None {
            lemma_run(graph, next, (budget - 1) as nat);
            let last = run(graph, next, (budget - 1) as nat).0;
            assert(s.paths =~= last.paths.subrange(0, s.paths.len() as int));
        }
    }
}

/// The path that a search returns is a shortest one. Whatever the graph,
/// when the search from `start` for `end` returns a path, the path is a
/// walk of the graph from `start` to `end`, and no walk of at least one link
/// from `start` to `end` has fewer links.
pub proof fn law_found_is_shortest(
    graph: Graph,
    start: AddressView,
    end: AddressView,
    budget: nat,
)
    ensures
        shortest_path(graph, start, end, budget).1 matches Outcome::Found(path) ==> {
            &&& connects(graph, path, start, end)
            &&& forall|walk: Seq<AddressView>| #[trigger]
                connects(graph, walk, start, end) ==> path.len() <= walk.len()
        },
{
    lemma_begin_sound(start, end);
    lemma_begin_agrees(graph, start, end);
    lemma_run(graph, SearchView::begin(start, end), budget);
}

/// The path that a search returns goes nowhere twice. Whatever the graph,
/// no article stands twice among the articles of a returned path before its
/// last. The last may be the first: a search for its own start returns the
/// shortest way round.
pub proof fn law_found_is_simple(graph: Graph, start: AddressView, end: AddressView, budget: nat)
    ensures
        shortest_path(graph, start, end, budget).1 matches Outcome::Found(path) ==> path.drop_last(
        ).no_duplicates(),
{
    law_found_is_shortest(graph, start, end, budget);
    match shortest_path(graph, start, end, budget).1 {
        Outcome::Found(found) => {
            let before = found.drop_last();
            assert forall|i: int, j: int|
                0 <= i < before.len() && 0 <= j < before.len() && i != j implies before[i]
                != before[j] by {
                if before[i] == before[j] {
                    let (low, high) = if i < j {
                        (i, j)
                    } else {
                        (j, i)
                    };
                    lemma_walk_shortcut(graph, found, low, high);
                    let short = found.take(low + 1) + found.skip(high + 1);
                    assert(connects(graph, short, start, end));
                }
            }
        },
        _ => {},
    }
}

/// A search that ends without a path has been everywhere. Whatever the
/// graph, when the search from `start` for `end` ends with nothing waiting,
/// no walk of at least one link leads from `start` to `end`, and the articles
/// that were fetched are those that a walk from `start` leads to, each
/// fetched once: as many fetches as there are such articles.
pub proof fn law_no_path_is_exhaustive(
    graph: Graph,
    start: AddressView,
    end: AddressView,
    budget: nat,
)
    ensures
        shortest_path(graph, start, end, budget).1 is NoPath ==> {
            let fetched = shortest_path(graph, start, end, budget).0.fetched();
            &&& forall|walk: Seq<AddressView>| !#[trigger] connects(graph, walk, start, end)
            &&& fetched.no_duplicates()
            &&& fetched.to_set() == reachable(graph, start)
            &&& reachable(graph, start).finite()
            &&& fetched.len() == reachable(graph, start).len()
        },
{
    lemma_begin_sound(start, end);
    lemma_begin_agrees(graph, start, end);
    lemma_run(graph, SearchView::begin(start, end), budget);
    let last = shortest_path(graph, start, end, budget).0;
    if shortest_path(graph, start, end, budget).1 is NoPath {
        lemma_exhausted(graph, last);
        last.fetched().unique_seq_to_set();
        vstd::seq_lib::seq_to_set_is_finite(last.fetched());
    }
}

/// No article is fetched twice. Whatever the graph and however the search
/// ends, the articles that it fetched are all different.
pub proof fn law_fetched_once(graph: Graph, start: AddressView, end: AddressView, budget: nat)
    ensures
        shortest_path(graph, start, end, budget).0.fetched().no_duplicates(),
{
    lemma_begin_sound(start, end);
    lemma_begin_agrees(graph, start, end);
    lemma_run(graph, SearchView::begin(start, end), budget);
    let last = shortest_path(graph, start, end, budget).0;
    lemma_fetched_differ(last);
}

/// A page that links to itself does not bring its article back. Whatever
/// links a sound search is handed, the article that it expands does not wait
/// afterwards, and is fetched then and no more.
pub proof fn law_no_return(s: SearchView, links: Seq<AddressView>)
    requires
        s.sound(),
        s.active(),
    ensures
        !s.expand(links).0.frontier().contains(s.current()),
        s.expand(links).0.fetched() == s.fetched().push(s.current()),
        s.expand(links).0.fetched().no_duplicates(),
{
    lemma_no_return(s, links);
    lemma_fetched_differ(s.expand(links).0);
}

/// What was recorded stays. Whatever links a sound search is handed, each
/// article that was discovered before keeps the path that was recorded for
/// it, and those that waited behind the expanded one still wait, in the same
/// order and before any newcomer.
pub proof fn law_paths_are_kept(s: SearchView, links: Seq<AddressView>)
    requires
        s.sound(),
        s.active(),
    ensures
        forall|node: AddressView| #[trigger]
            s.path_map().dom().contains(node) ==> s.expand(links).0.path_map().dom().contains(node)
                && s.expand(links).0.path_map()[node] == s.path_map()[node],
        s.frontier().drop_first().is_prefix_of(s.expand(links).0.frontier()),
{
    let t = s.expand(links).0;
    lemma_absorb_sound(s, links);
    assert forall|node: AddressView| #[trigger]
        s.path_map().dom().contains(node) implies t.path_map().dom().contains(node)
        && t.path_map()[node] == s.path_map()[node] by {
        // The article stands where it stood, and nowhere else.
        let i = s.nodes().index_of(node);
        assert(t.nodes()[i] == node);
        assert(t.nodes().index_of(node) == i);
    }
}

/// A search in a finite part of the graph ends. Where finitely many
/// articles can be reached from `start`, a search that may fetch as many
/// pages as there are such articles is not cut short.
pub proof fn law_finite_search_ends(
    graph: Graph,
    start: AddressView,
    end: AddressView,
    budget: nat,
)
    requires
        reachable(graph, start).finite(),
        budget >= reachable(graph, start).len(),
    ensures
        !(shortest_path(graph, start, end, budget).1 is Unfinished),
{
    lemma_begin_sound(start, end);
    lemma_begin_agrees(graph, start, end);
    lemma_run(graph, SearchView::begin(start, end), budget);
    let last = shortest_path(graph, start, end, budget).0;
    if shortest_path(graph, start, end, budget).1 is Unfinished {
        assert forall|node: AddressView| last.nodes().to_set().contains(node) implies reachable(
            graph,
            start,
        ).contains(node) by {
            let k = last.nodes().index_of(node);
            assert(leads(graph, last.paths[k], start, node));
        }
        last.nodes().unique_seq_to_set();
        vstd::set_lib::lemma_len_subset(last.nodes().to_set(), reachable(graph, start));
    }
}

/// Where the end cannot be reached, the search says so, and has been
/// everywhere. Whatever the graph, when finitely many articles can be
/// reached from `start` and `end` is none of them, a search that may fetch
/// as many pages as there are such articles ends without a path, and has
/// fetched each of them once: as many fetches as there are such articles.
pub proof fn law_unreachable_is_no_path(
    graph: Graph,
    start: AddressView,
    end: AddressView,
    budget: nat,
)
    requires
        reachable(graph, start).finite(),
        !reachable(graph, start).contains(end),
        budget >= reachable(graph, start).len(),
    ensures
        shortest_path(graph, start, end, budget).1 is NoPath,
        shortest_path(graph, start, end, budget).0.fetched().no_duplicates(),
        shortest_path(graph, start, end, budget).0.fetched().to_set() == reachable(graph, start),
        shortest_path(graph, start, end, budget).0.fetched().len() == reachable(
            graph,
            start,
        ).len(),
{
    law_finite_search_ends(graph, start, end, budget);
    law_found_is_shortest(graph, start, end, budget);
    law_no_path_is_exhaustive(graph, start, end, budget);
    match shortest_path(graph, start, end, budget).1 {
        Outcome::Found(found) => {
            assert(leads(graph, found, start, end));
        },
        _ => {},
    }
}

/// A run that was cut short goes on from where it stopped: running for
/// `budget` fetches and then for `more` is running for both at once.
pub proof fn lemma_run_goes_on(graph: Graph, s: SearchView, budget: nat, more: nat)
    ensures
        run(graph, s, budget + more) == if run(graph, s, budget).1 is Unfinished {
            run(graph, run(graph, s, budget).0, more)
        } else {
            run(graph, s, budget)
        },
    decreases budget,
{
    if s.active() && budget > 0 {
        let (next, found) = s.expand(graph(s.current()));
        if found is None {
            lemma_run_goes_on(graph, next, (budget - 1) as nat, more);
        }
    }
}

/// An article that waits is fetched in time: unless a path is found first,
/// a run long enough expands the article discovered as number `i`.
pub proof fn lemma_waiting_is_fetched(graph: Graph, s: SearchView, i: int) -> (budget: nat)
    requires
        s.agrees(graph),
        s.expanded <= i < s.paths.len(),
    ensures
        run(graph, s, budget).1 is Found || {
            &&& !(run(graph, s, budget).1 is Found)
            &&& run(graph, s, budget).0.agrees(graph)
            &&& run(graph, s, budget).0.expanded > i
            &&& run(graph, s, budget).0.paths.len() > i
            &&& run(graph, s, budget).0.nodes()[i] == s.nodes()[i]
            &&& run(graph, s, budget).0.start() == s.start()
            &&& run(graph, s, budget).0.end == s.end
        },
{
    let budget = (i - s.expanded + 1) as nat;
    lemma_run(graph, s, budget);
    budget
}

/// Every article that a walk from the start leads to is fetched in time,
/// unless a path is found first.
pub proof fn lemma_reachable_is_fetched(
    graph: Graph,
    start: AddressView,
    end: AddressView,
    walk: Seq<AddressView>,
) -> (budget: nat)
    requires
        is_walk(graph, walk),
        walk[0] == start,
    ensures
        shortest_path(graph, start, end, budget).1 is Found || {
            &&& shortest_path(graph, start, end, budget).0.agrees(graph)
            &&& shortest_path(graph, start, end, budget).0.end == end
            &&& shortest_path(graph, start, end, budget).0.fetched().contains(walk.last())
        },
    decreases walk.len(),
{
    let first = SearchView::begin(start, end);
    lemma_begin_sound(start, end);
    lemma_begin_agrees(graph, start, end);
    if walk.len() == 1 {
        let budget = lemma_waiting_is_fetched(graph, first, 0);
        let last = run(graph, first, budget).0;
        if !(run(graph, first, budget).1 is Found) {
            assert(last.fetched()[0] == start);
        }
        budget
    } else {
        let shorter = walk.drop_last();
        lemma_walk_drop_last(graph, walk);
        let budget = lemma_reachable_is_fetched(graph, start, end, shorter);
        let (then, outcome) = shortest_path(graph, start, end, budget);
        if outcome is Found {
            budget
        } else {
            // The article before the last was fetched, so the last one is
            // known: it was fetched too, or it waits.
            lemma_run(graph, first, budget);
            let i = then.fetched().index_of(shorter.last());
            assert(linked(graph, then.nodes()[i], walk.last()));
            let k = then.nodes().index_of(walk.last());
            if k < then.expanded {
                assert(then.fetched()[k] == walk.last());
                budget
            } else {
                let more = lemma_waiting_is_fetched(graph, then, k);
                lemma_run_goes_on(graph, first, budget, more);
                let last = run(graph, then, more).0;
                if !(run(graph, then, more).1 is Found) {
                    assert(last.fetched()[k] == walk.last());
                }
                budget + more
            }
        }
    }
}

/// Where a path exists, the search finds one. Whatever the graph, when a
/// walk of at least one link leads from `start` to `end`, the search from
/// `start` for `end` returns a path once it may fetch enough pages, and the
/// path has no more links than the walk.
pub proof fn law_path_is_found(
    graph: Graph,
    start: AddressView,
    end: AddressView,
    walk: Seq<AddressView>,
) -> (budget: nat)
    requires
        connects(graph, walk, start, end),
    ensures
        shortest_path(graph, start, end, budget).1 matches Outcome::Found(path) && connects(
            graph,
            path,
            start,
            end,
        ) && path.len() <= walk.len(),
        forall|more: nat| #[trigger]
            shortest_path(graph, start, end, budget + more) == shortest_path(
                graph,
                start,
                end,
                budget,
            ),
{
    let shorter = walk.drop_last();
    lemma_walk_drop_last(graph, walk);
    let budget = lemma_reachable_is_fetched(graph, start, end, shorter);
    let (last, outcome) = shortest_path(graph, start, end, budget);
    if !(outcome is Found) {
        // An article with a link to the end was fetched: the end was sighted.
        let i = last.fetched().index_of(shorter.last());
        assert(linked(graph, last.nodes()[i], end));
    }
    law_found_is_shortest(graph, start, end, budget);
    assert forall|more: nat| #[trigger]
        shortest_path(graph, start, end, budget + more) == shortest_path(
            graph,
            start,
            end,
            budget,
        ) by {
        lemma_run_goes_on(graph, SearchView::begin(start, end), budget, more);
    }
    budget
}

} // verus!
