//! Graphs of articles and the walks in them.
//!
//! A graph gives, for each article, the links of its page in the order in
//! which the page holds them. Nothing here is executable: these are the terms
//! in which the search is held to account.

use vstd::prelude::*;
use crate::address::AddressView;

verus! {

/// For each article the links of its page.
pub type Graph = spec_fn(AddressView) -> Seq<AddressView>;

/// Whether the page of `from` links to `to`.
pub open spec fn linked(graph: Graph, from: AddressView, to: AddressView) -> bool {
    graph(from).contains(to)
}

/// Whether `walk` takes a link of the graph from its article `i` to the
/// next.
pub open spec fn hop(graph: Graph, walk: Seq<AddressView>, i: int) -> bool {
    linked(graph, walk[i], walk[i + 1])
}

/// Whether `walk` is one article, or several with a link from each to the
/// next.
pub open spec fn is_walk(graph: Graph, walk: Seq<AddressView>) -> bool {
    walk.len() > 0 && forall|i: int| 0 <= i < walk.len() - 1 ==> #[trigger] hop(graph, walk, i)
}

/// Whether `walk` is a walk from `from` to `to`.
pub open spec fn leads(
    graph: Graph,
    walk: Seq<AddressView>,
    from: AddressView,
    to: AddressView,
) -> bool {
    is_walk(graph, walk) && walk[0] == from && walk.last() == to
}

/// Whether `walk` is a walk of at least one link from `from` to `to`.
pub open spec fn connects(
    graph: Graph,
    walk: Seq<AddressView>,
    from: AddressView,
    to: AddressView,
) -> bool {
    leads(graph, walk, from, to) && walk.len() >= 2
}

/// The articles that a walk from `from` leads to, `from` among them.
pub open spec fn reachable(graph: Graph, from: AddressView) -> Set<AddressView> {
    Set::new(|to: AddressView| exists|walk: Seq<AddressView>| leads(graph, walk, from, to))
}

/// A walk goes on along a link from its last article.
pub proof fn lemma_walk_push(graph: Graph, walk: Seq<AddressView>, to: AddressView)
    requires
        is_walk(graph, walk),
        linked(graph, walk.last(), to),
    ensures
        is_walk(graph, walk.push(to)),
        leads(graph, walk.push(to), walk[0], to),
{
    let longer = walk.push(to);
    assert forall|i: int| 0 <= i < longer.len() - 1 implies #[trigger] hop(graph, longer, i) by {
        if i < walk.len() - 1 {
            assert(hop(graph, walk, i));
        }
    }
}

/// A walk of several articles, without its last, is a walk that ends at an
/// article with a link to the last.
pub proof fn lemma_walk_drop_last(graph: Graph, walk: Seq<AddressView>)
    requires
        is_walk(graph, walk),
        walk.len() >= 2,
    ensures
        is_walk(graph, walk.drop_last()),
        walk.drop_last()[0] == walk[0],
        linked(graph, walk.drop_last().last(), walk.last()),
{
    let shorter = walk.drop_last();
    assert forall|i: int| 0 <= i < shorter.len() - 1 implies #[trigger] hop(graph, shorter, i) by {
        assert(hop(graph, walk, i));
    }
    assert(hop(graph, walk, walk.len() - 2));
}

/// A walk that comes to an article twice can leave out what lies between:
/// what is left is a walk between the same two ends.
pub proof fn lemma_walk_shortcut(graph: Graph, walk: Seq<AddressView>, i: int, j: int)
    requires
        is_walk(graph, walk),
        0 <= i < j < walk.len(),
        walk[i] == walk[j],
    ensures
        is_walk(graph, walk.take(i + 1) + walk.skip(j + 1)),
        (walk.take(i + 1) + walk.skip(j + 1))[0] == walk[0],
        (walk.take(i + 1) + walk.skip(j + 1)).last() == walk.last(),
        (walk.take(i + 1) + walk.skip(j + 1)).len() == walk.len() - (j - i),
{
    let short = walk.take(i + 1) + walk.skip(j + 1);
    assert forall|k: int| 0 <= k < short.len() - 1 implies #[trigger] hop(graph, short, k) by {
        if k < i {
            assert(hop(graph, walk, k));
        } else {
            assert(hop(graph, walk, k + (j - i)));
        }
    }
}

} // verus!
