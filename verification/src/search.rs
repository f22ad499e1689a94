//! The breadth-first search, one fetched page at a time.
//!
//! The search never fetches. It names the article whose page it needs next,
//! and is then handed that page, or the links of that page. [`SearchView`] is
//! the search as a mathematical value, with the step that [`Search::expand`]
//! takes.

use vstd::prelude::*;
use std::collections::VecDeque;
use crate::address::{Address, AddressView};
use crate::document::{ElementView, ExtractionError, selection};
use crate::links::{PARAGRAPH_ANCHORS, TARGET, extract_links, links_of};
use crate::text::page_view;

verus! {

/// Why a search failed, before it began or at one of its steps. Neither is
/// the answer that no path exists: that answer is an empty frontier.
#[derive(Debug, Clone, Copy, PartialEq, Eq, Structural)]
pub enum SearchError {
    /// The page that the search asked for could not be fetched.
    Fetch,
    /// The page was fetched and could not be read.
    Extraction(ExtractionError),
}

/// The state of a search as a mathematical value.
///
/// `paths` holds, in the order of discovery, the path from the start to each
/// article discovered so far; the article is the last one of its path. The
/// first `expanded` of them have had their links read. The others wait, in
/// the same order: they are the frontier.
pub struct SearchView {
    pub end: AddressView,
    pub paths: Seq<Seq<AddressView>>,
    pub expanded: nat,
}

impl SearchView {
    /// The search from `start` for `end`, before any page was fetched.
    pub open spec fn begin(start: AddressView, end: AddressView) -> SearchView {
        SearchView { end, paths: seq![seq![start]], expanded: 0 }
    }

    /// The article that the search set out from.
    pub open spec fn start(self) -> AddressView {
        self.paths[0][0]
    }

    /// The articles discovered so far, in the order of discovery.
    pub open spec fn nodes(self) -> Seq<AddressView> {
        Seq::new(self.paths.len(), |i: int| self.paths[i].last())
    }

    /// The articles that wait for their page to be fetched, first in first
    /// out.
    pub open spec fn frontier(self) -> Seq<AddressView> {
        self.nodes().skip(self.expanded as int)
    }

    /// The articles whose page was fetched, in the order of the fetches.
    pub open spec fn fetched(self) -> Seq<AddressView> {
        self.nodes().take(self.expanded as int)
    }

    /// The path recorded for each discovered article.
    pub open spec fn path_map(self) -> Map<AddressView, Seq<AddressView>> {
        Map::new(
            |node: AddressView| self.nodes().contains(node),
            |node: AddressView| self.paths[self.nodes().index_of(node)],
        )
    }

    /// Whether an article waits.
    pub open spec fn active(self) -> bool {
        self.expanded < self.paths.len()
    }

    /// The article at the front of the frontier.
    pub open spec fn current(self) -> AddressView {
        self.nodes()[self.expanded as int]
    }

    /// The path to the article at the front of the frontier.
    pub open spec fn trail(self) -> Seq<AddressView> {
        self.paths[self.expanded as int]
    }

    /// The search after it has seen that the current article links to
    /// `link`: an article that is not known yet, and is not the current one,
    /// joins the frontier with the current trail and itself as its path.
    pub open spec fn discover(self, link: AddressView) -> SearchView {
        if self.nodes().contains(link) || link == self.current() {
            self
        } else {
            SearchView { paths: self.paths.push(self.trail().push(link)), ..self }
        }
    }

    /// The search after the current article has left the frontier.
    pub open spec fn retire(self) -> SearchView {
        SearchView { expanded: self.expanded + 1, ..self }
    }

    /// The search after it has read `links` off the page of the current
    /// article, and the path it has found, if any. The links are taken in
    /// order. The first that is the end closes the search: the path is the
    /// current trail and the end. Every link before it is discovered.
    pub open spec fn absorb(self, links: Seq<AddressView>) -> (SearchView, Option<Seq<AddressView>>)
        decreases links.len(),
    {
        if links.len() == 0 {
            (self.retire(), None)
        } else if links[0] == self.end {
            (self.retire(), Some(self.trail().push(self.end)))
        } else {
            self.discover(links[0]).absorb(links.drop_first())
        }
    }

    /// One step of the search: what [`Search::expand`] does. With nothing
    /// waiting, nothing changes.
    pub open spec fn expand(self, links: Seq<AddressView>) -> (
        SearchView,
        Option<Seq<AddressView>>,
    ) {
        if self.active() {
            self.absorb(links)
        } else {
            (self, None)
        }
    }

    /// One step of the search on a fetched page: what
    /// [`Search::expand_page`] does, given what was selected on the page.
    /// The links are those that the selected anchors hold, read on the site
    /// of the current article.
    pub open spec fn expand_page(self, anchors: Option<Seq<ElementView>>) -> (
        SearchView,
        Result<Option<Seq<AddressView>>, ExtractionError>,
    ) {
        if !self.active() {
            (self, Ok(None))
        } else {
            match anchors {
                Some(anchors) => {
                    let step = self.expand(links_of(self.current(), anchors));
                    (step.0, Ok(step.1))
                },
                None => (self, Err(ExtractionError::Selector)),
            }
        }
    }

    /// One step of the search on the answer to its fetch: what
    /// [`Search::step`] does. `None` stands for a fetch that failed: the
    /// search stays as it is and the failure is reported. A page is taken as
    /// [`Search::expand_page`] takes it.
    pub open spec fn step(self, page: Option<Seq<char>>) -> (
        SearchView,
        Result<Option<Seq<AddressView>>, SearchError>,
    ) {
        match page {
            None => (self, Err(SearchError::Fetch)),
            Some(page) => {
                let taken = self.expand_page(selection(page, PARAGRAPH_ANCHORS@, TARGET@));
                match taken.1 {
                    Ok(found) => (taken.0, Ok(found)),
                    Err(error) => (taken.0, Err(SearchError::Extraction(error))),
                }
            },
        }
    }

    /// What holds of every search, whatever links it was handed. The start
    /// was discovered first, with itself as its path, and every path begins
    /// there. No article was discovered twice. In the order of discovery the
    /// paths never get shorter, and the last is at most one link longer than
    /// the trail of the article at the front of the frontier.
    pub open spec fn sound(self) -> bool {
        &&& self.paths.len() > 0
        &&& self.expanded <= self.paths.len()
        &&& self.paths[0].len() == 1
        &&& forall|i: int|
            0 <= i < self.paths.len() ==> (#[trigger] self.paths[i]).len() > 0 && self.paths[i][0]
                == self.start()
        &&& self.nodes().no_duplicates()
        &&& forall|i: int, j: int|
            0 <= i <= j < self.paths.len() ==> (#[trigger] self.paths[i]).len() <= (
            #[trigger] self.paths[j]).len()
        &&& self.active() ==> self.paths.last().len() <= self.trail().len() + 1
    }
}

/// A search that has just begun is sound.
pub proof fn lemma_begin_sound(start: AddressView, end: AddressView)
    ensures
        SearchView::begin(start, end).sound(),
        SearchView::begin(start, end).active(),
        SearchView::begin(start, end).start() == start,
        SearchView::begin(start, end).frontier() == seq![start],
{
}

/// Discovering a link keeps a search sound, and moves nothing that was
/// there.
pub proof fn lemma_discover_sound(s: SearchView, link: AddressView)
    requires
        s.sound(),
        s.active(),
    ensures
        s.discover(link).sound(),
        s.discover(link).active(),
        s.discover(link).expanded == s.expanded,
        s.discover(link).end == s.end,
        s.discover(link).start() == s.start(),
        s.discover(link).trail() == s.trail(),
        s.discover(link).current() == s.current(),
        s.paths.is_prefix_of(s.discover(link).paths),
        s.frontier().is_prefix_of(s.discover(link).frontier()),
{
    let t = s.discover(link);
    if !s.nodes().contains(link) && link != s.current() {
        let e = s.expanded as int;
        let n = s.paths.len() as int;
        assert forall|i: int| 0 <= i < t.paths.len() implies (#[trigger] t.paths[i]).len() > 0
            && t.paths[i][0] == t.start() by {}
        assert forall|i: int, j: int| 0 <= i <= j < t.paths.len() implies (
        #[trigger] t.paths[i]).len() <= (#[trigger] t.paths[j]).len() by {}
        assert forall|i: int, j: int|
            0 <= i < t.nodes().len() && 0 <= j < t.nodes().len() && i != j implies t.nodes()[i]
            != t.nodes()[j] by {
            if i < n && j < n {
                assert(s.nodes()[i] != s.nodes()[j]);
            } else if i < n {
                assert(s.nodes()[i] == t.nodes()[i]);
            } else {
                assert(s.nodes()[j] == t.nodes()[j]);
            }
        }
        assert(s.frontier() =~= t.frontier().subrange(0, n - e)) by {
            assert forall|i: int| 0 <= i < n implies t.nodes()[i] == s.nodes()[i] by {}
        }
    }
}

/// Retiring the current article keeps a search sound.
pub proof fn lemma_retire_sound(s: SearchView)
    requires
        s.sound(),
        s.active(),
    ensures
        s.retire().sound(),
        s.retire().start() == s.start(),
        s.retire().fetched() == s.fetched().push(s.current()),
        s.retire().frontier() == s.frontier().drop_first(),
{
}

/// Reading the links of a page keeps a search sound, whatever the links
/// are. What was discovered stays as it was, the current article is fetched
/// and leaves the frontier.
pub proof fn lemma_absorb_sound(s: SearchView, links: Seq<AddressView>)
    requires
        s.sound(),
        s.active(),
    ensures
        s.absorb(links).0.sound(),
        s.absorb(links).0.end == s.end,
        s.absorb(links).0.start() == s.start(),
        s.absorb(links).0.expanded == s.expanded + 1,
        s.paths.is_prefix_of(s.absorb(links).0.paths),
        s.absorb(links).0.fetched() == s.fetched().push(s.current()),
        s.frontier().drop_first().is_prefix_of(s.absorb(links).0.frontier()),
    decreases links.len(),
{
    if links.len() == 0 || links[0] == s.end {
        lemma_retire_sound(s);
    } else {
        let t = s.discover(links[0]);
        lemma_discover_sound(s, links[0]);
        lemma_absorb_sound(t, links.drop_first());
        let u = t.absorb(links.drop_first()).0;
        assert(s.paths =~= u.paths.subrange(0, s.paths.len() as int));
        assert(s.frontier().drop_first() =~= u.frontier().subrange(0, s.frontier().len() - 1));
        assert(u.fetched() =~= s.fetched().push(s.current())) by {
            assert(t.fetched() =~= s.fetched()) by {
                assert forall|i: int| 0 <= i < s.expanded implies t.nodes()[i] == s.nodes()[i] by {}
            }
        }
    }
}

/// In a sound search the fetched articles and those that wait are all
/// different: none was fetched twice, none waits twice, and none that was
/// fetched waits.
pub proof fn lemma_fetched_differ(s: SearchView)
    requires
        s.sound(),
    ensures
        s.fetched().no_duplicates(),
        s.frontier().no_duplicates(),
        forall|node: AddressView| s.fetched().contains(node) ==> !s.frontier().contains(node),
{
    let e = s.expanded as int;
    assert forall|node: AddressView| s.fetched().contains(node) implies !s.frontier().contains(
        node,
    ) by {
        if s.frontier().contains(node) {
            let i = s.fetched().index_of(node);
            let j = s.frontier().index_of(node);
            assert(s.nodes()[i] == s.nodes()[j + e]);
        }
    }
    assert forall|i: int, j: int|
        0 <= i < s.frontier().len() && 0 <= j < s.frontier().len() && i != j implies s.frontier()[i]
        != s.frontier()[j] by {}
}

/// The article that a sound search expands is fetched then, and does not
/// wait afterwards, whatever links the search is handed.
pub proof fn lemma_no_return(s: SearchView, links: Seq<AddressView>)
    requires
        s.sound(),
        s.active(),
    ensures
        !s.expand(links).0.frontier().contains(s.current()),
        s.expand(links).0.fetched() == s.fetched().push(s.current()),
        s.expand(links).0.sound(),
{
    let t = s.expand(links).0;
    lemma_absorb_sound(s, links);
    lemma_fetched_differ(t);
    assert(t.fetched().last() == s.current());
}

/// A copy of `path`.
fn copy(path: &Vec<Address>) -> (twin: Vec<Address>)
    ensures
        twin.deep_view() == path.deep_view(),
{
    let mut twin: Vec<Address> = Vec::new();
    let mut i: usize = 0;
    while i < path.len()
        invariant
            i <= path.len(),
            twin.deep_view() == path.deep_view().take(i as int),
        decreases path.len() - i,
    {
        let ghost so_far = twin.deep_view();
        let item = path[i].clone();
        twin.push(item);
        assert(twin.deep_view() =~= so_far.push(item@));
        i += 1;
    }
    twin
}

/// A search for the shortest chain of links from one article to another.
///
/// It owns the frontier and the path recorded for each discovered article.
/// The paths are kept in the order of discovery and looked up by their last
/// article, so that no article is recorded twice.
pub struct Search {
    end: Address,
    frontier: VecDeque<Address>,
    paths: Vec<Vec<Address>>,
}

/// The view holds the end, the recorded paths and the number of articles
/// that were expanded, which is the number of paths less the length of the
/// frontier. The articles in the frontier are not held a second time: in a
/// well-formed search they are the discovered articles from that number on,
/// as [`Search::wf`] says and [`Search::frontier`] returns them.
impl View for Search {
    type V = SearchView;

    closed spec fn view(&self) -> SearchView {
        SearchView {
            end: self.end@,
            paths: self.paths.deep_view(),
            expanded: (self.paths.len() - self.frontier.len()) as nat,
        }
    }
}

impl Search {
    /// The frontier holds the discovered articles that were not expanded, in
    /// the order of discovery, and the search is sound.
    pub closed spec fn wf(&self) -> bool {
        &&& self.frontier.len() <= self.paths.len()
        &&& self.frontier.deep_view() == self@.frontier()
        &&& self@.sound()
    }

    /// A well-formed search is sound.
    pub proof fn lemma_wf_sound(&self)
        requires
            self.wf(),
        ensures
            self@.sound(),
    {
    }

    /// The search from `start` for `end`: `start` alone is known, with
    /// itself as its path, and waits in the frontier.
    pub fn new(start: Address, end: Address) -> (search: Search)
        ensures
            search.wf(),
            search@ == SearchView::begin(start@, end@),
    {
        let mut frontier: VecDeque<Address> = VecDeque::new();
        frontier.push_back(start.clone());
        let mut path: Vec<Address> = Vec::new();
        path.push(start);
        let mut paths: Vec<Vec<Address>> = Vec::new();
        paths.push(path);
        let search = Search { end, frontier, paths };
        proof {
            lemma_begin_sound(start@, end@);
            assert(search.paths.deep_view() =~= seq![seq![start@]]) by {
                assert(search.paths[0].deep_view() =~= seq![start@]);
            }
        }
        search
    }

    /// The article whose page the search needs next: the front of the
    /// frontier. `None` once the frontier is empty: the search is over and
    /// no path was found.
    pub fn pending(&self) -> (front: Option<&Address>)
        requires
            self.wf(),
        ensures
            match front {
                Some(address) => self@.active() && address@ == self@.current(),
                None => !self@.active(),
            },
    {
        if self.frontier.len() == 0 {
            None
        } else {
            let front = &self.frontier[0];
            assert(self.frontier.deep_view()[0] == front@);
            Some(front)
        }
    }

    /// The articles that wait for their page, first in first out. A caller
    /// may fetch the pages of several of them at once; the links are still
    /// handed over one article at a time, from the front.
    pub fn frontier(&self) -> (waiting: &VecDeque<Address>)
        requires
            self.wf(),
        ensures
            waiting.deep_view() == self@.frontier(),
    {
        &self.frontier
    }

    /// Takes the links of the page of the article at the front of the
    /// frontier, in the order in which the page holds them, and returns the
    /// path if one of them is the end. The article leaves the frontier. With
    /// an empty frontier nothing happens.
    pub fn expand(&mut self, links: &Vec<Address>) -> (found: Option<Vec<Address>>)
        requires
            old(self).wf(),
        ensures
            final(self).wf(),
            final(self)@ == old(self)@.expand(links.deep_view()).0,
            found.deep_view() == old(self)@.expand(links.deep_view()).1,
            old(self)@.active() ==> final(self)@.fetched() == old(self)@.fetched().push(
                old(self)@.current(),
            ),
            old(self)@.active() ==> !final(self)@.frontier().contains(old(self)@.current()),
    {
        if self.frontier.len() == 0 {
            return None;
        }
        let ghost before = self@;
        let ghost edges = links.deep_view();
        let ghost queue = self.frontier.deep_view();
        let current = self.frontier.pop_front().unwrap();
        let at = self.paths.len() - self.frontier.len() - 1;
        proof {
            lemma_absorb_sound(before, edges);
            assert(current@ == before.current()) by {
                assert(queue[0] == current@);
            }
            assert(self.frontier.deep_view() =~= before.nodes().skip(at + 1)) by {
                assert forall|k: int| 0 <= k < self.frontier.len() implies
                    self.frontier.deep_view()[k] == before.nodes().skip(at + 1)[k] by {
                    assert(queue[k + 1] == before.nodes().skip(at as int)[k + 1]);
                }
            }
            assert(edges.skip(0) =~= edges);
        }
        let mut i: usize = 0;
        while i < links.len()
            invariant
                i <= links.len(),
                edges == links.deep_view(),
                before == old(self)@,
                before.sound(),
                before.active(),
                before.expanded == at,
                current@ == before.current(),
                self.end == old(self).end,
                self.frontier.len() + at + 1 == self.paths.len(),
                ({
                    let now = SearchView {
                        end: self.end@,
                        paths: self.paths.deep_view(),
                        expanded: before.expanded,
                    };
                    &&& now.sound()
                    &&& now.trail() == before.trail()
                    &&& now.absorb(edges.skip(i as int)) == before.absorb(edges)
                    &&& self.frontier.deep_view() == now.nodes().skip(at + 1)
                }),
            decreases links.len() - i,
        {
            let ghost now = SearchView {
                end: self.end@,
                paths: self.paths.deep_view(),
                expanded: before.expanded,
            };
            let link = &links[i];
            proof {
                assert(edges.skip(i as int).drop_first() =~= edges.skip(i + 1));
                lemma_discover_sound(now, link@);
            }
            if *link == self.end {
                let mut path = copy(&self.paths[at]);
                path.push(link.clone());
                proof {
                    lemma_no_return(before, edges);
                }
                return Some(path);
            }
            assert forall|k: int| 0 <= k < self.paths.len() implies (#[trigger] self.paths[k]).len()
                > 0 by {
                assert(now.paths[k].len() > 0);
            }
            let known = self.knows(link);
            if !known && *link != current {
                let mut path = copy(&self.paths[at]);
                path.push(link.clone());
                let ghost trail = path.deep_view();
                let ghost waiting = self.frontier.deep_view();
                self.paths.push(path);
                self.frontier.push_back(link.clone());
                proof {
                    assert(trail =~= now.trail().push(link@));
                    assert(self.paths.deep_view() =~= now.paths.push(trail));
                    assert(now.current() == current@);
                    assert(self.frontier.deep_view() =~= waiting.push(link@));
                }
            }
            i += 1;
        }
        proof {
            lemma_no_return(before, edges);
        }
        None
    }

    /// Takes the page fetched for the article at the front of the frontier,
    /// reads its links and expands the article with them. A page that cannot
    /// be read leaves the search as it was. With an empty frontier nothing
    /// happens and the page is not read.
    pub fn expand_page(&mut self, page: &str) -> (found: Result<
        Option<Vec<Address>>,
        ExtractionError,
    >)
        requires
            old(self).wf(),
        ensures
            final(self).wf(),
            final(self)@ == old(self)@.expand_page(
                selection(page@, PARAGRAPH_ANCHORS@, TARGET@),
            ).0,
            match old(self)@.expand_page(selection(page@, PARAGRAPH_ANCHORS@, TARGET@)).1 {
                Ok(path) => found matches Ok(p) && p.deep_view() == path,
                Err(error) => found matches Err(e) && e == error,
            },
    {
        let links = match self.pending() {
            None => {
                return Ok(None);
            },
            Some(current) => match extract_links(page, current) {
                Ok(links) => links,
                Err(e) => {
                    return Err(e);
                },
            },
        };
        Ok(self.expand(&links))
    }

    /// Takes the answer to the fetch of the page of the article at the front
    /// of the frontier: the page, or `None` where the fetch failed. A failed
    /// fetch is reported and leaves the search as it was, and so does a page
    /// that cannot be read. A page is taken as [`Search::expand_page`] takes
    /// it.
    pub fn step(&mut self, page: Option<&str>) -> (found: Result<Option<Vec<Address>>, SearchError>)
        requires
            old(self).wf(),
        ensures
            final(self).wf(),
            final(self)@ == old(self)@.step(page_view(page)).0,
            match old(self)@.step(page_view(page)).1 {
                Ok(path) => found matches Ok(p) && p.deep_view() == path,
                Err(error) => found matches Err(e) && e == error,
            },
            page is None ==> final(self)@ == old(self)@ && found == Err::<
                Option<Vec<Address>>,
                SearchError,
            >(SearchError::Fetch),
    {
        match page {
            None => Err(SearchError::Fetch),
            Some(page) => match self.expand_page(page) {
                Ok(found) => Ok(found),
                Err(e) => Err(SearchError::Extraction(e)),
            },
        }
    }

    /// The path recorded for `address`: from the start to it, both
    /// included. `None` for an article that was not discovered.
    pub fn path_to(&self, address: &Address) -> (path: Option<&Vec<Address>>)
        requires
            self.wf(),
        ensures
            match path {
                Some(path) => self@.path_map().dom().contains(address@) && path.deep_view()
                    == self@.path_map()[address@],
                None => !self@.path_map().dom().contains(address@),
            },
    {
        let mut i: usize = 0;
        while i < self.paths.len()
            invariant
                i <= self.paths.len(),
                self.wf(),
                forall|j: int| 0 <= j < i ==> self@.nodes()[j] != address@,
            decreases self.paths.len() - i,
        {
            let path = &self.paths[i];
            assert(self@.paths[i as int].last() == path[path.len() - 1]@);
            if path[path.len() - 1] == *address {
                proof {
                    assert(self@.nodes()[i as int] == address@);
                    assert(self@.nodes().index_of(address@) == i);
                }
                return Some(path);
            }
            i += 1;
        }
        None
    }

    /// Whether `link` was discovered.
    fn knows(&self, link: &Address) -> (yes: bool)
        requires
            forall|i: int| 0 <= i < self.paths.len() ==> (#[trigger] self.paths[i]).len() > 0,
        ensures
            yes == self@.nodes().contains(link@),
    {
        let mut i: usize = 0;
        while i < self.paths.len()
            invariant
                i <= self.paths.len(),
                forall|i: int| 0 <= i < self.paths.len() ==> (#[trigger] self.paths[i]).len() > 0,
                forall|j: int| 0 <= j < i ==> self@.nodes()[j] != link@,
            decreases self.paths.len() - i,
        {
            let path = &self.paths[i];
            if path[path.len() - 1] == *link {
                assert(self@.nodes()[i as int] == link@);
                return true;
            }
            assert(self@.nodes()[i as int] != link@);
            i += 1;
        }
        false
    }
}

} // verus!
