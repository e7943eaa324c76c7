use vstd::prelude::*;

use crate::records::{clone_opt_string, ObjectPage, ObjectRecord, VersionPage, VersionRecord};

verus! {

/// Whether a version page is the listing's last page: both continuation
/// markers absent.
pub open spec fn version_page_terminal(p: VersionPage) -> bool {
    p.next_key_marker is None && p.next_version_marker is None
}

/// Whether an object page is the listing's last page: the continuation token
/// absent.
pub open spec fn object_page_terminal(p: ObjectPage) -> bool {
    p.next_token is None
}

/// The records one version page contributes: its versions, then its delete
/// markers.
pub open spec fn version_page_records(p: VersionPage) -> Seq<VersionRecord> {
    p.versions@ + p.delete_markers@
}

/// All records of a version page sequence, in page order.
pub open spec fn flat_version_records(pages: Seq<VersionPage>) -> Seq<VersionRecord>
    decreases pages.len(),
{
    if pages.len() == 0 {
        Seq::empty()
    } else {
        flat_version_records(pages.drop_last()) + version_page_records(pages.last())
    }
}

/// All objects of an object page sequence, in page order.
pub open spec fn flat_object_records(pages: Seq<ObjectPage>) -> Seq<ObjectRecord>
    decreases pages.len(),
{
    if pages.len() == 0 {
        Seq::empty()
    } else {
        flat_object_records(pages.drop_last()) + pages.last().objects@
    }
}

pub proof fn lemma_flat_version_push(pages: Seq<VersionPage>, p: VersionPage)
    ensures
        flat_version_records(pages.push(p)) == flat_version_records(pages)
            + version_page_records(p),
{
    assert(pages.push(p).drop_last() =~= pages);
    assert(pages.push(p).last() == p);
}

pub proof fn lemma_flat_object_push(pages: Seq<ObjectPage>, p: ObjectPage)
    ensures
        flat_object_records(pages.push(p)) == flat_object_records(pages) + p.objects@,
{
    assert(pages.push(p).drop_last() =~= pages);
    assert(pages.push(p).last() == p);
}

/// Cursor walk over the dual-marker version listing.
///
/// The caller fetches the page `next_request` names, hands it to
/// `push_page`, and repeats until the walk reports itself finished, which
/// happens exactly when a page with both markers absent arrives. The walk
/// itself performs no retries and no store calls.
pub struct VersionWalk {
    pub pages: Vec<VersionPage>,
    pub finished: bool,
}

impl VersionWalk {
    /// The walk's invariant: only the last collected page may be terminal,
    /// and the walk is finished exactly when it is.
    pub open spec fn wf(&self) -> bool {
        &&& self.finished == (self.pages@.len() > 0 && version_page_terminal(self.pages@.last()))
        &&& forall|i: int|
            0 <= i < self.pages@.len() - 1 ==> !version_page_terminal(#[trigger] self.pages@[i])
    }

    pub fn new() -> (w: VersionWalk)
        ensures
            w.pages@ == Seq::<VersionPage>::empty(),
            !w.finished,
            w.wf(),
    {
        VersionWalk { pages: Vec::new(), finished: false }
    }

    /// The marker pair to request the next page with: `None` when the walk
    /// is finished, both markers absent for the first request, and the last
    /// page's markers afterwards. Each page's markers are consumed exactly
    /// once, by the request that follows it.
    pub fn next_request(&self) -> (r: Option<(Option<String>, Option<String>)>)
        ensures
            r is Some <==> !self.finished,
            !self.finished && self.pages@.len() == 0 ==> r == Some(
                (None::<String>, None::<String>),
            ),
            !self.finished && self.pages@.len() > 0 ==> r == Some(
                (self.pages@.last().next_key_marker, self.pages@.last().next_version_marker),
            ),
    {
        if self.finished {
            None
        } else if self.pages.len() == 0 {
            Some((None, None))
        } else {
            let last = &self.pages[self.pages.len() - 1];
            Some(
                (
                    clone_opt_string(&last.next_key_marker),
                    clone_opt_string(&last.next_version_marker),
                ),
            )
        }
    }

    /// Records one fetched page, in order; the walk finishes exactly when
    /// the page carries no continuation marker.
    pub fn push_page(&mut self, page: VersionPage)
        requires
            !old(self).finished,
            old(self).wf(),
        ensures
            final(self).pages@ == old(self).pages@.push(page),
            final(self).finished == version_page_terminal(page),
            final(self).wf(),
    {
        let done = page.next_key_marker.is_none() && page.next_version_marker.is_none();
        self.pages.push(page);
        self.finished = done;
    }

    pub fn is_finished(&self) -> (r: bool)
        ensures
            r == self.finished,
    {
        self.finished
    }

    /// Hands the collected pages out, in the order the store emitted them.
    pub fn into_pages(self) -> (r: Vec<VersionPage>)
        ensures
            r@ == self.pages@,
    {
        self.pages
    }
}

/// Cursor walk over the single-token object listing, with the same protocol
/// as the version walk.
pub struct ObjectWalk {
    pub pages: Vec<ObjectPage>,
    pub finished: bool,
}

impl ObjectWalk {
    /// The walk's invariant: only the last collected page may be terminal,
    /// and the walk is finished exactly when it is.
    pub open spec fn wf(&self) -> bool {
        &&& self.finished == (self.pages@.len() > 0 && object_page_terminal(self.pages@.last()))
        &&& forall|i: int|
            0 <= i < self.pages@.len() - 1 ==> !object_page_terminal(#[trigger] self.pages@[i])
    }

    pub fn new() -> (w: ObjectWalk)
        ensures
            w.pages@ == Seq::<ObjectPage>::empty(),
            !w.finished,
            w.wf(),
    {
        ObjectWalk { pages: Vec::new(), finished: false }
    }

    /// The continuation token to request the next page with: `None` when the
    /// walk is finished, an absent token for the first request, and the last
    /// page's token afterwards.
    pub fn next_request(&self) -> (r: Option<Option<String>>)
        ensures
            r is Some <==> !self.finished,
            !self.finished && self.pages@.len() == 0 ==> r == Some(None::<String>),
            !self.finished && self.pages@.len() > 0 ==> r == Some(
                self.pages@.last().next_token,
            ),
    {
        if self.finished {
            None
        } else if self.pages.len() == 0 {
            Some(None)
        } else {
            let last = &self.pages[self.pages.len() - 1];
            Some(clone_opt_string(&last.next_token))
        }
    }

    /// Records one fetched page, in order; the walk finishes exactly when
    /// the page carries no continuation token.
    pub fn push_page(&mut self, page: ObjectPage)
        requires
            !old(self).finished,
            old(self).wf(),
        ensures
            final(self).pages@ == old(self).pages@.push(page),
            final(self).finished == object_page_terminal(page),
            final(self).wf(),
    {
        let done = page.next_token.is_none();
        self.pages.push(page);
        self.finished = done;
    }

    pub fn is_finished(&self) -> (r: bool)
        ensures
            r == self.finished,
    {
        self.finished
    }

    /// Hands the collected pages out, in the order the store emitted them.
    pub fn into_pages(self) -> (r: Vec<ObjectPage>)
        ensures
            r@ == self.pages@,
    {
        self.pages
    }
}

/// A well-formed version page chain, as a fault-free store emits it: at
/// least one page, and exactly the last one terminal.
pub open spec fn version_chain_ok(chain: Seq<VersionPage>) -> bool {
    &&& chain.len() > 0
    &&& forall|i: int| 0 <= i < chain.len() - 1 ==> !version_page_terminal(#[trigger] chain[i])
    &&& version_page_terminal(chain.last())
}

/// A well-formed object page chain: at least one page, and exactly the last
/// one terminal.
pub open spec fn object_chain_ok(chain: Seq<ObjectPage>) -> bool {
    &&& chain.len() > 0
    &&& forall|i: int| 0 <= i < chain.len() - 1 ==> !object_page_terminal(#[trigger] chain[i])
    &&& object_page_terminal(chain.last())
}

/// The pages a walk gathers from a store that would emit `chain` page by
/// page: everything up to and including the first terminal page, which is
/// where `push_page` reports the walk finished.
pub open spec fn collected_version_pages(chain: Seq<VersionPage>) -> Seq<VersionPage>
    decreases chain.len(),
{
    if chain.len() == 0 {
        Seq::empty()
    } else if version_page_terminal(chain.first()) {
        seq![chain.first()]
    } else {
        seq![chain.first()] + collected_version_pages(chain.drop_first())
    }
}

/// The pages an object walk gathers from a store that would emit `chain`.
pub open spec fn collected_object_pages(chain: Seq<ObjectPage>) -> Seq<ObjectPage>
    decreases chain.len(),
{
    if chain.len() == 0 {
        Seq::empty()
    } else if object_page_terminal(chain.first()) {
        seq![chain.first()]
    } else {
        seq![chain.first()] + collected_object_pages(chain.drop_first())
    }
}

/// Pagination completeness for version listings: when exactly the last page
/// of a chain is terminal, the walk gathers all pages, in order, and their
/// records concatenate to the full listing.
pub proof fn lemma_version_pagination_completeness(chain: Seq<VersionPage>)
    requires
        version_chain_ok(chain),
    ensures
        collected_version_pages(chain) == chain,
        flat_version_records(collected_version_pages(chain)) == flat_version_records(chain),
    decreases chain.len(),
{
    if chain.len() == 1 {
        assert(version_page_terminal(chain.first()));
        assert(seq![chain.first()] =~= chain);
    } else {
        assert(!version_page_terminal(chain.first()));
        let rest = chain.drop_first();
        assert(version_chain_ok(rest)) by {
            assert(rest.last() == chain.last());
            assert forall|i: int| 0 <= i < rest.len() - 1 implies !version_page_terminal(
                #[trigger] rest[i],
            ) by {
                assert(rest[i] == chain[i + 1]);
            }
        }
        lemma_version_pagination_completeness(rest);
        assert(seq![chain.first()] + rest =~= chain);
    }
}

/// Pagination completeness for object listings.
pub proof fn lemma_object_pagination_completeness(chain: Seq<ObjectPage>)
    requires
        object_chain_ok(chain),
    ensures
        collected_object_pages(chain) == chain,
        flat_object_records(collected_object_pages(chain)) == flat_object_records(chain),
    decreases chain.len(),
{
    if chain.len() == 1 {
        assert(object_page_terminal(chain.first()));
        assert(seq![chain.first()] =~= chain);
    } else {
        assert(!object_page_terminal(chain.first()));
        let rest = chain.drop_first();
        assert(object_chain_ok(rest)) by {
            assert(rest.last() == chain.last());
            assert forall|i: int| 0 <= i < rest.len() - 1 implies !object_page_terminal(
                #[trigger] rest[i],
            ) by {
                assert(rest[i] == chain[i + 1]);
            }
        }
        lemma_object_pagination_completeness(rest);
        assert(seq![chain.first()] + rest =~= chain);
    }
}

/// Flattens version pages to one record sequence: each page's versions,
/// then its delete markers, pages in order.
pub fn flatten_version_pages(pages: Vec<VersionPage>) -> (r: Vec<VersionRecord>)
    ensures
        r@ == flat_version_records(pages@),
{
    let ghost ps = pages@;
    let mut out: Vec<VersionRecord> = Vec::new();
    for page in it: pages.into_iter()
        invariant
            it.seq() == ps,
            out@ == flat_version_records(ps.take(it.index())),
    {
        let ghost i = it.index();
        proof {
            assert(ps.take(i + 1) =~= ps.take(i).push(page));
            lemma_flat_version_push(ps.take(i), page);
        }
        let mut page = page;
        out.append(&mut page.versions);
        out.append(&mut page.delete_markers);
        proof {
            assert(out@ =~= flat_version_records(ps.take(i + 1)));
        }
    }
    proof {
        assert(ps.take(ps.len() as int) =~= ps);
    }
    out
}

/// Flattens object pages to one object sequence, pages in order.
pub fn flatten_object_pages(pages: Vec<ObjectPage>) -> (r: Vec<ObjectRecord>)
    ensures
        r@ == flat_object_records(pages@),
{
    let ghost ps = pages@;
    let mut out: Vec<ObjectRecord> = Vec::new();
    for page in it: pages.into_iter()
        invariant
            it.seq() == ps,
            out@ == flat_object_records(ps.take(it.index())),
    {
        let ghost i = it.index();
        proof {
            assert(ps.take(i + 1) =~= ps.take(i).push(page));
            lemma_flat_object_push(ps.take(i), page);
        }
        let mut page = page;
        out.append(&mut page.objects);
        proof {
            assert(out@ =~= flat_object_records(ps.take(i + 1)));
        }
    }
    proof {
        assert(ps.take(ps.len() as int) =~= ps);
    }
    out
}

} // verus!
