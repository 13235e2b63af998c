//! Folder resolution: from a prefix to the objects under it.
//!
//! A store lists a prefix page by page; each page may name the token that
//! asks for the next. A [`Listing`] walks the pages of one folder from the
//! first to the last and gathers the objects in the order in which the store
//! names them. A store that changes while it is listed may name one object on
//! two pages, so an object whose key was already gathered is passed over.

use crate::keys::{FolderPrefix, FolderPrefixView, ObjectKey, ObjectKeyView};
use crate::remote::{views, RemoteError, RemoteErrorView};
use vstd::prelude::*;

verus! {

/// One page of a listing.
#[derive(Debug, PartialEq, Eq)]
pub struct Page {
    /// The objects that the page names, in the store's order.
    pub objects: Vec<ObjectKey>,
    /// The token that asks for the next page; `None` on the last page.
    pub next: Option<String>,
}

/// The call that asks for one page.
#[derive(Debug, PartialEq, Eq)]
pub struct ListCall {
    pub bucket: String,
    pub prefix: String,
    /// The token of the page before; `None` for the first page.
    pub continuation: Option<String>,
}

/// What a [`ListCall`] stands for.
pub struct ListCallView {
    pub bucket: Seq<char>,
    pub prefix: Seq<char>,
    pub continuation: Option<Seq<char>>,
}

impl View for ListCall {
    type V = ListCallView;

    open spec fn view(&self) -> ListCallView {
        ListCallView {
            bucket: self.bucket@,
            prefix: self.prefix@,
            continuation: match self.continuation {
                Some(t) => Some(t@),
                None => None,
            },
        }
    }
}

/// Some object of `objects` has the key `key`.
pub open spec fn holds_key(objects: Seq<ObjectKeyView>, key: Seq<char>) -> bool {
    exists|i: int| 0 <= i < objects.len() && (#[trigger] objects[i]).key == key
}

/// No two objects of `objects` share a key.
pub open spec fn distinct_keys(objects: Seq<ObjectKeyView>) -> bool {
    forall|i: int, j: int|
        0 <= i < j < objects.len() ==> (#[trigger] objects[i]).key != (#[trigger] objects[j]).key
}

/// The keys of `objects`, as a set.
pub open spec fn key_set(objects: Seq<ObjectKeyView>) -> Set<Seq<char>> {
    Set::new(|key: Seq<char>| holds_key(objects, key))
}

/// `found` followed by the objects of `page` whose keys were not met before,
/// each in its place.
pub open spec fn merged(found: Seq<ObjectKeyView>, page: Seq<ObjectKeyView>) -> Seq<ObjectKeyView>
    decreases page.len(),
{
    if page.len() == 0 {
        found
    } else {
        let before = merged(found, page.drop_last());
        if holds_key(before, page.last().key) {
            before
        } else {
            before.push(page.last())
        }
    }
}

/// What a walk over `pages`, from the first to the last, resolves to.
pub open spec fn resolved(pages: Seq<Seq<ObjectKeyView>>) -> Seq<ObjectKeyView>
    decreases pages.len(),
{
    if pages.len() == 0 {
        Seq::empty()
    } else {
        merged(resolved(pages.drop_last()), pages.last())
    }
}

/// Some page of `pages` names an object with the key `key`.
pub open spec fn listed(pages: Seq<Seq<ObjectKeyView>>, key: Seq<char>) -> bool {
    exists|p: int| 0 <= p < pages.len() && holds_key(#[trigger] pages[p], key)
}

/// The keys that the pages name, as a set.
pub open spec fn listed_keys(pages: Seq<Seq<ObjectKeyView>>) -> Set<Seq<char>> {
    Set::new(|key: Seq<char>| listed(pages, key))
}

/// Merging a page keeps the keys distinct, keeps what was found in its
/// place, and holds exactly the keys of both.
pub proof fn lemma_merged(found: Seq<ObjectKeyView>, page: Seq<ObjectKeyView>)
    ensures
        distinct_keys(found) ==> distinct_keys(merged(found, page)),
        found.is_prefix_of(merged(found, page)),
        forall|key: Seq<char>|
            holds_key(merged(found, page), key) <==> holds_key(found, key) || holds_key(page, key),
    decreases page.len(),
{
    let all = merged(found, page);
    if page.len() == 0 {
        assert forall|key: Seq<char>| !holds_key(page, key) by {}
    } else {
        let front = page.drop_last();
        let last = page.last();
        let before = merged(found, front);
        lemma_merged(found, front);
        assert forall|key: Seq<char>|
            holds_key(all, key) <==> holds_key(found, key) || holds_key(page, key) by {
            if holds_key(page, key) {
                let i = choose|i: int| 0 <= i < page.len() && (#[trigger] page[i]).key == key;
                if i < page.len() - 1 {
                    assert(front[i].key == key);
                    assert(holds_key(front, key));
                }
            }
            if holds_key(front, key) {
                let i = choose|i: int| 0 <= i < front.len() && (#[trigger] front[i]).key == key;
                assert(page[i].key == key);
            }
            if holds_key(before, key) {
                let i = choose|i: int| 0 <= i < before.len() && (#[trigger] before[i]).key == key;
                if !holds_key(before, last.key) {
                    assert(all[i].key == key);
                }
            }
            if holds_key(all, key) && !holds_key(before, last.key) {
                let i = choose|i: int| 0 <= i < all.len() && (#[trigger] all[i]).key == key;
                if i < before.len() {
                    assert(before[i].key == key);
                } else {
                    assert(page[page.len() - 1].key == key);
                }
            }
            if key == last.key {
                assert(page[page.len() - 1].key == key);
                if !holds_key(before, last.key) {
                    assert(all[before.len() as int].key == key);
                }
            }
        }
        if distinct_keys(found) && !holds_key(before, last.key) {
            assert forall|i: int, j: int| 0 <= i < j < all.len() implies (#[trigger] all[i]).key != (
            #[trigger] all[j]).key by {
                if j < before.len() {
                    assert(before[i].key != before[j].key);
                } else {
                    assert(before[i].key != last.key);
                }
            }
        }
    }
}

/// A walk resolves to objects with distinct keys: exactly the keys that some
/// page names.
pub proof fn lemma_resolved(pages: Seq<Seq<ObjectKeyView>>)
    ensures
        distinct_keys(resolved(pages)),
        forall|key: Seq<char>| holds_key(resolved(pages), key) <==> listed(pages, key),
        key_set(resolved(pages)) == listed_keys(pages),
    decreases pages.len(),
{
    if pages.len() == 0 {
        assert forall|key: Seq<char>| !holds_key(resolved(pages), key) by {}
    } else {
        let front = pages.drop_last();
        lemma_resolved(front);
        lemma_merged(resolved(front), pages.last());
        assert forall|key: Seq<char>| holds_key(resolved(pages), key) <==> listed(pages, key) by {
            if listed(pages, key) {
                let p = choose|p: int| 0 <= p < pages.len() && holds_key(#[trigger] pages[p], key);
                if p < pages.len() - 1 {
                    assert(holds_key(front[p], key));
                }
            }
            if listed(front, key) {
                let p = choose|p: int| 0 <= p < front.len() && holds_key(#[trigger] front[p], key);
            }
        }
    }
}

/// Resolving a folder twice gives the same objects where the store gave the
/// same pages, and the same set of keys where the pages of the two walks name
/// the same keys, in whatever order and however cut into pages.
pub proof fn resolution_is_idempotent(
    first: Seq<Seq<ObjectKeyView>>,
    second: Seq<Seq<ObjectKeyView>>,
)
    requires
        listed_keys(first) == listed_keys(second),
    ensures
        key_set(resolved(first)) == key_set(resolved(second)),
        first == second ==> resolved(first) == resolved(second),
{
    lemma_resolved(first);
    lemma_resolved(second);
}

/// Where a walk stands.
#[derive(Debug, PartialEq, Eq)]
pub enum Walk {
    /// The next page is to be asked for, with this token.
    Asking(Option<String>),
    /// The last page has been taken in.
    Finished,
    /// A page could not be had; the walk has failed.
    Broken(RemoteError),
}

/// What a [`Walk`] stands for.
pub enum WalkView {
    Asking(Option<Seq<char>>),
    Finished,
    Broken(RemoteErrorView),
}

impl View for Walk {
    type V = WalkView;

    open spec fn view(&self) -> WalkView {
        match self {
            Walk::Asking(token) => WalkView::Asking(
                match token {
                    Some(t) => Some(t@),
                    None => None,
                },
            ),
            Walk::Finished => WalkView::Finished,
            Walk::Broken(e) => WalkView::Broken(e@),
        }
    }
}

/// The walk over the pages of one folder.
pub struct Listing {
    folder: FolderPrefix,
    found: Vec<ObjectKey>,
    walk: Walk,
    pages: Ghost<Seq<Seq<ObjectKeyView>>>,
}

/// What a [`Listing`] stands for: the folder, the pages taken in so far, and
/// where the walk stands.
pub struct ListingView {
    pub folder: FolderPrefixView,
    pub pages: Seq<Seq<ObjectKeyView>>,
    pub walk: WalkView,
}

impl View for Listing {
    type V = ListingView;

    closed spec fn view(&self) -> ListingView {
        ListingView { folder: self.folder@, pages: self.pages@, walk: self.walk@ }
    }
}

/// The token of a page, for specifications.
pub open spec fn token_view(token: Option<String>) -> Option<Seq<char>> {
    match token {
        Some(t) => Some(t@),
        None => None,
    }
}

impl ListingView {
    /// The call that the walk waits to have answered, if it waits for one.
    pub open spec fn request(self) -> Option<ListCallView> {
        match self.walk {
            WalkView::Asking(token) => Some(
                ListCallView {
                    bucket: self.folder.bucket,
                    prefix: self.folder.prefix,
                    continuation: token,
                },
            ),
            _ => None,
        }
    }

    /// The walk after the store has answered with a page. A walk that waits
    /// for no page stays as it is.
    pub open spec fn after_page(self, objects: Seq<ObjectKeyView>, next: Option<Seq<char>>)
        -> ListingView {
        if self.walk is Asking {
            ListingView {
                folder: self.folder,
                pages: self.pages.push(objects),
                walk: match next {
                    Some(t) => WalkView::Asking(Some(t)),
                    None => WalkView::Finished,
                },
            }
        } else {
            self
        }
    }

    /// The walk after the store has failed to give a page. A walk that waits
    /// for no page stays as it is.
    pub open spec fn after_failure(self, error: RemoteErrorView) -> ListingView {
        if self.walk is Asking {
            ListingView { folder: self.folder, pages: self.pages, walk: WalkView::Broken(error) }
        } else {
            self
        }
    }

    /// How the walk has ended, if it has: with the objects it resolved to, or
    /// with the failure that broke it.
    pub open spec fn answer(self) -> Option<Result<Seq<ObjectKeyView>, RemoteErrorView>> {
        match self.walk {
            WalkView::Asking(_) => None,
            WalkView::Finished => Some(Ok(resolved(self.pages))),
            WalkView::Broken(e) => Some(Err(e)),
        }
    }
}

/// What the answer of a finished walk stands for.
pub open spec fn answer_view(answer: Result<Vec<ObjectKey>, RemoteError>) -> Result<
    Seq<ObjectKeyView>,
    RemoteErrorView,
> {
    match answer {
        Ok(objects) => Ok(views(objects@)),
        Err(e) => Err(e@),
    }
}

/// Tells whether some object of `found` has the key `key`.
pub fn holds(found: &Vec<ObjectKey>, key: &String) -> (r: bool)
    ensures
        r == holds_key(views(found@), key@),
{
    let ghost all = views(found@);
    let mut i: usize = 0;
    while i < found.len()
        invariant
            i <= found.len(),
            all == views(found@),
            forall|j: int| 0 <= j < i ==> (#[trigger] all[j]).key != key@,
        decreases found.len() - i,
    {
        assert(all[i as int] == found@[i as int]@);
        if found[i].key == *key {
            return true;
        }
        i += 1;
    }
    false
}

impl Listing {
    /// What gathering has kept true: the objects found are what the pages
    /// taken in resolve to.
    pub closed spec fn wf(&self) -> bool {
        views(self.found@) == resolved(self.pages@)
    }

    /// A walk over `folder` that has yet to ask for the first page.
    pub fn start(folder: FolderPrefix) -> (r: Listing)
        ensures
            r.wf(),
            r@ == (ListingView {
                folder: folder@,
                pages: Seq::empty(),
                walk: WalkView::Asking(None),
            }),
    {
        let r = Listing {
            folder,
            found: Vec::new(),
            walk: Walk::Asking(None),
            pages: Ghost(Seq::empty()),
        };
        assert(views(r.found@) =~= resolved(r.pages@));
        r
    }

    /// Forgets every page and sets the walk back to its start: each
    /// resolution walks the store anew.
    pub fn restart(&mut self)
        ensures
            final(self).wf(),
            final(self)@ == (ListingView {
                folder: old(self)@.folder,
                pages: Seq::empty(),
                walk: WalkView::Asking(None),
            }),
    {
        self.found = Vec::new();
        self.walk = Walk::Asking(None);
        self.pages = Ghost(Seq::empty());
        assert(views(self.found@) =~= resolved(self.pages@));
    }

    /// The call to make next: `None` once the walk has ended.
    pub fn request(&self) -> (r: Option<ListCall>)
        ensures
            match r {
                Some(call) => self@.request() == Some(call@),
                None => self@.request() is None,
            },
    {
        match &self.walk {
            Walk::Asking(token) => Some(
                ListCall {
                    bucket: self.folder.bucket.clone(),
                    prefix: self.folder.prefix.clone(),
                    continuation: match token {
                        Some(t) => Some(t.clone()),
                        None => None,
                    },
                },
            ),
            _ => None,
        }
    }

    /// Tells whether the walk has ended, well or not.
    pub fn is_done(&self) -> (r: bool)
        ensures
            r == !(self@.walk is Asking),
    {
        match &self.walk {
            Walk::Asking(_) => false,
            _ => true,
        }
    }

    /// Takes in the store's answer to the call of [`Listing::request`]: a
    /// page, whose new objects are gathered, or a failure, which ends the
    /// walk. An answer that the walk did not wait for changes nothing.
    pub fn accept(&mut self, answer: Result<Page, RemoteError>)
        requires
            old(self).wf(),
        ensures
            final(self).wf(),
            final(self)@ == match answer {
                Ok(page) => old(self)@.after_page(views(page.objects@), token_view(page.next)),
                Err(e) => old(self)@.after_failure(e@),
            },
    {
        if self.is_done() {
            return ;
        }
        match answer {
            Err(e) => {
                self.walk = Walk::Broken(e);
            },
            Ok(page) => {
                let ghost before = views(self.found@);
                let ghost named = views(page.objects@);
                let mut i: usize = 0;
                while i < page.objects.len()
                    invariant
                        i <= page.objects.len(),
                        named == views(page.objects@),
                        views(self.found@) == merged(before, named.take(i as int)),
                        self.folder == old(self).folder,
                        self.pages == old(self).pages,
                    decreases page.objects.len() - i,
                {
                    proof {
                        assert(named.take(i + 1).drop_last() =~= named.take(i as int));
                    }
                    if !holds(&self.found, &page.objects[i].key) {
                        self.found.push(page.objects[i].clone());
                    }
                    i += 1;
                }
                proof {
                    assert(named.take(i as int) =~= named);
                    assert(self.pages@.push(named).drop_last() =~= self.pages@);
                    self.pages@ = self.pages@.push(named);
                }
                self.walk = match page.next {
                    Some(t) => Walk::Asking(Some(t)),
                    None => Walk::Finished,
                };
            },
        }
    }

    /// Ends the walk and hands out what it came to: the objects of the
    /// folder, each key once and in the store's order, or the failure that
    /// broke the walk; `None` while a page is still to be asked for.
    pub fn finish(self) -> (r: Option<Result<Vec<ObjectKey>, RemoteError>>)
        requires
            self.wf(),
        ensures
            match r {
                Some(answer) => self@.answer() == Some(answer_view(answer)),
                None => self@.answer() is None,
            },
            r matches Some(Ok(objects)) ==> distinct_keys(views(objects@)) && key_set(
                views(objects@),
            ) == listed_keys(self@.pages),
    {
        proof {
            lemma_resolved(self.pages@);
        }
        match self.walk {
            Walk::Asking(_) => None,
            Walk::Finished => Some(Ok(self.found)),
            Walk::Broken(e) => Some(Err(e)),
        }
    }
}

} // verus!
