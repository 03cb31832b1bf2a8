use vstd::prelude::*;

use crate::text::str_eq;

verus! {

/// How many items one page request asks for.
pub const PAGE_SIZE: u32 = 50;

/// Walks a remote collection page by page from offset 0, until a page comes
/// back empty or an item on it matches.
pub struct PageWalker {
    /// Offset of the next page to request.
    pub offset: u32,
    /// Set once the walk has ended.
    pub finished: bool,
}

/// What the walker asks for next.
#[derive(Debug, PartialEq, Eq, Structural)]
pub enum PageStep {
    /// Request `limit` items from `offset`.
    Fetch { offset: u32, limit: u32 },
    /// The item at this position of the last page matched.
    Found(usize),
    /// The collection holds no (further) match.
    Exhausted,
}

impl PageWalker {
    /// A walk that has not requested anything yet.
    pub fn new() -> (r: PageWalker)
        ensures
            r.offset == 0,
            !r.finished,
    {
        PageWalker { offset: 0, finished: false }
    }

    /// The first request of the walk.
    pub fn first_request(&self) -> (r: PageStep)
        ensures
            r == (if self.finished {
                PageStep::Exhausted
            } else {
                PageStep::Fetch { offset: self.offset, limit: PAGE_SIZE }
            }),
    {
        if self.finished {
            PageStep::Exhausted
        } else {
            PageStep::Fetch { offset: self.offset, limit: PAGE_SIZE }
        }
    }

    /// Takes in a page of `page_len` items, of which the one at `matched`, if
    /// any, satisfied the search. An empty page ends the walk; a match ends it
    /// with that item; otherwise the next page is requested, unless its offset
    /// would not fit in 32 bits, which also ends the walk.
    pub fn on_page(&mut self, page_len: usize, matched: Option<usize>) -> (r: PageStep)
        ensures
            old(self).finished ==> r == PageStep::Exhausted && *final(self) == *old(self),
            !old(self).finished && page_len == 0 ==> r == PageStep::Exhausted && final(self).finished,
            !old(self).finished && page_len > 0 && matched is Some ==> r == PageStep::Found(matched->0)
                && final(self).finished,
            !old(self).finished && page_len > 0 && matched is None ==> if old(self).offset + PAGE_SIZE <= u32::MAX {
                &&& r == PageStep::Fetch { offset: (old(self).offset + PAGE_SIZE) as u32, limit: PAGE_SIZE }
                &&& final(self).offset == old(self).offset + PAGE_SIZE
                &&& !final(self).finished
            } else {
                r == PageStep::Exhausted && final(self).finished
            },
    {
        if self.finished {
            return PageStep::Exhausted;
        }
        if page_len == 0 {
            self.finished = true;
            return PageStep::Exhausted;
        }
        match matched {
            Some(i) => {
                self.finished = true;
                PageStep::Found(i)
            },
            None => {
                if self.offset <= u32::MAX - PAGE_SIZE {
                    self.offset = self.offset + PAGE_SIZE;
                    PageStep::Fetch { offset: self.offset, limit: PAGE_SIZE }
                } else {
                    self.finished = true;
                    PageStep::Exhausted
                }
            },
        }
    }
}

/// A playlist as listed among the user's playlists.
pub struct PlaylistSummary {
    pub id: String,
    pub name: String,
    pub owner_id: String,
}

/// Whether a listed playlist has exactly this name and belongs to this user.
pub open spec fn is_owned_named(p: PlaylistSummary, name: Seq<char>, owner: Seq<char>) -> bool {
    p.name@ == name && p.owner_id@ == owner
}

/// The first playlist on a page with exactly the name `name` and the owner
/// `owner`, if any.
pub fn find_owned_named(page: &Vec<PlaylistSummary>, name: &str, owner: &str) -> (r: Option<usize>)
    ensures
        match r {
            Some(i) => i < page.len() && is_owned_named(page@[i as int], name@, owner@) && forall|j: int|
                0 <= j < i ==> !is_owned_named(#[trigger] page@[j], name@, owner@),
            None => forall|j: int| 0 <= j < page.len() ==> !is_owned_named(#[trigger] page@[j], name@, owner@),
        },
{
    let mut i: usize = 0;
    while i < page.len()
        invariant
            i <= page.len(),
            forall|j: int| 0 <= j < i ==> !is_owned_named(#[trigger] page@[j], name@, owner@),
        decreases page.len() - i,
    {
        let p = &page[i];
        if str_eq(p.name.as_str(), name) && str_eq(p.owner_id.as_str(), owner) {
            return Some(i);
        }
        i = i + 1;
    }
    None
}

} // verus!
