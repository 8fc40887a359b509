//! Finding the author of a post from their token. Tokens cannot be
//! reversed, so the guild's members are listed page by page, and each
//! member's token is compared with the author's, up to a cap on pages.
use vstd::prelude::*;
use crate::identity::{find_member, member_token};

verus! {

/// Where a search for an author stands.
#[derive(PartialEq, Eq, Structural, Clone, Copy, Debug)]
pub struct AuthorSearch {
    /// The first member of the first page, to notice a listing that starts over.
    pub first_seen: Option<u64>,
    /// The member after whom the next page starts, if any page was read.
    pub cursor: Option<u64>,
    /// How many more pages may be read.
    pub pages_left: u64,
}

/// What to do after reading a page.
#[derive(PartialEq, Eq, Structural, Clone, Copy, Debug)]
pub enum SearchStep {
    /// The member with this identifier wrote the post.
    Found(u64),
    /// Read the page of members after this one.
    NextPage(u64),
    /// Stop: the author is unknown, and may have left the guild.
    GiveUp,
}

/// Whether reading `page` ends the search without looking at it: the cap
/// is spent, the listing is exhausted, or it started over.
pub open spec fn search_over(st: AuthorSearch, page: Seq<u64>) -> bool {
    st.pages_left == 0 || page.len() == 0 || st.first_seen == Some(page[0])
}

/// The search after reading `page`, when it goes on.
pub open spec fn after_page(st: AuthorSearch, page: Seq<u64>) -> AuthorSearch {
    AuthorSearch {
        first_seen: if st.first_seen.is_none() {
            Some(page[0])
        } else {
            st.first_seen
        },
        cursor: Some(page.last()),
        pages_left: (st.pages_left - 1) as u64,
    }
}

impl AuthorSearch {
    /// A search that reads at most `page_cap` pages.
    pub fn new(page_cap: u64) -> (r: AuthorSearch)
        ensures
            r == (AuthorSearch { first_seen: None, cursor: None, pages_left: page_cap }),
    {
        AuthorSearch { first_seen: None, cursor: None, pages_left: page_cap }
    }

    /// Reads the next `page` of members, in listing order, looking for the
    /// one whose token is `author_token`.
    pub fn step(&mut self, page: &Vec<u64>, author_token: &String) -> (r: SearchStep)
        ensures
            search_over(*old(self), page@) ==> r == SearchStep::GiveUp && *final(self) == *old(
                self,
            ),
            !search_over(*old(self), page@) ==> {
                &&& *final(self) == after_page(*old(self), page@)
                &&& match r {
                    SearchStep::Found(id) => exists|i: int|
                        0 <= i < page@.len() && page@[i] == id && member_token(id)
                            == author_token@ && forall|j: int|
                            0 <= j < i ==> member_token(#[trigger] page@[j]) != author_token@,
                    SearchStep::NextPage(after) => after == page@.last() && forall|j: int|
                        0 <= j < page@.len() ==> member_token(#[trigger] page@[j])
                            != author_token@,
                    SearchStep::GiveUp => false,
                }
            },
    {
        if self.pages_left == 0 || page.len() == 0 {
            return SearchStep::GiveUp;
        }
        let head = page[0];
        match self.first_seen {
            Some(f) => {
                if f == head {
                    return SearchStep::GiveUp;
                }
            },
            None => {
                self.first_seen = Some(head);
            },
        }
        let last = page[page.len() - 1];
        self.cursor = Some(last);
        self.pages_left = self.pages_left - 1;
        match find_member(page, author_token) {
            Some(i) => SearchStep::Found(page[i]),
            None => SearchStep::NextPage(last),
        }
    }
}

} // verus!
