//! Cursor-based pagination over opaque page tokens.
//!
//! The state remembers the token that fetched the current page, the token
//! the remote side offered for the next page, and the tokens of all earlier
//! pages, so that going forward and back returns to exactly the same pages.
//! Tokens are never parsed or checked.
use vstd::prelude::*;

verus! {

pub open spec fn token_view(t: Option<String>) -> Option<Seq<char>> {
    match t {
        Some(s) => Some(s@),
        None => None,
    }
}

/// Pagination as plain values.
pub struct PageView {
    /// Token of the next page, as the last fetch reported it.
    pub next: Option<Seq<char>>,
    /// Token that fetched the current page (`None` for the first page).
    pub current: Option<Seq<char>>,
    /// Tokens that fetched the earlier pages, oldest first.
    pub stack: Seq<Option<Seq<char>>>,
    /// One-based number of the current page.
    pub page: nat,
    pub has_more: bool,
}

/// Pagination state of the displayed resource list.
pub struct PaginationState {
    pub next_token: Option<String>,
    pub current_token: Option<String>,
    pub token_stack: Vec<Option<String>>,
    pub current_page: usize,
    pub has_more: bool,
}

impl View for PaginationState {
    type V = PageView;

    open spec fn view(&self) -> PageView {
        PageView {
            next: token_view(self.next_token),
            current: token_view(self.current_token),
            stack: self.token_stack@.map_values(|t: Option<String>| token_view(t)),
            page: self.current_page as nat,
            has_more: self.has_more,
        }
    }
}

/// The state on the first page, before anything was fetched.
pub open spec fn first_page() -> PageView {
    PageView { next: None, current: None, stack: Seq::empty(), page: 1, has_more: false }
}

/// At rest the stack holds one token per earlier page, and a further page
/// exists exactly when a next token was offered.
pub open spec fn page_wf(v: PageView) -> bool {
    v.page >= 1 && v.stack.len() == v.page - 1 && v.has_more == (v.next is Some)
}

/// Advancing: the current token goes onto the stack and the offered token
/// becomes current. Without a further page nothing changes.
pub open spec fn advanced(v: PageView) -> PageView {
    if v.has_more {
        PageView {
            next: v.next,
            current: v.next,
            stack: v.stack.push(v.current),
            page: v.page + 1,
            has_more: v.has_more,
        }
    } else {
        v
    }
}

/// Going back: the newest stacked token becomes current again. On the first
/// page nothing changes.
pub open spec fn went_back(v: PageView) -> PageView {
    if v.page <= 1 || v.stack.len() == 0 {
        v
    } else {
        PageView {
            next: v.next,
            current: v.stack.last(),
            stack: v.stack.drop_last(),
            page: (v.page - 1) as nat,
            has_more: v.has_more,
        }
    }
}

/// The state once a fetch reported `next` as the token of the following page.
pub open spec fn with_result(v: PageView, next: Option<Seq<char>>) -> PageView {
    PageView { next, has_more: next is Some, ..v }
}

fn copy_token(t: &Option<String>) -> (r: Option<String>)
    ensures
        r == *t,
{
    match t {
        Some(s) => Some(s.clone()),
        None => None,
    }
}

impl PaginationState {
    /// The first page, nothing fetched yet.
    pub fn new() -> (r: PaginationState)
        ensures
            r@ == first_page(),
    {
        let r = PaginationState {
            next_token: None,
            current_token: None,
            token_stack: Vec::new(),
            current_page: 1,
            has_more: false,
        };
        proof {
            assert(r@.stack =~= Seq::<Option<Seq<char>>>::empty());
        }
        r
    }

    pub open spec fn wf(&self) -> bool {
        page_wf(self@)
    }

    /// Moves to the next page when there is one, and returns the token to
    /// fetch it with; returns `None` and changes nothing otherwise.
    pub fn next_page(&mut self) -> (r: Option<Option<String>>)
        requires
            old(self).wf(),
            old(self).current_page < usize::MAX,
        ensures
            final(self)@ == advanced(old(self)@),
            final(self).wf(),
            old(self).has_more ==> r == Some(old(self).next_token),
            !old(self).has_more ==> r is None,
    {
        if !self.has_more {
            return None;
        }
        let prev = copy_token(&self.current_token);
        self.current_token = copy_token(&self.next_token);
        self.token_stack.push(prev);
        self.current_page = self.current_page + 1;
        proof {
            assert(self@.stack =~= old(self)@.stack.push(old(self)@.current));
        }
        Some(copy_token(&self.next_token))
    }

    /// Moves back one page, unless on the first, and returns the token to
    /// fetch it with; returns `None` and changes nothing on the first page.
    pub fn prev_page(&mut self) -> (r: Option<Option<String>>)
        requires
            old(self).wf(),
        ensures
            final(self)@ == went_back(old(self)@),
            final(self).wf(),
            old(self).current_page <= 1 ==> r is None && *final(self) == *old(self),
            old(self).current_page > 1 ==> r == Some(old(self).token_stack@.last()),
    {
        if self.current_page <= 1 {
            return None;
        }
        let prev = self.token_stack.pop();
        match prev {
            Some(t) => {
                self.current_token = copy_token(&t);
                self.current_page = self.current_page - 1;
                proof {
                    assert(self@.stack =~= old(self)@.stack.drop_last());
                }
                Some(t)
            },
            None => None,
        }
    }

    /// Records what a fetch of the current page reported as the next token.
    pub fn apply_result(&mut self, next: Option<String>)
        ensures
            final(self)@ == with_result(old(self)@, token_view(next)),
            old(self)@.page >= 1 && old(self)@.stack.len() == old(self)@.page - 1 ==> final(self).wf(),
    {
        self.has_more = next.is_some();
        self.next_token = next;
    }

    /// Back to the first page (on a resource switch, a drill-down, going
    /// back up, or a failed fetch).
    pub fn reset(&mut self)
        ensures
            final(self)@ == first_page(),
    {
        *self = PaginationState::new();
    }
}

/// Going forward and then back returns to the page, the token and the
/// history that were current before the advance, at any depth; and once the
/// page is fetched again with that token the offered next token is the same,
/// since fetching is idempotent.
pub proof fn lemma_next_then_prev(v: PageView)
    requires
        page_wf(v),
        v.has_more,
    ensures
        went_back(advanced(v)).current == v.current,
        went_back(advanced(v)).stack == v.stack,
        went_back(advanced(v)).page == v.page,
        with_result(went_back(advanced(v)), v.next) == v,
{
    assert(advanced(v).stack.drop_last() =~= v.stack);
    assert(advanced(v).stack.last() == v.current);
}

/// Going back on the first page changes nothing.
pub proof fn lemma_prev_on_first_page(v: PageView)
    requires
        page_wf(v),
        v.page == 1,
    ensures
        went_back(v) == v,
{
}

} // verus!
