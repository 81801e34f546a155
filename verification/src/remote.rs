//! Decisions of the remote-tracker workflow, kept apart from the network:
//! page-by-page accumulation of listed issues, and the retry rule for
//! creating one.

use crate::reconcile::GithubIssueHelper;
use crate::text::{contains_substring, is_substring};
use vstd::prelude::*;

verus! {

/// The fixed number of seconds to wait before retrying a refused
/// creation.
pub open spec fn spec_retry_backoff_secs() -> u64 {
    60
}

/// The accumulation of a paginated issue listing: the next page to ask
/// for, and everything collected so far.
#[derive(Debug)]
pub struct PageFetch {
    pub next_page: u32,
    pub collected: Vec<GithubIssueHelper>,
}

impl PageFetch {
    /// A fresh listing, about to ask for the first page.
    pub fn new() -> (r: Self)
        ensures
            r.next_page == 1,
            r.collected.deep_view() == Seq::<crate::reconcile::GithubIssueHelperV>::empty(),
    {
        let r = PageFetch { next_page: 1, collected: Vec::new() };
        proof {
            assert(r.collected.deep_view() =~= Seq::<
                crate::reconcile::GithubIssueHelperV,
            >::empty());
        }
        r
    }

    /// Takes one fetched page: an empty page ends the listing and leaves
    /// the state as it is; any other page is appended and the page number
    /// moves on.
    pub fn absorb_page(&mut self, page: Vec<GithubIssueHelper>) -> (done: bool)
        requires
            old(self).next_page < u32::MAX,
        ensures
            done == (page@.len() == 0),
            done ==> final(self).collected.deep_view() == old(self).collected.deep_view()
                && final(self).next_page == old(self).next_page,
            !done ==> final(self).collected.deep_view() == old(self).collected.deep_view()
                + page.deep_view() && final(self).next_page == old(self).next_page + 1,
    {
        if page.len() == 0 {
            return true;
        }
        let ghost pre = self.collected.deep_view();
        let ghost page_v = page.deep_view();
        let mut incoming = page;
        self.collected.append(&mut incoming);
        self.next_page = self.next_page + 1;
        proof {
            assert(self.collected.deep_view() =~= pre + page_v);
        }
        false
    }
}

/// What to do after a failed issue creation.
#[derive(Clone, Debug, Eq, PartialEq)]
pub enum RetryDecision {
    /// Wait this many seconds and send the identical request again.
    RetryAfter(u64),
    /// Give up and surface the error.
    Abort,
}

/// Decides how to react to a creation error from the tracker: only the
/// secondary rate limit, recognised by its message, is retried — after
/// the fixed backoff — and every other error aborts the run.
pub fn classify_create_error(message: &str) -> (d: RetryDecision)
    ensures
        d == (if is_substring("You have exceeded a secondary rate limit"@, message@) {
            RetryDecision::RetryAfter(spec_retry_backoff_secs())
        } else {
            RetryDecision::Abort
        }),
{
    if contains_substring(message, "You have exceeded a secondary rate limit") {
        RetryDecision::RetryAfter(60)
    } else {
        RetryDecision::Abort
    }
}

} // verus!
