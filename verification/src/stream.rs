//! The paged fetcher and record stream: a pull-based cursor object that turns
//! a cursor-paginated remote collection into a single-pass sequence of typed
//! records.
//!
//! The stream itself never performs a network call. `poll` tells the caller
//! what to do next: deliver a buffered record, fetch the page a cursor names,
//! or stop because the last page carried no continuation cursor. The caller
//! fetches raw pages, decodes them whole (see `crate::records`) and hands the
//! result back through `feed`. The collectors at the end of this module drive
//! a stream over an in-memory chain of pages and are verified to yield every
//! decoded record in order, with one page request per page of the chain and
//! none after a missing cursor.

use vstd::prelude::*;

use crate::error::StreamError;
use crate::records::Account;
use crate::records::PullRequest;
use crate::records::RawAccount;
use crate::records::RawPullRequest;
use crate::records::account_page_decodes;
use crate::records::decode_account_page;
use crate::records::decode_pull_request_page;
use crate::records::decoded_accounts;
use crate::records::decoded_pull_requests;
use crate::records::pull_request_page_decodes;

verus! {

/// One page of a paginated collection: its raw records in order, and the
/// cursor of the page after it, absent on the terminal page.
pub struct Page<R> {
    pub items: Vec<R>,
    pub next: Option<usize>,
}

/// What a record stream asks of its caller next.
pub enum StreamStep<T> {
    /// The next record of the collection, in order.
    Item(T),
    /// The current page is spent and the remote holds more: fetch the page
    /// this cursor names and `feed` it back, decoded.
    Fetch(usize),
    /// The terminal page has been delivered in full; no further page request
    /// may be made.
    Done,
}

/// The cursor of the first page of every paginated collection.
pub const FIRST_PAGE_CURSOR: usize = 1;

/// A single-pass, pull-based record stream over a paginated collection.
///
/// It owns the decoded, undelivered records of the page it is walking and the
/// cursor of the page after it; `poll` never asks for a page while a buffered
/// record is undelivered, and never asks for one after a page arrived without
/// a continuation cursor.
pub struct RecordStream<T> {
    buffer: Vec<T>,
    next_cursor: Option<usize>,
}

impl<T> RecordStream<T> {
    /// The decoded records not yet delivered downstream.
    pub closed spec fn buffered(self) -> Seq<T> {
        self.buffer@
    }

    /// The cursor of the page to fetch once the buffer is drained; `None`
    /// once the terminal page has been fed.
    pub closed spec fn cursor(self) -> Option<usize> {
        self.next_cursor
    }

    /// A fresh stream: nothing buffered, positioned on the first page.
    pub fn new() -> (s: Self)
        ensures
            s.buffered() == Seq::<T>::empty(),
            s.cursor() == Some(FIRST_PAGE_CURSOR),
    {
        RecordStream { buffer: Vec::new(), next_cursor: Some(FIRST_PAGE_CURSOR) }
    }

    /// Pulls once: the front buffered record if one is left, else a request
    /// for the next page, else the end of the sequence.
    pub fn poll(&mut self) -> (step: StreamStep<T>)
        ensures
            old(self).buffered().len() > 0 ==> {
                &&& step == StreamStep::Item(old(self).buffered()[0])
                &&& final(self).buffered() == old(self).buffered().skip(1)
                &&& final(self).cursor() == old(self).cursor()
            },
            old(self).buffered().len() == 0 && old(self).cursor() is Some ==> {
                &&& step == StreamStep::<T>::Fetch(old(self).cursor()->0)
                &&& *final(self) == *old(self)
            },
            old(self).buffered().len() == 0 && old(self).cursor() is None ==> {
                &&& step == StreamStep::<T>::Done
                &&& *final(self) == *old(self)
            },
    {
        if self.buffer.len() > 0 {
            let t = self.buffer.remove(0);
            StreamStep::Item(t)
        } else {
            match self.next_cursor {
                Some(c) => StreamStep::Fetch(c),
                None => StreamStep::Done,
            }
        }
    }

    /// Hands the stream the decoded records of the page it asked for, with
    /// the continuation cursor that came beside them.
    pub fn feed(&mut self, items: Vec<T>, next: Option<usize>)
        requires
            old(self).buffered().len() == 0,
            old(self).cursor() is Some,
        ensures
            final(self).buffered() == items@,
            final(self).cursor() == next,
    {
        self.buffer = items;
        self.next_cursor = next;
    }
}

/// A well-formed chain of pages, as a stable remote collection serves it:
/// page `i` names page `i + 1` through its cursor, the last page names none,
/// and no cursor is reused. Cursors are one-based, so the cursor of page `i`
/// is `i + 1` and the first request uses `FIRST_PAGE_CURSOR`.
pub open spec fn chained<R>(pages: Seq<Page<R>>) -> bool {
    &&& pages.len() >= 1
    &&& forall|i: int|
        0 <= i < pages.len() ==> (#[trigger] pages[i].next) == (
        if i + 1 < pages.len() {
            Some((i + 2) as usize)
        } else {
            None::<usize>
        })
}

/// The total number of raw records over a chain of pages.
pub open spec fn total_items<R>(pages: Seq<Page<R>>) -> nat
    decreases pages.len(),
{
    if pages.len() == 0 {
        0
    } else {
        total_items(pages.drop_last()) + pages.last().items@.len()
    }
}

/// Whether every raw account on every page of a chain decodes.
pub open spec fn all_account_pages_decode(pages: Seq<Page<RawAccount>>) -> bool {
    forall|i: int| 0 <= i < pages.len() ==> account_page_decodes(#[trigger] pages[i].items@)
}

/// The decoded accounts of a chain, page after page, in page order.
pub open spec fn flat_decoded_accounts(pages: Seq<Page<RawAccount>>) -> Seq<Account>
    decreases pages.len(),
{
    if pages.len() == 0 {
        Seq::empty()
    } else {
        flat_decoded_accounts(pages.drop_last()) + decoded_accounts(pages.last().items@)
    }
}

/// Whether every raw pull request on every page of a chain decodes.
pub open spec fn all_pull_request_pages_decode(pages: Seq<Page<RawPullRequest>>) -> bool {
    forall|i: int| 0 <= i < pages.len() ==> pull_request_page_decodes(#[trigger] pages[i].items@)
}

/// The decoded pull requests of a chain, page after page, in page order.
pub open spec fn flat_decoded_pull_requests(pages: Seq<Page<RawPullRequest>>) -> Seq<PullRequest>
    decreases pages.len(),
{
    if pages.len() == 0 {
        Seq::empty()
    } else {
        flat_decoded_pull_requests(pages.drop_last()) + decoded_pull_requests(pages.last().items@)
    }
}

/// Extending a prefix of a chain by one page appends that page's decoded
/// accounts to the flattened sequence.
pub proof fn lemma_flat_decoded_accounts_step(pages: Seq<Page<RawAccount>>, j: int)
    requires
        0 <= j < pages.len(),
    ensures
        flat_decoded_accounts(pages.take(j + 1)) == flat_decoded_accounts(pages.take(j))
            + decoded_accounts(pages[j].items@),
{
    assert(pages.take(j + 1).drop_last() =~= pages.take(j));
    assert(pages.take(j + 1).last() == pages[j]);
}

/// Extending a prefix of a chain by one page appends that page's decoded
/// pull requests to the flattened sequence.
pub proof fn lemma_flat_decoded_pull_requests_step(pages: Seq<Page<RawPullRequest>>, j: int)
    requires
        0 <= j < pages.len(),
    ensures
        flat_decoded_pull_requests(pages.take(j + 1)) == flat_decoded_pull_requests(pages.take(j))
            + decoded_pull_requests(pages[j].items@),
{
    assert(pages.take(j + 1).drop_last() =~= pages.take(j));
    assert(pages.take(j + 1).last() == pages[j]);
}

/// Law: a stream over a chain of pages with sizes `n_1 .. n_k` yields exactly
/// `n_1 + .. + n_k` records — every record of every page once, none invented.
pub proof fn lemma_flat_decoded_accounts_len(pages: Seq<Page<RawAccount>>)
    ensures
        flat_decoded_accounts(pages).len() == total_items(pages),
    decreases pages.len(),
{
    if pages.len() > 0 {
        lemma_flat_decoded_accounts_len(pages.drop_last());
    }
}

/// Law: as `lemma_flat_decoded_accounts_len`, for pull-request chains.
pub proof fn lemma_flat_decoded_pull_requests_len(pages: Seq<Page<RawPullRequest>>)
    ensures
        flat_decoded_pull_requests(pages).len() == total_items(pages),
    decreases pages.len(),
{
    if pages.len() > 0 {
        lemma_flat_decoded_pull_requests_len(pages.drop_last());
    }
}

/// Drives a fresh account stream over an in-memory chain of raw pages,
/// exactly as the surrounding program drives one over the remote collection:
/// serve the page each `Fetch` asks for, decode it whole, feed it back, and
/// gather every yielded record.
///
/// On success the records come back in original relative order with nothing
/// duplicated or dropped, and the number of served page requests is exactly
/// the length of the chain: one request per page, none after the page that
/// carried no cursor. A page with an undecodable record aborts the run with a
/// decode error and delivers nothing of that page.
#[verifier::loop_isolation(false)]
pub fn collect_accounts(mut pages: Vec<Page<RawAccount>>) -> (r: Result<
    (Vec<Account>, usize),
    StreamError,
>)
    requires
        chained(pages@),
    ensures
        match r {
            Ok(p) => {
                &&& all_account_pages_decode(pages@)
                &&& p.0@ == flat_decoded_accounts(pages@)
                &&& p.1 == pages@.len()
            },
            Err(e) => e == StreamError::Decode && !all_account_pages_decode(pages@),
        },
{
    let ghost all = pages@;
    let total = pages.len();
    let mut stream: RecordStream<Account> = RecordStream::new();
    let mut out: Vec<Account> = Vec::new();
    let mut calls: usize = 0;
    loop
        invariant
            calls <= total,
            pages@ == all.skip(calls as int),
            forall|i: int| 0 <= i < calls ==> account_page_decodes(#[trigger] all[i].items@),
            out@ + stream.buffered() == flat_decoded_accounts(all.take(calls as int)),
            stream.cursor() == (if calls == 0 {
                Some(FIRST_PAGE_CURSOR)
            } else {
                all[calls - 1].next
            }),
        decreases total - calls, stream.buffered().len(),
    {
        match stream.poll() {
            StreamStep::Item(a) => {
                out.push(a);
                proof {
                    assert(out@ + stream.buffered() =~= flat_decoded_accounts(
                        all.take(calls as int),
                    ));
                }
            },
            StreamStep::Fetch(_c) => {
                proof {
                    if calls > 0 {
                        assert(all[calls - 1].next is Some);
                        assert(calls < all.len());
                    }
                }
                let page = pages.remove(0);
                assert(page == all[calls as int]);
                calls = calls + 1;
                match decode_account_page(page.items) {
                    Ok(items) => {
                        stream.feed(items, page.next);
                        proof {
                            lemma_flat_decoded_accounts_step(all, calls - 1);
                            assert(out@ + stream.buffered() =~= flat_decoded_accounts(
                                all.take(calls as int),
                            ));
                            assert(pages@ =~= all.skip(calls as int));
                        }
                    },
                    Err(e) => {
                        proof {
                            assert(!account_page_decodes(all[calls - 1].items@));
                            assert(!all_account_pages_decode(all));
                        }
                        return Err(e);
                    },
                }
            },
            StreamStep::Done => {
                proof {
                    assert(calls >= 1);
                    assert(all[calls - 1].next is None);
                    assert(calls == all.len());
                    assert(all.take(calls as int) =~= all);
                    assert(out@ =~= flat_decoded_accounts(all));
                }
                return Ok((out, calls));
            },
        }
    }
}

/// Drives a fresh pull-request stream over an in-memory chain of raw pages;
/// see `collect_accounts` for the protocol and the guarantees.
#[verifier::loop_isolation(false)]
pub fn collect_pull_requests(mut pages: Vec<Page<RawPullRequest>>) -> (r: Result<
    (Vec<PullRequest>, usize),
    StreamError,
>)
    requires
        chained(pages@),
    ensures
        match r {
            Ok(p) => {
                &&& all_pull_request_pages_decode(pages@)
                &&& p.0@ == flat_decoded_pull_requests(pages@)
                &&& p.1 == pages@.len()
            },
            Err(e) => e == StreamError::Decode && !all_pull_request_pages_decode(pages@),
        },
{
    let ghost all = pages@;
    let total = pages.len();
    let mut stream: RecordStream<PullRequest> = RecordStream::new();
    let mut out: Vec<PullRequest> = Vec::new();
    let mut calls: usize = 0;
    loop
        invariant
            calls <= total,
            pages@ == all.skip(calls as int),
            forall|i: int| 0 <= i < calls ==> pull_request_page_decodes(#[trigger] all[i].items@),
            out@ + stream.buffered() == flat_decoded_pull_requests(all.take(calls as int)),
            stream.cursor() == (if calls == 0 {
                Some(FIRST_PAGE_CURSOR)
            } else {
                all[calls - 1].next
            }),
        decreases total - calls, stream.buffered().len(),
    {
        match stream.poll() {
            StreamStep::Item(p) => {
                out.push(p);
                proof {
                    assert(out@ + stream.buffered() =~= flat_decoded_pull_requests(
                        all.take(calls as int),
                    ));
                }
            },
            StreamStep::Fetch(_c) => {
                proof {
                    if calls > 0 {
                        assert(all[calls - 1].next is Some);
                        assert(calls < all.len());
                    }
                }
                let page = pages.remove(0);
                assert(page == all[calls as int]);
                calls = calls + 1;
                match decode_pull_request_page(page.items) {
                    Ok(items) => {
                        stream.feed(items, page.next);
                        proof {
                            lemma_flat_decoded_pull_requests_step(all, calls - 1);
                            assert(out@ + stream.buffered() =~= flat_decoded_pull_requests(
                                all.take(calls as int),
                            ));
                            assert(pages@ =~= all.skip(calls as int));
                        }
                    },
                    Err(e) => {
                        proof {
                            assert(!pull_request_page_decodes(all[calls - 1].items@));
                            assert(!all_pull_request_pages_decode(all));
                        }
                        return Err(e);
                    },
                }
            },
            StreamStep::Done => {
                proof {
                    assert(calls >= 1);
                    assert(all[calls - 1].next is None);
                    assert(calls == all.len());
                    assert(all.take(calls as int) =~= all);
                    assert(out@ =~= flat_decoded_pull_requests(all));
                }
                return Ok((out, calls));
            },
        }
    }
}

} // verus!
