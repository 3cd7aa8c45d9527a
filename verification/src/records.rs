//! The typed domain records and the decoding step that turns raw API records
//! into them.
//!
//! A raw record holds what the wire format may or may not carry, as plain
//! optional values; decoding demands the fields a typed record cannot do
//! without and fails with a decode error otherwise. Timestamps are seconds
//! since the Unix epoch.

use vstd::prelude::*;

use crate::error::StreamError;

verus! {

/// A forge account as the list endpoints return it: login and numeric id.
pub struct Account {
    pub login: String,
    pub id: u64,
}

/// An account record as it arrives off the wire, before validation.
pub struct RawAccount {
    pub login: Option<String>,
    pub id: Option<u64>,
}

/// A pull request: its author and the moment it was opened.
pub struct PullRequest {
    pub author_login: String,
    pub author_id: u64,
    /// Seconds since the Unix epoch.
    pub created_at: i64,
}

/// A pull-request record as it arrives off the wire, before validation.
pub struct RawPullRequest {
    pub author_login: Option<String>,
    pub author_id: Option<u64>,
    pub created_at: Option<i64>,
}

/// The profile fields that the single-user endpoint returns and that
/// enrichment reads.
pub struct UserInfo {
    pub login: String,
    pub id: u64,
    pub name: Option<String>,
    pub twitter_handle: Option<String>,
    /// Seconds since the Unix epoch.
    pub created_at: i64,
}

/// Whether a raw account carries everything an `Account` needs.
pub open spec fn account_decodes(r: RawAccount) -> bool {
    r.login is Some && r.id is Some
}

/// The account a decodable raw account stands for.
pub open spec fn spec_decode_account(r: RawAccount) -> Account {
    Account { login: r.login->0, id: r.id->0 }
}

/// Whether a raw pull request carries everything a `PullRequest` needs.
pub open spec fn pull_request_decodes(r: RawPullRequest) -> bool {
    r.author_login is Some && r.author_id is Some && r.created_at is Some
}

/// The pull request a decodable raw record stands for.
pub open spec fn spec_decode_pull_request(r: RawPullRequest) -> PullRequest {
    PullRequest {
        author_login: r.author_login->0,
        author_id: r.author_id->0,
        created_at: r.created_at->0,
    }
}

/// Decodes one raw account; fails exactly when a required field is absent.
pub fn decode_account(r: RawAccount) -> (res: Result<Account, StreamError>)
    ensures
        account_decodes(r) ==> res == Ok::<Account, StreamError>(spec_decode_account(r)),
        !account_decodes(r) ==> res == Err::<Account, StreamError>(StreamError::Decode),
{
    match (r.login, r.id) {
        (Some(login), Some(id)) => Ok(Account { login, id }),
        _ => Err(StreamError::Decode),
    }
}

/// Decodes one raw pull request; fails exactly when a required field is
/// absent.
pub fn decode_pull_request(r: RawPullRequest) -> (res: Result<PullRequest, StreamError>)
    ensures
        pull_request_decodes(r) ==> res == Ok::<PullRequest, StreamError>(
            spec_decode_pull_request(r),
        ),
        !pull_request_decodes(r) ==> res == Err::<PullRequest, StreamError>(StreamError::Decode),
{
    match (r.author_login, r.author_id, r.created_at) {
        (Some(author_login), Some(author_id), Some(created_at)) => Ok(
            PullRequest { author_login, author_id, created_at },
        ),
        _ => Err(StreamError::Decode),
    }
}

/// Whether every raw account of a page decodes.
pub open spec fn account_page_decodes(items: Seq<RawAccount>) -> bool {
    forall|i: int| 0 <= i < items.len() ==> account_decodes(#[trigger] items[i])
}

/// The typed accounts of a page whose raw records all decode.
pub open spec fn decoded_accounts(items: Seq<RawAccount>) -> Seq<Account> {
    items.map_values(|r: RawAccount| spec_decode_account(r))
}

/// Whether every raw pull request of a page decodes.
pub open spec fn pull_request_page_decodes(items: Seq<RawPullRequest>) -> bool {
    forall|i: int| 0 <= i < items.len() ==> pull_request_decodes(#[trigger] items[i])
}

/// The typed pull requests of a page whose raw records all decode.
pub open spec fn decoded_pull_requests(items: Seq<RawPullRequest>) -> Seq<PullRequest> {
    items.map_values(|r: RawPullRequest| spec_decode_pull_request(r))
}

/// Decodes a whole page of raw accounts, all or nothing: one missing field
/// fails the page, and nothing of it is delivered.
#[verifier::loop_isolation(false)]
pub fn decode_account_page(mut items: Vec<RawAccount>) -> (res: Result<Vec<Account>, StreamError>)
    ensures
        match res {
            Ok(v) => account_page_decodes(items@) && v@ == decoded_accounts(items@),
            Err(e) => e == StreamError::Decode && !account_page_decodes(items@),
        },
{
    let ghost all = items@;
    let n = items.len();
    assert(all.len() == n);
    let mut out: Vec<Account> = Vec::new();
    let mut done: usize = 0;
    while items.len() > 0
        invariant
            all.len() <= usize::MAX,
            done + items.len() == all.len(),
            items@ == all.skip(done as int),
            account_page_decodes(all.take(done as int)),
            out@ == decoded_accounts(all.take(done as int)),
        decreases items.len(),
    {
        assert(done < all.len());
        let raw = items.remove(0);
        assert(raw == all[done as int]);
        match decode_account(raw) {
            Ok(a) => {
                out.push(a);
                done = done + 1;
                proof {
                    assert(all.take(done as int) =~= all.take(done - 1).push(all[done - 1]));
                    assert(out@ =~= decoded_accounts(all.take(done as int)));
                    assert(items@ =~= all.skip(done as int));
                }
            },
            Err(e) => {
                proof {
                    assert(!account_decodes(all[done as int]));
                    assert(!account_page_decodes(all));
                    assert(e == StreamError::Decode);
                }
                return Err(e);
            },
        }
    }
    proof {
        assert(all.take(done as int) =~= all);
    }
    Ok(out)
}

/// Decodes a whole page of raw pull requests, all or nothing.
#[verifier::loop_isolation(false)]
pub fn decode_pull_request_page(mut items: Vec<RawPullRequest>) -> (res: Result<
    Vec<PullRequest>,
    StreamError,
>)
    ensures
        match res {
            Ok(v) => pull_request_page_decodes(items@) && v@ == decoded_pull_requests(items@),
            Err(e) => e == StreamError::Decode && !pull_request_page_decodes(items@),
        },
{
    let ghost all = items@;
    let n = items.len();
    assert(all.len() == n);
    let mut out: Vec<PullRequest> = Vec::new();
    let mut done: usize = 0;
    while items.len() > 0
        invariant
            all.len() <= usize::MAX,
            done + items.len() == all.len(),
            items@ == all.skip(done as int),
            pull_request_page_decodes(all.take(done as int)),
            out@ == decoded_pull_requests(all.take(done as int)),
        decreases items.len(),
    {
        assert(done < all.len());
        let raw = items.remove(0);
        assert(raw == all[done as int]);
        match decode_pull_request(raw) {
            Ok(p) => {
                out.push(p);
                done = done + 1;
                proof {
                    assert(all.take(done as int) =~= all.take(done - 1).push(all[done - 1]));
                    assert(out@ =~= decoded_pull_requests(all.take(done as int)));
                    assert(items@ =~= all.skip(done as int));
                }
            },
            Err(e) => {
                proof {
                    assert(!pull_request_decodes(all[done as int]));
                    assert(!pull_request_page_decodes(all));
                    assert(e == StreamError::Decode);
                }
                return Err(e);
            },
        }
    }
    proof {
        assert(all.take(done as int) =~= all);
    }
    Ok(out)
}

} // verus!
