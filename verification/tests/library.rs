use crabby::aggregate::{aggregate_pull_requests, key_before, str_lex_lt, ContributorSummary};
use crabby::block::{interpret_block_probe, interpret_block_put, BlockBatch, BlockProbe};
use crabby::csvio::{batch_logins, render_basic_row, render_enriched_row};
use crabby::enrich::{age_days, contains_login, enrich_summary, find_user_info, enrich_groups};
use crabby::error::{InputError, StreamError, TransportError};
use crabby::records::{
    decode_account, decode_account_page, decode_pull_request, Account, PullRequest, RawAccount,
    RawPullRequest, UserInfo,
};
use crabby::render::{bool_to_str, i64_to_string, listing_line, u64_to_string};
use crabby::repo::parse_repo_path;
use crabby::social::{interpret_follow_check, list_route, resolve_follow_target, SocialList};
use crabby::stream::{collect_accounts, collect_pull_requests, Page, RecordStream, StreamStep};

fn raw_user(login: &str, id: u64) -> RawAccount {
    RawAccount {
        login: Some(login.to_string()),
        id: Some(id),
    }
}

fn raw_pr(login: &str, id: u64, created_at: i64) -> RawPullRequest {
    RawPullRequest {
        author_login: Some(login.to_string()),
        author_id: Some(id),
        created_at: Some(created_at),
    }
}

fn pr(login: &str, id: u64, created_at: i64) -> PullRequest {
    PullRequest {
        author_login: login.to_string(),
        author_id: id,
        created_at,
    }
}

fn info(login: &str, id: u64, name: Option<&str>, handle: Option<&str>, created_at: i64) -> UserInfo {
    UserInfo {
        login: login.to_string(),
        id,
        name: name.map(|s| s.to_string()),
        twitter_handle: handle.map(|s| s.to_string()),
        created_at,
    }
}

// --- record decoding ---

#[test]
fn decode_account_needs_login_and_id() {
    assert!(matches!(decode_account(raw_user("u1", 1)), Ok(a) if a.login == "u1" && a.id == 1));
    assert!(matches!(
        decode_account(RawAccount { login: None, id: Some(1) }),
        Err(StreamError::Decode)
    ));
}

#[test]
fn decode_pull_request_needs_all_fields() {
    let ok = decode_pull_request(raw_pr("u1", 1, 99)).unwrap();
    assert_eq!(ok.author_login, "u1");
    assert_eq!(ok.author_id, 1);
    assert_eq!(ok.created_at, 99);
    let missing = RawPullRequest { author_login: Some("u1".to_string()), author_id: Some(1), created_at: None };
    assert!(decode_pull_request(missing).is_err());
}

#[test]
fn decode_page_is_all_or_nothing() {
    let bad = vec![raw_user("u1", 1), RawAccount { login: None, id: None }];
    assert!(decode_account_page(bad).is_err());
    let good = vec![raw_user("u1", 1), raw_user("u2", 2)];
    let decoded = decode_account_page(good).unwrap();
    assert_eq!(decoded.len(), 2);
    assert_eq!(decoded[1].login, "u2");
}

// --- record stream and paged fetcher ---

#[test]
fn fresh_stream_asks_for_first_page() {
    let mut s: RecordStream<Account> = RecordStream::new();
    assert!(matches!(s.poll(), StreamStep::Fetch(1)));
}

#[test]
fn two_page_follower_fixture_yields_all_in_order() {
    let pages = vec![
        Page { items: vec![raw_user("u1", 1), raw_user("u2", 2)], next: Some(2) },
        Page { items: vec![raw_user("u3", 3)], next: None },
    ];
    let (records, calls) = collect_accounts(pages).unwrap();
    assert_eq!(calls, 2);
    let lines: Vec<String> = records.iter().map(|a| listing_line(a)).collect();
    assert_eq!(lines, vec!["u1,1", "u2,2", "u3,3"]);
}

#[test]
fn record_count_is_sum_of_page_sizes() {
    let pages = vec![
        Page { items: vec![raw_user("a", 1), raw_user("b", 2), raw_user("c", 3)], next: Some(2) },
        Page { items: vec![], next: Some(3) },
        Page { items: vec![raw_user("d", 4)], next: None },
    ];
    let (records, calls) = collect_accounts(pages).unwrap();
    assert_eq!(records.len(), 4);
    assert_eq!(calls, 3);
}

#[test]
fn one_call_per_page_and_none_after_missing_cursor() {
    // A terminal empty page still costs its one call; nothing follows it.
    let pages = vec![
        Page { items: vec![raw_pr("u1", 1, 5)], next: Some(2) },
        Page { items: vec![], next: None },
    ];
    let (records, calls) = collect_pull_requests(pages).unwrap();
    assert_eq!(records.len(), 1);
    assert_eq!(calls, 2);

    let single = vec![Page { items: vec![raw_pr("u1", 1, 5)], next: None }];
    let (_, calls) = collect_pull_requests(single).unwrap();
    assert_eq!(calls, 1);
}

#[test]
fn decode_failure_aborts_stream_and_drops_page() {
    let pages = vec![
        Page { items: vec![raw_user("u1", 1)], next: Some(2) },
        Page { items: vec![raw_user("u2", 2), RawAccount { login: Some("u3".to_string()), id: None }], next: None },
    ];
    assert_eq!(collect_accounts(pages).err(), Some(StreamError::Decode));
}

// --- contributor aggregation ---

#[test]
fn aggregation_groups_counts_and_first_dates() {
    // Two pull requests by u1 (earlier date first seen second) and one by u2:
    // two rows, sorted by login, counts 2 and 1, earliest dates kept.
    let prs = vec![pr("u1", 1, 200), pr("u2", 2, 300), pr("u1", 1, 100)];
    let groups = aggregate_pull_requests(prs);
    assert_eq!(groups.len(), 2);
    assert_eq!(groups[0].login, "u1");
    assert_eq!(groups[0].id, 1);
    assert_eq!(groups[0].count, 2);
    assert_eq!(groups[0].first_created, 100);
    assert_eq!(groups[1].login, "u2");
    assert_eq!(groups[1].count, 1);
    assert_eq!(groups[1].first_created, 300);
}

#[test]
fn aggregation_is_deterministic() {
    let make = || vec![pr("zeta", 9, 50), pr("alpha", 1, 70), pr("zeta", 9, 60), pr("mid", 5, 10)];
    let a = aggregate_pull_requests(make());
    let b = aggregate_pull_requests(make());
    assert_eq!(a.len(), b.len());
    for (x, y) in a.iter().zip(b.iter()) {
        assert_eq!(x.login, y.login);
        assert_eq!(x.id, y.id);
        assert_eq!(x.count, y.count);
        assert_eq!(x.first_created, y.first_created);
    }
}

#[test]
fn same_login_different_ids_stay_separate_groups() {
    let prs = vec![pr("u1", 1, 10), pr("u1", 2, 20), pr("u1", 1, 30)];
    let groups = aggregate_pull_requests(prs);
    assert_eq!(groups.len(), 2);
    assert_eq!((groups[0].login.as_str(), groups[0].id, groups[0].count), ("u1", 1, 2));
    assert_eq!((groups[1].login.as_str(), groups[1].id, groups[1].count), ("u1", 2, 1));
}

#[test]
fn empty_pull_request_set_gives_no_groups() {
    assert_eq!(aggregate_pull_requests(Vec::new()).len(), 0);
}

#[test]
fn login_order_is_lexicographic() {
    assert!(str_lex_lt("alpha", "beta"));
    assert!(!str_lex_lt("beta", "alpha"));
    assert!(!str_lex_lt("same", "same"));
    assert!(str_lex_lt("ab", "abc"));
    assert!(key_before(&"a".to_string(), 2, &"b".to_string(), 1));
    assert!(key_before(&"a".to_string(), 1, &"a".to_string(), 2));
    assert!(!key_before(&"a".to_string(), 2, &"a".to_string(), 1));
}

#[test]
fn end_to_end_contributor_rows_unauthenticated() {
    let prs = vec![pr("u1", 1001, 100), pr("u1", 1001, 200), pr("u2", 1002, 300)];
    let groups = aggregate_pull_requests(prs);
    let mut out = Vec::new();
    for g in &groups {
        out.extend_from_slice(&render_basic_row(g));
    }
    assert_eq!(String::from_utf8(out).unwrap(), "u1,1001,2\nu2,1002,1\n");
}

// --- enrichment ---

#[test]
fn enrichment_of_known_contributor() {
    let s = ContributorSummary { login: "u1".to_string(), id: 1, count: 2, first_created: 3 * 86400 };
    let infos = vec![info("u1", 1, Some("User One"), Some("u1_handle"), 86400)];
    let followers = vec!["u1".to_string()];
    let following: Vec<String> = Vec::new();
    let e = enrich_summary(&s, &infos, &followers, &following);
    assert_eq!(e.age_days, 2);
    assert_eq!(e.display_name, "User One");
    assert_eq!(e.twitter_handle, "u1_handle");
    assert!(e.follows_you);
    assert!(!e.you_follow);
}

#[test]
fn missing_profile_gives_sentinel_not_crash() {
    // An account absent from the profile lookup (a bot, a deleted account)
    // still yields a row: age -1, empty name and handle.
    let s = ContributorSummary { login: "dependabot".to_string(), id: 7, count: 1, first_created: 1000 };
    let infos = vec![info("someone-else", 1, None, None, 0)];
    let e = enrich_summary(&s, &infos, &Vec::new(), &Vec::new());
    assert_eq!(e.age_days, -1);
    assert_eq!(e.display_name, "");
    assert_eq!(e.twitter_handle, "");
    assert!(!e.you_follow);
    assert!(!e.follows_you);
}

#[test]
fn profile_with_absent_optional_fields_gives_empty_strings() {
    let s = ContributorSummary { login: "u1".to_string(), id: 1, count: 1, first_created: 86400 };
    let infos = vec![info("u1", 1, None, None, 0)];
    let e = enrich_summary(&s, &infos, &Vec::new(), &Vec::new());
    assert_eq!(e.age_days, 1);
    assert_eq!(e.display_name, "");
    assert_eq!(e.twitter_handle, "");
}

#[test]
fn enrich_groups_keeps_group_order() {
    let groups = vec![
        ContributorSummary { login: "a".to_string(), id: 1, count: 1, first_created: 0 },
        ContributorSummary { login: "b".to_string(), id: 2, count: 3, first_created: 50 },
    ];
    let rows = enrich_groups(groups, &Vec::new(), &Vec::new(), &Vec::new());
    assert_eq!(rows.len(), 2);
    assert_eq!(rows[0].0.login, "a");
    assert_eq!(rows[1].0.login, "b");
    assert_eq!(rows[1].1.age_days, -1);
}

#[test]
fn age_days_truncates_toward_zero() {
    assert_eq!(age_days(2 * 86400 + 100, 100), 2);
    assert_eq!(age_days(100, 100), 0);
    assert_eq!(age_days(86399, 0), 0);
    // Profile created one and a half days after the first pull request.
    assert_eq!(age_days(0, 86400 + 43200), -1);
}

#[test]
fn lookup_helpers_find_logins() {
    let infos = vec![info("u1", 1, None, None, 0), info("u2", 2, None, None, 0)];
    assert!(find_user_info(&infos, &"u2".to_string()).is_some());
    assert!(find_user_info(&infos, &"u9".to_string()).is_none());
    let logins = vec!["a".to_string(), "b".to_string()];
    assert!(contains_login(&logins, &"b".to_string()));
    assert!(!contains_login(&logins, &"c".to_string()));
}

// --- social queries ---

#[test]
fn listing_routes() {
    assert_eq!(list_route(SocialList::Followers), "user/followers");
    assert_eq!(list_route(SocialList::Following), "user/following");
    assert_eq!(list_route(SocialList::Blocks), "user/blocks");
}

#[test]
fn follow_check_reads_status_codes() {
    // Fixture: alice follows bob, so the probe answers 204.
    assert_eq!(interpret_follow_check(204), Ok(true));
    assert_eq!(interpret_follow_check(404), Ok(false));
    assert_eq!(interpret_follow_check(500), Err(TransportError::Status(500)));
}

#[test]
fn follow_target_defaults_to_own_login() {
    assert_eq!(resolve_follow_target(Some("bob".to_string()), "me".to_string()), "bob");
    assert_eq!(resolve_follow_target(None, "me".to_string()), "me");
    // A self check is passed through unchanged, not special-cased.
    assert_eq!(resolve_follow_target(Some("alice".to_string()), "alice".to_string()), "alice");
}

// --- block operation ---

#[test]
fn block_probe_and_put_read_status_codes() {
    assert_eq!(interpret_block_probe(204), Ok(BlockProbe::AlreadyBlocked));
    assert_eq!(interpret_block_probe(404), Ok(BlockProbe::NeedsBlock));
    assert_eq!(interpret_block_probe(403), Err(TransportError::Status(403)));
    assert_eq!(interpret_block_put(204), Ok(()));
    assert_eq!(interpret_block_put(500), Err(TransportError::Status(500)));
}

#[test]
fn batch_failure_on_one_account_does_not_stop_the_rest() {
    let logins: Vec<String> = ["u1", "u2", "u3", "u4", "u5"].iter().map(|s| s.to_string()).collect();
    let mut batch = BlockBatch::new(logins);
    let outcomes: Vec<Result<bool, TransportError>> = vec![
        Ok(true),
        Ok(false),
        Err(TransportError::Connection),
        Ok(true),
        Ok(true),
    ];
    let mut attempted = Vec::new();
    let mut i = 0;
    while let Some(login) = batch.pending() {
        attempted.push(login.clone());
        let outcome = outcomes[i].clone();
        i += 1;
        batch.record(&outcome);
    }
    // Accounts four and five were still attempted after the failure on the
    // third one.
    assert_eq!(attempted, vec!["u1", "u2", "u3", "u4", "u5"]);
    assert!(batch.any_failure());
}

#[test]
fn fresh_block_reports_change_and_repeat_does_not() {
    // Blocking a fresh account: the probe says not blocked, the put runs.
    assert_eq!(interpret_block_probe(404), Ok(BlockProbe::NeedsBlock));
    // Blocking an already-blocked account: the probe short-circuits to
    // "no change".
    assert_eq!(interpret_block_probe(204), Ok(BlockProbe::AlreadyBlocked));
}

// --- repository path ---

#[test]
fn repo_path_parses_owner_and_name() {
    assert_eq!(parse_repo_path("octo/crabby"), Ok(("octo".to_string(), "crabby".to_string())));
    assert_eq!(parse_repo_path("noslash"), Err(InputError::BadRepoPath));
    assert_eq!(parse_repo_path("a/b/c"), Err(InputError::BadRepoPath));
    assert_eq!(parse_repo_path("/name"), Err(InputError::BadRepoPath));
    assert_eq!(parse_repo_path("owner/"), Err(InputError::BadRepoPath));
    assert_eq!(parse_repo_path(""), Err(InputError::BadRepoPath));
}

// --- rendering ---

#[test]
fn decimal_rendering_is_exact() {
    assert_eq!(u64_to_string(0), "0");
    assert_eq!(u64_to_string(7), "7");
    assert_eq!(u64_to_string(1234567890), "1234567890");
    assert_eq!(u64_to_string(u64::MAX), "18446744073709551615");
    assert_eq!(i64_to_string(-1), "-1");
    assert_eq!(i64_to_string(42), "42");
    assert_eq!(i64_to_string(i64::MIN), "-9223372036854775808");
    assert_eq!(bool_to_str(true), "true");
    assert_eq!(bool_to_str(false), "false");
}

#[test]
fn enriched_row_is_quoted_tabular_text() {
    let s = ContributorSummary { login: "u1".to_string(), id: 9, count: 1, first_created: 0 };
    let e = crabby::enrich::Enrichment {
        age_days: -1,
        display_name: "Surname, Name".to_string(),
        you_follow: true,
        follows_you: false,
        twitter_handle: String::new(),
    };
    let bytes = render_enriched_row(&s, &e);
    assert_eq!(
        String::from_utf8(bytes).unwrap(),
        "u1,9,1,-1,\"Surname, Name\",true,false,\n"
    );
}

// --- batch input ---

#[test]
fn batch_input_takes_first_field_after_header() {
    let input = b"login,note\nu1,hello\nu2,world\n";
    let logins = batch_logins(input).unwrap();
    assert_eq!(logins, vec!["u1", "u2"]);
}

#[test]
fn malformed_batch_input_is_reported() {
    // A data row with a different number of fields than the header.
    let input = b"login\nu1,extra\n";
    assert_eq!(batch_logins(input), Err(InputError::MalformedBatchInput));
}
