//! The contributor aggregator: grouping a repository's pull requests by
//! author and computing, per author, the number of pull requests and the
//! earliest creation timestamp.
//!
//! Grouping keys are `(login, id)` pairs; output groups are kept sorted by
//! login (and id between equal logins) so that emission is deterministic.
//! The aggregation is a single pass that inserts each pull request into the
//! sorted group list, so the list is sorted, key-distinct and complete at
//! every step.

use vstd::prelude::*;

use crate::records::PullRequest;

verus! {

/// One output group: a contributing account with its pull-request count and
/// the timestamp of its earliest pull request.
pub struct ContributorSummary {
    pub login: String,
    pub id: u64,
    /// Number of pull requests by this account; at least 1 by construction.
    pub count: usize,
    /// Earliest `created_at` among this account's pull requests.
    pub first_created: i64,
}

/// Strict lexicographic order on character sequences, by code point. This is
/// the order logins are emitted in.
pub open spec fn lex_lt(a: Seq<char>, b: Seq<char>) -> bool
    decreases a.len(),
{
    if b.len() == 0 {
        false
    } else if a.len() == 0 {
        true
    } else if a[0] != b[0] {
        (a[0] as u32) < (b[0] as u32)
    } else {
        lex_lt(a.skip(1), b.skip(1))
    }
}

/// No character sequence is lexicographically before itself.
pub proof fn lemma_lex_lt_irrefl(a: Seq<char>)
    ensures
        !lex_lt(a, a),
    decreases a.len(),
{
    if a.len() > 0 {
        lemma_lex_lt_irrefl(a.skip(1));
    }
}

/// The lexicographic order is transitive.
pub proof fn lemma_lex_lt_trans(a: Seq<char>, b: Seq<char>, c: Seq<char>)
    requires
        lex_lt(a, b),
        lex_lt(b, c),
    ensures
        lex_lt(a, c),
    decreases a.len(),
{
    if a.len() == 0 {
    } else {
        if a[0] == b[0] && b[0] == c[0] {
            lemma_lex_lt_trans(a.skip(1), b.skip(1), c.skip(1));
        }
    }
}

/// Any two character sequences are equal or ordered one way.
pub proof fn lemma_lex_lt_total(a: Seq<char>, b: Seq<char>)
    ensures
        a == b || lex_lt(a, b) || lex_lt(b, a),
    decreases a.len(),
{
    if a.len() == 0 && b.len() == 0 {
        assert(a =~= b);
    } else if a.len() > 0 && b.len() > 0 {
        if a[0] == b[0] {
            lemma_lex_lt_total(a.skip(1), b.skip(1));
            if a.skip(1) == b.skip(1) {
                assert(a.skip(1).len() == a.len() - 1);
                assert(b.skip(1).len() == b.len() - 1);
                assert(a.len() == b.len());
                assert forall|k: int| 0 <= k < a.len() implies a[k] == b[k] by {
                    if k > 0 {
                        assert(a[k] == a.skip(1)[k - 1]);
                        assert(b[k] == b.skip(1)[k - 1]);
                    }
                }
                assert(a =~= b);
            }
        } else {
            vstd::utf8::char_u32_cast(a[0], a[0] as u32);
            vstd::utf8::char_u32_cast(b[0], b[0] as u32);
            assert((a[0] as u32) != (b[0] as u32));
        }
    }
}

/// Strict order on grouping keys: by login, then by id between equal logins.
pub open spec fn key_lt(l1: Seq<char>, i1: u64, l2: Seq<char>, i2: u64) -> bool {
    lex_lt(l1, l2) || (l1 == l2 && i1 < i2)
}

/// `key_lt` is transitive.
pub proof fn lemma_key_lt_trans(
    l1: Seq<char>,
    i1: u64,
    l2: Seq<char>,
    i2: u64,
    l3: Seq<char>,
    i3: u64,
)
    requires
        key_lt(l1, i1, l2, i2),
        key_lt(l2, i2, l3, i3),
    ensures
        key_lt(l1, i1, l3, i3),
{
    if lex_lt(l1, l2) && lex_lt(l2, l3) {
        lemma_lex_lt_trans(l1, l2, l3);
    }
}

/// Any two keys are equal or ordered one way.
pub proof fn lemma_key_lt_total(l1: Seq<char>, i1: u64, l2: Seq<char>, i2: u64)
    ensures
        (l1 == l2 && i1 == i2) || key_lt(l1, i1, l2, i2) || key_lt(l2, i2, l1, i1),
{
    lemma_lex_lt_total(l1, l2);
}

/// Whether a pull request belongs to the group with this key.
pub open spec fn pr_has_key(pr: PullRequest, login: Seq<char>, id: u64) -> bool {
    pr.author_login@ == login && pr.author_id == id
}

/// How many pull requests of the sequence belong to this key.
pub open spec fn key_count(prs: Seq<PullRequest>, login: Seq<char>, id: u64) -> nat
    decreases prs.len(),
{
    if prs.len() == 0 {
        0
    } else {
        key_count(prs.drop_last(), login, id) + (if pr_has_key(prs.last(), login, id) {
            1nat
        } else {
            0nat
        })
    }
}

/// The earliest `created_at` among the pull requests of this key; meaningful
/// only when the key occurs at least once.
pub open spec fn key_first_created(prs: Seq<PullRequest>, login: Seq<char>, id: u64) -> int
    decreases prs.len(),
{
    if prs.len() == 0 {
        0
    } else {
        let rest = key_first_created(prs.drop_last(), login, id);
        if !pr_has_key(prs.last(), login, id) {
            rest
        } else if key_count(prs.drop_last(), login, id) == 0 {
            prs.last().created_at as int
        } else if (prs.last().created_at as int) < rest {
            prs.last().created_at as int
        } else {
            rest
        }
    }
}

/// A key occurs at most as often as the sequence is long.
pub proof fn lemma_key_count_le_len(prs: Seq<PullRequest>, login: Seq<char>, id: u64)
    ensures
        key_count(prs, login, id) <= prs.len(),
    decreases prs.len(),
{
    if prs.len() > 0 {
        lemma_key_count_le_len(prs.drop_last(), login, id);
    }
}

/// A key with a positive count occurs: some pull request carries it.
pub proof fn lemma_key_count_pos(prs: Seq<PullRequest>, login: Seq<char>, id: u64)
    requires
        key_count(prs, login, id) > 0,
    ensures
        exists|j: int| 0 <= j < prs.len() && pr_has_key(#[trigger] prs[j], login, id),
    decreases prs.len(),
{
    if pr_has_key(prs.last(), login, id) {
        assert(pr_has_key(prs[prs.len() - 1], login, id));
    } else {
        lemma_key_count_pos(prs.drop_last(), login, id);
        let j = choose|j: int|
            0 <= j < prs.drop_last().len() && pr_has_key(#[trigger] prs.drop_last()[j], login, id);
        assert(pr_has_key(prs[j], login, id));
    }
}

/// How one more pull request moves the per-key count and earliest timestamp.
pub proof fn lemma_key_specs_push(prs: Seq<PullRequest>, pr: PullRequest, login: Seq<char>, id: u64)
    ensures
        key_count(prs.push(pr), login, id) == key_count(prs, login, id) + (if pr_has_key(
            pr,
            login,
            id,
        ) {
            1nat
        } else {
            0nat
        }),
        key_first_created(prs.push(pr), login, id) == (if !pr_has_key(pr, login, id) {
            key_first_created(prs, login, id)
        } else if key_count(prs, login, id) == 0 {
            pr.created_at as int
        } else if (pr.created_at as int) < key_first_created(prs, login, id) {
            pr.created_at as int
        } else {
            key_first_created(prs, login, id)
        }),
{
    assert(prs.push(pr).drop_last() =~= prs);
    assert(prs.push(pr).last() == pr);
}

/// A correct group for this pull-request sequence: the count is the key's
/// multiplicity, positive, and the timestamp is the key's earliest.
pub open spec fn summary_matches(prs: Seq<PullRequest>, s: ContributorSummary) -> bool {
    &&& s.count as nat == key_count(prs, s.login@, s.id)
    &&& s.count >= 1
    &&& s.first_created as int == key_first_created(prs, s.login@, s.id)
}

/// Whether some group of the list carries this key.
pub open spec fn key_in_groups(gs: Seq<ContributorSummary>, login: Seq<char>, id: u64) -> bool {
    exists|i: int| 0 <= i < gs.len() && (#[trigger] gs[i]).login@ == login && gs[i].id == id
}

/// Every pull request of the sequence has a group carrying its key.
pub open spec fn groups_complete(prs: Seq<PullRequest>, gs: Seq<ContributorSummary>) -> bool {
    forall|j: int|
        0 <= j < prs.len() ==> key_in_groups(
            gs,
            (#[trigger] prs[j]).author_login@,
            prs[j].author_id,
        )
}

/// The groups are strictly increasing by key: sorted by login, and between
/// equal logins by id, with no key twice.
pub open spec fn groups_sorted(gs: Seq<ContributorSummary>) -> bool {
    forall|i: int, j: int|
        #![trigger gs[i], gs[j]]
        0 <= i < j < gs.len() ==> key_lt(gs[i].login@, gs[i].id, gs[j].login@, gs[j].id)
}

/// Decides the strict lexicographic order on two strings.
#[verifier::loop_isolation(false)]
pub fn str_lex_lt(a: &str, b: &str) -> (r: bool)
    ensures
        r == lex_lt(a@, b@),
{
    let alen = a.unicode_len();
    let blen = b.unicode_len();
    let mut i: usize = 0;
    proof {
        assert(a@.skip(0) =~= a@);
        assert(b@.skip(0) =~= b@);
    }
    loop
        invariant
            i <= alen,
            i <= blen,
            lex_lt(a@, b@) == lex_lt(a@.skip(i as int), b@.skip(i as int)),
        decreases alen - i,
    {
        if i >= blen {
            proof {
                assert(b@.skip(i as int).len() == 0);
            }
            return false;
        }
        if i >= alen {
            proof {
                assert(a@.skip(i as int).len() == 0 && b@.skip(i as int).len() > 0);
            }
            return true;
        }
        let ca = a.get_char(i);
        let cb = b.get_char(i);
        proof {
            assert(a@.skip(i as int)[0] == a@[i as int]);
            assert(b@.skip(i as int)[0] == b@[i as int]);
        }
        if ca != cb {
            return (ca as u32) < (cb as u32);
        }
        proof {
            assert(a@.skip(i as int).skip(1) =~= a@.skip(i + 1));
            assert(b@.skip(i as int).skip(1) =~= b@.skip(i + 1));
        }
        i = i + 1;
    }
}

/// Decides `key_lt` on two grouping keys.
pub fn key_before(a_login: &String, a_id: u64, b_login: &String, b_id: u64) -> (r: bool)
    ensures
        r == key_lt(a_login@, a_id, b_login@, b_id),
{
    if str_lex_lt(a_login.as_str(), b_login.as_str()) {
        true
    } else if *a_login == *b_login {
        a_id < b_id
    } else {
        false
    }
}

/// Groups a repository's pull requests by `(login, id)` in one pass over the
/// fully collected stream, keeping the group list sorted by key throughout.
///
/// The result carries one group per distinct author key, sorted by login
/// (then id), whose count is exactly that author's number of pull requests
/// and whose timestamp is exactly that author's earliest; no pull request is
/// dropped and no group is invented.
#[verifier::loop_isolation(false)]
pub fn aggregate_pull_requests(mut prs: Vec<PullRequest>) -> (groups: Vec<ContributorSummary>)
    ensures
        forall|i: int|
            0 <= i < groups@.len() ==> summary_matches(prs@, #[trigger] groups@[i]),
        groups_complete(prs@, groups@),
        groups_sorted(groups@),
{
    let ghost all = prs@;
    let total = prs.len();
    let mut groups: Vec<ContributorSummary> = Vec::new();
    let mut done: usize = 0;
    while prs.len() > 0
        invariant
            done + prs.len() == total,
            prs@ == all.skip(done as int),
            forall|i: int|
                0 <= i < groups@.len() ==> summary_matches(
                    all.take(done as int),
                    #[trigger] groups@[i],
                ),
            groups_complete(all.take(done as int), groups@),
            groups_sorted(groups@),
        decreases prs.len(),
    {
        let ghost prefix = all.take(done as int);
        let ghost old_groups = groups@;
        let pr = prs.remove(0);
        assert(pr == all[done as int]);
        proof {
            assert(all.take(done + 1) =~= prefix.push(pr));
        }

        // Find the first group whose key is not before this pull request's.
        let mut pos: usize = 0;
        loop
            invariant
                pos <= groups.len(),
                groups@ == old_groups,
                forall|i: int|
                    0 <= i < pos ==> key_lt(
                        (#[trigger] groups@[i]).login@,
                        groups@[i].id,
                        pr.author_login@,
                        pr.author_id,
                    ),
            decreases groups.len() - pos,
        {
            if pos == groups.len() {
                break ;
            }
            let g = &groups[pos];
            if key_before(&g.login, g.id, &pr.author_login, pr.author_id) {
                pos = pos + 1;
            } else {
                break ;
            }
        }

        let hit = pos < groups.len() && groups[pos].id == pr.author_id && groups[pos].login
            == pr.author_login;
        if hit {
            // This key already has a group: one more pull request, earlier
            // timestamp if this one is earlier.
            let g = groups.remove(pos);
            proof {
                lemma_key_count_le_len(prefix, g.login@, g.id);
            }
            let new_first = if pr.created_at < g.first_created {
                pr.created_at
            } else {
                g.first_created
            };
            let updated = ContributorSummary {
                login: g.login,
                id: g.id,
                count: g.count + 1,
                first_created: new_first,
            };
            groups.insert(pos, updated);
            done = done + 1;
            proof {
                assert(groups@ =~= old_groups.update(pos as int, updated));
                lemma_group_update_ok(prefix, pr, old_groups, groups@, pos as int, updated);
            }
        } else {
            // A fresh key: a new group, inserted at its sorted position.
            proof {
                lemma_fresh_key_absent(prefix, pr, old_groups, pos as int);
            }
            let fresh = ContributorSummary {
                login: pr.author_login,
                id: pr.author_id,
                count: 1,
                first_created: pr.created_at,
            };
            groups.insert(pos, fresh);
            done = done + 1;
            proof {
                lemma_group_insert_ok(prefix, pr, old_groups, groups@, pos as int, fresh);
            }
        }
    }
    proof {
        assert(all.take(done as int) =~= all);
    }
    groups
}

/// After updating the matched group in place, the invariants hold for the
/// prefix extended by the matched pull request.
proof fn lemma_group_update_ok(
    prefix: Seq<PullRequest>,
    pr: PullRequest,
    old_gs: Seq<ContributorSummary>,
    new_gs: Seq<ContributorSummary>,
    pos: int,
    updated: ContributorSummary,
)
    requires
        0 <= pos < old_gs.len(),
        new_gs == old_gs.update(pos, updated),
        updated.login@ == old_gs[pos].login@,
        updated.id == old_gs[pos].id,
        pr_has_key(pr, updated.login@, updated.id),
        updated.count == old_gs[pos].count + 1,
        updated.first_created as int == (if (pr.created_at as int) < old_gs[pos].first_created
            as int {
            pr.created_at as int
        } else {
            old_gs[pos].first_created as int
        }),
        forall|i: int| 0 <= i < old_gs.len() ==> summary_matches(prefix, #[trigger] old_gs[i]),
        groups_complete(prefix, old_gs),
        groups_sorted(old_gs),
    ensures
        forall|i: int| 0 <= i < new_gs.len() ==> summary_matches(prefix.push(pr), #[trigger] new_gs[i]),
        groups_complete(prefix.push(pr), new_gs),
        groups_sorted(new_gs),
{
    assert forall|i: int| 0 <= i < new_gs.len() implies summary_matches(
        prefix.push(pr),
        #[trigger] new_gs[i],
    ) by {
        lemma_key_specs_push(prefix, pr, new_gs[i].login@, new_gs[i].id);
        if i != pos {
            // Distinct position, and keys are strictly sorted, so this
            // group's key is not the pull request's.
            if new_gs[i].login@ == updated.login@ && new_gs[i].id == updated.id {
                if i < pos {
                    assert(key_lt(old_gs[i].login@, old_gs[i].id, old_gs[pos].login@, old_gs[pos].id));
                } else {
                    assert(key_lt(old_gs[pos].login@, old_gs[pos].id, old_gs[i].login@, old_gs[i].id));
                }
                lemma_lex_lt_irrefl(updated.login@);
                assert(false);
            }
        }
    }
    assert forall|j: int| 0 <= j < prefix.push(pr).len() implies key_in_groups(
        new_gs,
        (#[trigger] prefix.push(pr)[j]).author_login@,
        prefix.push(pr)[j].author_id,
    ) by {
        if j < prefix.len() {
            assert(prefix.push(pr)[j] == prefix[j]);
            let i = choose|i: int|
                0 <= i < old_gs.len() && (#[trigger] old_gs[i]).login@ == prefix[j].author_login@
                    && old_gs[i].id == prefix[j].author_id;
            assert(new_gs[i].login@ == old_gs[i].login@ && new_gs[i].id == old_gs[i].id);
        } else {
            assert(prefix.push(pr)[j] == pr);
            assert(new_gs[pos].login@ == pr.author_login@ && new_gs[pos].id == pr.author_id);
        }
    }
}

/// When the scan stops without an equal key, the pull request's key is in no
/// group at all, so its count over the prefix is zero.
proof fn lemma_fresh_key_absent(
    prefix: Seq<PullRequest>,
    pr: PullRequest,
    gs: Seq<ContributorSummary>,
    pos: int,
)
    requires
        0 <= pos <= gs.len(),
        forall|i: int|
            0 <= i < pos ==> key_lt(
                (#[trigger] gs[i]).login@,
                gs[i].id,
                pr.author_login@,
                pr.author_id,
            ),
        pos < gs.len() ==> !key_lt(gs[pos].login@, gs[pos].id, pr.author_login@, pr.author_id),
        pos < gs.len() ==> !(gs[pos].login@ == pr.author_login@ && gs[pos].id == pr.author_id),
        forall|i: int| 0 <= i < gs.len() ==> summary_matches(prefix, #[trigger] gs[i]),
        groups_complete(prefix, gs),
        groups_sorted(gs),
    ensures
        key_count(prefix, pr.author_login@, pr.author_id) == 0,
        pos < gs.len() ==> key_lt(pr.author_login@, pr.author_id, gs[pos].login@, gs[pos].id),
{
    if pos < gs.len() {
        lemma_key_lt_total(pr.author_login@, pr.author_id, gs[pos].login@, gs[pos].id);
    }
    // No group carries the key: before `pos` all keys are strictly below it,
    // from `pos` on all are strictly above it.
    assert forall|i: int| 0 <= i < gs.len() implies !((#[trigger] gs[i]).login@ == pr.author_login@
        && gs[i].id == pr.author_id) by {
        if i < pos {
            lemma_lex_lt_irrefl(pr.author_login@);
        } else if i > pos {
            assert(key_lt(gs[pos].login@, gs[pos].id, gs[i].login@, gs[i].id));
            lemma_key_lt_trans(
                pr.author_login@,
                pr.author_id,
                gs[pos].login@,
                gs[pos].id,
                gs[i].login@,
                gs[i].id,
            );
            lemma_lex_lt_irrefl(pr.author_login@);
        }
    }
    if key_count(prefix, pr.author_login@, pr.author_id) > 0 {
        lemma_key_count_pos(prefix, pr.author_login@, pr.author_id);
        let j = choose|j: int|
            0 <= j < prefix.len() && pr_has_key(#[trigger] prefix[j], pr.author_login@, pr.author_id);
        assert(key_in_groups(gs, prefix[j].author_login@, prefix[j].author_id));
        let i = choose|i: int|
            0 <= i < gs.len() && (#[trigger] gs[i]).login@ == prefix[j].author_login@ && gs[i].id
                == prefix[j].author_id;
        assert(false);
    }
}

/// After inserting a fresh group at its sorted position, the invariants hold
/// for the prefix extended by its pull request.
proof fn lemma_group_insert_ok(
    prefix: Seq<PullRequest>,
    pr: PullRequest,
    old_gs: Seq<ContributorSummary>,
    new_gs: Seq<ContributorSummary>,
    pos: int,
    fresh: ContributorSummary,
)
    requires
        0 <= pos <= old_gs.len(),
        new_gs == old_gs.insert(pos, fresh),
        fresh.login@ == pr.author_login@,
        fresh.id == pr.author_id,
        fresh.count == 1,
        fresh.first_created == pr.created_at,
        key_count(prefix, pr.author_login@, pr.author_id) == 0,
        forall|i: int|
            0 <= i < pos ==> key_lt(
                (#[trigger] old_gs[i]).login@,
                old_gs[i].id,
                pr.author_login@,
                pr.author_id,
            ),
        pos < old_gs.len() ==> key_lt(
            pr.author_login@,
            pr.author_id,
            old_gs[pos].login@,
            old_gs[pos].id,
        ),
        forall|i: int| 0 <= i < old_gs.len() ==> summary_matches(prefix, #[trigger] old_gs[i]),
        groups_complete(prefix, old_gs),
        groups_sorted(old_gs),
    ensures
        forall|i: int| 0 <= i < new_gs.len() ==> summary_matches(prefix.push(pr), #[trigger] new_gs[i]),
        groups_complete(prefix.push(pr), new_gs),
        groups_sorted(new_gs),
{
    assert(new_gs.len() == old_gs.len() + 1);
    assert forall|i: int| 0 <= i < new_gs.len() implies summary_matches(
        prefix.push(pr),
        #[trigger] new_gs[i],
    ) by {
        lemma_key_specs_push(prefix, pr, new_gs[i].login@, new_gs[i].id);
        if i == pos {
            assert(new_gs[i] == fresh);
        } else {
            let gi = if i < pos {
                i
            } else {
                i - 1
            };
            assert(new_gs[i] == old_gs[gi]);
            if new_gs[i].login@ == pr.author_login@ && new_gs[i].id == pr.author_id {
                // The fresh key occurs in no old group.
                if gi < pos {
                    lemma_lex_lt_irrefl(pr.author_login@);
                } else {
                    assert(key_lt(pr.author_login@, pr.author_id, old_gs[pos].login@, old_gs[pos].id));
                    if gi > pos {
                        assert(key_lt(
                            old_gs[pos].login@,
                            old_gs[pos].id,
                            old_gs[gi].login@,
                            old_gs[gi].id,
                        ));
                        lemma_key_lt_trans(
                            pr.author_login@,
                            pr.author_id,
                            old_gs[pos].login@,
                            old_gs[pos].id,
                            old_gs[gi].login@,
                            old_gs[gi].id,
                        );
                    }
                    lemma_lex_lt_irrefl(pr.author_login@);
                }
                assert(false);
            }
        }
    }
    assert forall|j: int| 0 <= j < prefix.push(pr).len() implies key_in_groups(
        new_gs,
        (#[trigger] prefix.push(pr)[j]).author_login@,
        prefix.push(pr)[j].author_id,
    ) by {
        if j < prefix.len() {
            assert(prefix.push(pr)[j] == prefix[j]);
            let i = choose|i: int|
                0 <= i < old_gs.len() && (#[trigger] old_gs[i]).login@ == prefix[j].author_login@
                    && old_gs[i].id == prefix[j].author_id;
            if i < pos {
                assert(new_gs[i] == old_gs[i]);
            } else {
                assert(new_gs[i + 1] == old_gs[i]);
            }
        } else {
            assert(prefix.push(pr)[j] == pr);
            assert(new_gs[pos] == fresh);
        }
    }
    assert forall|i: int, j: int|
        #![trigger new_gs[i], new_gs[j]]
        0 <= i < j < new_gs.len() implies key_lt(
        new_gs[i].login@,
        new_gs[i].id,
        new_gs[j].login@,
        new_gs[j].id,
    ) by {
        if i == pos {
            // fresh before everything that was at `pos` and after.
            assert(new_gs[j] == old_gs[j - 1]);
            if j - 1 > pos {
                assert(key_lt(old_gs[pos].login@, old_gs[pos].id, old_gs[j - 1].login@, old_gs[j - 1].id));
                lemma_key_lt_trans(
                    pr.author_login@,
                    pr.author_id,
                    old_gs[pos].login@,
                    old_gs[pos].id,
                    old_gs[j - 1].login@,
                    old_gs[j - 1].id,
                );
            }
        } else if j == pos {
            assert(new_gs[i] == old_gs[i]);
        } else {
            let gi = if i < pos {
                i
            } else {
                i - 1
            };
            let gj = if j < pos {
                j
            } else {
                j - 1
            };
            assert(new_gs[i] == old_gs[gi]);
            assert(new_gs[j] == old_gs[gj]);
            if gi < gj {
                assert(key_lt(old_gs[gi].login@, old_gs[gi].id, old_gs[gj].login@, old_gs[gj].id));
            } else {
                // i < pos <= j with gi == i, gj == j - 1 and gi == gj: the
                // same old group, split around the insertion point, cannot
                // stand on both sides.
                assert(i < pos && j > pos && gi == gj);
                assert(key_lt(old_gs[gi].login@, old_gs[gi].id, pr.author_login@, pr.author_id));
                assert(key_lt(pr.author_login@, pr.author_id, old_gs[gj].login@, old_gs[gj].id));
                lemma_key_lt_trans(
                    old_gs[gi].login@,
                    old_gs[gi].id,
                    pr.author_login@,
                    pr.author_id,
                    old_gs[gj].login@,
                    old_gs[gj].id,
                );
                lemma_lex_lt_irrefl(old_gs[gi].login@);
            }
        }
    }
}

/// Two groups that agree in every field a contract speaks of.
pub open spec fn summaries_agree(a: ContributorSummary, b: ContributorSummary) -> bool {
    &&& a.login@ == b.login@
    &&& a.id == b.id
    &&& a.count == b.count
    &&& a.first_created == b.first_created
}

/// Two strictly key-sorted group lists over the same key set are pointwise
/// key-equal.
proof fn lemma_sorted_same_keys(g1: Seq<ContributorSummary>, g2: Seq<ContributorSummary>)
    requires
        groups_sorted(g1),
        groups_sorted(g2),
        forall|i: int|
            0 <= i < g1.len() ==> key_in_groups(g2, (#[trigger] g1[i]).login@, g1[i].id),
        forall|i: int|
            0 <= i < g2.len() ==> key_in_groups(g1, (#[trigger] g2[i]).login@, g2[i].id),
    ensures
        g1.len() == g2.len(),
        forall|i: int|
            0 <= i < g1.len() ==> (#[trigger] g1[i]).login@ == g2[i].login@ && g1[i].id == g2[i].id,
    decreases g1.len(),
{
    if g1.len() == 0 {
        if g2.len() > 0 {
            assert(key_in_groups(g1, g2[0].login@, g2[0].id));
            assert(false);
        }
    } else if g2.len() == 0 {
        assert(key_in_groups(g2, g1[0].login@, g1[0].id));
        assert(false);
    } else {
        // The heads carry the same key: the least key of a common key set.
        assert(key_in_groups(g2, g1[0].login@, g1[0].id));
        let i1 = choose|i: int|
            0 <= i < g2.len() && (#[trigger] g2[i]).login@ == g1[0].login@ && g2[i].id == g1[0].id;
        assert(key_in_groups(g1, g2[0].login@, g2[0].id));
        let i2 = choose|i: int|
            0 <= i < g1.len() && (#[trigger] g1[i]).login@ == g2[0].login@ && g1[i].id == g2[0].id;
        if i1 > 0 {
            assert(key_lt(g2[0].login@, g2[0].id, g2[i1].login@, g2[i1].id));
            if i2 > 0 {
                assert(key_lt(g1[0].login@, g1[0].id, g1[i2].login@, g1[i2].id));
                lemma_key_lt_trans(
                    g1[0].login@,
                    g1[0].id,
                    g2[0].login@,
                    g2[0].id,
                    g1[0].login@,
                    g1[0].id,
                );
                lemma_lex_lt_irrefl(g1[0].login@);
                assert(false);
            } else {
                lemma_lex_lt_irrefl(g1[0].login@);
                assert(false);
            }
        }
        assert(g2[0].login@ == g1[0].login@ && g2[0].id == g1[0].id);

        // The tails are again strictly sorted over the same key set: the head
        // key cannot recur, so every later key lives in the other tail.
        let t1 = g1.skip(1);
        let t2 = g2.skip(1);
        assert forall|i: int|
            0 <= i < t1.len() implies key_in_groups(t2, (#[trigger] t1[i]).login@, t1[i].id) by {
            assert(t1[i] == g1[i + 1]);
            assert(key_in_groups(g2, g1[i + 1].login@, g1[i + 1].id));
            let m = choose|m: int|
                0 <= m < g2.len() && (#[trigger] g2[m]).login@ == g1[i + 1].login@ && g2[m].id
                    == g1[i + 1].id;
            if m == 0 {
                assert(key_lt(g1[0].login@, g1[0].id, g1[i + 1].login@, g1[i + 1].id));
                lemma_lex_lt_irrefl(g1[0].login@);
                assert(false);
            }
            assert(t2[m - 1] == g2[m]);
            assert(key_in_groups(t2, t1[i].login@, t1[i].id));
        }
        assert forall|i: int|
            0 <= i < t2.len() implies key_in_groups(t1, (#[trigger] t2[i]).login@, t2[i].id) by {
            assert(t2[i] == g2[i + 1]);
            assert(key_in_groups(g1, g2[i + 1].login@, g2[i + 1].id));
            let m = choose|m: int|
                0 <= m < g1.len() && (#[trigger] g1[m]).login@ == g2[i + 1].login@ && g1[m].id
                    == g2[i + 1].id;
            if m == 0 {
                assert(key_lt(g2[0].login@, g2[0].id, g2[i + 1].login@, g2[i + 1].id));
                lemma_lex_lt_irrefl(g2[0].login@);
                assert(false);
            }
            assert(t1[m - 1] == g1[m]);
            assert(key_in_groups(t1, t2[i].login@, t2[i].id));
        }
        lemma_sorted_same_keys(t1, t2);
        assert forall|i: int|
            0 <= i < g1.len() implies (#[trigger] g1[i]).login@ == g2[i].login@ && g1[i].id
            == g2[i].id by {
            if i > 0 {
                assert(g1[i] == t1[i - 1]);
                assert(g2[i] == t2[i - 1]);
            }
        }
    }
}

/// Law: aggregation is deterministic. The contract of
/// `aggregate_pull_requests` pins its result completely: any two group lists
/// that both satisfy it over the same pull requests agree group by group, so
/// two runs over the same input emit identical output.
pub proof fn lemma_aggregation_deterministic(
    prs: Seq<PullRequest>,
    g1: Seq<ContributorSummary>,
    g2: Seq<ContributorSummary>,
)
    requires
        forall|i: int| 0 <= i < g1.len() ==> summary_matches(prs, #[trigger] g1[i]),
        groups_complete(prs, g1),
        groups_sorted(g1),
        forall|i: int| 0 <= i < g2.len() ==> summary_matches(prs, #[trigger] g2[i]),
        groups_complete(prs, g2),
        groups_sorted(g2),
    ensures
        g1.len() == g2.len(),
        forall|i: int| 0 <= i < g1.len() ==> summaries_agree(#[trigger] g1[i], g2[i]),
{
    // Every key of one list occurs among the pull requests, hence — by the
    // other list's completeness — in the other list too.
    assert forall|i: int|
        0 <= i < g1.len() implies key_in_groups(g2, (#[trigger] g1[i]).login@, g1[i].id) by {
        lemma_key_count_pos(prs, g1[i].login@, g1[i].id);
        let j = choose|j: int| 0 <= j < prs.len() && pr_has_key(#[trigger] prs[j], g1[i].login@, g1[i].id);
        assert(key_in_groups(g2, prs[j].author_login@, prs[j].author_id));
    }
    assert forall|i: int|
        0 <= i < g2.len() implies key_in_groups(g1, (#[trigger] g2[i]).login@, g2[i].id) by {
        lemma_key_count_pos(prs, g2[i].login@, g2[i].id);
        let j = choose|j: int| 0 <= j < prs.len() && pr_has_key(#[trigger] prs[j], g2[i].login@, g2[i].id);
        assert(key_in_groups(g1, prs[j].author_login@, prs[j].author_id));
    }
    lemma_sorted_same_keys(g1, g2);
    // Equal keys force equal counts and equal earliest timestamps: both are
    // functions of the key over the same pull requests.
    assert forall|i: int| 0 <= i < g1.len() implies summaries_agree(#[trigger] g1[i], g2[i]) by {
        assert(summary_matches(prs, g1[i]));
        assert(summary_matches(prs, g2[i]));
    }
}

} // verus!
