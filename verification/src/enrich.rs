//! Per-contributor enrichment: the optional fields that are available only
//! when the caller is authenticated.
//!
//! Enrichment joins each contributor group against the batch profile lookup
//! and the two follow lists. A contributor absent from the lookup — a
//! deleted account, an automation bot — still gets a row, with a sentinel
//! age and empty names, never a failure.

use vstd::prelude::*;

use crate::aggregate::ContributorSummary;
use crate::records::UserInfo;

verus! {

/// The age reported for a contributor whose profile the lookup did not find.
pub const UNKNOWN_AGE_DAYS: i64 = -1;

/// Whether a login occurs in a list of logins.
pub open spec fn login_in(logins: Seq<String>, login: Seq<char>) -> bool {
    exists|i: int| 0 <= i < logins.len() && (#[trigger] logins[i])@ == login
}

/// Decides membership of a login in a list of logins.
#[verifier::loop_isolation(false)]
pub fn contains_login(logins: &Vec<String>, login: &String) -> (r: bool)
    ensures
        r == login_in(logins@, login@),
{
    let mut i: usize = 0;
    while i < logins.len()
        invariant
            i <= logins.len(),
            forall|k: int| 0 <= k < i ==> (#[trigger] logins@[k])@ != login@,
        decreases logins.len() - i,
    {
        if logins[i] == *login {
            proof {
                assert(logins@[i as int]@ == login@);
            }
            return true;
        }
        i = i + 1;
    }
    false
}

/// The first profile of the list carrying this login, if any.
pub open spec fn info_for(infos: Seq<UserInfo>, login: Seq<char>) -> Option<UserInfo>
    decreases infos.len(),
{
    if infos.len() == 0 {
        None
    } else if infos[0].login@ == login {
        Some(infos[0])
    } else {
        info_for(infos.skip(1), login)
    }
}

/// Finds the first profile with this login.
#[verifier::loop_isolation(false)]
pub fn find_user_info<'a>(infos: &'a Vec<UserInfo>, login: &String) -> (r: Option<&'a UserInfo>)
    ensures
        match r {
            Some(u) => info_for(infos@, login@) == Some(*u),
            None => info_for(infos@, login@) is None,
        },
{
    proof {
        assert(infos@.skip(0) =~= infos@);
    }
    let mut i: usize = 0;
    while i < infos.len()
        invariant
            i <= infos.len(),
            info_for(infos@, login@) == info_for(infos@.skip(i as int), login@),
        decreases infos.len() - i,
    {
        proof {
            assert(infos@.skip(i as int)[0] == infos@[i as int]);
        }
        if infos[i].login == *login {
            return Some(&infos[i]);
        }
        proof {
            assert(infos@.skip(i as int).skip(1) =~= infos@.skip(i + 1));
        }
        i = i + 1;
    }
    None
}

/// Whole days between two epoch-second timestamps, truncated toward zero:
/// negative when the profile was created after the first pull request.
pub open spec fn spec_age_days(first: int, created: int) -> int {
    if first >= created {
        (first - created) / 86400
    } else {
        -((created - first) / 86400)
    }
}

/// Computes `spec_age_days` on two timestamps.
pub fn age_days(first_created: i64, created_at: i64) -> (r: i64)
    ensures
        r as int == spec_age_days(first_created as int, created_at as int),
{
    if first_created >= created_at {
        let diff = ((first_created as i128) - (created_at as i128)) as u128;
        let days = diff / 86400u128;
        proof {
            vstd::arithmetic::div_mod::lemma_div_is_ordered(
                diff as int,
                0xffff_ffff_ffff_ffff_ffff as int,
                86400,
            );
        }
        days as i64
    } else {
        let diff = ((created_at as i128) - (first_created as i128)) as u128;
        let days = diff / 86400u128;
        proof {
            vstd::arithmetic::div_mod::lemma_div_is_ordered(
                diff as int,
                0xffff_ffff_ffff_ffff_ffff as int,
                86400,
            );
        }
        -(days as i64)
    }
}

/// The enrichment fields of one contributor row.
pub struct Enrichment {
    /// Days between the account's creation and its first pull request here,
    /// or `UNKNOWN_AGE_DAYS` when the profile lookup missed.
    pub age_days: i64,
    /// The profile's display name; empty when absent or unknown.
    pub display_name: String,
    /// Whether the authenticated user follows this contributor.
    pub you_follow: bool,
    /// Whether this contributor follows the authenticated user.
    pub follows_you: bool,
    /// The profile's external handle; empty when absent or unknown.
    pub twitter_handle: String,
}

/// A correct enrichment of a group against the profile lookup and the two
/// follow lists: exact fields where the profile was found, the sentinel age
/// and empty names where it was not, and the membership tests either way.
pub open spec fn enrichment_matches(
    s: ContributorSummary,
    infos: Seq<UserInfo>,
    followers: Seq<String>,
    following: Seq<String>,
    e: Enrichment,
) -> bool {
    &&& match info_for(infos, s.login@) {
        Some(u) => {
            &&& e.age_days as int == spec_age_days(s.first_created as int, u.created_at as int)
            &&& e.display_name@ == (match u.name {
                Some(n) => n@,
                None => Seq::<char>::empty(),
            })
            &&& e.twitter_handle@ == (match u.twitter_handle {
                Some(t) => t@,
                None => Seq::<char>::empty(),
            })
        },
        None => {
            &&& e.age_days == UNKNOWN_AGE_DAYS
            &&& e.display_name@ == Seq::<char>::empty()
            &&& e.twitter_handle@ == Seq::<char>::empty()
        },
    }
    &&& e.you_follow == login_in(following, s.login@)
    &&& e.follows_you == login_in(followers, s.login@)
}

/// Enriches one contributor group from the batch profile lookup and the two
/// follow lists. A group whose login the lookup missed gets the sentinel age
/// and empty names rather than failing.
pub fn enrich_summary(
    s: &ContributorSummary,
    infos: &Vec<UserInfo>,
    followers: &Vec<String>,
    following: &Vec<String>,
) -> (e: Enrichment)
    ensures
        enrichment_matches(*s, infos@, followers@, following@, e),
{
    let (age, name, handle) = match find_user_info(infos, &s.login) {
        Some(u) => {
            let name = match &u.name {
                Some(n) => n.clone(),
                None => String::new(),
            };
            let handle = match &u.twitter_handle {
                Some(t) => t.clone(),
                None => String::new(),
            };
            (age_days(s.first_created, u.created_at), name, handle)
        },
        None => (UNKNOWN_AGE_DAYS, String::new(), String::new()),
    };
    Enrichment {
        age_days: age,
        display_name: name,
        you_follow: contains_login(following, &s.login),
        follows_you: contains_login(followers, &s.login),
        twitter_handle: handle,
    }
}

/// Enriches every group of a sorted aggregation, in group order: one row per
/// group, the group itself beside its enrichment.
#[verifier::loop_isolation(false)]
pub fn enrich_groups(
    mut groups: Vec<ContributorSummary>,
    infos: &Vec<UserInfo>,
    followers: &Vec<String>,
    following: &Vec<String>,
) -> (rows: Vec<(ContributorSummary, Enrichment)>)
    ensures
        rows@.len() == groups@.len(),
        forall|i: int|
            0 <= i < rows@.len() ==> (#[trigger] rows@[i]).0 == groups@[i] && enrichment_matches(
                groups@[i],
                infos@,
                followers@,
                following@,
                rows@[i].1,
            ),
{
    let ghost all = groups@;
    let total = groups.len();
    let mut rows: Vec<(ContributorSummary, Enrichment)> = Vec::new();
    let mut done: usize = 0;
    while groups.len() > 0
        invariant
            total == all.len(),
            done + groups.len() == total,
            groups@ == all.skip(done as int),
            rows@.len() == done,
            forall|i: int|
                0 <= i < done ==> (#[trigger] rows@[i]).0 == all[i] && enrichment_matches(
                    all[i],
                    infos@,
                    followers@,
                    following@,
                    rows@[i].1,
                ),
        decreases groups.len(),
    {
        let g = groups.remove(0);
        assert(g == all[done as int]);
        let e = enrich_summary(&g, infos, followers, following);
        rows.push((g, e));
        done = done + 1;
        proof {
            assert(groups@ =~= all.skip(done as int));
        }
    }
    rows
}

} // verus!
