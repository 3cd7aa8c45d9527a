//! Rendering values into the tabular output fields: decimal numbers, boolean
//! tokens, listing lines and contributor row fields, each pinned to an exact
//! character sequence.

use vstd::prelude::*;

use crate::aggregate::ContributorSummary;
use crate::enrich::Enrichment;
use crate::records::Account;

verus! {

/// The character of one decimal digit.
pub open spec fn digit_char(d: nat) -> char {
    if d == 0 {
        '0'
    } else if d == 1 {
        '1'
    } else if d == 2 {
        '2'
    } else if d == 3 {
        '3'
    } else if d == 4 {
        '4'
    } else if d == 5 {
        '5'
    } else if d == 6 {
        '6'
    } else if d == 7 {
        '7'
    } else if d == 8 {
        '8'
    } else {
        '9'
    }
}

/// The decimal digits of a number, most significant first, no sign and no
/// leading zero (a single zero for zero itself).
pub open spec fn spec_u64_digits(n: nat) -> Seq<char>
    decreases n,
{
    if n < 10 {
        seq![digit_char(n)]
    } else {
        spec_u64_digits(n / 10).push(digit_char(n % 10))
    }
}

/// The decimal rendering of a signed number: a minus sign before the digits
/// of the magnitude when negative.
pub open spec fn spec_i64_digits(n: int) -> Seq<char> {
    if n >= 0 {
        spec_u64_digits(n as nat)
    } else {
        seq!['-'] + spec_u64_digits((-n) as nat)
    }
}

/// The boolean output tokens.
pub open spec fn spec_bool_token(b: bool) -> Seq<char> {
    if b {
        "true"@
    } else {
        "false"@
    }
}

/// One decimal digit as a string slice.
pub fn digit_str(d: u64) -> (r: &'static str)
    requires
        d < 10,
    ensures
        r@ == seq![digit_char(d as nat)],
{
    proof {
        reveal_strlit("0");
        reveal_strlit("1");
        reveal_strlit("2");
        reveal_strlit("3");
        reveal_strlit("4");
        reveal_strlit("5");
        reveal_strlit("6");
        reveal_strlit("7");
        reveal_strlit("8");
        reveal_strlit("9");
    }
    let r = if d == 0 {
        "0"
    } else if d == 1 {
        "1"
    } else if d == 2 {
        "2"
    } else if d == 3 {
        "3"
    } else if d == 4 {
        "4"
    } else if d == 5 {
        "5"
    } else if d == 6 {
        "6"
    } else if d == 7 {
        "7"
    } else if d == 8 {
        "8"
    } else {
        "9"
    };
    proof {
        assert(r@ =~= seq![digit_char(d as nat)]);
    }
    r
}

/// Renders a number in decimal.
pub fn u64_to_string(n: u64) -> (r: String)
    ensures
        r@ == spec_u64_digits(n as nat),
    decreases n,
{
    if n < 10 {
        digit_str(n).to_owned()
    } else {
        let mut s = u64_to_string(n / 10);
        s.append(digit_str(n % 10));
        proof {
            assert(s@ =~= spec_u64_digits((n / 10) as nat).push(digit_char((n % 10) as nat)));
        }
        s
    }
}

/// Renders a signed number in decimal.
pub fn i64_to_string(n: i64) -> (r: String)
    ensures
        r@ == spec_i64_digits(n as int),
{
    if n >= 0 {
        u64_to_string(n as u64)
    } else {
        let mag = (-(n as i128)) as u64;
        let mut s = "-".to_owned();
        s.append(u64_to_string(mag).as_str());
        proof {
            reveal_strlit("-");
            assert(s@ =~= seq!['-'] + spec_u64_digits(mag as nat));
        }
        s
    }
}

/// Renders a boolean output token.
pub fn bool_to_str(b: bool) -> (r: &'static str)
    ensures
        r@ == spec_bool_token(b),
{
    if b {
        "true"
    } else {
        "false"
    }
}

/// One listing output line, `login,id`, as the account listings stream them.
pub open spec fn spec_listing_line(login: Seq<char>, id: u64) -> Seq<char> {
    login + ","@ + spec_u64_digits(id as nat)
}

/// Renders one account of a listing as its output line.
pub fn listing_line(a: &Account) -> (r: String)
    ensures
        r@ == spec_listing_line(a.login@, a.id),
{
    let mut s = a.login.clone();
    s.append(",");
    s.append(u64_to_string(a.id).as_str());
    s
}

/// The output fields of one contributor row without enrichment:
/// login, id, count.
pub fn basic_row_fields(s: &ContributorSummary) -> (r: Vec<String>)
    ensures
        r@.len() == 3,
        r@[0]@ == s.login@,
        r@[1]@ == spec_u64_digits(s.id as nat),
        r@[2]@ == spec_u64_digits(s.count as nat),
{
    let mut v: Vec<String> = Vec::new();
    v.push(s.login.clone());
    v.push(u64_to_string(s.id));
    v.push(u64_to_string(s.count as u64));
    v
}

/// The output fields of one enriched contributor row: login, id, count, age
/// in days, display name, the two follow directions, external handle.
pub fn enriched_row_fields(s: &ContributorSummary, e: &Enrichment) -> (r: Vec<String>)
    ensures
        r@.len() == 8,
        r@[0]@ == s.login@,
        r@[1]@ == spec_u64_digits(s.id as nat),
        r@[2]@ == spec_u64_digits(s.count as nat),
        r@[3]@ == spec_i64_digits(e.age_days as int),
        r@[4]@ == e.display_name@,
        r@[5]@ == spec_bool_token(e.you_follow),
        r@[6]@ == spec_bool_token(e.follows_you),
        r@[7]@ == e.twitter_handle@,
{
    let mut v: Vec<String> = Vec::new();
    v.push(s.login.clone());
    v.push(u64_to_string(s.id));
    v.push(u64_to_string(s.count as u64));
    v.push(i64_to_string(e.age_days));
    v.push(e.display_name.clone());
    v.push(bool_to_str(e.you_follow).to_owned());
    v.push(bool_to_str(e.follows_you).to_owned());
    v.push(e.twitter_handle.clone());
    v
}

} // verus!
