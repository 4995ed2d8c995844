//! Rules applied to rows read from the database.

use crate::text::{bytes_ends_with, bytes_eq_ignore_ascii_case,
    decimal_digits, decimal_text, ends_with_spec, eq_ignore_ascii_case_spec, push_decimal_i64, push_decimal_u64,
    push_str};
use vstd::prelude::*;
use vstd::utf8::encode_utf8;

verus! {

/// The UTF-8 bytes of each string of a list.
pub open spec fn utf8_views(v: Seq<String>) -> Seq<Seq<u8>> {
    v.map_values(|s: String| encode_utf8(s@))
}

/// The bytes of `[bot]`.
pub open spec fn bot_suffix() -> Seq<u8> {
    seq![91u8, 98u8, 111u8, 116u8, 93u8]
}

/// A login is a known bot when it ends with `[bot]` (the suffix GitHub
/// gives to app accounts), whatever the list holds, or when it equals an
/// entry of the excluded-bot list up to ASCII case.
pub open spec fn is_bot_spec(login: Seq<u8>, bots: Seq<Seq<u8>>) -> bool {
    ||| ends_with_spec(login, bot_suffix())
    ||| exists|i: int| 0 <= i < bots.len() && eq_ignore_ascii_case_spec(login, #[trigger] bots[i])
}

/// Check if a login is a known bot.
pub fn is_bot_user(login: &str, excluded_bots: &[String]) -> (r: bool)
    ensures
        r == is_bot_spec(encode_utf8(login@), utf8_views(excluded_bots@)),
{
    let ghost bots = utf8_views(excluded_bots@);
    let login_bytes = login.as_bytes();
    let suffix: Vec<u8> = vec![91u8, 98u8, 111u8, 116u8, 93u8];
    assert(suffix@ =~= bot_suffix());
    if bytes_ends_with(login_bytes, suffix.as_slice()) {
        return true;
    }
    let mut i: usize = 0;
    while i < excluded_bots.len()
        invariant
            0 <= i <= excluded_bots@.len(),
            bots == utf8_views(excluded_bots@),
            login_bytes@ == encode_utf8(login@),
            !ends_with_spec(login_bytes@, bot_suffix()),
            forall|j: int| 0 <= j < i ==> !eq_ignore_ascii_case_spec(login_bytes@, #[trigger] bots[j]),
        decreases excluded_bots@.len() - i,
    {
        let bot_bytes = excluded_bots[i].as_str().as_bytes();
        assert(bot_bytes@ == bots[i as int]);
        if bytes_eq_ignore_ascii_case(login_bytes, bot_bytes) {
            return true;
        }
        i = i + 1;
    }
    false
}

/// A `[bot]` login is a known bot whatever the excluded-bot list holds;
/// with an empty list, the `[bot]` logins are exactly the known bots.
pub proof fn lemma_app_logins_are_bots(login: Seq<u8>, bots: Seq<Seq<u8>>)
    ensures
        ends_with_spec(login, bot_suffix()) ==> is_bot_spec(login, bots),
        is_bot_spec(login, Seq::empty()) <==> ends_with_spec(login, bot_suffix()),
{
}

/// Listing a login makes it a known bot.
pub proof fn lemma_listed_logins_are_bots(login: Seq<u8>, bots: Seq<Seq<u8>>, i: int)
    requires
        0 <= i < bots.len(),
        bots[i] == login,
    ensures
        is_bot_spec(login, bots),
{
    assert(eq_ignore_ascii_case_spec(login, bots[i]));
}

/// A row is kept unless its author's login is one of the excluded bots.
pub fn is_excluded_author(login: &Option<String>, excluded_bots: &[String]) -> (r: bool)
    ensures
        r == match *login {
            Some(l) => is_bot_spec(encode_utf8(l@), utf8_views(excluded_bots@)),
            None => false,
        },
{
    match login {
        Some(l) => is_bot_user(l.as_str(), excluded_bots),
        None => false,
    }
}

/// Stored accounts need a real GitHub id: a positive one.
pub open spec fn github_id_error(github_id: i64, login: Seq<char>) -> Option<Seq<char>> {
    if github_id <= 0 {
        Some("Invalid github_id ("@ + decimal_text(github_id as int) + ") for user '"@ + login
            + "'. GitHub IDs must be positive integers."@)
    } else {
        None
    }
}

/// Refuses a non-positive GitHub id, naming the user.
pub fn check_github_id(github_id: i64, login: &str) -> (r: Result<(), String>)
    ensures
        match r {
            Ok(()) => github_id_error(github_id, login@) is None,
            Err(m) => github_id_error(github_id, login@) == Some(m@),
        },
{
    if github_id <= 0 {
        let mut m = String::new();
        push_str(&mut m, "Invalid github_id (");
        push_decimal_i64(&mut m, github_id);
        push_str(&mut m, ") for user '");
        push_str(&mut m, login);
        push_str(&mut m, "'. GitHub IDs must be positive integers.");
        return Err(m);
    }
    Ok(())
}

/// Whether a new account starts tracked: the explicit choice for new
/// accounts first, then the general flag, else not.
pub fn initial_tracking(track_if_new: Option<bool>, is_tracked: Option<bool>) -> (r: bool)
    ensures
        r == match track_if_new {
            Some(t) => t,
            None => match is_tracked {
                Some(t) => t,
                None => false,
            },
        },
{
    match track_if_new {
        Some(t) => t,
        None => match is_tracked {
            Some(t) => t,
            None => false,
        },
    }
}

#[derive(Debug, Clone, Copy, PartialEq, Eq, Structural)]
pub struct SyncStats {
    pub issues: i64,
    pub pull_requests: i64,
    pub users: i64,
    pub repositories: i64,
}

// ---------------------------------------------------------------------------
// Filters of the metrics queries
// ---------------------------------------------------------------------------

/// `?first, ?first+1, ...` for `n` numbered parameters.
pub open spec fn placeholders_spec(first: nat, n: nat) -> Seq<char>
    decreases n,
{
    if n == 0 {
        Seq::empty()
    } else if n == 1 {
        seq!['?'] + decimal_digits(first)
    } else {
        placeholders_spec(first, (n - 1) as nat) + ", ?"@ + decimal_digits((first + n - 1) as nat)
    }
}

fn push_placeholders(s: &mut String, first: u64, n: u64)
    requires
        first + n <= u64::MAX,
    ensures
        final(s)@ == old(s)@ + placeholders_spec(first as nat, n as nat),
{
    let mut k: u64 = 0;
    while k < n
        invariant
            first + n <= u64::MAX,
            0 <= k <= n,
            s@ == old(s)@ + placeholders_spec(first as nat, k as nat),
        decreases n - k,
    {
        if k == 0 {
            push_str(s, "?");
        } else {
            push_str(s, ", ?");
        }
        push_decimal_u64(s, first + k);
        proof {
            reveal_strlit("?");
            reveal_strlit(", ?");
        }
        assert(s@ =~= old(s)@ + placeholders_spec(first as nat, (k + 1) as nat));
        k = k + 1;
    }
}

/// ` AND <a><column> IN (?first, ...)` for a non-empty list of `n`.
pub open spec fn in_condition(a: Seq<char>, column: Seq<char>, first: nat, n: nat) -> Seq<char> {
    if n > 0 {
        " AND "@ + a + column + " IN ("@ + placeholders_spec(first, n) + ")"@
    } else {
        Seq::empty()
    }
}

/// The conditions added to a metrics query on table alias `a` (after the
/// start date, parameter 1): the end date, the repositories, the author,
/// the squad members, each numbered after the previous ones; an empty list
/// adds nothing.
pub open spec fn metrics_filter_spec(a: Seq<char>, has_until: bool, repos: nat, has_user: bool, members: nat) -> Seq<char> {
    let i1: nat = if has_until { 3 } else { 2 };
    let i2: nat = i1 + repos;
    let i3: nat = if has_user { i2 + 1 } else { i2 };
    (if has_until { " AND "@ + a + ".created_at <= ?2"@ } else { Seq::empty() })
    + in_condition(a, ".repo_id"@, i1, repos)
    + (if has_user { " AND "@ + a + ".author_id = ?"@ + decimal_digits(i2) } else { Seq::empty() })
    + in_condition(a, ".author_id"@, i3, members)
}

/// The integer parameters after the dates, in the order of their
/// placeholders.
pub open spec fn metrics_filter_params(repo_ids: Seq<i64>, user_id: Option<i64>, member_ids: Seq<i64>) -> Seq<i64> {
    repo_ids + (match user_id {
        Some(u) => seq![u],
        None => Seq::empty(),
    }) + member_ids
}

pub open spec fn list_or_empty(l: Option<&[i64]>) -> Seq<i64> {
    match l {
        Some(v) => v@,
        None => Seq::empty(),
    }
}

fn push_in_condition(q: &mut String, params: &mut Vec<i64>, alias: &str, column: &str, first: u64, list: &[i64])
    requires
        first + list@.len() <= u64::MAX,
    ensures
        final(q)@ == old(q)@ + in_condition(alias@, column@, first as nat, list@.len()),
        final(params)@ == old(params)@ + list@,
{
    let n = list.len() as u64;
    if n == 0 {
        assert(old(params)@ + list@ =~= old(params)@);
        return;
    }
    push_str(q, " AND ");
    push_str(q, alias);
    push_str(q, column);
    push_str(q, " IN (");
    push_placeholders(q, first, n);
    push_str(q, ")");
    assert(q@ =~= old(q)@ + in_condition(alias@, column@, first as nat, list@.len()));
    let mut k: usize = 0;
    while k < list.len()
        invariant
            0 <= k <= list@.len(),
            params@ == old(params)@ + list@.take(k as int),
        decreases list@.len() - k,
    {
        params.push(list[k]);
        assert(old(params)@ + list@.take(k + 1) =~= (old(params)@ + list@.take(k as int)).push(list@[k as int]));
        k = k + 1;
    }
    assert(list@.take(list@.len() as int) =~= list@);
}

/// Builds the filter conditions of a metrics query on alias `alias`, and
/// the integer parameters they number (after the date parameters).
pub fn metrics_filter_clause(
    alias: &str,
    has_until: bool,
    repo_ids: Option<&[i64]>,
    user_id: Option<i64>,
    squad_member_ids: Option<&[i64]>,
) -> (r: (String, Vec<i64>))
    requires
        list_or_empty(repo_ids).len() + list_or_empty(squad_member_ids).len() + 4 <= u64::MAX,
    ensures
        r.0@ == metrics_filter_spec(
            alias@,
            has_until,
            list_or_empty(repo_ids).len(),
            user_id is Some,
            list_or_empty(squad_member_ids).len(),
        ),
        r.1@ == metrics_filter_params(list_or_empty(repo_ids), user_id, list_or_empty(squad_member_ids)),
{
    let mut q = String::new();
    let mut params: Vec<i64> = Vec::new();
    let mut idx: u64 = 2;
    if has_until {
        push_str(&mut q, " AND ");
        push_str(&mut q, alias);
        push_str(&mut q, ".created_at <= ?2");
        idx = 3;
    }
    let ghost q1 = q@;
    let repos: &[i64] = match repo_ids {
        Some(v) => v,
        None => &[],
    };
    assert(repos@ == list_or_empty(repo_ids));
    push_in_condition(&mut q, &mut params, alias, ".repo_id", idx, repos);
    let ghost q2 = q@;
    idx = idx + repos.len() as u64;
    if let Some(u) = user_id {
        push_str(&mut q, " AND ");
        push_str(&mut q, alias);
        push_str(&mut q, ".author_id = ?");
        push_decimal_u64(&mut q, idx);
        params.push(u);
        idx = idx + 1;
    }
    let ghost q3 = q@;
    let members: &[i64] = match squad_member_ids {
        Some(v) => v,
        None => &[],
    };
    assert(members@ == list_or_empty(squad_member_ids));
    push_in_condition(&mut q, &mut params, alias, ".author_id", idx, members);
    assert(q@ =~= metrics_filter_spec(
        alias@,
        has_until,
        list_or_empty(repo_ids).len(),
        user_id is Some,
        list_or_empty(squad_member_ids).len(),
    ));
    assert(params@ =~= metrics_filter_params(list_or_empty(repo_ids), user_id, list_or_empty(squad_member_ids)));
    (q, params)
}

} // verus!
