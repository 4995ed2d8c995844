//! Duplicate detection around the similarity search: the threshold, which
//! candidates are kept, and how a match is named and linked.

use crate::search::vector_store::ItemType;
use crate::text::{decimal_text, push_decimal_i64, push_str};
use vstd::prelude::*;

verus! {

/// Similarity (in percent) from which two items count as duplicates.
pub const DUPLICATE_THRESHOLD_PERCENT: u32 = 85;

/// How many similar items are examined per item.
pub const DUPLICATE_CANDIDATES: usize = 10;

/// A candidate is dropped when same-repository matches are excluded and it
/// lives in the item's own repository.
pub open spec fn keep_candidate_spec(exclude_same_repo: bool, item_repo_id: Option<i64>, candidate_repo_id: i64) -> bool {
    !(exclude_same_repo && item_repo_id == Some(candidate_repo_id))
}

pub fn keep_candidate(exclude_same_repo: bool, item_repo_id: Option<i64>, candidate_repo_id: i64) -> (keep: bool)
    ensures
        keep == keep_candidate_spec(exclude_same_repo, item_repo_id, candidate_repo_id),
{
    if exclude_same_repo {
        if let Some(repo_id) = item_repo_id {
            if candidate_repo_id == repo_id {
                return false;
            }
        }
    }
    true
}

pub open spec fn kind_prefix(t: ItemType) -> Seq<char> {
    match t {
        ItemType::Issue => "issue-"@,
        ItemType::PullRequest => "pr-"@,
    }
}

/// `issue-<id>` or `pr-<id>`.
pub fn match_id(item_type: ItemType, id: i64) -> (r: String)
    ensures
        r@ == kind_prefix(item_type) + decimal_text(id as int),
{
    let mut r = String::new();
    match item_type {
        ItemType::Issue => push_str(&mut r, "issue-"),
        ItemType::PullRequest => push_str(&mut r, "pr-"),
    }
    push_decimal_i64(&mut r, id);
    r
}

pub open spec fn kind_path(t: ItemType) -> Seq<char> {
    match t {
        ItemType::Issue => "/issues/"@,
        ItemType::PullRequest => "/pull/"@,
    }
}

/// The GitHub page of an item of `repo` (`owner/name`).
pub fn match_url(item_type: ItemType, repo: &str, number: i32) -> (r: String)
    ensures
        r@ == "https://github.com/"@ + repo@ + kind_path(item_type) + decimal_text(number as int),
{
    let mut r = String::new();
    push_str(&mut r, "https://github.com/");
    push_str(&mut r, repo);
    match item_type {
        ItemType::Issue => push_str(&mut r, "/issues/"),
        ItemType::PullRequest => push_str(&mut r, "/pull/"),
    }
    push_decimal_i64(&mut r, number as i64);
    r
}

} // verus!
