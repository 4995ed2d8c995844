//! Text prepared for embedding from issues and pull requests.

use crate::db::models::{Issue, PullRequest};
use crate::text::{join_spec, join_strings, push_char, push_str, string_views};
use vstd::prelude::*;

verus! {

/// Longest body, in characters, kept in an embedding text.
pub const BODY_LIMIT: usize = 1000;

/// Position of the last space strictly before `limit`.
pub open spec fn last_space_before(s: Seq<char>, limit: int) -> Option<int>
    decreases limit,
{
    if limit <= 0 {
        None
    } else if s[limit - 1] == ' ' {
        Some(limit - 1)
    } else {
        last_space_before(s, limit - 1)
    }
}

/// A text of at most `max` characters is kept; a longer one is cut at the
/// last space among its first `max` characters (or after `max` characters
/// when there is none) and `...` is appended.
pub open spec fn truncate_spec(text: Seq<char>, max: int) -> Seq<char> {
    if text.len() <= max {
        text
    } else {
        let cut = match last_space_before(text, max) {
            Some(p) => p,
            None => max,
        };
        text.take(cut) + seq!['.', '.', '.']
    }
}

/// `Labels: ` followed by the labels joined with `, `.
pub open spec fn labels_line(labels: Seq<Seq<char>>) -> Seq<char> {
    seq!['L', 'a', 'b', 'e', 'l', 's', ':', ' '] + join_spec(labels, seq![',', ' '])
}

/// The parts of an embedding text: the title, the truncated body when
/// there is one, and the labels line when there are labels.
pub open spec fn embedding_parts(
    title: Seq<char>,
    body: Option<Seq<char>>,
    labels: Seq<Seq<char>>,
) -> Seq<Seq<char>> {
    let with_body = match body {
        Some(b) => seq![title, truncate_spec(b, BODY_LIMIT as int)],
        None => seq![title],
    };
    if labels.len() > 0 {
        with_body.push(labels_line(labels))
    } else {
        with_body
    }
}

/// The embedding text: the parts joined by a blank line.
pub open spec fn embedding_text_spec(
    title: Seq<char>,
    body: Option<Seq<char>>,
    labels: Seq<Seq<char>>,
) -> Seq<char> {
    join_spec(embedding_parts(title, body, labels), seq!['\n', '\n'])
}

/// The view of an optional string.
pub open spec fn opt_view(o: Option<String>) -> Option<Seq<char>> {
    match o {
        Some(s) => Some(s@),
        None => None,
    }
}

/// Prepare text for embedding from an issue.
pub fn issue_to_embedding_text(issue: &Issue) -> (r: String)
    ensures
        r@ == embedding_text_spec(issue.title@, opt_view(issue.body), string_views(issue.labels@)),
{
    embedding_text(&issue.title, &issue.body, &issue.labels)
}

/// Prepare text for embedding from a PR.
pub fn pr_to_embedding_text(pr: &PullRequest) -> (r: String)
    ensures
        r@ == embedding_text_spec(pr.title@, opt_view(pr.body), string_views(pr.labels@)),
{
    embedding_text(&pr.title, &pr.body, &pr.labels)
}

fn embedding_text(title: &String, body: &Option<String>, labels: &Vec<String>) -> (r: String)
    ensures
        r@ == embedding_text_spec(title@, opt_view(*body), string_views(labels@)),
{
    let mut parts: Vec<String> = Vec::new();
    parts.push(title.clone());
    if let Some(b) = body {
        parts.push(truncate_text(b.as_str(), BODY_LIMIT));
    }
    if labels.len() > 0 {
        let mut line = String::new();
        let head = "Labels: ";
        let sep = ", ";
        proof {
            reveal_strlit("Labels: ");
            reveal_strlit(", ");
        }
        assert(head@ =~= seq!['L', 'a', 'b', 'e', 'l', 's', ':', ' ']);
        assert(sep@ =~= seq![',', ' ']);
        push_str(&mut line, head);
        let joined = join_strings(labels.as_slice(), sep);
        push_str(&mut line, joined.as_str());
        assert(line@ =~= labels_line(string_views(labels@)));
        parts.push(line);
    }
    let blank = "\n\n";
    proof {
        reveal_strlit("\n\n");
    }
    assert(blank@ =~= seq!['\n', '\n']);
    let r = join_strings(parts.as_slice(), blank);
    assert(string_views(parts@) =~= embedding_parts(title@, opt_view(*body), string_views(labels@)));
    r
}

proof fn lemma_last_space_in_range(s: Seq<char>, limit: int)
    ensures
        last_space_before(s, limit) matches Some(p) ==> 0 <= p < limit && s[p] == ' ',
    decreases limit,
{
    if limit > 0 && s[limit - 1] != ' ' {
        lemma_last_space_in_range(s, limit - 1);
    }
}

/// A text that fits is kept as it is; a longer one comes back no longer
/// than the limit plus the three characters of `...`, and ends with `...`.
pub proof fn lemma_truncate_bounds(text: Seq<char>, max: int)
    requires
        0 <= max,
    ensures
        text.len() <= max ==> truncate_spec(text, max) == text,
        text.len() > max ==> ({
            let r = truncate_spec(text, max);
            &&& r.len() <= max + 3
            &&& r.subrange(r.len() - 3, r.len() as int) == seq!['.', '.', '.']
        }),
{
    if text.len() > max {
        lemma_last_space_in_range(text, max);
        let r = truncate_spec(text, max);
        assert(r.subrange(r.len() - 3, r.len() as int) =~= seq!['.', '.', '.']);
    }
}

/// Position of the last space before `limit`.
pub fn last_space_index(chars: &[char], limit: usize) -> (r: Option<usize>)
    requires
        limit <= chars@.len(),
    ensures
        match r {
            Some(p) => last_space_before(chars@, limit as int) == Some(p as int) && p < limit
                && chars@[p as int] == ' ',
            None => last_space_before(chars@, limit as int) is None,
        },
{
    let mut i: usize = limit;
    while i > 0
        invariant
            i <= limit <= chars@.len(),
            last_space_before(chars@, limit as int) == last_space_before(chars@, i as int),
        decreases i,
    {
        if chars[i - 1] == ' ' {
            return Some(i - 1);
        }
        i = i - 1;
    }
    None
}

/// Truncate text to a maximum number of characters, preserving word
/// boundaries.
pub fn truncate_text(text: &str, max_chars: usize) -> (r: String)
    ensures
        r@ == truncate_spec(text@, max_chars as int),
{
    let ghost t = text@;
    let mut chars: Vec<char> = Vec::new();
    for c in it: text.chars()
        invariant
            it.seq() == t,
            t == text@,
            chars@ == t.take(it.index() as int),
    {
        chars.push(c);
        assert(chars@ =~= t.take(it.index() as int + 1));
    }
    assert(chars@ =~= t);
    if chars.len() <= max_chars {
        return String::from_str(text);
    }
    let cut = match last_space_index(chars.as_slice(), max_chars) {
        Some(p) => p,
        None => max_chars,
    };
    let mut r = String::new();
    let mut k: usize = 0;
    while k < cut
        invariant
            k <= cut <= chars@.len(),
            chars@ == t,
            r@ == t.take(k as int),
        decreases cut - k,
    {
        push_char(&mut r, chars[k]);
        k = k + 1;
        assert(r@ =~= t.take(k as int));
    }
    push_char(&mut r, '.');
    push_char(&mut r, '.');
    push_char(&mut r, '.');
    assert(r@ =~= truncate_spec(t, max_chars as int));
    r
}

} // verus!
