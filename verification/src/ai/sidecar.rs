//! The local assistant server: its address, and how the database path is
//! written for a Python interpreter running on Windows.

use crate::text::{decimal_text, push_char, push_decimal_u64, push_str, str_eq};
use vstd::prelude::*;
use vstd::utf8::encode_utf8;

verus! {

/// `http://127.0.0.1:<port>`.
pub open spec fn base_url_spec(port: u16) -> Seq<char> {
    "http://127.0.0.1:"@ + decimal_text(port as int)
}

pub fn base_url(port: u16) -> (r: String)
    ensures
        r@ == base_url_spec(port),
{
    let mut r = String::new();
    push_str(&mut r, "http://127.0.0.1:");
    push_decimal_u64(&mut r, port as u64);
    r
}

/// The address of an endpoint (`/health`, `/chat`) of the server.
pub fn endpoint_url(base: &str, path: &str) -> (r: String)
    ensures
        r@ == base@ + path@,
{
    let mut r = String::new();
    push_str(&mut r, base);
    push_str(&mut r, path);
    r
}

/// The ASCII upper case of a character (others unchanged).
pub open spec fn upper_ascii(c: char) -> char {
    if 'a' <= c && c <= 'z' {
        ((c as u32) - 32) as char
    } else {
        c
    }
}

/// Slashes become backslashes.
pub open spec fn backslashed(s: Seq<char>) -> Seq<char> {
    s.map_values(|c: char| if c == '/' { '\\' } else { c })
}

pub open spec fn mnt_prefix() -> Seq<char> {
    seq!['/', 'm', 'n', 't', '/']
}

/// A WSL mount path: starts with `/mnt/` and has more than six bytes.
pub open spec fn is_mount_path(p: Seq<char>) -> bool {
    p.len() >= 5 && p.take(5) == mnt_prefix() && encode_utf8(p).len() > 6
}

/// `/mnt/c/rest` becomes `C:\rest`; other paths are kept.
pub open spec fn windows_path_spec(p: Seq<char>) -> Seq<char> {
    if is_mount_path(p) {
        seq![upper_ascii(p[5])] + ":"@ + backslashed(p.skip(6))
    } else {
        p
    }
}

/// The drive letter of a mount path is a single-byte character (else the
/// path cannot be cut after it).
pub open spec fn drive_letter_ok(p: Seq<char>) -> bool {
    is_mount_path(p) ==> p.len() > 5 && (p[5] as u32) < 128
}

proof fn lemma_prefix_five(p: Seq<char>)
    requires
        p.len() >= 5,
        p.take(5) == mnt_prefix(),
        encode_utf8(p).len() > 6,
    ensures
        p.len() > 5,
{
    if p.len() == 5 {
        assert(p =~= p.take(5));
        assert(vstd::utf8::is_ascii_chars(p));
        vstd::utf8::is_ascii_chars_encode_utf8(p);
    }
}

fn starts_with_mnt(path: &str) -> (r: bool)
    ensures
        r == (path@.len() >= 5 && path@.take(5) == mnt_prefix()),
{
    let mut k: usize = 0;
    let mut ok = true;
    for c in it: path.chars()
        invariant
            k == if it.index() < 7 { it.index() } else { 7 },
            it.seq() == path@,
            ok == (forall|i: int| 0 <= i < it.index() && i < 5 ==> path@[i] == mnt_prefix()[i]),
    {
        if k < 5 {
            let expected = if k == 0 { '/' } else if k == 1 { 'm' } else if k == 2 { 'n' } else if k == 3 { 't' } else { '/' };
            assert(expected == mnt_prefix()[k as int]);
            if c != expected {
                ok = false;
            }
        }
        if k < 7 {
            k = k + 1;
        }
    }
    if k < 5 {
        return false;
    }
    assert(ok == (path@.take(5) =~= mnt_prefix())) by {
        if ok {
            assert(path@.take(5) =~= mnt_prefix());
        }
    }
    ok
}

/// Converts a WSL mount path (`/mnt/c/...`) to a Windows path (`C:\...`).
pub fn wsl_to_windows_path(path: &str) -> (r: String)
    requires
        drive_letter_ok(path@),
    ensures
        r@ == windows_path_spec(path@),
{
    if !(starts_with_mnt(path) && path.as_bytes().len() > 6) {
        return path.to_string();
    }
    proof {
        lemma_prefix_five(path@);
    }
    let ghost p = path@;
    let mut r = String::new();
    let mut k: usize = 0;
    for c in it: path.chars()
        invariant
            k == if it.index() < 7 { it.index() } else { 7 },
            it.seq() == p,
            p == path@,
            is_mount_path(p),
            p.len() > 5,
            (p[5] as u32) < 128,
            it.index() <= 5 ==> r@.len() == 0,
            it.index() >= 6 ==> r@ == seq![upper_ascii(p[5])] + ":"@ + backslashed(p.subrange(6, it.index() as int)),
    {
        if k == 5 {
            let upper = if 'a' <= c && c <= 'z' {
                let b: u8 = c as u8;
                (b - 32) as char
            } else {
                c
            };
            assert(upper == upper_ascii(p[5]));
            push_char(&mut r, upper);
            push_char(&mut r, ':');
            proof {
                reveal_strlit(":");
            }
            assert(r@ =~= seq![upper_ascii(p[5])] + ":"@ + backslashed(p.subrange(6, 6)));
        } else if k > 5 {
            let ghost i = it.index();
            assert(c == p[i]);
            if c == '/' {
                push_char(&mut r, '\\');
            } else {
                push_char(&mut r, c);
            }
            assert(p.subrange(6, i + 1) =~= p.subrange(6, i).push(c));
            assert(r@ =~= seq![upper_ascii(p[5])] + ":"@ + backslashed(p.subrange(6, i + 1)));
        }
        if k < 7 {
            k = k + 1;
        }
    }
    assert(p.subrange(6, p.len() as int) =~= p.skip(6));
    r
}

/// The prefix that makes a WSL home path readable from Windows.
pub open spec fn wsl_share_prefix() -> Seq<char> {
    "\\\\wsl$\\Ubuntu"@
}

pub open spec fn home_prefix() -> Seq<char> {
    seq!['/', 'h', 'o', 'm', 'e', '/']
}

/// The database path handed to the Python server: a WSL home path
/// `/home/...` becomes `\\wsl$\Ubuntu\home\...` (every `/` a `\`), a mount
/// path becomes a drive path, others are kept.
pub open spec fn python_db_path_spec(p: Seq<char>) -> Seq<char> {
    if p.len() >= 6 && p.take(6) == home_prefix() {
        wsl_share_prefix() + backslashed(p)
    } else {
        windows_path_spec(p)
    }
}

fn starts_with_home(path: &str) -> (r: bool)
    ensures
        r == (path@.len() >= 6 && path@.take(6) == home_prefix()),
{
    let mut k: usize = 0;
    let mut ok = true;
    for c in it: path.chars()
        invariant
            k == if it.index() < 7 { it.index() } else { 7 },
            it.seq() == path@,
            ok == (forall|i: int| 0 <= i < it.index() && i < 6 ==> path@[i] == home_prefix()[i]),
    {
        if k < 6 {
            let expected = if k == 0 { '/' } else if k == 1 { 'h' } else if k == 2 { 'o' } else if k == 3 { 'm' } else if k == 4 { 'e' } else { '/' };
            assert(expected == home_prefix()[k as int]);
            if c != expected {
                ok = false;
            }
        }
        if k < 7 {
            k = k + 1;
        }
    }
    if k < 6 {
        return false;
    }
    assert(ok == (path@.take(6) =~= home_prefix())) by {
        if ok {
            assert(path@.take(6) =~= home_prefix());
        }
    }
    ok
}

pub fn database_path_for_python(db_path: &str) -> (r: String)
    requires
        drive_letter_ok(db_path@),
    ensures
        r@ == python_db_path_spec(db_path@),
{
    if starts_with_home(db_path) {
        let mut r = String::new();
        push_str(&mut r, "\\\\wsl$\\Ubuntu");
        let ghost head = r@;
        let ghost p = db_path@;
        for c in it: db_path.chars()
            invariant
                it.seq() == p,
                p == db_path@,
                r@ == head + backslashed(p.take(it.index() as int)),
        {
            let ghost i = it.index();
            assert(c == p[i]);
            if c == '/' {
                push_char(&mut r, '\\');
            } else {
                push_char(&mut r, c);
            }
            assert(backslashed(p.take(i + 1)) =~= backslashed(p.take(i)).push(if c == '/' { '\\' } else { c }));
        }
        assert(p.take(p.len() as int) =~= p);
        r
    } else {
        wsl_to_windows_path(db_path)
    }
}

} // verus!
