//! Names and URLs of uploaded images.
use vstd::prelude::*;
use vstd::string::*;
use crate::lookup::{first_where, is_first, lemma_first_where_none, lemma_first_where_some};
use crate::text::{matches_at, occurs_at};

verus! {

/// The URL prefix under which stored images are served.
pub open spec fn download_prefix() -> Seq<char> {
    "/api/protect/download/"@
}

/// The stored name of an upload: its time stamp, `_`, and the base name of the file
/// the client sent.
pub fn stored_file_name(stamp: &str, base_name: &str) -> (r: String)
    ensures
        r@ == stamp@ + seq!['_'] + base_name@,
{
    let mut r = String::from_str(stamp);
    r.append("_");
    r.append(base_name);
    proof {
        reveal_strlit("_");
    }
    r
}

/// The URL of a stored image.
pub fn download_url(name: &str) -> (r: String)
    ensures
        r@ == download_prefix() + name@,
{
    let mut r = String::from_str("/api/protect/download/");
    r.append(name);
    r
}

/// The first position at or after `from` where `sep` occurs in `s`.
pub open spec fn first_occurrence(s: Seq<char>, sep: Seq<char>, from: int) -> Option<int> {
    match first_where(s.len() - from + 1, |k: int| occurs_at(s, sep, from + k)) {
        Some(k) => Some(from + k),
        None => None,
    }
}

/// The second piece of `s` split at `sep`: the text between the first occurrence and
/// the next one (or the end); `None` where `sep` does not occur.
pub open spec fn second_piece(s: Seq<char>, sep: Seq<char>) -> Option<Seq<char>> {
    match first_occurrence(s, sep, 0) {
        Some(i) => {
            let start = i + sep.len();
            match first_occurrence(s, sep, start) {
                Some(j) => Some(s.subrange(start, j)),
                None => Some(s.subrange(start, s.len() as int)),
            }
        },
        None => None,
    }
}

/// Finds the first occurrence of `sep` at or after `from`.
fn find_from(s: &str, sep: &str, from: usize) -> (r: Option<usize>)
    requires
        from <= s@.len(),
    ensures
        match r {
            Some(i) => first_occurrence(s@, sep@, from as int) == Some(i as int) && from <= i
                && occurs_at(s@, sep@, i as int),
            None => first_occurrence(s@, sep@, from as int) is None,
        },
{
    let n = s.unicode_len();
    let m = sep.unicode_len();
    let ghost p = |k: int| occurs_at(s@, sep@, from + k);
    let ghost len = s@.len() - from + 1;
    let mut k: usize = 0;
    loop
        invariant
            n == s@.len(),
            m == sep@.len(),
            from <= n,
            k <= n - from,
            len == n - from + 1,
            p == (|k: int| occurs_at(s@, sep@, from + k)),
            forall|j: int| 0 <= j < k ==> !#[trigger] p(j),
        decreases n - from - k,
    {
        if m > n - from - k {
            proof {
                assert forall|j: int| 0 <= j < len implies !#[trigger] p(j) by {
                    if j >= k {
                        assert(from + j + m > n);
                    }
                }
                lemma_first_where_none(len, p);
            }
            return None;
        }
        if matches_at(s, sep, from + k) {
            proof {
                assert(is_first(len, p, k as int));
                lemma_first_where_some(len, p, k as int);
            }
            return Some(from + k);
        }
        if k == n - from {
            proof {
                assert forall|j: int| 0 <= j < len implies !#[trigger] p(j) by {
                    if j == k {
                    }
                }
                lemma_first_where_none(len, p);
            }
            return None;
        }
        k = k + 1;
    }
}

/// The piece of `s` after the first `sep`, up to the next `sep` or the end.
fn second_piece_of(s: &str, sep: &str) -> (r: Option<String>)
    requires
        sep@.len() > 0,
    ensures
        match second_piece(s@, sep@) {
            Some(t) => r matches Some(v) && v@ == t,
            None => r is None,
        },
{
    let n = s.unicode_len();
    let m = sep.unicode_len();
    match find_from(s, sep, 0) {
        Some(i) => {
            let start = i + m;
            match find_from(s, sep, start) {
                Some(j) => {
                    Some(String::from_str(s.substring_char(start, j)))
                },
                None => Some(String::from_str(s.substring_char(start, n))),
            }
        },
        None => None,
    }
}

/// The stored file name inside an image URL: the piece after `/upload/`, or else
/// the piece after `/download/`.
pub fn file_name_in_url(url: &str) -> (r: Option<String>)
    ensures
        match second_piece(url@, "/upload/"@) {
            Some(t) => r matches Some(v) && v@ == t,
            None => match second_piece(url@, "/download/"@) {
                Some(t) => r matches Some(v) && v@ == t,
                None => r is None,
            },
        },
{
    proof {
        reveal_strlit("/upload/");
        reveal_strlit("/download/");
    }
    match second_piece_of(url, "/upload/") {
        Some(v) => Some(v),
        None => second_piece_of(url, "/download/"),
    }
}

} // verus!
