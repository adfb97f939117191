//! The note query builder: filter predicates, newest-first ordering and pagination.
use vstd::prelude::*;
use crate::catalog::CategoryRow;
use crate::clock::{day_bounds, parsed_day_of};
use crate::lookup::{first_where, is_first, lemma_first_where_none, lemma_first_where_some};
use crate::note::{NoteRow, moment_key};
use crate::text::{clone_opt_text, contains_text, has_substring, opt_text, text_eq};

verus! {

/// A search over notes as a client sends it; every field may be absent.
pub struct SearchRequest {
    pub keyword: Option<String>,
    pub categories: Option<String>,
    pub status: Option<String>,
    pub is_top: Option<i32>,
    pub start_date: Option<String>,
    pub end_date: Option<String>,
}

/// A resolved note filter. Absent fields do not restrict; `public_only` restricts to
/// notes that are public and not drafts.
pub struct NoteFilter {
    pub keyword: Option<String>,
    pub category_id: Option<i32>,
    pub status: Option<String>,
    pub is_top: Option<i32>,
    pub from: Option<i64>,
    pub to: Option<i64>,
    pub public_only: bool,
}

/// The top flag of a note; absent reads as 0.
pub open spec fn effective_top(n: NoteRow) -> i32 {
    match n.is_top {
        Some(t) => t,
        None => 0,
    }
}

/// The keyword occurs in the title, the content or the tags of the note.
pub open spec fn keyword_hit(n: NoteRow, k: Seq<char>) -> bool {
    has_substring(n.title@, k) || has_substring(n.content@, k) || match n.tags {
        Some(t) => has_substring(t@, k),
        None => false,
    }
}

/// The note is public and not a draft.
pub open spec fn publicly_visible(n: NoteRow) -> bool {
    n.is_public && n.effective_status() != "draft"@
}

/// The note passes every restriction of the filter.
pub open spec fn matches_filter(n: NoteRow, f: NoteFilter) -> bool {
    &&& f.public_only ==> publicly_visible(n)
    &&& f.keyword matches Some(k) ==> keyword_hit(n, k@)
    &&& f.category_id matches Some(c) ==> n.category_id == Some(c)
    &&& f.status matches Some(s) ==> n.effective_status() == s@
    &&& f.is_top matches Some(t) ==> effective_top(n) == t
    &&& f.from matches Some(lo) ==> n.created_at.order_key() >= lo
    &&& f.to matches Some(hi) ==> n.created_at.order_key() <= hi
}

/// Whether a note passes a filter.
pub fn note_matches(n: &NoteRow, f: &NoteFilter) -> (r: bool)
    requires
        n.wf(),
    ensures
        r == matches_filter(*n, *f),
{
    if f.public_only {
        if !n.is_public {
            return false;
        }
        let is_draft = match &n.status {
            Some(s) => text_eq(s.as_str(), "draft"),
            None => {
                proof {
                    reveal_strlit("published");
                    reveal_strlit("draft");
                    assert("published"@[0] != "draft"@[0]);
                }
                false
            },
        };
        if is_draft {
            return false;
        }
    }
    match &f.keyword {
        Some(k) => {
            let hit = contains_text(n.title.as_str(), k.as_str()) || contains_text(
                n.content.as_str(),
                k.as_str(),
            ) || match &n.tags {
                Some(t) => contains_text(t.as_str(), k.as_str()),
                None => false,
            };
            if !hit {
                return false;
            }
        },
        None => {},
    }
    match f.category_id {
        Some(c) => {
            if n.category_id != Some(c) {
                return false;
            }
        },
        None => {},
    }
    match &f.status {
        Some(s) => {
            let same = match &n.status {
                Some(ns) => text_eq(ns.as_str(), s.as_str()),
                None => text_eq("published", s.as_str()),
            };
            if !same {
                return false;
            }
        },
        None => {},
    }
    match f.is_top {
        Some(t) => {
            let top = match n.is_top {
                Some(v) => v,
                None => 0,
            };
            if top != t {
                return false;
            }
        },
        None => {},
    }
    match &f.from {
        Some(lo) => {
            if n.created_at.key() < *lo {
                return false;
            }
        },
        None => {},
    }
    match &f.to {
        Some(hi) => {
            if n.created_at.key() > *hi {
                return false;
            }
        },
        None => {},
    }
    true
}

/// Note `a` is listed before note `b`: it is newer, or as new and stored earlier.
pub open spec fn listed_before(notes: Seq<NoteRow>, a: int, b: int) -> bool {
    let ka = notes[a].created_at.order_key();
    let kb = notes[b].created_at.order_key();
    ka > kb || (ka == kb && a < b)
}

/// `r` lists, by position in `notes`, exactly the notes that pass the filter, newest
/// first, ties in stored order.
pub open spec fn is_listing(notes: Seq<NoteRow>, f: NoteFilter, r: Seq<usize>) -> bool {
    &&& forall|k: int|
        0 <= k < r.len() ==> (#[trigger] r[k]) < notes.len() && matches_filter(notes[r[k] as int], f)
    &&& forall|i: int|
        0 <= i < notes.len() && matches_filter(#[trigger] notes[i], f) ==> r.contains(i as usize)
    &&& forall|a: int, b: int|
        0 <= a < b < r.len() ==> listed_before(notes, #[trigger] r[a] as int, #[trigger] r[b] as int)
}

/// All rows are well formed.
pub open spec fn all_wf(notes: Seq<NoteRow>) -> bool {
    forall|i: int| 0 <= i < notes.len() ==> (#[trigger] notes[i]).wf()
}

/// The positions of the notes that pass the filter, newest first (by `created_at`),
/// ties in stored order.
pub fn select_notes(notes: &Vec<NoteRow>, f: &NoteFilter) -> (r: Vec<usize>)
    requires
        all_wf(notes@),
    ensures
        is_listing(notes@, *f, r@),
{
    let mut out: Vec<usize> = Vec::new();
    let mut i: usize = 0;
    while i < notes.len()
        invariant
            i <= notes@.len(),
            all_wf(notes@),
            forall|k: int|
                0 <= k < out@.len() ==> (#[trigger] out@[k]) < i && matches_filter(
                    notes@[out@[k] as int],
                    *f,
                ),
            forall|j: int|
                0 <= j < i && matches_filter(#[trigger] notes@[j], *f) ==> out@.contains(
                    j as usize,
                ),
            forall|a: int, b: int|
                0 <= a < b < out@.len() ==> listed_before(
                    notes@,
                    #[trigger] out@[a] as int,
                    #[trigger] out@[b] as int,
                ),
        decreases notes@.len() - i,
    {
        assert(notes@[i as int].wf());
        if note_matches(&notes[i], f) {
            let ki = notes[i].created_at.key();
            let mut p: usize = 0;
            while p < out.len() && notes[out[p]].created_at.key() >= ki
                invariant
                    p <= out@.len(),
                    i < notes@.len(),
                    all_wf(notes@),
                    ki == notes@[i as int].created_at.order_key(),
                    forall|k: int| 0 <= k < out@.len() ==> (#[trigger] out@[k]) < i,
                    forall|k: int|
                        0 <= k < p ==> notes@[(#[trigger] out@[k]) as int].created_at.order_key()
                            >= ki,
                decreases out@.len() - p,
            {
                assert(notes@[out@[p as int] as int].wf());
                p = p + 1;
            }
            let ghost prev = out@;
            out.insert(p, i);
            proof {
                prev.insert_ensures(p as int, i);
                assert forall|a: int, b: int| 0 <= a < b < out@.len() implies listed_before(
                    notes@,
                    #[trigger] out@[a] as int,
                    #[trigger] out@[b] as int,
                ) by {
                    if b < p {
                        assert(listed_before(notes@, prev[a] as int, prev[b] as int));
                    } else if b == p {
                        assert(prev[a] < i);
                    } else if a < p {
                        assert(listed_before(notes@, prev[a] as int, prev[b - 1] as int));
                    } else if a == p {
                        // everything at or after p is strictly older than note i
                        assert(p < prev.len());
                        if b - 1 > p {
                            assert(listed_before(notes@, prev[p as int] as int, prev[b - 1] as int));
                        }
                    } else {
                        assert(listed_before(notes@, prev[a - 1] as int, prev[b - 1] as int));
                    }
                }
                assert forall|j: int|
                    0 <= j < i + 1 && matches_filter(#[trigger] notes@[j], *f) implies out@.contains(
                    j as usize,
                ) by {
                    if j < i {
                        assert(prev.contains(j as usize));
                        let k = choose|k: int| 0 <= k < prev.len() && prev[k] == j as usize;
                        if k < p {
                            assert(out@[k] == j as usize);
                        } else {
                            assert(out@[k + 1] == j as usize);
                        }
                    } else {
                        assert(out@[p as int] == i);
                    }
                }
            }
        } else {
            proof {
                assert forall|j: int|
                    0 <= j < i + 1 && matches_filter(#[trigger] notes@[j], *f) implies out@.contains(
                    j as usize,
                ) by {
                    if j == i {
                    }
                }
            }
        }
        i = i + 1;
    }
    out
}

/// The first category with the given name, by position.
pub open spec fn category_named(cats: Seq<CategoryRow>, name: Seq<char>) -> Option<int> {
    first_where(cats.len() as int, |i: int| cats[i].name@ == name)
}

/// Looks a category up by exact name.
pub fn find_category_by_name(cats: &Vec<CategoryRow>, name: &str) -> (r: Option<usize>)
    ensures
        match r {
            Some(i) => category_named(cats@, name@) == Some(i as int),
            None => category_named(cats@, name@) is None,
        },
{
    let ghost p = |i: int| cats@[i].name@ == name@;
    let mut i: usize = 0;
    while i < cats.len()
        invariant
            i <= cats@.len(),
            p == (|i: int| cats@[i].name@ == name@),
            forall|j: int| 0 <= j < i ==> !#[trigger] p(j),
        decreases cats@.len() - i,
    {
        if text_eq(cats[i].name.as_str(), name) {
            proof {
                assert(is_first(cats@.len() as int, p, i as int));
                lemma_first_where_some(cats@.len() as int, p, i as int);
            }
            return Some(i);
        }
        i = i + 1;
    }
    proof {
        lemma_first_where_none(cats@.len() as int, p);
    }
    None
}

/// The lower bound a start date gives: the key of the first second of that day,
/// where chrono reads the text as a date.
pub open spec fn start_bound(s: Option<Seq<char>>) -> Option<int> {
    match s {
        Some(t) => match parsed_day_of(t) {
            Some((y, m, d)) => Some(moment_key(y, m, d, 0, 0, 0)),
            None => None,
        },
        None => None,
    }
}

/// The upper bound an end date gives: the key of the last second of that day, where
/// chrono reads the text as a date.
pub open spec fn end_bound(s: Option<Seq<char>>) -> Option<int> {
    match s {
        Some(t) => match parsed_day_of(t) {
            Some((y, m, d)) => Some(moment_key(y, m, d, 23, 59, 59)),
            None => None,
        },
        None => None,
    }
}

/// An optional key as an integer.
pub open spec fn opt_key(k: Option<i64>) -> Option<int> {
    match k {
        Some(v) => Some(v as int),
        None => None,
    }
}

/// The search names a category that does not exist: it has no results.
pub open spec fn names_missing_category(req: SearchRequest, cats: Seq<CategoryRow>) -> bool {
    req.categories matches Some(name) && category_named(cats, name@) is None
}

/// `f` is the filter that search request `req` gives: an empty keyword is dropped, a
/// category name is resolved to the id of the first category so named, and a date
/// chrono cannot read is ignored.
pub open spec fn is_request_filter(
    f: NoteFilter,
    req: SearchRequest,
    cats: Seq<CategoryRow>,
    public_only: bool,
) -> bool {
    &&& f.public_only == public_only
    &&& opt_text(f.keyword) == match req.keyword {
        Some(k) => if k@.len() > 0 {
            Some(k@)
        } else {
            None
        },
        None => None,
    }
    &&& f.category_id == match req.categories {
        Some(name) => match category_named(cats, name@) {
            Some(i) => Some(cats[i].id),
            None => None,
        },
        None => None,
    }
    &&& opt_text(f.status) == opt_text(req.status)
    &&& f.is_top == req.is_top
    &&& opt_key(f.from) == start_bound(opt_text(req.start_date))
    &&& opt_key(f.to) == end_bound(opt_text(req.end_date))
}

/// The filter of a search request; `None` where it names a category that does not
/// exist.
pub fn build_filter(req: &SearchRequest, cats: &Vec<CategoryRow>, public_only: bool) -> (r:
    Option<NoteFilter>)
    ensures
        r is None <==> names_missing_category(*req, cats@),
        r matches Some(f) ==> is_request_filter(f, *req, cats@, public_only),
{
    let category_id = match &req.categories {
        Some(name) => match find_category_by_name(cats, name.as_str()) {
            Some(i) => Some(cats[i].id),
            None => {
                return None;
            },
        },
        None => None,
    };
    let keyword = match &req.keyword {
        Some(k) => if k.as_str().is_empty() {
            None
        } else {
            Some(k.clone())
        },
        None => None,
    };
    let from = match &req.start_date {
        Some(s) => match day_bounds(s.as_str()) {
            Some((lo, _)) => Some(lo),
            None => None,
        },
        None => None,
    };
    let to = match &req.end_date {
        Some(s) => match day_bounds(s.as_str()) {
            Some((_, hi)) => Some(hi),
            None => None,
        },
        None => None,
    };
    Some(
        NoteFilter {
            keyword,
            category_id,
            status: clone_opt_text(&req.status),
            is_top: req.is_top,
            from,
            to,
            public_only,
        },
    )
}

/// The rows of 1-based page `page` of `len` rows cut in pages of `size`, as the range
/// `[start, end)` of positions; empty past the last page.
pub open spec fn page_range(len: int, page: int, size: int) -> (int, int) {
    let start = (page - 1) * size;
    if start >= len {
        (len, len)
    } else if start + size > len {
        (start, len)
    } else {
        (start, start + size)
    }
}

/// Cuts out 1-based page `page` of `rows`, `size` rows to a page.
pub fn paginate(rows: &Vec<usize>, page: u64, size: usize) -> (r: Vec<usize>)
    requires
        page >= 1,
        size >= 1,
    ensures
        r@ == rows@.subrange(
            page_range(rows@.len() as int, page as int, size as int).0,
            page_range(rows@.len() as int, page as int, size as int).1,
        ),
{
    let len = rows.len();
    let skip_pages = page - 1;
    let ghost range = page_range(len as int, page as int, size as int);
    // (page - 1) * size >= len exactly when page - 1 > (len - 1) / size, computed
    // without overflow
    let past_end = len == 0 || skip_pages > ((len - 1) / size) as u64;
    proof {
        if len > 0 {
            let q = (len - 1) / size as int;
            assert((len - 1) < (q + 1) * size) by (nonlinear_arith)
                requires
                    q == (len - 1) / size as int,
                    size >= 1,
                    len >= 1,
            ;
            assert(q * size <= len - 1) by (nonlinear_arith)
                requires
                    q == (len - 1) / size as int,
                    size >= 1,
                    len >= 1,
            ;
            if skip_pages > q {
                assert(skip_pages * size >= (q + 1) * size) by (nonlinear_arith)
                    requires
                        skip_pages >= q + 1,
                        size >= 1,
                ;
            } else {
                assert(skip_pages * size <= q * size) by (nonlinear_arith)
                    requires
                        skip_pages <= q,
                        size >= 1,
                        q >= 0,
                ;
            }
        }
    }
    if past_end {
        return Vec::new();
    }
    let start = (skip_pages as usize) * size;
    let end = if size > len - start {
        len
    } else {
        start + size
    };
    let mut out: Vec<usize> = Vec::new();
    let mut k: usize = start;
    while k < end
        invariant
            start <= k <= end <= len,
            len == rows@.len(),
            out@ == rows@.subrange(start as int, k as int),
        decreases end - k,
    {
        out.push(rows[k]);
        k = k + 1;
        assert(out@ =~= rows@.subrange(start as int, k as int));
    }
    assert(range == (start as int, end as int));
    out
}

} // verus!
