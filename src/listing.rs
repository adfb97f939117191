//! Notes as the HTTP layer sees them: response rows joined with their category,
//! the public and admin listings and searches, and note create / update commands.
use vstd::prelude::*;
use vstd::string::*;
use crate::catalog::CategoryRow;
use crate::clock::{format_time, time_text};
use crate::lookup::{first_where, is_first, lemma_first_where_none, lemma_first_where_some};
use crate::note::{
    NoteRow,
    Timestamp,
    Visibility,
    apply_visibility,
    creation_base,
    initial_visibility,
    resolve,
};
use crate::query::{
    NoteFilter,
    SearchRequest,
    all_wf,
    build_filter,
    effective_top,
    is_listing,
    listed_before,
    matches_filter,
    is_request_filter,
    names_missing_category,
    page_range,
    paginate,
    publicly_visible,
    select_notes,
};
use crate::text::{clone_opt_text, opt_text, or_empty, text_or_empty};

verus! {

/// Offset, in seconds east of UTC, at which note times are shown (UTC+8).
pub const DISPLAY_OFFSET: i32 = 28800;

/// Rows to a page of the public note listing.
pub const PUBLIC_PAGE_SIZE: usize = 6;

/// The public listing's query: an optional category and an optional 1-based page.
pub struct NoteQuery {
    pub category_id: Option<i32>,
    pub page: Option<u64>,
}

/// A note as returned to clients.
pub struct NoteDto {
    pub id: i32,
    pub key: i32,
    pub title: String,
    pub content: String,
    pub content_raw: String,
    pub description: String,
    pub cover: String,
    pub created_at: String,
    pub updated_at: String,
    pub is_top: i32,
    pub status: String,
    pub category_id: Option<i32>,
    pub category_title: Option<String>,
    pub is_public: bool,
    pub tags: String,
}

/// A note create or partial update: only supplied fields take effect.
pub struct UpsertNoteRequest {
    pub title: Option<String>,
    pub content: Option<String>,
    pub category_id: Option<i32>,
    pub is_top: Option<i32>,
    pub status: Option<String>,
    pub description: Option<String>,
    pub cover: Option<String>,
    pub tags: Option<String>,
    pub is_public: Option<bool>,
}

/// The category a note is joined with: the first whose id is its `category_id`.
pub open spec fn joined_category(cats: Seq<CategoryRow>, n: NoteRow) -> Option<int> {
    match n.category_id {
        Some(c) => first_where(cats.len() as int, |i: int| cats[i].id == c),
        None => None,
    }
}

/// How a stored time is shown: at UTC+8.
pub open spec fn shown_time(t: Timestamp) -> Seq<char> {
    time_text(
        t.year as int,
        t.month as int,
        t.day as int,
        t.hour as int,
        t.minute as int,
        t.second as int,
        DISPLAY_OFFSET as int,
    )
}

/// `d` is the response row of note `n`.
pub open spec fn note_dto_of(n: NoteRow, cats: Seq<CategoryRow>, d: NoteDto) -> bool {
    &&& d.id == n.id && d.key == n.id
    &&& d.title@ == n.title@ && d.content@ == n.content@ && d.content_raw@ == n.content@
    &&& d.description@ == or_empty(opt_text(n.description))
    &&& d.cover@ == or_empty(opt_text(n.cover))
    &&& d.created_at@ == shown_time(n.created_at)
    &&& d.updated_at@ == shown_time(n.updated_at)
    &&& d.is_top == effective_top(n)
    &&& d.status@ == n.effective_status()
    &&& d.is_public == n.is_public
    &&& d.tags@ == or_empty(opt_text(n.tags))
    &&& match joined_category(cats, n) {
        Some(i) => d.category_id == Some(cats[i].id) && opt_text(d.category_title) == Some(
            cats[i].name@,
        ),
        None => d.category_id is None && d.category_title is None,
    }
}

/// `r` holds the response rows of the notes at positions `l`, in that order.
pub open spec fn dtos_of(
    notes: Seq<NoteRow>,
    cats: Seq<CategoryRow>,
    l: Seq<usize>,
    r: Seq<NoteDto>,
) -> bool {
    r.len() == l.len() && forall|k: int|
        0 <= k < l.len() ==> note_dto_of(notes[l[k] as int], cats, #[trigger] r[k])
}

/// Finds the category a note is joined with.
fn find_category_by_id(cats: &Vec<CategoryRow>, n: &NoteRow) -> (r: Option<usize>)
    ensures
        match r {
            Some(i) => joined_category(cats@, *n) == Some(i as int),
            None => joined_category(cats@, *n) is None,
        },
{
    let c = match n.category_id {
        Some(c) => c,
        None => {
            return None;
        },
    };
    let ghost p = |i: int| cats@[i].id == c;
    let mut i: usize = 0;
    while i < cats.len()
        invariant
            i <= cats@.len(),
            n.category_id == Some(c),
            p == (|i: int| cats@[i].id == c),
            forall|j: int| 0 <= j < i ==> !#[trigger] p(j),
        decreases cats@.len() - i,
    {
        if cats[i].id == c {
            proof {
                assert(is_first(cats@.len() as int, p, i as int));
                lemma_first_where_some(cats@.len() as int, p, i as int);
            }
            return Some(i);
        }
        i = i + 1;
    }
    proof {
        lemma_first_where_none(cats@.len() as int, p);
    }
    None
}

/// The response row of a note, joined with its category where that exists.
pub fn map_note(n: &NoteRow, cats: &Vec<CategoryRow>) -> (d: NoteDto)
    requires
        n.wf(),
    ensures
        note_dto_of(*n, cats@, d),
{
    let (category_id, category_title) = match find_category_by_id(cats, n) {
        Some(i) => (Some(cats[i].id), Some(cats[i].name.clone())),
        None => (None, None),
    };
    let status = match &n.status {
        Some(s) => s.clone(),
        None => String::from_str("published"),
    };
    let is_top = match n.is_top {
        Some(t) => t,
        None => 0,
    };
    NoteDto {
        id: n.id,
        key: n.id,
        title: n.title.clone(),
        content: n.content.clone(),
        content_raw: n.content.clone(),
        description: text_or_empty(&n.description),
        cover: text_or_empty(&n.cover),
        created_at: format_time(&n.created_at, DISPLAY_OFFSET),
        updated_at: format_time(&n.updated_at, DISPLAY_OFFSET),
        is_top,
        status,
        category_id,
        category_title,
        is_public: n.is_public,
        tags: text_or_empty(&n.tags),
    }
}

/// The response rows of the notes at positions `l`.
pub fn note_dtos(notes: &Vec<NoteRow>, cats: &Vec<CategoryRow>, l: &Vec<usize>) -> (r: Vec<
    NoteDto,
>)
    requires
        all_wf(notes@),
        forall|k: int| 0 <= k < l@.len() ==> (#[trigger] l@[k]) < notes@.len(),
    ensures
        dtos_of(notes@, cats@, l@, r@),
{
    let mut out: Vec<NoteDto> = Vec::new();
    let mut k: usize = 0;
    while k < l.len()
        invariant
            k <= l@.len(),
            all_wf(notes@),
            forall|j: int| 0 <= j < l@.len() ==> (#[trigger] l@[j]) < notes@.len(),
            out@.len() == k,
            forall|j: int|
                0 <= j < k ==> note_dto_of(notes@[l@[j] as int], cats@, #[trigger] out@[j]),
        decreases l@.len() - k,
    {
        assert(l@[k as int] < notes@.len());
        assert(notes@[l@[k as int] as int].wf());
        out.push(map_note(&notes[l[k]], cats));
        k = k + 1;
    }
    out
}

/// Every listed note passes a public-only filter.
proof fn lemma_listing_public(
    notes: Seq<NoteRow>,
    cats: Seq<CategoryRow>,
    f: NoteFilter,
    l: Seq<usize>,
    r: Seq<NoteDto>,
)
    requires
        f.public_only,
        is_listing(notes, f, l),
        dtos_of(notes, cats, l, r),
    ensures
        forall|k: int| 0 <= k < r.len() ==> (#[trigger] r[k]).is_public && r[k].status@ != "draft"@,
{
    assert forall|k: int| 0 <= k < r.len() implies (#[trigger] r[k]).is_public && r[k].status@
        != "draft"@ by {
        assert(note_dto_of(notes[l[k] as int], cats, r[k]));
        assert(l[k] < notes.len());
        assert(publicly_visible(notes[l[k] as int]));
    }
}

/// Every position in a slice `[s, e)` of a listing is a note that passes the filter.
proof fn lemma_listing_slice(notes: Seq<NoteRow>, f: NoteFilter, l: Seq<usize>, s: int, e: int)
    requires
        is_listing(notes, f, l),
        0 <= s <= e <= l.len(),
    ensures
        forall|k: int| 0 <= k < e - s ==> (#[trigger] l.subrange(s, e)[k]) < notes.len(),
        forall|k: int| 0 <= k < e - s ==> matches_listed(notes, f, #[trigger] l.subrange(s, e)[k]),
{
    assert forall|k: int| 0 <= k < e - s implies (#[trigger] l.subrange(s, e)[k]) < notes.len()
        && matches_listed(notes, f, l.subrange(s, e)[k]) by {
        assert(l.subrange(s, e)[k] == l[s + k]);
    }
}

/// Position `i` holds a note that passes `f`.
pub open spec fn matches_listed(notes: Seq<NoteRow>, f: NoteFilter, i: usize) -> bool {
    i < notes.len() && crate::query::matches_filter(notes[i as int], f)
}

/// Searches the notes a visitor may see. Only public, non-draft notes can come back,
/// whatever the request asks; a category name that matches no category gives no
/// results.
pub fn search_notes(notes: &Vec<NoteRow>, cats: &Vec<CategoryRow>, req: &SearchRequest) -> (r:
    Vec<NoteDto>)
    requires
        all_wf(notes@),
    ensures
        names_missing_category(*req, cats@) ==> r@.len() == 0,
        !names_missing_category(*req, cats@) ==> exists|f: NoteFilter, l: Seq<usize>|
            is_request_filter(f, *req, cats@, true) && #[trigger] is_listing(notes@, f, l)
                && dtos_of(notes@, cats@, l, r@),
        forall|k: int| 0 <= k < r@.len() ==> (#[trigger] r@[k]).is_public && r@[k].status@ != "draft"@,
{
    match build_filter(req, cats, true) {
        Some(f) => {
            let l = select_notes(notes, &f);
            let r = note_dtos(notes, cats, &l);
            proof {
                lemma_listing_public(notes@, cats@, f, l@, r@);
            }
            r
        },
        None => Vec::new(),
    }
}

/// Searches all notes, drafts and private ones included.
pub fn search_all_notes(notes: &Vec<NoteRow>, cats: &Vec<CategoryRow>, req: &SearchRequest) -> (r:
    Vec<NoteDto>)
    requires
        all_wf(notes@),
    ensures
        names_missing_category(*req, cats@) ==> r@.len() == 0,
        !names_missing_category(*req, cats@) ==> exists|f: NoteFilter, l: Seq<usize>|
            is_request_filter(f, *req, cats@, false) && #[trigger] is_listing(notes@, f, l)
                && dtos_of(notes@, cats@, l, r@),
{
    match build_filter(req, cats, false) {
        Some(f) => {
            let l = select_notes(notes, &f);
            note_dtos(notes, cats, &l)
        },
        None => Vec::new(),
    }
}

/// The filter of the public listing: public, non-draft notes, optionally of one
/// category.
pub open spec fn public_filter(category_id: Option<i32>) -> NoteFilter {
    NoteFilter {
        keyword: None,
        category_id,
        status: None,
        is_top: None,
        from: None,
        to: None,
        public_only: true,
    }
}

/// `r` is page `page` of the public listing of category `c` (all categories where
/// `c` is absent), `PUBLIC_PAGE_SIZE` rows to a page.
pub open spec fn is_public_page(
    notes: Seq<NoteRow>,
    cats: Seq<CategoryRow>,
    c: Option<i32>,
    page: int,
    r: Seq<NoteDto>,
) -> bool {
    exists|l: Seq<usize>|
        #[trigger] is_listing(notes, public_filter(c), l) && dtos_of(
            notes,
            cats,
            l.subrange(
                page_range(l.len() as int, page, PUBLIC_PAGE_SIZE as int).0,
                page_range(l.len() as int, page, PUBLIC_PAGE_SIZE as int).1,
            ),
            r,
        )
}

/// One page of the public note listing, newest first; the page defaults to 1.
pub fn list_public_notes(notes: &Vec<NoteRow>, cats: &Vec<CategoryRow>, q: &NoteQuery) -> (r: Vec<
    NoteDto,
>)
    requires
        all_wf(notes@),
        q.page != Some(0u64),
    ensures
        is_public_page(
            notes@,
            cats@,
            q.category_id,
            match q.page {
                Some(p) => p as int,
                None => 1,
            },
            r@,
        ),
        forall|k: int| 0 <= k < r@.len() ==> (#[trigger] r@[k]).is_public && r@[k].status@ != "draft"@,
{
    let f = NoteFilter {
        keyword: None,
        category_id: q.category_id,
        status: None,
        is_top: None,
        from: None,
        to: None,
        public_only: true,
    };
    let page = match q.page {
        Some(p) => p,
        None => 1,
    };
    let l = select_notes(notes, &f);
    let shown = paginate(&l, page, PUBLIC_PAGE_SIZE);
    let ghost range = page_range(l@.len() as int, page as int, PUBLIC_PAGE_SIZE as int);
    proof {
        lemma_listing_slice(notes@, f, l@, range.0, range.1);
    }
    let r = note_dtos(notes, cats, &shown);
    proof {
        assert(f == public_filter(q.category_id));
        assert(is_listing(notes@, public_filter(q.category_id), l@));
        assert forall|k: int| 0 <= k < r@.len() implies (#[trigger] r@[k]).is_public && r@[k].status@
            != "draft"@ by {
            assert(note_dto_of(notes@[shown@[k] as int], cats@, r@[k]));
            assert(matches_listed(notes@, f, l@.subrange(range.0, range.1)[k]));
        }
    }
    r
}

/// The filter that matches every note.
pub open spec fn all_notes_filter() -> NoteFilter {
    NoteFilter {
        keyword: None,
        category_id: None,
        status: None,
        is_top: None,
        from: None,
        to: None,
        public_only: false,
    }
}

/// Every note, newest first, drafts and private ones included.
pub fn list_all_notes(notes: &Vec<NoteRow>, cats: &Vec<CategoryRow>) -> (r: Vec<NoteDto>)
    requires
        all_wf(notes@),
    ensures
        exists|l: Seq<usize>|
            #[trigger] is_listing(notes@, all_notes_filter(), l) && dtos_of(notes@, cats@, l, r@),
{
    let f = NoteFilter {
        keyword: None,
        category_id: None,
        status: None,
        is_top: None,
        from: None,
        to: None,
        public_only: false,
    };
    let l = select_notes(notes, &f);
    let r = note_dtos(notes, cats, &l);
    assert(f == all_notes_filter());
    r
}

/// The filter of pinned notes a visitor may see.
pub open spec fn top_filter() -> NoteFilter {
    NoteFilter {
        keyword: None,
        category_id: None,
        status: None,
        is_top: Some(1),
        from: None,
        to: None,
        public_only: true,
    }
}

/// The pinned (`is_top == 1`) public, non-draft notes, newest first.
pub fn get_top_notes(notes: &Vec<NoteRow>, cats: &Vec<CategoryRow>) -> (r: Vec<NoteDto>)
    requires
        all_wf(notes@),
    ensures
        exists|l: Seq<usize>|
            #[trigger] is_listing(notes@, top_filter(), l) && dtos_of(notes@, cats@, l, r@),
        forall|k: int| 0 <= k < r@.len() ==> (#[trigger] r@[k]).is_public && r@[k].status@ != "draft"@,
{
    let f = NoteFilter {
        keyword: None,
        category_id: None,
        status: None,
        is_top: Some(1),
        from: None,
        to: None,
        public_only: true,
    };
    let l = select_notes(notes, &f);
    let r = note_dtos(notes, cats, &l);
    proof {
        assert(f == top_filter());
        lemma_listing_public(notes@, cats@, f, l@, r@);
    }
    r
}

/// The first note with the given id, by position.
pub open spec fn note_with_id(notes: Seq<NoteRow>, id: i32) -> Option<int> {
    first_where(notes.len() as int, |i: int| notes[i].id == id)
}

/// The response row of the note with the given id, or `None` where there is none.
pub fn get_note_detail(notes: &Vec<NoteRow>, cats: &Vec<CategoryRow>, id: i32) -> (r: Option<
    NoteDto,
>)
    requires
        all_wf(notes@),
    ensures
        match note_with_id(notes@, id) {
            Some(i) => r matches Some(d) && note_dto_of(notes@[i], cats@, d),
            None => r is None,
        },
{
    let ghost p = |i: int| notes@[i].id == id;
    let mut i: usize = 0;
    while i < notes.len()
        invariant
            i <= notes@.len(),
            all_wf(notes@),
            p == (|i: int| notes@[i].id == id),
            forall|j: int| 0 <= j < i ==> !#[trigger] p(j),
        decreases notes@.len() - i,
    {
        if notes[i].id == id {
            proof {
                assert(is_first(notes@.len() as int, p, i as int));
                lemma_first_where_some(notes@.len() as int, p, i as int);
                assert(notes@[i as int].wf());
            }
            return Some(map_note(&notes[i], cats));
        }
        i = i + 1;
    }
    proof {
        lemma_first_where_none(notes@.len() as int, p);
    }
    None
}

/// The title a new note gets when the request gives none.
pub open spec fn default_title() -> Seq<char> {
    "Untitled"@
}

/// A supplied value replaces the old one; an absent one keeps it.
pub open spec fn replaced<T>(old: Option<T>, supplied: Option<T>) -> Option<T> {
    match supplied {
        Some(v) => Some(v),
        None => old,
    }
}

/// A new note from a create request, stamped `now`. The title defaults to
/// `"Untitled"`, the content to empty; status and public flag follow the visibility
/// rules from a published, public start.
pub fn create_note(req: &UpsertNoteRequest, id: i32, now: Timestamp) -> (r: NoteRow)
    requires
        now.wf(),
    ensures
        r.wf(),
        r.id == id,
        r.title@ == match req.title {
            Some(t) => t@,
            None => default_title(),
        },
        r.content@ == or_empty(opt_text(req.content)),
        ({
            let v = resolve(creation_base(), opt_text(req.status), req.is_public);
            opt_text(r.status) == v.status && r.is_public == v.is_public
        }),
        r.category_id == req.category_id,
        r.is_top == req.is_top,
        opt_text(r.description) == opt_text(req.description),
        opt_text(r.cover) == opt_text(req.cover),
        opt_text(r.tags) == opt_text(req.tags),
        r.created_at == now,
        r.updated_at == now,
{
    let title = match &req.title {
        Some(t) => t.clone(),
        None => String::from_str("Untitled"),
    };
    let (status, is_public) = initial_visibility(&req.status, req.is_public);
    NoteRow {
        id,
        title,
        content: text_or_empty(&req.content),
        description: clone_opt_text(&req.description),
        cover: clone_opt_text(&req.cover),
        is_top: req.is_top,
        status: Some(status),
        created_at: now,
        updated_at: now,
        is_public,
        tags: clone_opt_text(&req.tags),
        category_id: req.category_id,
    }
}

/// Applies a partial update to a note, stamped `now`: each supplied field replaces
/// the stored one, status and public flag follow the visibility rules, and the
/// creation time and id are kept.
pub fn update_note(note: &mut NoteRow, req: &UpsertNoteRequest, now: Timestamp)
    requires
        old(note).wf(),
        now.wf(),
    ensures
        final(note).wf(),
        final(note).id == old(note).id,
        Some(final(note).title@) == replaced(Some(old(note).title@), opt_text(req.title)),
        Some(final(note).content@) == replaced(Some(old(note).content@), opt_text(req.content)),
        final(note).category_id == replaced(old(note).category_id, req.category_id),
        final(note).is_top == replaced(old(note).is_top, req.is_top),
        opt_text(final(note).description) == replaced(
            opt_text(old(note).description),
            opt_text(req.description),
        ),
        opt_text(final(note).cover) == replaced(opt_text(old(note).cover), opt_text(req.cover)),
        opt_text(final(note).tags) == replaced(opt_text(old(note).tags), opt_text(req.tags)),
        ({
            let v = resolve(
                Visibility { status: opt_text(old(note).status), is_public: old(note).is_public },
                opt_text(req.status),
                req.is_public,
            );
            opt_text(final(note).status) == v.status && final(note).is_public == v.is_public
        }),
        final(note).created_at == old(note).created_at,
        final(note).updated_at == now,
{
    match &req.title {
        Some(v) => {
            note.title = v.clone();
        },
        None => {},
    }
    match &req.content {
        Some(v) => {
            note.content = v.clone();
        },
        None => {},
    }
    match req.category_id {
        Some(v) => {
            note.category_id = Some(v);
        },
        None => {},
    }
    match &req.description {
        Some(v) => {
            note.description = Some(v.clone());
        },
        None => {},
    }
    match &req.cover {
        Some(v) => {
            note.cover = Some(v.clone());
        },
        None => {},
    }
    match req.is_top {
        Some(v) => {
            note.is_top = Some(v);
        },
        None => {},
    }
    match &req.tags {
        Some(v) => {
            note.tags = Some(v.clone());
        },
        None => {},
    }
    apply_visibility(note, &req.status, req.is_public);
    note.updated_at = now;
}

/// No two stored notes share an id.
pub open spec fn unique_ids(notes: Seq<NoteRow>) -> bool {
    forall|i: int, j: int|
        0 <= i < notes.len() && 0 <= j < notes.len() && i != j ==> #[trigger] notes[i].id
            != #[trigger] notes[j].id
}

proof fn lemma_sorted_same_contents_equal(notes: Seq<NoteRow>, s1: Seq<usize>, s2: Seq<usize>)
    requires
        forall|a: int, b: int|
            0 <= a < b < s1.len() ==> listed_before(notes, #[trigger] s1[a] as int, #[trigger] s1[b] as int),
        forall|a: int, b: int|
            0 <= a < b < s2.len() ==> listed_before(notes, #[trigger] s2[a] as int, #[trigger] s2[b] as int),
        forall|x: usize| s1.contains(x) <==> s2.contains(x),
    ensures
        s1 == s2,
    decreases s1.len(),
{
    if s1.len() == 0 {
        if s2.len() > 0 {
            assert(s2.contains(s2[0]));
        }
        assert(s1 =~= s2);
    } else {
        assert(s1.contains(s1[0]));
        assert(s2.len() > 0);
        assert(s2.contains(s2[0]));
        let j = choose|j: int| 0 <= j < s2.len() && s2[j] == s1[0];
        let i = choose|i: int| 0 <= i < s1.len() && s1[i] == s2[0];
        if s1[0] != s2[0] {
            assert(listed_before(notes, s2[0] as int, s2[j] as int));
            assert(listed_before(notes, s1[0] as int, s1[i] as int));
        }
        let t1 = s1.drop_first();
        let t2 = s2.drop_first();
        assert forall|x: usize| t1.contains(x) <==> t2.contains(x) by {
            if t1.contains(x) {
                let a = choose|a: int| 0 <= a < t1.len() && t1[a] == x;
                assert(s1[a + 1] == x);
                assert(listed_before(notes, s1[0] as int, s1[a + 1] as int));
                assert(s2.contains(x));
                let b = choose|b: int| 0 <= b < s2.len() && s2[b] == x;
                assert(b != 0);
                assert(t2[b - 1] == x);
            }
            if t2.contains(x) {
                let a = choose|a: int| 0 <= a < t2.len() && t2[a] == x;
                assert(s2[a + 1] == x);
                assert(listed_before(notes, s2[0] as int, s2[a + 1] as int));
                assert(s1.contains(x));
                let b = choose|b: int| 0 <= b < s1.len() && s1[b] == x;
                assert(b != 0);
                assert(t1[b - 1] == x);
            }
        }
        assert forall|a: int, b: int| 0 <= a < b < t1.len() implies listed_before(
            notes,
            #[trigger] t1[a] as int,
            #[trigger] t1[b] as int,
        ) by {
            assert(listed_before(notes, s1[a + 1] as int, s1[b + 1] as int));
        }
        assert forall|a: int, b: int| 0 <= a < b < t2.len() implies listed_before(
            notes,
            #[trigger] t2[a] as int,
            #[trigger] t2[b] as int,
        ) by {
            assert(listed_before(notes, s2[a + 1] as int, s2[b + 1] as int));
        }
        lemma_sorted_same_contents_equal(notes, t1, t2);
        assert(s1 =~= s2) by {
            assert forall|k: int| 0 <= k < s1.len() implies s1[k] == s2[k] by {
                if k > 0 {
                    assert(t1[k - 1] == t2[k - 1]);
                }
            }
        }
    }
}

/// A filter has one listing: the notes that pass it, newest first, ties in stored
/// order, are determined by the notes and the filter.
pub proof fn lemma_listing_unique(notes: Seq<NoteRow>, f: NoteFilter, l1: Seq<usize>, l2: Seq<
    usize,
>)
    requires
        is_listing(notes, f, l1),
        is_listing(notes, f, l2),
    ensures
        l1 == l2,
{
    assert forall|x: usize| l1.contains(x) <==> l2.contains(x) by {
        if l1.contains(x) {
            let a = choose|a: int| 0 <= a < l1.len() && l1[a] == x;
            assert(l1[a] < notes.len());
            assert(matches_filter(notes[x as int], f));
        }
        if l2.contains(x) {
            let a = choose|a: int| 0 <= a < l2.len() && l2[a] == x;
            assert(l2[a] < notes.len());
            assert(matches_filter(notes[x as int], f));
        }
    }
    lemma_sorted_same_contents_equal(notes, l1, l2);
}

/// Pages `k` and `k + 1` of the public listing share no note id (ids being unique).
pub proof fn lemma_adjacent_public_pages_disjoint(
    notes: Seq<NoteRow>,
    cats: Seq<CategoryRow>,
    c: Option<i32>,
    k: int,
    r1: Seq<NoteDto>,
    r2: Seq<NoteDto>,
)
    requires
        unique_ids(notes),
        k >= 1,
        is_public_page(notes, cats, c, k, r1),
        is_public_page(notes, cats, c, k + 1, r2),
    ensures
        forall|a: int, b: int|
            0 <= a < r1.len() && 0 <= b < r2.len() ==> #[trigger] r1[a].id != #[trigger] r2[b].id,
{
    let f = public_filter(c);
    let l1 = choose|l: Seq<usize>|
        #[trigger] is_listing(notes, f, l) && dtos_of(
            notes,
            cats,
            l.subrange(
                page_range(l.len() as int, k, PUBLIC_PAGE_SIZE as int).0,
                page_range(l.len() as int, k, PUBLIC_PAGE_SIZE as int).1,
            ),
            r1,
        );
    let l2 = choose|l: Seq<usize>|
        #[trigger] is_listing(notes, f, l) && dtos_of(
            notes,
            cats,
            l.subrange(
                page_range(l.len() as int, k + 1, PUBLIC_PAGE_SIZE as int).0,
                page_range(l.len() as int, k + 1, PUBLIC_PAGE_SIZE as int).1,
            ),
            r2,
        );
    lemma_listing_unique(notes, f, l1, l2);
    let n = l1.len() as int;
    let this_page = page_range(n, k, PUBLIC_PAGE_SIZE as int);
    let next_page = page_range(n, k + 1, PUBLIC_PAGE_SIZE as int);
    assert(this_page.1 <= next_page.0);
    assert forall|a: int, b: int|
        0 <= a < r1.len() && 0 <= b < r2.len() implies #[trigger] r1[a].id != #[trigger] r2[b].id by {
        let x = l1.subrange(this_page.0, this_page.1)[a];
        let y = l1.subrange(next_page.0, next_page.1)[b];
        assert(x == l1[this_page.0 + a]);
        assert(y == l1[next_page.0 + b]);
        assert(listed_before(notes, l1[this_page.0 + a] as int, l1[next_page.0 + b] as int));
        assert(note_dto_of(notes[x as int], cats, r1[a]));
        assert(note_dto_of(notes[y as int], cats, r2[b]));
        assert(x < notes.len() && y < notes.len());
        assert(notes[x as int].id != notes[y as int].id);
    }
}

/// Page 1 of the public listing holds its first `PUBLIC_PAGE_SIZE` notes (all of them
/// where there are fewer), and each is at least as new as every public note past it.
pub proof fn lemma_first_public_page_newest(
    notes: Seq<NoteRow>,
    cats: Seq<CategoryRow>,
    c: Option<i32>,
    r: Seq<NoteDto>,
)
    requires
        is_public_page(notes, cats, c, 1, r),
    ensures
        exists|l: Seq<usize>|
            #[trigger] is_listing(notes, public_filter(c), l) && {
                let m = if l.len() < PUBLIC_PAGE_SIZE {
                    l.len() as int
                } else {
                    PUBLIC_PAGE_SIZE as int
                };
                &&& dtos_of(notes, cats, l.subrange(0, m), r)
                &&& forall|a: int, b: int|
                    0 <= a < m <= b < l.len() ==> notes[#[trigger] l[a] as int].created_at.order_key()
                        >= notes[#[trigger] l[b] as int].created_at.order_key()
            },
{
    let f = public_filter(c);
    let l = choose|l: Seq<usize>|
        #[trigger] is_listing(notes, f, l) && dtos_of(
            notes,
            cats,
            l.subrange(
                page_range(l.len() as int, 1, PUBLIC_PAGE_SIZE as int).0,
                page_range(l.len() as int, 1, PUBLIC_PAGE_SIZE as int).1,
            ),
            r,
        );
    let m = if l.len() < PUBLIC_PAGE_SIZE {
        l.len() as int
    } else {
        PUBLIC_PAGE_SIZE as int
    };
    assert forall|a: int, b: int| 0 <= a < m <= b < l.len() implies notes[#[trigger] l[a] as int].created_at.order_key()
        >= notes[#[trigger] l[b] as int].created_at.order_key() by {
        assert(listed_before(notes, l[a] as int, l[b] as int));
    }
    if l.len() == 0 {
        assert(l.subrange(0, 0) =~= l.subrange(
            page_range(l.len() as int, 1, PUBLIC_PAGE_SIZE as int).0,
            page_range(l.len() as int, 1, PUBLIC_PAGE_SIZE as int).1,
        ));
    }
}

/// With unique note ids, every note that passes the filter is listed exactly once:
/// one response row carries its id, and no two rows share an id.
pub proof fn lemma_listed_exactly_once(
    notes: Seq<NoteRow>,
    cats: Seq<CategoryRow>,
    f: NoteFilter,
    l: Seq<usize>,
    r: Seq<NoteDto>,
)
    requires
        notes.len() <= usize::MAX,
        unique_ids(notes),
        is_listing(notes, f, l),
        dtos_of(notes, cats, l, r),
    ensures
        forall|i: int|
            0 <= i < notes.len() && matches_filter(#[trigger] notes[i], f) ==> exists|k: int|
                0 <= k < r.len() && r[k].id == notes[i].id,
        forall|a: int, b: int|
            0 <= a < r.len() && 0 <= b < r.len() && a != b ==> #[trigger] r[a].id
                != #[trigger] r[b].id,
{
    assert forall|i: int|
        0 <= i < notes.len() && matches_filter(#[trigger] notes[i], f) implies exists|k: int|
        0 <= k < r.len() && r[k].id == notes[i].id by {
        assert(l.contains(i as usize));
        let k = choose|k: int| 0 <= k < l.len() && l[k] == i as usize;
        assert(l[k] as int == i);
        assert(note_dto_of(notes[l[k] as int], cats, r[k]));
        assert(0 <= k < r.len() && r[k].id == notes[i].id);
    }
    assert forall|a: int, b: int|
        0 <= a < r.len() && 0 <= b < r.len() && a != b implies #[trigger] r[a].id
        != #[trigger] r[b].id by {
        assert(note_dto_of(notes[l[a] as int], cats, r[a]));
        assert(note_dto_of(notes[l[b] as int], cats, r[b]));
        assert(l[a] < notes.len() && l[b] < notes.len());
        if a < b {
            assert(listed_before(notes, l[a] as int, l[b] as int));
        } else {
            assert(listed_before(notes, l[b] as int, l[a] as int));
        }
    }
}

} // verus!
