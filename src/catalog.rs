//! Categories and the two-level tag taxonomy: stored rows, listings with per-category
//! note counts, and the parent name attached to each second-level tag.
use vstd::prelude::*;
use vstd::string::*;
use crate::lookup::{first_where, is_first, lemma_first_where_none, lemma_first_where_some};
use crate::note::NoteRow;
use crate::text::{clone_opt_text, opt_text, or_empty, text_or_empty};

verus! {

/// A stored category.
pub struct CategoryRow {
    pub id: i32,
    pub name: String,
    pub introduce: Option<String>,
    pub path_name: Option<String>,
    pub icon: Option<String>,
    pub color: Option<String>,
}

/// A category as listed, with the number of notes filed under it.
pub struct CategoryDto {
    pub category_key: i32,
    pub category_title: String,
    pub path_name: String,
    pub introduce: String,
    pub icon: String,
    pub color: String,
    pub note_count: i64,
}

/// The fields of a category create or update request; each may be absent.
pub struct CreateCategoryRequest {
    pub category_title: Option<String>,
    pub path_name: Option<String>,
    pub introduce: Option<String>,
    pub icon: Option<String>,
    pub color: Option<String>,
}

/// A stored first-level tag.
pub struct TagOneRow {
    pub id: i32,
    pub name: String,
    pub color: Option<String>,
}

/// A stored second-level tag, pointing at its parent.
pub struct TagTwoRow {
    pub id: i32,
    pub name: String,
    pub color: Option<String>,
    pub tag_one_id: Option<i32>,
}

/// A first-level tag as listed.
pub struct TagOneDto {
    pub id: i32,
    pub title: String,
    pub color: String,
    pub level: i32,
}

/// A second-level tag as listed, with its parent's name.
pub struct TagTwoDto {
    pub id: i32,
    pub title: String,
    pub color: String,
    pub level: i32,
    pub father_tag: String,
}

/// A request to create a first-level tag.
pub struct UpsertTagOne {
    pub title: String,
    pub color: String,
}

/// A request to create a second-level tag under `father_id`.
pub struct UpsertTagTwo {
    pub title: String,
    pub color: String,
    pub father_id: i32,
}

/// The name a new category gets when the request gives none.
pub open spec fn default_category_name() -> Seq<char> {
    "New Category"@
}

/// The number of notes filed under category `id`.
pub open spec fn notes_in_category(notes: Seq<NoteRow>, id: i32) -> nat
    decreases notes.len(),
{
    if notes.len() == 0 {
        0
    } else {
        notes_in_category(notes.drop_last(), id) + if notes.last().category_id == Some(id) {
            1nat
        } else {
            0nat
        }
    }
}

/// Counts the notes filed under category `id`.
pub fn count_notes_in_category(notes: &Vec<NoteRow>, id: i32) -> (r: usize)
    ensures
        r == notes_in_category(notes@, id),
{
    let mut count: usize = 0;
    let mut i: usize = 0;
    while i < notes.len()
        invariant
            i <= notes@.len(),
            count == notes_in_category(notes@.subrange(0, i as int), id),
            count <= i,
        decreases notes@.len() - i,
    {
        assert(notes@.subrange(0, i + 1).drop_last() =~= notes@.subrange(0, i as int));
        if notes[i].category_id == Some(id) {
            count = count + 1;
        }
        i = i + 1;
    }
    assert(notes@.subrange(0, i as int) =~= notes@);
    count
}

/// The listing entry of category `c`, given its note count.
pub open spec fn category_dto_of(c: CategoryRow, count: int, d: CategoryDto) -> bool {
    d.category_key == c.id && d.category_title@ == c.name@ && d.path_name@ == or_empty(
        opt_text(c.path_name),
    ) && d.introduce@ == or_empty(opt_text(c.introduce)) && d.icon@ == or_empty(
        opt_text(c.icon),
    ) && d.color@ == or_empty(opt_text(c.color)) && d.note_count == count
}

/// Lists every category, in stored order, each with the count of notes whose
/// `category_id` is its id (zero where none).
pub fn list_categories(cats: &Vec<CategoryRow>, notes: &Vec<NoteRow>) -> (r: Vec<CategoryDto>)
    requires
        notes@.len() <= i64::MAX,
    ensures
        r@.len() == cats@.len(),
        forall|k: int|
            0 <= k < cats@.len() ==> category_dto_of(
                cats@[k],
                notes_in_category(notes@, cats@[k].id) as int,
                #[trigger] r@[k],
            ),
{
    let mut out: Vec<CategoryDto> = Vec::new();
    let mut i: usize = 0;
    while i < cats.len()
        invariant
            i <= cats@.len(),
            notes@.len() <= i64::MAX,
            out@.len() == i,
            forall|k: int|
                0 <= k < i ==> category_dto_of(
                    cats@[k],
                    notes_in_category(notes@, cats@[k].id) as int,
                    #[trigger] out@[k],
                ),
        decreases cats@.len() - i,
    {
        let c = &cats[i];
        let count = count_notes_in_category(notes, c.id);
        proof {
            lemma_count_bounded(notes@, c.id);
        }
        out.push(
            CategoryDto {
                category_key: c.id,
                category_title: c.name.clone(),
                path_name: text_or_empty(&c.path_name),
                introduce: text_or_empty(&c.introduce),
                icon: text_or_empty(&c.icon),
                color: text_or_empty(&c.color),
                note_count: count as i64,
            },
        );
        i = i + 1;
    }
    out
}

proof fn lemma_count_bounded(notes: Seq<NoteRow>, id: i32)
    ensures
        notes_in_category(notes, id) <= notes.len(),
    decreases notes.len(),
{
    if notes.len() > 0 {
        lemma_count_bounded(notes.drop_last(), id);
    }
}

/// A new category from a request; the name defaults to `"New Category"`.
pub fn new_category(req: &CreateCategoryRequest, id: i32) -> (r: CategoryRow)
    ensures
        r.id == id,
        r.name@ == match opt_text(req.category_title) {
            Some(t) => t,
            None => default_category_name(),
        },
        opt_text(r.path_name) == opt_text(req.path_name),
        opt_text(r.introduce) == opt_text(req.introduce),
        opt_text(r.icon) == opt_text(req.icon),
        opt_text(r.color) == opt_text(req.color),
{
    let name = match &req.category_title {
        Some(t) => t.clone(),
        None => String::from_str("New Category"),
    };
    CategoryRow {
        id,
        name,
        introduce: clone_opt_text(&req.introduce),
        path_name: clone_opt_text(&req.path_name),
        icon: clone_opt_text(&req.icon),
        color: clone_opt_text(&req.color),
    }
}

/// A field after an update that only takes supplied, non-empty values.
pub open spec fn updated_field(old: Option<Seq<char>>, supplied: Option<Seq<char>>) -> Option<
    Seq<char>,
> {
    match supplied {
        Some(v) => if v.len() > 0 {
            Some(v)
        } else {
            old
        },
        None => old,
    }
}

fn update_field(field: &mut Option<String>, supplied: &Option<String>)
    ensures
        opt_text(*final(field)) == updated_field(opt_text(*old(field)), opt_text(*supplied)),
{
    match supplied {
        Some(v) => {
            if !v.as_str().is_empty() {
                *field = Some(v.clone());
            }
        },
        None => {},
    }
}

/// Applies an update to a category: each field that the request supplies non-empty
/// replaces the stored one; the others are kept.
pub fn update_category(cat: &mut CategoryRow, req: &CreateCategoryRequest)
    ensures
        final(cat).id == old(cat).id,
        Some(final(cat).name@) == updated_field(Some(old(cat).name@), opt_text(req.category_title)),
        opt_text(final(cat).path_name) == updated_field(
            opt_text(old(cat).path_name),
            opt_text(req.path_name),
        ),
        opt_text(final(cat).introduce) == updated_field(
            opt_text(old(cat).introduce),
            opt_text(req.introduce),
        ),
        opt_text(final(cat).icon) == updated_field(opt_text(old(cat).icon), opt_text(req.icon)),
        opt_text(final(cat).color) == updated_field(opt_text(old(cat).color), opt_text(req.color)),
{
    match &req.category_title {
        Some(v) => {
            if !v.as_str().is_empty() {
                cat.name = v.clone();
            }
        },
        None => {},
    }
    update_field(&mut cat.path_name, &req.path_name);
    update_field(&mut cat.introduce, &req.introduce);
    update_field(&mut cat.icon, &req.icon);
    update_field(&mut cat.color, &req.color);
}

/// Lists first-level tags, in stored order, at level 1.
pub fn list_tags_one(tags: &Vec<TagOneRow>) -> (r: Vec<TagOneDto>)
    ensures
        r@.len() == tags@.len(),
        forall|k: int|
            0 <= k < tags@.len() ==> {
                let d = #[trigger] r@[k];
                let t = tags@[k];
                d.id == t.id && d.title@ == t.name@ && d.color@ == or_empty(opt_text(t.color))
                    && d.level == 1
            },
{
    let mut out: Vec<TagOneDto> = Vec::new();
    let mut i: usize = 0;
    while i < tags.len()
        invariant
            i <= tags@.len(),
            out@.len() == i,
            forall|k: int|
                0 <= k < i ==> {
                    let d = #[trigger] out@[k];
                    let t = tags@[k];
                    d.id == t.id && d.title@ == t.name@ && d.color@ == or_empty(opt_text(t.color))
                        && d.level == 1
                },
        decreases tags@.len() - i,
    {
        let t = &tags[i];
        out.push(
            TagOneDto { id: t.id, title: t.name.clone(), color: text_or_empty(&t.color), level: 1 },
        );
        i = i + 1;
    }
    out
}

/// The parent of a second-level tag: the first first-level tag whose id it names.
pub open spec fn parent_of(parents: Seq<TagOneRow>, child: TagTwoRow) -> Option<int> {
    first_where(parents.len() as int, |i: int| child.tag_one_id == Some(parents[i].id))
}

/// The parent name shown for a second-level tag; empty where it has no parent or the
/// parent is gone.
pub open spec fn father_name(parents: Seq<TagOneRow>, child: TagTwoRow) -> Seq<char> {
    match parent_of(parents, child) {
        Some(i) => parents[i].name@,
        None => Seq::empty(),
    }
}

/// Finds the position of a second-level tag's parent.
fn find_parent(parents: &Vec<TagOneRow>, child: &TagTwoRow) -> (r: Option<usize>)
    ensures
        match r {
            Some(i) => parent_of(parents@, *child) == Some(i as int),
            None => parent_of(parents@, *child) is None,
        },
{
    let ghost p = |i: int| child.tag_one_id == Some(parents@[i].id);
    let mut i: usize = 0;
    while i < parents.len()
        invariant
            i <= parents@.len(),
            p == (|i: int| child.tag_one_id == Some(parents@[i].id)),
            forall|j: int| 0 <= j < i ==> !#[trigger] p(j),
        decreases parents@.len() - i,
    {
        if child.tag_one_id == Some(parents[i].id) {
            proof {
                assert(is_first(parents@.len() as int, p, i as int));
                lemma_first_where_some(parents@.len() as int, p, i as int);
            }
            return Some(i);
        }
        i = i + 1;
    }
    proof {
        lemma_first_where_none(parents@.len() as int, p);
    }
    None
}

/// The listing entry of second-level tag `t`.
pub open spec fn tag_two_dto_of(parents: Seq<TagOneRow>, t: TagTwoRow, d: TagTwoDto) -> bool {
    d.id == t.id && d.title@ == t.name@ && d.color@ == or_empty(opt_text(t.color)) && d.level == 2
        && d.father_tag@ == father_name(parents, t)
}

/// Lists second-level tags, in stored order, at level 2, each with its parent's name.
pub fn list_tags_two(tags: &Vec<TagTwoRow>, parents: &Vec<TagOneRow>) -> (r: Vec<TagTwoDto>)
    ensures
        r@.len() == tags@.len(),
        forall|k: int| 0 <= k < tags@.len() ==> tag_two_dto_of(parents@, tags@[k], #[trigger] r@[k]),
{
    let mut out: Vec<TagTwoDto> = Vec::new();
    let mut i: usize = 0;
    while i < tags.len()
        invariant
            i <= tags@.len(),
            out@.len() == i,
            forall|k: int|
                0 <= k < i ==> tag_two_dto_of(parents@, tags@[k], #[trigger] out@[k]),
        decreases tags@.len() - i,
    {
        let t = &tags[i];
        let father = match find_parent(parents, t) {
            Some(j) => parents[j].name.clone(),
            None => String::new(),
        };
        out.push(
            TagTwoDto {
                id: t.id,
                title: t.name.clone(),
                color: text_or_empty(&t.color),
                level: 2,
                father_tag: father,
            },
        );
        i = i + 1;
    }
    out
}

/// A second-level tag with no parent id, or whose parent id names no first-level tag,
/// is listed with an empty parent name.
pub proof fn lemma_orphan_tag_has_empty_father(parents: Seq<TagOneRow>, child: TagTwoRow)
    requires
        child.tag_one_id is None || forall|i: int|
            0 <= i < parents.len() ==> Some(#[trigger] parents[i].id) != child.tag_one_id,
    ensures
        father_name(parents, child) == Seq::<char>::empty(),
{
    let p = |i: int| child.tag_one_id == Some(parents[i].id);
    assert forall|i: int| 0 <= i < parents.len() implies !#[trigger] p(i) by {}
    lemma_first_where_none(parents.len() as int, p);
}

/// A new first-level tag.
pub fn new_tag_one(req: &UpsertTagOne, id: i32) -> (r: TagOneRow)
    ensures
        r.id == id,
        r.name@ == req.title@,
        opt_text(r.color) == Some(req.color@),
{
    TagOneRow { id, name: req.title.clone(), color: Some(req.color.clone()) }
}

/// A new second-level tag under the first-level tag `req.father_id`.
pub fn new_tag_two(req: &UpsertTagTwo, id: i32) -> (r: TagTwoRow)
    ensures
        r.id == id,
        r.name@ == req.title@,
        opt_text(r.color) == Some(req.color@),
        r.tag_one_id == Some(req.father_id),
{
    TagTwoRow {
        id,
        name: req.title.clone(),
        color: Some(req.color.clone()),
        tag_one_id: Some(req.father_id),
    }
}

/// With unique second-level tag ids, each second-level tag is listed exactly once (at
/// its own position); one with no parent id, or whose parent is gone, is listed with
/// an empty parent name.
pub proof fn lemma_tag_listed_once(
    tags: Seq<TagTwoRow>,
    parents: Seq<TagOneRow>,
    r: Seq<TagTwoDto>,
    i: int,
)
    requires
        forall|a: int, b: int|
            0 <= a < tags.len() && 0 <= b < tags.len() && a != b ==> #[trigger] tags[a].id
                != #[trigger] tags[b].id,
        r.len() == tags.len(),
        forall|k: int| 0 <= k < tags.len() ==> tag_two_dto_of(parents, tags[k], #[trigger] r[k]),
        0 <= i < tags.len(),
    ensures
        r[i].id == tags[i].id,
        forall|k: int| 0 <= k < r.len() && #[trigger] r[k].id == tags[i].id ==> k == i,
        (tags[i].tag_one_id is None || forall|j: int|
            0 <= j < parents.len() ==> Some(#[trigger] parents[j].id) != tags[i].tag_one_id)
            ==> r[i].father_tag@ == Seq::<char>::empty(),
{
    assert(tag_two_dto_of(parents, tags[i], r[i]));
    assert forall|k: int| 0 <= k < r.len() && #[trigger] r[k].id == tags[i].id implies k == i by {
        assert(tag_two_dto_of(parents, tags[k], r[k]));
    }
    if tags[i].tag_one_id is None || forall|j: int|
        0 <= j < parents.len() ==> Some(#[trigger] parents[j].id) != tags[i].tag_one_id {
        lemma_orphan_tag_has_empty_father(parents, tags[i]);
    }
}

} // verus!
