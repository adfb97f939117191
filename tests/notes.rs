use memory_blog::catalog::CategoryRow;
use memory_blog::clock::day_bounds;
use memory_blog::listing::{
    create_note, get_note_detail, get_top_notes, list_all_notes, list_public_notes, map_note,
    search_all_notes, search_notes, update_note, NoteQuery, UpsertNoteRequest,
};
use memory_blog::note::{apply_visibility, initial_visibility, status_is_hidden, NoteRow, Timestamp};
use memory_blog::query::{build_filter, paginate, select_notes, NoteFilter, SearchRequest};

fn ts(year: i32, month: u32, day: u32, hour: u32, minute: u32, second: u32) -> Timestamp {
    Timestamp { year, month, day, hour, minute, second }
}

fn note(id: i32, title: &str, day: u32, status: Option<&str>, is_public: bool) -> NoteRow {
    NoteRow {
        id,
        title: title.to_string(),
        content: format!("body of {}", title),
        description: None,
        cover: None,
        is_top: None,
        status: status.map(|s| s.to_string()),
        created_at: ts(2024, 3, day, 10, 0, 0),
        updated_at: ts(2024, 3, day, 10, 0, 0),
        is_public,
        tags: None,
        category_id: None,
    }
}

fn category(id: i32, name: &str) -> CategoryRow {
    CategoryRow { id, name: name.to_string(), introduce: None, path_name: None, icon: None, color: None }
}

fn empty_search() -> SearchRequest {
    SearchRequest { keyword: None, categories: None, status: None, is_top: None, start_date: None, end_date: None }
}

fn empty_upsert() -> UpsertNoteRequest {
    UpsertNoteRequest {
        title: None,
        content: None,
        category_id: None,
        is_top: None,
        status: None,
        description: None,
        cover: None,
        tags: None,
        is_public: None,
    }
}

#[test]
fn hidden_statuses() {
    assert!(status_is_hidden("draft"));
    assert!(status_is_hidden("private"));
    assert!(!status_is_hidden("published"));
    assert!(!status_is_hidden("Draft"));
}

#[test]
fn creation_defaults_to_published_and_public() {
    let (status, public) = initial_visibility(&None, None);
    assert_eq!(status, "published");
    assert!(public);
}

#[test]
fn creation_as_draft_is_never_public() {
    let (status, public) = initial_visibility(&Some("draft".to_string()), Some(true));
    assert_eq!(status, "draft");
    assert!(!public);
}

#[test]
fn explicit_flag_wins_for_published() {
    let (_, public) = initial_visibility(&None, Some(false));
    assert!(!public);
}

#[test]
fn update_to_private_forces_private_even_with_flag() {
    let mut n = note(1, "a", 1, Some("published"), true);
    apply_visibility(&mut n, &Some("private".to_string()), Some(true));
    assert_eq!(n.status.as_deref(), Some("private"));
    assert!(!n.is_public);
}

#[test]
fn update_flag_on_draft_stays_private() {
    let mut n = note(1, "a", 1, Some("draft"), false);
    apply_visibility(&mut n, &None, Some(true));
    assert!(!n.is_public);
}

#[test]
fn update_without_visibility_fields_keeps_flag() {
    let mut n = note(1, "a", 1, Some("published"), false);
    apply_visibility(&mut n, &None, None);
    assert!(!n.is_public);
    apply_visibility(&mut n, &Some("published".to_string()), None);
    assert!(!n.is_public);
}

#[test]
fn same_update_twice_equals_once() {
    let mut once = note(1, "a", 1, None, true);
    apply_visibility(&mut once, &Some("draft".to_string()), Some(true));
    let mut twice = note(1, "a", 1, None, true);
    apply_visibility(&mut twice, &Some("draft".to_string()), Some(true));
    apply_visibility(&mut twice, &Some("draft".to_string()), Some(true));
    assert_eq!(once.status, twice.status);
    assert_eq!(once.is_public, twice.is_public);
}

#[test]
fn public_search_excludes_private_and_drafts() {
    let notes = vec![
        note(1, "alpha", 1, Some("published"), true),
        note(2, "alpha draft", 2, Some("draft"), true),
        note(3, "alpha hidden", 3, Some("published"), false),
        note(4, "alpha private", 4, Some("private"), false),
    ];
    let mut req = empty_search();
    req.keyword = Some("alpha".to_string());
    req.status = Some("draft".to_string());
    let r = search_notes(&notes, &vec![], &req);
    assert!(r.is_empty());
    req.status = None;
    let r = search_notes(&notes, &vec![], &req);
    assert_eq!(r.len(), 1);
    assert_eq!(r[0].id, 1);
}

#[test]
fn admin_search_sees_everything_newest_first() {
    let notes = vec![
        note(1, "alpha", 1, Some("published"), true),
        note(2, "alpha draft", 2, Some("draft"), false),
        note(3, "beta", 3, Some("private"), false),
    ];
    let r = search_all_notes(&notes, &vec![], &empty_search());
    let ids: Vec<i32> = r.iter().map(|d| d.id).collect();
    assert_eq!(ids, vec![3, 2, 1]);
}

#[test]
fn keyword_matches_title_content_or_tags_case_sensitively() {
    let mut tagged = note(2, "zzz", 2, None, true);
    tagged.tags = Some("rust,verus".to_string());
    let notes = vec![note(1, "Rust notes", 1, None, true), tagged, note(3, "other", 3, None, true)];
    let mut req = empty_search();
    req.keyword = Some("rust".to_string());
    let r = search_all_notes(&notes, &vec![], &req);
    let ids: Vec<i32> = r.iter().map(|d| d.id).collect();
    assert_eq!(ids, vec![2]);
    req.keyword = Some("body of other".to_string());
    let r = search_all_notes(&notes, &vec![], &req);
    assert_eq!(r.len(), 1);
    assert_eq!(r[0].id, 3);
    req.keyword = Some(String::new());
    assert_eq!(search_all_notes(&notes, &vec![], &req).len(), 3);
}

#[test]
fn unknown_category_name_gives_no_results() {
    let notes = vec![note(1, "a", 1, None, true), note(2, "b", 2, None, true)];
    let cats = vec![category(7, "Tech")];
    let mut req = empty_search();
    req.categories = Some("Nope".to_string());
    assert!(search_notes(&notes, &cats, &req).is_empty());
    assert!(search_all_notes(&notes, &cats, &req).is_empty());
    assert!(build_filter(&req, &cats, true).is_none());
}

#[test]
fn category_name_filters_by_its_id() {
    let mut n1 = note(1, "a", 1, None, true);
    n1.category_id = Some(7);
    let notes = vec![n1, note(2, "b", 2, None, true)];
    let cats = vec![category(7, "Tech")];
    let mut req = empty_search();
    req.categories = Some("Tech".to_string());
    let r = search_notes(&notes, &cats, &req);
    assert_eq!(r.len(), 1);
    assert_eq!(r[0].category_id, Some(7));
    assert_eq!(r[0].category_title.as_deref(), Some("Tech"));
}

#[test]
fn date_range_is_inclusive_by_day_and_bad_dates_are_ignored() {
    let mut late = note(2, "late", 5, None, true);
    late.created_at = ts(2024, 3, 5, 23, 59, 59);
    let notes = vec![note(1, "early", 4, None, true), late, note(3, "next", 6, None, true)];
    let mut req = empty_search();
    req.start_date = Some("2024-03-05".to_string());
    req.end_date = Some("2024-03-05".to_string());
    let r = search_all_notes(&notes, &vec![], &req);
    let ids: Vec<i32> = r.iter().map(|d| d.id).collect();
    assert_eq!(ids, vec![2]);
    req.start_date = Some("not a date".to_string());
    req.end_date = Some("2024-13-45".to_string());
    assert_eq!(search_all_notes(&notes, &vec![], &req).len(), 3);
}

#[test]
fn dates_beyond_stored_years_still_apply() {
    let notes = vec![note(1, "a", 1, None, true), note(2, "b", 2, None, true)];
    let mut req = empty_search();
    req.start_date = Some("+262142-01-01".to_string());
    req.end_date = Some("+262142-12-31".to_string());
    assert!(search_all_notes(&notes, &vec![], &req).is_empty());
    let mut req = empty_search();
    req.end_date = Some("+262142-12-31".to_string());
    assert_eq!(search_all_notes(&notes, &vec![], &req).len(), 2);
    let mut req = empty_search();
    req.start_date = Some("-262143-01-01".to_string());
    assert_eq!(search_all_notes(&notes, &vec![], &req).len(), 2);
    let mut req = empty_search();
    req.end_date = Some("-262143-01-01".to_string());
    assert!(search_all_notes(&notes, &vec![], &req).is_empty());
}

#[test]
fn day_bounds_of_a_date() {
    let (lo, hi) = day_bounds("2024-02-29").unwrap();
    assert_eq!(lo, ts(2024, 2, 29, 0, 0, 0).key());
    assert_eq!(hi, ts(2024, 2, 29, 23, 59, 59).key());
    let (far_lo, far_hi) = day_bounds("+262142-01-01").unwrap();
    assert!(far_lo > ts(262141, 12, 31, 23, 59, 59).key());
    assert!(far_hi > far_lo);
    assert!(day_bounds("2023-02-29").is_none());
    assert!(day_bounds("").is_none());
}

#[test]
fn status_and_top_filters_are_exact() {
    let mut top = note(1, "t", 1, Some("draft"), false);
    top.is_top = Some(1);
    let notes = vec![top, note(2, "u", 2, None, true)];
    let mut req = empty_search();
    req.is_top = Some(1);
    let r = search_all_notes(&notes, &vec![], &req);
    assert_eq!(r.len(), 1);
    assert_eq!(r[0].id, 1);
    req.is_top = Some(0);
    let r = search_all_notes(&notes, &vec![], &req);
    assert_eq!(r.len(), 1);
    assert_eq!(r[0].id, 2);
    let mut req = empty_search();
    req.status = Some("published".to_string());
    let r = search_all_notes(&notes, &vec![], &req);
    assert_eq!(r.len(), 1);
    assert_eq!(r[0].id, 2);
}

#[test]
fn public_pages_hold_six_newest_and_do_not_overlap() {
    let mut notes = Vec::new();
    for i in 1..=14 {
        notes.push(note(i, "n", i as u32, None, true));
    }
    notes.push(note(99, "hidden", 28, Some("draft"), false));
    let page = |p: Option<u64>| -> Vec<i32> {
        list_public_notes(&notes, &vec![], &NoteQuery { category_id: None, page: p })
            .iter()
            .map(|d| d.id)
            .collect()
    };
    assert_eq!(page(None), vec![14, 13, 12, 11, 10, 9]);
    assert_eq!(page(Some(1)), vec![14, 13, 12, 11, 10, 9]);
    assert_eq!(page(Some(2)), vec![8, 7, 6, 5, 4, 3]);
    assert_eq!(page(Some(3)), vec![2, 1]);
    assert!(page(Some(4)).is_empty());
    assert!(page(Some(u64::MAX)).is_empty());
}

#[test]
fn ties_keep_stored_order() {
    let notes = vec![note(1, "a", 2, None, true), note(2, "b", 2, None, true), note(3, "c", 1, None, true)];
    let f = NoteFilter { keyword: None, category_id: None, status: None, is_top: None, from: None, to: None, public_only: false };
    assert_eq!(select_notes(&notes, &f), vec![0, 1, 2]);
    let ids: Vec<i32> = list_all_notes(&notes, &vec![]).iter().map(|d| d.id).collect();
    assert_eq!(ids, vec![1, 2, 3]);
}

#[test]
fn paginate_cuts_pages() {
    let rows: Vec<usize> = (0..10).collect();
    assert_eq!(paginate(&rows, 1, 4), vec![0, 1, 2, 3]);
    assert_eq!(paginate(&rows, 3, 4), vec![8, 9]);
    assert!(paginate(&rows, 4, 4).is_empty());
    assert!(paginate(&vec![], 1, 6).is_empty());
}

#[test]
fn top_notes_are_pinned_and_public() {
    let mut a = note(1, "a", 1, None, true);
    a.is_top = Some(1);
    let mut b = note(2, "b", 2, Some("draft"), false);
    b.is_top = Some(1);
    let notes = vec![a, b, note(3, "c", 3, None, true)];
    let r = get_top_notes(&notes, &vec![]);
    assert_eq!(r.len(), 1);
    assert_eq!(r[0].id, 1);
}

#[test]
fn response_row_shows_time_at_utc_plus_eight_and_defaults() {
    let mut n = note(5, "t", 1, None, true);
    n.created_at = ts(2023, 12, 31, 20, 30, 5);
    n.category_id = Some(42);
    let d = map_note(&n, &vec![category(7, "Tech")]);
    assert_eq!(d.created_at, "2024-01-01 04:30:05");
    assert_eq!(d.updated_at, "2024-03-01 18:00:00");
    assert_eq!(d.status, "published");
    assert_eq!(d.is_top, 0);
    assert_eq!(d.key, 5);
    assert_eq!(d.content, d.content_raw);
    assert_eq!(d.description, "");
    assert_eq!(d.category_id, None);
    assert_eq!(d.category_title, None);
}

#[test]
fn detail_finds_by_id() {
    let notes = vec![note(1, "a", 1, None, true), note(2, "b", 2, None, true)];
    assert_eq!(get_note_detail(&notes, &vec![], 2).unwrap().title, "b");
    assert!(get_note_detail(&notes, &vec![], 3).is_none());
}

#[test]
fn create_note_defaults() {
    let now = ts(2024, 5, 1, 12, 0, 0);
    let n = create_note(&empty_upsert(), 0, now);
    assert_eq!(n.title, "Untitled");
    assert_eq!(n.content, "");
    assert_eq!(n.status.as_deref(), Some("published"));
    assert!(n.is_public);
    assert_eq!(n.created_at, now);
    let mut req = empty_upsert();
    req.status = Some("private".to_string());
    req.is_public = Some(true);
    let n = create_note(&req, 0, now);
    assert!(!n.is_public);
}

#[test]
fn update_note_changes_only_supplied_fields() {
    let mut n = note(1, "old", 1, Some("published"), true);
    n.description = Some("desc".to_string());
    let created = n.created_at;
    let now = ts(2024, 6, 1, 0, 0, 0);
    let mut req = empty_upsert();
    req.title = Some("new".to_string());
    req.status = Some("draft".to_string());
    update_note(&mut n, &req, now);
    assert_eq!(n.title, "new");
    assert_eq!(n.content, "body of old");
    assert_eq!(n.description.as_deref(), Some("desc"));
    assert_eq!(n.status.as_deref(), Some("draft"));
    assert!(!n.is_public);
    assert_eq!(n.created_at, created);
    assert_eq!(n.updated_at, now);
}
