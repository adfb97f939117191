use memory_blog::auth::{is_authorized, login, session_token, LoginRequest};
use memory_blog::catalog::{
    list_categories, list_tags_one, list_tags_two, new_category, update_category, CategoryRow,
    CreateCategoryRequest, TagOneRow, TagTwoRow,
};
use memory_blog::digest::encrypt_password;
use memory_blog::friends::{
    friend_keys_to_delete, list_friends, list_public_friends, new_friend, update_friend, FriendKey,
    FriendRow, UpsertFriend,
};
use memory_blog::note::{NoteRow, Timestamp};
use memory_blog::response::ApiResponse;
use memory_blog::settings::{
    changed_entries, get_social_info, get_user_info, get_web_settings, update_admin_credentials, update_social_info,
    update_web_info, AdminUser, SettingsStore, SocialInfo, WebSettingPayload,
};
use memory_blog::catalog::{new_tag_one, new_tag_two, UpsertTagOne, UpsertTagTwo};
use memory_blog::talks::{list_talks, new_talk, update_talk, TalkRow, UpsertTalk};
use memory_blog::upload::{download_url, file_name_in_url, stored_file_name};

const HASH_A: &str = "ca978112ca1bbdcafac231b39a23dc4da786eff8147c4e72b9807785afee48bb";
const HASH_P: &str = "148de9c5a7a44d19e56cd9ae1a554bf67847afb0c58f6e12fa29ac7ddfca9940";

fn empty_payload() -> WebSettingPayload {
    WebSettingPayload {
        blog_title: None,
        blog_author: None,
        blog_domain: None,
        blog_description: None,
        blog_icp: None,
        user_account: None,
        user_password: None,
        user_avatar: None,
        user_talk: None,
        social_github: None,
        social_email: None,
        social_bilibili: None,
        social_qq: None,
        social_netease_cloud: None,
        openai_token: None,
        netease_cookies: None,
        github_token: None,
    }
}

fn ts(day: u32) -> Timestamp {
    Timestamp { year: 2024, month: 1, day, hour: 9, minute: 15, second: 0 }
}

#[test]
fn envelope_success_and_error() {
    let ok = ApiResponse::success(5u32);
    assert_eq!(ok.code, 200);
    assert_eq!(ok.message, "ok");
    assert_eq!(ok.data, 5);
    let err: ApiResponse<String> = ApiResponse::error("boom");
    assert_eq!(err.code, 500);
    assert_eq!(err.message, "boom");
    assert_eq!(err.data, "");
}

#[test]
fn upsert_then_get() {
    let mut s = SettingsStore::new();
    s.upsert("author", "Alice");
    assert_eq!(s.get("author"), "Alice");
    s.upsert("author", "Bob");
    assert_eq!(s.get("author"), "Bob");
    assert_eq!(s.entries.len(), 1);
    assert_eq!(s.get("missing"), "");
    assert_eq!(s.get_opt("missing"), None);
}

#[test]
fn read_views_default_absent_keys_to_empty() {
    let mut s = SettingsStore::new();
    s.upsert("author", "Alice");
    s.upsert("blog_title", "My Blog");
    let u = get_user_info(&s);
    assert_eq!(u.author, "Alice");
    assert_eq!(u.title, "My Blog");
    assert_eq!(u.avatar, "");
    assert_eq!(u.icp, "");
    let w = get_web_settings(&s);
    assert_eq!(w.blog_author.as_deref(), Some("Alice"));
    assert_eq!(w.blog_domain.as_deref(), Some(""));
    assert_eq!(w.user_account.as_deref(), Some(""));
}

#[test]
fn settings_update_fans_social_links_out() {
    let mut s = SettingsStore::new();
    let mut admin = None;
    let mut p = empty_payload();
    p.social_github = Some("gh".to_string());
    p.blog_author = Some("Alice".to_string());
    update_web_info(&mut s, &mut admin, &p);
    assert_eq!(s.get("socialGithub"), "gh");
    assert_eq!(s.get("github"), "gh");
    assert_eq!(s.get("author"), "Alice");
    assert_eq!(get_social_info(&s).github, "gh");
    assert_eq!(s.entries.len(), 3);
}

#[test]
fn credentials_are_hashed_and_never_shown() {
    let mut s = SettingsStore::new();
    let mut admin = Some(AdminUser { id: 1, username: "x".to_string(), password: "y".to_string() });
    let mut p = empty_payload();
    p.user_account = Some("a".to_string());
    p.user_password = Some("p".to_string());
    update_web_info(&mut s, &mut admin, &p);
    let u = admin.unwrap();
    assert_eq!(u.username, HASH_A);
    assert_eq!(u.password, HASH_P);
    assert!(s.entries.is_empty());
    let w = get_web_settings(&s);
    assert_eq!(w.user_account.as_deref(), Some(""));
    assert_eq!(w.user_password.as_deref(), Some(""));
}

#[test]
fn credentials_need_both_non_empty() {
    let mut u = AdminUser { id: 1, username: "x".to_string(), password: "y".to_string() };
    let mut p = empty_payload();
    p.user_account = Some("a".to_string());
    p.user_password = Some(String::new());
    assert!(!update_admin_credentials(&mut u, &p));
    assert_eq!(u.username, "x");
    p.user_password = None;
    assert!(!update_admin_credentials(&mut u, &p));
}

#[test]
fn social_update_writes_short_keys() {
    let mut s = SettingsStore::new();
    let info = SocialInfo {
        github: "g".to_string(),
        qq: "q".to_string(),
        wechat: "w".to_string(),
        bilibili: "b".to_string(),
        email: "e".to_string(),
        netease: "n".to_string(),
    };
    update_social_info(&mut s, &info);
    let r = get_social_info(&s);
    assert_eq!(r.wechat, "w");
    assert_eq!(r.netease, "n");
    assert_eq!(s.get("socialNeteaseCloud"), "n");
}

#[test]
fn password_hash_is_sha256_hex() {
    assert_eq!(encrypt_password("a"), HASH_A);
    assert_eq!(
        encrypt_password("admin"),
        "8c6976e5b5410415bde908bd4dee15dfb167a9c873fc4bb8a81f6f2ab448a918"
    );
}

#[test]
fn login_checks_hashes() {
    let users = vec![AdminUser { id: 3, username: HASH_A.to_string(), password: HASH_P.to_string() }];
    let ok = login(&users, &LoginRequest { username: "a".to_string(), password: "p".to_string() });
    assert_eq!(ok.code, 200);
    assert_eq!(ok.data, "mock-token-for-3");
    let bad = login(&users, &LoginRequest { username: "a".to_string(), password: "x".to_string() });
    assert_eq!(bad.code, 500);
    assert_eq!(bad.message, "账号或密码错误");
    assert_eq!(session_token(-12), "mock-token-for--12");
}

#[test]
fn token_gate() {
    assert!(is_authorized(&Some("mock-token-for-1".to_string())));
    assert!(!is_authorized(&Some("Bearer x".to_string())));
    assert!(!is_authorized(&None));
}

fn note_in(id: i32, category_id: Option<i32>) -> NoteRow {
    NoteRow {
        id,
        title: String::new(),
        content: String::new(),
        description: None,
        cover: None,
        is_top: None,
        status: None,
        created_at: ts(1),
        updated_at: ts(1),
        is_public: true,
        tags: None,
        category_id,
    }
}

#[test]
fn categories_count_their_notes() {
    let cats = vec![
        CategoryRow { id: 1, name: "A".to_string(), introduce: None, path_name: Some("a".to_string()), icon: None, color: None },
        CategoryRow { id: 2, name: "B".to_string(), introduce: None, path_name: None, icon: None, color: None },
    ];
    let notes = vec![note_in(1, Some(1)), note_in(2, Some(1)), note_in(3, None)];
    let r = list_categories(&cats, &notes);
    assert_eq!(r.len(), 2);
    assert_eq!(r[0].note_count, 2);
    assert_eq!(r[0].path_name, "a");
    assert_eq!(r[1].note_count, 0);
    assert_eq!(r[1].path_name, "");
}

#[test]
fn category_create_and_update() {
    let req = CreateCategoryRequest { category_title: None, path_name: None, introduce: None, icon: None, color: Some("red".to_string()) };
    let mut c = new_category(&req, 4);
    assert_eq!(c.name, "New Category");
    assert_eq!(c.color.as_deref(), Some("red"));
    let upd = CreateCategoryRequest {
        category_title: Some("Tech".to_string()),
        path_name: Some(String::new()),
        introduce: None,
        icon: Some("i".to_string()),
        color: Some(String::new()),
    };
    update_category(&mut c, &upd);
    assert_eq!(c.name, "Tech");
    assert_eq!(c.path_name, None);
    assert_eq!(c.icon.as_deref(), Some("i"));
    assert_eq!(c.color.as_deref(), Some("red"));
}

#[test]
fn tag_two_gets_parent_name_or_empty() {
    let parents = vec![TagOneRow { id: 1, name: "Lang".to_string(), color: None }];
    let tags = vec![
        TagTwoRow { id: 10, name: "Rust".to_string(), color: Some("o".to_string()), tag_one_id: Some(1) },
        TagTwoRow { id: 11, name: "Orphan".to_string(), color: None, tag_one_id: None },
        TagTwoRow { id: 12, name: "Gone".to_string(), color: None, tag_one_id: Some(9) },
    ];
    let r = list_tags_two(&tags, &parents);
    assert_eq!(r.len(), 3);
    assert_eq!(r[0].father_tag, "Lang");
    assert_eq!(r[0].level, 2);
    assert_eq!(r[1].father_tag, "");
    assert_eq!(r[2].father_tag, "");
    let ones = list_tags_one(&parents);
    assert_eq!(ones[0].level, 1);
    assert_eq!(ones[0].color, "");
}

fn friend(id: i32, status: Option<i32>) -> FriendRow {
    FriendRow { id, name: "n".to_string(), link: "l".to_string(), avatar: None, description: None, status }
}

#[test]
fn public_friends_are_approved_ones() {
    let rows = vec![friend(1, Some(1)), friend(2, Some(0)), friend(3, None), friend(4, Some(1))];
    let ids: Vec<i32> = list_public_friends(&rows).iter().map(|f| f.id).collect();
    assert_eq!(ids, vec![1, 4]);
    let all = list_friends(&rows);
    assert_eq!(all.len(), 4);
    assert_eq!(all[2].status, 0);
}

#[test]
fn friend_status_defaults() {
    let req = UpsertFriend { name: "n".to_string(), url: "u".to_string(), avatar: "a".to_string(), description: "d".to_string(), status: None };
    let mut f = new_friend(&req, 1);
    assert_eq!(f.status, Some(0));
    update_friend(&mut f, &req);
    assert_eq!(f.status, Some(1));
    assert_eq!(f.link, "u");
}

#[test]
fn delete_keys_from_numbers_and_text() {
    let keys = vec![
        FriendKey::Number(5),
        FriendKey::Text("12".to_string()),
        FriendKey::Text("x1".to_string()),
        FriendKey::Text("-3".to_string()),
        FriendKey::Other,
        FriendKey::Number(4294967297),
    ];
    assert_eq!(friend_keys_to_delete(&keys), Some(vec![5, 12, -3, 1]));
    assert_eq!(friend_keys_to_delete(&vec![FriendKey::Text("abc".to_string())]), None);
    assert_eq!(friend_keys_to_delete(&vec![]), None);
}

#[test]
fn talks_newest_first_shown_as_stored() {
    let rows = vec![
        TalkRow { id: 1, title: None, content: "c1".to_string(), created_at: ts(1), updated_at: ts(1) },
        TalkRow { id: 2, title: Some("t".to_string()), content: "c2".to_string(), created_at: ts(2), updated_at: ts(2) },
    ];
    let r = list_talks(&rows);
    assert_eq!(r[0].id, 2);
    assert_eq!(r[0].created_at, "2024-01-02 09:15:00");
    assert_eq!(r[1].title, "");
}

#[test]
fn talk_create_and_update() {
    let req = UpsertTalk { title: "t".to_string(), content: "c".to_string() };
    let mut t = new_talk(&req, 1, ts(1));
    assert_eq!(t.title.as_deref(), Some("t"));
    let req2 = UpsertTalk { title: "t2".to_string(), content: "c2".to_string() };
    update_talk(&mut t, &req2, ts(3));
    assert_eq!(t.content, "c2");
    assert_eq!(t.created_at, ts(1));
    assert_eq!(t.updated_at, ts(3));
}

#[test]
fn upload_names_and_urls() {
    assert_eq!(stored_file_name("20240101120000", "cat.png"), "20240101120000_cat.png");
    assert_eq!(download_url("x.png"), "/api/protect/download/x.png");
    assert_eq!(file_name_in_url("/api/protect/download/x.png").as_deref(), Some("x.png"));
    assert_eq!(file_name_in_url("/old/upload/a.png").as_deref(), Some("a.png"));
    assert_eq!(file_name_in_url("/a/upload/b/upload/c").as_deref(), Some("b"));
    assert_eq!(file_name_in_url("/upload/").as_deref(), Some(""));
    assert_eq!(file_name_in_url("/static/x.png"), None);
}

#[test]
fn tag_builders() {
    let one = new_tag_one(&UpsertTagOne { title: "Lang".to_string(), color: "blue".to_string() }, 1);
    assert_eq!(one.name, "Lang");
    assert_eq!(one.color.as_deref(), Some("blue"));
    let two = new_tag_two(&UpsertTagTwo { title: "Rust".to_string(), color: "o".to_string(), father_id: 1 }, 2);
    assert_eq!(two.tag_one_id, Some(1));
    assert_eq!(two.name, "Rust");
}

#[test]
fn changed_entries_are_new_or_different() {
    let mut before = SettingsStore::new();
    before.upsert("author", "Alice");
    before.upsert("icp", "X");
    let mut after = SettingsStore::new();
    after.upsert("author", "Alice");
    after.upsert("icp", "Y");
    after.upsert("talk", "hi");
    assert_eq!(changed_entries(&before, &after), vec![1, 2]);
    assert!(changed_entries(&after, &after).is_empty());
}

#[test]
fn session_tokens_in_decimal() {
    assert_eq!(session_token(0), "mock-token-for-0");
    assert_eq!(session_token(1907), "mock-token-for-1907");
    assert_eq!(session_token(i32::MAX), "mock-token-for-2147483647");
    assert_eq!(session_token(i32::MIN), "mock-token-for--2147483648");
}
