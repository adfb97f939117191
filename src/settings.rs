//! The settings store: a string key-value table with unique keys, the typed read
//! views projected from it, the fan-out of a settings update onto its keys, and the
//! admin credentials that an update may replace.
use vstd::prelude::*;
use vstd::string::*;
use crate::digest::{encrypt_password, hex_of, sha256_of};
use crate::text::{opt_text, text_eq};

verus! {

/// One row of the settings table.
pub struct SettingEntry {
    pub key_name: String,
    pub value: String,
}

/// The settings table. Keys are unique (see `wf`); rows have no meaningful order.
pub struct SettingsStore {
    pub entries: Vec<SettingEntry>,
}

impl SettingsStore {
    /// Row `i` holds key `k`.
    pub open spec fn has_key_at(self, k: Seq<char>, i: int) -> bool {
        0 <= i < self.entries@.len() && self.entries@[i].key_name@ == k
    }

    /// No key is held by two rows.
    pub open spec fn wf(self) -> bool {
        forall|i: int, j: int|
            0 <= i < j < self.entries@.len() ==> #[trigger] self.entries@[i].key_name@
                != #[trigger] self.entries@[j].key_name@
    }
}

impl View for SettingsStore {
    type V = Map<Seq<char>, Seq<char>>;

    /// The table as a map from key to value.
    open spec fn view(&self) -> Map<Seq<char>, Seq<char>> {
        Map::new(
            |k: Seq<char>| exists|i: int| self.has_key_at(k, i),
            |k: Seq<char>| self.entries@[choose|i: int| self.has_key_at(k, i)].value@,
        )
    }
}

/// The value a read view shows for key `k`: empty where the key is absent.
pub open spec fn setting_text(m: Map<Seq<char>, Seq<char>>, k: Seq<char>) -> Seq<char> {
    if m.contains_key(k) {
        m[k]
    } else {
        Seq::empty()
    }
}

/// The value stored under `k`, if any.
pub open spec fn setting_opt(m: Map<Seq<char>, Seq<char>>, k: Seq<char>) -> Option<Seq<char>> {
    if m.contains_key(k) {
        Some(m[k])
    } else {
        None
    }
}

proof fn lemma_view_at(s: SettingsStore, k: Seq<char>, i: int)
    requires
        s.wf(),
        s.has_key_at(k, i),
    ensures
        s@.contains_key(k),
        s@[k] == s.entries@[i].value@,
{
    let j = choose|j: int| s.has_key_at(k, j);
    assert(s.has_key_at(k, j));
    if j < i {
        assert(s.entries@[j].key_name@ != s.entries@[i].key_name@);
    } else if i < j {
        assert(s.entries@[i].key_name@ != s.entries@[j].key_name@);
    }
}

/// Two tables agree on every key where one's rows give the other's contents.
proof fn lemma_view_is(s: SettingsStore, m: Map<Seq<char>, Seq<char>>)
    requires
        s.wf(),
        forall|k: Seq<char>| (exists|i: int| s.has_key_at(k, i)) <==> #[trigger] m.contains_key(k),
        forall|k: Seq<char>, i: int| s.has_key_at(k, i) ==> m[k] == s.entries@[i].value@,
    ensures
        s@ == m,
{
    assert forall|k: Seq<char>| #[trigger] s@.contains_key(k) <==> m.contains_key(k) by {}
    assert forall|k: Seq<char>| s@.contains_key(k) implies #[trigger] s@[k] == m[k] by {
        let i = choose|i: int| s.has_key_at(k, i);
        lemma_view_at(s, k, i);
    }
    assert(s@ =~= m);
}

impl SettingsStore {
    /// An empty table.
    pub fn new() -> (r: SettingsStore)
        ensures
            r.wf(),
            r@ == Map::<Seq<char>, Seq<char>>::empty(),
    {
        let r = SettingsStore { entries: Vec::new() };
        assert(r@ =~= Map::<Seq<char>, Seq<char>>::empty());
        r
    }

    /// The row holding `key`, if any.
    fn find(&self, key: &str) -> (r: Option<usize>)
        ensures
            match r {
                Some(i) => self.has_key_at(key@, i as int),
                None => forall|i: int| !self.has_key_at(key@, i),
            },
    {
        let mut i: usize = 0;
        while i < self.entries.len()
            invariant
                i <= self.entries@.len(),
                forall|j: int| 0 <= j < i ==> !self.has_key_at(key@, j),
            decreases self.entries@.len() - i,
        {
            if text_eq(self.entries[i].key_name.as_str(), key) {
                return Some(i);
            }
            i = i + 1;
        }
        None
    }

    /// The value under `key`, or `None` where it is absent.
    pub fn get_opt(&self, key: &str) -> (r: Option<String>)
        requires
            self.wf(),
        ensures
            opt_text(r) == setting_opt(self@, key@),
    {
        match self.find(key) {
            Some(i) => {
                proof {
                    lemma_view_at(*self, key@, i as int);
                }
                Some(self.entries[i].value.clone())
            },
            None => None,
        }
    }

    /// The value under `key`, or the empty string where it is absent.
    pub fn get(&self, key: &str) -> (r: String)
        requires
            self.wf(),
        ensures
            r@ == setting_text(self@, key@),
    {
        match self.get_opt(key) {
            Some(v) => v,
            None => String::new(),
        }
    }

    /// Sets `key` to `value`: the row holding `key` is updated, or a new row added.
    pub fn upsert(&mut self, key: &str, value: &str)
        requires
            old(self).wf(),
        ensures
            final(self).wf(),
            final(self)@ == old(self)@.insert(key@, value@),
    {
        let ghost before = *self;
        let entry = SettingEntry { key_name: String::from_str(key), value: String::from_str(value) };
        match self.find(key) {
            Some(i) => {
                self.entries.set(i, entry);
                proof {
                    assert forall|a: int, b: int|
                        0 <= a < b < self.entries@.len() implies #[trigger] self.entries@[a].key_name@
                        != #[trigger] self.entries@[b].key_name@ by {
                        assert(before.entries@[a].key_name@ != before.entries@[b].key_name@);
                    }
                    let m = before@.insert(key@, value@);
                    assert forall|k: Seq<char>| (exists|j: int| self.has_key_at(k, j)) <==> #[trigger] m.contains_key(k) by {
                        if k == key@ {
                            assert(self.has_key_at(k, i as int));
                        } else if exists|j: int| before.has_key_at(k, j) {
                            let j = choose|j: int| before.has_key_at(k, j);
                            assert(self.has_key_at(k, j));
                        } else {
                            if exists|j: int| self.has_key_at(k, j) {
                                let j = choose|j: int| self.has_key_at(k, j);
                                assert(before.has_key_at(k, j));
                            }
                        }
                    }
                    assert forall|k: Seq<char>, j: int| self.has_key_at(k, j) implies m[k] == self.entries@[j].value@ by {
                        if k == key@ {
                            lemma_view_at(*self, k, i as int);
                            lemma_view_at(*self, k, j);
                        } else {
                            assert(before.has_key_at(k, j));
                            lemma_view_at(before, k, j);
                        }
                    }
                    lemma_view_is(*self, m);
                }
            },
            None => {
                self.entries.push(entry);
                proof {
                    let n = before.entries@.len() as int;
                    assert forall|a: int, b: int|
                        0 <= a < b < self.entries@.len() implies #[trigger] self.entries@[a].key_name@
                        != #[trigger] self.entries@[b].key_name@ by {
                        if b == n {
                            assert(!before.has_key_at(key@, a));
                        } else {
                            assert(before.entries@[a].key_name@ != before.entries@[b].key_name@);
                        }
                    }
                    let m = before@.insert(key@, value@);
                    assert forall|k: Seq<char>| (exists|j: int| self.has_key_at(k, j)) <==> #[trigger] m.contains_key(k) by {
                        if k == key@ {
                            assert(self.has_key_at(k, n));
                        } else if exists|j: int| before.has_key_at(k, j) {
                            let j = choose|j: int| before.has_key_at(k, j);
                            assert(self.has_key_at(k, j));
                        } else {
                            if exists|j: int| self.has_key_at(k, j) {
                                let j = choose|j: int| self.has_key_at(k, j);
                                assert(j < n);
                                assert(before.has_key_at(k, j));
                            }
                        }
                    }
                    assert forall|k: Seq<char>, j: int| self.has_key_at(k, j) implies m[k] == self.entries@[j].value@ by {
                        if k == key@ {
                            if j < n {
                                assert(before.has_key_at(key@, j));
                            }
                        } else {
                            assert(j < n);
                            assert(before.has_key_at(k, j));
                            lemma_view_at(before, k, j);
                        }
                    }
                    lemma_view_is(*self, m);
                }
            },
        }
    }
}

/// The map after writing each `(key, value)` of `w` in turn.
pub open spec fn apply_writes(
    m: Map<Seq<char>, Seq<char>>,
    w: Seq<(Seq<char>, Seq<char>)>,
) -> Map<Seq<char>, Seq<char>>
    decreases w.len(),
{
    if w.len() == 0 {
        m
    } else {
        apply_writes(m, w.drop_last()).insert(w.last().0, w.last().1)
    }
}

/// The write of an optional field to `key`: none where the field is absent.
pub open spec fn write_of(key: Seq<char>, v: Option<String>) -> Seq<(Seq<char>, Seq<char>)> {
    match v {
        Some(s) => seq![(key, s@)],
        None => Seq::empty(),
    }
}

proof fn lemma_apply_writes_append(
    m: Map<Seq<char>, Seq<char>>,
    a: Seq<(Seq<char>, Seq<char>)>,
    b: Seq<(Seq<char>, Seq<char>)>,
)
    ensures
        apply_writes(m, a + b) == apply_writes(apply_writes(m, a), b),
    decreases b.len(),
{
    if b.len() == 0 {
        assert(a + b =~= a);
    } else {
        lemma_apply_writes_append(m, a, b.drop_last());
        assert((a + b).drop_last() =~= a + b.drop_last());
    }
}

impl SettingsStore {
    /// Writes `v` under `key` where `v` is present.
    fn upsert_opt(&mut self, key: &str, v: &Option<String>)
        requires
            old(self).wf(),
        ensures
            final(self).wf(),
            final(self)@ == apply_writes(old(self)@, write_of(key@, *v)),
    {
        match v {
            Some(s) => {
                self.upsert(key, s.as_str());
                proof {
                    assert(write_of(key@, *v).drop_last() =~= Seq::<(Seq<char>, Seq<char>)>::empty());
                    assert(apply_writes(old(self)@, Seq::empty()) == old(self)@);
                }
            },
            None => {
                assert(apply_writes(old(self)@, Seq::empty()) == old(self)@);
            },
        }
    }
}

/// Row `e` holds a value that `before` does not hold under its key (a new key counts).
pub open spec fn is_changed(before: Map<Seq<char>, Seq<char>>, e: SettingEntry) -> bool {
    setting_opt(before, e.key_name@) != Some(e.value@)
}

/// The positions of the rows of `entries` that are changed from `before`, in order.
pub open spec fn changed_positions(before: Map<Seq<char>, Seq<char>>, entries: Seq<SettingEntry>) -> Seq<
    int,
>
    decreases entries.len(),
{
    if entries.len() == 0 {
        Seq::empty()
    } else if is_changed(before, entries.last()) {
        changed_positions(before, entries.drop_last()).push(entries.len() - 1)
    } else {
        changed_positions(before, entries.drop_last())
    }
}

/// The rows of `after` that must be written back to storage: those whose value is new
/// or differs from `before`, by position in `after.entries`, in order.
pub fn changed_entries(before: &SettingsStore, after: &SettingsStore) -> (r: Vec<usize>)
    requires
        before.wf(),
    ensures
        r@.len() == changed_positions(before@, after.entries@).len(),
        forall|k: int|
            0 <= k < r@.len() ==> #[trigger] r@[k] as int == changed_positions(
                before@,
                after.entries@,
            )[k],
{
    let mut out: Vec<usize> = Vec::new();
    let mut i: usize = 0;
    while i < after.entries.len()
        invariant
            before.wf(),
            i <= after.entries@.len(),
            out@.len() == changed_positions(before@, after.entries@.subrange(0, i as int)).len(),
            forall|k: int|
                0 <= k < out@.len() ==> #[trigger] out@[k] as int == changed_positions(
                    before@,
                    after.entries@.subrange(0, i as int),
                )[k],
        decreases after.entries@.len() - i,
    {
        assert(after.entries@.subrange(0, i + 1).drop_last() =~= after.entries@.subrange(
            0,
            i as int,
        ));
        let e = &after.entries[i];
        let unchanged = match before.get_opt(e.key_name.as_str()) {
            Some(v) => v == e.value,
            None => false,
        };
        if !unchanged {
            out.push(i);
        }
        i = i + 1;
    }
    assert(after.entries@.subrange(0, i as int) =~= after.entries@);
    out
}

/// The profile shown to visitors.
pub struct UserInfoResponse {
    pub avatar: String,
    pub talk: String,
    pub author: String,
    pub title: String,
    pub icp: String,
}

/// Social links.
pub struct SocialInfo {
    pub github: String,
    pub qq: String,
    pub wechat: String,
    pub bilibili: String,
    pub email: String,
    pub netease: String,
}

/// All site settings, as read by the admin and as sent in an update; in an update an
/// absent field is left alone.
pub struct WebSettingPayload {
    pub blog_title: Option<String>,
    pub blog_author: Option<String>,
    pub blog_domain: Option<String>,
    pub blog_description: Option<String>,
    pub blog_icp: Option<String>,
    pub user_account: Option<String>,
    pub user_password: Option<String>,
    pub user_avatar: Option<String>,
    pub user_talk: Option<String>,
    pub social_github: Option<String>,
    pub social_email: Option<String>,
    pub social_bilibili: Option<String>,
    pub social_qq: Option<String>,
    pub social_netease_cloud: Option<String>,
    pub openai_token: Option<String>,
    pub netease_cookies: Option<String>,
    pub github_token: Option<String>,
}

/// The profile view: each field reads one key, empty where absent.
pub fn get_user_info(store: &SettingsStore) -> (r: UserInfoResponse)
    requires
        store.wf(),
    ensures
        r.avatar@ == setting_text(store@, "avatar"@),
        r.talk@ == setting_text(store@, "talk"@),
        r.author@ == setting_text(store@, "author"@),
        r.title@ == setting_text(store@, "blog_title"@),
        r.icp@ == setting_text(store@, "icp"@),
{
    UserInfoResponse {
        avatar: store.get("avatar"),
        talk: store.get("talk"),
        author: store.get("author"),
        title: store.get("blog_title"),
        icp: store.get("icp"),
    }
}

/// The social view: each field reads one key (the short, older key names), empty
/// where absent.
pub fn get_social_info(store: &SettingsStore) -> (r: SocialInfo)
    requires
        store.wf(),
    ensures
        r.github@ == setting_text(store@, "github"@),
        r.qq@ == setting_text(store@, "qq"@),
        r.wechat@ == setting_text(store@, "wechat"@),
        r.bilibili@ == setting_text(store@, "bilibili"@),
        r.email@ == setting_text(store@, "email"@),
        r.netease@ == setting_text(store@, "socialNeteaseCloud"@),
{
    SocialInfo {
        github: store.get("github"),
        qq: store.get("qq"),
        wechat: store.get("wechat"),
        bilibili: store.get("bilibili"),
        email: store.get("email"),
        netease: store.get("socialNeteaseCloud"),
    }
}

/// `r` is the admin settings view of the table: each field reads its key, empty where
/// the key is absent; the credentials are never shown and read as empty.
pub open spec fn is_web_settings_view(m: Map<Seq<char>, Seq<char>>, r: WebSettingPayload) -> bool {
    &&& opt_text(r.blog_title) == Some(setting_text(m, "blog_title"@))
    &&& opt_text(r.blog_author) == Some(setting_text(m, "author"@))
    &&& opt_text(r.blog_domain) == Some(setting_text(m, "blogDomain"@))
    &&& opt_text(r.blog_description) == Some(setting_text(m, "blogDescription"@))
    &&& opt_text(r.blog_icp) == Some(setting_text(m, "icp"@))
    &&& opt_text(r.user_account) == Some(Seq::<char>::empty())
    &&& opt_text(r.user_password) == Some(Seq::<char>::empty())
    &&& opt_text(r.user_avatar) == Some(setting_text(m, "avatar"@))
    &&& opt_text(r.user_talk) == Some(setting_text(m, "talk"@))
    &&& opt_text(r.social_github) == Some(setting_text(m, "socialGithub"@))
    &&& opt_text(r.social_email) == Some(setting_text(m, "socialEmail"@))
    &&& opt_text(r.social_bilibili) == Some(setting_text(m, "socialBilibili"@))
    &&& opt_text(r.social_qq) == Some(setting_text(m, "socialQQ"@))
    &&& opt_text(r.social_netease_cloud) == Some(setting_text(m, "socialNeteaseCloud"@))
    &&& opt_text(r.openai_token) == Some(setting_text(m, "openAiToken"@))
    &&& opt_text(r.netease_cookies) == Some(setting_text(m, "neteaseCookies"@))
    &&& opt_text(r.github_token) == Some(setting_text(m, "githubToken"@))
}

/// The admin settings view.
pub fn get_web_settings(store: &SettingsStore) -> (r: WebSettingPayload)
    requires
        store.wf(),
    ensures
        is_web_settings_view(store@, r),
{
    WebSettingPayload {
        blog_title: Some(store.get("blog_title")),
        blog_author: Some(store.get("author")),
        blog_domain: Some(store.get("blogDomain")),
        blog_description: Some(store.get("blogDescription")),
        blog_icp: Some(store.get("icp")),
        user_account: Some(String::new()),
        user_password: Some(String::new()),
        user_avatar: Some(store.get("avatar")),
        user_talk: Some(store.get("talk")),
        social_github: Some(store.get("socialGithub")),
        social_email: Some(store.get("socialEmail")),
        social_bilibili: Some(store.get("socialBilibili")),
        social_qq: Some(store.get("socialQQ")),
        social_netease_cloud: Some(store.get("socialNeteaseCloud")),
        openai_token: Some(store.get("openAiToken")),
        netease_cookies: Some(store.get("neteaseCookies")),
        github_token: Some(store.get("githubToken")),
    }
}

/// The writes a settings update makes, field by field. Four social links are also
/// written under their older short key, which the social view reads. The credentials
/// are not among them.
pub open spec fn setting_writes(p: WebSettingPayload) -> Seq<(Seq<char>, Seq<char>)> {
    write_of("blog_title"@, p.blog_title) + write_of("author"@, p.blog_author) + write_of(
        "icp"@,
        p.blog_icp,
    ) + write_of("avatar"@, p.user_avatar) + write_of("talk"@, p.user_talk) + write_of(
        "blogDomain"@,
        p.blog_domain,
    ) + write_of("blogDescription"@, p.blog_description) + write_of(
        "socialGithub"@,
        p.social_github,
    ) + write_of("github"@, p.social_github) + write_of("socialEmail"@, p.social_email)
        + write_of("email"@, p.social_email) + write_of("socialBilibili"@, p.social_bilibili)
        + write_of("bilibili"@, p.social_bilibili) + write_of("socialQQ"@, p.social_qq) + write_of(
        "qq"@,
        p.social_qq,
    ) + write_of("socialNeteaseCloud"@, p.social_netease_cloud) + write_of(
        "openAiToken"@,
        p.openai_token,
    ) + write_of("neteaseCookies"@, p.netease_cookies) + write_of("githubToken"@, p.github_token)
}

/// The singleton admin user (row id 1), whose credentials are stored hashed.
pub struct AdminUser {
    pub id: i32,
    pub username: String,
    pub password: String,
}

/// The update carries both credentials, both non-empty.
pub open spec fn credentials_supplied(p: WebSettingPayload) -> bool {
    (p.user_account matches Some(a) && a@.len() > 0) && (p.user_password matches Some(w)
        && w@.len() > 0)
}

/// The admin's `(username, password)` after an update: both replaced by their hashes
/// where the update supplies both, else unchanged.
pub open spec fn credentials_after(old: (Seq<char>, Seq<char>), p: WebSettingPayload) -> (
    Seq<char>,
    Seq<char>,
) {
    if credentials_supplied(p) {
        (
            hex_of(sha256_of(p.user_account->Some_0@)),
            hex_of(sha256_of(p.user_password->Some_0@)),
        )
    } else {
        old
    }
}

/// Replaces the admin's credentials with the hashes of those the update supplies,
/// where it supplies both non-empty. Returns whether it did.
pub fn update_admin_credentials(admin: &mut AdminUser, p: &WebSettingPayload) -> (changed: bool)
    ensures
        changed == credentials_supplied(*p),
        (final(admin).username@, final(admin).password@) == credentials_after(
            (old(admin).username@, old(admin).password@),
            *p,
        ),
        final(admin).id == old(admin).id,
{
    match (&p.user_account, &p.user_password) {
        (Some(acc), Some(pass)) => {
            if !acc.as_str().is_empty() && !pass.as_str().is_empty() {
                admin.username = encrypt_password(acc.as_str());
                admin.password = encrypt_password(pass.as_str());
                true
            } else {
                false
            }
        },
        _ => false,
    }
}

/// Applies a settings update: the admin's credentials (where the admin exists and
/// both are supplied non-empty) and every supplied field to its keys.
pub fn update_web_info(
    store: &mut SettingsStore,
    admin: &mut Option<AdminUser>,
    p: &WebSettingPayload,
)
    requires
        old(store).wf(),
    ensures
        final(store).wf(),
        final(store)@ == apply_writes(old(store)@, setting_writes(*p)),
        match *old(admin) {
            Some(u) => *final(admin) matches Some(v) && v.id == u.id && (v.username@, v.password@)
                == credentials_after((u.username@, u.password@), *p),
            None => *final(admin) is None,
        },
{
    match admin {
        Some(u) => {
            update_admin_credentials(u, p);
        },
        None => {},
    }
    let ghost m0 = store@;
    let ghost w: Seq<(Seq<char>, Seq<char>)> = Seq::empty();
    store.upsert_opt("blog_title", &p.blog_title);
    proof {
        lemma_apply_writes_append(m0, w, write_of("blog_title"@, p.blog_title));
        w = w + write_of("blog_title"@, p.blog_title);
    }
    store.upsert_opt("author", &p.blog_author);
    proof {
        lemma_apply_writes_append(m0, w, write_of("author"@, p.blog_author));
        w = w + write_of("author"@, p.blog_author);
    }
    store.upsert_opt("icp", &p.blog_icp);
    proof {
        lemma_apply_writes_append(m0, w, write_of("icp"@, p.blog_icp));
        w = w + write_of("icp"@, p.blog_icp);
    }
    store.upsert_opt("avatar", &p.user_avatar);
    proof {
        lemma_apply_writes_append(m0, w, write_of("avatar"@, p.user_avatar));
        w = w + write_of("avatar"@, p.user_avatar);
    }
    store.upsert_opt("talk", &p.user_talk);
    proof {
        lemma_apply_writes_append(m0, w, write_of("talk"@, p.user_talk));
        w = w + write_of("talk"@, p.user_talk);
    }
    store.upsert_opt("blogDomain", &p.blog_domain);
    proof {
        lemma_apply_writes_append(m0, w, write_of("blogDomain"@, p.blog_domain));
        w = w + write_of("blogDomain"@, p.blog_domain);
    }
    store.upsert_opt("blogDescription", &p.blog_description);
    proof {
        lemma_apply_writes_append(m0, w, write_of("blogDescription"@, p.blog_description));
        w = w + write_of("blogDescription"@, p.blog_description);
    }
    store.upsert_opt("socialGithub", &p.social_github);
    proof {
        lemma_apply_writes_append(m0, w, write_of("socialGithub"@, p.social_github));
        w = w + write_of("socialGithub"@, p.social_github);
    }
    store.upsert_opt("github", &p.social_github);
    proof {
        lemma_apply_writes_append(m0, w, write_of("github"@, p.social_github));
        w = w + write_of("github"@, p.social_github);
    }
    store.upsert_opt("socialEmail", &p.social_email);
    proof {
        lemma_apply_writes_append(m0, w, write_of("socialEmail"@, p.social_email));
        w = w + write_of("socialEmail"@, p.social_email);
    }
    store.upsert_opt("email", &p.social_email);
    proof {
        lemma_apply_writes_append(m0, w, write_of("email"@, p.social_email));
        w = w + write_of("email"@, p.social_email);
    }
    store.upsert_opt("socialBilibili", &p.social_bilibili);
    proof {
        lemma_apply_writes_append(m0, w, write_of("socialBilibili"@, p.social_bilibili));
        w = w + write_of("socialBilibili"@, p.social_bilibili);
    }
    store.upsert_opt("bilibili", &p.social_bilibili);
    proof {
        lemma_apply_writes_append(m0, w, write_of("bilibili"@, p.social_bilibili));
        w = w + write_of("bilibili"@, p.social_bilibili);
    }
    store.upsert_opt("socialQQ", &p.social_qq);
    proof {
        lemma_apply_writes_append(m0, w, write_of("socialQQ"@, p.social_qq));
        w = w + write_of("socialQQ"@, p.social_qq);
    }
    store.upsert_opt("qq", &p.social_qq);
    proof {
        lemma_apply_writes_append(m0, w, write_of("qq"@, p.social_qq));
        w = w + write_of("qq"@, p.social_qq);
    }
    store.upsert_opt("socialNeteaseCloud", &p.social_netease_cloud);
    proof {
        lemma_apply_writes_append(m0, w, write_of("socialNeteaseCloud"@, p.social_netease_cloud));
        w = w + write_of("socialNeteaseCloud"@, p.social_netease_cloud);
    }
    store.upsert_opt("openAiToken", &p.openai_token);
    proof {
        lemma_apply_writes_append(m0, w, write_of("openAiToken"@, p.openai_token));
        w = w + write_of("openAiToken"@, p.openai_token);
    }
    store.upsert_opt("neteaseCookies", &p.netease_cookies);
    proof {
        lemma_apply_writes_append(m0, w, write_of("neteaseCookies"@, p.netease_cookies));
        w = w + write_of("neteaseCookies"@, p.netease_cookies);
    }
    store.upsert_opt("githubToken", &p.github_token);
    proof {
        lemma_apply_writes_append(m0, w, write_of("githubToken"@, p.github_token));
        w = w + write_of("githubToken"@, p.github_token);
        assert(w =~= setting_writes(*p));
    }
}

/// The writes a social-links update makes: every link, under its short key.
pub open spec fn social_writes(info: SocialInfo) -> Seq<(Seq<char>, Seq<char>)> {
    seq![
        ("github"@, info.github@),
        ("qq"@, info.qq@),
        ("wechat"@, info.wechat@),
        ("bilibili"@, info.bilibili@),
        ("email"@, info.email@),
        ("socialNeteaseCloud"@, info.netease@),
    ]
}

impl SettingsStore {
    /// Writes `value` under `key`, one step of a sequence of writes.
    fn upsert_step(
        &mut self,
        key: &str,
        value: &str,
        Ghost(m0): Ghost<Map<Seq<char>, Seq<char>>>,
        Ghost(w): Ghost<Seq<(Seq<char>, Seq<char>)>>,
    )
        requires
            old(self).wf(),
            old(self)@ == apply_writes(m0, w),
        ensures
            final(self).wf(),
            final(self)@ == apply_writes(m0, w.push((key@, value@))),
    {
        self.upsert(key, value);
        assert(w.push((key@, value@)).drop_last() =~= w);
    }
}

/// Stores every social link under its short key.
pub fn update_social_info(store: &mut SettingsStore, info: &SocialInfo)
    requires
        old(store).wf(),
    ensures
        final(store).wf(),
        final(store)@ == apply_writes(old(store)@, social_writes(*info)),
{
    let ghost m0 = store@;
    let ghost mut w: Seq<(Seq<char>, Seq<char>)> = Seq::empty();
    assert(apply_writes(m0, w) == m0);
    store.upsert_step("github", info.github.as_str(), Ghost(m0), Ghost(w));
    proof {
        w = w.push(("github"@, info.github@));
    }
    store.upsert_step("qq", info.qq.as_str(), Ghost(m0), Ghost(w));
    proof {
        w = w.push(("qq"@, info.qq@));
    }
    store.upsert_step("wechat", info.wechat.as_str(), Ghost(m0), Ghost(w));
    proof {
        w = w.push(("wechat"@, info.wechat@));
    }
    store.upsert_step("bilibili", info.bilibili.as_str(), Ghost(m0), Ghost(w));
    proof {
        w = w.push(("bilibili"@, info.bilibili@));
    }
    store.upsert_step("email", info.email.as_str(), Ghost(m0), Ghost(w));
    proof {
        w = w.push(("email"@, info.email@));
    }
    store.upsert_step("socialNeteaseCloud", info.netease.as_str(), Ghost(m0), Ghost(w));
    proof {
        w = w.push(("socialNeteaseCloud"@, info.netease@));
        assert(w =~= social_writes(*info));
    }
}

/// After `upsert(key, value)`, `get(key)` reads `value`.
pub proof fn lemma_get_after_upsert(
    before: Map<Seq<char>, Seq<char>>,
    after: Map<Seq<char>, Seq<char>>,
    key: Seq<char>,
    value: Seq<char>,
)
    requires
        after == before.insert(key, value),
    ensures
        setting_text(after, key) == value,
{
}

/// A read-view field whose key is absent reads as the empty string.
pub proof fn lemma_absent_key_reads_empty(m: Map<Seq<char>, Seq<char>>, key: Seq<char>)
    requires
        !m.contains_key(key),
    ensures
        setting_text(m, key) == Seq::<char>::empty(),
{
}

/// The update with its credentials taken out.
pub open spec fn without_credentials(p: WebSettingPayload) -> WebSettingPayload {
    WebSettingPayload {
        blog_title: p.blog_title,
        blog_author: p.blog_author,
        blog_domain: p.blog_domain,
        blog_description: p.blog_description,
        blog_icp: p.blog_icp,
        user_account: None,
        user_password: None,
        user_avatar: p.user_avatar,
        user_talk: p.user_talk,
        social_github: p.social_github,
        social_email: p.social_email,
        social_bilibili: p.social_bilibili,
        social_qq: p.social_qq,
        social_netease_cloud: p.social_netease_cloud,
        openai_token: p.openai_token,
        netease_cookies: p.netease_cookies,
        github_token: p.github_token,
    }
}

/// An update that supplies both credentials, non-empty, stores their hashes as the
/// admin's credentials, writes nothing of them to the settings table, and the
/// settings view read afterwards shows the account as empty.
pub proof fn lemma_credentials_stored_hashed_and_hidden(
    old_credentials: (Seq<char>, Seq<char>),
    p: WebSettingPayload,
    after: Map<Seq<char>, Seq<char>>,
    view: WebSettingPayload,
)
    requires
        credentials_supplied(p),
        is_web_settings_view(after, view),
    ensures
        credentials_after(old_credentials, p) == (
            hex_of(sha256_of(p.user_account->Some_0@)),
            hex_of(sha256_of(p.user_password->Some_0@)),
        ),
        setting_writes(p) == setting_writes(without_credentials(p)),
        opt_text(view.user_account) == Some(Seq::<char>::empty()),
        opt_text(view.user_password) == Some(Seq::<char>::empty()),
{
}

} // verus!
