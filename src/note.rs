//! Notes: the stored row, calendar timestamps, and the visibility resolver that
//! keeps `status` and `is_public` consistent on every create and update.
use vstd::prelude::*;
use vstd::string::*;
use crate::clock::{CHRONO_MAX_YEAR, CHRONO_MIN_YEAR};
use crate::text::{opt_text, text_eq};

verus! {

/// Earliest calendar year accepted for a timestamp.
pub const MIN_TS_YEAR: i32 = -262142;

/// Latest calendar year accepted for a timestamp.
pub const MAX_TS_YEAR: i32 = 262141;

/// A calendar date and time of day (no time zone), as stored with a note.
#[derive(Clone, Copy, Debug, PartialEq, Eq, Structural)]
pub struct Timestamp {
    pub year: i32,
    pub month: u32,
    pub day: u32,
    pub hour: u32,
    pub minute: u32,
    pub second: u32,
}

pub open spec fn is_leap_year(y: int) -> bool {
    (y % 4 == 0 && y % 100 != 0) || y % 400 == 0
}

pub open spec fn days_in_month(y: int, m: int) -> int {
    if m == 2 {
        if is_leap_year(y) { 29 } else { 28 }
    } else if m == 4 || m == 6 || m == 9 || m == 11 {
        30
    } else {
        31
    }
}

/// A valid calendar day within the supported range of years.
pub open spec fn valid_day(y: int, m: int, d: int) -> bool {
    MIN_TS_YEAR <= y <= MAX_TS_YEAR && 1 <= m <= 12 && 1 <= d <= days_in_month(y, m)
}

impl Timestamp {
    /// A real calendar date and a time of day within `00:00:00 ..= 23:59:59`.
    pub open spec fn wf(self) -> bool {
        valid_day(self.year as int, self.month as int, self.day as int) && self.hour < 24
            && self.minute < 60 && self.second < 60
    }

    /// A number that orders timestamps chronologically (for well-formed ones).
    pub open spec fn order_key(self) -> int {
        moment_key(
            self.year as int,
            self.month as int,
            self.day as int,
            self.hour as int,
            self.minute as int,
            self.second as int,
        )
    }

    /// Computes `order_key`.
    pub fn key(&self) -> (r: i64)
        requires
            self.wf(),
        ensures
            r as int == self.order_key(),
    {
        moment_key_of(self.year, self.month, self.day, self.hour, self.minute, self.second)
    }
}

/// A number for a date and time of day that orders them chronologically, given a
/// month of at most 12 (under 16), a day of at most 31 (under 32), and a time of day
/// within `00:00:00 ..= 23:59:59`.
pub open spec fn moment_key(y: int, mo: int, d: int, h: int, mi: int, s: int) -> int {
    ((((y * 16 + mo) * 32 + d) * 24 + h) * 60 + mi) * 60 + s
}

/// Computes `moment_key` for any year chrono's dates can hold.
pub fn moment_key_of(y: i32, mo: u32, d: u32, h: u32, mi: u32, s: u32) -> (r: i64)
    requires
        CHRONO_MIN_YEAR <= y <= CHRONO_MAX_YEAR,
        mo <= 12,
        d <= 31,
        h < 24,
        mi < 60,
        s < 60,
    ensures
        r as int == moment_key(y as int, mo as int, d as int, h as int, mi as int, s as int),
{
    let y = y as i64;
    assert(-262143 * 16 * 32 * 24 * 60 * 60 <= y * 16 * 32 * 24 * 60 * 60 <= 262142 * 16 * 32
        * 24 * 60 * 60) by (nonlinear_arith)
        requires
            -262143 <= y <= 262142,
    ;
    ((((y * 16 + mo as i64) * 32 + d as i64) * 24 + h as i64) * 60 + mi as i64) * 60 + s as i64
}

/// A stored note.
#[derive(Debug)]
pub struct NoteRow {
    pub id: i32,
    pub title: String,
    pub content: String,
    pub description: Option<String>,
    pub cover: Option<String>,
    pub is_top: Option<i32>,
    pub status: Option<String>,
    pub created_at: Timestamp,
    pub updated_at: Timestamp,
    pub is_public: bool,
    pub tags: Option<String>,
    pub category_id: Option<i32>,
}

impl NoteRow {
    pub open spec fn wf(self) -> bool {
        self.created_at.wf() && self.updated_at.wf()
    }

    /// The status the note has, `"published"` when none is stored.
    pub open spec fn effective_status(self) -> Seq<char> {
        effective_status(opt_text(self.status))
    }
}

/// The status a note has when none is stored or supplied.
pub open spec fn default_status() -> Seq<char> {
    "published"@
}

pub open spec fn effective_status(s: Option<Seq<char>>) -> Seq<char> {
    match s {
        Some(v) => v,
        None => default_status(),
    }
}

/// Statuses that keep a note out of public view.
pub open spec fn is_hidden_status(s: Seq<char>) -> bool {
    s == "draft"@ || s == "private"@
}

/// The visible state of a note: its stored status and its public flag.
pub struct Visibility {
    pub status: Option<Seq<char>>,
    pub is_public: bool,
}

/// The resolver's rules: a supplied status replaces the old one; a hidden effective
/// status forces the note private; otherwise a supplied flag wins; otherwise the flag
/// is kept.
pub open spec fn resolve(
    cur: Visibility,
    status: Option<Seq<char>>,
    is_public: Option<bool>,
) -> Visibility {
    let new_status = match status {
        Some(s) => Some(s),
        None => cur.status,
    };
    let public = if is_hidden_status(effective_status(new_status)) {
        false
    } else {
        match is_public {
            Some(p) => p,
            None => cur.is_public,
        }
    };
    Visibility { status: new_status, is_public: public }
}

/// The state a new note is resolved against: published and public.
pub open spec fn creation_base() -> Visibility {
    Visibility { status: Some(default_status()), is_public: true }
}

/// Whether a status keeps a note out of public view (`"draft"` or `"private"`).
pub fn status_is_hidden(s: &str) -> (r: bool)
    ensures
        r == is_hidden_status(s@),
{
    text_eq(s, "draft") || text_eq(s, "private")
}

/// Whether a stored optional status is hidden; an absent status reads as published.
fn stored_status_is_hidden(s: &Option<String>) -> (r: bool)
    ensures
        r == is_hidden_status(effective_status(opt_text(*s))),
{
    proof {
        reveal_strlit("published");
        reveal_strlit("draft");
    }
    match s {
        Some(v) => status_is_hidden(v.as_str()),
        None => {
            assert(default_status() != "draft"@) by {
                assert(default_status()[0] != "draft"@[0]);
            }
            assert(default_status().len() != "private"@.len()) by {
                reveal_strlit("private");
            }
            false
        },
    }
}

/// Applies a partial visibility update to a note in place.
pub fn apply_visibility(note: &mut NoteRow, status: &Option<String>, is_public: Option<bool>)
    ensures
        ({
            let r = resolve(
                Visibility { status: opt_text(old(note).status), is_public: old(note).is_public },
                opt_text(*status),
                is_public,
            );
            opt_text(final(note).status) == r.status && final(note).is_public == r.is_public
        }),
        final(note).id == old(note).id,
        final(note).title == old(note).title,
        final(note).content == old(note).content,
        final(note).description == old(note).description,
        final(note).cover == old(note).cover,
        final(note).is_top == old(note).is_top,
        final(note).created_at == old(note).created_at,
        final(note).updated_at == old(note).updated_at,
        final(note).tags == old(note).tags,
        final(note).category_id == old(note).category_id,
{
    match status {
        Some(s) => {
            note.status = Some(s.clone());
        },
        None => {},
    }
    if stored_status_is_hidden(&note.status) {
        note.is_public = false;
    } else {
        match is_public {
            Some(p) => {
                note.is_public = p;
            },
            None => {},
        }
    }
}

/// The visibility of a new note: status defaults to `"published"` and the flag to
/// `true`, subject to the same rules as an update.
pub fn initial_visibility(status: &Option<String>, is_public: Option<bool>) -> (r: (String, bool))
    ensures
        ({
            let v = resolve(creation_base(), opt_text(*status), is_public);
            v.status == Some(r.0@) && v.is_public == r.1
        }),
{
    let s = match status {
        Some(v) => v.clone(),
        None => String::from_str("published"),
    };
    proof {
        reveal_strlit("published");
    }
    let public = if status_is_hidden(s.as_str()) {
        false
    } else {
        match is_public {
            Some(p) => p,
            None => true,
        }
    };
    (s, public)
}

/// No update, from any state, leaves a draft or private note public.
pub proof fn lemma_resolve_never_exposes_hidden(
    cur: Visibility,
    status: Option<Seq<char>>,
    is_public: Option<bool>,
)
    ensures
        ({
            let r = resolve(cur, status, is_public);
            is_hidden_status(effective_status(r.status)) ==> !r.is_public
        }),
{
}

/// Applying the same partial update twice gives the same state as applying it once.
pub proof fn lemma_resolve_idempotent(
    cur: Visibility,
    status: Option<Seq<char>>,
    is_public: Option<bool>,
)
    ensures
        resolve(resolve(cur, status, is_public), status, is_public) == resolve(
            cur,
            status,
            is_public,
        ),
{
}

} // verus!
