//! Friend links: listing, the public (approved) subset, create / update, and the
//! keys of a bulk delete.
use vstd::prelude::*;
use crate::text::{opt_text, or_empty, text_or_empty};

verus! {

/// A stored friend link; status 1 marks it approved for public display.
pub struct FriendRow {
    pub id: i32,
    pub name: String,
    pub link: String,
    pub avatar: Option<String>,
    pub description: Option<String>,
    pub status: Option<i32>,
}

/// A friend link as returned to clients.
pub struct FriendDto {
    pub id: i32,
    pub name: String,
    pub url: String,
    pub avatar: String,
    pub description: String,
    pub status: i32,
}

/// A friend link create or update.
pub struct UpsertFriend {
    pub name: String,
    pub url: String,
    pub avatar: String,
    pub description: String,
    pub status: Option<i32>,
}

/// One key of a bulk delete as a client sent it.
pub enum FriendKey {
    Number(i64),
    Text(String),
    Other,
}

/// `d` is the response row of friend `f`.
pub open spec fn friend_dto_of(f: FriendRow, d: FriendDto) -> bool {
    d.id == f.id && d.name@ == f.name@ && d.url@ == f.link@ && d.avatar@ == or_empty(
        opt_text(f.avatar),
    ) && d.description@ == or_empty(opt_text(f.description)) && d.status == match f.status {
        Some(s) => s,
        None => 0,
    }
}

fn friend_dto(f: &FriendRow) -> (d: FriendDto)
    ensures
        friend_dto_of(*f, d),
{
    FriendDto {
        id: f.id,
        name: f.name.clone(),
        url: f.link.clone(),
        avatar: text_or_empty(&f.avatar),
        description: text_or_empty(&f.description),
        status: match f.status {
            Some(s) => s,
            None => 0,
        },
    }
}

/// Every friend link, in stored order.
pub fn list_friends(rows: &Vec<FriendRow>) -> (r: Vec<FriendDto>)
    ensures
        r@.len() == rows@.len(),
        forall|k: int| 0 <= k < rows@.len() ==> friend_dto_of(rows@[k], #[trigger] r@[k]),
{
    let mut out: Vec<FriendDto> = Vec::new();
    let mut i: usize = 0;
    while i < rows.len()
        invariant
            i <= rows@.len(),
            out@.len() == i,
            forall|k: int| 0 <= k < i ==> friend_dto_of(rows@[k], #[trigger] out@[k]),
        decreases rows@.len() - i,
    {
        out.push(friend_dto(&rows[i]));
        i = i + 1;
    }
    out
}

/// The approved friend links (status 1), in stored order.
pub open spec fn approved_positions(rows: Seq<FriendRow>) -> Seq<int>
    decreases rows.len(),
{
    if rows.len() == 0 {
        Seq::empty()
    } else if rows.last().status == Some(1i32) {
        approved_positions(rows.drop_last()).push(rows.len() - 1)
    } else {
        approved_positions(rows.drop_last())
    }
}

proof fn lemma_approved_prefix(rows: Seq<FriendRow>, i: int)
    requires
        0 <= i < rows.len(),
    ensures
        approved_positions(rows.subrange(0, i + 1)) == if rows[i].status == Some(1i32) {
            approved_positions(rows.subrange(0, i)).push(i)
        } else {
            approved_positions(rows.subrange(0, i))
        },
{
    assert(rows.subrange(0, i + 1).drop_last() =~= rows.subrange(0, i));
}

/// The friend links shown to visitors: those with status 1, in stored order.
pub fn list_public_friends(rows: &Vec<FriendRow>) -> (r: Vec<FriendDto>)
    ensures
        r@.len() == approved_positions(rows@).len(),
        forall|k: int|
            0 <= k < r@.len() ==> friend_dto_of(
                rows@[approved_positions(rows@)[k]],
                #[trigger] r@[k],
            ),
{
    let mut out: Vec<FriendDto> = Vec::new();
    let mut i: usize = 0;
    while i < rows.len()
        invariant
            i <= rows@.len(),
            out@.len() == approved_positions(rows@.subrange(0, i as int)).len(),
            forall|k: int|
                0 <= k < out@.len() ==> friend_dto_of(
                    rows@[approved_positions(rows@.subrange(0, i as int))[k]],
                    #[trigger] out@[k],
                ),
            forall|k: int|
                0 <= k < approved_positions(rows@.subrange(0, i as int)).len() ==> 0
                    <= #[trigger] approved_positions(rows@.subrange(0, i as int))[k] < i,
        decreases rows@.len() - i,
    {
        proof {
            lemma_approved_prefix(rows@, i as int);
        }
        if rows[i].status == Some(1i32) {
            out.push(friend_dto(&rows[i]));
        }
        i = i + 1;
    }
    assert(rows@.subrange(0, i as int) =~= rows@);
    out
}

/// A new friend link; its status defaults to 0 (not yet approved).
pub fn new_friend(req: &UpsertFriend, id: i32) -> (r: FriendRow)
    ensures
        r.id == id,
        r.name@ == req.name@,
        r.link@ == req.url@,
        opt_text(r.avatar) == Some(req.avatar@),
        opt_text(r.description) == Some(req.description@),
        r.status == Some(
            match req.status {
                Some(s) => s,
                None => 0i32,
            },
        ),
{
    FriendRow {
        id,
        name: req.name.clone(),
        link: req.url.clone(),
        avatar: Some(req.avatar.clone()),
        description: Some(req.description.clone()),
        status: Some(
            match req.status {
                Some(s) => s,
                None => 0,
            },
        ),
    }
}

/// Replaces every field of a friend link; the status defaults to 1 (approved).
pub fn update_friend(row: &mut FriendRow, req: &UpsertFriend)
    ensures
        final(row).id == old(row).id,
        final(row).name@ == req.name@,
        final(row).link@ == req.url@,
        opt_text(final(row).avatar) == Some(req.avatar@),
        opt_text(final(row).description) == Some(req.description@),
        final(row).status == Some(
            match req.status {
                Some(s) => s,
                None => 1i32,
            },
        ),
{
    row.name = req.name.clone();
    row.link = req.url.clone();
    row.avatar = Some(req.avatar.clone());
    row.description = Some(req.description.clone());
    row.status = Some(
        match req.status {
            Some(s) => s,
            None => 1,
        },
    );
}

/// The value of an optionally signed run of ASCII digits.
pub open spec fn digits_value(s: Seq<char>) -> int
    decreases s.len(),
{
    if s.len() == 0 {
        0
    } else {
        digits_value(s.drop_last()) * 10 + (s.last() as int - '0' as int)
    }
}

/// What `str::parse::<i32>` accepts: an optional `+` or `-`, then one or more ASCII
/// digits, with a value that fits in `i32`.
pub open spec fn i32_of_text(s: Seq<char>) -> Option<int> {
    let negative = s.len() > 0 && s[0] == '-';
    let body = if s.len() > 0 && (s[0] == '-' || s[0] == '+') {
        s.drop_first()
    } else {
        s
    };
    let v = if negative {
        -digits_value(body)
    } else {
        digits_value(body)
    };
    if body.len() > 0 && (forall|k: int| 0 <= k < body.len() ==> '0' <= #[trigger] body[k] <= '9')
        && i32::MIN <= v <= i32::MAX {
        Some(v)
    } else {
        None
    }
}

/// Relies on `str::parse::<i32>`, documented to take an optional `+` or `-` sign
/// followed by ASCII digits only, and to fail on anything else or on overflow.
#[verifier::external_body]
fn parse_i32(s: &str) -> (r: Option<i32>)
    ensures
        match r {
            Some(v) => i32_of_text(s@) == Some(v as int),
            None => i32_of_text(s@) is None,
        },
{
    s.parse::<i32>().ok()
}

/// The id a client key names: a number truncated to `i32`, text parsed as an `i32`;
/// anything else names none.
pub open spec fn key_id(k: FriendKey) -> Option<i32> {
    match k {
        FriendKey::Number(n) => Some(n as i32),
        FriendKey::Text(s) => match i32_of_text(s@) {
            Some(v) => Some(v as i32),
            None => None,
        },
        FriendKey::Other => None,
    }
}

/// The ids that a list of client keys names, in order, skipping keys that name none.
pub open spec fn key_ids(keys: Seq<FriendKey>) -> Seq<i32>
    decreases keys.len(),
{
    if keys.len() == 0 {
        Seq::empty()
    } else {
        match key_id(keys.last()) {
            Some(v) => key_ids(keys.drop_last()).push(v),
            None => key_ids(keys.drop_last()),
        }
    }
}

/// The ids to delete; `None` where no key names an id, which the delete rejects.
pub fn friend_keys_to_delete(keys: &Vec<FriendKey>) -> (r: Option<Vec<i32>>)
    ensures
        match r {
            Some(v) => v@ == key_ids(keys@) && v@.len() > 0,
            None => key_ids(keys@).len() == 0,
        },
{
    let mut out: Vec<i32> = Vec::new();
    let mut i: usize = 0;
    while i < keys.len()
        invariant
            i <= keys@.len(),
            out@ == key_ids(keys@.subrange(0, i as int)),
        decreases keys@.len() - i,
    {
        assert(keys@.subrange(0, i + 1).drop_last() =~= keys@.subrange(0, i as int));
        match &keys[i] {
            FriendKey::Number(n) => {
                out.push(*n as i32);
            },
            FriendKey::Text(s) => {
                match parse_i32(s.as_str()) {
                    Some(v) => {
                        out.push(v);
                    },
                    None => {},
                }
            },
            FriendKey::Other => {},
        }
        i = i + 1;
    }
    assert(keys@.subrange(0, i as int) =~= keys@);
    if out.len() == 0 {
        None
    } else {
        Some(out)
    }
}

} // verus!
