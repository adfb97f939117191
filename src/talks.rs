//! Talks: short posts, listed newest first.
use vstd::prelude::*;
use crate::clock::{format_time, time_text};
use crate::note::Timestamp;
use crate::text::{opt_text, or_empty, text_or_empty};

verus! {

/// A stored talk.
pub struct TalkRow {
    pub id: i32,
    pub title: Option<String>,
    pub content: String,
    pub created_at: Timestamp,
    pub updated_at: Timestamp,
}

/// A talk as returned to clients.
pub struct TalkDto {
    pub id: i32,
    pub title: String,
    pub content: String,
    pub created_at: String,
    pub updated_at: String,
}

/// A talk create or update.
pub struct UpsertTalk {
    pub title: String,
    pub content: String,
}

impl TalkRow {
    pub open spec fn wf(self) -> bool {
        self.created_at.wf() && self.updated_at.wf()
    }
}

/// How a talk's time is shown: as stored, with no offset.
pub open spec fn talk_time(t: Timestamp) -> Seq<char> {
    time_text(
        t.year as int,
        t.month as int,
        t.day as int,
        t.hour as int,
        t.minute as int,
        t.second as int,
        0,
    )
}

/// `d` is the response row of talk `t`.
pub open spec fn talk_dto_of(t: TalkRow, d: TalkDto) -> bool {
    d.id == t.id && d.title@ == or_empty(opt_text(t.title)) && d.content@ == t.content@
        && d.created_at@ == talk_time(t.created_at) && d.updated_at@ == talk_time(t.updated_at)
}

/// Talk `a` is listed before talk `b`: it is newer, or as new and stored earlier.
pub open spec fn talk_before(talks: Seq<TalkRow>, a: int, b: int) -> bool {
    let ka = talks[a].created_at.order_key();
    let kb = talks[b].created_at.order_key();
    ka > kb || (ka == kb && a < b)
}

/// `r` lists every talk once, by position, newest first, ties in stored order.
pub open spec fn is_talk_order(talks: Seq<TalkRow>, r: Seq<usize>) -> bool {
    &&& forall|k: int| 0 <= k < r.len() ==> (#[trigger] r[k]) < talks.len()
    &&& forall|i: int| 0 <= i < talks.len() ==> #[trigger] r.contains(i as usize)
    &&& forall|a: int, b: int|
        0 <= a < b < r.len() ==> talk_before(talks, #[trigger] r[a] as int, #[trigger] r[b] as int)
}

/// The positions of all talks, newest first, ties in stored order.
fn order_talks(talks: &Vec<TalkRow>) -> (r: Vec<usize>)
    requires
        forall|i: int| 0 <= i < talks@.len() ==> (#[trigger] talks@[i]).wf(),
    ensures
        is_talk_order(talks@, r@),
{
    let mut out: Vec<usize> = Vec::new();
    let mut i: usize = 0;
    while i < talks.len()
        invariant
            i <= talks@.len(),
            forall|i: int| 0 <= i < talks@.len() ==> (#[trigger] talks@[i]).wf(),
            forall|k: int| 0 <= k < out@.len() ==> (#[trigger] out@[k]) < i,
            forall|j: int| 0 <= j < i ==> #[trigger] out@.contains(j as usize),
            forall|a: int, b: int|
                0 <= a < b < out@.len() ==> talk_before(
                    talks@,
                    #[trigger] out@[a] as int,
                    #[trigger] out@[b] as int,
                ),
        decreases talks@.len() - i,
    {
        assert(talks@[i as int].wf());
        let ki = talks[i].created_at.key();
        let mut p: usize = 0;
        while p < out.len() && talks[out[p]].created_at.key() >= ki
            invariant
                p <= out@.len(),
                i < talks@.len(),
                forall|i: int| 0 <= i < talks@.len() ==> (#[trigger] talks@[i]).wf(),
                ki == talks@[i as int].created_at.order_key(),
                forall|k: int| 0 <= k < out@.len() ==> (#[trigger] out@[k]) < i,
                forall|k: int|
                    0 <= k < p ==> talks@[(#[trigger] out@[k]) as int].created_at.order_key() >= ki,
            decreases out@.len() - p,
        {
            assert(talks@[out@[p as int] as int].wf());
            p = p + 1;
        }
        let ghost prev = out@;
        out.insert(p, i);
        proof {
            prev.insert_ensures(p as int, i);
            assert forall|a: int, b: int| 0 <= a < b < out@.len() implies talk_before(
                talks@,
                #[trigger] out@[a] as int,
                #[trigger] out@[b] as int,
            ) by {
                if b < p {
                    assert(talk_before(talks@, prev[a] as int, prev[b] as int));
                } else if b == p {
                    assert(prev[a] < i);
                } else if a < p {
                    assert(talk_before(talks@, prev[a] as int, prev[b - 1] as int));
                } else if a == p {
                    assert(p < prev.len());
                    if b - 1 > p {
                        assert(talk_before(talks@, prev[p as int] as int, prev[b - 1] as int));
                    }
                } else {
                    assert(talk_before(talks@, prev[a - 1] as int, prev[b - 1] as int));
                }
            }
            assert forall|j: int| 0 <= j < i + 1 implies #[trigger] out@.contains(j as usize) by {
                if j < i {
                    assert(prev.contains(j as usize));
                    let k = choose|k: int| 0 <= k < prev.len() && prev[k] == j as usize;
                    if k < p {
                        assert(out@[k] == j as usize);
                    } else {
                        assert(out@[k + 1] == j as usize);
                    }
                } else {
                    assert(out@[p as int] == i);
                }
            }
        }
        i = i + 1;
    }
    out
}

/// Every talk, newest first (ties in stored order), times shown as stored.
pub fn list_talks(talks: &Vec<TalkRow>) -> (r: Vec<TalkDto>)
    requires
        forall|i: int| 0 <= i < talks@.len() ==> (#[trigger] talks@[i]).wf(),
    ensures
        exists|l: Seq<usize>|
            #[trigger] is_talk_order(talks@, l) && r@.len() == l.len() && forall|k: int|
                0 <= k < l.len() ==> talk_dto_of(talks@[l[k] as int], #[trigger] r@[k]),
{
    let order = order_talks(talks);
    let mut out: Vec<TalkDto> = Vec::new();
    let mut k: usize = 0;
    while k < order.len()
        invariant
            k <= order@.len(),
            is_talk_order(talks@, order@),
            forall|i: int| 0 <= i < talks@.len() ==> (#[trigger] talks@[i]).wf(),
            out@.len() == k,
            forall|j: int|
                0 <= j < k ==> talk_dto_of(talks@[order@[j] as int], #[trigger] out@[j]),
        decreases order@.len() - k,
    {
        assert(order@[k as int] < talks@.len());
        let t = &talks[order[k]];
        assert(t.wf());
        out.push(
            TalkDto {
                id: t.id,
                title: text_or_empty(&t.title),
                content: t.content.clone(),
                created_at: format_time(&t.created_at, 0),
                updated_at: format_time(&t.updated_at, 0),
            },
        );
        k = k + 1;
    }
    out
}

/// A new talk, stamped `now`.
pub fn new_talk(req: &UpsertTalk, id: i32, now: Timestamp) -> (r: TalkRow)
    requires
        now.wf(),
    ensures
        r.wf(),
        r.id == id,
        opt_text(r.title) == Some(req.title@),
        r.content@ == req.content@,
        r.created_at == now,
        r.updated_at == now,
{
    TalkRow {
        id,
        title: Some(req.title.clone()),
        content: req.content.clone(),
        created_at: now,
        updated_at: now,
    }
}

/// Replaces a talk's title and content, stamped `now`; its creation time is kept.
pub fn update_talk(row: &mut TalkRow, req: &UpsertTalk, now: Timestamp)
    requires
        old(row).wf(),
        now.wf(),
    ensures
        final(row).wf(),
        final(row).id == old(row).id,
        opt_text(final(row).title) == Some(req.title@),
        final(row).content@ == req.content@,
        final(row).created_at == old(row).created_at,
        final(row).updated_at == now,
{
    row.title = Some(req.title.clone());
    row.content = req.content.clone();
    row.updated_at = now;
}

} // verus!
