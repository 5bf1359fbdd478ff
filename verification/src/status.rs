//! The live status of each bot, and the record of what was already saved.

use crate::text::{copy_opt, opt_view};
use vstd::prelude::*;
use vstd::seq_lib::lemma_sorted_unique;

verus! {

/// How many recently written update ids each bot remembers. Telegram keeps an
/// update in its queue for 24 hours, so this only has to cover the messages that
/// could plausibly be replayed.
pub const RECENT_SAVED_MAX: usize = 500;

/// Live status for one bot. The counters, the long-poll offset and the saved ids
/// are kept across restarts; the other fields are not.
pub struct BotStatus {
    pub running: bool,
    pub username: Option<String>,
    pub last_error: Option<String>,
    /// Error from the daily send-back, apart from `last_error` so that the poll
    /// loop, which clears that one on every success, cannot hide it.
    pub last_daily_error: Option<String>,
    pub last_message_at: Option<String>,
    pub message_count: u64,
    /// Next offset to ask Telegram for.
    pub offset: i64,
    /// Ids of the updates already written to the markdown file, oldest first, at
    /// most [`RECENT_SAVED_MAX`] of them.
    ///
    /// An update stays in Telegram's queue for a day after it is confirmed, so
    /// anything that moves the offset backwards makes every message since come
    /// back. This list is the record that survives that.
    pub saved: Vec<i64>,
}

/// What a [`BotStatus`] holds.
#[verifier::ext_equal]
pub struct StatusModel {
    pub running: bool,
    pub username: Option<Seq<char>>,
    pub last_error: Option<Seq<char>>,
    pub last_daily_error: Option<Seq<char>>,
    pub last_message_at: Option<Seq<char>>,
    pub message_count: u64,
    pub offset: i64,
    pub saved: Seq<i64>,
}

impl View for BotStatus {
    type V = StatusModel;

    open spec fn view(&self) -> StatusModel {
        StatusModel {
            running: self.running,
            username: opt_view(self.username),
            last_error: opt_view(self.last_error),
            last_daily_error: opt_view(self.last_daily_error),
            last_message_at: opt_view(self.last_message_at),
            message_count: self.message_count,
            offset: self.offset,
            saved: self.saved@,
        }
    }
}

impl StatusModel {
    /// The status of a bot that nothing is known of.
    pub open spec fn blank() -> StatusModel {
        StatusModel {
            running: false,
            username: None,
            last_error: None,
            last_daily_error: None,
            last_message_at: None,
            message_count: 0,
            offset: 0,
            saved: Seq::empty(),
        }
    }

    /// Something is wrong with the bot.
    pub open spec fn has_error(self) -> bool {
        self.last_error is Some || self.last_daily_error is Some
    }
}

impl Default for BotStatus {
    fn default() -> (r: Self)
        ensures
            r@ == StatusModel::blank(),
    {
        BotStatus {
            running: false,
            username: None,
            last_error: None,
            last_daily_error: None,
            last_message_at: None,
            message_count: 0,
            offset: 0,
            saved: Vec::new(),
        }
    }
}

/// A copy of a list of ids.
fn copy_ids(ids: &Vec<i64>) -> (r: Vec<i64>)
    ensures
        r@ == ids@,
{
    let mut out: Vec<i64> = Vec::new();
    let mut i: usize = 0;
    while i < ids.len()
        invariant
            i <= ids@.len(),
            out@ == ids@.take(i as int),
        decreases ids@.len() - i,
    {
        out.push(ids[i]);
        i += 1;
        assert(ids@.take(i as int) =~= ids@.take(i - 1).push(ids@[i - 1]));
    }
    assert(ids@.take(i as int) =~= ids@);
    out
}

impl Clone for BotStatus {
    fn clone(&self) -> (r: Self)
        ensures
            r@ == self@,
    {
        BotStatus {
            running: self.running,
            username: copy_opt(&self.username),
            last_error: copy_opt(&self.last_error),
            last_daily_error: copy_opt(&self.last_daily_error),
            last_message_at: copy_opt(&self.last_message_at),
            message_count: self.message_count,
            offset: self.offset,
            saved: copy_ids(&self.saved),
        }
    }
}

/// The newest [`RECENT_SAVED_MAX`] of a list of ids.
pub open spec fn recent(ids: Seq<i64>) -> Seq<i64> {
    if ids.len() > RECENT_SAVED_MAX {
        ids.skip(ids.len() - RECENT_SAVED_MAX)
    } else {
        ids
    }
}

/// A list of saved ids with one more id in it.
pub open spec fn remembered(ids: Seq<i64>, uid: i64) -> Seq<i64> {
    if ids.contains(uid) {
        ids
    } else {
        recent(ids.push(uid))
    }
}

/// Drops the oldest entries so that a list of saved ids stays bounded.
pub fn trim_saved(saved: &mut Vec<i64>)
    ensures
        final(saved)@ == recent(old(saved)@),
        final(saved)@.len() <= RECENT_SAVED_MAX,
{
    let len = saved.len();
    if len > RECENT_SAVED_MAX {
        let kept = saved.split_off(len - RECENT_SAVED_MAX);
        *saved = kept;
    }
}

/// Whether `uid` is in the list.
pub fn holds(ids: &Vec<i64>, uid: i64) -> (r: bool)
    ensures
        r == ids@.contains(uid),
{
    let mut i: usize = 0;
    while i < ids.len()
        invariant
            i <= ids@.len(),
            forall|k: int| 0 <= k < i ==> ids@[k] != uid,
        decreases ids@.len() - i,
    {
        if ids[i] == uid {
            return true;
        }
        i += 1;
    }
    false
}

/// Records that `uid` has been written to the markdown file. To be called together
/// with the update of the counters, so that the note and the record of it cannot
/// be separated.
pub fn remember_saved(s: &mut BotStatus, uid: i64)
    ensures
        final(s)@ == (StatusModel { saved: remembered(old(s)@.saved, uid), ..old(s)@ }),
{
    if holds(&s.saved, uid) {
        return;
    }
    s.saved.push(uid);
    trim_saved(&mut s.saved);
}

/// `a` with the ids of `b` that it lacks behind it.
pub open spec fn union(a: Seq<i64>, b: Seq<i64>) -> Seq<i64>
    decreases b.len(),
{
    if b.len() == 0 {
        a
    } else {
        let u = union(a, b.drop_last());
        if u.contains(b.last()) {
            u
        } else {
            u.push(b.last())
        }
    }
}

/// The order of integers.
pub open spec fn at_most() -> spec_fn(i64, i64) -> bool {
    |a: i64, b: i64| a <= b
}

/// The ids of `s` in ascending order.
pub open spec fn ascending(s: Seq<i64>) -> Seq<i64> {
    s.sort_by(at_most())
}

/// `slice::sort_unstable` on 64-bit integers: afterwards they are in ascending
/// order, and they are the same integers, each as often as before.
#[verifier::external_body]
fn sort_ids(ids: &mut Vec<i64>)
    ensures
        forall|i: int, j: int| 0 <= i < j < final(ids)@.len() ==> final(ids)@[i] <= final(ids)@[j],
        final(ids)@.to_multiset() == old(ids)@.to_multiset(),
{
    ids.sort_unstable();
}

/// What is written to disk for a bot: the further of the two offsets, the larger
/// of the two counts, and the newest of the ids in either list.
pub open spec fn merged(mine: StatusModel, on_disk: StatusModel) -> StatusModel {
    StatusModel {
        offset: if mine.offset >= on_disk.offset {
            mine.offset
        } else {
            on_disk.offset
        },
        message_count: if mine.message_count >= on_disk.message_count {
            mine.message_count
        } else {
            on_disk.message_count
        },
        saved: recent(ascending(union(mine.saved, on_disk.saved))),
        ..mine
    }
}

/// Merges a bot's status with what is on disk for it: offsets and counters only
/// ever move forwards, and the lists of saved ids are united, so that a writer
/// that knows less than the file does cannot erase what the file knows.
pub fn merge_status(mine: &BotStatus, on_disk: &BotStatus) -> (r: BotStatus)
    ensures
        r@ == merged(mine@, on_disk@),
{
    let mut next = mine.clone();
    if on_disk.offset > next.offset {
        next.offset = on_disk.offset;
    }
    if on_disk.message_count > next.message_count {
        next.message_count = on_disk.message_count;
    }
    let mut saved = copy_ids(&mine.saved);
    let mut i: usize = 0;
    assert(on_disk.saved@.take(0) =~= Seq::<i64>::empty());
    while i < on_disk.saved.len()
        invariant
            i <= on_disk.saved@.len(),
            saved@ == union(mine.saved@, on_disk.saved@.take(i as int)),
        decreases on_disk.saved@.len() - i,
    {
        let uid = on_disk.saved[i];
        proof {
            let t = on_disk.saved@.take(i + 1);
            assert(t.drop_last() =~= on_disk.saved@.take(i as int));
            assert(t.last() == uid);
        }
        if !holds(&saved, uid) {
            saved.push(uid);
        }
        i += 1;
    }
    assert(on_disk.saved@.take(i as int) =~= on_disk.saved@);
    let ghost all = saved@;
    sort_ids(&mut saved);
    proof {
        all.lemma_sort_by_ensures(at_most());
        lemma_sorted_unique(saved@, ascending(all), at_most());
    }
    trim_saved(&mut saved);
    next.saved = saved;
    next
}

proof fn lemma_union_contains(a: Seq<i64>, b: Seq<i64>, uid: i64)
    ensures
        union(a, b).contains(uid) <==> a.contains(uid) || b.contains(uid),
    decreases b.len(),
{
    if b.len() > 0 {
        lemma_union_contains(a, b.drop_last(), uid);
        let u = union(a, b.drop_last());
        let last = b.last();
        if b.contains(uid) && uid != last {
            let i = choose|i: int| 0 <= i < b.len() && b[i] == uid;
            assert(b.drop_last()[i] == uid);
        }
        if b.drop_last().contains(uid) {
            let i = choose|i: int| 0 <= i < b.drop_last().len() && b.drop_last()[i] == uid;
            assert(b[i] == uid);
        }
        assert(b[b.len() - 1] == last);
        if !u.contains(last) {
            assert(u.push(last)[u.len() as int] == last);
            if u.contains(uid) {
                let i = choose|i: int| 0 <= i < u.len() && u[i] == uid;
                assert(u.push(last)[i] == uid);
            }
            if u.push(last).contains(uid) && uid != last {
                let i = choose|i: int| 0 <= i < u.push(last).len() && u.push(last)[i] == uid;
                assert(u[i] == uid);
            }
        }
    }
}

/// The status on disk never moves a bot backwards: neither the offset nor the
/// counter falls behind what either side knew.
pub proof fn law_merge_never_moves_backwards(mine: StatusModel, on_disk: StatusModel)
    ensures
        merged(mine, on_disk).offset >= mine.offset,
        merged(mine, on_disk).offset >= on_disk.offset,
        merged(mine, on_disk).message_count >= mine.message_count,
        merged(mine, on_disk).message_count >= on_disk.message_count,
{
}

/// Merging invents no id, and forgets one only for want of room: whatever either
/// side remembered is still there, or [`RECENT_SAVED_MAX`] ids no older than it
/// are.
pub proof fn law_merge_forgets_only_the_oldest(
    mine: StatusModel,
    on_disk: StatusModel,
    uid: i64,
)
    ensures
        ({
            let kept = merged(mine, on_disk).saved;
            &&& kept.contains(uid) ==> mine.saved.contains(uid) || on_disk.saved.contains(uid)
            &&& (mine.saved.contains(uid) || on_disk.saved.contains(uid)) && !kept.contains(uid)
                ==> kept.len() == RECENT_SAVED_MAX && forall|i: int|
                0 <= i < kept.len() ==> uid <= #[trigger] kept[i]
            &&& kept.len() <= RECENT_SAVED_MAX
        }),
{
    let all = union(mine.saved, on_disk.saved);
    let sorted = ascending(all);
    let kept = recent(sorted);
    lemma_union_contains(mine.saved, on_disk.saved, uid);
    all.lemma_sort_by_ensures(at_most());
    all.to_multiset_ensures();
    sorted.to_multiset_ensures();
    assert(all.contains(uid) <==> all.to_multiset().count(uid) > 0);
    assert(sorted.contains(uid) <==> sorted.to_multiset().count(uid) > 0);
    let from = sorted.len() - kept.len();
    if kept.contains(uid) {
        let i = choose|i: int| 0 <= i < kept.len() && kept[i] == uid;
        assert(sorted[from + i] == uid);
    }
    if sorted.contains(uid) && !kept.contains(uid) {
        let i = choose|i: int| 0 <= i < sorted.len() && sorted[i] == uid;
        if i >= from {
            assert(kept[i - from] == uid);
        }
        assert forall|k: int| 0 <= k < kept.len() implies uid <= #[trigger] kept[k] by {
            assert(at_most()(sorted[i], sorted[from + k]));
        }
    }
}

/// A list of saved ids after each of `uids` was remembered in turn.
pub open spec fn remembered_all(ids: Seq<i64>, uids: Seq<i64>) -> Seq<i64>
    decreases uids.len(),
{
    if uids.len() == 0 {
        ids
    } else {
        remembered(remembered_all(ids, uids.drop_last()), uids.last())
    }
}

/// Remembering an id twice is remembering it once, it is then in the list, and
/// the list stays within its bound.
pub proof fn law_remembering_is_idempotent_and_bounded(ids: Seq<i64>, uid: i64)
    ensures
        remembered(ids, uid).contains(uid),
        remembered(remembered(ids, uid), uid) == remembered(ids, uid),
        ids.len() <= RECENT_SAVED_MAX ==> remembered(ids, uid).len() <= RECENT_SAVED_MAX,
        ids.no_duplicates() ==> remembered(ids, uid).no_duplicates(),
{
    if !ids.contains(uid) {
        let p = ids.push(uid);
        let r = recent(p);
        assert(r[r.len() - 1] == uid);
    }
}

/// An id at position `i` is at most `uids.len()` positions further to the front
/// after `uids` were remembered, as long as that is still in the list.
proof fn lemma_stays(ids: Seq<i64>, uids: Seq<i64>, i: int)
    requires
        0 <= i < ids.len(),
        i + RECENT_SAVED_MAX >= ids.len() + uids.len(),
    ensures
        exists|k: int|
            0 <= k < remembered_all(ids, uids).len() && #[trigger] remembered_all(ids, uids)[k]
                == ids[i] && k + RECENT_SAVED_MAX >= remembered_all(ids, uids).len()
                && remembered_all(ids, uids).len() - k <= ids.len() - i + uids.len(),
    decreases uids.len(),
{
    if uids.len() == 0 {
        assert(remembered_all(ids, uids)[i] == ids[i]);
    } else {
        lemma_stays(ids, uids.drop_last(), i);
        let before = remembered_all(ids, uids.drop_last());
        let k = choose|k: int|
            0 <= k < before.len() && #[trigger] before[k] == ids[i] && k + RECENT_SAVED_MAX
                >= before.len() && before.len() - k <= ids.len() - i + uids.drop_last().len();
        let after = remembered_all(ids, uids);
        assert(after == remembered(before, uids.last()));
        if before.contains(uids.last()) {
            assert(after[k] == ids[i]);
        } else {
            let p = before.push(uids.last());
            assert(p[k] == ids[i]);
            if p.len() > RECENT_SAVED_MAX {
                let cut = p.len() - RECENT_SAVED_MAX;
                assert(after[k - cut] == ids[i]);
            } else {
                assert(after[k] == ids[i]);
            }
        }
    }
}

/// Once remembered, an id stays remembered for as long as fewer than
/// [`RECENT_SAVED_MAX`] others are remembered after it.
pub proof fn law_a_saved_id_outlives_the_newer_ones(ids: Seq<i64>, uid: i64, later: Seq<i64>)
    requires
        ids.len() <= RECENT_SAVED_MAX,
        !ids.contains(uid),
        later.len() < RECENT_SAVED_MAX,
    ensures
        remembered_all(remembered(ids, uid), later).contains(uid),
{
    let now = remembered(ids, uid);
    assert(now[now.len() - 1] == uid);
    lemma_stays(now, later, now.len() - 1);
}

/// A new id goes to the end of the list, the others stay in their order, and the
/// oldest goes only where there is no more room; an id that is in the list already
/// changes nothing.
pub proof fn law_a_new_id_goes_to_the_end(ids: Seq<i64>, uid: i64)
    ensures
        ids.contains(uid) ==> remembered(ids, uid) == ids,
        !ids.contains(uid) && ids.len() < 500 ==> remembered(ids, uid) == ids.push(uid),
        !ids.contains(uid) && ids.len() == 500 ==> remembered(ids, uid) == ids.drop_first().push(
            uid,
        ),
{
    if !ids.contains(uid) && ids.len() == 500 {
        assert(remembered(ids, uid) =~= ids.drop_first().push(uid));
    }
}

/// A list is cut to its newest entries: they are the end of it, and it is left as
/// it is where it is not too long.
pub proof fn law_the_newest_stay(ids: Seq<i64>)
    ensures
        ids.len() <= 500 ==> recent(ids) == ids,
        ids.len() > 500 ==> recent(ids).len() == 500 && ids.take(ids.len() - 500) + recent(ids)
            == ids,
{
    if ids.len() > 500 {
        assert(ids.take(ids.len() - 500) + recent(ids) =~= ids);
    }
}

/// What is of this run alone is not taken from the disk: a merge leaves everything
/// but the offset, the counter and the saved ids as it was here. The ids come out
/// in ascending order.
pub proof fn law_a_merge_leaves_the_rest_alone(mine: StatusModel, on_disk: StatusModel)
    ensures
        merged(mine, on_disk).running == mine.running,
        merged(mine, on_disk).username == mine.username,
        merged(mine, on_disk).last_error == mine.last_error,
        merged(mine, on_disk).last_daily_error == mine.last_daily_error,
        merged(mine, on_disk).last_message_at == mine.last_message_at,
        merged(mine, on_disk).offset == mine.offset || merged(mine, on_disk).offset
            == on_disk.offset,
        merged(mine, on_disk).message_count == mine.message_count || merged(
            mine,
            on_disk,
        ).message_count == on_disk.message_count,
        forall|i: int, j: int|
            0 <= i < j < merged(mine, on_disk).saved.len() ==> (#[trigger] merged(
                mine,
                on_disk,
            ).saved[i]) <= (#[trigger] merged(mine, on_disk).saved[j]),
{
    let all = union(mine.saved, on_disk.saved);
    all.lemma_sort_by_ensures(at_most());
    let sorted = ascending(all);
    let kept = recent(sorted);
    let from = sorted.len() - kept.len();
    assert forall|i: int, j: int| 0 <= i < j < kept.len() implies (#[trigger] kept[i]) <= (
    #[trigger] kept[j]) by {
        assert(at_most()(sorted[from + i], sorted[from + j]));
    }
}

/// A merge that has room for all ids keeps all ids.
pub proof fn law_a_merge_with_room_keeps_every_id(
    mine: StatusModel,
    on_disk: StatusModel,
    uid: i64,
)
    requires
        mine.saved.len() + on_disk.saved.len() <= 500,
    ensures
        merged(mine, on_disk).saved.contains(uid) <==> mine.saved.contains(uid)
            || on_disk.saved.contains(uid),
{
    lemma_union_len(mine.saved, on_disk.saved);
    lemma_union_contains(mine.saved, on_disk.saved, uid);
    let all = union(mine.saved, on_disk.saved);
    all.lemma_sort_by_ensures(at_most());
    let sorted = ascending(all);
    all.to_multiset_ensures();
    sorted.to_multiset_ensures();
    assert(all.len() == all.to_multiset().len());
    assert(sorted.len() == sorted.to_multiset().len());
    assert(all.contains(uid) <==> all.to_multiset().count(uid) > 0);
    assert(sorted.contains(uid) <==> sorted.to_multiset().count(uid) > 0);
}

proof fn lemma_union_len(a: Seq<i64>, b: Seq<i64>)
    ensures
        union(a, b).len() <= a.len() + b.len(),
    decreases b.len(),
{
    if b.len() > 0 {
        lemma_union_len(a, b.drop_last());
    }
}

/// Nothing is known of a bot to begin with.
pub proof fn law_a_new_bot_has_no_history()
    ensures
        ({
            let s = StatusModel::blank();
            &&& !s.running
            &&& s.username is None
            &&& s.last_error is None
            &&& s.last_daily_error is None
            &&& s.last_message_at is None
            &&& s.message_count == 0
            &&& s.offset == 0
            &&& s.saved.len() == 0
        }),
{
}

/// Something is wrong with a bot exactly when there is an error to show, of the
/// poll or of the digest.
pub proof fn law_either_error_counts(status: StatusModel)
    ensures
        status.has_error() <==> status.last_error is Some || status.last_daily_error is Some,
{
}

/// The view of a status leaves nothing out.
pub proof fn law_a_status_is_seen_whole(s: BotStatus)
    ensures
        s@.running == s.running,
        s@.username is Some <==> s.username is Some,
        s.username is Some ==> s@.username->0 == s.username->0@,
        s@.last_error is Some <==> s.last_error is Some,
        s.last_error is Some ==> s@.last_error->0 == s.last_error->0@,
        s@.last_daily_error is Some <==> s.last_daily_error is Some,
        s.last_daily_error is Some ==> s@.last_daily_error->0 == s.last_daily_error->0@,
        s@.last_message_at is Some <==> s.last_message_at is Some,
        s.last_message_at is Some ==> s@.last_message_at->0 == s.last_message_at->0@,
        s@.message_count == s.message_count,
        s@.offset == s.offset,
        s@.saved == s.saved@,
{
}

} // verus!
