//! The daily quota: per client, the times of its admitted attempts within
//! the trailing 24 hours, in order. An attempt is admitted while fewer than
//! ten are on record, and an admitted attempt is on record from then on,
//! whatever becomes of the download.
use vstd::prelude::*;
use vstd::string::*;
use crate::clock::{utc_now, whole_seconds, Timestamp};
use crate::errors::{daily_limit_exceeded_view, ApiError, DOWNLOAD_LIMIT_PER_DAY};
use crate::strmap::StrMap;

verus! {

/// The length of the quota window in hours.
pub const DOWNLOAD_WINDOW_HOURS: i64 = 24;

/// The length of the quota window in nanoseconds.
pub const DOWNLOAD_WINDOW_NANOS: i128 = 86_400_000_000_000;

/// `t` lies within the window that ends at `now`: it is later than 24 hours
/// before `now`.
pub open spec fn in_window(t: Timestamp, now: Timestamp) -> bool {
    t.as_nanos() > now.as_nanos() - DOWNLOAD_WINDOW_NANOS
}

/// The test for lying within the window that ends at `now`.
pub open spec fn window_at(now: Timestamp) -> spec_fn(Timestamp) -> bool {
    |t: Timestamp| in_window(t, now)
}

/// The attempts on record that still count at `now`.
pub open spec fn live_stamps(stamps: Seq<Timestamp>, now: Timestamp) -> Seq<Timestamp> {
    stamps.filter(window_at(now))
}

/// No element is later than one behind it.
pub open spec fn is_sorted(stamps: Seq<Timestamp>) -> bool {
    forall|i: int, j: int|
        0 <= i <= j < stamps.len() ==> stamps[i].as_nanos() <= stamps[j].as_nanos()
}

pub open spec fn all_valid(stamps: Seq<Timestamp>) -> bool {
    forall|i: int| 0 <= i < stamps.len() ==> (#[trigger] stamps[i]).wf()
}

/// Where `t` goes in a sorted sequence: behind every element that is not
/// later than `t`.
pub open spec fn insert_position(stamps: Seq<Timestamp>, t: Timestamp) -> nat
    decreases stamps.len(),
{
    if stamps.len() > 0 && stamps.last().as_nanos() > t.as_nanos() {
        insert_position(stamps.drop_last(), t)
    } else {
        stamps.len()
    }
}

/// `stamps` with `t` put in at its place.
pub open spec fn insert_sorted(stamps: Seq<Timestamp>, t: Timestamp) -> Seq<Timestamp> {
    stamps.insert(insert_position(stamps, t) as int, t)
}

/// `stamps` in order: each element put in at its place, one after the other.
pub open spec fn sorted_stamps(stamps: Seq<Timestamp>) -> Seq<Timestamp>
    decreases stamps.len(),
{
    if stamps.len() == 0 {
        stamps
    } else {
        insert_sorted(sorted_stamps(stamps.drop_last()), stamps.last())
    }
}

/// Whether an attempt at `now` is admitted, given the attempts on record.
pub open spec fn admits(stamps: Seq<Timestamp>, now: Timestamp) -> bool {
    live_stamps(stamps, now).len() < DOWNLOAD_LIMIT_PER_DAY
}

/// The attempts on record after an attempt at `now`: the expired ones are
/// gone, and `now` is on record if and only if the attempt was admitted.
pub open spec fn stamps_after(stamps: Seq<Timestamp>, now: Timestamp) -> Seq<Timestamp> {
    if admits(stamps, now) {
        insert_sorted(live_stamps(stamps, now), now)
    } else {
        live_stamps(stamps, now)
    }
}

/// The seconds until the oldest attempt on record leaves the window, and at
/// least one.
pub open spec fn retry_after_seconds(oldest: Timestamp, now: Timestamp) -> int {
    let wait = whole_seconds(oldest.as_nanos() + DOWNLOAD_WINDOW_NANOS - now.as_nanos());
    if wait < 1 {
        1
    } else {
        wait
    }
}

/// The answer to an attempt at `now`: admitted, or turned down with the
/// seconds to wait.
pub open spec fn admission(stamps: Seq<Timestamp>, now: Timestamp) -> Result<(), u64> {
    if admits(stamps, now) {
        Ok(())
    } else {
        Err(retry_after_seconds(live_stamps(stamps, now)[0], now) as u64)
    }
}

/// What filtering does to a sequence that grows by one element.
pub proof fn lemma_live_stamps_push(stamps: Seq<Timestamp>, t: Timestamp, now: Timestamp)
    ensures
        live_stamps(stamps.push(t), now) == if in_window(t, now) {
            live_stamps(stamps, now).push(t)
        } else {
            live_stamps(stamps, now)
        },
{
    stamps.lemma_filter_push(t, window_at(now));
}

/// The live attempts are among the recorded ones, in their order.
pub proof fn lemma_live_stamps_keep_order(stamps: Seq<Timestamp>, now: Timestamp)
    requires
        is_sorted(stamps),
        all_valid(stamps),
    ensures
        is_sorted(live_stamps(stamps, now)),
        all_valid(live_stamps(stamps, now)),
        live_stamps(stamps, now).len() <= stamps.len(),
        forall|i: int|
            0 <= i < live_stamps(stamps, now).len() ==> in_window(
                #[trigger] live_stamps(stamps, now)[i],
                now,
            ) && stamps.contains(live_stamps(stamps, now)[i]),
        stamps.len() > 0 ==> forall|i: int|
            0 <= i < live_stamps(stamps, now).len() ==> (#[trigger] live_stamps(
                stamps,
                now,
            )[i]).as_nanos() <= stamps.last().as_nanos(),
    decreases stamps.len(),
{
    stamps.lemma_filter_len(window_at(now));
    if stamps.len() > 0 {
        let head = stamps.drop_last();
        let t = stamps.last();
        assert(head.push(t) =~= stamps);
        lemma_live_stamps_push(head, t, now);
        lemma_live_stamps_keep_order(head, now);
        let live_head = live_stamps(head, now);
        assert forall|i: int| 0 <= i < live_head.len() implies (#[trigger] live_head[i]).as_nanos()
            <= t.as_nanos() && stamps.contains(live_head[i]) by {
            let k = choose|k: int| 0 <= k < head.len() && head[k] == live_head[i];
            assert(stamps[k] == live_head[i]);
        }
        assert(stamps[stamps.len() - 1] == t);
    }
}

/// Putting an element in at its place keeps a sorted sequence sorted.
pub proof fn lemma_insert_sorted_is_sorted(stamps: Seq<Timestamp>, t: Timestamp)
    requires
        is_sorted(stamps),
    ensures
        is_sorted(insert_sorted(stamps, t)),
        insert_sorted(stamps, t).len() == stamps.len() + 1,
        insert_position(stamps, t) <= stamps.len(),
        forall|i: int|
            insert_position(stamps, t) <= i < stamps.len() ==> (#[trigger] stamps[i]).as_nanos()
                > t.as_nanos(),
        forall|i: int|
            0 <= i < insert_position(stamps, t) ==> (#[trigger] stamps[i]).as_nanos()
                <= t.as_nanos(),
    decreases stamps.len(),
{
    if stamps.len() > 0 && stamps.last().as_nanos() > t.as_nanos() {
        let head = stamps.drop_last();
        lemma_insert_sorted_is_sorted(head, t);
        assert forall|i: int| insert_position(stamps, t) <= i < stamps.len() implies (
        #[trigger] stamps[i]).as_nanos() > t.as_nanos() by {
            if i < head.len() {
                assert(head[i] == stamps[i]);
            }
        }
        assert forall|i: int| 0 <= i < insert_position(stamps, t) implies (
        #[trigger] stamps[i]).as_nanos() <= t.as_nanos() by {
            assert(head[i] == stamps[i]);
        }
    } else {
        assert forall|i: int| 0 <= i < insert_position(stamps, t) implies (
        #[trigger] stamps[i]).as_nanos() <= t.as_nanos() by {
            assert(stamps[i].as_nanos() <= stamps.last().as_nanos());
        }
    }
}

/// `sorted_stamps` sorts: its result is in order and holds what its
/// argument holds, each element as often.
pub proof fn lemma_sorted_stamps_sorts(stamps: Seq<Timestamp>)
    ensures
        is_sorted(sorted_stamps(stamps)),
        sorted_stamps(stamps).to_multiset() == stamps.to_multiset(),
        sorted_stamps(stamps).len() == stamps.len(),
    decreases stamps.len(),
{
    broadcast use vstd::seq_lib::group_to_multiset_ensures;

    if stamps.len() > 0 {
        let head = stamps.drop_last();
        let t = stamps.last();
        lemma_sorted_stamps_sorts(head);
        let sh = sorted_stamps(head);
        lemma_insert_sorted_is_sorted(sh, t);
        let p = insert_position(sh, t) as int;
        let out = sh.insert(p, t);
        assert(out.remove(p) =~= sh);
        assert(out[p] == t);
        assert(out.remove(p).to_multiset() == out.to_multiset().remove(t));
        assert(out.to_multiset().count(t) > 0) by {
            assert(out.contains(t));
        }
        assert(out.to_multiset() =~= sh.to_multiset().insert(t));
        assert(head.push(t) =~= stamps);
        assert(stamps.to_multiset() =~= head.to_multiset().insert(t));
    }
}

/// Filtering twice, the second time by a narrower test, is filtering once
/// by the narrower test.
pub proof fn lemma_filter_narrower<A>(s: Seq<A>, wide: spec_fn(A) -> bool, narrow: spec_fn(A) -> bool)
    requires
        forall|x: A| #[trigger] narrow(x) ==> wide(x),
    ensures
        s.filter(wide).filter(narrow) == s.filter(narrow),
        s.filter(narrow).len() <= s.filter(wide).len(),
    decreases s.len(),
{
    if s.len() == 0 {
        s.lemma_filter_len(wide);
        s.lemma_filter_len(narrow);
        s.filter(wide).lemma_filter_len(narrow);
        assert(s.filter(wide).filter(narrow) =~= s.filter(narrow));
    } else {
        let head = s.drop_last();
        let x = s.last();
        assert(head.push(x) =~= s);
        lemma_filter_narrower(head, wide, narrow);
        head.lemma_filter_push(x, wide);
        head.lemma_filter_push(x, narrow);
        if wide(x) {
            head.filter(wide).lemma_filter_push(x, narrow);
        }
    }
}

/// The series of windows that one client's attempts at `times` leave on
/// record, one after the other, beginning with nothing on record.
pub open spec fn replay(times: Seq<Timestamp>) -> Seq<Timestamp>
    decreases times.len(),
{
    if times.len() == 0 {
        Seq::empty()
    } else {
        stamps_after(replay(times.drop_last()), times.last())
    }
}

/// The attempts among `times` that were admitted.
pub open spec fn admitted(times: Seq<Timestamp>) -> Seq<Timestamp>
    decreases times.len(),
{
    if times.len() == 0 {
        Seq::empty()
    } else {
        let earlier = admitted(times.drop_last());
        if admits(replay(times.drop_last()), times.last()) {
            earlier.push(times.last())
        } else {
            earlier
        }
    }
}

/// The test for lying within the 24 hours that end at the instant `end`,
/// given in nanoseconds since the epoch.
pub open spec fn trailing_window(end: int) -> spec_fn(Timestamp) -> bool {
    |t: Timestamp| end - DOWNLOAD_WINDOW_NANOS < t.as_nanos() && t.as_nanos() <= end
}

/// What is on record after a series of attempts are the admitted ones that
/// are still within the window of the last attempt, and no admitted attempt
/// is later than the last attempt.
proof fn lemma_replay_is_live_admitted(times: Seq<Timestamp>)
    requires
        is_sorted(times),
        times.len() > 0,
    ensures
        replay(times) == live_stamps(admitted(times), times.last()),
        forall|i: int|
            0 <= i < admitted(times).len() ==> (#[trigger] admitted(times)[i]).as_nanos()
                <= times.last().as_nanos(),
    decreases times.len(),
{
    let head = times.drop_last();
    let t = times.last();
    let a = admitted(head);
    let r = replay(head);
    assert(is_sorted(head)) by {
        assert forall|i: int, j: int| 0 <= i <= j < head.len() implies head[i].as_nanos()
            <= head[j].as_nanos() by {
            assert(head[i] == times[i] && head[j] == times[j]);
        }
    }
    if head.len() == 0 {
        Seq::<Timestamp>::empty().lemma_filter_len(window_at(t));
        assert(live_stamps(r, t) =~= live_stamps(a, t));
    } else {
        lemma_replay_is_live_admitted(head);
        let last = head.last();
        assert(last == times[head.len() - 1]);
        assert(last.as_nanos() <= t.as_nanos());
        assert forall|x: Timestamp| #[trigger] window_at(t)(x) implies window_at(last)(x) by {}
        lemma_filter_narrower(a, window_at(last), window_at(t));
    }
    assert(live_stamps(r, t) == live_stamps(a, t));
    let live = live_stamps(a, t);
    lemma_live_stamps_push(a, t, t);
    if admits(r, t) {
        lemma_all_at_most(a, t, t.as_nanos());
        if live.len() > 0 {
            assert(live.last() == live[live.len() - 1]);
        }
        assert(insert_position(live, t) == live.len());
        assert(insert_sorted(live, t) =~= live.push(t));
    }
}

/// A bound on every element holds of every live element.
proof fn lemma_all_at_most(stamps: Seq<Timestamp>, now: Timestamp, bound: int)
    requires
        forall|i: int| 0 <= i < stamps.len() ==> (#[trigger] stamps[i]).as_nanos() <= bound,
    ensures
        forall|i: int|
            0 <= i < live_stamps(stamps, now).len() ==> (#[trigger] live_stamps(
                stamps,
                now,
            )[i]).as_nanos() <= bound,
    decreases stamps.len(),
{
    stamps.lemma_filter_len(window_at(now));
    if stamps.len() > 0 {
        let head = stamps.drop_last();
        let t = stamps.last();
        assert(head.push(t) =~= stamps);
        lemma_live_stamps_push(head, t, now);
        assert forall|i: int| 0 <= i < head.len() implies (#[trigger] head[i]).as_nanos()
            <= bound by {
            assert(head[i] == stamps[i]);
        }
        lemma_all_at_most(head, now, bound);
        assert(stamps[stamps.len() - 1] == t);
    }
}

/// The quota: when the clock does not run backwards, no 24 hours hold more
/// than ten admitted attempts of one client. `times` are the times of the
/// client's attempts in the order in which they were made, beginning with
/// nothing on record; `end` is the end of any window of 24 hours.
pub proof fn lemma_quota_in_every_window(times: Seq<Timestamp>, end: int)
    requires
        is_sorted(times),
    ensures
        admitted(times).filter(trailing_window(end)).len() <= DOWNLOAD_LIMIT_PER_DAY,
    decreases times.len(),
{
    if times.len() == 0 {
        admitted(times).lemma_filter_len(trailing_window(end));
    } else {
        let head = times.drop_last();
        let t = times.last();
        let a = admitted(head);
        assert(is_sorted(head)) by {
            assert forall|i: int, j: int| 0 <= i <= j < head.len() implies head[i].as_nanos()
                <= head[j].as_nanos() by {
                assert(head[i] == times[i] && head[j] == times[j]);
            }
        }
        lemma_quota_in_every_window(head, end);
        if admits(replay(head), t) {
            a.lemma_filter_push(t, trailing_window(end));
            if trailing_window(end)(t) {
                if head.len() == 0 {
                    a.lemma_filter_len(trailing_window(end));
                } else {
                    lemma_replay_is_live_admitted(head);
                    let last = head.last();
                    assert(last == times[head.len() - 1]);
                    assert forall|x: Timestamp| #[trigger] window_at(t)(x) implies window_at(
                        last,
                    )(x) by {}
                    lemma_filter_narrower(a, window_at(last), window_at(t));
                    // What is on record and live at `t` are the admitted
                    // attempts within the 24 hours before `t`, fewer than ten.
                    assert(live_stamps(replay(head), t) == live_stamps(a, t));
                    lemma_count_bounded_by_live(a, t, end);
                }
            }
        }
    }
}

/// The attempts within a window of 24 hours that holds `now` are among
/// those that are live at `now`.
proof fn lemma_count_bounded_by_live(stamps: Seq<Timestamp>, now: Timestamp, end: int)
    requires
        trailing_window(end)(now),
    ensures
        stamps.filter(trailing_window(end)).len() <= live_stamps(stamps, now).len(),
{
    assert forall|x: Timestamp| #[trigger] trailing_window(end)(x) implies window_at(now)(x) by {}
    lemma_filter_narrower(stamps, window_at(now), trailing_window(end));
}

/// The attempts of `stamps` that still count at `now`, in their order.
pub fn retain_live(stamps: &Vec<Timestamp>, now: &Timestamp) -> (live: Vec<Timestamp>)
    requires
        all_valid(stamps@),
        now.wf(),
    ensures
        live@ == live_stamps(stamps@, *now),
{
    let mut live: Vec<Timestamp> = Vec::new();
    let mut i: usize = 0;
    let floor: i128 = now.nanos_since_epoch() - DOWNLOAD_WINDOW_NANOS;
    while i < stamps.len()
        invariant
            i <= stamps.len(),
            all_valid(stamps@),
            floor == now.as_nanos() - DOWNLOAD_WINDOW_NANOS,
            live@ == live_stamps(stamps@.take(i as int), *now),
        decreases stamps.len() - i,
    {
        let t = stamps[i];
        proof {
            lemma_live_stamps_push(stamps@.take(i as int), t, *now);
            assert(stamps@.take(i as int).push(t) =~= stamps@.take(i as int + 1));
        }
        if t.nanos_since_epoch() > floor {
            live.push(t);
        }
        i += 1;
    }
    assert(stamps@.take(stamps.len() as int) =~= stamps@);
    live
}

/// Puts `t` into a vector at its place.
pub fn insert_stamp(stamps: &mut Vec<Timestamp>, t: Timestamp)
    requires
        all_valid(old(stamps)@),
        t.wf(),
    ensures
        final(stamps)@ == insert_sorted(old(stamps)@, t),
        all_valid(final(stamps)@),
{
    let mut p: usize = stamps.len();
    assert(stamps@.take(p as int) =~= stamps@);
    while p > 0 && t.is_before(&stamps[p - 1])
        invariant
            p <= stamps.len(),
            t.wf(),
            all_valid(stamps@),
            insert_position(stamps@, t) == insert_position(stamps@.take(p as int), t),
        decreases p,
    {
        assert(stamps@.take(p as int).drop_last() =~= stamps@.take(p as int - 1));
        p -= 1;
    }
    stamps.insert(p, t);
}

/// A copy of `stamps` in order.
pub fn sort_stamps(stamps: &Vec<Timestamp>) -> (sorted: Vec<Timestamp>)
    requires
        all_valid(stamps@),
    ensures
        sorted@ == sorted_stamps(stamps@),
        all_valid(sorted@),
{
    let mut sorted: Vec<Timestamp> = Vec::new();
    let mut i: usize = 0;
    while i < stamps.len()
        invariant
            i <= stamps.len(),
            all_valid(stamps@),
            all_valid(sorted@),
            sorted@ == sorted_stamps(stamps@.take(i as int)),
        decreases stamps.len() - i,
    {
        assert(stamps@.take(i as int + 1).drop_last() =~= stamps@.take(i as int));
        insert_stamp(&mut sorted, stamps[i]);
        i += 1;
    }
    assert(stamps@.take(stamps.len() as int) =~= stamps@);
    sorted
}

/// A valid window: not empty, in order, of valid timestamps.
pub open spec fn valid_window(stamps: Seq<Timestamp>) -> bool {
    stamps.len() > 0 && all_valid(stamps) && is_sorted(stamps)
}

/// The attempts on record, by client.
pub struct RateLimiter {
    pub windows: StrMap<Vec<Timestamp>>,
}

impl RateLimiter {
    /// Every client on record has a valid window.
    pub open spec fn wf(&self) -> bool {
        &&& self.windows.wf()
        &&& forall|k: Seq<char>|
            self.windows@.contains_key(k) ==> valid_window((#[trigger] self.windows@[k])@)
    }

    /// The attempts on record for `client`, empty for a client not on record.
    pub open spec fn stamps_of(&self, client: Seq<char>) -> Seq<Timestamp> {
        if self.windows@.contains_key(client) {
            self.windows@[client]@
        } else {
            Seq::empty()
        }
    }

    pub fn new() -> (limiter: RateLimiter)
        ensures
            limiter.wf(),
            forall|k: Seq<char>| limiter.stamps_of(k) == Seq::<Timestamp>::empty(),
    {
        RateLimiter { windows: StrMap::new() }
    }

    /// The attempts on record for `client`.
    pub fn recorded(&self, client: &str) -> (stamps: Vec<Timestamp>)
        requires
            self.wf(),
        ensures
            stamps@ == self.stamps_of(client@),
    {
        let mut stamps: Vec<Timestamp> = Vec::new();
        match self.windows.get(client) {
            Some(window) => {
                let mut i: usize = 0;
                while i < window.len()
                    invariant
                        i <= window.len(),
                        stamps@ == window@.take(i as int),
                    decreases window.len() - i,
                {
                    stamps.push(window[i]);
                    i += 1;
                    assert(stamps@ =~= window@.take(i as int));
                }
                assert(window@.take(window.len() as int) =~= window@);
            },
            None => {},
        }
        stamps
    }

    /// The number of clients on record.
    pub fn client_count(&self) -> (n: usize)
        requires
            self.wf(),
        ensures
            n == self.windows@.dom().len(),
    {
        self.windows.len()
    }

    /// The `i`-th client on record and its attempts, for writing the table
    /// out.
    pub fn client_at(&self, i: usize) -> (entry: (String, Vec<Timestamp>))
        requires
            self.wf(),
            i < self.windows@.dom().len(),
        ensures
            self.windows@.contains_key(entry.0@),
            entry.1@ == self.stamps_of(entry.0@),
            entry.0@ == self.windows.key_spec(i as int),
    {
        proof {
            self.windows.lemma_entries();
        }
        let client = self.windows.key_at(i).clone();
        assert(self.windows@.contains_key(self.windows.key_spec(i as int)));
        let stamps = self.recorded(client.as_str());
        (client, stamps)
    }
}

/// Judges an attempt of `ip` at `now` and records it if it is admitted. The
/// client's expired attempts are dropped either way; no other client's
/// record changes.
pub fn register_download_attempt_at(
    limiter: &mut RateLimiter,
    ip: &str,
    now: Timestamp,
) -> (r: Result<(), u64>)
    requires
        old(limiter).wf(),
        now.wf(),
    ensures
        final(limiter).wf(),
        r == admission(old(limiter).stamps_of(ip@), now),
        final(limiter).stamps_of(ip@) == stamps_after(old(limiter).stamps_of(ip@), now),
        forall|k: Seq<char>| k != ip@ ==> final(limiter).stamps_of(k) == old(limiter).stamps_of(k),
{
    let ghost before = old(limiter).stamps_of(ip@);
    let stamps: Vec<Timestamp> = match limiter.windows.remove(ip) {
        Some(window) => window,
        None => Vec::new(),
    };
    assert(stamps@ == before);
    assert(is_sorted(before) && all_valid(before));
    let mut live = retain_live(&stamps, &now);
    proof {
        lemma_live_stamps_keep_order(before, now);
    }
    let r: Result<(), u64> = if live.len() >= DOWNLOAD_LIMIT_PER_DAY {
        let oldest = live[0];
        let wait: i128 = oldest.nanos_since_epoch() + DOWNLOAD_WINDOW_NANOS
            - now.nanos_since_epoch();
        assert(in_window(oldest, now));
        let secs: i128 = wait / 1_000_000_000;
        if secs < 1 {
            Err(1)
        } else {
            Err(secs as u64)
        }
    } else {
        proof {
            lemma_insert_sorted_is_sorted(live@, now);
        }
        insert_stamp(&mut live, now);
        Ok(())
    };
    assert(valid_window(live@));
    limiter.windows.insert(ip.to_owned(), live);
    assert forall|k: Seq<char>| k != ip@ implies limiter.stamps_of(k) == old(limiter).stamps_of(
        k,
    ) by {}
    r
}

/// Judges an attempt of `ip` at the current time, as
/// `register_download_attempt_at` does, and words a refusal for the caller.
pub fn register_download_attempt(limiter: &mut RateLimiter, ip: &str) -> (r: Result<(), ApiError>)
    requires
        old(limiter).wf(),
    ensures
        final(limiter).wf(),
        forall|k: Seq<char>| k != ip@ ==> final(limiter).stamps_of(k) == old(limiter).stamps_of(k),
        exists|now: Timestamp|
            now.wf() && final(limiter).stamps_of(ip@) == #[trigger] stamps_after(
                old(limiter).stamps_of(ip@),
                now,
            ) && match admission(old(limiter).stamps_of(ip@), now) {
                Ok(_) => r is Ok,
                Err(wait) => r is Err && r->Err_0@ == daily_limit_exceeded_view(wait),
            },
{
    let now = utc_now();
    match register_download_attempt_at(limiter, ip, now) {
        Ok(()) => Ok(()),
        Err(wait) => Err(ApiError::daily_limit_exceeded(wait)),
    }
}

/// Takes up the attempts that were written out for `client`: they are put
/// in order, those outside the window at `now` are dropped, and a client
/// with none left is not on record. A record that `client` already has is
/// replaced.
pub fn restore_client(limiter: &mut RateLimiter, client: String, stamps: Vec<Timestamp>, now: Timestamp)
    requires
        old(limiter).wf(),
        all_valid(stamps@),
        now.wf(),
    ensures
        final(limiter).wf(),
        final(limiter).stamps_of(client@) == live_stamps(sorted_stamps(stamps@), now),
        forall|k: Seq<char>|
            k != client@ ==> final(limiter).stamps_of(k) == old(limiter).stamps_of(k),
{
    let sorted = sort_stamps(&stamps);
    proof {
        lemma_sorted_stamps_sorts(stamps@);
        lemma_live_stamps_keep_order(sorted@, now);
    }
    let live = retain_live(&sorted, &now);
    limiter.windows.remove(client.as_str());
    if live.len() > 0 {
        limiter.windows.insert(client, live);
    }
    assert forall|k: Seq<char>| k != client@ implies limiter.stamps_of(k) == old(
        limiter,
    ).stamps_of(k) by {}
}

/// The table that was written out, taken up at `now`: see `restore_client`.
/// Of two records for one client the later one counts.
pub fn load_rate_limits(
    entries: Vec<(String, Vec<Timestamp>)>,
    now: Timestamp,
) -> (limiter: RateLimiter)
    requires
        forall|i: int| 0 <= i < entries.len() ==> all_valid((#[trigger] entries[i]).1@),
        now.wf(),
    ensures
        limiter.wf(),
        forall|k: Seq<char>|
            limiter.stamps_of(k) == #[trigger] loaded_stamps(entries@, k, now),
{
    let mut limiter = RateLimiter::new();
    let mut entries = entries;
    let ghost all = entries@;
    let ghost mut done: int = all.len() as int;
    assert(all.skip(done) =~= Seq::<(String, Vec<Timestamp>)>::empty());
    // Taken from the back, so that each record is moved rather than copied;
    // a client that is already on record was written out later.
    while entries.len() > 0
        invariant
            limiter.wf(),
            now.wf(),
            0 <= done <= all.len(),
            entries@ == all.take(done),
            forall|i: int| 0 <= i < all.len() ==> all_valid((#[trigger] all[i]).1@),
            forall|k: Seq<char>|
                limiter.stamps_of(k) == #[trigger] loaded_stamps(all.skip(done), k, now),
        decreases entries.len(),
    {
        let entry = entries.pop().unwrap();
        let (client, stamps) = entry;
        proof {
            done = done - 1;
            assert(entry == all[done]);
            assert(all_valid(all[done].1@));
            assert(all.skip(done).drop_first() =~= all.skip(done + 1));
            assert(all.skip(done)[0] == all[done]);
            assert(entries@ =~= all.take(done));
        }
        let ghost prior = limiter;
        let ghost later = all.skip(done + 1);
        assert(prior.stamps_of(client@) == loaded_stamps(later, client@, now));
        if !limiter.windows.contains_key(client.as_str()) {
            restore_client(&mut limiter, client, stamps, now);
        }
        assert forall|k: Seq<char>| limiter.stamps_of(k) == #[trigger] loaded_stamps(
            all.skip(done),
            k,
            now,
        ) by {
            assert(prior.stamps_of(k) == loaded_stamps(later, k, now));
        }
    }
    assert(all.skip(0) =~= all);
    limiter
}

/// What is on record for `client` after `entries` were taken up at `now`.
pub open spec fn loaded_stamps(
    entries: Seq<(String, Vec<Timestamp>)>,
    client: Seq<char>,
    now: Timestamp,
) -> Seq<Timestamp>
    decreases entries.len(),
{
    if entries.len() == 0 {
        Seq::empty()
    } else {
        let later = loaded_stamps(entries.drop_first(), client, now);
        if later.len() > 0 || entries[0].0@ != client {
            later
        } else {
            live_stamps(sorted_stamps(entries[0].1@), now)
        }
    }
}

} // verus!
