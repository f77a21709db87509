//! Check-ins and the daily reset.

use vstd::prelude::*;
use crate::calendar::{
    day_text_law, get_date_string, get_timestamp_string, get_yesterday_date_string, rfc3339_text,
    utc_date_text, DAY_MS, MAX_TIMESTAMP_MS,
};
use crate::data::{FishingData, PersistentUserData, ProfileView, UserData, UserView};
use crate::gate::{acquire_outcome, lemma_single_flight, ResetGate};

verus! {

/// Why a check-in was refused.
#[derive(Debug, PartialEq)]
pub enum FishingError {
    /// The angler has already checked in today.
    AlreadyFished,
    /// The day window has ended: a reset must run before the check-in.
    ResetNeeded,
    /// The state could not be written.
    Internal(String),
}

impl FishingError {
    /// A short text for the error.
    pub fn message(&self) -> (r: String)
        ensures
            self is AlreadyFished ==> r@ == "ALREADY_FISHED"@,
            self is ResetNeeded ==> r@ == "RESET_NEEDED"@,
            self matches FishingError::Internal(s) ==> r@ == "Internal error: "@ + s@,
    {
        match self {
            FishingError::AlreadyFished => String::from_str("ALREADY_FISHED"),
            FishingError::ResetNeeded => String::from_str("RESET_NEEDED"),
            FishingError::Internal(s) => String::from_str("Internal error: ").concat(s.as_str()),
        }
    }
}

/// One more, where the count is not at its limit.
pub open spec fn bump(n: u64) -> u64 {
    if n < u64::MAX {
        (n + 1) as u64
    } else {
        n
    }
}

/// Whether the day window that began at `last_reset` has ended by `now`:
/// the two fall on different UTC dates, or the start lies beyond the calendar.
pub open spec fn reset_due(last_reset: u64, now: u64) -> bool {
    last_reset > MAX_TIMESTAMP_MS || utc_date_text(last_reset as int) != utc_date_text(now as int)
}

/// The streak after a check-in `today`, given the profile's last date: one
/// more after a check-in yesterday, unchanged after one today, else 1.
pub open spec fn next_streak(p: ProfileView, today: Seq<char>, yesterday: Seq<char>) -> u64 {
    if p.last_fished_date == yesterday {
        bump(p.streak)
    } else if p.last_fished_date != today {
        1
    } else {
        p.streak
    }
}

/// An angler's profile after a check-in `today` under the name `name`.
pub open spec fn profile_after_checkin(
    prior: Option<ProfileView>,
    name: Seq<char>,
    today: Seq<char>,
    yesterday: Seq<char>,
) -> ProfileView {
    match prior {
        None => ProfileView { username: name, streak: 1, last_fished_date: today, total_catches: 1 },
        Some(p) => ProfileView {
            username: name,
            streak: next_streak(p, today, yesterday),
            last_fished_date: today,
            total_catches: bump(p.total_catches),
        },
    }
}

/// The configuration of the two states is the same.
pub open spec fn same_settings(a: FishingData, b: FishingData) -> bool {
    &&& a.button_message_id == b.button_message_id
    &&& a.button_channel_id == b.button_channel_id
    &&& a.tracked_role_id == b.tracked_role_id
    &&& a.summary_channel_id == b.summary_channel_id
    &&& a.guild_id == b.guild_id
    &&& a.ping_reminder_enabled == b.ping_reminder_enabled
    &&& a.best_angler_streak == b.best_angler_streak
    &&& a.reminder_threshold == b.reminder_threshold
}

/// The outcome of a check-in by `id` under `name` at `now`, taking the pond
/// from `pre` to `post` with result `r`.
pub open spec fn checkin_outcome(
    pre: FishingData,
    post: FishingData,
    id: Seq<char>,
    name: Seq<char>,
    now: u64,
    r: Result<(u64, u64, u64), FishingError>,
) -> bool {
    if reset_due(pre.last_reset_timestamp, now) {
        r == Err::<(u64, u64, u64), FishingError>(FishingError::ResetNeeded) && post == pre
    } else if pre.users@.contains_key(id) {
        r == Err::<(u64, u64, u64), FishingError>(FishingError::AlreadyFished) && post == pre
    } else {
        let profile = profile_after_checkin(
            if pre.persistent_users@.contains_key(id) {
                Some(pre.persistent_users@[id])
            } else {
                None
            },
            name,
            utc_date_text(now as int),
            utc_date_text(now - DAY_MS),
        );
        &&& post.persistent_users@ == pre.persistent_users@.insert(id, profile)
        &&& post.users@ == pre.users@.insert(
            id,
            UserView { username: name, fished_at: rfc3339_text(now as int) },
        )
        &&& post.daily_count == bump(pre.daily_count)
        &&& post.last_reset_timestamp == pre.last_reset_timestamp
        &&& same_settings(pre, post)
        &&& r == Ok::<(u64, u64, u64), FishingError>(
            (profile.streak, profile.total_catches, post.daily_count),
        )
    }
}

/// The profiles after a reset: whoever did not check in during the ending
/// day loses the streak; the rest stay as they were.
pub open spec fn profiles_after_reset(
    profiles: Map<Seq<char>, ProfileView>,
    fished: Set<Seq<char>>,
) -> Map<Seq<char>, ProfileView> {
    Map::new(
        |k: Seq<char>| profiles.contains_key(k),
        |k: Seq<char>|
            if fished.contains(k) {
                profiles[k]
            } else {
                ProfileView { streak: 0, ..profiles[k] }
            },
    )
}

/// The pond `post` is `pre` after a reset at `now`.
pub open spec fn reset_outcome(pre: FishingData, post: FishingData, now: u64) -> bool {
    &&& post.persistent_users@ == profiles_after_reset(pre.persistent_users@, pre.users@.dom())
    &&& post.users@ == Map::<Seq<char>, UserView>::empty()
    &&& post.daily_count == 0
    &&& post.last_reset_timestamp == now
    &&& same_settings(pre, post)
}

/// Whether the day window has ended by `now`.
pub fn is_reset_due(last_reset: u64, now: u64) -> (r: bool)
    requires
        now <= MAX_TIMESTAMP_MS,
    ensures
        r == reset_due(last_reset, now),
        last_reset <= MAX_TIMESTAMP_MS ==> r == (last_reset / DAY_MS != now / DAY_MS),
{
    if last_reset > MAX_TIMESTAMP_MS {
        true
    } else {
        crate::calendar::should_reset(last_reset, now)
    }
}

fn bump_count(n: u64) -> (r: u64)
    ensures
        r == bump(n),
{
    if n < u64::MAX {
        n + 1
    } else {
        n
    }
}

impl FishingData {
    /// Records the check-in of angler `user_id` under `username` at `now`,
    /// and returns the angler's streak and total and today's count.
    ///
    /// Refused with `ResetNeeded`, changing nothing, once the day window has
    /// ended; with `AlreadyFished`, changing nothing, where the angler has
    /// already checked in today.
    pub fn record_checkin(&mut self, user_id: String, username: String, now: u64) -> (r: Result<
        (u64, u64, u64),
        FishingError,
    >)
        requires
            old(self).wf(),
            now <= MAX_TIMESTAMP_MS,
        ensures
            final(self).wf(),
            checkin_outcome(*old(self), *final(self), user_id@, username@, now, r),
            day_text_law(now as int),
            day_text_law(now - DAY_MS),
    {
        let today_date = get_date_string(now);
        let yesterday_date = get_yesterday_date_string(now);
        if is_reset_due(self.last_reset_timestamp, now) {
            return Err(FishingError::ResetNeeded);
        }
        if self.users.contains_key(&user_id) {
            return Err(FishingError::AlreadyFished);
        }
        let profile = match self.persistent_users.get(&user_id) {
            None => PersistentUserData {
                username: username.clone(),
                streak: 1,
                last_fished_date: today_date.clone(),
                total_catches: 1,
            },
            Some(p) => {
                let streak = if p.last_fished_date == yesterday_date {
                    bump_count(p.streak)
                } else if p.last_fished_date != today_date {
                    1
                } else {
                    p.streak
                };
                PersistentUserData {
                    username: username.clone(),
                    streak,
                    last_fished_date: today_date.clone(),
                    total_catches: bump_count(p.total_catches),
                }
            },
        };
        let streak = profile.streak;
        let total = profile.total_catches;
        self.persistent_users.insert(user_id.clone(), profile);
        let fished_at = get_timestamp_string(now);
        self.users.insert(user_id, UserData { username, fished_at });
        self.daily_count = bump_count(self.daily_count);
        Ok((streak, total, self.daily_count))
    }

    /// Ends the day window at `now`: every angler who did not check in since
    /// the last reset loses the streak, then today's check-ins and count are
    /// cleared and the new window begins at `now`.
    pub fn reset_daily_data(&mut self, now: u64)
        requires
            old(self).wf(),
        ensures
            final(self).wf(),
            reset_outcome(*old(self), *final(self), now),
    {
        let n = self.persistent_users.len();
        let ghost pre = self.persistent_users@;
        let ghost fished = self.users@.dom();
        let ghost f = profiles_after_reset(pre, fished);
        proof { old(self).persistent_users.lemma_positions(); }
        let mut i: usize = 0;
        while i < n
            invariant
                self.wf(),
                self.users == old(self).users,
                same_settings(*old(self), *self),
                self.daily_count == old(self).daily_count,
                self.last_reset_timestamp == old(self).last_reset_timestamp,
                fished == self.users@.dom(),
                pre == old(self).persistent_users@,
                f == profiles_after_reset(pre, fished),
                n == self.persistent_users.spec_len(),
                n == old(self).persistent_users.spec_len(),
                i <= n,
                forall|j: int| 0 <= j < n ==> self.persistent_users.key_at(j)
                    == old(self).persistent_users.key_at(j),
                self.persistent_users@.dom() == pre.dom(),
                forall|j: int|
                    0 <= j < n ==> #[trigger] self.persistent_users@[self.persistent_users.key_at(j)]
                        == if j < i {
                        f[old(self).persistent_users.key_at(j)]
                    } else {
                        pre[old(self).persistent_users.key_at(j)]
                    },
            decreases n - i,
        {
            proof { self.persistent_users.lemma_positions(); }
            let fished_today = self.users.contains_key(self.persistent_users.key(i));
            if !fished_today {
                let mut p = self.persistent_users.value(i).duplicate();
                p.streak = 0;
                self.persistent_users.set_value(i, p);
            }
            proof {
                let ki = old(self).persistent_users.key_at(i as int);
                assert(pre.contains_key(ki));
                assert forall|j: int|
                    0 <= j < n implies #[trigger] self.persistent_users@[self.persistent_users.key_at(j)]
                        == if j < i + 1 {
                        f[old(self).persistent_users.key_at(j)]
                    } else {
                        pre[old(self).persistent_users.key_at(j)]
                    } by {
                    if j != i {
                        assert(old(self).persistent_users.key_at(j) != ki);
                    }
                }
            }
            i = i + 1;
        }
        proof {
            self.persistent_users.lemma_positions();
            assert forall|k: Seq<char>| #[trigger] self.persistent_users@.contains_key(k) implies self.persistent_users@[k] == f[k] by {
                let j = choose|j: int| 0 <= j < n && self.persistent_users.key_at(j) == k;
                assert(self.persistent_users@[self.persistent_users.key_at(j)] == f[k]);
            }
            assert(self.persistent_users@ =~= f);
        }
        self.users.clear();
        self.daily_count = 0;
        self.last_reset_timestamp = now;
    }
}

/// Two check-ins by one angler on one date: at most one succeeds, and where
/// the day window is open and the angler has not fished yet, the first
/// succeeds and the second is refused with `AlreadyFished`, changing nothing.
pub proof fn lemma_one_checkin_per_day(
    s0: FishingData,
    s1: FishingData,
    s2: FishingData,
    id: Seq<char>,
    name1: Seq<char>,
    name2: Seq<char>,
    t1: u64,
    t2: u64,
    r1: Result<(u64, u64, u64), FishingError>,
    r2: Result<(u64, u64, u64), FishingError>,
)
    requires
        checkin_outcome(s0, s1, id, name1, t1, r1),
        checkin_outcome(s1, s2, id, name2, t2, r2),
        utc_date_text(t1 as int) == utc_date_text(t2 as int),
    ensures
        !(r1 is Ok && r2 is Ok),
        !reset_due(s0.last_reset_timestamp, t1) && !s0.users@.contains_key(id) ==> {
            &&& r1 is Ok
            &&& r2 == Err::<(u64, u64, u64), FishingError>(FishingError::AlreadyFished)
            &&& s2 == s1
        },
{
    if r1 is Ok {
        assert(s1.users@.contains_key(id));
    }
}

/// The streak rules of a successful check-in: a first check-in gives streak
/// 1 and total 1; after a check-in yesterday the streak grows by one; after
/// a longer gap it starts again at 1; the total grows by one each time.
pub proof fn lemma_streak_rules(
    pre: FishingData,
    post: FishingData,
    id: Seq<char>,
    name: Seq<char>,
    now: u64,
    r: Result<(u64, u64, u64), FishingError>,
)
    requires
        checkin_outcome(pre, post, id, name, now, r),
        r is Ok,
    ensures
        post.persistent_users@.contains_key(id),
        post.persistent_users@[id].last_fished_date == utc_date_text(now as int),
        r->Ok_0.0 == post.persistent_users@[id].streak,
        r->Ok_0.1 == post.persistent_users@[id].total_catches,
        !pre.persistent_users@.contains_key(id) ==> post.persistent_users@[id].streak == 1
            && post.persistent_users@[id].total_catches == 1,
        pre.persistent_users@.contains_key(id) && pre.persistent_users@[id].last_fished_date
            == utc_date_text(now - DAY_MS) && pre.persistent_users@[id].streak < u64::MAX
            ==> post.persistent_users@[id].streak == pre.persistent_users@[id].streak + 1,
        pre.persistent_users@.contains_key(id) && pre.persistent_users@[id].last_fished_date
            != utc_date_text(now - DAY_MS) && pre.persistent_users@[id].last_fished_date
            != utc_date_text(now as int) ==> post.persistent_users@[id].streak == 1,
        pre.persistent_users@.contains_key(id) && pre.persistent_users@[id].total_catches
            < u64::MAX ==> post.persistent_users@[id].total_catches
            == pre.persistent_users@[id].total_catches + 1,
{
}

/// The streak rules over day numbers, for a profile whose last date is the
/// date text of the moment `last`, no later than `now`: a check-in the day
/// after grows the streak by one, a check-in two or more days after starts it
/// again at 1, and a second check-in on the same day keeps it.
pub proof fn lemma_streak_by_days(
    pre: FishingData,
    post: FishingData,
    id: Seq<char>,
    name: Seq<char>,
    now: u64,
    r: Result<(u64, u64, u64), FishingError>,
    last: int,
)
    requires
        checkin_outcome(pre, post, id, name, now, r),
        day_text_law(now as int),
        day_text_law(now - DAY_MS),
        r is Ok,
        pre.persistent_users@.contains_key(id),
        pre.persistent_users@[id].last_fished_date == utc_date_text(last),
        0 <= last <= now,
        now <= MAX_TIMESTAMP_MS,
    ensures
        last / (DAY_MS as int) == (now as int) / (DAY_MS as int) - 1 && pre.persistent_users@[id].streak
            < u64::MAX ==> post.persistent_users@[id].streak == pre.persistent_users@[id].streak + 1,
        last / (DAY_MS as int) < (now as int) / (DAY_MS as int) - 1 ==> post.persistent_users@[id].streak == 1,
        last / (DAY_MS as int) == (now as int) / (DAY_MS as int) ==> post.persistent_users@[id].streak
            == pre.persistent_users@[id].streak,
{
    assert((now - DAY_MS) / (DAY_MS as int) == (now as int) / (DAY_MS as int) - 1);
    assert(utc_date_text(now - DAY_MS) == utc_date_text(last) <==> (now - DAY_MS) / (DAY_MS as int)
        == last / (DAY_MS as int));
    assert(utc_date_text(now as int) == utc_date_text(last) <==> (now as int) / (DAY_MS as int)
        == last / (DAY_MS as int));
}

/// An angler's story over four days, `d` to `d + 3`, from a pond where it is
/// new: a check-in on day `d` gives streak 1 and total 1; after a reset, a
/// check-in on day `d + 1` gives streak 2 and total 2; resets on days `d + 2`
/// and `d + 3` with no check-in between zero the streak; a check-in on day
/// `d + 3` then gives streak 1 and total 3.
pub proof fn lemma_four_day_story(
    s0: FishingData,
    s1: FishingData,
    s2: FishingData,
    s3: FishingData,
    s4: FishingData,
    s5: FishingData,
    s6: FishingData,
    id: Seq<char>,
    name: Seq<char>,
    t1: u64,
    t2: u64,
    t3: u64,
    t4: u64,
    t5: u64,
    t6: u64,
    d: int,
    r1: Result<(u64, u64, u64), FishingError>,
    r3: Result<(u64, u64, u64), FishingError>,
    r6: Result<(u64, u64, u64), FishingError>,
)
    requires
        !s0.users@.contains_key(id),
        !s0.persistent_users@.contains_key(id),
        s0.last_reset_timestamp <= MAX_TIMESTAMP_MS,
        s0.last_reset_timestamp / DAY_MS == d,
        t1 <= MAX_TIMESTAMP_MS && t1 / DAY_MS == d,
        t2 <= MAX_TIMESTAMP_MS && t2 / DAY_MS == d + 1,
        t3 <= MAX_TIMESTAMP_MS && t3 / DAY_MS == d + 1,
        t4 <= MAX_TIMESTAMP_MS && t4 / DAY_MS == d + 2,
        t5 <= MAX_TIMESTAMP_MS && t5 / DAY_MS == d + 3,
        t6 <= MAX_TIMESTAMP_MS && t6 / DAY_MS == d + 3,
        checkin_outcome(s0, s1, id, name, t1, r1),
        day_text_law(t1 as int),
        reset_outcome(s1, s2, t2),
        checkin_outcome(s2, s3, id, name, t3, r3),
        day_text_law(t3 as int),
        day_text_law(t3 - DAY_MS),
        reset_outcome(s3, s4, t4),
        reset_outcome(s4, s5, t5),
        checkin_outcome(s5, s6, id, name, t6, r6),
        day_text_law(t6 as int),
        day_text_law(t6 - DAY_MS),
    ensures
        r1 is Ok && r1->Ok_0.0 == 1 && r1->Ok_0.1 == 1,
        r3 is Ok && r3->Ok_0.0 == 2 && r3->Ok_0.1 == 2,
        s5.persistent_users@[id].streak == 0,
        r6 is Ok && r6->Ok_0.0 == 1 && r6->Ok_0.1 == 3,
{
    let day = DAY_MS as int;
    assert(utc_date_text(t1 as int) == utc_date_text(s0.last_reset_timestamp as int));
    assert(s1.persistent_users@.contains_key(id));
    assert(s2.persistent_users@.contains_key(id));
    assert(utc_date_text(t3 as int) == utc_date_text(t2 as int));
    assert((t3 - DAY_MS) / day == (t1 as int) / day);
    assert(utc_date_text(t3 - DAY_MS) == utc_date_text(t1 as int));
    assert(s3.persistent_users@.contains_key(id));
    assert(s4.persistent_users@.contains_key(id));
    assert(s5.persistent_users@.contains_key(id));
    assert(!s4.users@.contains_key(id));
    assert(utc_date_text(t6 as int) == utc_date_text(t5 as int));
    assert((t6 - DAY_MS) / day == d + 2);
    assert(utc_date_text(t6 - DAY_MS) != utc_date_text(t3 as int));
    assert(utc_date_text(t6 as int) != utc_date_text(t3 as int));
}

/// A successful check-in keeps today's count equal to the number of today's
/// check-ins, where it held before and the count was below its limit.
pub proof fn lemma_count_matches_records(
    pre: FishingData,
    post: FishingData,
    id: Seq<char>,
    name: Seq<char>,
    now: u64,
    r: Result<(u64, u64, u64), FishingError>,
)
    requires
        pre.wf(),
        checkin_outcome(pre, post, id, name, now, r),
        pre.daily_count == pre.users@.len(),
        pre.daily_count < u64::MAX,
    ensures
        post.daily_count == post.users@.len(),
{
    pre.users.lemma_dom_len();
}

/// After a reset no check-in of today remains and the count is zero; every
/// angler without a check-in in the ending day has streak 0, and the profiles
/// of those who checked in are untouched.
pub proof fn lemma_reset_rules(pre: FishingData, post: FishingData, now: u64)
    requires
        reset_outcome(pre, post, now),
    ensures
        post.daily_count == 0,
        post.users@.is_empty(),
        post.daily_count == post.users@.len(),
        post.persistent_users@.dom() == pre.persistent_users@.dom(),
        forall|k: Seq<char>|
            #[trigger] post.persistent_users@.contains_key(k) && !pre.users@.contains_key(k)
                ==> post.persistent_users@[k].streak == 0,
        forall|k: Seq<char>|
            #[trigger] post.persistent_users@.contains_key(k) && pre.users@.contains_key(k)
                ==> post.persistent_users@[k] == pre.persistent_users@[k],
{
    assert(post.persistent_users@.dom() =~= pre.persistent_users@.dom());
}

/// Resets asked for together through one gate, with no release between
/// them: the first runs and the rest change nothing, so the day window's start
/// moves once, to the time of the first.
pub proof fn lemma_gated_resets(
    gates: Seq<ResetGate>,
    answers: Seq<bool>,
    ponds: Seq<FishingData>,
    times: Seq<u64>,
)
    requires
        answers.len() >= 1,
        gates.len() == answers.len() + 1,
        ponds.len() == answers.len() + 1,
        times.len() == answers.len(),
        !gates[0].is_resetting(),
        forall|i: int|
            0 <= i < answers.len() ==> acquire_outcome(gates[i], gates[i + 1], #[trigger] answers[i]),
        forall|i: int|
            0 <= i < answers.len() && #[trigger] answers[i] ==> reset_outcome(ponds[i], ponds[i + 1], times[i]),
        forall|i: int| 0 <= i < answers.len() && !#[trigger] answers[i] ==> ponds[i + 1] == ponds[i],
    ensures
        forall|i: int| 1 <= i <= answers.len() ==> #[trigger] ponds[i].last_reset_timestamp == times[0],
{
    lemma_single_flight(gates, answers);
    assert(answers[0]);
    assert forall|i: int| 1 <= i <= answers.len() implies #[trigger] ponds[i].last_reset_timestamp == times[0] by {
        lemma_gated_prefix(answers, ponds, times, i);
    }
}

proof fn lemma_gated_prefix(answers: Seq<bool>, ponds: Seq<FishingData>, times: Seq<u64>, i: int)
    requires
        answers.len() >= 1,
        ponds.len() == answers.len() + 1,
        times.len() == answers.len(),
        1 <= i <= answers.len(),
        answers[0],
        forall|j: int| 1 <= j < answers.len() ==> !answers[j],
        forall|j: int|
            0 <= j < answers.len() && #[trigger] answers[j] ==> reset_outcome(ponds[j], ponds[j + 1], times[j]),
        forall|j: int| 0 <= j < answers.len() && !#[trigger] answers[j] ==> ponds[j + 1] == ponds[j],
    ensures
        ponds[i].last_reset_timestamp == times[0],
    decreases i,
{
    if i > 1 {
        lemma_gated_prefix(answers, ponds, times, i - 1);
        assert(!answers[i - 1]);
    } else {
        assert(answers[0]);
    }
}

} // verus!
