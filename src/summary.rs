//! Read-only views of the pond for the daily summary: the best anglers and
//! who is due for a reminder.

use vstd::prelude::*;
use crate::calendar::{day_or_epoch, get_date_string, get_days_difference, utc_date_text, MAX_TIMESTAMP_MS};
use crate::data::{FishingData, ProfileView};

verus! {

/// The most best anglers a summary shows.
pub const BEST_ANGLERS_SHOWN: usize = 10;

/// One line of the best anglers.
pub struct BestAngler {
    pub user_id: String,
    pub username: String,
    pub streak: u64,
    pub total_catches: u64,
}

/// `a` stands at least as high as `b`: a longer streak, or the same streak
/// and at least as many catches.
pub open spec fn ranks_at_least(a: ProfileView, b: ProfileView) -> bool {
    a.streak > b.streak || (a.streak == b.streak && a.total_catches >= b.total_catches)
}

/// Angler `id` has a profile whose streak reaches the configured least streak.
pub open spec fn is_best_angler(d: FishingData, id: Seq<char>) -> bool {
    d.persistent_users@.contains_key(id) && d.persistent_users@[id].streak >= d.best_angler_streak
}

/// The line shows the angler's profile as it stands.
pub open spec fn shows_profile(d: FishingData, row: BestAngler) -> bool {
    let p = d.persistent_users@[row.user_id@];
    &&& is_best_angler(d, row.user_id@)
    &&& row.username@ == p.username
    &&& row.streak == p.streak
    &&& row.total_catches == p.total_catches
}

/// Angler `id` is due for a reminder on the date `today`: no check-in since
/// the last reset, and at least the configured number of days since the last
/// one; an angler with no profile is due at once.
pub open spec fn due_for_reminder(d: FishingData, id: Seq<char>, today: Seq<char>) -> bool {
    &&& !d.users@.contains_key(id)
    &&& d.persistent_users@.contains_key(id) ==> day_or_epoch(today) - day_or_epoch(
        d.persistent_users@[id].last_fished_date,
    ) >= d.reminder_threshold
}

/// The members of `roster`, in order, that are due for a reminder on `today`.
pub open spec fn reminder_targets(d: FishingData, roster: Seq<String>, today: Seq<char>) -> Seq<
    Seq<char>,
>
    decreases roster.len(),
{
    if roster.len() == 0 {
        Seq::empty()
    } else {
        let rest = reminder_targets(d, roster.drop_last(), today);
        if due_for_reminder(d, roster.last()@, today) {
            rest.push(roster.last()@)
        } else {
            rest
        }
    }
}

/// The members of `roster`, in order, without a check-in since the last reset.
pub open spec fn absentees(d: FishingData, roster: Seq<String>) -> Seq<Seq<char>>
    decreases roster.len(),
{
    if roster.len() == 0 {
        Seq::empty()
    } else {
        let rest = absentees(d, roster.drop_last());
        if !d.users@.contains_key(roster.last()@) {
            rest.push(roster.last()@)
        } else {
            rest
        }
    }
}

spec fn profile_at(d: FishingData, p: int) -> ProfileView {
    d.persistent_users@[d.persistent_users.key_at(p)]
}

spec fn eligible_at(d: FishingData, p: int) -> bool {
    profile_at(d, p).streak >= d.best_angler_streak
}

impl FishingData {
    /// The best anglers, highest first: those whose streak reaches the
    /// configured least streak, by streak and then by total catches, at most
    /// ten of them. Any such angler left out ranks no higher than each shown.
    pub fn best_anglers(&self) -> (r: Vec<BestAngler>)
        requires
            self.wf(),
        ensures
            r.len() <= BEST_ANGLERS_SHOWN,
            forall|t: int| 0 <= t < r.len() ==> shows_profile(*self, #[trigger] r[t]),
            forall|t: int, u: int| 0 <= t < u < r.len() ==> r[t].user_id@ != r[u].user_id@,
            forall|t: int, u: int|
                0 <= t < u < r.len() ==> ranks_at_least(
                    self.persistent_users@[r[t].user_id@],
                    self.persistent_users@[r[u].user_id@],
                ),
            forall|k: Seq<char>|
                #[trigger] is_best_angler(*self, k) ==> (exists|t: int|
                    0 <= t < r.len() && r[t].user_id@ == k) || (r.len() == BEST_ANGLERS_SHOWN
                    && forall|t: int|
                    0 <= t < r.len() ==> ranks_at_least(
                        self.persistent_users@[r[t].user_id@],
                        self.persistent_users@[k],
                    )),
    {
        let n = self.persistent_users.len();
        proof { self.persistent_users.lemma_positions(); }
        let mut taken: Vec<bool> = Vec::new();
        let mut i: usize = 0;
        while i < n
            invariant
                i <= n,
                taken@.len() == i,
                forall|p: int| 0 <= p < i ==> !taken@[p],
            decreases n - i,
        {
            taken.push(false);
            i = i + 1;
        }
        let mut out: Vec<BestAngler> = Vec::new();
        let ghost mut picked: Seq<int> = Seq::empty();
        while out.len() < BEST_ANGLERS_SHOWN
            invariant
                self.wf(),
                n == self.persistent_users.spec_len(),
                taken@.len() == n,
                picked.len() == out@.len(),
                out@.len() <= BEST_ANGLERS_SHOWN,
                forall|t: int| 0 <= t < picked.len() ==> 0 <= #[trigger] picked[t] < n && taken@[picked[t]],
                forall|p: int| 0 <= p < n && #[trigger] taken@[p] ==> exists|t: int| 0 <= t < picked.len() && picked[t] == p,
                forall|t: int, u: int| 0 <= t < u < picked.len() ==> picked[t] != picked[u],
                forall|t: int| 0 <= t < picked.len() ==> eligible_at(*self, #[trigger] picked[t]),
                forall|t: int| 0 <= t < out@.len() ==> (#[trigger] out@[t]).user_id@ == self.persistent_users.key_at(picked[t])
                    && out@[t].username@ == profile_at(*self, picked[t]).username
                    && out@[t].streak == profile_at(*self, picked[t]).streak
                    && out@[t].total_catches == profile_at(*self, picked[t]).total_catches,
                forall|t: int, u: int| 0 <= t < u < picked.len() ==> ranks_at_least(
                    profile_at(*self, picked[t]), profile_at(*self, picked[u])),
                forall|t: int, p: int| 0 <= t < picked.len() && 0 <= p < n && !taken@[p] && eligible_at(*self, p)
                    ==> ranks_at_least(profile_at(*self, #[trigger] picked[t]), #[trigger] profile_at(*self, p)),
            ensures
                out@.len() == BEST_ANGLERS_SHOWN || forall|p: int| 0 <= p < n ==> taken@[p] || !eligible_at(*self, p),
            decreases BEST_ANGLERS_SHOWN - out@.len(),
        {
            let mut best: Option<usize> = None;
            let mut j: usize = 0;
            while j < n
                invariant
                    self.wf(),
                    n == self.persistent_users.spec_len(),
                    taken@.len() == n,
                    j <= n,
                    best matches Some(b) ==> b < j && !taken@[b as int] && eligible_at(*self, b as int)
                        && forall|q: int| 0 <= q < j && !taken@[q] && eligible_at(*self, q) ==> ranks_at_least(
                        profile_at(*self, b as int), #[trigger] profile_at(*self, q)),
                    best is None ==> forall|q: int| 0 <= q < j ==> taken@[q] || !eligible_at(*self, q),
                decreases n - j,
            {
                let p = self.persistent_users.value(j);
                if !taken[j] && p.streak >= self.best_angler_streak {
                    match best {
                        None => {
                            best = Some(j);
                        },
                        Some(b) => {
                            let pb = self.persistent_users.value(b);
                            if p.streak > pb.streak || (p.streak == pb.streak && p.total_catches
                                > pb.total_catches) {
                                best = Some(j);
                            }
                        },
                    }
                }
                j = j + 1;
            }
            match best {
                None => {
                    break;
                },
                Some(b) => {
                    let p = self.persistent_users.value(b);
                    let row = BestAngler {
                        user_id: self.persistent_users.key(b).clone(),
                        username: p.username.clone(),
                        streak: p.streak,
                        total_catches: p.total_catches,
                    };
                    let ghost old_taken = taken@;
                    let ghost old_picked = picked;
                    let ghost r = row;
                    out.push(row);
                    taken.set(b, true);
                    proof {
                        picked = picked.push(b as int);
                        assert forall|p: int| 0 <= p < n && #[trigger] taken@[p] implies exists|t: int|
                            0 <= t < picked.len() && picked[t] == p by {
                            if p == b {
                                assert(picked[picked.len() - 1] == p);
                            } else {
                                assert(old_taken[p]);
                                let t = choose|t: int| 0 <= t < old_picked.len() && old_picked[t] == p;
                                assert(picked[t] == p);
                            }
                        }
                        assert(out@[out@.len() - 1] == r);
                    }
                },
            }
        }
        proof {
            assert forall|k: Seq<char>|
                #[trigger] is_best_angler(*self, k) implies (exists|t: int|
                    0 <= t < out@.len() && out@[t].user_id@ == k) || (out@.len() == BEST_ANGLERS_SHOWN
                    && forall|t: int|
                    0 <= t < out@.len() ==> ranks_at_least(
                        self.persistent_users@[out@[t].user_id@],
                        self.persistent_users@[k],
                    )) by {
                let p = choose|p: int| 0 <= p < n && self.persistent_users.key_at(p) == k;
                assert(eligible_at(*self, p));
                if taken@[p] {
                    let t = choose|t: int| 0 <= t < picked.len() && picked[t] == p;
                    assert(out@[t].user_id@ == k);
                } else {
                    assert forall|t: int| 0 <= t < out@.len() implies ranks_at_least(
                        self.persistent_users@[out@[t].user_id@],
                        self.persistent_users@[k],
                    ) by {
                        assert(ranks_at_least(profile_at(*self, picked[t]), profile_at(*self, p)));
                    }
                }
            }
            assert forall|t: int, u: int| 0 <= t < u < out@.len() implies out@[t].user_id@ != out@[u].user_id@ by {
                assert(picked[t] != picked[u]);
            }
            assert forall|t: int| 0 <= t < out@.len() implies shows_profile(*self, #[trigger] out@[t]) by {
                assert(eligible_at(*self, picked[t]));
            }
        }
        out
    }

    /// The members of `roster`, in order, that are due for a reminder on the
    /// UTC date of `now`.
    pub fn reminder_list(&self, roster: &Vec<String>, now: u64) -> (r: Vec<String>)
        requires
            self.wf(),
            now <= MAX_TIMESTAMP_MS,
        ensures
            r@.map_values(|s: String| s@) == reminder_targets(*self, roster@, utc_date_text(now as int)),
    {
        let today = get_date_string(now);
        let mut out: Vec<String> = Vec::new();
        let mut i: usize = 0;
        while i < roster.len()
            invariant
                self.wf(),
                i <= roster@.len(),
                today@ == utc_date_text(now as int),
                out@.map_values(|s: String| s@) == reminder_targets(*self, roster@.take(i as int), today@),
            decreases roster@.len() - i,
        {
            let id = &roster[i];
            let due = if self.users.contains_key(id) {
                false
            } else {
                match self.persistent_users.get(id) {
                    None => true,
                    Some(p) => {
                        let days = get_days_difference(p.last_fished_date.as_str(), today.as_str());
                        days >= 0 && days as u64 >= self.reminder_threshold
                    },
                }
            };
            proof {
                assert(roster@.take(i + 1).drop_last() =~= roster@.take(i as int));
                assert(roster@.take(i + 1).last() == roster@[i as int]);
            }
            if due {
                out.push(id.clone());
                proof {
                    assert(out@.map_values(|s: String| s@) =~= reminder_targets(*self, roster@.take(i as int), today@).push(id@));
                }
            }
            i = i + 1;
        }
        proof {
            assert(roster@.take(roster@.len() as int) =~= roster@);
        }
        out
    }

    /// The members of `roster`, in order, without a check-in since the last
    /// reset.
    pub fn not_fished_today(&self, roster: &Vec<String>) -> (r: Vec<String>)
        requires
            self.wf(),
        ensures
            r@.map_values(|s: String| s@) == absentees(*self, roster@),
    {
        let mut out: Vec<String> = Vec::new();
        let mut i: usize = 0;
        while i < roster.len()
            invariant
                self.wf(),
                i <= roster@.len(),
                out@.map_values(|s: String| s@) == absentees(*self, roster@.take(i as int)),
            decreases roster@.len() - i,
        {
            let id = &roster[i];
            proof {
                assert(roster@.take(i + 1).drop_last() =~= roster@.take(i as int));
                assert(roster@.take(i + 1).last() == roster@[i as int]);
            }
            if !self.users.contains_key(id) {
                out.push(id.clone());
                proof {
                    assert(out@.map_values(|s: String| s@) =~= absentees(*self, roster@.take(i as int)).push(id@));
                }
            }
            i = i + 1;
        }
        proof {
            assert(roster@.take(roster@.len() as int) =~= roster@);
        }
        out
    }
}

} // verus!
