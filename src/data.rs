//! The pond's durable state: today's check-ins, every angler's profile, and
//! the configuration of the summary.

use vstd::prelude::*;
use crate::calendar::{default_timestamp, MAX_TIMESTAMP_MS};
use crate::table::KeyedTable;

verus! {

/// Today's check-in of one angler.
pub struct UserData {
    pub username: String,
    /// When the check-in happened, as RFC 3339 text.
    pub fished_at: String,
}

/// What a check-in of today records.
pub struct UserView {
    pub username: Seq<char>,
    pub fished_at: Seq<char>,
}

impl View for UserData {
    type V = UserView;

    open spec fn view(&self) -> UserView {
        UserView { username: self.username@, fished_at: self.fished_at@ }
    }
}

/// An angler's lasting record.
pub struct PersistentUserData {
    /// The last known display name.
    pub username: String,
    /// Consecutive days with a check-in.
    pub streak: u64,
    /// The `YYYY-MM-DD` date of the last check-in.
    pub last_fished_date: String,
    /// Check-ins over all time.
    pub total_catches: u64,
}

/// What an angler's profile records.
pub struct ProfileView {
    pub username: Seq<char>,
    pub streak: u64,
    pub last_fished_date: Seq<char>,
    pub total_catches: u64,
}

impl View for PersistentUserData {
    type V = ProfileView;

    open spec fn view(&self) -> ProfileView {
        ProfileView {
            username: self.username@,
            streak: self.streak,
            last_fished_date: self.last_fished_date@,
            total_catches: self.total_catches,
        }
    }
}

impl PersistentUserData {
    /// A copy of the profile.
    pub fn duplicate(&self) -> (r: PersistentUserData)
        ensures
            r@ == self@,
    {
        PersistentUserData {
            username: self.username.clone(),
            streak: self.streak,
            last_fished_date: self.last_fished_date.clone(),
            total_catches: self.total_catches,
        }
    }
}

/// The whole state of the pond.
pub struct FishingData {
    /// Check-ins since the last reset.
    pub daily_count: u64,
    /// When the current day window began, in milliseconds since the epoch.
    pub last_reset_timestamp: u64,
    /// Who has checked in since the last reset.
    pub users: KeyedTable<UserData>,
    /// Every angler who ever checked in.
    pub persistent_users: KeyedTable<PersistentUserData>,
    pub button_message_id: Option<String>,
    pub button_channel_id: Option<String>,
    pub tracked_role_id: Option<String>,
    pub summary_channel_id: Option<String>,
    pub guild_id: Option<String>,
    /// Whether the daily summary pings those who have not fished.
    pub ping_reminder_enabled: bool,
    /// The least streak that earns a place among the best anglers.
    pub best_angler_streak: u64,
    /// Days without a check-in before an angler is reminded.
    pub reminder_threshold: u64,
}

/// Reminder pings are on unless turned off.
pub fn default_true() -> (r: bool)
    ensures
        r,
{
    true
}

/// The least streak of a best angler unless configured.
pub fn default_streak() -> (r: u64)
    ensures
        r == 5,
{
    5
}

/// Days of inactivity before a reminder unless configured.
pub fn default_threshold() -> (r: u64)
    ensures
        r == 1,
{
    1
}

impl FishingData {
    /// Both tables are well formed.
    pub open spec fn wf(&self) -> bool {
        self.users.wf() && self.persistent_users.wf()
    }

    /// A fresh pond whose day window began at `timestamp`: no check-ins, no
    /// profiles, nothing configured, pings on, best anglers from a streak of
    /// 5, reminders after 1 day.
    pub fn starting_at(timestamp: u64) -> (r: FishingData)
        ensures
            r.wf(),
            r.daily_count == 0,
            r.last_reset_timestamp == timestamp,
            r.users@ == Map::<Seq<char>, UserView>::empty(),
            r.persistent_users@ == Map::<Seq<char>, ProfileView>::empty(),
            r.button_message_id is None,
            r.button_channel_id is None,
            r.tracked_role_id is None,
            r.summary_channel_id is None,
            r.guild_id is None,
            r.ping_reminder_enabled,
            r.best_angler_streak == 5,
            r.reminder_threshold == 1,
    {
        FishingData {
            daily_count: 0,
            last_reset_timestamp: timestamp,
            users: KeyedTable::new(),
            persistent_users: KeyedTable::new(),
            button_message_id: None,
            button_channel_id: None,
            tracked_role_id: None,
            summary_channel_id: None,
            guild_id: None,
            ping_reminder_enabled: default_true(),
            best_angler_streak: default_streak(),
            reminder_threshold: default_threshold(),
        }
    }
}

impl Default for FishingData {
    /// A fresh pond whose day window begins now, by the wall clock.
    fn default() -> (r: FishingData)
        ensures
            r.wf(),
            r.daily_count == 0,
            r.last_reset_timestamp <= MAX_TIMESTAMP_MS,
            r.users@ == Map::<Seq<char>, UserView>::empty(),
            r.persistent_users@ == Map::<Seq<char>, ProfileView>::empty(),
            r.button_message_id is None,
            r.button_channel_id is None,
            r.tracked_role_id is None,
            r.summary_channel_id is None,
            r.guild_id is None,
            r.ping_reminder_enabled,
            r.best_angler_streak == 5,
            r.reminder_threshold == 1,
    {
        FishingData::starting_at(default_timestamp())
    }
}

} // verus!
