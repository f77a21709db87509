//! Configuration of the pond: where the summary goes, whom it tracks, and its
//! thresholds. Each setter leaves the check-ins and profiles as they were.

use vstd::prelude::*;
use crate::data::FishingData;

verus! {

/// The check-ins, profiles, count and day window of the two states agree.
pub open spec fn same_progress(a: FishingData, b: FishingData) -> bool {
    &&& a.daily_count == b.daily_count
    &&& a.last_reset_timestamp == b.last_reset_timestamp
    &&& a.users == b.users
    &&& a.persistent_users == b.persistent_users
}

impl FishingData {
    /// Records where the check-in button stands.
    pub fn set_button_location(&mut self, message_id: String, channel_id: String)
        ensures
            same_progress(*old(self), *final(self)),
            final(self).button_message_id == Some(message_id),
            final(self).button_channel_id == Some(channel_id),
            final(self).guild_id == old(self).guild_id,
            final(self).tracked_role_id == old(self).tracked_role_id,
            final(self).summary_channel_id == old(self).summary_channel_id,
            final(self).ping_reminder_enabled == old(self).ping_reminder_enabled,
            final(self).best_angler_streak == old(self).best_angler_streak,
            final(self).reminder_threshold == old(self).reminder_threshold,
    {
        self.button_message_id = Some(message_id);
        self.button_channel_id = Some(channel_id);
    }

    /// Records the guild of the pond, or that none is known.
    pub fn set_guild(&mut self, guild_id: Option<String>)
        ensures
            same_progress(*old(self), *final(self)),
            *final(self) == (FishingData { guild_id: guild_id, ..*old(self) }),
    {
        self.guild_id = guild_id;
    }

    /// Tracks the role `role_id` of the guild `guild_id`.
    pub fn set_tracked_role(&mut self, role_id: String, guild_id: Option<String>)
        ensures
            same_progress(*old(self), *final(self)),
            final(self).tracked_role_id == Some(role_id),
            final(self).guild_id == guild_id,
            final(self).button_message_id == old(self).button_message_id,
            final(self).button_channel_id == old(self).button_channel_id,
            final(self).summary_channel_id == old(self).summary_channel_id,
            final(self).ping_reminder_enabled == old(self).ping_reminder_enabled,
            final(self).best_angler_streak == old(self).best_angler_streak,
            final(self).reminder_threshold == old(self).reminder_threshold,
    {
        self.tracked_role_id = Some(role_id);
        self.guild_id = guild_id;
    }

    /// Posts the daily summary in channel `channel_id` of the guild `guild_id`.
    pub fn set_summary_channel(&mut self, channel_id: String, guild_id: Option<String>)
        ensures
            same_progress(*old(self), *final(self)),
            final(self).summary_channel_id == Some(channel_id),
            final(self).guild_id == guild_id,
            final(self).button_message_id == old(self).button_message_id,
            final(self).button_channel_id == old(self).button_channel_id,
            final(self).tracked_role_id == old(self).tracked_role_id,
            final(self).ping_reminder_enabled == old(self).ping_reminder_enabled,
            final(self).best_angler_streak == old(self).best_angler_streak,
            final(self).reminder_threshold == old(self).reminder_threshold,
    {
        self.summary_channel_id = Some(channel_id);
        self.guild_id = guild_id;
    }

    /// Sets the least streak of a best angler.
    pub fn set_best_angler_streak(&mut self, streak: u64)
        ensures
            same_progress(*old(self), *final(self)),
            *final(self) == (FishingData { best_angler_streak: streak, ..*old(self) }),
    {
        self.best_angler_streak = streak;
    }

    /// Sets the days of inactivity before a reminder.
    pub fn set_reminder_threshold(&mut self, days: u64)
        ensures
            same_progress(*old(self), *final(self)),
            *final(self) == (FishingData { reminder_threshold: days, ..*old(self) }),
    {
        self.reminder_threshold = days;
    }

    /// Turns the reminder pings of the summary on or off.
    pub fn set_ping_reminder(&mut self, enabled: bool)
        ensures
            same_progress(*old(self), *final(self)),
            *final(self) == (FishingData { ping_reminder_enabled: enabled, ..*old(self) }),
    {
        self.ping_reminder_enabled = enabled;
    }
}

} // verus!
