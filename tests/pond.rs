use fishing_pond::backup::backups_to_prune;
use fishing_pond::calendar::{
    clamp_timestamp, default_timestamp, MAX_TIMESTAMP_MS, get_date_string, get_days_difference, get_timestamp_string,
    get_yesterday_date_string, should_reset, DAY_MS,
};
use fishing_pond::data::{default_streak, default_threshold, default_true, FishingData};
use fishing_pond::game::{is_reset_due, FishingError};
use fishing_pond::gate::ResetGate;

/// Midnight UTC of 2024-01-01.
const JAN_1_2024: u64 = 19_723 * DAY_MS;
const HOUR_MS: u64 = 3_600_000;

fn day(n: u64) -> u64 {
    JAN_1_2024 + n * DAY_MS
}

fn pond_at(t: u64) -> FishingData {
    FishingData::starting_at(t)
}

fn s(text: &str) -> String {
    text.to_string()
}

fn profile(d: &FishingData, id: &str) -> (String, u64, String, u64) {
    let p = d.persistent_users.get(&s(id)).expect("profile");
    (p.username.clone(), p.streak, p.last_fished_date.clone(), p.total_catches)
}

#[test]
fn date_strings_follow_utc_days() {
    assert_eq!(get_date_string(0), "1970-01-01");
    assert_eq!(get_date_string(DAY_MS - 1), "1970-01-01");
    assert_eq!(get_date_string(DAY_MS), "1970-01-02");
    assert_eq!(get_date_string(day(0) + 5 * HOUR_MS), "2024-01-01");
    assert_eq!(get_date_string(day(59)), "2024-02-29");
}

#[test]
fn yesterday_is_one_day_before() {
    assert_eq!(get_yesterday_date_string(day(0) + HOUR_MS), "2023-12-31");
    assert_eq!(get_yesterday_date_string(day(60)), "2024-02-29");
    assert_eq!(get_yesterday_date_string(0), "1969-12-31");
}

#[test]
fn timestamp_text_is_rfc3339() {
    assert_eq!(get_timestamp_string(0), "1970-01-01T00:00:00+00:00");
    assert_eq!(get_timestamp_string(day(0) + HOUR_MS + 5), "2024-01-01T01:00:00.005+00:00");
}

#[test]
fn days_difference_of_dates() {
    assert_eq!(get_days_difference("2024-01-01", "2024-01-04"), 3);
    assert_eq!(get_days_difference("2024-03-01", "2024-02-28"), -2);
    assert_eq!(get_days_difference("2024-01-01", "2024-01-01"), 0);
}

#[test]
fn unreadable_date_counts_as_epoch() {
    assert_eq!(get_days_difference("not a date", "1970-01-11"), 10);
    assert_eq!(get_days_difference("1970-01-03", ""), -2);
}

#[test]
fn reset_is_due_across_midnight_only() {
    assert!(!should_reset(day(3), day(3) + 23 * HOUR_MS));
    assert!(should_reset(day(3) + 23 * HOUR_MS, day(4)));
    assert!(!is_reset_due(day(3) + HOUR_MS, day(3) + 2 * HOUR_MS));
    assert!(is_reset_due(day(2), day(3)));
    assert!(is_reset_due(u64::MAX, day(3)));
}

#[test]
fn defaults_of_a_fresh_pond() {
    assert!(default_true());
    assert_eq!(default_streak(), 5);
    assert_eq!(default_threshold(), 1);
    let d = pond_at(day(0));
    assert_eq!(d.daily_count, 0);
    assert_eq!(d.last_reset_timestamp, day(0));
    assert_eq!(d.users.len(), 0);
    assert_eq!(d.persistent_users.len(), 0);
    assert!(d.ping_reminder_enabled);
    assert_eq!(d.best_angler_streak, 5);
    assert_eq!(d.reminder_threshold, 1);
    assert_eq!(d.tracked_role_id, None);
    let fresh = FishingData::default();
    assert!(fresh.last_reset_timestamp > JAN_1_2024);
    assert!(default_timestamp() >= fresh.last_reset_timestamp);
}

#[test]
fn first_checkin_gives_streak_one() {
    let mut d = pond_at(day(0));
    let r = d.record_checkin(s("a"), s("Ann"), day(0) + HOUR_MS);
    assert_eq!(r, Ok((1, 1, 1)));
    assert_eq!(profile(&d, "a"), (s("Ann"), 1, s("2024-01-01"), 1));
    let today = d.users.get(&s("a")).expect("checked in");
    assert_eq!(today.username, "Ann");
    assert_eq!(today.fished_at, "2024-01-01T01:00:00+00:00");
}

#[test]
fn second_checkin_same_day_is_refused() {
    let mut d = pond_at(day(0));
    assert_eq!(d.record_checkin(s("a"), s("Ann"), day(0) + HOUR_MS), Ok((1, 1, 1)));
    assert_eq!(
        d.record_checkin(s("a"), s("Annie"), day(0) + 2 * HOUR_MS),
        Err(FishingError::AlreadyFished)
    );
    assert_eq!(d.daily_count, 1);
    assert_eq!(profile(&d, "a"), (s("Ann"), 1, s("2024-01-01"), 1));
    assert_eq!(d.record_checkin(s("b"), s("Bo"), day(0) + 3 * HOUR_MS), Ok((1, 1, 2)));
}

#[test]
fn stale_window_is_refused_without_change() {
    let mut d = pond_at(day(0));
    assert_eq!(d.record_checkin(s("a"), s("Ann"), day(0) + HOUR_MS), Ok((1, 1, 1)));
    let r = d.record_checkin(s("b"), s("Bo"), day(1) + HOUR_MS);
    assert_eq!(r, Err(FishingError::ResetNeeded));
    assert_eq!(d.daily_count, 1);
    assert_eq!(d.users.len(), 1);
    assert_eq!(d.persistent_users.len(), 1);
    assert!(!d.users.contains_key(&s("b")));
    assert!(!d.persistent_users.contains_key(&s("b")));
    assert_eq!(d.last_reset_timestamp, day(0));
    assert_eq!(
        d.record_checkin(s("a"), s("Ann"), day(1) + HOUR_MS),
        Err(FishingError::ResetNeeded)
    );
}

#[test]
fn streak_grows_after_yesterday_and_restarts_after_gap() {
    let mut d = pond_at(day(0));
    assert_eq!(d.record_checkin(s("a"), s("Ann"), day(0) + HOUR_MS), Ok((1, 1, 1)));
    d.reset_daily_data(day(1));
    assert_eq!(d.record_checkin(s("a"), s("Ann"), day(1) + HOUR_MS), Ok((2, 2, 1)));
    d.reset_daily_data(day(3));
    assert_eq!(d.persistent_users.get(&s("a")).unwrap().streak, 2);
    d.reset_daily_data(day(4));
    assert_eq!(d.persistent_users.get(&s("a")).unwrap().streak, 0);
    let mut e = pond_at(day(5));
    e.persistent_users.insert(
        s("z"),
        fishing_pond::data::PersistentUserData {
            username: s("Zed"),
            streak: 7,
            last_fished_date: s("2024-01-04"),
            total_catches: 9,
        },
    );
    assert_eq!(e.record_checkin(s("z"), s("Zed"), day(5) + HOUR_MS), Ok((1, 10, 1)));
    let mut f = pond_at(day(5));
    f.persistent_users.insert(
        s("y"),
        fishing_pond::data::PersistentUserData {
            username: s("Old name"),
            streak: 7,
            last_fished_date: s("2024-01-05"),
            total_catches: 9,
        },
    );
    assert_eq!(f.record_checkin(s("y"), s("Yan"), day(5) + HOUR_MS), Ok((8, 10, 1)));
    assert_eq!(profile(&f, "y"), (s("Yan"), 8, s("2024-01-06"), 10));
}

#[test]
fn same_day_profile_keeps_streak() {
    let mut d = pond_at(day(5));
    d.persistent_users.insert(
        s("x"),
        fishing_pond::data::PersistentUserData {
            username: s("Xi"),
            streak: 4,
            last_fished_date: s("2024-01-06"),
            total_catches: 4,
        },
    );
    assert_eq!(d.record_checkin(s("x"), s("Xi"), day(5) + HOUR_MS), Ok((4, 5, 1)));
}

#[test]
fn reset_breaks_streaks_of_absentees_only() {
    let mut d = pond_at(day(0));
    assert_eq!(d.record_checkin(s("a"), s("Ann"), day(0) + HOUR_MS), Ok((1, 1, 1)));
    assert_eq!(d.record_checkin(s("b"), s("Bo"), day(0) + HOUR_MS), Ok((1, 1, 2)));
    d.reset_daily_data(day(1));
    assert_eq!(d.record_checkin(s("a"), s("Ann"), day(1) + HOUR_MS), Ok((2, 2, 1)));
    d.reset_daily_data(day(2) + 7);
    assert_eq!(d.daily_count, 0);
    assert_eq!(d.users.len(), 0);
    assert_eq!(d.last_reset_timestamp, day(2) + 7);
    assert_eq!(profile(&d, "a"), (s("Ann"), 2, s("2024-01-02"), 2));
    assert_eq!(profile(&d, "b"), (s("Bo"), 0, s("2024-01-01"), 1));
}

#[test]
fn streak_story_over_four_days() {
    let mut d = pond_at(day(0));
    assert_eq!(d.record_checkin(s("A"), s("A"), day(0) + HOUR_MS), Ok((1, 1, 1)));
    assert!(is_reset_due(d.last_reset_timestamp, day(1) + HOUR_MS));
    d.reset_daily_data(day(1));
    assert_eq!(d.record_checkin(s("A"), s("A"), day(1) + HOUR_MS), Ok((2, 2, 1)));
    d.reset_daily_data(day(2));
    assert_eq!(profile(&d, "A").1, 2);
    d.reset_daily_data(day(3));
    assert_eq!(profile(&d, "A").1, 0);
    assert_eq!(d.record_checkin(s("A"), s("A"), day(3) + HOUR_MS), Ok((1, 3, 1)));
}

#[test]
fn gate_lets_one_reset_through() {
    let mut gate = ResetGate::new();
    assert!(!gate.in_progress());
    let answers: Vec<bool> = (0..6).map(|_| gate.try_acquire()).collect();
    assert_eq!(answers, vec![true, false, false, false, false, false]);
    assert!(gate.in_progress());
    gate.release();
    assert!(!gate.in_progress());
    assert!(gate.try_acquire());
}

#[test]
fn gated_resets_change_the_boundary_once() {
    let mut d = pond_at(day(0));
    let mut gate = ResetGate::new();
    let mut runs = 0;
    for k in 0..4u64 {
        if gate.try_acquire() {
            d.reset_daily_data(day(1) + k);
            runs += 1;
        }
    }
    gate.release();
    assert_eq!(runs, 1);
    assert_eq!(d.last_reset_timestamp, day(1));
}

#[test]
fn backups_prune_oldest_to_keep_four() {
    let times = vec![(50, 0), (10, 0), (30, 5), (30, 1), (70, 0), (20, 0), (60, 0)];
    assert_eq!(backups_to_prune(&times), vec![1, 5, 3]);
    let five = vec![(5, 0), (4, 0), (3, 0), (2, 0), (1, 0)];
    assert_eq!(backups_to_prune(&five), vec![4]);
    let four = vec![(1, 0), (2, 0), (3, 0), (4, 0)];
    assert_eq!(backups_to_prune(&four), Vec::<usize>::new());
    assert_eq!(backups_to_prune(&Vec::new()), Vec::<usize>::new());
}

#[test]
fn backups_with_equal_times_go_in_listed_order() {
    let times = vec![(9, 9), (9, 9), (9, 9), (9, 9), (9, 9), (9, 9)];
    assert_eq!(backups_to_prune(&times), vec![0, 1]);
}

#[test]
fn retention_over_many_cycles_keeps_five() {
    let mut kept: Vec<(u64, u32)> = Vec::new();
    for cycle in 0..9u64 {
        let gone = backups_to_prune(&kept);
        let mut next = Vec::new();
        for (i, t) in kept.iter().enumerate() {
            if !gone.contains(&i) {
                next.push(*t);
            }
        }
        next.push((cycle, 0));
        kept = next;
    }
    kept.sort();
    assert_eq!(kept, vec![(4, 0), (5, 0), (6, 0), (7, 0), (8, 0)]);
}

fn add_profile(d: &mut FishingData, id: &str, streak: u64, total: u64, last: &str) {
    d.persistent_users.insert(
        s(id),
        fishing_pond::data::PersistentUserData {
            username: format!("name-{}", id),
            streak,
            last_fished_date: s(last),
            total_catches: total,
        },
    );
}

#[test]
fn best_anglers_by_streak_then_total() {
    let mut d = pond_at(day(0));
    add_profile(&mut d, "a", 5, 10, "2024-01-01");
    add_profile(&mut d, "b", 9, 9, "2024-01-01");
    add_profile(&mut d, "c", 4, 40, "2024-01-01");
    add_profile(&mut d, "d", 5, 20, "2024-01-01");
    let rows = d.best_anglers();
    let ids: Vec<String> = rows.iter().map(|r| r.user_id.clone()).collect();
    assert_eq!(ids, vec![s("b"), s("d"), s("a")]);
    assert_eq!(rows[1].username, "name-d");
    assert_eq!(rows[1].streak, 5);
    assert_eq!(rows[1].total_catches, 20);
    d.set_best_angler_streak(10);
    assert!(d.best_anglers().is_empty());
}

#[test]
fn best_anglers_show_at_most_ten() {
    let mut d = pond_at(day(0));
    for i in 0..14u64 {
        add_profile(&mut d, &format!("u{}", i), 5 + i, 1, "2024-01-01");
    }
    let rows = d.best_anglers();
    assert_eq!(rows.len(), 10);
    assert_eq!(rows[0].user_id, "u13");
    assert_eq!(rows[9].user_id, "u4");
}

#[test]
fn reminders_follow_threshold() {
    let mut d = pond_at(day(10));
    add_profile(&mut d, "recent", 1, 1, "2024-01-10");
    add_profile(&mut d, "old", 1, 1, "2024-01-08");
    add_profile(&mut d, "broken", 1, 1, "garbage");
    d.record_checkin(s("today"), s("T"), day(10) + HOUR_MS).unwrap();
    let roster = vec![s("recent"), s("old"), s("newcomer"), s("today"), s("broken")];
    let now = day(10) + 2 * HOUR_MS;
    assert_eq!(d.reminder_list(&roster, now), vec![s("recent"), s("old"), s("newcomer"), s("broken")]);
    d.set_reminder_threshold(2);
    assert_eq!(d.reminder_list(&roster, now), vec![s("old"), s("newcomer"), s("broken")]);
    d.set_reminder_threshold(3);
    assert_eq!(d.reminder_list(&roster, now), vec![s("old"), s("newcomer"), s("broken")]);
    d.set_reminder_threshold(4);
    assert_eq!(d.reminder_list(&roster, now), vec![s("newcomer"), s("broken")]);
    assert_eq!(d.not_fished_today(&roster), vec![s("recent"), s("old"), s("newcomer"), s("broken")]);
}

#[test]
fn setters_change_only_their_field() {
    let mut d = pond_at(day(0));
    d.record_checkin(s("a"), s("Ann"), day(0) + HOUR_MS).unwrap();
    d.set_button_location(s("m1"), s("c1"));
    d.set_guild(Some(s("g1")));
    d.set_tracked_role(s("r1"), Some(s("g2")));
    d.set_summary_channel(s("c2"), Some(s("g3")));
    d.set_ping_reminder(false);
    assert_eq!(d.button_message_id, Some(s("m1")));
    assert_eq!(d.button_channel_id, Some(s("c1")));
    assert_eq!(d.tracked_role_id, Some(s("r1")));
    assert_eq!(d.summary_channel_id, Some(s("c2")));
    assert_eq!(d.guild_id, Some(s("g3")));
    assert!(!d.ping_reminder_enabled);
    assert_eq!(d.daily_count, 1);
    assert!(d.users.contains_key(&s("a")));
}

#[test]
fn error_messages() {
    assert_eq!(FishingError::AlreadyFished.message(), "ALREADY_FISHED");
    assert_eq!(FishingError::ResetNeeded.message(), "RESET_NEEDED");
    assert_eq!(FishingError::Internal(s("disk")).message(), "Internal error: disk");
}

#[test]
fn table_keeps_one_entry_per_key() {
    let mut d = pond_at(day(0));
    add_profile(&mut d, "a", 1, 1, "2024-01-01");
    add_profile(&mut d, "a", 2, 2, "2024-01-01");
    assert_eq!(d.persistent_users.len(), 1);
    assert_eq!(d.persistent_users.key(0), "a");
    assert_eq!(d.persistent_users.value(0).streak, 2);
    assert_eq!(d.persistent_users.position(&s("b")), None);
    d.users.clear();
    assert_eq!(d.users.len(), 0);
}

#[test]
fn clock_readings_are_clamped_to_range() {
    assert_eq!(clamp_timestamp(-5), 0);
    assert_eq!(clamp_timestamp(i64::MIN), 0);
    assert_eq!(clamp_timestamp(0), 0);
    assert_eq!(clamp_timestamp(1_700_000_000_123), 1_700_000_000_123);
    assert_eq!(clamp_timestamp(MAX_TIMESTAMP_MS as i64), MAX_TIMESTAMP_MS);
    assert_eq!(clamp_timestamp(MAX_TIMESTAMP_MS as i64 + 1), MAX_TIMESTAMP_MS);
    assert_eq!(clamp_timestamp(i64::MAX), MAX_TIMESTAMP_MS);
}

#[test]
fn daily_count_follows_records() {
    let mut d = pond_at(day(0));
    for (i, id) in ["a", "b", "c"].iter().enumerate() {
        d.record_checkin(s(id), s(id), day(0) + HOUR_MS).unwrap();
        assert_eq!(d.daily_count as usize, d.users.len());
        assert_eq!(d.users.len(), i + 1);
    }
    assert!(d.record_checkin(s("a"), s("a"), day(0) + HOUR_MS).is_err());
    assert_eq!(d.daily_count as usize, d.users.len());
    d.reset_daily_data(day(1));
    assert_eq!(d.daily_count as usize, d.users.len());
}
