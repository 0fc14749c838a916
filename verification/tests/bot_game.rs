use beetle_hunt::bot::game::{
    BeetleHuntApiResponse, BeetleInventory, CatchBeetleApiResponse, Cooldowns, CooldownsResponse,
    HuntInfo, SessionBeetleInventory, Streaks, User,
};
use beetle_hunt::bot::workers::{
    beetle_next_check_at, cheese_wait, followup_wait, hunt_loop_step, plan_beetle_pass,
    recheck_wait, BeetlePass, HuntLoopStep, WorkerStats,
};
use beetle_hunt::models::beetle::FailedHuntResult;

fn inventory(green: u32, ladybug: u32, monarch: u32) -> BeetleInventory {
    BeetleInventory { green, ladybug, monarch, pond: 1, bombardier: 0, purple: 2, skull: 0 }
}

fn user(cheese: u32, hunts_used: u32, catch_ms: u64, ubc_ms: u64, last_hunt: u64) -> User {
    User {
        id: "u1".to_string(),
        cheese,
        xp: 10,
        level: 2,
        inventory: inventory(3, 4, 5),
        discovered: vec![],
        streaks: Streaks { ubc: 1, last_claim: 0, lousy_beetle: 0, pity_counter: 0 },
        beetle_hunts_used: hunts_used,
        last_beetle_hunt_date: last_hunt,
        cooldowns: Cooldowns { catch_beetle: catch_ms, claim_ubc: ubc_ms },
    }
}

#[test]
fn cooldowns_response_reports_readiness() {
    let r = CooldownsResponse {
        cooldowns: Cooldowns { catch_beetle: 0, claim_ubc: 61_500 },
        hunt_info: HuntInfo { hunts_used: 2, reset_time: 0 },
    };
    assert!(r.can_beetle_catch());
    assert!(!r.can_claim_ubc());
    assert!(r.has_hunts_remaining());
    assert_eq!(r.time_until_beetle_ready(), 0);
    assert_eq!(r.time_until_ubc_ready(), 61);
    assert_eq!(r.time_until_hunt_reset_at(1_000), 0);
}

#[test]
fn cooldowns_response_hunt_reset_counts_down() {
    let r = CooldownsResponse {
        cooldowns: Cooldowns { catch_beetle: 5_000, claim_ubc: 0 },
        hunt_info: HuntInfo { hunts_used: 3, reset_time: 2_000_000 },
    };
    assert!(!r.has_hunts_remaining());
    assert_eq!(r.time_until_hunt_reset_at(1_500), 500);
    assert_eq!(r.time_until_hunt_reset_at(2_500), 0);
}

#[test]
fn inventory_total_and_listing() {
    let inv = inventory(3, 4, 5);
    assert_eq!(inv.total_beetles(), 3 + 4 + 5 + 1 + 2);
    let listing = inv.get_sorted_beetles();
    assert_eq!(listing.len(), 7);
    assert_eq!(listing[0].3, "monarch");
    assert_eq!(listing[0].2, 5);
}

#[test]
fn fresh_session_gains_nothing() {
    let s = SessionBeetleInventory::new(inventory(3, 4, 5));
    assert_eq!(s.get_session_delta("green"), 0);
    assert_eq!(s.get_session_delta("monarch"), 0);
    assert_eq!(s.total_session_gain(), 0);
}

#[test]
fn session_delta_counts_the_gain() {
    let mut s = SessionBeetleInventory::new(inventory(3, 4, 5));
    s.update(inventory(7, 4, 2));
    assert_eq!(s.get_session_delta("green"), 4);
    assert_eq!(s.get_session_delta("monarch"), -3);
    assert_eq!(s.get_session_delta("unknown"), 0);
    assert_eq!(s.total_session_gain(), 1);
    assert_eq!(s.total_beetles(), 7 + 4 + 2 + 1 + 2);
    let rows = s.get_sorted_beetles();
    assert_eq!(rows[0].3, -3);
    assert_eq!(rows[6].3, 4);
}

#[test]
fn user_cooldowns_round_up_to_seconds() {
    let u = user(30, 1, 1_001, 0, 0);
    assert!(!u.can_catch_beetle());
    assert!(u.can_claim_ubc());
    assert_eq!(u.time_until_catch_ready(), 2);
    assert_eq!(u.time_until_ubc_ready(), 0);
    assert_eq!(u.total_beetles(), 3 + 4 + 5 + 1 + 2);
}

#[test]
fn user_hunts_remaining_saturates() {
    assert_eq!(user(30, 1, 0, 0, 0).hunts_remaining(), 2);
    assert_eq!(user(30, 5, 0, 0, 0).hunts_remaining(), 0);
    assert!(user(30, 2, 0, 0, 0).has_hunts_remaining());
    assert!(!user(30, 3, 0, 0, 0).has_hunts_remaining());
}

#[test]
fn user_hunts_reopen_after_an_hour_and_a_half() {
    let u = user(30, 3, 0, 0, 1_000_000);
    assert!(!u.is_new_hunt_day_at(6_399_999));
    assert!(u.is_new_hunt_day_at(6_400_000));
    assert_eq!(u.time_until_hunt_reset_at(6_400_000), 0);
}

#[test]
fn user_hunt_reset_waits_until_midnight_utc() {
    let u = user(30, 3, 0, 0, 1_000_000);
    assert_eq!(u.time_until_hunt_reset_at(1_000_000), 85_400);
    let fresh = user(30, 3, 0, 0, 0);
    assert_eq!(fresh.time_until_hunt_reset_at(1_000), 86_399);
    let late = user(30, 3, 0, 0, 86_399_000);
    assert_eq!(late.time_until_hunt_reset_at(86_399_500), 1);
    assert_eq!(late.time_until_hunt_reset_at(86_400_000 + 5_000_000), 86_400 - 5_000);
}

#[test]
fn beetle_pass_plans_hunts_when_cheese_allows() {
    assert_eq!(
        plan_beetle_pass(&user(25, 1, 0, 0, 0)),
        BeetlePass { catch: true, hunts: 2, short_of_cheese: false }
    );
    assert_eq!(
        plan_beetle_pass(&user(19, 0, 10_000, 0, 0)),
        BeetlePass { catch: false, hunts: 0, short_of_cheese: true }
    );
    assert_eq!(
        plan_beetle_pass(&user(50, 3, 10_000, 0, 0)),
        BeetlePass { catch: false, hunts: 0, short_of_cheese: false }
    );
}

#[test]
fn beetle_next_check_picks_the_sooner_wait() {
    assert_eq!(beetle_next_check_at(&user(25, 0, 0, 0, 0), 0), 0);
    assert_eq!(beetle_next_check_at(&user(10, 0, 90_000, 0, 0), 0), 90);
    assert_eq!(beetle_next_check_at(&user(25, 3, 90_000, 0, 86_000_000), 86_390_000), 10);
    assert_eq!(beetle_next_check_at(&user(25, 3, 10_000, 0, 1_000_000), 1_000_000), 10);
}

#[test]
fn cheese_wait_wakes_early_and_never_under_a_minute() {
    assert_eq!(cheese_wait(7_200), 6_900);
    assert_eq!(cheese_wait(3_600), 3_600);
    assert_eq!(cheese_wait(30), 60);
    assert_eq!(cheese_wait(0), 60);
}

#[test]
fn hunt_loop_steps() {
    let ready = CooldownsResponse {
        cooldowns: Cooldowns { catch_beetle: 0, claim_ubc: 0 },
        hunt_info: HuntInfo { hunts_used: 1, reset_time: 0 },
    };
    assert_eq!(hunt_loop_step(&ready), HuntLoopStep::Hunt);
    let cooling = CooldownsResponse {
        cooldowns: Cooldowns { catch_beetle: 12_345, claim_ubc: 0 },
        hunt_info: HuntInfo { hunts_used: 1, reset_time: 0 },
    };
    assert_eq!(hunt_loop_step(&cooling), HuntLoopStep::Wait(17));
    let done = CooldownsResponse {
        cooldowns: Cooldowns { catch_beetle: 0, claim_ubc: 0 },
        hunt_info: HuntInfo { hunts_used: 3, reset_time: 0 },
    };
    assert_eq!(hunt_loop_step(&done), HuntLoopStep::Stop);
}

#[test]
fn loop_waits_are_capped_at_an_hour() {
    assert_eq!(recheck_wait(59_999), 59);
    assert_eq!(recheck_wait(86_400_000), 3_600);
    assert_eq!(followup_wait(Some("Beetle catch on cooldown for 1929s"), 5), 1_929);
    assert_eq!(followup_wait(Some("UBC claim on cooldown for 86400s"), 3_600), 3_600);
    assert_eq!(followup_wait(Some("something else"), 5), 5);
    assert_eq!(followup_wait(None, 3_600), 3_600);
}

#[test]
fn worker_stats_count_and_wrap() {
    let mut s = WorkerStats::new();
    assert_eq!(s.beetles_caught, 0);
    s.increment_beetles_at(100);
    s.increment_pokes_at(3, 200);
    s.increment_friends(2);
    s.increment_catch();
    s.increment_hunts();
    s.increment_missed_hunts();
    s.increment_cheese_at(300);
    assert_eq!(s.beetles_caught, 1);
    assert_eq!(s.last_beetle_time, 100);
    assert_eq!(s.users_poked, 3);
    assert_eq!(s.last_poke_time, 200);
    assert_eq!(s.users_friended, 2);
    assert_eq!(s.catch_completed, 1);
    assert_eq!(s.hunts_completed, 1);
    assert_eq!(s.hunts_missed, 1);
    assert_eq!(s.cheese_claimed, 1);
    assert_eq!(s.last_cheese_time, 300);
    s.users_poked = u64::MAX;
    s.increment_pokes_at(2, 400);
    assert_eq!(s.users_poked, 1);
}

#[test]
fn worker_stats_clock_increments_stamp_a_time() {
    let mut s = WorkerStats::new();
    s.increment_beetles();
    s.increment_cheese();
    s.increment_pokes(1);
    assert!(s.last_beetle_time > 1_600_000_000);
    assert!(s.last_cheese_time > 1_600_000_000);
    assert!(s.last_poke_time > 1_600_000_000);
}

#[test]
fn worker_stats_inventory_keeps_session_start() {
    let mut s = WorkerStats::new();
    s.init_inventory(inventory(1, 1, 1));
    s.update_inventory(inventory(2, 1, 1));
    let inv = s.get_inventory();
    assert_eq!(inv.current, inventory(2, 1, 1));
    assert_eq!(inv.session_start, inventory(1, 1, 1));
    assert_eq!(inv.get_session_delta("green"), 1);
}

#[test]
fn worker_stats_record_answers() {
    let mut s = WorkerStats::new();
    s.init_inventory(inventory(1, 1, 1));
    let escaped = BeetleHuntApiResponse::FailedHunt {
        success: true,
        result: FailedHuntResult { success: false },
        user: user(30, 1, 0, 0, 0),
    };
    s.record_hunt_at(&escaped, 50);
    assert_eq!(s.hunts_completed, 1);
    assert_eq!(s.hunts_missed, 1);
    assert_eq!(s.beetles_caught, 0);
    assert_eq!(s.beetle_inventory.current, inventory(3, 4, 5));
    let refused = CatchBeetleApiResponse::Error {
        success: false,
        error: "Beetle catch on cooldown for 10s".to_string(),
        user: user(30, 1, 0, 0, 0),
    };
    let before = s;
    s.record_catch_at(&refused, 60);
    assert_eq!(s, before);
}
