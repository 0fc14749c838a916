//! The game as the bot reads it: cooldowns and hunt limits, the inventory
//! counted in 32 bits, and the session view of the inventory.

use vstd::prelude::*;
use crate::clock::{unix_millis_now, unix_seconds_now, CLOCK_SECONDS_BOUND};
use crate::text::str_eq;
use crate::models::beetle::{FailedHuntResult, VideoInfo};

verus! {

/// Cooldowns, in milliseconds.
#[derive(Debug, PartialEq, Eq, Structural, Clone, Copy)]
pub struct Cooldowns {
    pub catch_beetle: u64,
    pub claim_ubc: u64,
}

/// The daily hunt allowance: hunts used and when the count resets (Unix
/// milliseconds, zero when hunts are available).
#[derive(Debug, PartialEq, Eq, Structural, Clone, Copy)]
pub struct HuntInfo {
    pub hunts_used: u32,
    pub reset_time: u64,
}

/// The cooldowns endpoint's answer.
#[derive(Debug, PartialEq, Eq, Structural, Clone, Copy)]
pub struct CooldownsResponse {
    pub cooldowns: Cooldowns,
    pub hunt_info: HuntInfo,
}

/// `time_until_hunt_reset` at the instant `now_secs`: the seconds left until
/// the reset time, zero when there is none or it has passed.
pub open spec fn hunt_reset_wait(r: CooldownsResponse, now_secs: u64) -> u64 {
    if r.hunt_info.reset_time == 0 {
        0
    } else if r.hunt_info.reset_time / 1000 > now_secs {
        (r.hunt_info.reset_time / 1000 - now_secs) as u64
    } else {
        0
    }
}

impl CooldownsResponse {
    pub fn can_beetle_catch(&self) -> (r: bool)
        ensures
            r == (self.cooldowns.catch_beetle == 0),
    {
        self.cooldowns.catch_beetle == 0
    }

    pub fn can_claim_ubc(&self) -> (r: bool)
        ensures
            r == (self.cooldowns.claim_ubc == 0),
    {
        self.cooldowns.claim_ubc == 0
    }

    /// Fewer than three hunts used.
    pub fn has_hunts_remaining(&self) -> (r: bool)
        ensures
            r == (self.hunt_info.hunts_used < 3),
    {
        self.hunt_info.hunts_used < 3
    }

    /// The catch cooldown in whole seconds.
    pub fn time_until_beetle_ready(&self) -> (r: u64)
        ensures
            r == self.cooldowns.catch_beetle / 1000,
    {
        self.cooldowns.catch_beetle / 1000
    }

    /// The cheese-claim cooldown in whole seconds.
    pub fn time_until_ubc_ready(&self) -> (r: u64)
        ensures
            r == self.cooldowns.claim_ubc / 1000,
    {
        self.cooldowns.claim_ubc / 1000
    }

    /// Seconds until the hunt count resets, at `now_secs`.
    pub fn time_until_hunt_reset_at(&self, now_secs: u64) -> (r: u64)
        ensures
            r == hunt_reset_wait(*self, now_secs),
    {
        if self.hunt_info.reset_time == 0 {
            return 0;
        }
        let reset_time_secs = self.hunt_info.reset_time / 1000;
        if reset_time_secs > now_secs {
            reset_time_secs - now_secs
        } else {
            0
        }
    }

    /// Seconds until the hunt count resets, now.
    pub fn time_until_hunt_reset(&self) -> (r: u64)
        ensures
            exists|now: u64| now < CLOCK_SECONDS_BOUND && r == #[trigger] hunt_reset_wait(*self, now),
            r <= self.hunt_info.reset_time / 1000,
            self.hunt_info.reset_time == 0 ==> r == 0,
    {
        let now = unix_seconds_now() as u64;
        let r = self.time_until_hunt_reset_at(now);
        assert(now < CLOCK_SECONDS_BOUND && r == hunt_reset_wait(*self, now));
        r
    }
}

/// The beetles the bot counts, in 32 bits.
#[derive(Debug, PartialEq, Eq, Structural, Clone, Copy)]
pub struct BeetleInventory {
    pub green: u32,
    pub ladybug: u32,
    pub monarch: u32,
    pub pond: u32,
    pub bombardier: u32,
    pub purple: u32,
    pub skull: u32,
}

impl Default for BeetleInventory {
    fn default() -> (r: Self)
        ensures
            r == (BeetleInventory { green: 0, ladybug: 0, monarch: 0, pond: 0, bombardier: 0, purple: 0, skull: 0 }),
    {
        BeetleInventory { green: 0, ladybug: 0, monarch: 0, pond: 0, bombardier: 0, purple: 0, skull: 0 }
    }
}

/// The number of beetles held.
pub open spec fn total_spec(inv: BeetleInventory) -> int {
    inv.green + inv.ladybug + inv.monarch + inv.pond + inv.bombardier + inv.purple + inv.skull
}

impl BeetleInventory {
    /// The total number of beetles held (the sum must fit in 32 bits).
    pub fn total_beetles(&self) -> (r: u32)
        requires
            total_spec(*self) <= u32::MAX,
        ensures
            r == total_spec(*self),
    {
        self.green + self.ladybug + self.monarch + self.pond + self.bombardier + self.purple
            + self.skull
    }

    /// The beetle kinds with label, rarity, count and key, rarest first.
    pub fn get_sorted_beetles(&self) -> (r: Vec<(&str, &str, u32, &str)>)
        ensures
            r@ == seq![
                ("🟠 Monarch", "Rare", self.monarch, "monarch"),
                ("⚫ Bombardier", "Rare", self.bombardier, "bombardier"),
                ("🟣 Purple", "Uncommon", self.purple, "purple"),
                ("🔵 Pond", "Uncommon", self.pond, "pond"),
                ("🔴 Ladybug", "Common", self.ladybug, "ladybug"),
                ("🟢 Green", "Common", self.green, "green"),
                ("💀 Skull", "Rare", self.skull, "skull"),
            ],
    {
        let mut v = Vec::new();
        v.push(("🟠 Monarch", "Rare", self.monarch, "monarch"));
        v.push(("⚫ Bombardier", "Rare", self.bombardier, "bombardier"));
        v.push(("🟣 Purple", "Uncommon", self.purple, "purple"));
        v.push(("🔵 Pond", "Uncommon", self.pond, "pond"));
        v.push(("🔴 Ladybug", "Common", self.ladybug, "ladybug"));
        v.push(("🟢 Green", "Common", self.green, "green"));
        v.push(("💀 Skull", "Rare", self.skull, "skull"));
        assert(v@ =~= seq![
            ("🟠 Monarch", "Rare", self.monarch, "monarch"),
            ("⚫ Bombardier", "Rare", self.bombardier, "bombardier"),
            ("🟣 Purple", "Uncommon", self.purple, "purple"),
            ("🔵 Pond", "Uncommon", self.pond, "pond"),
            ("🔴 Ladybug", "Common", self.ladybug, "ladybug"),
            ("🟢 Green", "Common", self.green, "green"),
            ("💀 Skull", "Rare", self.skull, "skull"),
        ]);
        v
    }
}

/// The inventory now and at the start of the session.
#[derive(Debug, PartialEq, Eq, Structural, Clone, Copy)]
pub struct SessionBeetleInventory {
    pub current: BeetleInventory,
    pub session_start: BeetleInventory,
}

impl Default for SessionBeetleInventory {
    fn default() -> (r: Self)
        ensures
            r.current == (BeetleInventory { green: 0, ladybug: 0, monarch: 0, pond: 0, bombardier: 0, purple: 0, skull: 0 }),
            r.session_start == r.current,
    {
        SessionBeetleInventory { current: BeetleInventory::default(), session_start: BeetleInventory::default() }
    }
}

/// The count of the beetle kind named `kind`, zero for any other name.
pub open spec fn count_of(inv: BeetleInventory, kind: Seq<char>) -> u32 {
    if kind == "green"@ {
        inv.green
    } else if kind == "ladybug"@ {
        inv.ladybug
    } else if kind == "monarch"@ {
        inv.monarch
    } else if kind == "pond"@ {
        inv.pond
    } else if kind == "bombardier"@ {
        inv.bombardier
    } else if kind == "skull"@ {
        inv.skull
    } else if kind == "purple"@ {
        inv.purple
    } else {
        0
    }
}

/// `a as i32 - b as i32`: two counts narrowed to `i32` and subtracted.
pub open spec fn delta_spec(a: u32, b: u32) -> int {
    (a as i32) as int - (b as i32) as int
}

/// The narrowed difference fits in `i32`.
pub open spec fn delta_fits(a: u32, b: u32) -> bool {
    i32::MIN <= delta_spec(a, b) <= i32::MAX
}

/// Every kind's session difference fits in `i32`.
pub open spec fn deltas_fit(s: SessionBeetleInventory) -> bool {
    &&& delta_fits(s.current.green, s.session_start.green)
    &&& delta_fits(s.current.ladybug, s.session_start.ladybug)
    &&& delta_fits(s.current.monarch, s.session_start.monarch)
    &&& delta_fits(s.current.pond, s.session_start.pond)
    &&& delta_fits(s.current.bombardier, s.session_start.bombardier)
    &&& delta_fits(s.current.purple, s.session_start.purple)
    &&& delta_fits(s.current.skull, s.session_start.skull)
}

fn narrowed_delta(a: u32, b: u32) -> (r: i32)
    requires
        delta_fits(a, b),
    ensures
        r == delta_spec(a, b),
{
    a as i32 - b as i32
}

proof fn lemma_kind_names()
    ensures
        forall|inv: BeetleInventory| #[trigger] count_of(inv, "green"@) == inv.green,
        forall|inv: BeetleInventory| #[trigger] count_of(inv, "ladybug"@) == inv.ladybug,
        forall|inv: BeetleInventory| #[trigger] count_of(inv, "monarch"@) == inv.monarch,
        forall|inv: BeetleInventory| #[trigger] count_of(inv, "pond"@) == inv.pond,
        forall|inv: BeetleInventory| #[trigger] count_of(inv, "bombardier"@) == inv.bombardier,
        forall|inv: BeetleInventory| #[trigger] count_of(inv, "skull"@) == inv.skull,
        forall|inv: BeetleInventory| #[trigger] count_of(inv, "purple"@) == inv.purple,
{
    reveal_strlit("green");
    reveal_strlit("ladybug");
    reveal_strlit("monarch");
    reveal_strlit("pond");
    reveal_strlit("bombardier");
    reveal_strlit("purple");
    reveal_strlit("skull");
    assert("ladybug"@[0] != "green"@[0]);
    assert("monarch"@[0] != "green"@[0]);
    assert("monarch"@[0] != "ladybug"@[0]);
    assert("pond"@[0] != "green"@[0]);
    assert("pond"@[0] != "ladybug"@[0]);
    assert("pond"@[0] != "monarch"@[0]);
    assert("bombardier"@[0] != "green"@[0]);
    assert("bombardier"@[0] != "ladybug"@[0]);
    assert("bombardier"@[0] != "monarch"@[0]);
    assert("bombardier"@[0] != "pond"@[0]);
    assert("skull"@[0] != "green"@[0]);
    assert("skull"@[0] != "ladybug"@[0]);
    assert("skull"@[0] != "monarch"@[0]);
    assert("skull"@[0] != "pond"@[0]);
    assert("skull"@[0] != "bombardier"@[0]);
    assert("purple"@[0] != "green"@[0]);
    assert("purple"@[0] != "ladybug"@[0]);
    assert("purple"@[0] != "monarch"@[0]);
    assert("purple"@[1] != "pond"@[1]);
    assert("purple"@[0] != "bombardier"@[0]);
    assert("purple"@[0] != "skull"@[0]);
}

impl SessionBeetleInventory {
    pub fn new(initial: BeetleInventory) -> (s: Self)
        ensures
            s.current == initial,
            s.session_start == initial,
    {
        Self { current: initial, session_start: initial }
    }

    pub fn update(&mut self, new_inventory: BeetleInventory)
        ensures
            final(self).current == new_inventory,
            final(self).session_start == old(self).session_start,
    {
        self.current = new_inventory;
    }

    /// Beetles of the named kind gained since the session started.
    pub fn get_session_delta(&self, beetle_type: &str) -> (r: i32)
        requires
            delta_fits(count_of(self.current, beetle_type@), count_of(self.session_start, beetle_type@)),
        ensures
            r == delta_spec(count_of(self.current, beetle_type@), count_of(self.session_start, beetle_type@)),
    {
        let current = self.get_count(&self.current, beetle_type);
        let start = self.get_count(&self.session_start, beetle_type);
        narrowed_delta(current, start)
    }

    fn get_count(&self, inv: &BeetleInventory, beetle_type: &str) -> (r: u32)
        ensures
            r == count_of(*inv, beetle_type@),
    {
        if str_eq(beetle_type, "green") {
            inv.green
        } else if str_eq(beetle_type, "ladybug") {
            inv.ladybug
        } else if str_eq(beetle_type, "monarch") {
            inv.monarch
        } else if str_eq(beetle_type, "pond") {
            inv.pond
        } else if str_eq(beetle_type, "bombardier") {
            inv.bombardier
        } else if str_eq(beetle_type, "skull") {
            inv.skull
        } else if str_eq(beetle_type, "purple") {
            inv.purple
        } else {
            0
        }
    }

    /// The number of beetles held now.
    pub fn total_beetles(&self) -> (r: u32)
        requires
            total_spec(self.current) <= u32::MAX,
        ensures
            r == total_spec(self.current),
    {
        self.current.total_beetles()
    }

    /// The beetles gained over the session (both totals narrowed to `i32`).
    pub fn total_session_gain(&self) -> (r: i32)
        requires
            total_spec(self.current) <= u32::MAX,
            total_spec(self.session_start) <= u32::MAX,
            delta_fits(total_spec(self.current) as u32, total_spec(self.session_start) as u32),
        ensures
            r == delta_spec(total_spec(self.current) as u32, total_spec(self.session_start) as u32),
    {
        let current_total = self.total_beetles();
        let start_total = self.session_start.total_beetles();
        narrowed_delta(current_total, start_total)
    }

    /// The beetle kinds with label, rarity, count, session gain and key,
    /// rarest first.
    pub fn get_sorted_beetles(&self) -> (r: Vec<(&str, &str, u32, i32, &str)>)
        requires
            deltas_fit(*self),
        ensures
            r@ == seq![
                ("🟠 Monarch", "Rare", self.current.monarch, delta_spec(self.current.monarch, self.session_start.monarch) as i32, "monarch"),
                ("⚫ Bombardier", "Rare", self.current.bombardier, delta_spec(self.current.bombardier, self.session_start.bombardier) as i32, "bombardier"),
                ("💀 Skull", "Rare", self.current.skull, delta_spec(self.current.skull, self.session_start.skull) as i32, "skull"),
                ("🟣 Purple", "Uncommon", self.current.purple, delta_spec(self.current.purple, self.session_start.purple) as i32, "purple"),
                ("🔵 Pond", "Uncommon", self.current.pond, delta_spec(self.current.pond, self.session_start.pond) as i32, "pond"),
                ("🔴 Ladybug", "Common", self.current.ladybug, delta_spec(self.current.ladybug, self.session_start.ladybug) as i32, "ladybug"),
                ("🟢 Green", "Common", self.current.green, delta_spec(self.current.green, self.session_start.green) as i32, "green"),
            ],
    {
        proof {
            lemma_kind_names();
        }
        let d_monarch = self.get_session_delta("monarch");
        let d_bombardier = self.get_session_delta("bombardier");
        let d_skull = self.get_session_delta("skull");
        let d_purple = self.get_session_delta("purple");
        let d_pond = self.get_session_delta("pond");
        let d_ladybug = self.get_session_delta("ladybug");
        let d_green = self.get_session_delta("green");
        let mut v = Vec::new();
        v.push(("🟠 Monarch", "Rare", self.current.monarch, d_monarch, "monarch"));
        v.push(("⚫ Bombardier", "Rare", self.current.bombardier, d_bombardier, "bombardier"));
        v.push(("💀 Skull", "Rare", self.current.skull, d_skull, "skull"));
        v.push(("🟣 Purple", "Uncommon", self.current.purple, d_purple, "purple"));
        v.push(("🔵 Pond", "Uncommon", self.current.pond, d_pond, "pond"));
        v.push(("🔴 Ladybug", "Common", self.current.ladybug, d_ladybug, "ladybug"));
        v.push(("🟢 Green", "Common", self.current.green, d_green, "green"));
        assert(v@ =~= seq![
            ("🟠 Monarch", "Rare", self.current.monarch, delta_spec(self.current.monarch, self.session_start.monarch) as i32, "monarch"),
            ("⚫ Bombardier", "Rare", self.current.bombardier, delta_spec(self.current.bombardier, self.session_start.bombardier) as i32, "bombardier"),
            ("💀 Skull", "Rare", self.current.skull, delta_spec(self.current.skull, self.session_start.skull) as i32, "skull"),
            ("🟣 Purple", "Uncommon", self.current.purple, delta_spec(self.current.purple, self.session_start.purple) as i32, "purple"),
            ("🔵 Pond", "Uncommon", self.current.pond, delta_spec(self.current.pond, self.session_start.pond) as i32, "pond"),
            ("🔴 Ladybug", "Common", self.current.ladybug, delta_spec(self.current.ladybug, self.session_start.ladybug) as i32, "ladybug"),
            ("🟢 Green", "Common", self.current.green, delta_spec(self.current.green, self.session_start.green) as i32, "green"),
        ]);
        v
    }
}

/// The streak counters.
#[derive(Debug, PartialEq, Eq, Structural, Clone, Copy)]
pub struct Streaks {
    pub ubc: u32,
    pub last_claim: u64,
    pub lousy_beetle: u32,
    pub pity_counter: u32,
}

/// The player as the bot reads it. The level-progress figures, which the
/// game sends as floating-point numbers, are not held here.
pub struct User {
    pub id: String,
    pub cheese: u32,
    pub xp: u32,
    pub level: u32,
    pub inventory: BeetleInventory,
    pub discovered: Vec<String>,
    pub streaks: Streaks,
    pub beetle_hunts_used: u32,
    pub last_beetle_hunt_date: u64,
    pub cooldowns: Cooldowns,
}

/// Hunts reopen an hour and a half (in milliseconds) after the last hunt.
pub const HUNT_COOLDOWN_MS: u64 = 5_400_000;

/// A cooldown in milliseconds as whole seconds, rounded up.
pub open spec fn ceil_secs(ms: u64) -> u64 {
    if ms == 0 { 0 } else { ((ms + 999) / 1000) as u64 }
}

/// The instant (Unix milliseconds) at which hunts reopen.
pub open spec fn hunt_reopen_ms(u: User) -> int {
    u.last_beetle_hunt_date + HUNT_COOLDOWN_MS
}

/// `is_new_hunt_day` at the instant `now_ms`.
pub open spec fn new_hunt_day_at(u: User, now_ms: u64) -> bool {
    now_ms >= hunt_reopen_ms(u)
}

/// Seconds in a day.
pub const DAY_SECS: u64 = 86_400;

/// `time_until_hunt_reset` at the instant `now_ms`: zero once the hunts
/// have reopened; until then, the whole seconds left until the next
/// midnight UTC.
pub open spec fn hunt_wait_at(u: User, now_ms: u64) -> u64 {
    if new_hunt_day_at(u, now_ms) { 0 } else { (DAY_SECS - (now_ms / 1000) % DAY_SECS) as u64 }
}

impl User {
    /// The number of beetles held (the sum must fit in 32 bits).
    pub fn total_beetles(&self) -> (r: u32)
        requires
            total_spec(self.inventory) <= u32::MAX,
        ensures
            r == total_spec(self.inventory),
    {
        self.inventory.total_beetles()
    }

    pub fn can_catch_beetle(&self) -> (r: bool)
        ensures
            r == (self.cooldowns.catch_beetle == 0),
    {
        self.cooldowns.catch_beetle == 0
    }

    pub fn can_claim_ubc(&self) -> (r: bool)
        ensures
            r == (self.cooldowns.claim_ubc == 0),
    {
        self.cooldowns.claim_ubc == 0
    }

    /// Seconds until a beetle can be caught, rounded up.
    pub fn time_until_catch_ready(&self) -> (r: u64)
        requires
            self.cooldowns.catch_beetle + 999 <= u64::MAX,
        ensures
            r == ceil_secs(self.cooldowns.catch_beetle),
    {
        if self.cooldowns.catch_beetle == 0 {
            0
        } else {
            (self.cooldowns.catch_beetle + 999) / 1000
        }
    }

    /// Seconds until the daily cheese can be claimed, rounded up.
    pub fn time_until_ubc_ready(&self) -> (r: u64)
        requires
            self.cooldowns.claim_ubc + 999 <= u64::MAX,
        ensures
            r == ceil_secs(self.cooldowns.claim_ubc),
    {
        if self.cooldowns.claim_ubc == 0 {
            0
        } else {
            (self.cooldowns.claim_ubc + 999) / 1000
        }
    }

    /// Fewer than three hunts used.
    pub fn has_hunts_remaining(&self) -> (r: bool)
        ensures
            r == (self.beetle_hunts_used < 3),
    {
        self.beetle_hunts_used < 3
    }

    /// Three less the hunts used, but not below zero.
    pub fn hunts_remaining(&self) -> (r: u32)
        ensures
            r == (if self.beetle_hunts_used >= 3 { 0 } else { 3 - self.beetle_hunts_used }),
    {
        3u32.saturating_sub(self.beetle_hunts_used)
    }

    /// Whether the hunts have reopened at the instant `now_ms`.
    pub fn is_new_hunt_day_at(&self, now_ms: u64) -> (r: bool)
        requires
            hunt_reopen_ms(*self) <= u64::MAX,
        ensures
            r == new_hunt_day_at(*self, now_ms),
    {
        let reset_time = self.last_beetle_hunt_date + HUNT_COOLDOWN_MS;
        now_ms >= reset_time
    }

    /// Whether the hunts have reopened now.
    pub fn is_new_hunt_day(&self) -> (r: bool)
        requires
            hunt_reopen_ms(*self) <= u64::MAX,
        ensures
            exists|now: u64| now < CLOCK_SECONDS_BOUND * 1000 && r == #[trigger] new_hunt_day_at(*self, now),
            hunt_reopen_ms(*self) >= CLOCK_SECONDS_BOUND * 1000 ==> !r,
    {
        let now = unix_millis_now() as u64;
        let r = self.is_new_hunt_day_at(now);
        assert(now < CLOCK_SECONDS_BOUND * 1000 && r == new_hunt_day_at(*self, now));
        r
    }

    /// Seconds until the hunts reset (midnight UTC) at the instant `now_ms`;
    /// zero once they have reopened.
    pub fn time_until_hunt_reset_at(&self, now_ms: u64) -> (r: u64)
        requires
            hunt_reopen_ms(*self) <= u64::MAX,
        ensures
            r == hunt_wait_at(*self, now_ms),
    {
        if self.is_new_hunt_day_at(now_ms) {
            return 0;
        }
        let now_secs = now_ms / 1000;
        DAY_SECS - now_secs % DAY_SECS
    }

    /// Seconds until the hunts reset (midnight UTC), now: at most a day.
    pub fn time_until_hunt_reset(&self) -> (r: u64)
        requires
            hunt_reopen_ms(*self) <= u64::MAX,
        ensures
            exists|now: u64| now < CLOCK_SECONDS_BOUND * 1000 && r == #[trigger] hunt_wait_at(*self, now),
            r <= DAY_SECS,
    {
        let now = unix_millis_now() as u64;
        let r = self.time_until_hunt_reset_at(now);
        assert(now < CLOCK_SECONDS_BOUND * 1000 && r == hunt_wait_at(*self, now));
        r
    }
}

/// The beetle card shown with a catch.
pub struct BeetleCard {
    pub beetle_name: String,
    pub girl_name: String,
    pub species: String,
    pub species_latin: String,
    pub icon: String,
    pub background: String,
    pub character: String,
}

/// What the daily cheese claim gave.
pub struct ClaimUBCResult {
    pub cheese: u32,
    pub xp: u32,
    pub streak: u32,
}

/// The answer to a daily cheese claim.
pub enum ClaimUBCApiResponse {
    Success { success: bool, result: ClaimUBCResult, user: User },
    Error { success: bool, error: String, user: User },
}

/// What a catch gave.
pub struct CatchBeetleResult {
    pub beetle: String,
    pub beetle_name: String,
    pub xp: u32,
    pub cooldown_ms: u64,
    pub catch_video_info: VideoInfo,
    pub beetle_card: BeetleCard,
}

/// The answer to a catch.
pub enum CatchBeetleApiResponse {
    Success { success: bool, result: CatchBeetleResult, user: User },
    Error { success: bool, error: String, user: User },
}

/// What a successful hunt gave.
pub struct BeetleHuntResult {
    pub success: bool,
    pub beetle: String,
    pub beetle_name: String,
    pub xp: u32,
    pub catch_video_info: VideoInfo,
    pub beetle_card: BeetleCard,
}

/// The answer to a hunt: a beetle, an escaped beetle, or a refusal.
#[allow(inconsistent_fields)]
pub enum BeetleHuntApiResponse {
    Success { success: bool, result: BeetleHuntResult, user: User },
    FailedHunt { success: bool, result: FailedHuntResult, user: User },
    Error { success: bool, error: String, user: User },
}

/// A session that has just started (its inventory and its start the same)
/// has gained nothing, of any kind or in total.
pub proof fn law_fresh_session_gains_nothing(s: SessionBeetleInventory, kind: Seq<char>)
    requires
        s.current == s.session_start,
    ensures
        delta_spec(count_of(s.current, kind), count_of(s.session_start, kind)) == 0,
{
}

/// While the counts stay within 32-bit signed range, the session delta of
/// a kind is the count now less the count at the start.
pub proof fn law_delta_counts_the_gain(s: SessionBeetleInventory, kind: Seq<char>)
    requires
        0 <= count_of(s.current, kind) <= i32::MAX,
        0 <= count_of(s.session_start, kind) <= i32::MAX,
    ensures
        delta_spec(count_of(s.current, kind), count_of(s.session_start, kind))
            == count_of(s.current, kind) - count_of(s.session_start, kind),
{
}

} // verus!
