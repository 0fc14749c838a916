//! The bookkeeping and the decisions of the bot's background workers: what
//! each pass does with what the game answered, and how long it sleeps.

use vstd::prelude::*;
use crate::bot::game::{
    BeetleHuntApiResponse, BeetleInventory, CatchBeetleApiResponse,
    CooldownsResponse, SessionBeetleInventory, User, ceil_secs, hunt_reopen_ms, hunt_wait_at,
};
use crate::clock::{unix_millis_now, unix_seconds_now, CLOCK_SECONDS_BOUND};
use crate::utils::{cooldown_from_error_spec, extract_cooldown_from_error};

verus! {

/// The counters the workers share: what they achieved this session, when
/// they last did it (Unix seconds, zero for never), and the inventory.
#[derive(Debug, PartialEq, Eq, Structural, Clone, Copy)]
pub struct WorkerStats {
    pub beetles_caught: u64,
    pub cheese_claimed: u64,
    pub users_poked: u64,
    pub users_friended: u64,
    pub catch_completed: u64,
    pub hunts_completed: u64,
    pub hunts_missed: u64,
    pub last_beetle_time: u64,
    pub last_cheese_time: u64,
    pub last_poke_time: u64,
    pub beetle_inventory: SessionBeetleInventory,
}

/// Adding to a counter wraps around at 2^64, as an atomic counter does.
pub open spec fn bump(x: u64, n: u64) -> u64 {
    if x + n > u64::MAX { (x + n - u64::MAX - 1) as u64 } else { (x + n) as u64 }
}

fn add_wrapping(x: u64, n: u64) -> (r: u64)
    ensures
        r == bump(x, n),
{
    if x > u64::MAX - n {
        n - (u64::MAX - x) - 1
    } else {
        x + n
    }
}

fn clock_seconds() -> (t: u64)
    ensures
        t < CLOCK_SECONDS_BOUND,
{
    unix_seconds_now() as u64
}

/// The session inventory that starts from `inv`.
pub open spec fn session_from(inv: BeetleInventory) -> SessionBeetleInventory {
    SessionBeetleInventory { current: inv, session_start: inv }
}

impl WorkerStats {
    /// Every counter at zero, every time at never, an empty inventory.
    pub fn new() -> (s: Self)
        ensures
            s == (WorkerStats {
                beetles_caught: 0,
                cheese_claimed: 0,
                users_poked: 0,
                users_friended: 0,
                catch_completed: 0,
                hunts_completed: 0,
                hunts_missed: 0,
                last_beetle_time: 0,
                last_cheese_time: 0,
                last_poke_time: 0,
                beetle_inventory: session_from(BeetleInventory {
                    green: 0, ladybug: 0, monarch: 0, pond: 0, bombardier: 0, purple: 0, skull: 0,
                }),
            }),
    {
        WorkerStats {
            beetles_caught: 0,
            cheese_claimed: 0,
            users_poked: 0,
            users_friended: 0,
            catch_completed: 0,
            hunts_completed: 0,
            hunts_missed: 0,
            last_beetle_time: 0,
            last_cheese_time: 0,
            last_poke_time: 0,
            beetle_inventory: SessionBeetleInventory::default(),
        }
    }

    /// One more beetle, caught at `now` (Unix seconds).
    pub fn increment_beetles_at(&mut self, now: u64)
        ensures
            *final(self) == (WorkerStats {
                beetles_caught: bump(old(self).beetles_caught, 1),
                last_beetle_time: now,
                ..*old(self)
            }),
    {
        self.beetles_caught = add_wrapping(self.beetles_caught, 1);
        self.last_beetle_time = now;
    }

    /// One more beetle, caught now.
    pub fn increment_beetles(&mut self)
        ensures
            final(self).last_beetle_time < CLOCK_SECONDS_BOUND,
            *final(self) == (WorkerStats {
                beetles_caught: bump(old(self).beetles_caught, 1),
                last_beetle_time: final(self).last_beetle_time,
                ..*old(self)
            }),
    {
        let now = clock_seconds();
        self.increment_beetles_at(now);
    }

    /// One more cheese claim, made at `now` (Unix seconds).
    pub fn increment_cheese_at(&mut self, now: u64)
        ensures
            *final(self) == (WorkerStats {
                cheese_claimed: bump(old(self).cheese_claimed, 1),
                last_cheese_time: now,
                ..*old(self)
            }),
    {
        self.cheese_claimed = add_wrapping(self.cheese_claimed, 1);
        self.last_cheese_time = now;
    }

    /// One more cheese claim, made now.
    pub fn increment_cheese(&mut self)
        ensures
            final(self).last_cheese_time < CLOCK_SECONDS_BOUND,
            *final(self) == (WorkerStats {
                cheese_claimed: bump(old(self).cheese_claimed, 1),
                last_cheese_time: final(self).last_cheese_time,
                ..*old(self)
            }),
    {
        let now = clock_seconds();
        self.increment_cheese_at(now);
    }

    pub fn increment_catch(&mut self)
        ensures
            *final(self) == (WorkerStats {
                catch_completed: bump(old(self).catch_completed, 1),
                ..*old(self)
            }),
    {
        self.catch_completed = add_wrapping(self.catch_completed, 1);
    }

    pub fn increment_hunts(&mut self)
        ensures
            *final(self) == (WorkerStats {
                hunts_completed: bump(old(self).hunts_completed, 1),
                ..*old(self)
            }),
    {
        self.hunts_completed = add_wrapping(self.hunts_completed, 1);
    }

    pub fn increment_missed_hunts(&mut self)
        ensures
            *final(self) == (WorkerStats {
                hunts_missed: bump(old(self).hunts_missed, 1),
                ..*old(self)
            }),
    {
        self.hunts_missed = add_wrapping(self.hunts_missed, 1);
    }

    /// `count` more pokes, the last made at `now` (Unix seconds).
    pub fn increment_pokes_at(&mut self, count: u64, now: u64)
        ensures
            *final(self) == (WorkerStats {
                users_poked: bump(old(self).users_poked, count),
                last_poke_time: now,
                ..*old(self)
            }),
    {
        self.users_poked = add_wrapping(self.users_poked, count);
        self.last_poke_time = now;
    }

    /// `count` more pokes, the last made now.
    pub fn increment_pokes(&mut self, count: u64)
        ensures
            final(self).last_poke_time < CLOCK_SECONDS_BOUND,
            *final(self) == (WorkerStats {
                users_poked: bump(old(self).users_poked, count),
                last_poke_time: final(self).last_poke_time,
                ..*old(self)
            }),
    {
        let now = clock_seconds();
        self.increment_pokes_at(count, now);
    }

    pub fn increment_friends(&mut self, count: u64)
        ensures
            *final(self) == (WorkerStats {
                users_friended: bump(old(self).users_friended, count),
                ..*old(self)
            }),
    {
        self.users_friended = add_wrapping(self.users_friended, count);
    }

    /// Starts the session over from `inventory`.
    pub fn init_inventory(&mut self, inventory: BeetleInventory)
        ensures
            *final(self) == (WorkerStats { beetle_inventory: session_from(inventory), ..*old(self) }),
    {
        self.beetle_inventory = SessionBeetleInventory::new(inventory);
    }

    /// Records the latest inventory; the session's start stays.
    pub fn update_inventory(&mut self, inventory: BeetleInventory)
        ensures
            *final(self) == (WorkerStats {
                beetle_inventory: SessionBeetleInventory {
                    current: inventory,
                    session_start: old(self).beetle_inventory.session_start,
                },
                ..*old(self)
            }),
    {
        self.beetle_inventory.update(inventory);
    }

    /// A copy of the session inventory.
    pub fn get_inventory(&self) -> (r: SessionBeetleInventory)
        ensures
            r == self.beetle_inventory,
    {
        self.beetle_inventory
    }
}

/// The least cheese a hunt needs.
pub const MIN_HUNT_CHEESE: u32 = 20;

/// Seconds between two hunts of one pass.
pub const HUNT_GAP_SECS: u64 = 60;

/// Seconds before a failed request for the user or the cooldowns is tried again.
pub const FETCH_RETRY_SECS: u64 = 60;

/// Seconds the cheese worker sleeps after a claim was answered.
pub const CHEESE_CLAIMED_WAIT_SECS: u64 = 3600;

/// Seconds the cheese worker sleeps after a claim request failed.
pub const CHEESE_RETRY_SECS: u64 = 300;

/// The longest single wait of the interactive loops.
pub const MAX_LOOP_WAIT_SECS: u64 = 3600;

/// What one pass of the beetle worker does with the player it fetched:
/// whether it tries a catch, how many hunts it makes, and whether it skips
/// the hunts for want of cheese.
#[derive(Debug, PartialEq, Eq, Structural, Clone, Copy)]
pub struct BeetlePass {
    pub catch: bool,
    pub hunts: u32,
    pub short_of_cheese: bool,
}

/// The pass for the player `u`.
pub open spec fn beetle_pass_spec(u: User) -> BeetlePass {
    let can_hunt = u.beetle_hunts_used < 3;
    BeetlePass {
        catch: u.cooldowns.catch_beetle == 0,
        hunts: if can_hunt && u.cheese >= MIN_HUNT_CHEESE { (3 - u.beetle_hunts_used) as u32 } else { 0 },
        short_of_cheese: can_hunt && u.cheese < MIN_HUNT_CHEESE,
    }
}

/// Plans one pass of the beetle worker.
pub fn plan_beetle_pass(user: &User) -> (p: BeetlePass)
    ensures
        p == beetle_pass_spec(*user),
{
    let can_hunt = user.has_hunts_remaining();
    let hunts = if can_hunt && user.cheese >= MIN_HUNT_CHEESE { user.hunts_remaining() } else { 0 };
    BeetlePass {
        catch: user.can_catch_beetle(),
        hunts,
        short_of_cheese: can_hunt && user.cheese < MIN_HUNT_CHEESE,
    }
}

/// The beetle worker's sleep after a pass, at the instant `now_ms`: none
/// when a catch is possible; the catch cooldown when cheese is short;
/// otherwise the sooner of the catch cooldown and the hunts' reopening.
pub open spec fn beetle_next_check_spec(u: User, now_ms: u64) -> u64 {
    if u.cooldowns.catch_beetle == 0 {
        0
    } else if u.cheese < MIN_HUNT_CHEESE {
        ceil_secs(u.cooldowns.catch_beetle)
    } else if ceil_secs(u.cooldowns.catch_beetle) <= hunt_wait_at(u, now_ms) {
        ceil_secs(u.cooldowns.catch_beetle)
    } else {
        hunt_wait_at(u, now_ms)
    }
}

/// The beetle worker's sleep after a pass, at the instant `now_ms`.
pub fn beetle_next_check_at(user: &User, now_ms: u64) -> (r: u64)
    requires
        user.cooldowns.catch_beetle + 999 <= u64::MAX,
        hunt_reopen_ms(*user) <= u64::MAX,
    ensures
        r == beetle_next_check_spec(*user, now_ms),
{
    if user.can_catch_beetle() {
        0
    } else if user.cheese < MIN_HUNT_CHEESE {
        user.time_until_catch_ready()
    } else {
        let catch_cooldown = user.time_until_catch_ready();
        let hunt_reset = user.time_until_hunt_reset_at(now_ms);
        if catch_cooldown <= hunt_reset { catch_cooldown } else { hunt_reset }
    }
}

/// The beetle worker's sleep after a pass, now: never longer than the catch
/// cooldown, and none when a catch is possible.
pub fn beetle_next_check(user: &User) -> (r: u64)
    requires
        user.cooldowns.catch_beetle + 999 <= u64::MAX,
        hunt_reopen_ms(*user) <= u64::MAX,
    ensures
        exists|now: u64| now < CLOCK_SECONDS_BOUND * 1000 && r == #[trigger] beetle_next_check_spec(*user, now),
        r <= ceil_secs(user.cooldowns.catch_beetle),
        user.cooldowns.catch_beetle == 0 ==> r == 0,
        user.cheese < MIN_HUNT_CHEESE ==> r == ceil_secs(user.cooldowns.catch_beetle),
{
    let now = unix_millis_now() as u64;
    let r = beetle_next_check_at(user, now);
    assert(now < CLOCK_SECONDS_BOUND * 1000 && r == beetle_next_check_spec(*user, now));
    r
}

/// The cheese worker's sleep while the claim is cooling down for `s`
/// seconds: five minutes early when it is more than an hour away, and never
/// under a minute.
pub open spec fn cheese_wait_spec(s: u64) -> u64 {
    if s > 3600 {
        if s - 300 >= 60 { (s - 300) as u64 } else { 60 }
    } else if s >= 60 {
        s
    } else {
        60
    }
}

/// The cheese worker's sleep while the claim is cooling down.
pub fn cheese_wait(claim_ubc_seconds: u64) -> (r: u64)
    ensures
        r == cheese_wait_spec(claim_ubc_seconds),
{
    if claim_ubc_seconds > 3600 {
        let early = claim_ubc_seconds - 300;
        if early >= 60 { early } else { 60 }
    } else if claim_ubc_seconds >= 60 {
        claim_ubc_seconds
    } else {
        60
    }
}

/// One step of the interactive hunt loop.
#[derive(Debug, PartialEq, Eq, Structural, Clone, Copy)]
pub enum HuntLoopStep {
    /// Hunt now.
    Hunt,
    /// Sleep this many seconds, then look again.
    Wait(u64),
    /// No hunts are left today.
    Stop,
}

/// The step of the hunt loop for the cooldowns `c`: hunt when the catch is
/// ready and fewer than three hunts were used; else wait out the catch
/// cooldown and five seconds more; stop when there is nothing to wait for.
pub open spec fn hunt_loop_step_spec(c: CooldownsResponse) -> HuntLoopStep {
    if c.cooldowns.catch_beetle == 0 && c.hunt_info.hunts_used < 3 {
        HuntLoopStep::Hunt
    } else if c.cooldowns.catch_beetle / 1000 > 0 {
        HuntLoopStep::Wait((c.cooldowns.catch_beetle / 1000 + 5) as u64)
    } else {
        HuntLoopStep::Stop
    }
}

/// The hunt loop hunts exactly when the catch is ready and fewer than three
/// hunts were used; otherwise it waits out a running catch cooldown (in whole
/// seconds, five more), and stops only when there is none to wait for.
pub proof fn law_hunt_loop_step(c: CooldownsResponse)
    ensures
        (hunt_loop_step_spec(c) is Hunt) == (c.cooldowns.catch_beetle == 0 && c.hunt_info.hunts_used < 3),
        hunt_loop_step_spec(c) matches HuntLoopStep::Wait(w) ==> c.cooldowns.catch_beetle >= 1000
            && w == c.cooldowns.catch_beetle / 1000 + 5,
        (hunt_loop_step_spec(c) is Stop) == (c.cooldowns.catch_beetle < 1000 && !(
        c.cooldowns.catch_beetle == 0 && c.hunt_info.hunts_used < 3)),
{
}

/// Decides one step of the interactive hunt loop.
pub fn hunt_loop_step(c: &CooldownsResponse) -> (r: HuntLoopStep)
    ensures
        r == hunt_loop_step_spec(*c),
        (r is Hunt) == (c.cooldowns.catch_beetle == 0 && c.hunt_info.hunts_used < 3),
        r matches HuntLoopStep::Wait(w) ==> c.cooldowns.catch_beetle >= 1000
            && w == c.cooldowns.catch_beetle / 1000 + 5,
        (r is Stop) == (c.cooldowns.catch_beetle < 1000 && !(c.cooldowns.catch_beetle == 0
            && c.hunt_info.hunts_used < 3)),
{
    proof {
        law_hunt_loop_step(*c);
    }
    if c.cooldowns.catch_beetle == 0 && c.hunt_info.hunts_used < 3 {
        HuntLoopStep::Hunt
    } else {
        let wait_seconds = c.cooldowns.catch_beetle / 1000;
        if wait_seconds > 0 {
            HuntLoopStep::Wait(wait_seconds + 5)
        } else {
            HuntLoopStep::Stop
        }
    }
}

/// The sleep of the interactive catch and cheese loops while a cooldown of
/// `ms` milliseconds runs: its whole seconds, at most an hour.
pub open spec fn recheck_wait_spec(ms: u64) -> u64 {
    if ms / 1000 <= MAX_LOOP_WAIT_SECS { (ms / 1000) as u64 } else { MAX_LOOP_WAIT_SECS }
}

/// The sleep of the interactive loops while a cooldown runs.
pub fn recheck_wait(ms: u64) -> (r: u64)
    ensures
        r == recheck_wait_spec(ms),
{
    let secs = ms / 1000;
    if secs <= MAX_LOOP_WAIT_SECS { secs } else { MAX_LOOP_WAIT_SECS }
}

/// The sleep after an answered request of the interactive loops: when the
/// answer is a refusal that names a cooldown, that cooldown capped at an
/// hour; otherwise `otherwise`.
pub open spec fn followup_wait_spec(error: Option<Seq<char>>, otherwise: u64) -> u64 {
    match error {
        Some(e) => match cooldown_from_error_spec(e) {
            Some(c) => if c <= MAX_LOOP_WAIT_SECS { c } else { MAX_LOOP_WAIT_SECS },
            None => otherwise,
        },
        None => otherwise,
    }
}

/// The sleep after an answered request of the interactive loops.
pub fn followup_wait(error: Option<&str>, otherwise: u64) -> (r: u64)
    ensures
        r == followup_wait_spec(
            match error { Some(e) => Some(e@), None => None },
            otherwise,
        ),
{
    match error {
        Some(e) => match extract_cooldown_from_error(e) {
            Some(c) => if c <= MAX_LOOP_WAIT_SECS { c } else { MAX_LOOP_WAIT_SECS },
            None => otherwise,
        },
        None => otherwise,
    }
}

impl WorkerStats {
    /// What a catch answer received at `now` (Unix seconds) changes: a
    /// success counts a beetle and a catch and brings the returned
    /// inventory; a refusal changes nothing.
    pub fn record_catch_at(&mut self, response: &CatchBeetleApiResponse, now: u64)
        ensures
            match response {
                CatchBeetleApiResponse::Success { user, .. } => *final(self) == (WorkerStats {
                    beetles_caught: bump(old(self).beetles_caught, 1),
                    last_beetle_time: now,
                    catch_completed: bump(old(self).catch_completed, 1),
                    beetle_inventory: SessionBeetleInventory {
                        current: user.inventory,
                        session_start: old(self).beetle_inventory.session_start,
                    },
                    ..*old(self)
                }),
                CatchBeetleApiResponse::Error { .. } => *final(self) == *old(self),
            },
    {
        match response {
            CatchBeetleApiResponse::Success { user, .. } => {
                self.increment_beetles_at(now);
                self.increment_catch();
                self.update_inventory(user.inventory);
            },
            CatchBeetleApiResponse::Error { .. } => {},
        }
    }

    /// What a hunt answer received at `now` (Unix seconds) changes: a
    /// beetle counts a hunt and a beetle, an escape counts a hunt and a
    /// miss, and both bring the returned inventory; a refusal changes
    /// nothing.
    pub fn record_hunt_at(&mut self, response: &BeetleHuntApiResponse, now: u64)
        ensures
            match response {
                BeetleHuntApiResponse::Success { user, .. } => *final(self) == (WorkerStats {
                    hunts_completed: bump(old(self).hunts_completed, 1),
                    beetles_caught: bump(old(self).beetles_caught, 1),
                    last_beetle_time: now,
                    beetle_inventory: SessionBeetleInventory {
                        current: user.inventory,
                        session_start: old(self).beetle_inventory.session_start,
                    },
                    ..*old(self)
                }),
                BeetleHuntApiResponse::FailedHunt { user, .. } => *final(self) == (WorkerStats {
                    hunts_completed: bump(old(self).hunts_completed, 1),
                    hunts_missed: bump(old(self).hunts_missed, 1),
                    beetle_inventory: SessionBeetleInventory {
                        current: user.inventory,
                        session_start: old(self).beetle_inventory.session_start,
                    },
                    ..*old(self)
                }),
                BeetleHuntApiResponse::Error { .. } => *final(self) == *old(self),
            },
    {
        match response {
            BeetleHuntApiResponse::Success { user, .. } => {
                self.increment_hunts();
                self.increment_beetles_at(now);
                self.update_inventory(user.inventory);
            },
            BeetleHuntApiResponse::FailedHunt { user, .. } => {
                self.increment_hunts();
                self.increment_missed_hunts();
                self.update_inventory(user.inventory);
            },
            BeetleHuntApiResponse::Error { .. } => {},
        }
    }
}

} // verus!
