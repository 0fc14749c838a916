//! The player's account as the game reports it: inventory, cooldowns,
//! hunts, and the requests and replies of the game's actions.

use vstd::prelude::*;
use crate::clock::{unix_millis_now, unix_seconds_now, CLOCK_SECONDS_BOUND};
use crate::text::{str_eq, trunc_div};

verus! {

// ============================================================================
// CORE USER & INVENTORY MODELS
// ============================================================================

/// Beetle inventory: how many of each kind of item the player holds.
#[derive(Debug, PartialEq, Eq, Structural)]
pub struct BeetleInventory {
    pub green: i64,
    pub ladybug: i64,
    pub monarch: i64,
    pub pond: i64,
    pub bombardier: i64,
    pub purple: i64,
    pub skull: i64,
    pub beetleboy_key: i64,
    pub bike_reflector: i64,
    pub bottle_cap: i64,
    pub camellia: i64,
    pub cheese: i64,
    pub chip_bag: i64,
    pub chocolate_bar: i64,
    pub chocolate_wrapper: i64,
    pub christmas: i64,
    pub cigarette_butt: i64,
    pub coffee_can: i64,
    pub cracker_wrapper: i64,
    pub daisy: i64,
    pub empty_noodle_cup: i64,
    pub gallic_rose: i64,
    pub giraffe_weevil: i64,
    pub green_army_man: i64,
    pub gum_wrapper: i64,
    pub hammer_t1: i64,
    pub hammer_t2: i64,
    pub hammer_t3: i64,
    pub hammer_t4: i64,
    pub imperial_tortoise: i64,
    pub jack_adapter: i64,
    pub juicebox: i64,
    pub marble: i64,
    pub marigold: i64,
    pub milk_thistle: i64,
    pub morning_glory: i64,
    pub paperclip: i64,
    pub pebble: i64,
    pub pillbug: i64,
    pub pincushion: i64,
    pub pokkiri_box: i64,
    pub pollen_common: i64,
    pub pollen_rare: i64,
    pub pollen_uncommon: i64,
    pub poppy: i64,
    pub ramune_bottle: i64,
    pub red_whistle: i64,
    pub royal_poinciana: i64,
    pub rubber_band: i64,
    pub sabertooth_longhorn: i64,
    pub scratch_off: i64,
    pub smiley_pebble: i64,
    pub soda_can_tab: i64,
    pub stag: i64,
    pub stamp: i64,
    pub sunflower: i64,
    pub train_ticket_stub: i64,
    pub watch_battery: i64,
    pub wine_cork: i64,
    pub golden: i64,
    pub goliath: i64,
    pub black_widow: i64,
}

impl Clone for BeetleInventory {
    fn clone(&self) -> (r: Self)
        ensures
            r == *self,
    {
        BeetleInventory {
            green: self.green,
            ladybug: self.ladybug,
            monarch: self.monarch,
            pond: self.pond,
            bombardier: self.bombardier,
            purple: self.purple,
            skull: self.skull,
            beetleboy_key: self.beetleboy_key,
            bike_reflector: self.bike_reflector,
            bottle_cap: self.bottle_cap,
            camellia: self.camellia,
            cheese: self.cheese,
            chip_bag: self.chip_bag,
            chocolate_bar: self.chocolate_bar,
            chocolate_wrapper: self.chocolate_wrapper,
            christmas: self.christmas,
            cigarette_butt: self.cigarette_butt,
            coffee_can: self.coffee_can,
            cracker_wrapper: self.cracker_wrapper,
            daisy: self.daisy,
            empty_noodle_cup: self.empty_noodle_cup,
            gallic_rose: self.gallic_rose,
            giraffe_weevil: self.giraffe_weevil,
            green_army_man: self.green_army_man,
            gum_wrapper: self.gum_wrapper,
            hammer_t1: self.hammer_t1,
            hammer_t2: self.hammer_t2,
            hammer_t3: self.hammer_t3,
            hammer_t4: self.hammer_t4,
            imperial_tortoise: self.imperial_tortoise,
            jack_adapter: self.jack_adapter,
            juicebox: self.juicebox,
            marble: self.marble,
            marigold: self.marigold,
            milk_thistle: self.milk_thistle,
            morning_glory: self.morning_glory,
            paperclip: self.paperclip,
            pebble: self.pebble,
            pillbug: self.pillbug,
            pincushion: self.pincushion,
            pokkiri_box: self.pokkiri_box,
            pollen_common: self.pollen_common,
            pollen_rare: self.pollen_rare,
            pollen_uncommon: self.pollen_uncommon,
            poppy: self.poppy,
            ramune_bottle: self.ramune_bottle,
            red_whistle: self.red_whistle,
            royal_poinciana: self.royal_poinciana,
            rubber_band: self.rubber_band,
            sabertooth_longhorn: self.sabertooth_longhorn,
            scratch_off: self.scratch_off,
            smiley_pebble: self.smiley_pebble,
            soda_can_tab: self.soda_can_tab,
            stag: self.stag,
            stamp: self.stamp,
            sunflower: self.sunflower,
            train_ticket_stub: self.train_ticket_stub,
            watch_battery: self.watch_battery,
            wine_cork: self.wine_cork,
            golden: self.golden,
            goliath: self.goliath,
            black_widow: self.black_widow,
        }
    }
}

impl BeetleInventory {
    /// The empty inventory.
    pub open spec fn empty_spec() -> Self {
        BeetleInventory {
            green: 0,
            ladybug: 0,
            monarch: 0,
            pond: 0,
            bombardier: 0,
            purple: 0,
            skull: 0,
            beetleboy_key: 0,
            bike_reflector: 0,
            bottle_cap: 0,
            camellia: 0,
            cheese: 0,
            chip_bag: 0,
            chocolate_bar: 0,
            chocolate_wrapper: 0,
            christmas: 0,
            cigarette_butt: 0,
            coffee_can: 0,
            cracker_wrapper: 0,
            daisy: 0,
            empty_noodle_cup: 0,
            gallic_rose: 0,
            giraffe_weevil: 0,
            green_army_man: 0,
            gum_wrapper: 0,
            hammer_t1: 0,
            hammer_t2: 0,
            hammer_t3: 0,
            hammer_t4: 0,
            imperial_tortoise: 0,
            jack_adapter: 0,
            juicebox: 0,
            marble: 0,
            marigold: 0,
            milk_thistle: 0,
            morning_glory: 0,
            paperclip: 0,
            pebble: 0,
            pillbug: 0,
            pincushion: 0,
            pokkiri_box: 0,
            pollen_common: 0,
            pollen_rare: 0,
            pollen_uncommon: 0,
            poppy: 0,
            ramune_bottle: 0,
            red_whistle: 0,
            royal_poinciana: 0,
            rubber_band: 0,
            sabertooth_longhorn: 0,
            scratch_off: 0,
            smiley_pebble: 0,
            soda_can_tab: 0,
            stag: 0,
            stamp: 0,
            sunflower: 0,
            train_ticket_stub: 0,
            watch_battery: 0,
            wine_cork: 0,
            golden: 0,
            goliath: 0,
            black_widow: 0,
        }
    }
}

impl Default for BeetleInventory {
    fn default() -> (r: Self)
        ensures
            r == BeetleInventory::empty_spec(),
    {
        BeetleInventory {
            green: 0,
            ladybug: 0,
            monarch: 0,
            pond: 0,
            bombardier: 0,
            purple: 0,
            skull: 0,
            beetleboy_key: 0,
            bike_reflector: 0,
            bottle_cap: 0,
            camellia: 0,
            cheese: 0,
            chip_bag: 0,
            chocolate_bar: 0,
            chocolate_wrapper: 0,
            christmas: 0,
            cigarette_butt: 0,
            coffee_can: 0,
            cracker_wrapper: 0,
            daisy: 0,
            empty_noodle_cup: 0,
            gallic_rose: 0,
            giraffe_weevil: 0,
            green_army_man: 0,
            gum_wrapper: 0,
            hammer_t1: 0,
            hammer_t2: 0,
            hammer_t3: 0,
            hammer_t4: 0,
            imperial_tortoise: 0,
            jack_adapter: 0,
            juicebox: 0,
            marble: 0,
            marigold: 0,
            milk_thistle: 0,
            morning_glory: 0,
            paperclip: 0,
            pebble: 0,
            pillbug: 0,
            pincushion: 0,
            pokkiri_box: 0,
            pollen_common: 0,
            pollen_rare: 0,
            pollen_uncommon: 0,
            poppy: 0,
            ramune_bottle: 0,
            red_whistle: 0,
            royal_poinciana: 0,
            rubber_band: 0,
            sabertooth_longhorn: 0,
            scratch_off: 0,
            smiley_pebble: 0,
            soda_can_tab: 0,
            stag: 0,
            stamp: 0,
            sunflower: 0,
            train_ticket_stub: 0,
            watch_battery: 0,
            wine_cork: 0,
            golden: 0,
            goliath: 0,
            black_widow: 0,
        }
    }
}

/// The number of beetles in the inventory: the seven beetle kinds.
pub open spec fn total_beetles_spec(inv: BeetleInventory) -> int {
    inv.green + inv.ladybug + inv.monarch + inv.pond + inv.bombardier + inv.purple + inv.skull
}

/// Every partial sum of `total_beetles`, taken left to right, fits in `i64`.
pub open spec fn total_fits(inv: BeetleInventory) -> bool {
    &&& i64::MIN <= inv.green + inv.ladybug <= i64::MAX
    &&& i64::MIN <= inv.green + inv.ladybug + inv.monarch <= i64::MAX
    &&& i64::MIN <= inv.green + inv.ladybug + inv.monarch + inv.pond <= i64::MAX
    &&& i64::MIN <= inv.green + inv.ladybug + inv.monarch + inv.pond + inv.bombardier <= i64::MAX
    &&& i64::MIN <= inv.green + inv.ladybug + inv.monarch + inv.pond + inv.bombardier
        + inv.purple <= i64::MAX
    &&& i64::MIN <= total_beetles_spec(inv) <= i64::MAX
}

impl BeetleInventory {
    /// The total number of beetles held.
    pub fn total_beetles(&self) -> (r: i64)
        requires
            total_fits(*self),
        ensures
            r == total_beetles_spec(*self),
    {
        self.green + self.ladybug + self.monarch + self.pond + self.bombardier + self.purple
            + self.skull
    }

    /// The beetle kinds with icon, name, count and rarity, from common to
    /// legendary.
    pub fn get_sorted_beetles(&self) -> (r: Vec<(&str, &str, i64, &str)>)
        ensures
            r@ == seq![
                ("🟢", "Green", self.green, "common"),
                ("🔴", "Ladybug", self.ladybug, "common"),
                ("🟠", "Monarch", self.monarch, "uncommon"),
                ("🔵", "Pond", self.pond, "uncommon"),
                ("⚫", "Bombardier", self.bombardier, "rare"),
                ("🟣", "Purple", self.purple, "epic"),
                ("💀", "Skull", self.skull, "legendary"),
            ],
    {
        let mut v = Vec::new();
        v.push(("🟢", "Green", self.green, "common"));
        v.push(("🔴", "Ladybug", self.ladybug, "common"));
        v.push(("🟠", "Monarch", self.monarch, "uncommon"));
        v.push(("🔵", "Pond", self.pond, "uncommon"));
        v.push(("⚫", "Bombardier", self.bombardier, "rare"));
        v.push(("🟣", "Purple", self.purple, "epic"));
        v.push(("💀", "Skull", self.skull, "legendary"));
        assert(v@ == seq![
            ("🟢", "Green", self.green, "common"),
            ("🔴", "Ladybug", self.ladybug, "common"),
            ("🟠", "Monarch", self.monarch, "uncommon"),
            ("🔵", "Pond", self.pond, "uncommon"),
            ("⚫", "Bombardier", self.bombardier, "rare"),
            ("🟣", "Purple", self.purple, "epic"),
            ("💀", "Skull", self.skull, "legendary"),
        ]);
        v
    }
}

/// Session beetle inventory tracking: the inventory now and at the start of
/// the session.
#[derive(Debug)]
pub struct SessionBeetleInventory {
    pub current: BeetleInventory,
    pub session_start: BeetleInventory,
}

impl Clone for SessionBeetleInventory {
    fn clone(&self) -> (r: Self)
        ensures
            r == *self,
    {
        SessionBeetleInventory {
            current: self.current.clone(),
            session_start: self.session_start.clone(),
        }
    }
}

impl Default for SessionBeetleInventory {
    fn default() -> (r: Self)
        ensures
            r.current == BeetleInventory::empty_spec(),
            r.session_start == BeetleInventory::empty_spec(),
    {
        SessionBeetleInventory {
            current: BeetleInventory::default(),
            session_start: BeetleInventory::default(),
        }
    }
}

/// The count of the beetle kind named `kind` (lower case), zero for any
/// other name.
pub open spec fn count_of(inv: BeetleInventory, kind: Seq<char>) -> i64 {
    if kind == "green"@ {
        inv.green
    } else if kind == "ladybug"@ {
        inv.ladybug
    } else if kind == "monarch"@ {
        inv.monarch
    } else if kind == "pond"@ {
        inv.pond
    } else if kind == "bombardier"@ {
        inv.bombardier
    } else if kind == "purple"@ {
        inv.purple
    } else if kind == "skull"@ {
        inv.skull
    } else {
        0
    }
}

/// `a as i32 - b as i32`: the difference of two counts, each first narrowed
/// to 32 bits as the session view does.
pub open spec fn delta_spec(a: i64, b: i64) -> int {
    (a as i32) as int - (b as i32) as int
}

/// The narrowed difference fits in `i32`.
pub open spec fn delta_fits(a: i64, b: i64) -> bool {
    i32::MIN <= delta_spec(a, b) <= i32::MAX
}

/// Every beetle kind's session difference fits in `i32`.
pub open spec fn deltas_fit(s: SessionBeetleInventory) -> bool {
    &&& delta_fits(s.current.green, s.session_start.green)
    &&& delta_fits(s.current.ladybug, s.session_start.ladybug)
    &&& delta_fits(s.current.monarch, s.session_start.monarch)
    &&& delta_fits(s.current.pond, s.session_start.pond)
    &&& delta_fits(s.current.bombardier, s.session_start.bombardier)
    &&& delta_fits(s.current.purple, s.session_start.purple)
    &&& delta_fits(s.current.skull, s.session_start.skull)
}

/// The seven kind names select the seven counts.
proof fn lemma_kind_names()
    ensures
        forall|inv: BeetleInventory| #[trigger] count_of(inv, "green"@) == inv.green,
        forall|inv: BeetleInventory| #[trigger] count_of(inv, "ladybug"@) == inv.ladybug,
        forall|inv: BeetleInventory| #[trigger] count_of(inv, "monarch"@) == inv.monarch,
        forall|inv: BeetleInventory| #[trigger] count_of(inv, "pond"@) == inv.pond,
        forall|inv: BeetleInventory| #[trigger] count_of(inv, "bombardier"@) == inv.bombardier,
        forall|inv: BeetleInventory| #[trigger] count_of(inv, "purple"@) == inv.purple,
        forall|inv: BeetleInventory| #[trigger] count_of(inv, "skull"@) == inv.skull,
{
    reveal_strlit("green");
    reveal_strlit("ladybug");
    reveal_strlit("monarch");
    reveal_strlit("pond");
    reveal_strlit("bombardier");
    reveal_strlit("purple");
    reveal_strlit("skull");
    assert("ladybug"@[0] != "green"@[0]);
    assert("monarch"@[0] != "green"@[0]);
    assert("monarch"@[0] != "ladybug"@[0]);
    assert("pond"@[0] != "green"@[0]);
    assert("pond"@[0] != "ladybug"@[0]);
    assert("pond"@[0] != "monarch"@[0]);
    assert("bombardier"@[0] != "green"@[0]);
    assert("bombardier"@[0] != "ladybug"@[0]);
    assert("bombardier"@[0] != "monarch"@[0]);
    assert("bombardier"@[0] != "pond"@[0]);
    assert("purple"@[0] != "green"@[0]);
    assert("purple"@[0] != "ladybug"@[0]);
    assert("purple"@[0] != "monarch"@[0]);
    assert("purple"@[1] != "pond"@[1]);
    assert("purple"@[0] != "bombardier"@[0]);
    assert("skull"@[0] != "green"@[0]);
    assert("skull"@[0] != "ladybug"@[0]);
    assert("skull"@[0] != "monarch"@[0]);
    assert("skull"@[0] != "pond"@[0]);
    assert("skull"@[0] != "bombardier"@[0]);
    assert("skull"@[0] != "purple"@[0]);
}

fn narrowed_delta(a: i64, b: i64) -> (r: i32)
    requires
        delta_fits(a, b),
    ensures
        r == delta_spec(a, b),
{
    a as i32 - b as i32
}

impl SessionBeetleInventory {
    /// Starts a session: the current inventory and the session's start are
    /// both `initial`.
    pub fn new(initial: BeetleInventory) -> (s: Self)
        ensures
            s.current == initial,
            s.session_start == initial,
    {
        Self { current: initial.clone(), session_start: initial }
    }

    /// Records a fresh inventory; the session's start is kept.
    pub fn update(&mut self, new_inventory: BeetleInventory)
        ensures
            final(self).current == new_inventory,
            final(self).session_start == old(self).session_start,
    {
        self.current = new_inventory;
    }

    /// How many beetles of the named kind were gained since the session
    /// started (each count narrowed to 32 bits first).
    pub fn get_session_delta(&self, beetle_type: &str) -> (r: i32)
        requires
            delta_fits(
                count_of(self.current, beetle_type@),
                count_of(self.session_start, beetle_type@),
            ),
        ensures
            r == delta_spec(
                count_of(self.current, beetle_type@),
                count_of(self.session_start, beetle_type@),
            ),
    {
        let current = self.get_count(&self.current, beetle_type);
        let start = self.get_count(&self.session_start, beetle_type);
        narrowed_delta(current, start)
    }

    fn get_count(&self, inv: &BeetleInventory, beetle_type: &str) -> (r: i64)
        ensures
            r == count_of(*inv, beetle_type@),
    {
        if str_eq(beetle_type, "green") {
            inv.green
        } else if str_eq(beetle_type, "ladybug") {
            inv.ladybug
        } else if str_eq(beetle_type, "monarch") {
            inv.monarch
        } else if str_eq(beetle_type, "pond") {
            inv.pond
        } else if str_eq(beetle_type, "bombardier") {
            inv.bombardier
        } else if str_eq(beetle_type, "purple") {
            inv.purple
        } else if str_eq(beetle_type, "skull") {
            inv.skull
        } else {
            0
        }
    }

    /// The number of beetles held now.
    pub fn total_beetles(&self) -> (r: i64)
        requires
            total_fits(self.current),
        ensures
            r == total_beetles_spec(self.current),
    {
        self.current.total_beetles()
    }

    /// The beetles gained over the session: the two totals, each narrowed to
    /// 32 bits, subtracted.
    pub fn total_session_gain(&self) -> (r: i32)
        requires
            total_fits(self.current),
            total_fits(self.session_start),
            delta_fits(
                total_beetles_spec(self.current) as i64,
                total_beetles_spec(self.session_start) as i64,
            ),
        ensures
            r == delta_spec(
                total_beetles_spec(self.current) as i64,
                total_beetles_spec(self.session_start) as i64,
            ),
    {
        let current_total = self.total_beetles();
        let start_total = self.session_start.total_beetles();
        narrowed_delta(current_total, start_total)
    }

    /// The beetle kinds with icon, name, current count, session gain and
    /// rarity, from common to legendary.
    pub fn get_sorted_beetles(&self) -> (r: Vec<(&str, &str, i64, i32, &str)>)
        requires
            deltas_fit(*self),
        ensures
            r@ == seq![
                ("🟢", "Green", self.current.green, delta_spec(self.current.green, self.session_start.green) as i32, "common"),
                ("🔴", "Ladybug", self.current.ladybug, delta_spec(self.current.ladybug, self.session_start.ladybug) as i32, "common"),
                ("🟠", "Monarch", self.current.monarch, delta_spec(self.current.monarch, self.session_start.monarch) as i32, "uncommon"),
                ("🔵", "Pond", self.current.pond, delta_spec(self.current.pond, self.session_start.pond) as i32, "uncommon"),
                ("⚫", "Bombardier", self.current.bombardier, delta_spec(self.current.bombardier, self.session_start.bombardier) as i32, "rare"),
                ("🟣", "Purple", self.current.purple, delta_spec(self.current.purple, self.session_start.purple) as i32, "epic"),
                ("💀", "Skull", self.current.skull, delta_spec(self.current.skull, self.session_start.skull) as i32, "legendary"),
            ],
    {
        proof {
            lemma_kind_names();
        }
        let d_green = self.get_session_delta("green");
        let d_ladybug = self.get_session_delta("ladybug");
        let d_monarch = self.get_session_delta("monarch");
        let d_pond = self.get_session_delta("pond");
        let d_bombardier = self.get_session_delta("bombardier");
        let d_purple = self.get_session_delta("purple");
        let d_skull = self.get_session_delta("skull");
        let mut v = Vec::new();
        v.push(("🟢", "Green", self.current.green, d_green, "common"));
        v.push(("🔴", "Ladybug", self.current.ladybug, d_ladybug, "common"));
        v.push(("🟠", "Monarch", self.current.monarch, d_monarch, "uncommon"));
        v.push(("🔵", "Pond", self.current.pond, d_pond, "uncommon"));
        v.push(("⚫", "Bombardier", self.current.bombardier, d_bombardier, "rare"));
        v.push(("🟣", "Purple", self.current.purple, d_purple, "epic"));
        v.push(("💀", "Skull", self.current.skull, d_skull, "legendary"));
        assert(v@ =~= seq![
            ("🟢", "Green", self.current.green, delta_spec(self.current.green, self.session_start.green) as i32, "common"),
            ("🔴", "Ladybug", self.current.ladybug, delta_spec(self.current.ladybug, self.session_start.ladybug) as i32, "common"),
            ("🟠", "Monarch", self.current.monarch, delta_spec(self.current.monarch, self.session_start.monarch) as i32, "uncommon"),
            ("🔵", "Pond", self.current.pond, delta_spec(self.current.pond, self.session_start.pond) as i32, "uncommon"),
            ("⚫", "Bombardier", self.current.bombardier, delta_spec(self.current.bombardier, self.session_start.bombardier) as i32, "rare"),
            ("🟣", "Purple", self.current.purple, delta_spec(self.current.purple, self.session_start.purple) as i32, "epic"),
            ("💀", "Skull", self.current.skull, delta_spec(self.current.skull, self.session_start.skull) as i32, "legendary"),
        ]);
        v
    }
}


/// Streaks information
#[derive(Debug, PartialEq, Eq, Structural, Clone, Copy)]
pub struct Streaks {
    pub ubc: i64,
    pub last_claim: i64,
}

/// Cooldowns information, in milliseconds.
#[derive(Debug, PartialEq, Eq, Structural, Clone, Copy)]
pub struct Cooldowns {
    pub catch_beetle: i64,
    pub claim_ubc: i64,
}

/// Beetle user information: the account's counters, inventory, cooldowns
/// and streaks as the game reports them. The level-progress figures, which
/// the game sends as floating-point numbers, and the free-form record of
/// discoveries are not held here.
pub struct User {
    pub id: i64,
    pub keycloak_id: String,
    pub xp: i64,
    pub level: i64,
    pub cheese: i64,
    pub beetle_green: i64,
    pub beetle_ladybug: i64,
    pub beetle_pond: i64,
    pub beetle_stag: i64,
    pub beetle_golden: i64,
    pub beetle_purple: i64,
    pub beetle_bombardier: i64,
    pub beetle_monarch: i64,
    pub beetle_goliath: i64,
    pub beetle_skull: i64,
    pub beetle_black_widow: i64,
    pub ubc_streak: i64,
    pub last_cheese_claim_at: i64,
    pub last_beetle_claim_at: i64,
    pub last_beetle_hunt_date: i64,
    pub beetle_hunts_used: i64,
    pub lousy_beetle_count: i64,
    pub created_at: i64,
    pub updated_at: i64,
    pub inventory: BeetleInventory,
    pub cooldowns: Cooldowns,
    pub streaks: Streaks,
}

/// Hunts reopen an hour and a half (in milliseconds) after the last hunt.
pub const HUNT_RESET_MS: u64 = 5_400_000;

/// The instant (Unix milliseconds) at which hunts reopen: the last hunt's
/// date, read as an unsigned number, plus an hour and a half.
pub open spec fn hunt_reset_ms(u: User) -> int {
    (u.last_beetle_hunt_date as u64) as int + HUNT_RESET_MS
}

/// The reset instant fits in 64 bits, as the computation needs.
pub open spec fn hunt_reset_fits(u: User) -> bool {
    hunt_reset_ms(u) <= u64::MAX
}

/// A cooldown in milliseconds as whole seconds, rounded toward zero and read
/// as unsigned; zero when there is no cooldown.
pub open spec fn cooldown_secs(ms: i64) -> u64 {
    if ms == 0 {
        0
    } else {
        trunc_div(ms as int, 1000) as u64
    }
}

/// `has_hunts_remaining` at the instant `now_ms`.
pub open spec fn has_hunts_remaining_spec(u: User, now_ms: u64) -> bool {
    u.beetle_hunts_used < 3 || now_ms >= hunt_reset_ms(u)
}

/// `hunts_remaining` at the instant `now_ms`.
pub open spec fn hunts_remaining_spec(u: User, now_ms: u64) -> i64 {
    if u.beetle_hunts_used >= 3 {
        if now_ms >= hunt_reset_ms(u) { 3 } else { 0 }
    } else if 3 - u.beetle_hunts_used > i64::MAX {
        i64::MAX
    } else {
        (3 - u.beetle_hunts_used) as i64
    }
}

/// `is_new_hunt_day` at the instant `now_secs`: the current day (counted
/// from the epoch) is after the day of the last hunt.
pub open spec fn is_new_hunt_day_spec(u: User, now_secs: u64) -> bool {
    now_secs / 86400 > trunc_div(u.last_beetle_hunt_date as int, 86400) as u64
}

/// `time_until_hunt_reset` at the instants `now_secs` and `now_ms`.
pub open spec fn time_until_hunt_reset_spec(u: User, now_secs: u64, now_ms: u64) -> u64 {
    if is_new_hunt_day_spec(u, now_secs) {
        0
    } else if hunt_reset_ms(u) > now_ms {
        ((hunt_reset_ms(u) - now_ms) / 1000) as u64
    } else {
        0
    }
}

impl User {
    pub fn total_beetles(&self) -> (r: i64)
        requires
            total_fits(self.inventory),
        ensures
            r == total_beetles_spec(self.inventory),
    {
        self.inventory.total_beetles()
    }

    pub fn can_catch_beetle(&self) -> (r: bool)
        ensures
            r == (self.cooldowns.catch_beetle == 0),
    {
        self.cooldowns.catch_beetle == 0
    }

    pub fn can_claim_ubc(&self) -> (r: bool)
        ensures
            r == (self.cooldowns.claim_ubc == 0),
    {
        self.cooldowns.claim_ubc == 0
    }

    /// Seconds until a beetle can be caught.
    pub fn time_until_catch_ready(&self) -> (r: u64)
        ensures
            r == cooldown_secs(self.cooldowns.catch_beetle),
    {
        if self.can_catch_beetle() {
            0
        } else {
            (self.cooldowns.catch_beetle / 1000) as u64
        }
    }

    /// Seconds until the daily cheese can be claimed.
    pub fn time_until_ubc_ready(&self) -> (r: u64)
        ensures
            r == cooldown_secs(self.cooldowns.claim_ubc),
    {
        if self.can_claim_ubc() {
            0
        } else {
            (self.cooldowns.claim_ubc / 1000) as u64
        }
    }

    /// Whether a hunt is possible at the instant `now_ms`: fewer than three
    /// hunts used, or the reset time reached.
    pub fn has_hunts_remaining_at(&self, now_ms: u64) -> (r: bool)
        requires
            hunt_reset_fits(*self),
        ensures
            r == has_hunts_remaining_spec(*self, now_ms),
    {
        if self.beetle_hunts_used >= 3 {
            let reset_time = self.last_beetle_hunt_date as u64 + HUNT_RESET_MS;
            now_ms >= reset_time
        } else {
            true
        }
    }

    /// Whether a hunt is possible now: the answer at the instant the clock
    /// reads, in milliseconds.
    pub fn has_hunts_remaining(&self) -> (r: bool)
        requires
            hunt_reset_fits(*self),
        ensures
            exists|now: u64|
                now < CLOCK_SECONDS_BOUND * 1000 && r == #[trigger] has_hunts_remaining_spec(*self, now),
            self.beetle_hunts_used < 3 ==> r,
    {
        let now = unix_millis_now() as u64;
        let r = self.has_hunts_remaining_at(now);
        assert(now < CLOCK_SECONDS_BOUND * 1000 && r == has_hunts_remaining_spec(*self, now));
        r
    }

    /// How many hunts are left at the instant `now_ms`.
    pub fn hunts_remaining_at(&self, now_ms: u64) -> (r: i64)
        requires
            hunt_reset_fits(*self),
        ensures
            r == hunts_remaining_spec(*self, now_ms),
    {
        if self.beetle_hunts_used >= 3 {
            let reset_time = self.last_beetle_hunt_date as u64 + HUNT_RESET_MS;
            if now_ms >= reset_time {
                3
            } else {
                0
            }
        } else if self.beetle_hunts_used < 3 - i64::MAX {
            i64::MAX
        } else {
            3 - self.beetle_hunts_used
        }
    }

    /// How many hunts are left now.
    pub fn hunts_remaining(&self) -> (r: i64)
        requires
            hunt_reset_fits(*self),
        ensures
            self.beetle_hunts_used < 3 ==> r == hunts_remaining_spec(*self, 0),
            self.beetle_hunts_used >= 3 ==> r == 0 || r == 3,
    {
        let now = unix_millis_now() as u64;
        self.hunts_remaining_at(now)
    }

    /// Whether the day (counted from the epoch) at `now_secs` is later than
    /// the day of the last hunt.
    pub fn is_new_hunt_day_at(&self, now_secs: u64) -> (r: bool)
        ensures
            r == is_new_hunt_day_spec(*self, now_secs),
    {
        let last_hunt_day = (self.last_beetle_hunt_date / 86400) as u64;
        let today = now_secs / 86400;
        today > last_hunt_day
    }

    /// Whether the current day is later than the day of the last hunt: the
    /// answer at the instant the clock reads, in seconds.
    pub fn is_new_hunt_day(&self) -> (r: bool)
        ensures
            exists|now: u64| now < CLOCK_SECONDS_BOUND && r == #[trigger] is_new_hunt_day_spec(*self, now),
    {
        let now = unix_seconds_now() as u64;
        let r = self.is_new_hunt_day_at(now);
        assert(now < CLOCK_SECONDS_BOUND && r == is_new_hunt_day_spec(*self, now));
        r
    }

    /// Seconds until hunts reopen, at the instants `now_secs` and `now_ms`.
    pub fn time_until_hunt_reset_at(&self, now_secs: u64, now_ms: u64) -> (r: u64)
        requires
            hunt_reset_fits(*self),
        ensures
            r == time_until_hunt_reset_spec(*self, now_secs, now_ms),
    {
        if self.is_new_hunt_day_at(now_secs) {
            return 0;
        }
        let reset_time = self.last_beetle_hunt_date as u64 + HUNT_RESET_MS;
        if reset_time > now_ms {
            (reset_time - now_ms) / 1000
        } else {
            0
        }
    }

    /// Seconds until hunts reopen, now: the answer at the instants the clock
    /// reads, once in seconds and once in milliseconds.
    pub fn time_until_hunt_reset(&self) -> (r: u64)
        requires
            hunt_reset_fits(*self),
        ensures
            exists|now_secs: u64, now_ms: u64|
                now_secs < CLOCK_SECONDS_BOUND && now_ms < CLOCK_SECONDS_BOUND * 1000
                    && r == #[trigger] time_until_hunt_reset_spec(*self, now_secs, now_ms),
            r <= hunt_reset_ms(*self) / 1000,
    {
        let now_secs = unix_seconds_now() as u64;
        let now_ms = unix_millis_now() as u64;
        let r = self.time_until_hunt_reset_at(now_secs, now_ms);
        assert(now_secs < CLOCK_SECONDS_BOUND && now_ms < CLOCK_SECONDS_BOUND * 1000
            && r == time_until_hunt_reset_spec(*self, now_secs, now_ms));
        r
    }
}

/// The largest figure the game reports in earnest; anything above it (and
/// below the wrapped-around negatives) is an overflow artifact.
pub const LEVEL_FIGURE_LIMIT: u64 = 1_000_000_000_000;

/// The whole number a level-progress figure stands for when the game sends it
/// as an unsigned integer. Values past `i64::MAX` are negative numbers that
/// wrapped around and are read back as such; values above a trillion are
/// overflow artifacts and count as zero; the rest are taken as they are.
pub fn level_figure_from_unsigned(value: u64) -> (r: i64)
    ensures
        value > i64::MAX ==> r == value - 0x1_0000_0000_0000_0000int,
        LEVEL_FIGURE_LIMIT < value <= i64::MAX ==> r == 0,
        value <= LEVEL_FIGURE_LIMIT ==> r == value,
{
    if value > 9_223_372_036_854_775_807u64 {
        let above: u64 = value - 9_223_372_036_854_775_808u64;
        i64::MIN + (above as i64)
    } else if value > LEVEL_FIGURE_LIMIT {
        0
    } else {
        value as i64
    }
}

// ============================================================================
// BEETLE CARD & VIDEO INFO
// ============================================================================

/// Video information for beetle catch
pub struct VideoInfo {
    pub src: String,
    pub poster: String,
    pub loop_video: bool,
}

/// Beetle card information
pub struct BeetleCard {
    pub beetle_name: String,
    pub girl_name: String,
    pub species: String,
    pub species_latin: String,
    pub icon: String,
    pub img: String,
    pub background: String,
    pub character: String,
}

// ============================================================================
// API REQUEST/RESPONSE MODELS
// ============================================================================

/// Claim UBC request
pub struct ClaimUBCRequest {}

/// Claim UBC result
pub struct ClaimUBCResult {
    pub cheese: u32,
    pub xp: u32,
    pub streak: u32,
}

/// Claim UBC API response
pub enum ClaimUBCApiResponse {
    Success { success: bool, result: ClaimUBCResult, user: User },
    Error { success: bool, error: String, user: User },
}

/// Catch beetle request
pub struct CatchBeetleRequest {}

/// Catch beetle result
pub struct CatchBeetleResult {
    pub beetle: String,
    pub beetle_name: String,
    pub xp: u32,
    pub cooldown_ms: u64,
    pub catch_video_info: VideoInfo,
    pub beetle_card: BeetleCard,
}

/// Catch beetle API response
pub enum CatchBeetleApiResponse {
    Success { success: bool, result: CatchBeetleResult, user: User },
    Error { success: bool, error: String, user: User },
}

/// Beetle hunt request
pub struct BeetleHuntRequest {}

/// Failed hunt result
#[derive(Debug, Clone, Copy)]
pub struct FailedHuntResult {
    pub success: bool,
}

/// Beetle hunt result
pub struct BeetleHuntResult {
    pub success: bool,
    pub beetle: String,
    pub beetle_name: String,
    pub xp: u32,
    pub catch_video_info: VideoInfo,
    pub beetle_card: BeetleCard,
}

/// Beetle hunt API response
#[allow(inconsistent_fields)]
pub enum BeetleHuntApiResponse {
    Success { success: bool, result: BeetleHuntResult, user: User },
    Error { success: bool, error: String, user: User },
    FailedHunt { success: bool, result: FailedHuntResult, user: User },
}

/// A session that has just started (its inventory and its start the same)
/// has gained nothing, of any kind or in total.
pub proof fn law_fresh_session_gains_nothing(s: SessionBeetleInventory, kind: Seq<char>)
    requires
        s.current == s.session_start,
    ensures
        delta_spec(count_of(s.current, kind), count_of(s.session_start, kind)) == 0,
{
}

/// While the counts stay within 32-bit signed range, the session delta of
/// a kind is the count now less the count at the start.
pub proof fn law_delta_counts_the_gain(s: SessionBeetleInventory, kind: Seq<char>)
    requires
        i32::MIN <= count_of(s.current, kind) <= i32::MAX,
        i32::MIN <= count_of(s.session_start, kind) <= i32::MAX,
    ensures
        delta_spec(count_of(s.current, kind), count_of(s.session_start, kind))
            == count_of(s.current, kind) - count_of(s.session_start, kind),
{
}

} // verus!
