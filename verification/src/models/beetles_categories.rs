//! Categories of the items a player can hold, and the inventory organised by
//! category with the item data of the beetle database.

use vstd::prelude::*;
use crate::models::beetle::BeetleInventory;
use crate::sorting::{desc_sorted, same_key_classes, stable_sort_desc};
use crate::text::str_eq;

verus! {

#[derive(Debug, Clone, Copy, PartialEq, Eq, Structural, Hash)]
pub enum BeetleCategory {
    Cheese,
    Beetles,
    Trash,
    Hammers,
    Flowers,
    Unique,
}

/// The category a numeric code stands for: 1 cheese, 2 beetles, 3 trash,
/// 4 hammers, 5 flowers, 7 unique; no category for any other code.
pub open spec fn category_of(value: u8) -> Option<BeetleCategory> {
    if value == 1 {
        Some(BeetleCategory::Cheese)
    } else if value == 2 {
        Some(BeetleCategory::Beetles)
    } else if value == 3 {
        Some(BeetleCategory::Trash)
    } else if value == 4 {
        Some(BeetleCategory::Hammers)
    } else if value == 5 {
        Some(BeetleCategory::Flowers)
    } else if value == 7 {
        Some(BeetleCategory::Unique)
    } else {
        None
    }
}

/// The display name of a category.
pub open spec fn category_name(c: BeetleCategory) -> &'static str {
    match c {
        BeetleCategory::Cheese => "Cheese",
        BeetleCategory::Beetles => "Beetles",
        BeetleCategory::Trash => "Trash",
        BeetleCategory::Hammers => "Hammers",
        BeetleCategory::Flowers => "Flowers",
        BeetleCategory::Unique => "Unique",
    }
}

/// The numeric code of a category, the one the game uses for it.
pub open spec fn category_code(c: BeetleCategory) -> u8 {
    match c {
        BeetleCategory::Cheese => 1,
        BeetleCategory::Beetles => 2,
        BeetleCategory::Trash => 3,
        BeetleCategory::Hammers => 4,
        BeetleCategory::Flowers => 5,
        BeetleCategory::Unique => 7,
    }
}

impl BeetleCategory {
    /// The numeric code of the category (1 cheese, 2 beetles, 3 trash,
    /// 4 hammers, 5 flowers, 7 unique); `from_u8` reads it back.
    pub fn code(&self) -> (r: u8)
        ensures
            r == category_code(*self),
            category_of(r) == Some(*self),
    {
        match self {
            BeetleCategory::Cheese => 1,
            BeetleCategory::Beetles => 2,
            BeetleCategory::Trash => 3,
            BeetleCategory::Hammers => 4,
            BeetleCategory::Flowers => 5,
            BeetleCategory::Unique => 7,
        }
    }

    pub fn from_u8(value: u8) -> (r: Option<Self>)
        ensures
            r == category_of(value),
    {
        match value {
            1 => Some(BeetleCategory::Cheese),
            2 => Some(BeetleCategory::Beetles),
            3 => Some(BeetleCategory::Trash),
            4 => Some(BeetleCategory::Hammers),
            5 => Some(BeetleCategory::Flowers),
            7 => Some(BeetleCategory::Unique),
            _ => None,
        }
    }

    pub fn as_str(&self) -> (r: &'static str)
        ensures
            r == category_name(*self),
    {
        match self {
            BeetleCategory::Cheese => "Cheese",
            BeetleCategory::Beetles => "Beetles",
            BeetleCategory::Trash => "Trash",
            BeetleCategory::Hammers => "Hammers",
            BeetleCategory::Flowers => "Flowers",
            BeetleCategory::Unique => "Unique",
        }
    }
}

/// What the beetle database records of an item: its name, category code and
/// rarity.
#[derive(Debug)]
pub struct BeetleData {
    pub beetle: String,
    pub category: u8,
    pub rarity: u8,
}

impl Clone for BeetleData {
    fn clone(&self) -> (r: Self)
        ensures
            r == *self,
    {
        BeetleData { beetle: self.beetle.clone(), category: self.category, rarity: self.rarity }
    }
}

impl BeetleData {
    pub fn get_category(&self) -> (r: Option<BeetleCategory>)
        ensures
            r == category_of(self.category),
    {
        BeetleCategory::from_u8(self.category)
    }
}

/// The beetle database: item keys with their data. A key found more than
/// once counts by its first entry.
pub struct BeetleDatabase {
    pub entries: Vec<(String, BeetleData)>,
}

/// The data recorded for `key`: that of the first entry with this key.
pub open spec fn db_lookup(entries: Seq<(String, BeetleData)>, key: Seq<char>) -> Option<BeetleData>
    decreases entries.len(),
{
    if entries.len() == 0 {
        None
    } else if entries[0].0@ == key {
        Some(entries[0].1)
    } else {
        db_lookup(entries.drop_first(), key)
    }
}

proof fn lemma_db_lookup_skip(entries: Seq<(String, BeetleData)>, i: int, key: Seq<char>)
    requires
        0 <= i < entries.len(),
        entries[i].0@ != key,
    ensures
        db_lookup(entries.skip(i), key) == db_lookup(entries.skip(i + 1), key),
{
    assert(entries.skip(i).drop_first() == entries.skip(i + 1));
}

impl BeetleDatabase {
    /// The data recorded for `key`.
    pub fn get(&self, key: &str) -> (r: Option<&BeetleData>)
        ensures
            r is Some == db_lookup(self.entries@, key@) is Some,
            r matches Some(d) ==> *d == db_lookup(self.entries@, key@)->0,
    {
        let mut i: usize = 0;
        assert(self.entries@.skip(0) == self.entries@);
        while i < self.entries.len()
            invariant
                i <= self.entries@.len(),
                db_lookup(self.entries@, key@) == db_lookup(self.entries@.skip(i as int), key@),
            decreases self.entries@.len() - i,
        {
            if str_eq(self.entries[i].0.as_str(), key) {
                assert(self.entries@.skip(i as int)[0] == self.entries@[i as int]);
                return Some(&self.entries[i].1);
            }
            proof {
                lemma_db_lookup_skip(self.entries@, i as int, key@);
            }
            i = i + 1;
        }
        None
    }
}

/// An item the player holds, with its database data.
#[derive(Debug)]
pub struct InventoryItem {
    pub key: String,
    pub quantity: i64,
    pub data: BeetleData,
}

impl Clone for InventoryItem {
    fn clone(&self) -> (r: Self)
        ensures
            r == *self,
    {
        InventoryItem { key: self.key.clone(), quantity: self.quantity, data: self.data.clone() }
    }
}

/// The items of one category.
#[derive(Debug)]
pub struct CategoryItems {
    pub category: BeetleCategory,
    pub items: Vec<InventoryItem>,
}

/// The inventory organised: every held item known to the database, the same
/// items grouped by category, and the total quantity.
#[derive(Debug)]
pub struct OrganizedInventory {
    pub items: Vec<InventoryItem>,
    pub by_category: Vec<CategoryItems>,
    pub total_items: i64,
}

/// The inventory's item keys with their quantities, in the order the
/// inventory is organised in.
pub open spec fn inventory_pairs(inv: BeetleInventory) -> Seq<(&'static str, i64)> {
    seq![
        ("beetleboy_key", inv.beetleboy_key),
        ("bike_reflector", inv.bike_reflector),
        ("bombardier", inv.bombardier),
        ("bottle_cap", inv.bottle_cap),
        ("camellia", inv.camellia),
        ("cheese", inv.cheese),
        ("chip_bag", inv.chip_bag),
        ("chocolate_bar", inv.chocolate_bar),
        ("chocolate_wrapper", inv.chocolate_wrapper),
        ("christmas", inv.christmas),
        ("cigarette_butt", inv.cigarette_butt),
        ("coffee_can", inv.coffee_can),
        ("cracker_wrapper", inv.cracker_wrapper),
        ("daisy", inv.daisy),
        ("empty_noodle_cup", inv.empty_noodle_cup),
        ("gallic_rose", inv.gallic_rose),
        ("giraffe_weevil", inv.giraffe_weevil),
        ("green", inv.green),
        ("green_army_man", inv.green_army_man),
        ("gum_wrapper", inv.gum_wrapper),
        ("hammer_t1", inv.hammer_t1),
        ("hammer_t2", inv.hammer_t2),
        ("hammer_t3", inv.hammer_t3),
        ("hammer_t4", inv.hammer_t4),
        ("imperial_tortoise", inv.imperial_tortoise),
        ("jack_adapter", inv.jack_adapter),
        ("juicebox", inv.juicebox),
        ("ladybug", inv.ladybug),
        ("marble", inv.marble),
        ("marigold", inv.marigold),
        ("milk_thistle", inv.milk_thistle),
        ("monarch", inv.monarch),
        ("morning_glory", inv.morning_glory),
        ("paperclip", inv.paperclip),
        ("pebble", inv.pebble),
        ("pillbug", inv.pillbug),
        ("pincushion", inv.pincushion),
        ("pokkiri_box", inv.pokkiri_box),
        ("pollen_common", inv.pollen_common),
        ("pollen_rare", inv.pollen_rare),
        ("pollen_uncommon", inv.pollen_uncommon),
        ("pond", inv.pond),
        ("poppy", inv.poppy),
        ("purple", inv.purple),
        ("ramune_bottle", inv.ramune_bottle),
        ("red_whistle", inv.red_whistle),
        ("royal_poinciana", inv.royal_poinciana),
        ("rubber_band", inv.rubber_band),
        ("sabertooth_longhorn", inv.sabertooth_longhorn),
        ("scratch_off", inv.scratch_off),
        ("skull", inv.skull),
        ("smiley_pebble", inv.smiley_pebble),
        ("soda_can_tab", inv.soda_can_tab),
        ("stag", inv.stag),
        ("stamp", inv.stamp),
        ("sunflower", inv.sunflower),
        ("train_ticket_stub", inv.train_ticket_stub),
        ("watch_battery", inv.watch_battery),
        ("wine_cork", inv.wine_cork),
        ("golden", inv.golden),
        ("goliath", inv.goliath),
        ("black_widow", inv.black_widow)
    ]
}

/// An item as its key's characters, quantity and data.
pub open spec fn item_view(it: InventoryItem) -> (Seq<char>, i64, BeetleData) {
    (it.key@, it.quantity, it.data)
}

/// `item_view` as a function value.
pub open spec fn item_views() -> spec_fn(InventoryItem) -> (Seq<char>, i64, BeetleData) {
    |it: InventoryItem| item_view(it)
}

/// The held items, in order: each pair with a positive quantity whose key
/// the database knows, with that data.
pub open spec fn select_items(pairs: Seq<(&'static str, i64)>, db: Seq<(String, BeetleData)>) -> Seq<(Seq<char>, i64, BeetleData)>
    decreases pairs.len(),
{
    if pairs.len() == 0 {
        Seq::empty()
    } else {
        let rest = select_items(pairs.drop_last(), db);
        let k = pairs.last().0;
        let q = pairs.last().1;
        if q > 0 && db_lookup(db, k@) is Some {
            rest.push((k@, q, db_lookup(db, k@)->0))
        } else {
            rest
        }
    }
}

/// The sum of the quantities of a list of items.
pub open spec fn quantity_sum(s: Seq<(Seq<char>, i64, BeetleData)>) -> int
    decreases s.len(),
{
    if s.len() == 0 {
        0
    } else {
        quantity_sum(s.drop_last()) + s.last().1
    }
}

/// The sum of the quantities of a list of inventory items.
pub open spec fn items_total(s: Seq<InventoryItem>) -> int
    decreases s.len(),
{
    if s.len() == 0 {
        0
    } else {
        items_total(s.drop_last()) + s.last().quantity
    }
}

/// The predicate "belongs to category `c`".
pub open spec fn in_category(c: BeetleCategory) -> spec_fn((Seq<char>, i64, BeetleData)) -> bool {
    |t: (Seq<char>, i64, BeetleData)| category_of(t.2.category) == Some(c)
}

/// The items of category `c`, when there is at least one.
pub open spec fn expected_group(s: Seq<(Seq<char>, i64, BeetleData)>, c: BeetleCategory) -> Option<Seq<(Seq<char>, i64, BeetleData)>> {
    if s.filter(in_category(c)).len() == 0 {
        None
    } else {
        Some(s.filter(in_category(c)))
    }
}

/// The group of category `c`: the first one with this category.
pub open spec fn group_lookup(groups: Seq<CategoryItems>, c: BeetleCategory) -> Option<Seq<InventoryItem>>
    decreases groups.len(),
{
    if groups.len() == 0 {
        None
    } else if groups[0].category == c {
        Some(groups[0].items@)
    } else {
        group_lookup(groups.drop_first(), c)
    }
}

/// The group of category `c` as item views.
pub open spec fn group_view(groups: Seq<CategoryItems>, c: BeetleCategory) -> Option<Seq<(Seq<char>, i64, BeetleData)>> {
    match group_lookup(groups, c) {
        Some(g) => Some(g.map_values(item_views())),
        None => None,
    }
}

proof fn lemma_group_first(groups: Seq<CategoryItems>, i: int, c: BeetleCategory)
    requires
        0 <= i < groups.len(),
        groups[i].category == c,
        forall|j: int| 0 <= j < i ==> (#[trigger] groups[j]).category != c,
    ensures
        group_lookup(groups, c) == Some(groups[i].items@),
    decreases i,
{
    if i > 0 {
        let rest = groups.drop_first();
        assert forall|j: int| 0 <= j < i - 1 implies (#[trigger] rest[j]).category != c by {
            assert(rest[j] == groups[j + 1]);
        }
        lemma_group_first(rest, i - 1, c);
        assert(groups[0].category != c);
    }
}

proof fn lemma_group_absent(groups: Seq<CategoryItems>, c: BeetleCategory)
    requires
        forall|j: int| 0 <= j < groups.len() ==> (#[trigger] groups[j]).category != c,
    ensures
        group_lookup(groups, c) is None,
    decreases groups.len(),
{
    if groups.len() > 0 {
        let rest = groups.drop_first();
        assert forall|j: int| 0 <= j < rest.len() implies (#[trigger] rest[j]).category != c by {
            assert(rest[j] == groups[j + 1]);
        }
        lemma_group_absent(rest, c);
        assert(groups[0].category != c);
    }
}

proof fn lemma_group_update(groups: Seq<CategoryItems>, i: int, g: CategoryItems, c: BeetleCategory)
    requires
        0 <= i < groups.len(),
        groups[i].category == g.category,
        forall|j: int| 0 <= j < i ==> (#[trigger] groups[j]).category != g.category,
    ensures
        group_lookup(groups.update(i, g), c) == (if c == g.category {
            Some(g.items@)
        } else {
            group_lookup(groups, c)
        }),
    decreases i,
{
    let u = groups.update(i, g);
    if i == 0 {
        assert(u[0] == g);
        assert(u.drop_first() == groups.drop_first());
    } else {
        let rest = groups.drop_first();
        assert forall|j: int| 0 <= j < i - 1 implies (#[trigger] rest[j]).category != g.category by {
            assert(rest[j] == groups[j + 1]);
        }
        lemma_group_update(rest, i - 1, g, c);
        assert(u.drop_first() == rest.update(i - 1, g));
        assert(u[0] == groups[0]);
        assert(groups[0].category != g.category);
    }
}

proof fn lemma_group_push(groups: Seq<CategoryItems>, g: CategoryItems, c: BeetleCategory)
    requires
        forall|j: int| 0 <= j < groups.len() ==> (#[trigger] groups[j]).category != g.category,
    ensures
        group_lookup(groups.push(g), c) == (if c == g.category {
            Some(g.items@)
        } else {
            group_lookup(groups, c)
        }),
    decreases groups.len(),
{
    let p = groups.push(g);
    if groups.len() == 0 {
        assert(p[0] == g);
        assert(p.drop_first() == Seq::<CategoryItems>::empty());
    } else {
        let rest = groups.drop_first();
        assert forall|j: int| 0 <= j < rest.len() implies (#[trigger] rest[j]).category != g.category by {
            assert(rest[j] == groups[j + 1]);
        }
        lemma_group_push(rest, g, c);
        assert(p.drop_first() == rest.push(g));
        assert(p[0] == groups[0]);
        assert(groups[0].category != g.category);
        assert(group_lookup(groups, c) == (if groups[0].category == c {
            Some(groups[0].items@)
        } else {
            group_lookup(rest, c)
        }));
        assert(group_lookup(p, c) == (if p[0].category == c {
            Some(p[0].items@)
        } else {
            group_lookup(p.drop_first(), c)
        }));
    }
}

/// Adds `item` at the end of the group of category `c`, creating the group
/// when there is none.
fn add_to_group(groups: &mut Vec<CategoryItems>, c: BeetleCategory, item: InventoryItem)
    ensures
        forall|c2: BeetleCategory|
            #[trigger] group_lookup(final(groups)@, c2) == (if c2 == c {
                Some(
                    match group_lookup(old(groups)@, c) {
                        Some(s) => s.push(item),
                        None => seq![item],
                    },
                )
            } else {
                group_lookup(old(groups)@, c2)
            }),
{
    let ghost old_groups = groups@;
    let mut idx: usize = 0;
    while idx < groups.len() && groups[idx].category != c
        invariant
            idx <= groups@.len(),
            groups@ == old_groups,
            forall|j: int| 0 <= j < idx ==> (#[trigger] groups@[j]).category != c,
        decreases groups@.len() - idx,
    {
        idx = idx + 1;
    }
    if idx < groups.len() {
        proof {
            lemma_group_first(old_groups, idx as int, c);
        }
        let mut group = groups.remove(idx);
        group.items.push(item);
        groups.insert(idx, group);
        proof {
            assert(groups@ == old_groups.update(idx as int, group));
            assert forall|c2: BeetleCategory| #[trigger] group_lookup(groups@, c2) == (if c2 == c {
                Some(
                    match group_lookup(old_groups, c) {
                        Some(s) => s.push(item),
                        None => seq![item],
                    },
                )
            } else {
                group_lookup(old_groups, c2)
            }) by {
                lemma_group_update(old_groups, idx as int, group, c2);
            }
        }
    } else {
        proof {
            lemma_group_absent(old_groups, c);
        }
        let mut v = Vec::new();
        v.push(item);
        let group = CategoryItems { category: c, items: v };
        groups.push(group);
        proof {
            assert(v@ == seq![item]);
            assert forall|c2: BeetleCategory| #[trigger] group_lookup(groups@, c2) == (if c2 == c {
                Some(
                    match group_lookup(old_groups, c) {
                        Some(s) => s.push(item),
                        None => seq![item],
                    },
                )
            } else {
                group_lookup(old_groups, c2)
            }) by {
                lemma_group_push(old_groups, group, c2);
            }
        }
    }
}

proof fn lemma_select_step(pairs: Seq<(&'static str, i64)>, db: Seq<(String, BeetleData)>, i: int)
    requires
        0 <= i < pairs.len(),
    ensures
        select_items(pairs.take(i + 1), db) == (if pairs[i].1 > 0 && db_lookup(db, pairs[i].0@) is Some {
            select_items(pairs.take(i), db).push((pairs[i].0@, pairs[i].1, db_lookup(db, pairs[i].0@)->0))
        } else {
            select_items(pairs.take(i), db)
        }),
{
    assert(pairs.take(i + 1).drop_last() == pairs.take(i));
    assert(pairs.take(i + 1).last() == pairs[i]);
}

proof fn lemma_select_sum_prefix(pairs: Seq<(&'static str, i64)>, db: Seq<(String, BeetleData)>, i: int)
    requires
        0 <= i <= pairs.len(),
    ensures
        quantity_sum(select_items(pairs.take(i), db)) <= quantity_sum(select_items(pairs, db)),
    decreases pairs.len() - i,
{
    if i == pairs.len() {
        assert(pairs.take(i) == pairs);
    } else {
        lemma_select_sum_prefix(pairs, db, i + 1);
        lemma_select_step(pairs, db, i);
        let s = select_items(pairs.take(i), db);
        if pairs[i].1 > 0 && db_lookup(db, pairs[i].0@) is Some {
            let t = (pairs[i].0@, pairs[i].1, db_lookup(db, pairs[i].0@)->0);
            assert(s.push(t).drop_last() == s);
        }
    }
}

/// The inventory's items as (key, quantity) pairs, in the order the
/// organised inventory lists them.
fn inventory_items(inventory: &BeetleInventory) -> (v: Vec<(&'static str, i64)>)
    ensures
        v@ == inventory_pairs(*inventory),
{
    vec![
        ("beetleboy_key", inventory.beetleboy_key),
        ("bike_reflector", inventory.bike_reflector),
        ("bombardier", inventory.bombardier),
        ("bottle_cap", inventory.bottle_cap),
        ("camellia", inventory.camellia),
        ("cheese", inventory.cheese),
        ("chip_bag", inventory.chip_bag),
        ("chocolate_bar", inventory.chocolate_bar),
        ("chocolate_wrapper", inventory.chocolate_wrapper),
        ("christmas", inventory.christmas),
        ("cigarette_butt", inventory.cigarette_butt),
        ("coffee_can", inventory.coffee_can),
        ("cracker_wrapper", inventory.cracker_wrapper),
        ("daisy", inventory.daisy),
        ("empty_noodle_cup", inventory.empty_noodle_cup),
        ("gallic_rose", inventory.gallic_rose),
        ("giraffe_weevil", inventory.giraffe_weevil),
        ("green", inventory.green),
        ("green_army_man", inventory.green_army_man),
        ("gum_wrapper", inventory.gum_wrapper),
        ("hammer_t1", inventory.hammer_t1),
        ("hammer_t2", inventory.hammer_t2),
        ("hammer_t3", inventory.hammer_t3),
        ("hammer_t4", inventory.hammer_t4),
        ("imperial_tortoise", inventory.imperial_tortoise),
        ("jack_adapter", inventory.jack_adapter),
        ("juicebox", inventory.juicebox),
        ("ladybug", inventory.ladybug),
        ("marble", inventory.marble),
        ("marigold", inventory.marigold),
        ("milk_thistle", inventory.milk_thistle),
        ("monarch", inventory.monarch),
        ("morning_glory", inventory.morning_glory),
        ("paperclip", inventory.paperclip),
        ("pebble", inventory.pebble),
        ("pillbug", inventory.pillbug),
        ("pincushion", inventory.pincushion),
        ("pokkiri_box", inventory.pokkiri_box),
        ("pollen_common", inventory.pollen_common),
        ("pollen_rare", inventory.pollen_rare),
        ("pollen_uncommon", inventory.pollen_uncommon),
        ("pond", inventory.pond),
        ("poppy", inventory.poppy),
        ("purple", inventory.purple),
        ("ramune_bottle", inventory.ramune_bottle),
        ("red_whistle", inventory.red_whistle),
        ("royal_poinciana", inventory.royal_poinciana),
        ("rubber_band", inventory.rubber_band),
        ("sabertooth_longhorn", inventory.sabertooth_longhorn),
        ("scratch_off", inventory.scratch_off),
        ("skull", inventory.skull),
        ("smiley_pebble", inventory.smiley_pebble),
        ("soda_can_tab", inventory.soda_can_tab),
        ("stag", inventory.stag),
        ("stamp", inventory.stamp),
        ("sunflower", inventory.sunflower),
        ("train_ticket_stub", inventory.train_ticket_stub),
        ("watch_battery", inventory.watch_battery),
        ("wine_cork", inventory.wine_cork),
        ("golden", inventory.golden),
        ("goliath", inventory.goliath),
        ("black_widow", inventory.black_widow)
    ]
}

/// The keys of the items held (quantity above zero) that the database does
/// not know, in the inventory's order.
pub open spec fn unknown_keys(pairs: Seq<(&'static str, i64)>, db: Seq<(String, BeetleData)>) -> Seq<Seq<char>>
    decreases pairs.len(),
{
    if pairs.len() == 0 {
        Seq::empty()
    } else {
        let rest = unknown_keys(pairs.drop_last(), db);
        let k = pairs.last().0;
        if pairs.last().1 > 0 && db_lookup(db, k@) is None {
            rest.push(k@)
        } else {
            rest
        }
    }
}

/// The items held that the database does not know, which organising the
/// inventory leaves out: their keys, in the inventory's order.
pub fn unknown_inventory_keys(inventory: &BeetleInventory, database: &BeetleDatabase) -> (r: Vec<String>)
    ensures
        r@.map_values(|k: String| k@) == unknown_keys(inventory_pairs(*inventory), database.entries@),
{
    let pairs = inventory_items(inventory);
    let ghost ps = inventory_pairs(*inventory);
    let ghost db = database.entries@;
    let mut out: Vec<String> = Vec::new();
    let mut i: usize = 0;
    assert(ps.take(0) == Seq::<(&'static str, i64)>::empty());
    while i < pairs.len()
        invariant
            pairs@ == ps,
            db == database.entries@,
            i <= ps.len(),
            out@.map_values(|k: String| k@) == unknown_keys(ps.take(i as int), db),
        decreases ps.len() - i,
    {
        let (key, quantity) = pairs[i];
        proof {
            assert(ps.take(i + 1).drop_last() == ps.take(i as int));
            assert(ps.take(i + 1).last() == ps[i as int]);
        }
        if quantity > 0 && database.get(key).is_none() {
            let ghost before = out@;
            let owned = key.to_owned();
            out.push(owned);
            proof {
                before.lemma_push_map_commute(|k: String| k@, owned);
                assert(out@.map_values(|k: String| k@) == before.map_values(|k: String| k@).push(key@));
            }
        }
        i = i + 1;
    }
    assert(ps.take(ps.len() as int) == ps);
    out
}

impl OrganizedInventory {
    /// Organises an inventory: every item with a positive quantity that the
    /// database knows becomes an entry, in the inventory's order, is added to
    /// the group of its category (when its code names one), and counts toward
    /// the total.
    pub fn from_inventory(inventory: &BeetleInventory, database: &BeetleDatabase) -> (r: Self)
        requires
            quantity_sum(select_items(inventory_pairs(*inventory), database.entries@)) <= i64::MAX,
        ensures
            r.items@.map_values(item_views()) == select_items(
                inventory_pairs(*inventory),
                database.entries@,
            ),
            forall|c: BeetleCategory|
                #[trigger] group_view(r.by_category@, c) == expected_group(
                    select_items(inventory_pairs(*inventory), database.entries@),
                    c,
                ),
            r.total_items == quantity_sum(
                select_items(inventory_pairs(*inventory), database.entries@),
            ),
    {
        let inventory_items = inventory_items(inventory);
        let ghost pairs = inventory_pairs(*inventory);
        let ghost db = database.entries@;
        assert(inventory_items@ == pairs);
        let mut items: Vec<InventoryItem> = Vec::new();
        let mut by_category: Vec<CategoryItems> = Vec::new();
        let mut total_items: i64 = 0;
        let mut i: usize = 0;
        proof {
            assert(pairs.take(0) == Seq::<(&'static str, i64)>::empty());
            assert forall|c: BeetleCategory| #[trigger] group_view(by_category@, c) == expected_group(select_items(pairs.take(0), db), c) by {
                assert(select_items(pairs.take(0), db) == Seq::<(Seq<char>, i64, BeetleData)>::empty());
                reveal(Seq::filter);
            }
        }
        while i < inventory_items.len()
            invariant
                inventory_items@ == pairs,
                pairs == inventory_pairs(*inventory),
                db == database.entries@,
                i <= pairs.len(),
                quantity_sum(select_items(pairs, db)) <= i64::MAX,
                items@.map_values(item_views()) == select_items(pairs.take(i as int), db),
                forall|c: BeetleCategory|
                    #[trigger] group_view(by_category@, c) == expected_group(
                        select_items(pairs.take(i as int), db),
                        c,
                    ),
                total_items == quantity_sum(select_items(pairs.take(i as int), db)),
            decreases pairs.len() - i,
        {
            let (key, quantity) = inventory_items[i];
            let ghost sel = select_items(pairs.take(i as int), db);
            proof {
                lemma_select_step(pairs, db, i as int);
                lemma_select_sum_prefix(pairs, db, i as int + 1);
            }
            if quantity > 0 {
                match database.get(key) {
                    Some(beetle_data) => {
                        let item = InventoryItem {
                            key: key.to_owned(),
                            quantity,
                            data: beetle_data.clone(),
                        };
                        let ghost t = item_view(item);
                        proof {
                            assert(sel.push(t).drop_last() == sel);
                        }
                        total_items = total_items + quantity;
                        let ghost old_groups = by_category@;
                        let ghost old_items = items@;
                        items.push(item.clone());
                        proof {
                            old_items.lemma_push_map_commute(item_views(), item);
                        }
                        match beetle_data.get_category() {
                            Some(category) => {
                                add_to_group(&mut by_category, category, item);
                                proof {
                                    assert forall|c: BeetleCategory| #[trigger] group_view(by_category@, c) == expected_group(sel.push(t), c) by {
                                        assert(group_view(old_groups, c) == expected_group(sel, c));
                                        sel.lemma_filter_push(t, in_category(c));
                                        if c == category {
                                            match group_lookup(old_groups, category) {
                                                Some(g) => {
                                                    g.lemma_push_map_commute(item_views(), item);
                                                },
                                                None => {
                                                    assert(seq![item].map_values(item_views()) == seq![t]);
                                                    assert(sel.filter(in_category(c)) =~= Seq::<(Seq<char>, i64, BeetleData)>::empty());
                                                    assert(Seq::<(Seq<char>, i64, BeetleData)>::empty().push(t) == seq![t]);
                                                },
                                            }
                                        }
                                    }
                                }
                            },
                            None => {
                                proof {
                                    assert forall|c: BeetleCategory| #[trigger] group_view(by_category@, c) == expected_group(sel.push(t), c) by {
                                        assert(group_view(old_groups, c) == expected_group(sel, c));
                                        sel.lemma_filter_push(t, in_category(c));
                                    }
                                }
                            },
                        }
                    },
                    None => {},
                }
            }
            i = i + 1;
        }
        assert(pairs.take(pairs.len() as int) == pairs);
        OrganizedInventory { items, by_category, total_items }
    }
}

/// An item's rarity, the key of the rarity listings.
pub open spec fn rarity_key() -> spec_fn(InventoryItem) -> int {
    |it: InventoryItem| it.data.rarity as int
}

/// An item's quantity, the key of the quantity listings.
pub open spec fn quantity_key() -> spec_fn(InventoryItem) -> int {
    |it: InventoryItem| it.quantity as int
}

/// Rarity first, then quantity: the rarity scaled above every quantity, so
/// that ordering by this number orders by rarity and, within a rarity, by
/// quantity.
pub open spec fn rarity_then_quantity_key() -> spec_fn(InventoryItem) -> int {
    |it: InventoryItem| it.data.rarity as int * 0x1_0000_0000_0000_0000 + (it.quantity as int + 0x8000_0000_0000_0000)
}

/// The combined key orders by rarity, and by quantity within a rarity.
proof fn lemma_rarity_then_quantity(a: InventoryItem, b: InventoryItem)
    requires
        rarity_then_quantity_key()(a) >= rarity_then_quantity_key()(b),
    ensures
        a.data.rarity > b.data.rarity || (a.data.rarity == b.data.rarity && a.quantity >= b.quantity),
{
    let ra = a.data.rarity as int;
    let rb = b.data.rarity as int;
    let qa = a.quantity as int + 0x8000_0000_0000_0000;
    let qb = b.quantity as int + 0x8000_0000_0000_0000;
    assert(0 <= qa < 0x1_0000_0000_0000_0000 && 0 <= qb < 0x1_0000_0000_0000_0000);
    assert(ra >= rb) by (nonlinear_arith)
        requires
            ra * 0x1_0000_0000_0000_0000 + qa >= rb * 0x1_0000_0000_0000_0000 + qb,
            0 <= qa < 0x1_0000_0000_0000_0000,
            0 <= qb < 0x1_0000_0000_0000_0000,
    ;
}

/// A listing in non-increasing order of the combined key has higher rarity
/// first and, within a rarity, higher quantity first.
pub proof fn law_rarity_listing_order(s: Seq<InventoryItem>)
    requires
        desc_sorted(s, rarity_then_quantity_key()),
    ensures
        forall|i: int, j: int| 0 <= i < j < s.len() ==> {
            ||| s[i].data.rarity > s[j].data.rarity
            ||| (s[i].data.rarity == s[j].data.rarity && s[i].quantity >= s[j].quantity)
        },
{
    assert forall|i: int, j: int| 0 <= i < j < s.len() implies {
        ||| s[i].data.rarity > s[j].data.rarity
        ||| (s[i].data.rarity == s[j].data.rarity && s[i].quantity >= s[j].quantity)
    } by {
        assert(rarity_then_quantity_key()(s[i]) >= rarity_then_quantity_key()(s[j]));
        lemma_rarity_then_quantity(s[i], s[j]);
    }
}

/// Every running total of the quantities fits in `i64`.
pub open spec fn totals_fit(s: Seq<InventoryItem>) -> bool {
    forall|k: int| 0 <= k <= s.len() ==> i64::MIN <= #[trigger] items_total(s.take(k)) <= i64::MAX
}

/// The first item with key `key`, if any.
pub open spec fn item_lookup(items: Seq<InventoryItem>, key: Seq<char>) -> Option<InventoryItem>
    decreases items.len(),
{
    if items.len() == 0 {
        None
    } else if items[0].key@ == key {
        Some(items[0])
    } else {
        item_lookup(items.drop_first(), key)
    }
}

fn rarity_of(it: &InventoryItem) -> (r: i128)
    ensures
        r == it.data.rarity as int,
{
    it.data.rarity as i128
}

fn quantity_of(it: &InventoryItem) -> (r: i128)
    ensures
        r == it.quantity as int,
{
    it.quantity as i128
}

fn rarity_then_quantity_of(it: &InventoryItem) -> (r: i128)
    ensures
        r == it.data.rarity as int * 0x1_0000_0000_0000_0000 + (it.quantity as int + 0x8000_0000_0000_0000),
{
    it.data.rarity as i128 * 0x1_0000_0000_0000_0000i128 + (it.quantity as i128 + 0x8000_0000_0000_0000i128)
}

fn clone_items(v: &Vec<InventoryItem>) -> (r: Vec<InventoryItem>)
    ensures
        r@ == v@,
{
    let mut r: Vec<InventoryItem> = Vec::new();
    let mut i: usize = 0;
    while i < v.len()
        invariant
            i <= v@.len(),
            r@ == v@.take(i as int),
        decreases v@.len() - i,
    {
        r.push(v[i].clone());
        assert(v@.take(i as int + 1) == v@.take(i as int).push(v@[i as int]));
        i = i + 1;
    }
    assert(v@.take(v@.len() as int) == v@);
    r
}

proof fn lemma_group_skip(groups: Seq<CategoryItems>, i: int, c: BeetleCategory)
    requires
        0 <= i < groups.len(),
        groups[i].category != c,
    ensures
        group_lookup(groups.skip(i), c) == group_lookup(groups.skip(i + 1), c),
{
    assert(groups.skip(i).drop_first() == groups.skip(i + 1));
}

proof fn lemma_item_skip(items: Seq<InventoryItem>, i: int, key: Seq<char>)
    requires
        0 <= i < items.len(),
        items[i].key@ != key,
    ensures
        item_lookup(items.skip(i), key) == item_lookup(items.skip(i + 1), key),
{
    assert(items.skip(i).drop_first() == items.skip(i + 1));
}

impl OrganizedInventory {
    /// Get all items in a specific category
    pub fn get_category(&self, category: BeetleCategory) -> (r: Option<&Vec<InventoryItem>>)
        ensures
            r is Some == group_lookup(self.by_category@, category) is Some,
            r matches Some(v) ==> v@ == group_lookup(self.by_category@, category)->0,
    {
        let mut i: usize = 0;
        assert(self.by_category@.skip(0) == self.by_category@);
        while i < self.by_category.len()
            invariant
                i <= self.by_category@.len(),
                group_lookup(self.by_category@, category) == group_lookup(
                    self.by_category@.skip(i as int),
                    category,
                ),
            decreases self.by_category@.len() - i,
        {
            if self.by_category[i].category == category {
                assert(self.by_category@.skip(i as int)[0] == self.by_category@[i as int]);
                return Some(&self.by_category[i].items);
            }
            proof {
                lemma_group_skip(self.by_category@, i as int, category);
            }
            i = i + 1;
        }
        None
    }

    /// Get all trash items
    pub fn get_trash(&self) -> (r: Option<&Vec<InventoryItem>>)
        ensures
            r is Some == group_lookup(self.by_category@, BeetleCategory::Trash) is Some,
            r matches Some(v) ==> v@ == group_lookup(self.by_category@, BeetleCategory::Trash)->0,
    {
        self.get_category(BeetleCategory::Trash)
    }

    /// Get all flowers
    pub fn get_flowers(&self) -> (r: Option<&Vec<InventoryItem>>)
        ensures
            r is Some == group_lookup(self.by_category@, BeetleCategory::Flowers) is Some,
            r matches Some(v) ==> v@ == group_lookup(self.by_category@, BeetleCategory::Flowers)->0,
    {
        self.get_category(BeetleCategory::Flowers)
    }

    /// Get all beetles
    pub fn get_beetles(&self) -> (r: Option<&Vec<InventoryItem>>)
        ensures
            r is Some == group_lookup(self.by_category@, BeetleCategory::Beetles) is Some,
            r matches Some(v) ==> v@ == group_lookup(self.by_category@, BeetleCategory::Beetles)->0,
    {
        self.get_category(BeetleCategory::Beetles)
    }

    /// Get all hammers
    pub fn get_hammers(&self) -> (r: Option<&Vec<InventoryItem>>)
        ensures
            r is Some == group_lookup(self.by_category@, BeetleCategory::Hammers) is Some,
            r matches Some(v) ==> v@ == group_lookup(self.by_category@, BeetleCategory::Hammers)->0,
    {
        self.get_category(BeetleCategory::Hammers)
    }

    /// Get category sorted by rarity (highest first); items of equal rarity
    /// keep their order.
    pub fn get_category_sorted_by_rarity(&self, category: BeetleCategory) -> (r: Option<Vec<InventoryItem>>)
        ensures
            r is Some == group_lookup(self.by_category@, category) is Some,
            r matches Some(v) ==> {
                let g = group_lookup(self.by_category@, category)->0;
                &&& v@.len() == g.len()
                &&& v@.to_multiset() == g.to_multiset()
                &&& desc_sorted(v@, rarity_key())
                &&& same_key_classes(g, v@, rarity_key())
                &&& forall|i: int, j: int| 0 <= i < j < v@.len() ==> v@[i].data.rarity >= v@[j].data.rarity
            },
    {
        match self.get_category(category) {
            Some(items) => {
                let mut sorted = clone_items(items);
                stable_sort_desc(&mut sorted, Ghost(rarity_key()), rarity_of);
                proof {
                    assert forall|i: int, j: int| 0 <= i < j < sorted@.len() implies sorted@[i].data.rarity >= sorted@[j].data.rarity by {
                        assert(rarity_key()(sorted@[i]) >= rarity_key()(sorted@[j]));
                    }
                }
                Some(sorted)
            },
            None => None,
        }
    }

    /// Get category sorted by quantity (highest first); items of equal
    /// quantity keep their order.
    pub fn get_category_sorted_by_quantity(&self, category: BeetleCategory) -> (r: Option<Vec<InventoryItem>>)
        ensures
            r is Some == group_lookup(self.by_category@, category) is Some,
            r matches Some(v) ==> {
                let g = group_lookup(self.by_category@, category)->0;
                &&& v@.len() == g.len()
                &&& v@.to_multiset() == g.to_multiset()
                &&& desc_sorted(v@, quantity_key())
                &&& same_key_classes(g, v@, quantity_key())
                &&& forall|i: int, j: int| 0 <= i < j < v@.len() ==> v@[i].quantity >= v@[j].quantity
            },
    {
        match self.get_category(category) {
            Some(items) => {
                let mut sorted = clone_items(items);
                stable_sort_desc(&mut sorted, Ghost(quantity_key()), quantity_of);
                proof {
                    assert forall|i: int, j: int| 0 <= i < j < sorted@.len() implies sorted@[i].quantity >= sorted@[j].quantity by {
                        assert(quantity_key()(sorted@[i]) >= quantity_key()(sorted@[j]));
                    }
                }
                Some(sorted)
            },
            None => None,
        }
    }

    /// Get total quantity for a category (zero when it has no items)
    pub fn get_category_total(&self, category: BeetleCategory) -> (r: i64)
        requires
            group_lookup(self.by_category@, category) matches Some(g) ==> totals_fit(g),
        ensures
            r == match group_lookup(self.by_category@, category) {
                Some(g) => items_total(g),
                None => 0,
            },
    {
        match self.get_category(category) {
            Some(items) => {
                let mut total: i64 = 0;
                let mut i: usize = 0;
                while i < items.len()
                    invariant
                        i <= items@.len(),
                        totals_fit(items@),
                        total == items_total(items@.take(i as int)),
                    decreases items@.len() - i,
                {
                    assert(items@.take(i as int + 1).drop_last() == items@.take(i as int));
                    assert(i64::MIN <= items_total(items@.take(i as int + 1)) <= i64::MAX);
                    total = total + items[i].quantity;
                    i = i + 1;
                }
                assert(items@.take(items@.len() as int) == items@);
                total
            },
            None => 0,
        }
    }

    /// Get all items sorted by rarity, and by quantity within a rarity
    /// (highest first); items equal in both keep their order.
    pub fn get_all_sorted_by_rarity(&self) -> (r: Vec<InventoryItem>)
        ensures
            r@.len() == self.items@.len(),
            r@.to_multiset() == self.items@.to_multiset(),
            desc_sorted(r@, rarity_then_quantity_key()),
            same_key_classes(self.items@, r@, rarity_then_quantity_key()),
            forall|i: int, j: int| 0 <= i < j < r@.len() ==> {
                ||| r@[i].data.rarity > r@[j].data.rarity
                ||| (r@[i].data.rarity == r@[j].data.rarity && r@[i].quantity >= r@[j].quantity)
            },
    {
        let mut sorted = clone_items(&self.items);
        stable_sort_desc(&mut sorted, Ghost(rarity_then_quantity_key()), rarity_then_quantity_of);
        proof {
            law_rarity_listing_order(sorted@);
        }
        sorted
    }

    /// Find specific item by key
    pub fn find_item(&self, key: &str) -> (r: Option<&InventoryItem>)
        ensures
            r is Some == item_lookup(self.items@, key@) is Some,
            r matches Some(it) ==> *it == item_lookup(self.items@, key@)->0,
    {
        let mut i: usize = 0;
        assert(self.items@.skip(0) == self.items@);
        while i < self.items.len()
            invariant
                i <= self.items@.len(),
                item_lookup(self.items@, key@) == item_lookup(self.items@.skip(i as int), key@),
            decreases self.items@.len() - i,
        {
            if str_eq(self.items[i].key.as_str(), key) {
                assert(self.items@.skip(i as int)[0] == self.items@[i as int]);
                return Some(&self.items[i]);
            }
            proof {
                lemma_item_skip(self.items@, i as int, key@);
            }
            i = i + 1;
        }
        None
    }
}

} // verus!
