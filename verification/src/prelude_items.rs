//! The built-in items: the air sentinel and the concrete static items, each
//! with its fixed populated stats store.

use vstd::prelude::*;

use crate::attribute::{
    stable_insert_pos, Attribute, AttributeModifier, AttributeReason, AttributeType,
};
use crate::item::{Item, ItemStack};
use crate::registry::ItemRegistry;
use crate::scalar::StatValue;
use crate::stats::BasicStats;

verus! {

/// The absolute path of a bundled asset under a base directory:
/// `{base_dir}/assets/{asset_relative_path}`.
pub fn asset_to_absolute(base_dir: &str, asset_relative_path: &str) -> (r: String)
    ensures
        r@ == base_dir@ + "/assets/"@ + asset_relative_path@,
{
    let mut p: String = base_dir.to_owned();
    p.append("/assets/");
    p.append(asset_relative_path);
    p
}

/// One base attribute line of a static item: priority zero, labelled with the
/// item's name, setting the stat outright.
pub open spec fn is_base_entry(e: Attribute, label: Seq<char>, milli: int) -> bool {
    &&& e.priority == 0
    &&& e.reason matches AttributeReason::Display(l) && l@ == label
    &&& e.modifier matches AttributeModifier::SetTo(v) && v.as_int() == milli
}

/// A store holds exactly one base entry per kind, each set to the given
/// per-kind milli value.
pub open spec fn fully_populated(
    stats: BasicStats,
    label: Seq<char>,
    milli_of: spec_fn(AttributeType) -> int,
) -> bool {
    forall|at: AttributeType|
        (#[trigger] stats.entries(at)).len() == 1 && is_base_entry(
            stats.entries(at)[0],
            label,
            milli_of(at),
        )
}

/// Push one base attribute into an empty kind.
fn push_base(stats: &mut BasicStats, at: AttributeType, label: &str, milli: i64)
    requires
        old(stats).wf(),
        old(stats).entries(at).len() == 0,
    ensures
        final(stats).wf(),
        final(stats).entries(at).len() == 1,
        is_base_entry(final(stats).entries(at)[0], label@, milli as int),
        forall|o: AttributeType|
            o != at ==> #[trigger] final(stats).entries(o) == old(stats).entries(o),
{
    let entry = Attribute::new(
        AttributeReason::Display(label.to_owned()),
        0,
        AttributeModifier::SetTo(StatValue::from_milli(milli)),
    );
    let ghost e = entry;
    stats.push_attribute(at, entry);
    proof {
        let s = old(stats).entries(at);
        assert(stable_insert_pos(s, 0) == 0);
        assert(stats.entries(at) =~= seq![e]);
    }
}

/// The air item: the "no item" sentinel with zero stats.
#[derive(Clone, Copy, Debug)]
pub struct Air {}

impl Air {
    pub fn new() -> (r: Air) {
        Air {  }
    }

    /// A one-count stack of air, the filler of empty slots.
    pub fn new_itemstack() -> (r: ItemStack)
        ensures
            r == crate::collection::air_slot(),
    {
        crate::collection::new_air_slot()
    }

    /// The air sentinel as an item value.
    pub fn into_item(self) -> (r: Item)
        ensures
            r is Air,
    {
        Item::Air
    }
}

/// The rock's base stat values, in milli-units.
pub open spec fn rock_base_milli(at: AttributeType) -> int {
    match at {
        AttributeType::Sharpness => 2000,
        AttributeType::Durability => 50000,
        AttributeType::Weight => 5000,
        AttributeType::Strength => 10000,
        AttributeType::Agility => 5000,
        AttributeType::Reach => 5000,
    }
}

/// The rope's base stat values, in milli-units.
pub open spec fn rope_base_milli(at: AttributeType) -> int {
    match at {
        AttributeType::Sharpness => 0,
        AttributeType::Durability => 150000,
        AttributeType::Weight => 5000,
        AttributeType::Strength => 10000,
        AttributeType::Agility => 5000,
        AttributeType::Reach => 10000,
    }
}

/// A plain rock: one labelled base entry per stat kind.
#[derive(Debug)]
pub struct Rock {
    pub stats: BasicStats,
}

impl Rock {
    pub fn new() -> (r: Rock)
        ensures
            r.stats.wf(),
            fully_populated(r.stats, "🪨"@, |at: AttributeType| rock_base_milli(at)),
    {
        let mut rock = Rock { stats: BasicStats::new() };
        rock.populate();
        rock
    }

    /// Install the rock's base attributes; the store must still be empty.
    pub fn populate(&mut self)
        requires
            old(self).stats.wf(),
            forall|at: AttributeType| (#[trigger] old(self).stats.entries(at)).len() == 0,
        ensures
            final(self).stats.wf(),
            fully_populated(final(self).stats, "🪨"@, |at: AttributeType| rock_base_milli(at)),
    {
        push_base(&mut self.stats, AttributeType::Sharpness, "🪨", 2000);
        push_base(&mut self.stats, AttributeType::Durability, "🪨", 50000);
        push_base(&mut self.stats, AttributeType::Weight, "🪨", 5000);
        push_base(&mut self.stats, AttributeType::Strength, "🪨", 10000);
        push_base(&mut self.stats, AttributeType::Agility, "🪨", 5000);
        push_base(&mut self.stats, AttributeType::Reach, "🪨", 5000);
    }

    /// The rock as an item value.
    pub fn into_item(self) -> (r: Item)
        ensures
            r == Item::Rock(self.stats),
    {
        Item::Rock(self.stats)
    }
}

/// A rope: one labelled base entry per stat kind.
#[derive(Debug)]
pub struct Rope {
    pub stats: BasicStats,
}

impl Rope {
    pub fn new() -> (r: Rope)
        ensures
            r.stats.wf(),
            fully_populated(r.stats, "🪢"@, |at: AttributeType| rope_base_milli(at)),
    {
        let mut rope = Rope { stats: BasicStats::new() };
        rope.populate();
        rope
    }

    /// Install the rope's base attributes; the store must still be empty.
    pub fn populate(&mut self)
        requires
            old(self).stats.wf(),
            forall|at: AttributeType| (#[trigger] old(self).stats.entries(at)).len() == 0,
        ensures
            final(self).stats.wf(),
            fully_populated(final(self).stats, "🪢"@, |at: AttributeType| rope_base_milli(at)),
    {
        push_base(&mut self.stats, AttributeType::Sharpness, "🪢", 0);
        push_base(&mut self.stats, AttributeType::Durability, "🪢", 150000);
        push_base(&mut self.stats, AttributeType::Weight, "🪢", 5000);
        push_base(&mut self.stats, AttributeType::Strength, "🪢", 10000);
        push_base(&mut self.stats, AttributeType::Agility, "🪢", 5000);
        push_base(&mut self.stats, AttributeType::Reach, "🪢", 10000);
    }

    /// The rope as an item value.
    pub fn into_item(self) -> (r: Item)
        ensures
            r == Item::Rope(self.stats),
    {
        Item::Rope(self.stats)
    }
}

/// The developer tablet: a tool item with no stats of its own.
#[derive(Debug)]
pub struct DevTablet {
    pub stats: BasicStats,
}

impl DevTablet {
    pub fn new() -> (r: DevTablet)
        ensures
            r.stats.wf(),
            forall|at: AttributeType| (#[trigger] r.stats.entries(at)).len() == 0,
    {
        DevTablet { stats: BasicStats::new() }
    }

    /// The tablet as an item value.
    pub fn into_item(self) -> (r: Item)
        ensures
            r == Item::DevTablet(self.stats),
    {
        Item::DevTablet(self.stats)
    }
}

/// The catalog of built-in item prototypes: one of each concrete item,
/// registered under its identifier.
pub fn create_item_registry() -> (r: ItemRegistry)
    ensures
        r.wf(),
        r.as_map().dom() =~= set!["rock"@, "air"@, "rope"@, "dev_tablet"@],
        r.as_map()["rock"@] is Rock,
        r.as_map()["air"@] is Air,
        r.as_map()["rope"@] is Rope,
        r.as_map()["dev_tablet"@] is DevTablet,
{
    let mut registry = ItemRegistry::new();
    registry.register("rock".to_owned(), Rock::new().into_item());
    registry.register("air".to_owned(), Air::new().into_item());
    registry.register("rope".to_owned(), Rope::new().into_item());
    registry.register("dev_tablet".to_owned(), DevTablet::new().into_item());
    proof {
        reveal_strlit("rock");
        reveal_strlit("air");
        reveal_strlit("rope");
        reveal_strlit("dev_tablet");
        assert("rock"@.len() == 4);
        assert("air"@.len() == 3);
        assert("rope"@.len() == 4);
        assert("dev_tablet"@.len() == 10);
        assert("rock"@[2] == 'c' && "rope"@[2] == 'p');
        assert(!("rock"@ == "air"@));
        assert(!("rock"@ == "rope"@));
        assert(!("rock"@ == "dev_tablet"@));
        assert(!("air"@ == "rope"@));
        assert(!("air"@ == "dev_tablet"@));
        assert(!("rope"@ == "dev_tablet"@));
        assert(registry.as_map().dom() =~= set!["rock"@, "air"@, "rope"@, "dev_tablet"@]);
    }
    registry
}

} // verus!
