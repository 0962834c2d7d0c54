//! The sealed item model: concrete item kinds and quantity-bearing stacks.
//!
//! Items are immutable value objects dispatched over a closed variant set:
//! the air sentinel that fills empty slots, the concrete static items, and
//! the composite template item. An [`ItemStack`] pairs an item with a count.

use vstd::prelude::*;

use crate::attribute::{Attribute, AttributeType};
use crate::stats::BasicStats;
use crate::template::{same_template_item, TemplateItem};

verus! {

/// A marker for engine-side hook types that special abilities can emit.
pub trait EngineHook {}

/// The stand-in hook for contexts without an engine attached.
#[derive(Clone, Copy, Debug)]
pub struct DummyHook {}

impl EngineHook for DummyHook {}

/// An extension point for item abilities: a named ability handing hooks to
/// the engine layer.
pub trait SpecialAbility<THook: EngineHook> {
    fn get_name(&self) -> String;

    fn get_hooks(&self) -> Vec<THook>;
}

/// A game item: the air sentinel, one of the concrete static items, or a
/// composite template item.
#[derive(Debug)]
pub enum Item {
    /// The "no item" sentinel filling empty slots.
    Air,
    Rock(BasicStats),
    Rope(BasicStats),
    DevTablet(BasicStats),
    Template(TemplateItem),
}

/// Two items carry the same data.
pub open spec fn same_item(a: Item, b: Item) -> bool {
    match (a, b) {
        (Item::Air, Item::Air) => true,
        (Item::Rock(s1), Item::Rock(s2)) => same_stats(s1, s2),
        (Item::Rope(s1), Item::Rope(s2)) => same_stats(s1, s2),
        (Item::DevTablet(s1), Item::DevTablet(s2)) => same_stats(s1, s2),
        (Item::Template(t1), Item::Template(t2)) => same_template_item(t1, t2),
        _ => false,
    }
}

/// Two stats stores hold the same entries.
pub open spec fn same_stats(a: BasicStats, b: BasicStats) -> bool {
    forall|at: AttributeType| #[trigger] a.entries(at) == b.entries(at)
}

impl Clone for Item {
    fn clone(&self) -> (res: Self)
        ensures
            same_item(res, *self),
            self.wf() ==> res.wf(),
    {
        match self {
            Item::Air => Item::Air,
            Item::Rock(s) => Item::Rock(s.clone()),
            Item::Rope(s) => Item::Rope(s.clone()),
            Item::DevTablet(s) => Item::DevTablet(s.clone()),
            Item::Template(t) => Item::Template(t.clone()),
        }
    }
}

impl Item {
    /// The item's display name.
    pub open spec fn name_spec(self) -> Seq<char> {
        match self {
            Item::Air => "☁️"@,
            Item::Rock(_) => "🪨"@,
            Item::Rope(_) => "🪢"@,
            Item::DevTablet(_) => "Tablet"@,
            Item::Template(t) => t.template.data_name@,
        }
    }

    /// The item's stable identifier string.
    pub open spec fn ident_spec(self) -> Seq<char> {
        match self {
            Item::Air => "air"@,
            Item::Rock(_) => "rock"@,
            Item::Rope(_) => "rope"@,
            Item::DevTablet(_) => "dev_tablet"@,
            Item::Template(t) => t.template.data_name@,
        }
    }

    /// The item's attribute entries of one kind.
    pub open spec fn stats_entries(self, at: AttributeType) -> Seq<Attribute> {
        match self {
            Item::Air => Seq::empty(),
            Item::Rock(s) => s.entries(at),
            Item::Rope(s) => s.entries(at),
            Item::DevTablet(s) => s.entries(at),
            Item::Template(t) => t.template.attribute.entries(at),
        }
    }

    /// The names of the item's special abilities.
    pub open spec fn abilities_spec(self) -> Seq<String> {
        match self {
            Item::Template(t) => t.ability_names@,
            _ => Seq::empty(),
        }
    }

    /// Whether the item is the empty-slot sentinel: its identifier is `air`.
    pub open spec fn is_air_spec(self) -> bool {
        self.ident_spec() == "air"@
    }

    /// Well-formed: the stats store keeps its priority sort.
    pub open spec fn wf(self) -> bool {
        match self {
            Item::Air => true,
            Item::Rock(s) => s.wf(),
            Item::Rope(s) => s.wf(),
            Item::DevTablet(s) => s.wf(),
            Item::Template(t) => t.template.wf(),
        }
    }

    /// The item's display name.
    pub fn get_name(&self) -> (r: String)
        ensures
            r@ == self.name_spec(),
    {
        match self {
            Item::Air => "☁️".to_owned(),
            Item::Rock(_) => "🪨".to_owned(),
            Item::Rope(_) => "🪢".to_owned(),
            Item::DevTablet(_) => "Tablet".to_owned(),
            Item::Template(t) => t.template.data_name.clone(),
        }
    }

    /// The item's stable identifier string.
    pub fn get_ident(&self) -> (r: String)
        ensures
            r@ == self.ident_spec(),
    {
        match self {
            Item::Air => "air".to_owned(),
            Item::Rock(_) => "rock".to_owned(),
            Item::Rope(_) => "rope".to_owned(),
            Item::DevTablet(_) => "dev_tablet".to_owned(),
            Item::Template(t) => t.template.data_name.clone(),
        }
    }

    /// A snapshot of the item's stats store. For a template item this is the
    /// merged table built up by its components.
    pub fn get_stats(&self) -> (r: BasicStats)
        ensures
            forall|at: AttributeType| #[trigger] r.entries(at) == self.stats_entries(at),
            self.wf() ==> r.wf(),
    {
        match self {
            Item::Air => BasicStats::new(),
            Item::Rock(s) => s.clone(),
            Item::Rope(s) => s.clone(),
            Item::DevTablet(s) => s.clone(),
            Item::Template(t) => BasicStats::from(t.template.attribute.clone()),
        }
    }

    /// The names of the item's special abilities.
    pub fn special_abilities(&self) -> (r: Vec<String>)
        ensures
            r@ == self.abilities_spec(),
    {
        match self {
            Item::Template(t) => crate::template::clone_strings(&t.ability_names),
            _ => Vec::new(),
        }
    }

    /// Whether the item is the empty-slot sentinel.
    pub fn is_air(&self) -> (r: bool)
        ensures
            r == self.is_air_spec(),
    {
        match self {
            Item::Air => {
                true
            },
            Item::Rock(_) => {
                proof {
                    reveal_strlit("rock");
                    reveal_strlit("air");
                    assert(self.ident_spec() == "rock"@);
                    assert(!("rock"@ == "air"@));
                }
                false
            },
            Item::Rope(_) => {
                proof {
                    reveal_strlit("rope");
                    reveal_strlit("air");
                    assert(self.ident_spec() == "rope"@);
                    assert(!("rope"@ == "air"@));
                }
                false
            },
            Item::DevTablet(_) => {
                proof {
                    reveal_strlit("dev_tablet");
                    reveal_strlit("air");
                    assert(self.ident_spec() == "dev_tablet"@);
                    assert(!("dev_tablet"@ == "air"@));
                }
                false
            },
            Item::Template(t) => {
                let probe: String = "air".to_owned();
                let r = t.template.data_name == probe;
                proof {
                    assert(r == self.is_air_spec());
                }
                r
            },
        }
    }
}

/// Two stacks carry the same data.
pub open spec fn same_stack(a: ItemStack, b: ItemStack) -> bool {
    a.count == b.count && same_item(a.item, b.item)
}

/// A quantity of one item: the item value plus an unsigned count.
#[derive(Debug)]
pub struct ItemStack {
    pub item: Item,
    pub count: u32,
}

impl Clone for ItemStack {
    fn clone(&self) -> (res: Self)
        ensures
            same_stack(res, *self),
            self.wf() ==> res.wf(),
    {
        ItemStack { item: self.item.clone(), count: self.count }
    }
}

impl ItemStack {
    pub open spec fn wf(self) -> bool {
        self.item.wf()
    }

    /// Whether the stack holds the empty-slot sentinel.
    pub open spec fn is_air_spec(self) -> bool {
        self.item.is_air_spec()
    }

    pub fn new(item: Item, count: u32) -> (r: ItemStack)
        ensures
            r.item == item,
            r.count == count,
    {
        ItemStack { item, count }
    }

    /// Borrow the stacked item.
    pub fn get_item(&self) -> (r: &Item)
        ensures
            r == &self.item,
    {
        &self.item
    }

    pub fn get_count(&self) -> (r: u32)
        ensures
            r == self.count,
    {
        self.count
    }

    pub fn set_count(&mut self, count: u32)
        ensures
            final(self).count == count,
            final(self).item == old(self).item,
    {
        self.count = count;
    }

    /// Raise the count; the sum must fit.
    pub fn increment_count(&mut self, count: u32)
        requires
            old(self).count + count <= u32::MAX,
        ensures
            final(self).count == old(self).count + count,
            final(self).item == old(self).item,
    {
        self.count = self.count + count;
    }

    /// Lower the count; dropping below zero is a caller error.
    pub fn decrement_count(&mut self, count: u32)
        requires
            count <= old(self).count,
        ensures
            final(self).count == old(self).count - count,
            final(self).item == old(self).item,
    {
        self.count = self.count - count;
    }

    /// The stacked item's display name.
    pub fn get_name(&self) -> (r: String)
        ensures
            r@ == self.item.name_spec(),
    {
        self.item.get_name()
    }

    /// The stacked item's identifier.
    pub fn get_ident(&self) -> (r: String)
        ensures
            r@ == self.item.ident_spec(),
    {
        self.item.get_ident()
    }

    /// A snapshot of the stacked item's stats.
    pub fn get_stats(&self) -> (r: BasicStats)
        ensures
            forall|at: AttributeType| #[trigger] r.entries(at) == self.item.stats_entries(at),
            self.wf() ==> r.wf(),
    {
        self.item.get_stats()
    }

    /// The names of the stacked item's special abilities.
    pub fn special_abilities(&self) -> (r: Vec<String>)
        ensures
            r@ == self.item.abilities_spec(),
    {
        self.item.special_abilities()
    }

    /// Whether the stack holds the empty-slot sentinel.
    pub fn is_air(&self) -> (r: bool)
        ensures
            r == self.is_air_spec(),
    {
        self.item.is_air()
    }
}

} // verus!
