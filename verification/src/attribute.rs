//! Attribute modifiers and the priority-ordered aggregation engine.
//!
//! An [`Attribute`] is one named numeric operation on a stat kind: multiply,
//! add, or set, carried with a stable identifier, a display reason and a
//! priority. Per kind, entries are kept sorted ascending by priority (ties
//! keep insertion order), and [`AttributeParser::aggregate_to_value`] folds
//! them into one scalar: start at zero, then apply each modifier in order,
//! where `Set` discards everything accumulated so far.

use vstd::prelude::*;

use crate::scalar::{fix_mul_milli, sat_add_milli, StatValue};

verus! {

/// Why an attribute entry exists. `Hidden` entries still aggregate but are
/// left out of any rendered breakdown; `Display` entries carry a label.
#[derive(Debug)]
pub enum AttributeReason {
    Hidden,
    Display(String),
}

impl Clone for AttributeReason {
    fn clone(&self) -> (res: Self)
        ensures
            res == self,
    {
        match self {
            AttributeReason::Hidden => AttributeReason::Hidden,
            AttributeReason::Display(label) => AttributeReason::Display(label.clone()),
        }
    }
}

/// The closed set of numeric stat categories an item can carry.
#[derive(PartialEq, Eq, Structural, Hash, Clone, Copy, Debug)]
pub enum AttributeType {
    /// How much damage the item can deal
    Sharpness,
    /// How much damage the item can take
    Durability,
    /// How much the item weighs
    Weight,
    /// How much weight you can be supported
    Strength,
    /// How fast you can attack
    Agility,
    /// How far you can reach
    Reach,
}

/// Every attribute kind, in display order.
pub open spec fn all_kinds() -> Seq<AttributeType> {
    seq![
        AttributeType::Sharpness,
        AttributeType::Durability,
        AttributeType::Weight,
        AttributeType::Strength,
        AttributeType::Agility,
        AttributeType::Reach,
    ]
}

/// Every attribute kind, in display order.
pub fn all_attribute_types() -> (r: Vec<AttributeType>)
    ensures
        r@ == all_kinds(),
{
    let mut v: Vec<AttributeType> = Vec::new();
    v.push(AttributeType::Sharpness);
    v.push(AttributeType::Durability);
    v.push(AttributeType::Weight);
    v.push(AttributeType::Strength);
    v.push(AttributeType::Agility);
    v.push(AttributeType::Reach);
    proof {
        assert(v@ =~= all_kinds());
    }
    v
}

/// One arithmetic operation applied during aggregation.
#[derive(PartialEq, Eq, Structural, Clone, Copy, Debug)]
pub enum AttributeModifier {
    Multiply(StatValue),
    Add(StatValue),
    SetTo(StatValue),
}

/// The display color classifying a modifier as buff, neutral or debuff.
#[derive(PartialEq, Eq, Structural, Clone, Copy, Debug)]
pub enum StatColor {
    Green,
    Yellow,
    Red,
    White,
}

impl AttributeModifier {
    /// Whether the modifier improves the stat: a multiplier above one or a
    /// positive addend. `Set` is never a buff.
    pub open spec fn is_buff_spec(self) -> bool {
        match self {
            AttributeModifier::Multiply(m) => m.as_int() > 1000,
            AttributeModifier::Add(a) => a.as_int() > 0,
            AttributeModifier::SetTo(_) => false,
        }
    }

    /// Whether the modifier leaves the stat as it stands: a multiplier of
    /// exactly one or an addend of zero. `Set` is always neutral.
    pub open spec fn is_neutral_spec(self) -> bool {
        match self {
            AttributeModifier::Multiply(m) => m.as_int() == 1000,
            AttributeModifier::Add(a) => a.as_int() == 0,
            AttributeModifier::SetTo(_) => true,
        }
    }

    /// Whether the modifier worsens the stat: a multiplier below one or a
    /// negative addend. `Set` is never a debuff.
    pub open spec fn is_debuff_spec(self) -> bool {
        match self {
            AttributeModifier::Multiply(m) => m.as_int() < 1000,
            AttributeModifier::Add(a) => a.as_int() < 0,
            AttributeModifier::SetTo(_) => false,
        }
    }

    pub fn is_buff(&self) -> (r: bool)
        ensures
            r == self.is_buff_spec(),
    {
        match self {
            AttributeModifier::Multiply(m) => m.gt_one(),
            AttributeModifier::Add(a) => a.is_positive(),
            AttributeModifier::SetTo(_) => false,
        }
    }

    pub fn is_neutral(&self) -> (r: bool)
        ensures
            r == self.is_neutral_spec(),
    {
        match self {
            AttributeModifier::Multiply(m) => m.eq_one(),
            AttributeModifier::Add(a) => a.is_zero(),
            AttributeModifier::SetTo(_) => true,
        }
    }

    pub fn is_debuff(&self) -> (r: bool)
        ensures
            r == self.is_debuff_spec(),
    {
        match self {
            AttributeModifier::Multiply(m) => m.lt_one(),
            AttributeModifier::Add(a) => a.is_negative(),
            AttributeModifier::SetTo(_) => false,
        }
    }

    /// The color a stat line takes: green for buffs, yellow for neutral
    /// modifiers, red for debuffs.
    pub fn stat_color(&self) -> (r: StatColor)
        ensures
            r == (if self.is_buff_spec() {
                StatColor::Green
            } else if self.is_neutral_spec() {
                StatColor::Yellow
            } else if self.is_debuff_spec() {
                StatColor::Red
            } else {
                StatColor::White
            }),
    {
        if self.is_buff() {
            StatColor::Green
        } else if self.is_neutral() {
            StatColor::Yellow
        } else if self.is_debuff() {
            StatColor::Red
        } else {
            StatColor::White
        }
    }
}

/// One attribute entry: a stable identifier, a display reason, a priority in
/// 0–255 (lower folds earlier), and the modifier itself.
#[derive(Debug)]
pub struct Attribute {
    pub id: u128,
    pub reason: AttributeReason,
    pub priority: u8,
    pub modifier: AttributeModifier,
}

impl Clone for Attribute {
    fn clone(&self) -> (res: Self)
        ensures
            res == self,
    {
        Attribute {
            id: self.id,
            reason: self.reason.clone(),
            priority: self.priority,
            modifier: self.modifier,
        }
    }
}

impl Attribute {
    /// Build an entry with a freshly generated identifier.
    pub fn new(reason: AttributeReason, priority: u8, modifier: AttributeModifier) -> (r:
        Attribute)
        ensures
            r.reason == reason,
            r.priority == priority,
            r.modifier == modifier,
    {
        Attribute { id: fresh_attribute_id(), reason, priority, modifier }
    }
}

/// Relies on `uuid::Uuid::new_v4` for a randomly generated identifier; the
/// value differs from call to call, so nothing is promised of it.
#[verifier::external_body]
pub(crate) fn fresh_attribute_id() -> u128 {
    uuid::Uuid::new_v4().as_u128()
}

/// Entries sorted ascending by priority.
pub open spec fn sorted_by_priority(s: Seq<Attribute>) -> bool {
    forall|i: int, j: int|
        0 <= i < j < s.len() ==> #[trigger] s[i].priority <= #[trigger] s[j].priority
}

/// Where a stable insertion of an entry with priority `p` lands in `s`: after
/// every entry with priority `<= p`, before the rest. For a sorted sequence
/// this is the first index whose priority exceeds `p`.
pub open spec fn stable_insert_pos(s: Seq<Attribute>, p: u8) -> int
    decreases s.len(),
{
    if s.len() == 0 {
        0
    } else if s.last().priority <= p {
        s.len() as int
    } else {
        stable_insert_pos(s.drop_last(), p)
    }
}

pub proof fn lemma_insert_pos_bounds(s: Seq<Attribute>, p: u8)
    ensures
        0 <= stable_insert_pos(s, p) <= s.len(),
    decreases s.len(),
{
    if s.len() > 0 && s.last().priority > p {
        lemma_insert_pos_bounds(s.drop_last(), p);
    }
}

/// For a sorted sequence, the stable insertion point splits it into a prefix
/// of priorities `<= p` and a suffix of priorities `> p`.
pub proof fn lemma_insert_pos_split(s: Seq<Attribute>, p: u8)
    requires
        sorted_by_priority(s),
    ensures
        0 <= stable_insert_pos(s, p) <= s.len(),
        forall|j: int| 0 <= j < stable_insert_pos(s, p) ==> #[trigger] s[j].priority <= p,
        forall|j: int|
            stable_insert_pos(s, p) <= j < s.len() ==> #[trigger] s[j].priority > p,
    decreases s.len(),
{
    lemma_insert_pos_bounds(s, p);
    if s.len() > 0 {
        if s.last().priority <= p {
            assert forall|j: int| 0 <= j < s.len() implies #[trigger] s[j].priority <= p by {
                if j < s.len() - 1 {
                    assert(s[j].priority <= s[s.len() - 1].priority);
                }
            }
        } else {
            assert(sorted_by_priority(s.drop_last()));
            lemma_insert_pos_split(s.drop_last(), p);
            let pos = stable_insert_pos(s, p);
            assert forall|j: int| 0 <= j < pos implies #[trigger] s[j].priority <= p by {
                assert(s.drop_last()[j] == s[j]);
            }
            assert forall|j: int| pos <= j < s.len() implies #[trigger] s[j].priority > p by {
                if j < s.len() - 1 {
                    assert(s.drop_last()[j] == s[j]);
                }
            }
        }
    }
}

/// Inserting at the stable position keeps the sequence sorted.
pub proof fn lemma_stable_insert_sorted(s: Seq<Attribute>, a: Attribute)
    requires
        sorted_by_priority(s),
    ensures
        sorted_by_priority(s.insert(stable_insert_pos(s, a.priority), a)),
{
    lemma_insert_pos_split(s, a.priority);
    let pos = stable_insert_pos(s, a.priority);
    let t = s.insert(pos, a);
    s.insert_ensures(pos, a);
    assert forall|i: int, j: int|
        0 <= i < j < t.len() implies #[trigger] t[i].priority <= #[trigger] t[j].priority by {
        if i < pos {
            assert(t[i] == s[i]);
        } else if i == pos {
            assert(t[i] == a);
        } else {
            assert(t[i] == s[i - 1]);
        }
        if j < pos {
            assert(t[j] == s[j]);
        } else if j == pos {
            assert(t[j] == a);
        } else {
            assert(t[j] == s[j - 1]);
        }
    }
}

/// Insert an entry into a priority-sorted list at its stable position.
pub(crate) fn sorted_insert(v: &mut Vec<Attribute>, a: Attribute)
    requires
        sorted_by_priority(old(v)@),
    ensures
        final(v)@ == old(v)@.insert(stable_insert_pos(old(v)@, a.priority), a),
        sorted_by_priority(final(v)@),
{
    proof {
        lemma_insert_pos_split(v@, a.priority);
        lemma_stable_insert_sorted(v@, a);
    }
    let ghost s = v@;
    let ghost pos = stable_insert_pos(v@, a.priority);
    let mut i: usize = 0;
    while i < v.len() && v[i].priority <= a.priority
        invariant
            0 <= i <= v.len(),
            v@ == s,
            forall|j: int| 0 <= j < i ==> #[trigger] s[j].priority <= a.priority,
        decreases v.len() - i,
    {
        i = i + 1;
    }
    proof {
        // i matches the spec insertion point: both are the first index whose
        // priority exceeds a.priority.
        if i < pos {
            assert(s[i as int].priority <= a.priority);
        }
        if pos < i {
            assert(s[pos].priority > a.priority);
        }
        assert(i as int == pos);
    }
    v.insert(i, a);
}

/// The first entry in `s` whose identifier is `id`, if any.
pub open spec fn find_by_id(s: Seq<Attribute>, id: u128) -> Option<Attribute>
    decreases s.len(),
{
    if s.len() == 0 {
        None
    } else if s.first().id == id {
        Some(s.first())
    } else {
        find_by_id(s.drop_first(), id)
    }
}

/// Whether some entry in `s` carries identifier `id`.
pub open spec fn contains_id(s: Seq<Attribute>, id: u128) -> bool {
    exists|i: int| 0 <= i < s.len() && #[trigger] s[i].id == id
}

pub proof fn lemma_find_by_id_contains(s: Seq<Attribute>, id: u128)
    ensures
        find_by_id(s, id) is Some <==> contains_id(s, id),
        find_by_id(s, id) matches Some(a) ==> exists|i: int|
            0 <= i < s.len() && #[trigger] s[i] == a && s[i].id == id,
    decreases s.len(),
{
    if s.len() > 0 {
        lemma_find_by_id_contains(s.drop_first(), id);
        if s.first().id == id {
            assert(s[0].id == id);
        } else {
            if contains_id(s.drop_first(), id) {
                let i = choose|i: int|
                    0 <= i < s.drop_first().len() && #[trigger] s.drop_first()[i].id == id;
                assert(s[i + 1].id == id);
            }
            if contains_id(s, id) {
                let i = choose|i: int| 0 <= i < s.len() && #[trigger] s[i].id == id;
                assert(i != 0);
                assert(s.drop_first()[i - 1].id == id);
            }
            if find_by_id(s.drop_first(), id) is Some {
                let a = find_by_id(s.drop_first(), id).unwrap();
                let i = choose|i: int|
                    0 <= i < s.drop_first().len() && #[trigger] s.drop_first()[i] == a
                        && s.drop_first()[i].id == id;
                assert(s[i + 1] == a);
            }
        }
    }
}

/// Find the first entry with `id` in a vector.
pub(crate) fn find_in_vec(v: &Vec<Attribute>, id: u128) -> (r: Option<Attribute>)
    ensures
        r == find_by_id(v@, id),
{
    let mut i: usize = 0;
    proof {
        assert(v@.skip(0) =~= v@);
    }
    while i < v.len()
        invariant
            0 <= i <= v.len(),
            find_by_id(v@, id) == find_by_id(v@.skip(i as int), id),
            forall|j: int| 0 <= j < i ==> #[trigger] v@[j].id != id,
        decreases v.len() - i,
    {
        if v[i].id == id {
            proof {
                assert(v@.skip(i as int).first() == v@[i as int]);
            }
            return Some(v[i].clone());
        }
        proof {
            assert(v@.skip(i as int).drop_first() =~= v@.skip(i as int + 1));
            assert(v@.skip(i as int).first() == v@[i as int]);
        }
        i = i + 1;
    }
    proof {
        assert(v@.skip(i as int).len() == 0);
    }
    None
}

/// How one modifier transforms the running accumulator, in milli-units.
pub open spec fn apply_modifier(acc: int, m: AttributeModifier) -> int {
    match m {
        AttributeModifier::Multiply(f) => fix_mul_milli(acc, f.as_int()),
        AttributeModifier::Add(d) => sat_add_milli(acc, d.as_int()),
        AttributeModifier::SetTo(s) => s.as_int(),
    }
}

/// The deterministic fold over an entry list, in milli-units: start at zero
/// and apply every modifier front to back.
pub open spec fn aggregate_entries(s: Seq<Attribute>) -> int
    decreases s.len(),
{
    if s.len() == 0 {
        0
    } else {
        apply_modifier(aggregate_entries(s.drop_last()), s.last().modifier)
    }
}

/// Fold a whole entry vector into one scalar.
fn aggregate_vec(v: &Vec<Attribute>) -> (r: StatValue)
    ensures
        r.as_int() == aggregate_entries(v@),
{
    let mut acc = StatValue::zero();
    let mut i: usize = 0;
    while i < v.len()
        invariant
            0 <= i <= v.len(),
            acc.as_int() == aggregate_entries(v@.take(i as int)),
        decreases v.len() - i,
    {
        proof {
            assert(v@.take(i as int + 1).drop_last() =~= v@.take(i as int));
            assert(v@.take(i as int + 1).last() == v@[i as int]);
        }
        acc = match v[i].modifier {
            AttributeModifier::Multiply(f) => acc.saturating_mul(f),
            AttributeModifier::Add(d) => acc.saturating_add(d),
            AttributeModifier::SetTo(s) => s,
        };
        i = i + 1;
    }
    proof {
        assert(v@.take(v@.len() as int) =~= v@);
    }
    acc
}

/// A per-kind table of priority-sorted attribute entry lists. This is the
/// working store behind both the aggregator and an item's stats.
#[derive(Debug)]
pub struct AttributeTable {
    pub sharpness: Vec<Attribute>,
    pub durability: Vec<Attribute>,
    pub weight: Vec<Attribute>,
    pub strength: Vec<Attribute>,
    pub agility: Vec<Attribute>,
    pub reach: Vec<Attribute>,
}

impl Clone for AttributeTable {
    fn clone(&self) -> (res: Self)
        ensures
            forall|at: AttributeType| #[trigger] res.entries(at) == self.entries(at),
            self.wf() ==> res.wf(),
    {
        let res = AttributeTable {
            sharpness: clone_attr_vec(&self.sharpness),
            durability: clone_attr_vec(&self.durability),
            weight: clone_attr_vec(&self.weight),
            strength: clone_attr_vec(&self.strength),
            agility: clone_attr_vec(&self.agility),
            reach: clone_attr_vec(&self.reach),
        };
        proof {
            assert forall|at: AttributeType| #[trigger] res.entries(at) == self.entries(at) by {}
            if self.wf() {
                assert forall|at: AttributeType|
                    sorted_by_priority(#[trigger] res.entries(at)) by {
                    assert(sorted_by_priority(self.entries(at)));
                }
            }
        }
        res
    }
}

/// Clone an attribute vector element by element.
pub(crate) fn clone_attr_vec(v: &Vec<Attribute>) -> (r: Vec<Attribute>)
    ensures
        r@ == v@,
{
    let mut out: Vec<Attribute> = Vec::new();
    let mut i: usize = 0;
    while i < v.len()
        invariant
            0 <= i <= v.len(),
            out@ =~= v@.take(i as int),
        decreases v.len() - i,
    {
        out.push(v[i].clone());
        i = i + 1;
    }
    proof {
        assert(out@ =~= v@);
    }
    out
}

impl AttributeTable {
    /// The entry list of one kind.
    pub open spec fn entries(self, at: AttributeType) -> Seq<Attribute> {
        match at {
            AttributeType::Sharpness => self.sharpness@,
            AttributeType::Durability => self.durability@,
            AttributeType::Weight => self.weight@,
            AttributeType::Strength => self.strength@,
            AttributeType::Agility => self.agility@,
            AttributeType::Reach => self.reach@,
        }
    }

    /// Well-formedness: every kind's entry list is sorted ascending by
    /// priority.
    pub open spec fn wf(self) -> bool {
        forall|at: AttributeType| sorted_by_priority(#[trigger] self.entries(at))
    }

    /// An empty table.
    pub fn new() -> (r: AttributeTable)
        ensures
            r.wf(),
            forall|at: AttributeType| (#[trigger] r.entries(at)).len() == 0,
    {
        AttributeTable {
            sharpness: Vec::new(),
            durability: Vec::new(),
            weight: Vec::new(),
            strength: Vec::new(),
            agility: Vec::new(),
            reach: Vec::new(),
        }
    }

    /// Borrow the entry list of one kind.
    pub fn bucket(&self, at: AttributeType) -> (r: &Vec<Attribute>)
        ensures
            r@ == self.entries(at),
    {
        match at {
            AttributeType::Sharpness => &self.sharpness,
            AttributeType::Durability => &self.durability,
            AttributeType::Weight => &self.weight,
            AttributeType::Strength => &self.strength,
            AttributeType::Agility => &self.agility,
            AttributeType::Reach => &self.reach,
        }
    }

    /// Insert an entry under `at` at its stable priority position: after
    /// every entry of priority `<= priority`, before the rest.
    pub fn push(&mut self, at: AttributeType, attribute: Attribute)
        requires
            old(self).wf(),
        ensures
            final(self).wf(),
            final(self).entries(at) == old(self).entries(at).insert(
                stable_insert_pos(old(self).entries(at), attribute.priority),
                attribute,
            ),
            forall|o: AttributeType|
                o != at ==> #[trigger] final(self).entries(o) == old(self).entries(o),
    {
        proof {
            assert(sorted_by_priority(old(self).entries(at)));
        }
        match at {
            AttributeType::Sharpness => sorted_insert(&mut self.sharpness, attribute),
            AttributeType::Durability => sorted_insert(&mut self.durability, attribute),
            AttributeType::Weight => sorted_insert(&mut self.weight, attribute),
            AttributeType::Strength => sorted_insert(&mut self.strength, attribute),
            AttributeType::Agility => sorted_insert(&mut self.agility, attribute),
            AttributeType::Reach => sorted_insert(&mut self.reach, attribute),
        }
        proof {
            assert forall|o: AttributeType|
                sorted_by_priority(#[trigger] self.entries(o)) by {
                assert(sorted_by_priority(old(self).entries(o)));
            }
        }
    }

    /// Replace the entry list of one kind wholesale (the caller proves it
    /// sorted).
    pub(crate) fn set_bucket(&mut self, at: AttributeType, v: Vec<Attribute>)
        requires
            old(self).wf(),
            sorted_by_priority(v@),
        ensures
            final(self).wf(),
            final(self).entries(at) == v@,
            forall|o: AttributeType|
                o != at ==> #[trigger] final(self).entries(o) == old(self).entries(o),
    {
        match at {
            AttributeType::Sharpness => self.sharpness = v,
            AttributeType::Durability => self.durability = v,
            AttributeType::Weight => self.weight = v,
            AttributeType::Strength => self.strength = v,
            AttributeType::Agility => self.agility = v,
            AttributeType::Reach => self.reach = v,
        }
        proof {
            assert forall|o: AttributeType|
                sorted_by_priority(#[trigger] self.entries(o)) by {
                assert(sorted_by_priority(old(self).entries(o)));
            }
        }
    }
}

/// Helper struct for aggregating attributes.
#[derive(Debug)]
pub struct AttributeParser {
    pub attributes: AttributeTable,
}

impl Clone for AttributeParser {
    fn clone(&self) -> (res: Self)
        ensures
            forall|at: AttributeType| #[trigger] res.entries(at) == self.entries(at),
            self.wf() ==> res.wf(),
    {
        AttributeParser { attributes: self.attributes.clone() }
    }
}

impl From<AttributeTable> for AttributeParser {
    fn from(attributes: AttributeTable) -> (r: Self) {
        AttributeParser { attributes }
    }
}

impl vstd::std_specs::convert::FromSpecImpl<AttributeTable> for AttributeParser {
    open spec fn obeys_from_spec() -> bool {
        true
    }

    open spec fn from_spec(attributes: AttributeTable) -> Self {
        AttributeParser { attributes }
    }
}

impl AttributeParser {
    /// The entry list of one kind.
    pub open spec fn entries(self, at: AttributeType) -> Seq<Attribute> {
        self.attributes.entries(at)
    }

    pub open spec fn wf(self) -> bool {
        self.attributes.wf()
    }

    /// An empty parser.
    pub fn new() -> (r: AttributeParser)
        ensures
            r.wf(),
            forall|at: AttributeType| (#[trigger] r.entries(at)).len() == 0,
    {
        AttributeParser { attributes: AttributeTable::new() }
    }

    /// Insert an entry at its stable priority position.
    pub fn push(&mut self, at: AttributeType, attribute: Attribute)
        requires
            old(self).wf(),
        ensures
            final(self).wf(),
            final(self).entries(at) == old(self).entries(at).insert(
                stable_insert_pos(old(self).entries(at), attribute.priority),
                attribute,
            ),
            forall|o: AttributeType|
                o != at ==> #[trigger] final(self).entries(o) == old(self).entries(o),
    {
        self.attributes.push(at, attribute);
    }

    /// Fold one kind's entries into a scalar: zero, then each modifier in
    /// priority order. An empty kind aggregates to zero.
    pub fn aggregate_to_value(&self, at: AttributeType) -> (r: StatValue)
        ensures
            r.as_int() == aggregate_entries(self.entries(at)),
            self.entries(at).len() == 0 ==> r.as_int() == 0,
    {
        aggregate_vec(self.attributes.bucket(at))
    }

    /// Aggregate every kind, in display order.
    pub fn aggregate_to_values(&self) -> (r: Vec<(AttributeType, StatValue)>)
        ensures
            r@.len() == all_kinds().len(),
            forall|i: int|
                0 <= i < r@.len() ==> (#[trigger] r@[i]).0 == all_kinds()[i] && r@[i].1.as_int()
                    == aggregate_entries(self.entries(all_kinds()[i])),
    {
        let kinds = all_attribute_types();
        let mut out: Vec<(AttributeType, StatValue)> = Vec::new();
        let mut i: usize = 0;
        while i < kinds.len()
            invariant
                0 <= i <= kinds.len(),
                kinds@ == all_kinds(),
                out@.len() == i,
                forall|j: int|
                    0 <= j < i ==> (#[trigger] out@[j]).0 == all_kinds()[j] && out@[j].1.as_int()
                        == aggregate_entries(self.entries(all_kinds()[j])),
            decreases kinds.len() - i,
        {
            let at = kinds[i];
            out.push((at, self.aggregate_to_value(at)));
            i = i + 1;
        }
        out
    }

    /// Collapse one kind into a single synthetic hidden `Set` entry carrying
    /// its aggregate.
    pub fn aggregate_to_fixed_attribute(&self, at: AttributeType) -> (r: Attribute)
        ensures
            r.reason is Hidden,
            r.priority == 0,
            r.modifier matches AttributeModifier::SetTo(v) && v.as_int() == aggregate_entries(
                self.entries(at),
            ),
    {
        Attribute::new(
            AttributeReason::Hidden,
            0,
            AttributeModifier::SetTo(self.aggregate_to_value(at)),
        )
    }

    /// Collapse every kind into its synthetic fixed entry, in display order.
    pub fn aggregate_to_fixed_attributes(&self) -> (r: Vec<(AttributeType, Attribute)>)
        ensures
            r@.len() == all_kinds().len(),
            forall|i: int|
                0 <= i < r@.len() ==> (#[trigger] r@[i]).0 == all_kinds()[i] && r@[i].1.reason
                    is Hidden && r@[i].1.priority == 0 && (r@[i].1.modifier
                    matches AttributeModifier::SetTo(v) && v.as_int() == aggregate_entries(
                    self.entries(all_kinds()[i]),
                )),
    {
        let kinds = all_attribute_types();
        let mut out: Vec<(AttributeType, Attribute)> = Vec::new();
        let mut i: usize = 0;
        while i < kinds.len()
            invariant
                0 <= i <= kinds.len(),
                kinds@ == all_kinds(),
                out@.len() == i,
                forall|j: int|
                    0 <= j < i ==> (#[trigger] out@[j]).0 == all_kinds()[j] && out@[j].1.reason
                        is Hidden && out@[j].1.priority == 0 && (out@[j].1.modifier
                        matches AttributeModifier::SetTo(v) && v.as_int() == aggregate_entries(
                        self.entries(all_kinds()[j]),
                    )),
            decreases kinds.len() - i,
        {
            let at = kinds[i];
            out.push((at, self.aggregate_to_fixed_attribute(at)));
            i = i + 1;
        }
        out
    }
}

/// `base` with every entry of `add` stable-inserted in turn: each lands after
/// the entries of priority `<=` its own that are already there.
pub open spec fn merge_entries(base: Seq<Attribute>, add: Seq<Attribute>) -> Seq<Attribute>
    decreases add.len(),
{
    if add.len() == 0 {
        base
    } else {
        let prev = merge_entries(base, add.drop_last());
        prev.insert(stable_insert_pos(prev, add.last().priority), add.last())
    }
}

/// Merging adds exactly the lengths.
pub proof fn lemma_merge_entries_len(base: Seq<Attribute>, add: Seq<Attribute>)
    ensures
        merge_entries(base, add).len() == base.len() + add.len(),
    decreases add.len(),
{
    if add.len() > 0 {
        lemma_merge_entries_len(base, add.drop_last());
        let prev = merge_entries(base, add.drop_last());
        lemma_insert_pos_bounds(prev, add.last().priority);
    }
}

impl AttributeTable {
    /// Stable-insert every entry of `entries`, in order, under `at`.
    pub fn push_all(&mut self, at: AttributeType, entries: &Vec<Attribute>)
        requires
            old(self).wf(),
        ensures
            final(self).wf(),
            final(self).entries(at) == merge_entries(old(self).entries(at), entries@),
            forall|o: AttributeType|
                o != at ==> #[trigger] final(self).entries(o) == old(self).entries(o),
    {
        let mut i: usize = 0;
        proof {
            assert(entries@.take(0) =~= Seq::<Attribute>::empty());
        }
        while i < entries.len()
            invariant
                0 <= i <= entries.len(),
                self.wf(),
                self.entries(at) == merge_entries(old(self).entries(at), entries@.take(i as int)),
                forall|o: AttributeType|
                    o != at ==> #[trigger] self.entries(o) == old(self).entries(o),
            decreases entries.len() - i,
        {
            proof {
                assert(entries@.take(i as int + 1).drop_last() =~= entries@.take(i as int));
                assert(entries@.take(i as int + 1).last() == entries@[i as int]);
            }
            self.push(at, entries[i].clone());
            i = i + 1;
        }
        proof {
            assert(entries@.take(entries@.len() as int) =~= entries@);
        }
    }
}

/// The amount an `Add` modifier contributes.
pub open spec fn add_amount(m: AttributeModifier) -> int {
    match m {
        AttributeModifier::Add(a) => a.as_int(),
        _ => 0,
    }
}

/// The fold continued from a given accumulator over further entries.
pub open spec fn fold_from(acc: int, s: Seq<Attribute>) -> int
    decreases s.len(),
{
    if s.len() == 0 {
        acc
    } else {
        apply_modifier(fold_from(acc, s.drop_last()), s.last().modifier)
    }
}

/// The aggregate splits at any index: fold the prefix, then continue over
/// the suffix.
pub proof fn lemma_fold_split(s: Seq<Attribute>, k: int)
    requires
        0 <= k <= s.len(),
    ensures
        aggregate_entries(s) == fold_from(aggregate_entries(s.take(k)), s.skip(k)),
    decreases s.len(),
{
    if k == s.len() {
        assert(s.take(k) =~= s);
        assert(s.skip(k).len() == 0);
    } else {
        lemma_fold_split(s.drop_last(), k);
        assert(s.drop_last().take(k) =~= s.take(k));
        assert(s.skip(k).drop_last() =~= s.drop_last().skip(k));
        assert(s.skip(k).last() == s.last());
    }
}

/// Law: two adjacent entries of equal priority whose modifiers are both
/// `Add` commute: swapping them leaves the aggregate unchanged, provided no
/// saturation occurs at the pair (each of the partial sums stays inside the
/// `i64` milli range). A `Set` in either place, or a pair of `Multiply`
/// entries (whose fixed-point truncation orders matter), has no such law.
pub proof fn lemma_swap_adjacent_adds(s: Seq<Attribute>, i: int)
    requires
        0 <= i,
        i + 1 < s.len(),
        s[i].priority == s[i + 1].priority,
        s[i].modifier is Add,
        s[i + 1].modifier is Add,
        i64::MIN <= aggregate_entries(s.take(i)) + add_amount(s[i].modifier) <= i64::MAX,
        i64::MIN <= aggregate_entries(s.take(i)) + add_amount(s[i + 1].modifier) <= i64::MAX,
        i64::MIN <= aggregate_entries(s.take(i)) + add_amount(s[i].modifier) + add_amount(
            s[i + 1].modifier,
        ) <= i64::MAX,
    ensures
        aggregate_entries(s.update(i, s[i + 1]).update(i + 1, s[i])) == aggregate_entries(s),
{
    let t = s.update(i, s[i + 1]).update(i + 1, s[i]);
    let p = aggregate_entries(s.take(i));
    assert(t.take(i) =~= s.take(i));

    // Both two-step folds reach p + a + b exactly.
    assert(s.take(i + 2).drop_last() =~= s.take(i + 1));
    assert(s.take(i + 1).drop_last() =~= s.take(i));
    assert(s.take(i + 2).last() == s[i + 1]);
    assert(s.take(i + 1).last() == s[i]);
    assert(t.take(i + 2).drop_last() =~= t.take(i + 1));
    assert(t.take(i + 1).drop_last() =~= t.take(i));
    assert(t.take(i + 2).last() == t[i + 1]);
    assert(t.take(i + 1).last() == t[i]);
    assert(t[i] == s[i + 1] && t[i + 1] == s[i]);
    let a = add_amount(s[i].modifier);
    let b = add_amount(s[i + 1].modifier);
    assert(aggregate_entries(s.take(i + 1)) == sat_add_milli(p, a));
    assert(sat_add_milli(p, a) == p + a);
    assert(aggregate_entries(s.take(i + 2)) == sat_add_milli(p + a, b));
    assert(aggregate_entries(s.take(i + 2)) == p + a + b);
    assert(aggregate_entries(t.take(i + 1)) == sat_add_milli(p, b));
    assert(sat_add_milli(p, b) == p + b);
    assert(aggregate_entries(t.take(i + 2)) == sat_add_milli(p + b, a));
    assert(aggregate_entries(t.take(i + 2)) == p + b + a);

    // The rest of the fold sees the same accumulator and the same suffix.
    assert(t.skip(i + 2) =~= s.skip(i + 2));
    lemma_fold_split(s, i + 2);
    lemma_fold_split(t, i + 2);
}

/// The first index of `s` whose entry carries `id`, or the length if none
/// does.
pub open spec fn first_id_index(s: Seq<Attribute>, id: u128) -> int
    decreases s.len(),
{
    if s.len() == 0 {
        0
    } else if s.first().id == id {
        0
    } else {
        1 + first_id_index(s.drop_first(), id)
    }
}

/// `first_id_index` really is the first match: everything before it carries
/// another identifier, and it is in range exactly when some entry matches.
pub proof fn lemma_first_id_index(s: Seq<Attribute>, id: u128)
    ensures
        0 <= first_id_index(s, id) <= s.len(),
        contains_id(s, id) <==> first_id_index(s, id) < s.len(),
        first_id_index(s, id) < s.len() ==> s[first_id_index(s, id)].id == id,
        forall|j: int| 0 <= j < first_id_index(s, id) ==> (#[trigger] s[j]).id != id,
    decreases s.len(),
{
    if s.len() > 0 {
        let t = s.drop_first();
        lemma_first_id_index(t, id);
        assert(s.first() == s[0]);
        if s.first().id == id {
            assert(s[0].id == id);
        } else {
            let idx = first_id_index(s, id);
            assert(idx == 1 + first_id_index(t, id));
            assert forall|j: int| 0 <= j < idx implies (#[trigger] s[j]).id != id by {
                if j > 0 {
                    assert(t[j - 1] == s[j]);
                }
            }
            if contains_id(s, id) {
                let i = choose|i: int| 0 <= i < s.len() && (#[trigger] s[i]).id == id;
                assert(i != 0);
                assert(t[i - 1] == s[i]);
                assert(contains_id(t, id));
            }
            if contains_id(t, id) {
                let i = choose|i: int| 0 <= i < t.len() && (#[trigger] t[i]).id == id;
                assert(s[i + 1] == t[i]);
                assert(contains_id(s, id));
            }
            if idx < s.len() {
                assert(t[idx - 1] == s[idx]);
            }
        }
    }
}

/// Find the index of the first entry carrying `id`, if any.
pub(crate) fn find_first_id(v: &Vec<Attribute>, id: u128) -> (r: Option<usize>)
    ensures
        r matches Some(i) ==> i as int == first_id_index(v@, id) && (i as int) < v@.len(),
        r is None ==> !contains_id(v@, id),
{
    proof {
        lemma_first_id_index(v@, id);
    }
    let mut i: usize = 0;
    while i < v.len()
        invariant
            0 <= i <= v.len(),
            forall|j: int| 0 <= j < i ==> (#[trigger] v@[j]).id != id,
        decreases v.len() - i,
    {
        if v[i].id == id {
            proof {
                // i is the first match, so it is the spec index.
                lemma_first_id_index(v@, id);
                let idx = first_id_index(v@, id);
                if idx < i as int {
                    assert(v@[idx].id == id);
                }
                if (i as int) < idx {
                    assert(v@[i as int].id != id);
                }
            }
            return Some(i);
        }
        i = i + 1;
    }
    proof {
        if contains_id(v@, id) {
            let k = choose|k: int| 0 <= k < v@.len() && (#[trigger] v@[k]).id == id;
            assert(v@[k].id != id);
        }
    }
    None
}

/// Replacing one entry with one of the same priority keeps the sort.
pub proof fn lemma_update_same_priority_sorted(s: Seq<Attribute>, i: int, a: Attribute)
    requires
        sorted_by_priority(s),
        0 <= i < s.len(),
        a.priority == s[i].priority,
    ensures
        sorted_by_priority(s.update(i, a)),
{
    let t = s.update(i, a);
    assert forall|p: int, q: int|
        0 <= p < q < t.len() implies #[trigger] t[p].priority <= #[trigger] t[q].priority by {
        assert(s[p].priority <= s[q].priority);
    }
}

impl AttributeTable {
    /// Overwrite the entry at index `i` under `at`, strictly in place.
    pub(crate) fn update_entry(&mut self, at: AttributeType, i: usize, a: Attribute)
        requires
            (i as int) < old(self).entries(at).len(),
        ensures
            final(self).entries(at) == old(self).entries(at).update(i as int, a),
            forall|o: AttributeType|
                o != at ==> #[trigger] final(self).entries(o) == old(self).entries(o),
    {
        match at {
            AttributeType::Sharpness => self.sharpness.set(i, a),
            AttributeType::Durability => self.durability.set(i, a),
            AttributeType::Weight => self.weight.set(i, a),
            AttributeType::Strength => self.strength.set(i, a),
            AttributeType::Agility => self.agility.set(i, a),
            AttributeType::Reach => self.reach.set(i, a),
        }
    }
}

/// The attribute kind a canonical kind name denotes, if any.
pub open spec fn kind_from_name(s: Seq<char>) -> Option<AttributeType> {
    if s == "Sharpness"@ {
        Some(AttributeType::Sharpness)
    } else if s == "Durability"@ {
        Some(AttributeType::Durability)
    } else if s == "Weight"@ {
        Some(AttributeType::Weight)
    } else if s == "Strength"@ {
        Some(AttributeType::Strength)
    } else if s == "Agility"@ {
        Some(AttributeType::Agility)
    } else if s == "Reach"@ {
        Some(AttributeType::Reach)
    } else {
        None
    }
}

/// Parse a canonical kind name, as template definitions spell them.
pub fn attribute_type_from_name(name: &str) -> (r: Option<AttributeType>)
    ensures
        r == kind_from_name(name@),
{
    let probe: String = name.to_owned();
    if probe == "Sharpness".to_owned() {
        Some(AttributeType::Sharpness)
    } else if probe == "Durability".to_owned() {
        Some(AttributeType::Durability)
    } else if probe == "Weight".to_owned() {
        Some(AttributeType::Weight)
    } else if probe == "Strength".to_owned() {
        Some(AttributeType::Strength)
    } else if probe == "Agility".to_owned() {
        Some(AttributeType::Agility)
    } else if probe == "Reach".to_owned() {
        Some(AttributeType::Reach)
    } else {
        None
    }
}

/// The value a `SetTo` modifier installs.
pub open spec fn set_amount(m: AttributeModifier) -> int {
    match m {
        AttributeModifier::SetTo(v) => v.as_int(),
        _ => 0,
    }
}

/// Law: an equal-priority `Set` mixed with an `Add` is order-sensitive. With
/// the pair closing the list, `Add` then `Set` lands on the set value, the
/// swapped order on the set value plus the addend — different results
/// whenever the addend is nonzero and the sum does not saturate.
pub proof fn lemma_set_add_order_sensitive(s: Seq<Attribute>, i: int)
    requires
        0 <= i,
        i + 2 == s.len(),
        s[i].priority == s[i + 1].priority,
        s[i].modifier is Add,
        s[i + 1].modifier is SetTo,
        add_amount(s[i].modifier) != 0,
        i64::MIN <= set_amount(s[i + 1].modifier) + add_amount(s[i].modifier) <= i64::MAX,
    ensures
        aggregate_entries(s) == set_amount(s[i + 1].modifier),
        aggregate_entries(s.update(i, s[i + 1]).update(i + 1, s[i])) == set_amount(
            s[i + 1].modifier,
        ) + add_amount(s[i].modifier),
        aggregate_entries(s.update(i, s[i + 1]).update(i + 1, s[i])) != aggregate_entries(s),
{
    let t = s.update(i, s[i + 1]).update(i + 1, s[i]);
    let sv = set_amount(s[i + 1].modifier);
    let a = add_amount(s[i].modifier);
    assert(s.take(i + 2) =~= s);
    assert(t.take(i + 2) =~= t);
    assert(s.drop_last() =~= s.take(i + 1));
    assert(s.take(i + 1).drop_last() =~= s.take(i));
    assert(s.take(i + 1).last() == s[i]);
    assert(s.last() == s[i + 1]);
    assert(t.drop_last() =~= t.take(i + 1));
    assert(t.take(i + 1).drop_last() =~= t.take(i));
    assert(t.take(i + 1).last() == t[i]);
    assert(t.last() == t[i + 1]);
    assert(t[i] == s[i + 1] && t[i + 1] == s[i]);
    assert(aggregate_entries(s) == sv);
    assert(aggregate_entries(t.take(i + 1)) == sv);
    assert(aggregate_entries(t) == sat_add_milli(sv, a));
    assert(sat_add_milli(sv, a) == sv + a);
}

} // verus!
