//! The per-item stats store: CRUD over priority-sorted attribute entries.
//!
//! A [`BasicStats`] owns one [`AttributeTable`]. Every insertion
//! re-establishes the per-kind priority sort (stable: ties keep insertion
//! order); lookups by identifier return the first match; removal retains all
//! but the matching identifier.

use vstd::prelude::*;

use crate::attribute::{
    contains_id, find_by_id, first_id_index, merge_entries, sorted_by_priority,
    stable_insert_pos, Attribute, AttributeTable, AttributeType,
};

verus! {

/// `s` with every entry carrying `id` removed, order otherwise kept.
pub open spec fn remove_id(s: Seq<Attribute>, id: u128) -> Seq<Attribute>
    decreases s.len(),
{
    if s.len() == 0 {
        Seq::empty()
    } else {
        let rest = remove_id(s.drop_last(), id);
        if s.last().id == id {
            rest
        } else {
            rest.push(s.last())
        }
    }
}

/// Every element of `remove_id(s, id)` is an element of `s`.
proof fn lemma_remove_id_members(s: Seq<Attribute>, id: u128)
    ensures
        forall|i: int|
            0 <= i < remove_id(s, id).len() ==> s.contains(#[trigger] remove_id(s, id)[i]),
    decreases s.len(),
{
    if s.len() > 0 {
        lemma_remove_id_members(s.drop_last(), id);
        let rest = remove_id(s.drop_last(), id);
        assert forall|i: int|
            0 <= i < remove_id(s, id).len() implies s.contains(
            #[trigger] remove_id(s, id)[i]) by {
            if i < rest.len() {
                assert(s.drop_last().contains(rest[i]));
                let j = choose|j: int|
                    0 <= j < s.drop_last().len() && s.drop_last()[j] == rest[i];
                assert(s[j] == rest[i]);
            } else {
                assert(remove_id(s, id)[i] == s.last());
                assert(s[s.len() - 1] == s.last());
            }
        }
    }
}

/// Removal keeps the priority sort.
pub proof fn lemma_remove_id_sorted(s: Seq<Attribute>, id: u128)
    requires
        sorted_by_priority(s),
    ensures
        sorted_by_priority(remove_id(s, id)),
    decreases s.len(),
{
    if s.len() > 0 {
        assert(sorted_by_priority(s.drop_last()));
        lemma_remove_id_sorted(s.drop_last(), id);
        lemma_remove_id_members(s.drop_last(), id);
        let rest = remove_id(s.drop_last(), id);
        if s.last().id != id {
            let out = rest.push(s.last());
            assert forall|i: int, j: int|
                0 <= i < j < out.len() implies #[trigger] out[i].priority
                <= #[trigger] out[j].priority by {
                if j < rest.len() {
                    assert(rest[i].priority <= rest[j].priority);
                } else {
                    assert(out[j] == s.last());
                    assert(s.drop_last().contains(rest[i]));
                    let k = choose|k: int|
                        0 <= k < s.drop_last().len() && s.drop_last()[k] == rest[i];
                    assert(s[k] == rest[i]);
                    assert(s[k].priority <= s[s.len() - 1].priority);
                }
            }
        }
    }
}

/// Nothing carrying `id` survives its removal.
pub proof fn lemma_remove_id_gone(s: Seq<Attribute>, id: u128)
    ensures
        !contains_id(remove_id(s, id), id),
    decreases s.len(),
{
    if s.len() > 0 {
        lemma_remove_id_gone(s.drop_last(), id);
        let rest = remove_id(s.drop_last(), id);
        if s.last().id != id {
            let out = rest.push(s.last());
            assert forall|i: int| 0 <= i < out.len() implies (#[trigger] out[i]).id != id by {
                if i < rest.len() {
                    assert(rest[i].id == out[i].id);
                    assert(!(rest[i].id == id));
                }
            }
        } else {
            assert forall|i: int|
                0 <= i < remove_id(s, id).len() implies (#[trigger] remove_id(s, id)[i]).id
                != id by {
                assert(!(rest[i].id == id));
            }
        }
    }
}

/// `find_by_id` returns the entry at the first matching index.
pub proof fn lemma_find_first(s: Seq<Attribute>, id: u128, k: int)
    requires
        0 <= k < s.len(),
        s[k].id == id,
        forall|j: int| 0 <= j < k ==> (#[trigger] s[j]).id != id,
    ensures
        find_by_id(s, id) == Some(s[k]),
    decreases k,
{
    if k == 0 {
        assert(s.first() == s[0]);
    } else {
        assert(s.first() == s[0]);
        assert(s[0].id != id);
        let t = s.drop_first();
        assert(t[k - 1] == s[k]);
        assert forall|j: int| 0 <= j < k - 1 implies (#[trigger] t[j]).id != id by {
            assert(t[j] == s[j + 1]);
        }
        lemma_find_first(t, id, k - 1);
    }
}

/// Law: pushing an entry whose identifier is fresh and then looking that
/// identifier up returns exactly the pushed entry.
pub proof fn lemma_push_then_get(s: Seq<Attribute>, a: Attribute)
    requires
        sorted_by_priority(s),
        !contains_id(s, a.id),
    ensures
        find_by_id(s.insert(stable_insert_pos(s, a.priority), a), a.id) == Some(a),
{
    crate::attribute::lemma_insert_pos_split(s, a.priority);
    let pos = stable_insert_pos(s, a.priority);
    let t = s.insert(pos, a);
    s.insert_ensures(pos, a);
    assert forall|j: int| 0 <= j < pos implies (#[trigger] t[j]).id != a.id by {
        assert(t[j] == s[j]);
        assert(!(s[j].id == a.id));
    }
    lemma_find_first(t, a.id, pos);
}

/// Law: after removing an identifier, looking it up fails.
pub proof fn lemma_remove_then_get(s: Seq<Attribute>, id: u128)
    ensures
        find_by_id(remove_id(s, id), id) is None,
{
    lemma_remove_id_gone(s, id);
    crate::attribute::lemma_find_by_id_contains(remove_id(s, id), id);
}

/// Remove every entry carrying `id` from a vector, keeping the rest in
/// order.
fn retain_without_id(v: &Vec<Attribute>, id: u128) -> (r: Vec<Attribute>)
    ensures
        r@ == remove_id(v@, id),
{
    let mut out: Vec<Attribute> = Vec::new();
    let mut i: usize = 0;
    proof {
        assert(v@.take(0) =~= Seq::<Attribute>::empty());
    }
    while i < v.len()
        invariant
            0 <= i <= v.len(),
            out@ == remove_id(v@.take(i as int), id),
        decreases v.len() - i,
    {
        proof {
            assert(v@.take(i as int + 1).drop_last() =~= v@.take(i as int));
            assert(v@.take(i as int + 1).last() == v@[i as int]);
        }
        if v[i].id != id {
            out.push(v[i].clone());
        }
        i = i + 1;
    }
    proof {
        assert(v@.take(v@.len() as int) =~= v@);
    }
    out
}

/// The fold that stable-inserts each entry of `s` in turn, starting from an
/// empty list.
pub open spec fn sorted_insert_all(s: Seq<Attribute>) -> Seq<Attribute>
    decreases s.len(),
{
    if s.len() == 0 {
        Seq::empty()
    } else {
        let prev = sorted_insert_all(s.drop_last());
        prev.insert(stable_insert_pos(prev, s.last().priority), s.last())
    }
}

/// The table after pushing each `(kind, entry)` pair of `pairs` in turn, seen
/// from kind `at`.
pub open spec fn pushed_entries(
    base: Seq<Attribute>,
    pairs: Seq<(AttributeType, Attribute)>,
    at: AttributeType,
) -> Seq<Attribute>
    decreases pairs.len(),
{
    if pairs.len() == 0 {
        base
    } else {
        let prev = pushed_entries(base, pairs.drop_last(), at);
        if pairs.last().0 == at {
            prev.insert(stable_insert_pos(prev, pairs.last().1.priority), pairs.last().1)
        } else {
            prev
        }
    }
}

/// A concrete stats store: one priority-sorted attribute table, owned by its
/// item.
#[derive(Debug)]
pub struct BasicStats {
    pub attributes: AttributeTable,
}

impl Clone for BasicStats {
    fn clone(&self) -> (res: Self)
        ensures
            forall|at: AttributeType| #[trigger] res.entries(at) == self.entries(at),
            self.wf() ==> res.wf(),
    {
        BasicStats { attributes: self.attributes.clone() }
    }
}

impl From<AttributeTable> for BasicStats {
    fn from(attributes: AttributeTable) -> (r: Self) {
        BasicStats { attributes }
    }
}

impl vstd::std_specs::convert::FromSpecImpl<AttributeTable> for BasicStats {
    open spec fn obeys_from_spec() -> bool {
        true
    }

    open spec fn from_spec(attributes: AttributeTable) -> Self {
        BasicStats { attributes }
    }
}

impl BasicStats {
    /// The entry list of one kind.
    pub open spec fn entries(self, at: AttributeType) -> Seq<Attribute> {
        self.attributes.entries(at)
    }

    pub open spec fn wf(self) -> bool {
        self.attributes.wf()
    }

    /// An empty store.
    pub fn new() -> (r: BasicStats)
        ensures
            r.wf(),
            forall|at: AttributeType| (#[trigger] r.entries(at)).len() == 0,
    {
        BasicStats { attributes: AttributeTable::new() }
    }

    /// Look one entry up by kind and identifier: the first entry under that
    /// kind carrying the identifier, or `None`.
    pub fn get_attribute(&self, at: AttributeType, id: u128) -> (r: Option<Attribute>)
        ensures
            r == find_by_id(self.entries(at), id),
    {
        crate::attribute::find_in_vec(self.attributes.bucket(at), id)
    }

    /// All entries of one kind, in priority order.
    pub fn get_attributes(&self, at: AttributeType) -> (r: Vec<Attribute>)
        ensures
            r@ == self.entries(at),
    {
        crate::attribute::clone_attr_vec(self.attributes.bucket(at))
    }

    /// A snapshot of the whole table.
    pub fn get_all_attributes(&self) -> (r: AttributeTable)
        ensures
            forall|at: AttributeType| #[trigger] r.entries(at) == self.entries(at),
            self.wf() ==> r.wf(),
    {
        self.attributes.clone()
    }

    /// Insert an entry at its stable priority position under `at`.
    pub fn push_attribute(&mut self, at: AttributeType, attribute: Attribute)
        requires
            old(self).wf(),
        ensures
            final(self).wf(),
            final(self).entries(at) == old(self).entries(at).insert(
                stable_insert_pos(old(self).entries(at), attribute.priority),
                attribute,
            ),
            forall|o: AttributeType|
                o != at ==> #[trigger] final(self).entries(o) == old(self).entries(o),
    {
        self.attributes.push(at, attribute);
    }

    /// Push each `(kind, entry)` pair in order.
    pub fn push_attributes(&mut self, pairs: Vec<(AttributeType, Attribute)>)
        requires
            old(self).wf(),
        ensures
            final(self).wf(),
            forall|at: AttributeType|
                #[trigger] final(self).entries(at) == pushed_entries(
                    old(self).entries(at),
                    pairs@,
                    at,
                ),
    {
        let mut i: usize = 0;
        proof {
            assert forall|at: AttributeType|
                #[trigger] self.entries(at) == pushed_entries(
                    old(self).entries(at),
                    pairs@.take(0),
                    at,
                ) by {
                assert(pairs@.take(0) =~= Seq::<(AttributeType, Attribute)>::empty());
            }
        }
        while i < pairs.len()
            invariant
                0 <= i <= pairs.len(),
                self.wf(),
                forall|at: AttributeType|
                    #[trigger] self.entries(at) == pushed_entries(
                        old(self).entries(at),
                        pairs@.take(i as int),
                        at,
                    ),
            decreases pairs.len() - i,
        {
            let ghost prev = *self;
            let at = pairs[i].0;
            let attribute = pairs[i].1.clone();
            proof {
                assert(pairs@[i as int] == (at, attribute));
            }
            self.attributes.push(at, attribute);
            proof {
                assert forall|o: AttributeType|
                    #[trigger] self.entries(o) == pushed_entries(
                        old(self).entries(o),
                        pairs@.take(i as int + 1),
                        o,
                    ) by {
                    assert(pairs@.take(i as int + 1).drop_last() =~= pairs@.take(i as int));
                    assert(pairs@.take(i as int + 1).last() == pairs@[i as int]);
                    assert(pairs@[i as int].0 == at && pairs@[i as int].1 == attribute);
                    assert(prev.entries(o) == pushed_entries(
                        old(self).entries(o),
                        pairs@.take(i as int),
                        o,
                    ));
                    if o != at {
                        assert(self.entries(o) == prev.entries(o));
                    } else {
                        assert(self.entries(at) == prev.entries(at).insert(
                            stable_insert_pos(prev.entries(at), attribute.priority),
                            attribute,
                        ));
                    }
                }
            }
            i = i + 1;
        }
        proof {
            assert(pairs@.take(pairs@.len() as int) =~= pairs@);
        }
    }

    /// Replace the first entry matching `id` under `at` strictly in place:
    /// the slot keeps its position, every other entry stays untouched. If no
    /// entry matches, nothing changes. A replacement whose priority differs
    /// from the replaced entry's can leave that kind's list out of priority
    /// order; with an equal priority the sort is kept.
    pub fn set_attribute(&mut self, at: AttributeType, id: u128, attribute: Attribute)
        requires
            old(self).wf(),
        ensures
            !contains_id(old(self).entries(at), id) ==> final(self).entries(at) == old(
                self,
            ).entries(at),
            contains_id(old(self).entries(at), id) ==> final(self).entries(at) == old(
                self,
            ).entries(at).update(first_id_index(old(self).entries(at), id), attribute),
            forall|o: AttributeType|
                o != at ==> #[trigger] final(self).entries(o) == old(self).entries(o),
            (contains_id(old(self).entries(at), id) ==> attribute.priority == old(self).entries(
                at,
            )[first_id_index(old(self).entries(at), id)].priority) ==> final(self).wf(),
    {
        let ghost s = self.entries(at);
        proof {
            crate::attribute::lemma_first_id_index(s, id);
        }
        match crate::attribute::find_first_id(self.attributes.bucket(at), id) {
            Some(i) => {
                let same_priority = self.attributes.bucket(at)[i].priority == attribute.priority;
                self.attributes.update_entry(at, i, attribute);
                proof {
                    if same_priority {
                        assert(sorted_by_priority(s));
                        crate::attribute::lemma_update_same_priority_sorted(
                            s,
                            i as int,
                            attribute,
                        );
                        assert forall|o: AttributeType|
                            sorted_by_priority(#[trigger] self.entries(o)) by {
                            assert(sorted_by_priority(old(self).entries(o)));
                        }
                    }
                }
            },
            None => {},
        }
    }

    /// Replace one kind's entries wholesale; the given entries are
    /// stable-sorted by priority on the way in.
    pub fn set_attributes(&mut self, at: AttributeType, attributes: Vec<Attribute>)
        requires
            old(self).wf(),
        ensures
            final(self).wf(),
            final(self).entries(at) == sorted_insert_all(attributes@),
            forall|o: AttributeType|
                o != at ==> #[trigger] final(self).entries(o) == old(self).entries(o),
    {
        let mut fresh: Vec<Attribute> = Vec::new();
        let mut i: usize = 0;
        proof {
            assert(attributes@.take(0) =~= Seq::<Attribute>::empty());
        }
        while i < attributes.len()
            invariant
                0 <= i <= attributes.len(),
                sorted_by_priority(fresh@),
                fresh@ == sorted_insert_all(attributes@.take(i as int)),
            decreases attributes.len() - i,
        {
            proof {
                assert(attributes@.take(i as int + 1).drop_last() =~= attributes@.take(i as int));
                assert(attributes@.take(i as int + 1).last() == attributes@[i as int]);
            }
            crate::attribute::sorted_insert(&mut fresh, attributes[i].clone());
            i = i + 1;
        }
        proof {
            assert(attributes@.take(attributes@.len() as int) =~= attributes@);
        }
        self.attributes.set_bucket(at, fresh);
    }

    /// Remove every entry carrying `id` under `at`.
    pub fn remove_attribute(&mut self, at: AttributeType, id: u128)
        requires
            old(self).wf(),
        ensures
            final(self).wf(),
            final(self).entries(at) == remove_id(old(self).entries(at), id),
            forall|o: AttributeType|
                o != at ==> #[trigger] final(self).entries(o) == old(self).entries(o),
    {
        proof {
            assert(sorted_by_priority(old(self).entries(at)));
            lemma_remove_id_sorted(old(self).entries(at), id);
        }
        let kept = retain_without_id(self.attributes.bucket(at), id);
        self.attributes.set_bucket(at, kept);
    }

    /// Drop every entry of one kind.
    pub fn remove_attributes(&mut self, at: AttributeType)
        requires
            old(self).wf(),
        ensures
            final(self).wf(),
            final(self).entries(at).len() == 0,
            forall|o: AttributeType|
                o != at ==> #[trigger] final(self).entries(o) == old(self).entries(o),
    {
        let fresh: Vec<Attribute> = Vec::new();
        self.attributes.set_bucket(at, fresh);
    }
}

/// A builder collecting attributes before freezing them into a
/// [`BasicStats`].
#[derive(Debug)]
pub struct BasicStatsBuilder {
    pub attributes: AttributeTable,
}

impl BasicStatsBuilder {
    pub open spec fn entries(self, at: AttributeType) -> Seq<Attribute> {
        self.attributes.entries(at)
    }

    pub open spec fn wf(self) -> bool {
        self.attributes.wf()
    }

    /// A builder holding nothing yet.
    pub fn new() -> (r: BasicStatsBuilder)
        ensures
            r.wf(),
            forall|at: AttributeType| (#[trigger] r.entries(at)).len() == 0,
    {
        BasicStatsBuilder { attributes: AttributeTable::new() }
    }

    /// Add one entry at its stable priority position.
    pub fn with_attribute(self, at: AttributeType, attribute: Attribute) -> (r:
        BasicStatsBuilder)
        requires
            self.wf(),
        ensures
            r.wf(),
            r.entries(at) == self.entries(at).insert(
                stable_insert_pos(self.entries(at), attribute.priority),
                attribute,
            ),
            forall|o: AttributeType| o != at ==> #[trigger] r.entries(o) == self.entries(o),
    {
        let mut me = self;
        me.attributes.push(at, attribute);
        me
    }

    /// Add a list of entries under one kind, in order.
    pub fn with_attribute_vec(self, at: AttributeType, attributes: Vec<Attribute>) -> (r:
        BasicStatsBuilder)
        requires
            self.wf(),
        ensures
            r.wf(),
            forall|o: AttributeType|
                #[trigger] r.entries(o) == pushed_entries(
                    self.entries(o),
                    attributes@.map_values(|a: Attribute| (at, a)),
                    o,
                ),
    {
        let mut me = self;
        let ghost pairs = attributes@.map_values(|a: Attribute| (at, a));
        let mut i: usize = 0;
        proof {
            assert forall|o: AttributeType|
                #[trigger] me.entries(o) == pushed_entries(self.entries(o), pairs.take(0), o) by {
                assert(pairs.take(0) =~= Seq::<(AttributeType, Attribute)>::empty());
            }
        }
        while i < attributes.len()
            invariant
                0 <= i <= attributes.len(),
                me.wf(),
                pairs == attributes@.map_values(|a: Attribute| (at, a)),
                pairs.len() == attributes@.len(),
                forall|o: AttributeType|
                    #[trigger] me.entries(o) == pushed_entries(
                        self.entries(o),
                        pairs.take(i as int),
                        o,
                    ),
            decreases attributes.len() - i,
        {
            let ghost prev = me;
            me.attributes.push(at, attributes[i].clone());
            proof {
                assert forall|o: AttributeType|
                    #[trigger] me.entries(o) == pushed_entries(
                        self.entries(o),
                        pairs.take(i as int + 1),
                        o,
                    ) by {
                    assert(pairs.take(i as int + 1).drop_last() =~= pairs.take(i as int));
                    assert(pairs.take(i as int + 1).last() == pairs[i as int]);
                    assert(pairs[i as int] == (at, attributes@[i as int]));
                    assert(prev.entries(o) == pushed_entries(
                        self.entries(o),
                        pairs.take(i as int),
                        o,
                    ));
                    if o != at {
                        assert(me.entries(o) == prev.entries(o));
                    } else {
                        assert(me.entries(at) == prev.entries(at).insert(
                            stable_insert_pos(prev.entries(at), attributes@[i as int].priority),
                            attributes@[i as int],
                        ));
                    }
                }
            }
            i = i + 1;
        }
        proof {
            assert(pairs.take(pairs.len() as int) =~= pairs);
        }
        me
    }

    /// Freeze the collected attributes into a stats store.
    pub fn build(self) -> (r: BasicStats)
        requires
            self.wf(),
        ensures
            r.wf(),
            forall|at: AttributeType| #[trigger] r.entries(at) == self.entries(at),
    {
        BasicStats { attributes: self.attributes }
    }
}

/// The table seen from kind `at` after merging each `(kind, entries)` pair
/// of `pairs` in turn.
pub open spec fn vec_pairs_pushed(
    base: Seq<Attribute>,
    pairs: Seq<(AttributeType, Vec<Attribute>)>,
    at: AttributeType,
) -> Seq<Attribute>
    decreases pairs.len(),
{
    if pairs.len() == 0 {
        base
    } else {
        let prev = vec_pairs_pushed(base, pairs.drop_last(), at);
        if pairs.last().0 == at {
            merge_entries(prev, pairs.last().1@)
        } else {
            prev
        }
    }
}

impl BasicStatsBuilder {
    /// Add whole entry lists per kind, each merged in order.
    pub fn with_attribute_vecs(self, attributes: Vec<(AttributeType, Vec<Attribute>)>) -> (r:
        BasicStatsBuilder)
        requires
            self.wf(),
        ensures
            r.wf(),
            forall|o: AttributeType|
                #[trigger] r.entries(o) == vec_pairs_pushed(self.entries(o), attributes@, o),
    {
        let mut me = self;
        let mut i: usize = 0;
        proof {
            assert forall|o: AttributeType|
                #[trigger] me.entries(o) == vec_pairs_pushed(
                    self.entries(o),
                    attributes@.take(0),
                    o,
                ) by {
                assert(attributes@.take(0) =~= Seq::<(AttributeType, Vec<Attribute>)>::empty());
            }
        }
        while i < attributes.len()
            invariant
                0 <= i <= attributes.len(),
                me.wf(),
                forall|o: AttributeType|
                    #[trigger] me.entries(o) == vec_pairs_pushed(
                        self.entries(o),
                        attributes@.take(i as int),
                        o,
                    ),
            decreases attributes.len() - i,
        {
            let ghost prev = me;
            me.attributes.push_all(attributes[i].0, &attributes[i].1);
            proof {
                assert forall|o: AttributeType|
                    #[trigger] me.entries(o) == vec_pairs_pushed(
                        self.entries(o),
                        attributes@.take(i as int + 1),
                        o,
                    ) by {
                    assert(attributes@.take(i as int + 1).drop_last() =~= attributes@.take(
                        i as int,
                    ));
                    assert(attributes@.take(i as int + 1).last() == attributes@[i as int]);
                    assert(prev.entries(o) == vec_pairs_pushed(
                        self.entries(o),
                        attributes@.take(i as int),
                        o,
                    ));
                    if o != attributes@[i as int].0 {
                        assert(me.entries(o) == prev.entries(o));
                    } else {
                        assert(me.entries(o) == merge_entries(
                            prev.entries(o),
                            attributes@[i as int].1@,
                        ));
                    }
                }
            }
            i = i + 1;
        }
        proof {
            assert(attributes@.take(attributes@.len() as int) =~= attributes@);
        }
        me
    }
}

} // verus!
