//! The item registry: a name-keyed catalog of item prototypes.
//!
//! Keys are unique; registering an existing name overwrites its entry
//! (last write wins). The registry is viewed as a map from identifier
//! strings to items.

use vstd::prelude::*;
use vstd::map::*;

use crate::item::Item;

verus! {

/// The map an entry list denotes: later entries overwrite earlier ones.
pub open spec fn entries_as_map(s: Seq<(String, Item)>) -> Map<Seq<char>, Item>
    decreases s.len(),
{
    if s.len() == 0 {
        Map::empty()
    } else {
        entries_as_map(s.drop_last()).insert(s.last().0@, s.last().1)
    }
}

/// Keys pairwise distinct.
pub open spec fn unique_keys(s: Seq<(String, Item)>) -> bool {
    forall|i: int, j: int| 0 <= i < j < s.len() ==> (#[trigger] s[i]).0@ != (#[trigger] s[j]).0@
}

/// Every key in the map is the key of some entry, and every entry's key maps
/// to some value.
proof fn lemma_as_map_domain(s: Seq<(String, Item)>)
    ensures
        forall|k: Seq<char>|
            #[trigger] entries_as_map(s).contains_key(k) <==> exists|i: int|
                0 <= i < s.len() && (#[trigger] s[i]).0@ == k,
    decreases s.len(),
{
    if s.len() > 0 {
        lemma_as_map_domain(s.drop_last());
        assert forall|k: Seq<char>| #[trigger]
            entries_as_map(s).contains_key(k) implies exists|i: int|
            0 <= i < s.len() && (#[trigger] s[i]).0@ == k by {
            if k == s.last().0@ {
                assert(s[s.len() - 1].0@ == k);
            } else {
                assert(entries_as_map(s.drop_last()).contains_key(k));
                let i = choose|i: int|
                    0 <= i < s.drop_last().len() && (#[trigger] s.drop_last()[i]).0@ == k;
                assert(s.drop_last()[i] == s[i]);
                assert(s[i].0@ == k);
            }
        }
        assert forall|k: Seq<char>|
            (exists|i: int| 0 <= i < s.len() && (#[trigger] s[i]).0@ == k) implies #[trigger]
            entries_as_map(s).contains_key(k) by {
            let i = choose|i: int| 0 <= i < s.len() && (#[trigger] s[i]).0@ == k;
            if i < s.len() - 1 {
                assert(s.drop_last()[i].0@ == k);
                assert(entries_as_map(s.drop_last()).contains_key(k));
            }
        }
    }
}

/// With unique keys, the entry at any index gives the map's value for its
/// key.
proof fn lemma_as_map_index(s: Seq<(String, Item)>, i: int)
    requires
        unique_keys(s),
        0 <= i < s.len(),
    ensures
        entries_as_map(s).contains_key(s[i].0@),
        entries_as_map(s)[s[i].0@] == s[i].1,
    decreases s.len(),
{
    if i == s.len() - 1 {
        assert(s[i] == s.last());
    } else {
        assert(unique_keys(s.drop_last()));
        assert(s.drop_last()[i] == s[i]);
        lemma_as_map_index(s.drop_last(), i);
        assert(s[i].0@ != s[s.len() - 1].0@);
    }
}

/// Updating the entry that holds a key rewrites exactly that key's value.
proof fn lemma_as_map_update(s: Seq<(String, Item)>, i: int, pair: (String, Item))
    requires
        unique_keys(s),
        0 <= i < s.len(),
        pair.0@ == s[i].0@,
    ensures
        entries_as_map(s.update(i, pair)) =~= entries_as_map(s).insert(pair.0@, pair.1),
        unique_keys(s.update(i, pair)),
    decreases s.len(),
{
    let t = s.update(i, pair);
    assert forall|a: int, b: int|
        0 <= a < b < t.len() implies (#[trigger] t[a]).0@ != (#[trigger] t[b]).0@ by {
        assert(s[a].0@ != s[b].0@);
    }
    if i == s.len() - 1 {
        assert(t.drop_last() =~= s.drop_last());
        assert(t.last() == pair);
        assert(entries_as_map(s.drop_last()).insert(s.last().0@, s.last().1).insert(
            pair.0@,
            pair.1,
        ) =~= entries_as_map(s.drop_last()).insert(pair.0@, pair.1));
    } else {
        assert(t.drop_last() =~= s.drop_last().update(i, pair));
        assert(s.drop_last()[i] == s[i]);
        assert(unique_keys(s.drop_last()));
        lemma_as_map_update(s.drop_last(), i, pair);
        assert(t.last() == s.last());
        assert(pair.0@ != s.last().0@);
        assert(entries_as_map(s.drop_last()).insert(pair.0@, pair.1).insert(
            s.last().0@,
            s.last().1,
        ) =~= entries_as_map(s.drop_last()).insert(s.last().0@, s.last().1).insert(
            pair.0@,
            pair.1,
        ));
    }
}

/// Removing the entry that holds a key removes exactly that key.
proof fn lemma_as_map_remove(s: Seq<(String, Item)>, i: int)
    requires
        unique_keys(s),
        0 <= i < s.len(),
    ensures
        entries_as_map(s.remove(i)) =~= entries_as_map(s).remove(s[i].0@),
        unique_keys(s.remove(i)),
    decreases s.len(),
{
    let t = s.remove(i);
    s.remove_ensures(i);
    assert forall|a: int, b: int|
        0 <= a < b < t.len() implies (#[trigger] t[a]).0@ != (#[trigger] t[b]).0@ by {
        let sa: int = if a < i {
            a
        } else {
            a + 1
        };
        let sb: int = if b < i {
            b
        } else {
            b + 1
        };
        assert(t[a] == s[sa] && t[b] == s[sb]);
        assert(s[sa].0@ != s[sb].0@);
    }
    if i == s.len() - 1 {
        assert(t =~= s.drop_last());
        lemma_as_map_domain(s.drop_last());
        if entries_as_map(s.drop_last()).contains_key(s[i].0@) {
            let j = choose|j: int|
                0 <= j < s.drop_last().len() && (#[trigger] s.drop_last()[j]).0@ == s[i].0@;
            assert(s[j].0@ == s[i].0@);
        }
        assert(entries_as_map(s.drop_last()) =~= entries_as_map(s.drop_last()).insert(
            s.last().0@,
            s.last().1,
        ).remove(s.last().0@));
    } else {
        assert(t.drop_last() =~= s.drop_last().remove(i));
        assert(s.drop_last()[i] == s[i]);
        assert(unique_keys(s.drop_last()));
        lemma_as_map_remove(s.drop_last(), i);
        assert(t.last() == s.last());
        assert(s[i].0@ != s.last().0@);
        assert(entries_as_map(s.drop_last()).remove(s[i].0@).insert(s.last().0@, s.last().1)
            =~= entries_as_map(s.drop_last()).insert(s.last().0@, s.last().1).remove(s[i].0@));
    }
}

/// A name-keyed catalog of items, last write wins.
#[derive(Debug)]
pub struct ItemRegistry {
    pub items: Vec<(String, Item)>,
}

impl ItemRegistry {
    /// The catalog as a map from identifier to item.
    pub open spec fn as_map(self) -> Map<Seq<char>, Item> {
        entries_as_map(self.items@)
    }

    /// Well-formed: no identifier appears twice.
    pub open spec fn wf(self) -> bool {
        unique_keys(self.items@)
    }

    /// An empty registry.
    pub fn new() -> (r: ItemRegistry)
        ensures
            r.wf(),
            r.as_map() =~= Map::<Seq<char>, Item>::empty(),
    {
        ItemRegistry { items: Vec::new() }
    }

    /// Where `ident` sits in the entry list, if anywhere.
    fn position_of(&self, ident: &str) -> (r: Option<usize>)
        ensures
            r matches Some(i) ==> (i as int) < self.items@.len() && self.items@[i as int].0@
                == ident@,
            r is None ==> forall|i: int|
                0 <= i < self.items@.len() ==> (#[trigger] self.items@[i]).0@ != ident@,
    {
        let probe: String = ident.to_owned();
        let mut i: usize = 0;
        while i < self.items.len()
            invariant
                0 <= i <= self.items@.len(),
                probe@ == ident@,
                forall|j: int| 0 <= j < i ==> (#[trigger] self.items@[j]).0@ != ident@,
            decreases self.items@.len() - i,
        {
            if self.items[i].0 == probe {
                return Some(i);
            }
            i = i + 1;
        }
        None
    }

    /// Insert or overwrite the item registered under `ident`.
    pub fn register(&mut self, ident: String, item: Item)
        requires
            old(self).wf(),
        ensures
            final(self).wf(),
            final(self).as_map() =~= old(self).as_map().insert(ident@, item),
    {
        match self.position_of(ident.as_str()) {
            Some(i) => {
                proof {
                    lemma_as_map_update(self.items@, i as int, (ident, item));
                }
                self.items.set(i, (ident, item));
            },
            None => {
                proof {
                    assert forall|a: int, b: int|
                        0 <= a < b < self.items@.len() + 1 implies (#[trigger] self.items@.push(
                        (ident, item),
                    )[a]).0@ != (#[trigger] self.items@.push((ident, item))[b]).0@ by {
                        if b < self.items@.len() {
                            assert(self.items@[a].0@ != self.items@[b].0@);
                        } else {
                            assert(self.items@.push((ident, item))[b] == (ident, item));
                            assert(self.items@[a].0@ != ident@);
                        }
                    }
                }
                self.items.push((ident, item));
                proof {
                    assert(self.items@.drop_last() =~= old(self).items@);
                }
            },
        }
    }

    /// Look an item up by identifier.
    pub fn get(&self, ident: &str) -> (r: Option<&Item>)
        requires
            self.wf(),
        ensures
            r is Some <==> self.as_map().contains_key(ident@),
            r matches Some(it) ==> *it == self.as_map()[ident@],
    {
        proof {
            lemma_as_map_domain(self.items@);
        }
        match self.position_of(ident) {
            Some(i) => {
                proof {
                    lemma_as_map_index(self.items@, i as int);
                }
                Some(&self.items[i].1)
            },
            None => {
                proof {
                    if self.as_map().contains_key(ident@) {
                        let i = choose|i: int|
                            0 <= i < self.items@.len() && (#[trigger] self.items@[i]).0@ == ident@;
                        assert(self.items@[i].0@ == ident@);
                    }
                }
                None
            },
        }
    }

    /// Remove and return the item registered under `ident`.
    pub fn remove(&mut self, ident: &str) -> (r: Option<Item>)
        requires
            old(self).wf(),
        ensures
            final(self).wf(),
            r is Some <==> old(self).as_map().contains_key(ident@),
            r matches Some(it) ==> it == old(self).as_map()[ident@],
            final(self).as_map() =~= old(self).as_map().remove(ident@),
    {
        proof {
            lemma_as_map_domain(self.items@);
        }
        match self.position_of(ident) {
            Some(i) => {
                proof {
                    lemma_as_map_index(self.items@, i as int);
                    lemma_as_map_remove(self.items@, i as int);
                }
                let pair = self.items.remove(i);
                Some(pair.1)
            },
            None => {
                proof {
                    if self.as_map().contains_key(ident@) {
                        let i = choose|i: int|
                            0 <= i < self.items@.len() && (#[trigger] self.items@[i]).0@ == ident@;
                        assert(self.items@[i].0@ == ident@);
                    }
                    assert(self.as_map() =~= self.as_map().remove(ident@));
                }
                None
            },
        }
    }

    /// Whether an item is registered under `ident`.
    pub fn contains(&self, ident: &str) -> (r: bool)
        requires
            self.wf(),
        ensures
            r == self.as_map().contains_key(ident@),
    {
        proof {
            lemma_as_map_domain(self.items@);
        }
        match self.position_of(ident) {
            Some(_) => true,
            None => {
                proof {
                    if self.as_map().contains_key(ident@) {
                        let i = choose|i: int|
                            0 <= i < self.items@.len() && (#[trigger] self.items@[i]).0@ == ident@;
                        assert(self.items@[i].0@ == ident@);
                    }
                }
                false
            },
        }
    }

    /// How many items are registered.
    pub fn len(&self) -> (r: usize)
        ensures
            r == self.items@.len(),
    {
        self.items.len()
    }

    pub fn is_empty(&self) -> (r: bool)
        ensures
            r == (self.items@.len() == 0),
    {
        self.items.is_empty()
    }

    /// Drop every entry.
    pub fn clear(&mut self)
        ensures
            final(self).wf(),
            final(self).as_map() =~= Map::<Seq<char>, Item>::empty(),
    {
        self.items.clear();
    }

    /// Every registered identifier, in registration order.
    pub fn keys(&self) -> (r: Vec<String>)
        ensures
            r@.len() == self.items@.len(),
            forall|i: int| 0 <= i < r@.len() ==> #[trigger] r@[i] == self.items@[i].0,
    {
        let mut out: Vec<String> = Vec::new();
        let mut i: usize = 0;
        while i < self.items.len()
            invariant
                0 <= i <= self.items@.len(),
                out@.len() == i,
                forall|j: int| 0 <= j < i ==> #[trigger] out@[j] == self.items@[j].0,
            decreases self.items@.len() - i,
        {
            out.push(self.items[i].0.clone());
            i = i + 1;
        }
        out
    }

    /// Every registered item, in registration order.
    pub fn values(&self) -> (r: Vec<Item>)
        ensures
            r@.len() == self.items@.len(),
            forall|i: int|
                0 <= i < r@.len() ==> crate::item::same_item(#[trigger] r@[i], self.items@[i].1),
    {
        let mut out: Vec<Item> = Vec::new();
        let mut i: usize = 0;
        while i < self.items.len()
            invariant
                0 <= i <= self.items@.len(),
                out@.len() == i,
                forall|j: int|
                    0 <= j < i ==> crate::item::same_item(#[trigger] out@[j], self.items@[j].1),
            decreases self.items@.len() - i,
        {
            out.push(self.items[i].1.clone());
            i = i + 1;
        }
        out
    }

    /// Borrow the backing entry list.
    pub fn entries(&self) -> (r: &Vec<(String, Item)>)
        ensures
            r == &self.items,
    {
        &self.items
    }
}

} // verus!
