//! The item template engine: declarative composite-item definitions.
//!
//! An [`ItemTemplate`] is loaded once from a parsed definition document: a
//! base attribute table, a mask color per component name, and a fallback item
//! name per component. Populating it with named component items yields a
//! [`TemplateItem`]: its attribute table is the template's base table with
//! every component's full entry set merged in (stable priority order), once,
//! eagerly, at the moment the component is added.

use vstd::prelude::*;

use crate::attribute::{
    merge_entries, Attribute, AttributeReason, AttributeModifier, AttributeTable, AttributeType,
};
use crate::item::Item;
use crate::raster::{
    composite_pixel, transparent_pixel, Mask, MaskedImage, RasterImage, Rgba8,
    TemplateComponentRenderer, TextureCompositeError,
};

verus! {

/// Why a template definition could not be loaded.
#[derive(PartialEq, Eq, Structural, Clone, Copy, Debug)]
pub enum TemplateLoadError {
    /// The definition document is missing.
    MissingDefinition,
    /// The definition document does not parse.
    MalformedDefinition,
}

/// The declared per-kind merge strategy of a template definition. The field
/// is parsed and carried, but merging always concatenates entry lists; the
/// aggregator's own fold gives the combined value.
#[derive(PartialEq, Eq, Structural, Clone, Copy, Debug)]
pub enum AttributeStrategy {
    /// Sum the attributes of each of the components.
    Sum,
    /// Take the mean of the attributes of each of the components.
    Average,
    /// Hand the component attributes to a custom handler.
    Manual,
}

/// One attribute entry of a template definition.
#[derive(Debug)]
pub struct TemplateAttributeData {
    pub id: u128,
    pub priority: u8,
    pub reason: AttributeReason,
    pub modifier: AttributeModifier,
}

impl Clone for TemplateAttributeData {
    fn clone(&self) -> (res: Self)
        ensures
            res == self,
    {
        TemplateAttributeData {
            id: self.id,
            priority: self.priority,
            reason: self.reason.clone(),
            modifier: self.modifier,
        }
    }
}

/// The attribute entries one kind declares in a template definition.
#[derive(Debug)]
pub struct TemplateKindData {
    pub kind: AttributeType,
    pub strategy: AttributeStrategy,
    pub attributes: Vec<TemplateAttributeData>,
}

/// A parsed template definition document: the raw material of
/// [`load_template`]. Decoding the document's file format is the caller's
/// business; this is the structure the engine consumes.
#[derive(Debug)]
pub struct ItemTemplateData {
    pub data_name: String,
    pub attribute: Vec<TemplateKindData>,
    pub components: Vec<(String, Rgba8)>,
    pub fallback: Vec<(String, String)>,
}

/// The attribute entry a template definition line denotes.
pub open spec fn attr_of(t: TemplateAttributeData) -> Attribute {
    Attribute { id: t.id, reason: t.reason, priority: t.priority, modifier: t.modifier }
}

/// The entry list a loaded template holds for kind `at`: every definition
/// line of that kind, stable-inserted in document order.
pub open spec fn loaded_entries(ks: Seq<TemplateKindData>, at: AttributeType) -> Seq<Attribute>
    decreases ks.len(),
{
    if ks.len() == 0 {
        Seq::empty()
    } else {
        let prev = loaded_entries(ks.drop_last(), at);
        if ks.last().kind == at {
            merge_entries(prev, ks.last().attributes@.map_values(|t: TemplateAttributeData| attr_of(t)))
        } else {
            prev
        }
    }
}

/// The path of one component's source image inside a template folder:
/// `{folder}/{component}:{item}.png`.
pub open spec fn component_image_path(
    folder: Seq<char>,
    component: Seq<char>,
    item: Seq<char>,
) -> Seq<char> {
    folder + "/"@ + component + ":"@ + item + ".png"@
}

/// Build one component image path.
pub fn component_image_path_of(folder: &str, component: &str, item: &str) -> (r: String)
    ensures
        r@ == component_image_path(folder@, component@, item@),
{
    let mut p: String = folder.to_owned();
    p.append("/");
    p.append(component);
    p.append(":");
    p.append(item);
    p.append(".png");
    p
}

/// A loaded template: the asset folder it draws images from, its name, its
/// base attribute table, the mask color of each component, and the fallback
/// image path of each component.
#[derive(Debug)]
pub struct ItemTemplate {
    pub folder: String,
    pub data_name: String,
    pub attribute: AttributeTable,
    pub components: Vec<(String, Rgba8)>,
    pub fallback: Vec<(String, String)>,
}

/// Clone a vector of name/color pairs element by element.
fn clone_color_pairs(v: &Vec<(String, Rgba8)>) -> (r: Vec<(String, Rgba8)>)
    ensures
        r@ == v@,
{
    let mut out: Vec<(String, Rgba8)> = Vec::new();
    let mut i: usize = 0;
    while i < v.len()
        invariant
            0 <= i <= v.len(),
            out@ =~= v@.take(i as int),
        decreases v.len() - i,
    {
        out.push((v[i].0.clone(), v[i].1));
        proof {
            assert(out@.last() == v@[i as int]);
        }
        i = i + 1;
    }
    proof {
        assert(out@ =~= v@);
    }
    out
}

/// Clone a vector of string pairs element by element.
pub(crate) fn clone_string_pairs(v: &Vec<(String, String)>) -> (r: Vec<(String, String)>)
    ensures
        r@ == v@,
{
    let mut out: Vec<(String, String)> = Vec::new();
    let mut i: usize = 0;
    while i < v.len()
        invariant
            0 <= i <= v.len(),
            out@ =~= v@.take(i as int),
        decreases v.len() - i,
    {
        out.push((v[i].0.clone(), v[i].1.clone()));
        proof {
            assert(out@.last() == v@[i as int]);
        }
        i = i + 1;
    }
    proof {
        assert(out@ =~= v@);
    }
    out
}

/// Clone a vector of strings element by element.
pub(crate) fn clone_strings(v: &Vec<String>) -> (r: Vec<String>)
    ensures
        r@ == v@,
{
    let mut out: Vec<String> = Vec::new();
    let mut i: usize = 0;
    while i < v.len()
        invariant
            0 <= i <= v.len(),
            out@ =~= v@.take(i as int),
        decreases v.len() - i,
    {
        out.push(v[i].clone());
        i = i + 1;
    }
    proof {
        assert(out@ =~= v@);
    }
    out
}

/// Two templates carry the same data.
pub open spec fn same_template(a: ItemTemplate, b: ItemTemplate) -> bool {
    &&& a.folder == b.folder
    &&& a.data_name == b.data_name
    &&& forall|at: AttributeType| #[trigger] a.attribute.entries(at) == b.attribute.entries(at)
    &&& a.components@ == b.components@
    &&& a.fallback@ == b.fallback@
}

impl Clone for ItemTemplate {
    fn clone(&self) -> (res: Self)
        ensures
            same_template(res, *self),
            self.attribute.wf() ==> res.attribute.wf(),
    {
        ItemTemplate {
            folder: self.folder.clone(),
            data_name: self.data_name.clone(),
            attribute: self.attribute.clone(),
            components: clone_color_pairs(&self.components),
            fallback: clone_string_pairs(&self.fallback),
        }
    }
}

/// The mask color a template assigns to `name`, if any: the first matching
/// pair wins.
pub open spec fn color_lookup(s: Seq<(String, Rgba8)>, name: Seq<char>) -> Option<Rgba8>
    decreases s.len(),
{
    if s.len() == 0 {
        None
    } else if s.first().0@ == name {
        Some(s.first().1)
    } else {
        color_lookup(s.drop_first(), name)
    }
}

impl ItemTemplate {
    pub open spec fn wf(self) -> bool {
        self.attribute.wf()
    }

    /// The mask color of one component.
    pub fn mask_color_of(&self, component: &String) -> (r: Option<Rgba8>)
        ensures
            r == color_lookup(self.components@, component@),
    {
        let mut i: usize = 0;
        proof {
            assert(self.components@.skip(0) =~= self.components@);
        }
        while i < self.components.len()
            invariant
                0 <= i <= self.components.len(),
                color_lookup(self.components@, component@) == color_lookup(
                    self.components@.skip(i as int),
                    component@,
                ),
            decreases self.components.len() - i,
        {
            proof {
                assert(self.components@.skip(i as int).first() == self.components@[i as int]);
                assert(self.components@.skip(i as int).drop_first() =~= self.components@.skip(
                    i as int + 1,
                ));
            }
            if self.components[i].0 == *component {
                return Some(self.components[i].1);
            }
            i = i + 1;
        }
        None
    }

    /// Load a template from its parsed definition: compute the asset folder,
    /// stable-sort the declared base attributes per kind, and precompute each
    /// component's fallback image path.
    pub fn load_template(name: &str, data: ItemTemplateData) -> (r: ItemTemplate)
        ensures
            r.wf(),
            r.data_name == data.data_name,
            r.folder@ == "res://assets/item/"@ + "/"@ + name@,
            forall|at: AttributeType|
                #[trigger] r.attribute.entries(at) == loaded_entries(data.attribute@, at),
            r.components@ == data.components@,
            r.fallback@.len() == data.fallback@.len(),
            forall|i: int|
                0 <= i < data.fallback@.len() ==> (#[trigger] r.fallback@[i]).0
                    == data.fallback@[i].0 && r.fallback@[i].1@ == component_image_path(
                    r.folder@,
                    data.fallback@[i].0@,
                    data.fallback@[i].1@,
                ),
    {
        let mut folder: String = "res://assets/item/".to_owned();
        folder.append("/");
        folder.append(name);

        let mut attribute = AttributeTable::new();
        proof {
            assert forall|at: AttributeType|
                #[trigger] attribute.entries(at) == loaded_entries(
                    data.attribute@.take(0),
                    at,
                ) by {
                assert(data.attribute@.take(0) =~= Seq::<TemplateKindData>::empty());
            }
        }
        let mut i: usize = 0;
        while i < data.attribute.len()
            invariant
                0 <= i <= data.attribute.len(),
                attribute.wf(),
                forall|at: AttributeType|
                    #[trigger] attribute.entries(at) == loaded_entries(
                        data.attribute@.take(i as int),
                        at,
                    ),
            decreases data.attribute.len() - i,
        {
            let kd = &data.attribute[i];
            let ghost table_before = attribute;
            let mut conv: Vec<Attribute> = Vec::new();
            let mut j: usize = 0;
            while j < kd.attributes.len()
                invariant
                    0 <= j <= kd.attributes.len(),
                    conv@.len() == j,
                    forall|k: int| 0 <= k < j ==> #[trigger] conv@[k] == attr_of(kd.attributes@[k]),
                decreases kd.attributes.len() - j,
            {
                let t = &kd.attributes[j];
                conv.push(
                    Attribute {
                        id: t.id,
                        reason: t.reason.clone(),
                        priority: t.priority,
                        modifier: t.modifier,
                    },
                );
                j = j + 1;
            }
            proof {
                assert(conv@ =~= kd.attributes@.map_values(
                    |t: TemplateAttributeData| attr_of(t),
                ));
            }
            attribute.push_all(kd.kind, &conv);
            proof {
                assert forall|at: AttributeType|
                    #[trigger] attribute.entries(at) == loaded_entries(
                        data.attribute@.take(i as int + 1),
                        at,
                    ) by {
                    assert(data.attribute@.take(i as int + 1).drop_last() =~= data.attribute@.take(
                        i as int,
                    ));
                    assert(data.attribute@.take(i as int + 1).last() == data.attribute@[i as int]);
                    if at != kd.kind {
                        assert(attribute.entries(at) == table_before.entries(at));
                    }
                }
            }
            i = i + 1;
        }
        proof {
            assert(data.attribute@.take(data.attribute@.len() as int) =~= data.attribute@);
        }

        let mut fallback: Vec<(String, String)> = Vec::new();
        let mut k: usize = 0;
        while k < data.fallback.len()
            invariant
                0 <= k <= data.fallback.len(),
                fallback@.len() == k,
                forall|p: int|
                    0 <= p < k ==> (#[trigger] fallback@[p]).0 == data.fallback@[p].0
                        && fallback@[p].1@ == component_image_path(
                        folder@,
                        data.fallback@[p].0@,
                        data.fallback@[p].1@,
                    ),
            decreases data.fallback.len() - k,
        {
            let path = component_image_path_of(
                folder.as_str(),
                data.fallback[k].0.as_str(),
                data.fallback[k].1.as_str(),
            );
            fallback.push((data.fallback[k].0.clone(), path));
            k = k + 1;
        }

        ItemTemplate {
            folder,
            data_name: data.data_name,
            attribute,
            components: data.components,
            fallback,
        }
    }

    /// Build a composite item holding this template and the given components,
    /// each merged into the attribute table in turn.
    pub fn populate_template(&self, components: Vec<(String, Item)>) -> (r: TemplateItem)
        requires
            self.wf(),
            forall|i: int, j: int|
                0 <= i < j < components@.len() ==> (#[trigger] components@[i]).0@ != (
                #[trigger] components@[j]).0@,
        ensures
            r.template.wf(),
            same_template_base(r.template, *self),
            forall|at: AttributeType|
                #[trigger] r.template.attribute.entries(at) == populated_entries(
                    *self,
                    components@,
                    at,
                ),
            r.component_refs@.len() == components@.len(),
            forall|i: int|
                0 <= i < components@.len() ==> (#[trigger] r.component_refs@[i]).0
                    == components@[i].0 && r.component_refs@[i].1@
                    == components@[i].1.ident_spec(),
            r.ability_names@.len() == 0,
    {
        let mut item = TemplateItem::new(self.clone());
        let mut i: usize = 0;
        proof {
            assert forall|at: AttributeType|
                #[trigger] item.template.attribute.entries(at) == populated_entries(
                    *self,
                    components@.take(0),
                    at,
                ) by {
                assert(components@.take(0) =~= Seq::<(String, Item)>::empty());
            }
        }
        while i < components.len()
            invariant
                0 <= i <= components.len(),
                forall|a: int, b: int|
                    0 <= a < b < components@.len() ==> (#[trigger] components@[a]).0@ != (
                    #[trigger] components@[b]).0@,
                item.template.wf(),
                same_template_base(item.template, *self),
                forall|at: AttributeType|
                    #[trigger] item.template.attribute.entries(at) == populated_entries(
                        *self,
                        components@.take(i as int),
                        at,
                    ),
                item.component_refs@.len() == i,
                forall|j: int|
                    0 <= j < i ==> (#[trigger] item.component_refs@[j]).0 == components@[j].0
                        && item.component_refs@[j].1@ == components@[j].1.ident_spec(),
                item.ability_names@.len() == 0,
            decreases components.len() - i,
        {
            let ghost before = item;
            item.add_component(components[i].0.clone(), &components[i].1);
            proof {
                assert forall|at: AttributeType|
                    #[trigger] item.template.attribute.entries(at) == populated_entries(
                        *self,
                        components@.take(i as int + 1),
                        at,
                    ) by {
                    assert(components@.take(i as int + 1).drop_last() =~= components@.take(
                        i as int,
                    ));
                    assert(components@.take(i as int + 1).last() == components@[i as int]);
                }
                if contains_ref(before.component_refs@, components@[i as int].0@) {
                    let j = choose|j: int|
                        0 <= j < before.component_refs@.len() && (
                        #[trigger] before.component_refs@[j]).0@ == components@[i as int].0@;
                    assert(before.component_refs@[j].0 == components@[j].0);
                    assert(components@[j].0@ != components@[i as int].0@);
                }
                assert(!contains_ref(before.component_refs@, components@[i as int].0@));
                assert forall|j: int|
                    0 <= j < i + 1 implies (#[trigger] item.component_refs@[j]).0
                    == components@[j].0 && item.component_refs@[j].1@
                    == components@[j].1.ident_spec() by {
                    if j < i {
                        assert(item.component_refs@.drop_last()[j] == item.component_refs@[j]);
                        assert(before.component_refs@[j] == item.component_refs@.drop_last()[j]);
                    } else {
                        assert(item.component_refs@[j] == item.component_refs@.last());
                    }
                }
            }
            i = i + 1;
        }
        proof {
            assert(components@.take(components@.len() as int) =~= components@);
        }
        item
    }
}

/// Everything of a template but its attribute table carries the same data.
pub open spec fn same_template_base(a: ItemTemplate, b: ItemTemplate) -> bool {
    &&& a.folder == b.folder
    &&& a.data_name == b.data_name
    &&& a.components@ == b.components@
    &&& a.fallback@ == b.fallback@
}

/// The attribute entries of a template populated with `comps`: the template's
/// base entries, with each component's full entry set merged in turn.
pub open spec fn populated_entries(
    t: ItemTemplate,
    comps: Seq<(String, Item)>,
    at: AttributeType,
) -> Seq<Attribute>
    decreases comps.len(),
{
    if comps.len() == 0 {
        t.attribute.entries(at)
    } else {
        merge_entries(
            populated_entries(t, comps.drop_last(), at),
            comps.last().1.stats_entries(at),
        )
    }
}

/// Whether some component reference carries `name`.
pub open spec fn contains_ref(s: Seq<(String, String)>, name: Seq<char>) -> bool {
    exists|i: int| 0 <= i < s.len() && (#[trigger] s[i]).0@ == name
}

/// The first component reference carrying `name`, or the length if none
/// does.
pub open spec fn first_ref_index(s: Seq<(String, String)>, name: Seq<char>) -> int
    decreases s.len(),
{
    if s.len() == 0 {
        0
    } else if s.first().0@ == name {
        0
    } else {
        1 + first_ref_index(s.drop_first(), name)
    }
}

/// `first_ref_index` really is the first match.
pub proof fn lemma_first_ref_index(s: Seq<(String, String)>, name: Seq<char>)
    ensures
        0 <= first_ref_index(s, name) <= s.len(),
        contains_ref(s, name) <==> first_ref_index(s, name) < s.len(),
        first_ref_index(s, name) < s.len() ==> s[first_ref_index(s, name)].0@ == name,
        forall|j: int| 0 <= j < first_ref_index(s, name) ==> (#[trigger] s[j]).0@ != name,
    decreases s.len(),
{
    if s.len() > 0 {
        let t = s.drop_first();
        lemma_first_ref_index(t, name);
        assert(s.first() == s[0]);
        if s.first().0@ == name {
            assert(s[0].0@ == name);
        } else {
            let idx = first_ref_index(s, name);
            assert(idx == 1 + first_ref_index(t, name));
            assert forall|j: int| 0 <= j < idx implies (#[trigger] s[j]).0@ != name by {
                if j > 0 {
                    assert(t[j - 1] == s[j]);
                }
            }
            if contains_ref(s, name) {
                let i = choose|i: int| 0 <= i < s.len() && (#[trigger] s[i]).0@ == name;
                assert(i != 0);
                assert(t[i - 1] == s[i]);
                assert(contains_ref(t, name));
            }
            if contains_ref(t, name) {
                let i = choose|i: int| 0 <= i < t.len() && (#[trigger] t[i]).0@ == name;
                assert(s[i + 1] == t[i]);
                assert(contains_ref(s, name));
            }
            if idx < s.len() {
                assert(t[idx - 1] == s[idx]);
            }
        }
    }
}

/// Find the index of the first component reference carrying `name`, if any.
fn find_ref(v: &Vec<(String, String)>, name: &String) -> (r: Option<usize>)
    ensures
        r matches Some(i) ==> i as int == first_ref_index(v@, name@) && (i as int) < v@.len(),
        r is None ==> !contains_ref(v@, name@),
{
    proof {
        lemma_first_ref_index(v@, name@);
    }
    let mut i: usize = 0;
    while i < v.len()
        invariant
            0 <= i <= v.len(),
            forall|j: int| 0 <= j < i ==> (#[trigger] v@[j]).0@ != name@,
        decreases v.len() - i,
    {
        if v[i].0 == *name {
            proof {
                // i is the first match, so it is the spec index.
                lemma_first_ref_index(v@, name@);
                let fi = first_ref_index(v@, name@);
                if fi < i as int {
                    assert(v@[fi].0@ == name@);
                }
                if (i as int) < fi {
                    assert(v@[i as int].0@ != name@);
                }
            }
            return Some(i);
        }
        i = i + 1;
    }
    proof {
        if contains_ref(v@, name@) {
            let k = choose|k: int| 0 <= k < v@.len() && (#[trigger] v@[k]).0@ == name@;
            assert(v@[k].0@ != name@);
        }
    }
    None
}

/// Two composite items carry the same data.
pub open spec fn same_template_item(a: TemplateItem, b: TemplateItem) -> bool {
    &&& same_template(a.template, b.template)
    &&& a.component_refs@ == b.component_refs@
    &&& a.ability_names@ == b.ability_names@
}

/// A composite item derived from a template: the merged attribute table lives
/// in `template.attribute`; `component_refs` remembers each component's name
/// and item identifier for texture compositing.
#[derive(Debug)]
pub struct TemplateItem {
    pub template: ItemTemplate,
    pub component_refs: Vec<(String, String)>,
    pub ability_names: Vec<String>,
}

impl Clone for TemplateItem {
    fn clone(&self) -> (res: Self)
        ensures
            same_template_item(res, *self),
            self.template.wf() ==> res.template.wf(),
    {
        TemplateItem {
            template: self.template.clone(),
            component_refs: clone_string_pairs(&self.component_refs),
            ability_names: clone_strings(&self.ability_names),
        }
    }
}

impl TemplateItem {
    /// A composite item over `template` with no components yet.
    pub fn new(template: ItemTemplate) -> (r: TemplateItem)
        ensures
            r.template == template,
            r.component_refs@.len() == 0,
            r.ability_names@.len() == 0,
    {
        TemplateItem { template, component_refs: Vec::new(), ability_names: Vec::new() }
    }

    /// Merge one named component in: every entry of its stats store is
    /// stable-inserted into the template's attribute table under its kind,
    /// and the component's name and identifier are remembered. Component
    /// names are a mapping: re-adding a name overwrites its reference (last
    /// write wins), though the attributes are merged again all the same.
    pub fn add_component(&mut self, part: String, component: &Item)
        requires
            old(self).template.wf(),
        ensures
            final(self).template.wf(),
            same_template_base(final(self).template, old(self).template),
            forall|at: AttributeType|
                #[trigger] final(self).template.attribute.entries(at) == merge_entries(
                    old(self).template.attribute.entries(at),
                    component.stats_entries(at),
                ),
            !contains_ref(old(self).component_refs@, part@) ==> final(self).component_refs@.len() == old(self).component_refs@.len() + 1 && final(self).component_refs@.drop_last() == old(self).component_refs@ && final(self).component_refs@.last().0 == part && final(self).component_refs@.last().1@
                == component.ident_spec(),
            contains_ref(old(self).component_refs@, part@) ==> final(self).component_refs@.len() == old(self).component_refs@.len() && (forall|j: int|
                0 <= j < old(self).component_refs@.len() && j != first_ref_index(
                    old(self).component_refs@,
                    part@,
                ) ==> #[trigger] final(self).component_refs@[j] == old(self).component_refs@[j])
                && final(self).component_refs@[first_ref_index(
                old(self).component_refs@,
                part@,
            )].0 == part && final(self).component_refs@[first_ref_index(
                old(self).component_refs@,
                part@,
            )].1@ == component.ident_spec(),
            final(self).ability_names@ == old(self).ability_names@,
    {
        let stats = component.get_stats();
        let kinds = crate::attribute::all_attribute_types();
        let ghost table_at_start = self.template.attribute;
        let mut k: usize = 0;
        proof {
            assert forall|at: AttributeType| #[trigger] self.template.attribute.entries(at)
                == merged_up_to(table_at_start, *component, 0, at) by {}
        }
        while k < kinds.len()
            invariant
                0 <= k <= kinds.len(),
                kinds@ == crate::attribute::all_kinds(),
                self.template.wf(),
                same_template_base(self.template, old(self).template),
                forall|at: AttributeType|
                    #[trigger] self.template.attribute.entries(at) == merged_up_to(
                        table_at_start,
                        *component,
                        k as int,
                        at,
                    ),
                forall|at: AttributeType|
                    #[trigger] stats.entries(at) == component.stats_entries(at),
                self.component_refs@ == old(self).component_refs@,
                self.ability_names@ == old(self).ability_names@,
            decreases kinds.len() - k,
        {
            let at = kinds[k];
            let entries = stats.get_attributes(at);
            let ghost before = self.template.attribute;
            self.template.attribute.push_all(at, &entries);
            proof {
                lemma_all_kinds_distinct();
                assert forall|o: AttributeType| #[trigger] self.template.attribute.entries(o)
                    == merged_up_to(table_at_start, *component, k as int + 1, o) by {
                    if o != at {
                        assert(self.template.attribute.entries(o) == before.entries(o));
                    }
                }
            }
            k = k + 1;
        }
        proof {
            lemma_all_kinds_distinct();
            assert forall|at: AttributeType| #[trigger] self.template.attribute.entries(at)
                == merge_entries(
                table_at_start.entries(at),
                component.stats_entries(at),
            ) by {
                lemma_kind_index_in_range(at);
            }
        }
        let ghost refs = self.component_refs@;
        proof {
            lemma_first_ref_index(refs, part@);
        }
        match find_ref(&self.component_refs, &part) {
            Some(idx) => {
                self.component_refs.set(idx, (part, component.get_ident()));
            },
            None => {
                self.component_refs.push((part, component.get_ident()));
                proof {
                    assert(self.component_refs@.drop_last() =~= refs);
                }
            },
        }
    }
}

/// The position of a kind in the display order.
pub open spec fn kind_index(at: AttributeType) -> int {
    match at {
        AttributeType::Sharpness => 0,
        AttributeType::Durability => 1,
        AttributeType::Weight => 2,
        AttributeType::Strength => 3,
        AttributeType::Agility => 4,
        AttributeType::Reach => 5,
    }
}

proof fn lemma_kind_index_in_range(at: AttributeType)
    ensures
        0 <= kind_index(at) < 6,
        crate::attribute::all_kinds()[kind_index(at)] == at,
{
}

proof fn lemma_all_kinds_distinct()
    ensures
        forall|i: int, j: int|
            0 <= i < j < 6 ==> crate::attribute::all_kinds()[i]
                != crate::attribute::all_kinds()[j],
{
}

/// The table after the first `k` kinds (in display order) of a component's
/// stats have been merged in.
pub open spec fn merged_up_to(base: AttributeTable, component: Item, k: int, at: AttributeType)
    -> Seq<Attribute> {
    if kind_index(at) < k {
        merge_entries(base.entries(at), component.stats_entries(at))
    } else {
        base.entries(at)
    }
}

/// Whether the reference image assigns the pixel at `(x, y)` to the named
/// component: the template gives the component a mask color and the
/// reference pixel equals it exactly. A component without a mask color
/// covers nothing.
pub open spec fn covers(
    t: ItemTemplate,
    reference: RasterImage,
    name: Seq<char>,
    x: int,
    y: int,
) -> bool {
    match color_lookup(t.components@, name) {
        Some(c) => reference.pixel_at(x, y) == c,
        None => false,
    }
}

/// What the composite texture shows at `(x, y)`: the source pixel of the
/// last component covering that coordinate, else transparent.
pub open spec fn painted_pixel(
    t: ItemTemplate,
    reference: RasterImage,
    sources: Seq<(String, RasterImage)>,
    x: int,
    y: int,
) -> Rgba8
    decreases sources.len(),
{
    if sources.len() == 0 {
        transparent_pixel()
    } else if covers(t, reference, sources.last().0@, x, y) {
        sources.last().1.pixel_at(x, y)
    } else {
        painted_pixel(t, reference, sources.drop_last(), x, y)
    }
}

/// Layers built mask-by-mask from the reference image paint exactly the
/// painted-pixel composite.
proof fn lemma_composite_painted(
    t: ItemTemplate,
    reference: RasterImage,
    sources: Seq<(String, RasterImage)>,
    layers: Seq<MaskedImage>,
    x: int,
    y: int,
    w: int,
    h: int,
)
    requires
        0 <= x < w,
        0 <= y < h,
        layers.len() == sources.len(),
        forall|j: int|
            0 <= j < layers.len() ==> (#[trigger] layers[j]).mask.bit_at(x, y) == covers(
                t,
                reference,
                sources[j].0@,
                x,
                y,
            ) && layers[j].image.pixel_at(x, y) == sources[j].1.pixel_at(x, y),
    ensures
        composite_pixel(layers, x, y, w) == painted_pixel(t, reference, sources, x, y),
    decreases layers.len(),
{
    if layers.len() > 0 {
        assert(layers[layers.len() - 1] == layers.last());
        assert(sources[sources.len() - 1] == sources.last());
        assert forall|j: int|
            0 <= j < layers.drop_last().len() implies (#[trigger] layers.drop_last()[j]).mask.bit_at(
            x,
            y,
        ) == covers(t, reference, sources.drop_last()[j].0@, x, y)
            && layers.drop_last()[j].image.pixel_at(x, y) == sources.drop_last()[j].1.pixel_at(
            x,
            y,
        ) by {
            assert(layers.drop_last()[j] == layers[j]);
            assert(sources.drop_last()[j] == sources[j]);
        }
        lemma_composite_painted(t, reference, sources.drop_last(), layers.drop_last(), x, y, w, h);
    }
}

/// The first `k` layers each mask and paint exactly their component's
/// coverage and source image.
pub open spec fn layers_match(
    t: ItemTemplate,
    reference: RasterImage,
    sources: Seq<(String, RasterImage)>,
    layers: Seq<MaskedImage>,
    k: int,
    w: int,
    h: int,
) -> bool {
    forall|j: int, x: int, y: int|
        0 <= j < k && 0 <= x < w && 0 <= y < h ==> (#[trigger] layers[j].mask.bit_at(x, y))
            == covers(t, reference, sources[j].0@, x, y) && layers[j].image.pixel_at(x, y)
            == sources[j].1.pixel_at(x, y)
}

/// Pushing a layer that matches the next component extends the match by one.
proof fn lemma_layers_match_push(
    t: ItemTemplate,
    reference: RasterImage,
    sources: Seq<(String, RasterImage)>,
    layers: Seq<MaskedImage>,
    k: int,
    w: int,
    h: int,
    layer: MaskedImage,
)
    requires
        layers_match(t, reference, sources, layers, k, w, h),
        layers.len() == k,
        0 <= k < sources.len(),
        forall|x: int, y: int|
            0 <= x < w && 0 <= y < h ==> (#[trigger] layer.mask.bit_at(x, y)) == covers(
                t,
                reference,
                sources[k].0@,
                x,
                y,
            ) && layer.image.pixel_at(x, y) == sources[k].1.pixel_at(x, y),
    ensures
        layers_match(t, reference, sources, layers.push(layer), k + 1, w, h),
{
    assert forall|j: int, x: int, y: int|
        0 <= j < k + 1 && 0 <= x < w && 0 <= y < h implies (#[trigger] layers.push(
        layer,
    )[j].mask.bit_at(x, y)) == covers(t, reference, sources[j].0@, x, y) && layers.push(
        layer,
    )[j].image.pixel_at(x, y) == sources[j].1.pixel_at(x, y) by {
        if j < k {
            assert(layers.push(layer)[j] == layers[j]);
            assert(layers[j].mask.bit_at(x, y) == covers(t, reference, sources[j].0@, x, y));
            assert(layers[j].image.pixel_at(x, y) == sources[j].1.pixel_at(x, y));
        } else {
            assert(layers.push(layer)[j] == layer);
            assert(layer.mask.bit_at(x, y) == covers(t, reference, sources[k].0@, x, y));
            assert(layer.image.pixel_at(x, y) == sources[k].1.pixel_at(x, y));
        }
    }
}

impl TemplateItem {
    /// Paint the composite texture of this item: one layer per entry of
    /// `sources` (a component name and its loaded source image, in component
    /// order), masked by where the shared reference image shows that
    /// component's mask color; later layers win, uncovered pixels stay
    /// transparent. Every image must match `size`, else the composition
    /// fails with a dimension mismatch.
    #[verifier::rlimit(60)]
    pub fn compose_texture(
        &self,
        size: (u32, u32),
        reference: &RasterImage,
        sources: &Vec<(String, RasterImage)>,
    ) -> (r: Result<RasterImage, TextureCompositeError>)
        requires
            reference.wf(),
            forall|j: int| 0 <= j < sources@.len() ==> (#[trigger] sources@[j].1).wf(),
            size.0 as int * size.1 as int <= usize::MAX,
        ensures
            r is Ok <==> reference.width == size.0 && reference.height == size.1 && forall|j: int|
                0 <= j < sources@.len() ==> (#[trigger] sources@[j].1).width == size.0
                    && sources@[j].1.height == size.1,
            r matches Ok(out) ==> out.wf() && out.width == size.0 && out.height == size.1
                && forall|x: int, y: int|
                0 <= x < size.0 && 0 <= y < size.1 ==> out.pixel_at(x, y) == painted_pixel(
                    self.template,
                    *reference,
                    sources@,
                    x,
                    y,
                ),
            r is Err ==> r == Err::<RasterImage, TextureCompositeError>(
                TextureCompositeError::DimensionMismatch,
            ),
    {
        if reference.width != size.0 || reference.height != size.1 {
            return Err(TextureCompositeError::DimensionMismatch);
        }
        let mut renderer = TemplateComponentRenderer::new(size);
        let mut k: usize = 0;
        while k < sources.len()
            invariant
                0 <= k <= sources@.len(),
                reference.wf(),
                reference.width == size.0 && reference.height == size.1,
                size.0 as int * size.1 as int <= usize::MAX,
                forall|j: int| 0 <= j < sources@.len() ==> (#[trigger] sources@[j].1).wf(),
                forall|j: int|
                    0 <= j < k ==> (#[trigger] sources@[j].1).width == size.0
                        && sources@[j].1.height == size.1,
                renderer.wf(),
                renderer.width == size.0 && renderer.height == size.1,
                renderer.layers@.len() == k,
                layers_match(
                    self.template,
                    *reference,
                    sources@,
                    renderer.layers@,
                    k as int,
                    size.0 as int,
                    size.1 as int,
                ),
            decreases sources@.len() - k,
        {
            let ghost prev_layers = renderer.layers@;
            let img = &sources[k].1;
            if img.width != size.0 || img.height != size.1 {
                return Err(TextureCompositeError::DimensionMismatch);
            }
            let color_opt = self.template.mask_color_of(&sources[k].0);
            let mask = match color_opt {
                Some(color) => Mask::from_reference(reference, color),
                None => Mask::all_false(size.0, size.1),
            };
            let layer = match MaskedImage::new(mask, img.clone()) {
                Ok(l) => l,
                Err(e) => {
                    proof {
                        assert(false);
                    }
                    return Err(TextureCompositeError::DimensionMismatch);
                },
            };
            let ghost the_layer = layer;
            match renderer.add_layer(layer) {
                Ok(_) => {},
                Err(e) => {
                    proof {
                        assert(false);
                    }
                    return Err(TextureCompositeError::DimensionMismatch);
                },
            }
            proof {
                assert(renderer.layers@ == prev_layers.push(the_layer));
                assert forall|x: int, y: int|
                    0 <= x < size.0 && 0 <= y < size.1 implies the_layer.mask.bit_at(x, y)
                    == covers(self.template, *reference, sources@[k as int].0@, x, y)
                    && the_layer.image.pixel_at(x, y) == sources@[k as int].1.pixel_at(x, y) by {
                    match color_opt {
                        Some(c) => {
                            assert(the_layer.mask.bit_at(x, y) == (reference.pixel_at(x, y) == c));
                        },
                        None => {
                            assert(!the_layer.mask.bit_at(x, y));
                        },
                    }
                }
                lemma_layers_match_push(
                    self.template,
                    *reference,
                    sources@,
                    prev_layers,
                    k as int,
                    size.0 as int,
                    size.1 as int,
                    the_layer,
                );
            }
            k = k + 1;
        }
        let out = renderer.render();
        proof {
            assert forall|x: int, y: int|
                0 <= x < size.0 && 0 <= y < size.1 implies out.pixel_at(x, y) == painted_pixel(
                self.template,
                *reference,
                sources@,
                x,
                y,
            ) by {
                assert forall|j: int|
                    0 <= j < renderer.layers@.len() implies (
                    #[trigger] renderer.layers@[j]).mask.bit_at(x, y) == covers(
                        self.template,
                        *reference,
                        sources@[j].0@,
                        x,
                        y,
                    ) && renderer.layers@[j].image.pixel_at(x, y) == sources@[j].1.pixel_at(
                        x,
                        y,
                    ) by {
                    assert(renderer.layers@[j].mask.bit_at(x, y) == covers(
                        self.template,
                        *reference,
                        sources@[j].0@,
                        x,
                        y,
                    ));
                    assert(renderer.layers@[j].image.pixel_at(x, y) == sources@[j].1.pixel_at(
                        x,
                        y,
                    ));
                }
                lemma_composite_painted(
                    self.template,
                    *reference,
                    sources@,
                    renderer.layers@,
                    x,
                    y,
                    size.0 as int,
                    size.1 as int,
                );
            }
        }
        Ok(out)
    }
}

} // verus!
