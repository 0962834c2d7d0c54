use ducttape_item_engine::attribute::{
    Attribute, AttributeModifier, AttributeReason, AttributeType,
};
use ducttape_item_engine::scalar::StatValue;
use ducttape_item_engine::stats::{BasicStats, BasicStatsBuilder};

fn entry(id: u128, priority: u8, milli: i64) -> Attribute {
    Attribute {
        id,
        reason: AttributeReason::Display(format!("e{}", id)),
        priority,
        modifier: AttributeModifier::Add(StatValue::from_milli(milli)),
    }
}

#[test]
fn push_then_get_round_trip() {
    let mut stats = BasicStats::new();
    let e = entry(42, 3, 5_000);
    stats.push_attribute(AttributeType::Durability, e.clone());

    let got = stats.get_attribute(AttributeType::Durability, 42).expect("entry just pushed");
    assert_eq!(got.id, 42);
    assert_eq!(got.priority, 3);
    assert!(matches!(got.modifier, AttributeModifier::Add(v) if v.to_milli() == 5_000));
}

#[test]
fn remove_then_get_fails() {
    let mut stats = BasicStats::new();
    stats.push_attribute(AttributeType::Durability, entry(7, 0, 1_000));
    stats.remove_attribute(AttributeType::Durability, 7);
    assert!(stats.get_attribute(AttributeType::Durability, 7).is_none());
}

#[test]
fn get_on_absent_kind_is_empty_not_fatal() {
    let stats = BasicStats::new();
    assert!(stats.get_attribute(AttributeType::Reach, 1).is_none());
    assert!(stats.get_attributes(AttributeType::Reach).is_empty());
}

#[test]
fn entries_stay_sorted_by_priority() {
    let mut stats = BasicStats::new();
    stats.push_attribute(AttributeType::Weight, entry(1, 8, 0));
    stats.push_attribute(AttributeType::Weight, entry(2, 2, 0));
    stats.push_attribute(AttributeType::Weight, entry(3, 5, 0));
    let got = stats.get_attributes(AttributeType::Weight);
    let priorities: Vec<u8> = got.iter().map(|a| a.priority).collect();
    assert_eq!(priorities, vec![2, 5, 8]);
}

#[test]
fn equal_priority_ties_keep_insertion_order() {
    let mut stats = BasicStats::new();
    stats.push_attribute(AttributeType::Weight, entry(1, 4, 0));
    stats.push_attribute(AttributeType::Weight, entry(2, 4, 0));
    stats.push_attribute(AttributeType::Weight, entry(3, 4, 0));
    let got = stats.get_attributes(AttributeType::Weight);
    let ids: Vec<u128> = got.iter().map(|a| a.id).collect();
    assert_eq!(ids, vec![1, 2, 3]);
}

#[test]
fn set_attribute_replaces_in_place() {
    let mut stats = BasicStats::new();
    stats.push_attribute(AttributeType::Agility, entry(1, 1, 1_000));
    stats.set_attribute(AttributeType::Agility, 1, entry(99, 1, 2_000));

    assert!(stats.get_attribute(AttributeType::Agility, 1).is_none());
    let replaced = stats.get_attribute(AttributeType::Agility, 99).expect("replacement stored");
    assert!(matches!(replaced.modifier, AttributeModifier::Add(v) if v.to_milli() == 2_000));
    assert_eq!(stats.get_attributes(AttributeType::Agility).len(), 1);
}

#[test]
fn set_attribute_keeps_the_slot_among_equal_priorities() {
    // replacing id 7 must not move it behind its equal-priority peer
    let mut stats = BasicStats::new();
    stats.push_attribute(AttributeType::Durability, entry(7, 0, 100));
    stats.push_attribute(AttributeType::Durability, entry(9, 0, 200));
    stats.set_attribute(AttributeType::Durability, 7, entry(70, 0, 300));

    let got = stats.get_attributes(AttributeType::Durability);
    let ids: Vec<u128> = got.iter().map(|a| a.id).collect();
    assert_eq!(ids, vec![70, 9]);
}

#[test]
fn set_attribute_with_new_priority_stays_in_place() {
    // an in-place replacement keeps its slot even when the new priority
    // would sort elsewhere; the stored order then drives the fold as-is
    let mut stats = BasicStats::new();
    stats.push_attribute(AttributeType::Durability, entry(1, 1, 100));
    stats.push_attribute(AttributeType::Durability, entry(2, 5, 200));
    stats.set_attribute(AttributeType::Durability, 1, entry(10, 9, 300));

    let got = stats.get_attributes(AttributeType::Durability);
    let ids: Vec<u128> = got.iter().map(|a| a.id).collect();
    assert_eq!(ids, vec![10, 2]);
    assert_eq!(got[0].priority, 9);
}

#[test]
fn set_attribute_touches_only_the_first_match() {
    let mut stats = BasicStats::new();
    stats.push_attribute(AttributeType::Weight, entry(4, 0, 100));
    stats.push_attribute(AttributeType::Weight, entry(4, 2, 200));
    stats.set_attribute(AttributeType::Weight, 4, entry(40, 0, 300));

    let got = stats.get_attributes(AttributeType::Weight);
    assert_eq!(got.len(), 2);
    assert_eq!(got[0].id, 40);
    // the later duplicate is left alone
    assert_eq!(got[1].id, 4);
}

#[test]
fn set_attribute_on_absent_id_is_a_no_op() {
    let mut stats = BasicStats::new();
    stats.push_attribute(AttributeType::Agility, entry(1, 1, 1_000));
    stats.set_attribute(AttributeType::Agility, 5, entry(99, 1, 2_000));
    assert!(stats.get_attribute(AttributeType::Agility, 99).is_none());
    assert_eq!(stats.get_attributes(AttributeType::Agility).len(), 1);
}

#[test]
fn push_attributes_inserts_each_pair() {
    let mut stats = BasicStats::new();
    let pairs = vec![
        (AttributeType::Sharpness, entry(1, 0, 100)),
        (AttributeType::Durability, entry(2, 0, 200)),
        (AttributeType::Sharpness, entry(3, 0, 300)),
    ];
    stats.push_attributes(pairs);
    assert_eq!(stats.get_attributes(AttributeType::Sharpness).len(), 2);
    assert_eq!(stats.get_attributes(AttributeType::Durability).len(), 1);
}

#[test]
fn set_attributes_replaces_a_kind_wholesale() {
    let mut stats = BasicStats::new();
    stats.push_attribute(AttributeType::Reach, entry(1, 0, 100));
    stats.set_attributes(AttributeType::Reach, vec![entry(2, 5, 1), entry(3, 2, 2)]);
    let got = stats.get_attributes(AttributeType::Reach);
    assert_eq!(got.len(), 2);
    // sorted ascending by priority on the way in
    assert_eq!(got[0].id, 3);
    assert_eq!(got[1].id, 2);
}

#[test]
fn remove_attributes_empties_a_kind() {
    let mut stats = BasicStats::new();
    stats.push_attribute(AttributeType::Strength, entry(1, 0, 100));
    stats.push_attribute(AttributeType::Strength, entry(2, 0, 100));
    stats.remove_attributes(AttributeType::Strength);
    assert!(stats.get_attributes(AttributeType::Strength).is_empty());
}

#[test]
fn remove_drops_every_match_and_nothing_else() {
    let mut stats = BasicStats::new();
    stats.push_attribute(AttributeType::Weight, entry(1, 0, 100));
    stats.push_attribute(AttributeType::Weight, entry(2, 1, 200));
    stats.remove_attribute(AttributeType::Weight, 1);
    let got = stats.get_attributes(AttributeType::Weight);
    assert_eq!(got.len(), 1);
    assert_eq!(got[0].id, 2);
}

#[test]
fn builder_collects_and_freezes() {
    let stats = BasicStatsBuilder::new()
        .with_attribute(AttributeType::Sharpness, entry(1, 3, 100))
        .with_attribute_vec(AttributeType::Sharpness, vec![entry(2, 1, 200)])
        .build();
    let got = stats.get_attributes(AttributeType::Sharpness);
    assert_eq!(got.len(), 2);
    assert_eq!(got[0].id, 2);
    assert_eq!(got[1].id, 1);
}

#[test]
fn builder_with_attribute_vecs_merges_per_kind() {
    let stats = BasicStatsBuilder::new()
        .with_attribute_vecs(vec![
            (AttributeType::Weight, vec![entry(1, 4, 100), entry(2, 1, 200)]),
            (AttributeType::Reach, vec![entry(3, 0, 300)]),
        ])
        .build();
    let weight = stats.get_attributes(AttributeType::Weight);
    assert_eq!(weight.len(), 2);
    assert_eq!(weight[0].id, 2);
    assert_eq!(weight[1].id, 1);
    assert_eq!(stats.get_attributes(AttributeType::Reach).len(), 1);
}
