use ducttape_item_engine::attribute::{
    Attribute, AttributeModifier, AttributeParser, AttributeReason, AttributeTable, AttributeType,
    StatColor,
};
use ducttape_item_engine::scalar::StatValue;
use ducttape_item_engine::text::{AnsiRenderer, StyledText};

fn entry(id: u128, label: &str, priority: u8, modifier: AttributeModifier) -> Attribute {
    Attribute {
        id,
        reason: AttributeReason::Display(label.to_string()),
        priority,
        modifier,
    }
}

fn ball_parser() -> AttributeParser {
    // The raw durability list, aggregated exactly as stored (the parser
    // folds the current entry list; only `push` re-sorts).
    let table = AttributeTable {
        sharpness: Vec::new(),
        durability: vec![
            entry(1, "\u{26bd}", 0, AttributeModifier::SetTo(StatValue::from_units(100))),
            entry(
                2,
                "\u{2716}\u{fe0f}",
                4,
                AttributeModifier::Multiply(StatValue::from_milli(1_500)),
            ),
            entry(3, "\u{2795}", 2, AttributeModifier::Add(StatValue::from_units(10))),
            entry(4, "\u{2797}", 6, AttributeModifier::Multiply(StatValue::from_milli(750))),
            entry(5, "\u{2796}", 8, AttributeModifier::Add(StatValue::from_milli(-10_000))),
        ],
        weight: Vec::new(),
        strength: Vec::new(),
        agility: Vec::new(),
        reach: Vec::new(),
    };
    AttributeParser::from(table)
}

#[test]
fn ball_item() {
    let parser = ball_parser();

    let mut spans = Vec::new();
    spans.push(ducttape_item_engine::text::TextSpan::plain("\u{26bd}".to_string()));
    spans.push(ducttape_item_engine::text::TextSpan::plain("\n---\n".to_string()));
    let mut breakdown = parser.aggregate_to_component(AttributeType::Durability);
    spans.append(&mut breakdown.spans);
    let debug_txt = StyledText { spans };
    println!("{}", debug_txt.to_ansi_string());

    // 100 -> x1.5 = 150 -> +10 = 160 -> x0.75 = 120 -> -10 = 110
    let total_durability = parser.aggregate_to_value(AttributeType::Durability);
    assert_eq!(total_durability.to_milli(), 110_000);
}

#[test]
fn rock_attrs() {
    let rock = ducttape_item_engine::prelude_items::Rock::new().into_item();
    let stats = rock.get_stats();
    let parser = AttributeParser::from(stats.get_all_attributes());

    let mut spans = Vec::new();
    spans.push(ducttape_item_engine::text::TextSpan::plain(rock.get_name()));
    spans.push(ducttape_item_engine::text::TextSpan::plain("\n---\n".to_string()));
    for (_, component) in parser.aggregate_to_components() {
        let mut component = component;
        spans.append(&mut component.spans);
    }
    let debug_txt = StyledText { spans };

    // Print out the item info for debugging
    println!("{}", debug_txt.to_ansi_string());
}

#[test]
fn empty_kind_aggregates_to_zero() {
    let parser = AttributeParser::new();
    let v = parser.aggregate_to_value(AttributeType::Sharpness);
    assert_eq!(v.to_milli(), 0);
}

#[test]
fn absent_entries_of_other_kind_do_not_contribute() {
    let mut parser = AttributeParser::new();
    parser.push(
        AttributeType::Weight,
        entry(9, "w", 0, AttributeModifier::SetTo(StatValue::from_units(7))),
    );
    assert_eq!(parser.aggregate_to_value(AttributeType::Reach).to_milli(), 0);
    assert_eq!(parser.aggregate_to_value(AttributeType::Weight).to_milli(), 7_000);
}

#[test]
fn set_discards_prior_accumulation() {
    let mut parser = AttributeParser::new();
    parser.push(
        AttributeType::Agility,
        entry(1, "a", 0, AttributeModifier::Add(StatValue::from_units(40))),
    );
    parser.push(
        AttributeType::Agility,
        entry(2, "b", 1, AttributeModifier::SetTo(StatValue::from_units(3))),
    );
    assert_eq!(parser.aggregate_to_value(AttributeType::Agility).to_milli(), 3_000);
}

#[test]
fn equal_priority_adds_commute() {
    // Two same-priority Add entries: either insertion order folds to the
    // same aggregate.
    let a = entry(1, "a", 5, AttributeModifier::Add(StatValue::from_units(4)));
    let b = entry(2, "b", 5, AttributeModifier::Add(StatValue::from_units(9)));
    let base = entry(3, "base", 0, AttributeModifier::SetTo(StatValue::from_units(10)));

    let mut p1 = AttributeParser::new();
    p1.push(AttributeType::Strength, base.clone());
    p1.push(AttributeType::Strength, a.clone());
    p1.push(AttributeType::Strength, b.clone());

    let mut p2 = AttributeParser::new();
    p2.push(AttributeType::Strength, base);
    p2.push(AttributeType::Strength, b);
    p2.push(AttributeType::Strength, a);

    let v1 = p1.aggregate_to_value(AttributeType::Strength).to_milli();
    let v2 = p2.aggregate_to_value(AttributeType::Strength).to_milli();
    assert_eq!(v1, v2);
    assert_eq!(v1, 23_000);
}

#[test]
fn priority_order_decides_not_insertion_order() {
    // Insert out of priority order; the fold still runs ascending.
    let mut parser = AttributeParser::new();
    parser.push(
        AttributeType::Durability,
        entry(1, "mult", 4, AttributeModifier::Multiply(StatValue::from_milli(2_000))),
    );
    parser.push(
        AttributeType::Durability,
        entry(2, "base", 0, AttributeModifier::SetTo(StatValue::from_units(5))),
    );
    // base (priority 0) folds first: 5, then x2 = 10.
    assert_eq!(parser.aggregate_to_value(AttributeType::Durability).to_milli(), 10_000);
}

#[test]
fn aggregate_to_fixed_attribute_wraps_total() {
    let parser = ball_parser();
    let fixed = parser.aggregate_to_fixed_attribute(AttributeType::Durability);
    assert!(matches!(fixed.reason, AttributeReason::Hidden));
    assert_eq!(fixed.priority, 0);
    match fixed.modifier {
        AttributeModifier::SetTo(v) => assert_eq!(v.to_milli(), 110_000),
        _ => panic!("expected a set modifier"),
    }
}

#[test]
fn aggregate_to_values_covers_every_kind() {
    let parser = ball_parser();
    let values = parser.aggregate_to_values();
    assert_eq!(values.len(), 6);
    for (at, v) in values {
        if at == AttributeType::Durability {
            assert_eq!(v.to_milli(), 110_000);
        } else {
            assert_eq!(v.to_milli(), 0);
        }
    }
}

#[test]
fn modifier_classification() {
    let buff = AttributeModifier::Multiply(StatValue::from_milli(1_500));
    let neutral = AttributeModifier::Multiply(StatValue::from_milli(1_000));
    let debuff = AttributeModifier::Add(StatValue::from_milli(-1));
    let set = AttributeModifier::SetTo(StatValue::from_units(1));

    assert!(buff.is_buff() && !buff.is_neutral() && !buff.is_debuff());
    assert!(neutral.is_neutral() && !neutral.is_buff());
    assert!(debuff.is_debuff() && !debuff.is_buff());
    assert!(set.is_neutral() && !set.is_buff() && !set.is_debuff());

    assert_eq!(buff.stat_color(), StatColor::Green);
    assert_eq!(neutral.stat_color(), StatColor::Yellow);
    assert_eq!(debuff.stat_color(), StatColor::Red);
    assert_eq!(set.stat_color(), StatColor::Yellow);
}

#[test]
fn saturating_arithmetic_clamps() {
    let max = StatValue::from_milli(i64::MAX);
    let one = StatValue::from_milli(1);
    assert_eq!(max.saturating_add(one).to_milli(), i64::MAX);
    let min = StatValue::from_milli(i64::MIN);
    assert_eq!(min.saturating_add(StatValue::from_milli(-1)).to_milli(), i64::MIN);
}

#[test]
fn fixed_point_multiply_truncates_toward_zero() {
    let v = StatValue::from_milli(1_001);
    let half = StatValue::from_milli(500);
    // 1.001 * 0.5 = 0.5005, truncated to 0.500 milli-exactly.
    assert_eq!(v.saturating_mul(half).to_milli(), 500);
    let neg = StatValue::from_milli(-1_001);
    assert_eq!(neg.saturating_mul(half).to_milli(), -500);
}
