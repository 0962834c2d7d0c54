use ducttape_item_engine::attribute::{
    Attribute, AttributeModifier, AttributeParser, AttributeReason, AttributeType,
};
use ducttape_item_engine::scalar::StatValue;
use ducttape_item_engine::item::Item;
use ducttape_item_engine::prelude_items::{
    asset_to_absolute, create_item_registry, Air, DevTablet, Rock, Rope,
};
use ducttape_item_engine::registry::ItemRegistry;

#[test]
fn register_get_contains_remove() {
    let mut registry = ItemRegistry::new();
    assert!(registry.is_empty());

    registry.register("rock".to_string(), Rock::new().into_item());
    registry.register("air".to_string(), Air::new().into_item());
    registry.register("rope".to_string(), Rope::new().into_item());
    registry.register("dev_tablet".to_string(), DevTablet::new().into_item());

    assert_eq!(registry.len(), 4);
    assert!(registry.contains("rock"));
    assert!(!registry.contains("spear"));
    assert_eq!(registry.get("rope").expect("registered").get_ident(), "rope");
    assert!(registry.get("missing").is_none());

    let removed = registry.remove("rock").expect("registered");
    assert_eq!(removed.get_ident(), "rock");
    assert!(!registry.contains("rock"));
    assert_eq!(registry.len(), 3);
    assert!(registry.remove("rock").is_none());
}

#[test]
fn register_overwrites_last_write_wins() {
    let mut registry = ItemRegistry::new();
    registry.register("thing".to_string(), Rock::new().into_item());
    registry.register("thing".to_string(), Rope::new().into_item());
    assert_eq!(registry.len(), 1);
    assert_eq!(registry.get("thing").expect("registered").get_ident(), "rope");
}

#[test]
fn registry_keys_and_values() {
    let mut registry = ItemRegistry::new();
    registry.register("a".to_string(), Rock::new().into_item());
    registry.register("b".to_string(), Rope::new().into_item());
    assert_eq!(registry.keys(), vec!["a".to_string(), "b".to_string()]);
    let values = registry.values();
    assert_eq!(values.len(), 2);
    assert_eq!(values[0].get_ident(), "rock");
    registry.clear();
    assert!(registry.is_empty());
}

#[test]
fn rock_base_stats_aggregate() {
    let rock = Rock::new().into_item();
    let parser = AttributeParser::from(rock.get_stats().get_all_attributes());
    assert_eq!(parser.aggregate_to_value(AttributeType::Sharpness).to_milli(), 2_000);
    assert_eq!(parser.aggregate_to_value(AttributeType::Durability).to_milli(), 50_000);
    assert_eq!(parser.aggregate_to_value(AttributeType::Weight).to_milli(), 5_000);
    assert_eq!(parser.aggregate_to_value(AttributeType::Strength).to_milli(), 10_000);
    assert_eq!(parser.aggregate_to_value(AttributeType::Agility).to_milli(), 5_000);
    assert_eq!(parser.aggregate_to_value(AttributeType::Reach).to_milli(), 5_000);
}

#[test]
fn rope_base_stats_aggregate() {
    let rope = Rope::new().into_item();
    let parser = AttributeParser::from(rope.get_stats().get_all_attributes());
    assert_eq!(parser.aggregate_to_value(AttributeType::Sharpness).to_milli(), 0);
    assert_eq!(parser.aggregate_to_value(AttributeType::Durability).to_milli(), 150_000);
    assert_eq!(parser.aggregate_to_value(AttributeType::Reach).to_milli(), 10_000);
}

#[test]
fn item_identity() {
    assert_eq!(Item::Air.get_ident(), "air");
    assert_eq!(Item::Air.get_name(), "\u{2601}\u{fe0f}");
    assert!(Item::Air.is_air());

    let rock = Rock::new().into_item();
    assert_eq!(rock.get_ident(), "rock");
    assert_eq!(rock.get_name(), "\u{1faa8}");
    assert!(!rock.is_air());

    let tablet = DevTablet::new().into_item();
    assert_eq!(tablet.get_ident(), "dev_tablet");
    assert_eq!(tablet.get_name(), "Tablet");
    assert!(tablet.special_abilities().is_empty());
}

#[test]
fn air_itemstack_is_the_empty_slot_filler() {
    let stack = Air::new_itemstack();
    assert!(stack.is_air());
    assert_eq!(stack.get_count(), 1);
    assert_eq!(stack.get_ident(), "air");
}

#[test]
fn built_in_registry_holds_every_prototype() {
    let registry = create_item_registry();
    assert_eq!(registry.len(), 4);
    for ident in ["rock", "air", "rope", "dev_tablet"] {
        assert!(registry.contains(ident));
        assert_eq!(registry.get(ident).expect("registered").get_ident(), ident);
    }
}

#[test]
fn asset_paths() {
    assert_eq!(asset_to_absolute("/game", "rock.png"), "/game/assets/rock.png");
}

#[test]
fn fresh_ids_drawn_twice_rarely_collide() {
    // Entry construction draws a random identifier; two draws colliding is
    // vanishingly unlikely and would break targeted removal.
    let a = Attribute::new(
        AttributeReason::Hidden,
        0,
        AttributeModifier::Add(StatValue::from_milli(0)),
    );
    let b = Attribute::new(
        AttributeReason::Hidden,
        0,
        AttributeModifier::Add(StatValue::from_milli(0)),
    );
    assert_ne!(a.id, b.id);
}
