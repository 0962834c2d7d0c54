use ducttape_item_engine::attribute::{
    AttributeModifier, AttributeParser, AttributeReason, AttributeType,
};
use ducttape_item_engine::item::Item;
use ducttape_item_engine::raster::{Mask, MaskedImage, RasterImage, Rgba8, TextureCompositeError};
use ducttape_item_engine::scalar::StatValue;
use ducttape_item_engine::stats::BasicStats;
use ducttape_item_engine::template::{
    component_image_path_of, AttributeStrategy, ItemTemplate, ItemTemplateData,
    TemplateAttributeData, TemplateKindData,
};

fn red() -> Rgba8 {
    Rgba8 { r: 255, g: 0, b: 0, a: 255 }
}
fn blue() -> Rgba8 {
    Rgba8 { r: 0, g: 0, b: 255, a: 255 }
}
fn green() -> Rgba8 {
    Rgba8 { r: 0, g: 255, b: 0, a: 255 }
}
fn clear() -> Rgba8 {
    Rgba8 { r: 0, g: 0, b: 0, a: 0 }
}

fn spear_data() -> ItemTemplateData {
    ItemTemplateData {
        data_name: "spear".to_string(),
        attribute: vec![TemplateKindData {
            kind: AttributeType::Durability,
            strategy: AttributeStrategy::Sum,
            attributes: vec![TemplateAttributeData {
                id: 1,
                priority: 0,
                reason: AttributeReason::Display("base".to_string()),
                modifier: AttributeModifier::SetTo(StatValue::from_units(100)),
            }],
        }],
        components: vec![("shaft".to_string(), red()), ("tip".to_string(), blue())],
        fallback: vec![("shaft".to_string(), "rock".to_string())],
    }
}

fn component_with_durability(priority: u8, modifier: AttributeModifier) -> Item {
    let mut stats = BasicStats::new();
    stats.push_attribute(
        AttributeType::Durability,
        ducttape_item_engine::attribute::Attribute {
            id: 1000 + priority as u128,
            reason: AttributeReason::Display("part".to_string()),
            priority,
            modifier,
        },
    );
    Item::Rock(stats)
}

#[test]
fn load_template_builds_folder_and_fallback_paths() {
    let template = ItemTemplate::load_template("spear", spear_data());
    assert_eq!(template.folder, "res://assets/item//spear");
    assert_eq!(template.data_name, "spear");
    assert_eq!(template.fallback.len(), 1);
    assert_eq!(template.fallback[0].0, "shaft");
    assert_eq!(template.fallback[0].1, "res://assets/item//spear/shaft:rock.png");
    assert_eq!(component_image_path_of("f", "tip", "rock"), "f/tip:rock.png");
}

#[test]
fn template_merge_concatenates_base_and_components() {
    // One base Durability entry plus one from each of two components: the
    // composite's Durability store holds exactly three entries, folded in
    // priority order.
    let template = ItemTemplate::load_template("spear", spear_data());
    let shaft = component_with_durability(2, AttributeModifier::Add(StatValue::from_units(10)));
    let tip = component_with_durability(
        4,
        AttributeModifier::Multiply(StatValue::from_milli(1_500)),
    );

    let spear = template.populate_template(vec![
        ("shaft".to_string(), shaft),
        ("tip".to_string(), tip),
    ]);
    let item = Item::Template(spear);
    assert_eq!(item.get_ident(), "spear");

    let stats = item.get_stats();
    let entries = stats.get_attributes(AttributeType::Durability);
    assert_eq!(entries.len(), 3);
    assert!(entries[0].priority <= entries[1].priority);
    assert!(entries[1].priority <= entries[2].priority);

    // 100 -> +10 = 110 -> x1.5 = 165
    let parser = AttributeParser::from(stats.get_all_attributes());
    assert_eq!(parser.aggregate_to_value(AttributeType::Durability).to_milli(), 165_000);
}

#[test]
fn add_component_overwrites_a_repeated_name() {
    // component names form a mapping: re-adding a name rebinds it
    let template = ItemTemplate::load_template("spear", spear_data());
    let mut spear = template.populate_template(vec![]);
    spear.add_component(
        "shaft".to_string(),
        &component_with_durability(1, AttributeModifier::Add(StatValue::from_units(1))),
    );
    spear.add_component("shaft".to_string(), &ducttape_item_engine::item::Item::Air);
    assert_eq!(spear.component_refs.len(), 1);
    assert_eq!(spear.component_refs[0].0, "shaft");
    assert_eq!(spear.component_refs[0].1, "air");
}

#[test]
fn add_component_remembers_name_and_ident() {
    let template = ItemTemplate::load_template("spear", spear_data());
    let spear = template.populate_template(vec![(
        "shaft".to_string(),
        component_with_durability(2, AttributeModifier::Add(StatValue::from_units(1))),
    )]);
    assert_eq!(spear.component_refs.len(), 1);
    assert_eq!(spear.component_refs[0].0, "shaft");
    assert_eq!(spear.component_refs[0].1, "rock");
}

fn image(width: u32, height: u32, pixels: Vec<Rgba8>) -> RasterImage {
    assert_eq!(pixels.len(), (width * height) as usize);
    RasterImage { width, height, pixels }
}

#[test]
fn mask_from_reference_matches_exact_color() {
    let reference = image(2, 2, vec![red(), blue(), red(), green()]);
    let mask = Mask::from_reference(&reference, red());
    assert_eq!(mask.get_bit(0, 0), true);
    assert_eq!(mask.get_bit(1, 0), false);
    assert_eq!(mask.get_bit(0, 1), true);
    assert_eq!(mask.get_bit(1, 1), false);
}

#[test]
fn masked_image_blanks_uncovered_pixels() {
    let reference = image(2, 1, vec![red(), blue()]);
    let source = image(2, 1, vec![green(), green()]);
    let mask = Mask::from_reference(&reference, red());
    let masked = MaskedImage::new(mask, source).expect("dimensions agree");
    let out = masked.get_masked_image();
    assert_eq!(out.get_pixel(0, 0), green());
    assert_eq!(out.get_pixel(1, 0), clear());
}

#[test]
fn masked_image_rejects_dimension_mismatch() {
    let reference = image(2, 1, vec![red(), blue()]);
    let source = image(1, 1, vec![green()]);
    let mask = Mask::from_reference(&reference, red());
    assert!(matches!(
        MaskedImage::new(mask, source),
        Err(TextureCompositeError::DimensionMismatch)
    ));
}

#[test]
fn compose_texture_paints_components_by_mask_color() {
    let template = ItemTemplate::load_template("spear", spear_data());
    let spear = template.populate_template(vec![]);

    // reference: shaft pixels are red, tip pixels are blue, one uncovered
    let reference = image(2, 2, vec![red(), blue(), red(), green()]);
    let shaft_img = image(2, 2, vec![Rgba8 { r: 1, g: 1, b: 1, a: 255 }; 4]);
    let tip_img = image(2, 2, vec![Rgba8 { r: 2, g: 2, b: 2, a: 255 }; 4]);

    let out = spear
        .compose_texture(
            (2, 2),
            &reference,
            &vec![("shaft".to_string(), shaft_img), ("tip".to_string(), tip_img)],
        )
        .expect("all dimensions agree");

    assert_eq!(out.get_pixel(0, 0), Rgba8 { r: 1, g: 1, b: 1, a: 255 });
    assert_eq!(out.get_pixel(1, 0), Rgba8 { r: 2, g: 2, b: 2, a: 255 });
    assert_eq!(out.get_pixel(0, 1), Rgba8 { r: 1, g: 1, b: 1, a: 255 });
    // uncovered pixels stay transparent
    assert_eq!(out.get_pixel(1, 1), clear());
}

#[test]
fn compose_texture_later_component_wins_on_overlap() {
    let mut data = spear_data();
    // both components claim red pixels
    data.components = vec![("shaft".to_string(), red()), ("tip".to_string(), red())];
    let template = ItemTemplate::load_template("spear", data);
    let spear = template.populate_template(vec![]);

    let reference = image(1, 1, vec![red()]);
    let shaft_img = image(1, 1, vec![green()]);
    let tip_img = image(1, 1, vec![blue()]);

    let out = spear
        .compose_texture(
            (1, 1),
            &reference,
            &vec![("shaft".to_string(), shaft_img), ("tip".to_string(), tip_img)],
        )
        .expect("all dimensions agree");
    assert_eq!(out.get_pixel(0, 0), blue());
}

#[test]
fn compose_texture_unknown_component_paints_nothing() {
    let template = ItemTemplate::load_template("spear", spear_data());
    let spear = template.populate_template(vec![]);
    let reference = image(1, 1, vec![red()]);
    let img = image(1, 1, vec![green()]);
    let out = spear
        .compose_texture((1, 1), &reference, &vec![("handle".to_string(), img)])
        .expect("all dimensions agree");
    assert_eq!(out.get_pixel(0, 0), clear());
}

#[test]
fn compose_texture_rejects_wrong_dimensions() {
    let template = ItemTemplate::load_template("spear", spear_data());
    let spear = template.populate_template(vec![]);
    let reference = image(2, 2, vec![red(), blue(), red(), green()]);
    let small = image(1, 1, vec![green()]);
    let r = spear.compose_texture(
        (2, 2),
        &reference,
        &vec![("shaft".to_string(), small)],
    );
    assert!(matches!(r, Err(TextureCompositeError::DimensionMismatch)));

    let r2 = spear.compose_texture((4, 4), &reference, &vec![]);
    assert!(matches!(r2, Err(TextureCompositeError::DimensionMismatch)));
}
