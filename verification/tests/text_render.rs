use ducttape_item_engine::attribute::{
    Attribute, AttributeModifier, AttributeParser, AttributeReason, AttributeType,
};
use ducttape_item_engine::scalar::StatValue;
use ducttape_item_engine::text::{
    format_stat_value, kind_name, modifier_text, AnsiRenderer, BBCodeRenderer, NamedColor,
    RgbColor, StyledText, TextColor, TextSpan,
};

#[test]
fn stat_values_render_milli_exact() {
    assert_eq!(format_stat_value(StatValue::from_units(110)), "110");
    assert_eq!(format_stat_value(StatValue::from_milli(1_500)), "1.5");
    assert_eq!(format_stat_value(StatValue::from_milli(750)), "0.75");
    assert_eq!(format_stat_value(StatValue::from_milli(-10_000)), "-10");
    assert_eq!(format_stat_value(StatValue::from_milli(0)), "0");
    assert_eq!(format_stat_value(StatValue::from_milli(1_002)), "1.002");
    assert_eq!(format_stat_value(StatValue::from_milli(-1_020)), "-1.02");
}

#[test]
fn modifier_display_text() {
    assert_eq!(
        modifier_text(&AttributeModifier::Multiply(StatValue::from_milli(1_500))),
        " x 1.5"
    );
    assert_eq!(
        modifier_text(&AttributeModifier::Add(StatValue::from_units(10))),
        " + 10"
    );
    assert_eq!(
        modifier_text(&AttributeModifier::Add(StatValue::from_milli(-10_000))),
        " - 10"
    );
    assert_eq!(
        modifier_text(&AttributeModifier::SetTo(StatValue::from_units(100))),
        " = 100"
    );
}

#[test]
fn breakdown_lists_visible_entries_and_total() {
    let mut parser = AttributeParser::new();
    parser.push(
        AttributeType::Durability,
        Attribute {
            id: 1,
            reason: AttributeReason::Display("base".to_string()),
            priority: 0,
            modifier: AttributeModifier::SetTo(StatValue::from_units(100)),
        },
    );
    parser.push(
        AttributeType::Durability,
        Attribute {
            id: 2,
            reason: AttributeReason::Hidden,
            priority: 1,
            modifier: AttributeModifier::Add(StatValue::from_units(10)),
        },
    );
    parser.push(
        AttributeType::Durability,
        Attribute {
            id: 3,
            reason: AttributeReason::Display("boost".to_string()),
            priority: 2,
            modifier: AttributeModifier::Multiply(StatValue::from_milli(1_500)),
        },
    );

    let text = parser.aggregate_to_component(AttributeType::Durability);
    // two visible lines plus the total; the hidden entry still aggregates
    assert_eq!(text.spans.len(), 3);
    assert_eq!(text.spans[0].content, " = 100 (base)\n");
    assert_eq!(text.spans[0].color, Some(TextColor::Named(NamedColor::Yellow)));
    assert_eq!(text.spans[1].content, " x 1.5 (boost)\n");
    assert_eq!(text.spans[1].color, Some(TextColor::Named(NamedColor::Green)));
    // (100 + 10) * 1.5 = 165, hidden entry included
    assert_eq!(text.spans[2].content, " = 165");
    assert_eq!(text.spans[2].color, Some(TextColor::Named(NamedColor::Yellow)));
}

#[test]
fn breakdown_covers_every_kind() {
    let parser = AttributeParser::new();
    let all = parser.aggregate_to_components();
    assert_eq!(all.len(), 6);
    for (at, text) in &all {
        // empty kind: just the zero total line
        assert_eq!(text.spans.len(), 1);
        assert_eq!(text.spans[0].content, " = 0");
        let _ = kind_name(*at);
    }
    assert_eq!(kind_name(AttributeType::Durability), "\u{26a1}");
}

#[test]
fn ansi_rendering_of_a_colored_span() {
    let text = StyledText {
        spans: vec![TextSpan::colored("hi".to_string(), TextColor::Named(NamedColor::Green))],
    };
    assert_eq!(text.to_ansi_string(), "\x1b[38;2;85;255;85mhi\x1b[0m");
}

#[test]
fn ansi_rendering_uses_white_for_uncolored_spans() {
    let text = StyledText { spans: vec![TextSpan::plain("x".to_string())] };
    assert_eq!(text.to_ansi_string(), "\x1b[38;2;255;255;255mx\x1b[0m");
}

#[test]
fn bbcode_rendering_of_styles_and_colors() {
    let mut span = TextSpan::colored("hi".to_string(), TextColor::Named(NamedColor::Red));
    span.bold = true;
    let text = StyledText { spans: vec![span] };
    assert_eq!(text.to_bbcode_string(), "[b][color=red]hi[/color][/b]");
}

#[test]
fn bbcode_rgb_colors_render_as_hex() {
    let span = TextSpan::colored(
        "x".to_string(),
        TextColor::Rgb(RgbColor { r: 10, g: 16, b: 255 }),
    );
    let text = StyledText { spans: vec![span] };
    assert_eq!(text.to_bbcode_string(), "[color=#0a10ff]x[/color]");
}

#[test]
fn bbcode_plain_span_has_no_tags() {
    let text = StyledText { spans: vec![TextSpan::plain("plain".to_string())] };
    assert_eq!(text.to_bbcode_string(), "plain");
}

#[test]
fn overview_sections_every_kind() {
    let mut parser = AttributeParser::new();
    parser.push(
        AttributeType::Sharpness,
        Attribute {
            id: 1,
            reason: AttributeReason::Display("edge".to_string()),
            priority: 0,
            modifier: AttributeModifier::SetTo(StatValue::from_units(2)),
        },
    );
    let overview = parser.render_overview();
    // per kind: header + breakdown (visible lines + total) + separator;
    // one kind has one visible entry, the other five are bare
    assert_eq!(overview.spans.len(), 6 * 3 + 1);
    assert_eq!(overview.spans[0].content, "\u{1f5e1}\u{fe0f}:\n");
    assert_eq!(overview.spans[1].content, " = 2 (edge)\n");
    assert_eq!(overview.spans[2].content, " = 2");
    assert_eq!(overview.spans[3].content, "\n");
    assert_eq!(overview.spans[4].content, "\u{26a1}:\n");
    assert_eq!(overview.spans[5].content, " = 0");
}
