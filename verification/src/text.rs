//! Styled text: stat breakdowns and their terminal/markup renderings.
//!
//! A [`StyledText`] is a flat list of styled spans. The aggregator renders a
//! per-kind breakdown into one: a line per visible entry, colored by its
//! buff/neutral/debuff classification, followed by the final aggregate
//! value. Renderers turn styled text into an ANSI escape string or a BBCode
//! string.

use vstd::prelude::*;

use crate::attribute::{
    aggregate_entries, Attribute, AttributeModifier, AttributeParser, AttributeReason,
    AttributeType, StatColor,
};
use crate::scalar::StatValue;

verus! {

/// A named display color.
#[derive(PartialEq, Eq, Structural, Clone, Copy, Debug)]
pub enum NamedColor {
    Black,
    DarkBlue,
    DarkGreen,
    DarkAqua,
    DarkRed,
    DarkPurple,
    Gold,
    Gray,
    DarkGray,
    Blue,
    Green,
    Aqua,
    Red,
    LightPurple,
    Yellow,
    White,
}

/// A 24-bit color.
#[derive(PartialEq, Eq, Structural, Clone, Copy, Debug)]
pub struct RgbColor {
    pub r: u8,
    pub g: u8,
    pub b: u8,
}

/// A text color: direct RGB, a named color, or the terminal default.
#[derive(PartialEq, Eq, Structural, Clone, Copy, Debug)]
pub enum TextColor {
    Rgb(RgbColor),
    Named(NamedColor),
    Reset,
}

/// The RGB value a color renders as.
pub open spec fn rgb_of(color: TextColor) -> RgbColor {
    match color {
        TextColor::Rgb(rgb) => rgb,
        TextColor::Named(named) => match named {
            NamedColor::Black => RgbColor { r: 0, g: 0, b: 0 },
            NamedColor::DarkBlue => RgbColor { r: 0, g: 0, b: 170 },
            NamedColor::DarkGreen => RgbColor { r: 0, g: 170, b: 0 },
            NamedColor::DarkAqua => RgbColor { r: 0, g: 170, b: 170 },
            NamedColor::DarkRed => RgbColor { r: 170, g: 0, b: 0 },
            NamedColor::DarkPurple => RgbColor { r: 170, g: 0, b: 170 },
            NamedColor::Gold => RgbColor { r: 255, g: 170, b: 0 },
            NamedColor::Gray => RgbColor { r: 170, g: 170, b: 170 },
            NamedColor::DarkGray => RgbColor { r: 85, g: 85, b: 85 },
            NamedColor::Blue => RgbColor { r: 85, g: 85, b: 255 },
            NamedColor::Green => RgbColor { r: 85, g: 255, b: 85 },
            NamedColor::Aqua => RgbColor { r: 85, g: 255, b: 255 },
            NamedColor::Red => RgbColor { r: 255, g: 85, b: 85 },
            NamedColor::LightPurple => RgbColor { r: 255, g: 85, b: 255 },
            NamedColor::Yellow => RgbColor { r: 255, g: 255, b: 85 },
            NamedColor::White => RgbColor { r: 255, g: 255, b: 255 },
        },
        TextColor::Reset => RgbColor { r: 255, g: 255, b: 255 },
    }
}

/// Resolve a color to the RGB value it renders as.
pub fn color_to_rgb(color: TextColor) -> (r: RgbColor)
    ensures
        r == rgb_of(color),
{
    match color {
        TextColor::Rgb(rgb) => rgb,
        TextColor::Named(named) => match named {
            NamedColor::Black => RgbColor { r: 0, g: 0, b: 0 },
            NamedColor::DarkBlue => RgbColor { r: 0, g: 0, b: 170 },
            NamedColor::DarkGreen => RgbColor { r: 0, g: 170, b: 0 },
            NamedColor::DarkAqua => RgbColor { r: 0, g: 170, b: 170 },
            NamedColor::DarkRed => RgbColor { r: 170, g: 0, b: 0 },
            NamedColor::DarkPurple => RgbColor { r: 170, g: 0, b: 170 },
            NamedColor::Gold => RgbColor { r: 255, g: 170, b: 0 },
            NamedColor::Gray => RgbColor { r: 170, g: 170, b: 170 },
            NamedColor::DarkGray => RgbColor { r: 85, g: 85, b: 85 },
            NamedColor::Blue => RgbColor { r: 85, g: 85, b: 255 },
            NamedColor::Green => RgbColor { r: 85, g: 255, b: 85 },
            NamedColor::Aqua => RgbColor { r: 85, g: 255, b: 255 },
            NamedColor::Red => RgbColor { r: 255, g: 85, b: 85 },
            NamedColor::LightPurple => RgbColor { r: 255, g: 85, b: 255 },
            NamedColor::Yellow => RgbColor { r: 255, g: 255, b: 85 },
            NamedColor::White => RgbColor { r: 255, g: 255, b: 255 },
        },
        TextColor::Reset => RgbColor { r: 255, g: 255, b: 255 },
    }
}

/// The named color a stat classification renders as.
pub open spec fn color_of_stat(c: StatColor) -> TextColor {
    match c {
        StatColor::Green => TextColor::Named(NamedColor::Green),
        StatColor::Yellow => TextColor::Named(NamedColor::Yellow),
        StatColor::Red => TextColor::Named(NamedColor::Red),
        StatColor::White => TextColor::Named(NamedColor::White),
    }
}

/// One uniformly styled run of text.
#[derive(Debug)]
pub struct TextSpan {
    pub content: String,
    pub color: Option<TextColor>,
    pub bold: bool,
    pub italic: bool,
    pub underlined: bool,
    pub strikethrough: bool,
    pub obfuscated: bool,
}

/// An unstyled span carrying `content`.
pub open spec fn plain_span(sp: TextSpan, content: Seq<char>) -> bool {
    sp.content@ == content && sp.color is None && !sp.bold && !sp.italic && !sp.underlined
        && !sp.strikethrough && !sp.obfuscated
}

/// A span carrying `content` in `color`, with no other styling.
pub open spec fn colored_span(sp: TextSpan, content: Seq<char>, color: TextColor) -> bool {
    sp.content@ == content && sp.color == Some(color) && !sp.bold && !sp.italic && !sp.underlined
        && !sp.strikethrough && !sp.obfuscated
}

impl TextSpan {
    /// An unstyled span.
    pub fn plain(content: String) -> (r: TextSpan)
        ensures
            plain_span(r, content@),
    {
        TextSpan {
            content,
            color: None,
            bold: false,
            italic: false,
            underlined: false,
            strikethrough: false,
            obfuscated: false,
        }
    }

    /// A colored span with no other styling.
    pub fn colored(content: String, color: TextColor) -> (r: TextSpan)
        ensures
            colored_span(r, content@, color),
    {
        TextSpan {
            content,
            color: Some(color),
            bold: false,
            italic: false,
            underlined: false,
            strikethrough: false,
            obfuscated: false,
        }
    }
}

/// Rich text as a flat run of styled spans.
#[derive(Debug)]
pub struct StyledText {
    pub spans: Vec<TextSpan>,
}

/// Renders text as an ANSI escape string.
pub trait AnsiRenderer {
    fn to_ansi_string(&self) -> String;
}

/// Renders text as a BBCode string.
pub trait BBCodeRenderer {
    fn to_bbcode_string(&self) -> String;
}

/// The decimal digit character of `d`.
pub open spec fn digit_char(d: nat) -> char {
    if d == 0 {
        '0'
    } else if d == 1 {
        '1'
    } else if d == 2 {
        '2'
    } else if d == 3 {
        '3'
    } else if d == 4 {
        '4'
    } else if d == 5 {
        '5'
    } else if d == 6 {
        '6'
    } else if d == 7 {
        '7'
    } else if d == 8 {
        '8'
    } else {
        '9'
    }
}

/// The decimal digits of `n`, most significant first, no leading zeros
/// (except for `n == 0` itself).
pub open spec fn dec_digits(n: nat) -> Seq<char>
    decreases n,
{
    if n < 10 {
        seq![digit_char(n)]
    } else {
        dec_digits(n / 10) + seq![digit_char(n % 10)]
    }
}

/// A fractional milli part rendered after the decimal point, trailing zeros
/// stripped; meaningful for `1 <= f <= 999`.
pub open spec fn frac_digits(f: nat) -> Seq<char> {
    if f % 10 == 0 {
        if f % 100 == 0 {
            seq![digit_char(f / 100)]
        } else {
            seq![digit_char(f / 100), digit_char((f / 10) % 10)]
        }
    } else {
        seq![digit_char(f / 100), digit_char((f / 10) % 10), digit_char(f % 10)]
    }
}

/// The decimal rendering of a nonnegative milli magnitude: the whole part,
/// then a point and the stripped fraction if the fraction is nonzero.
pub open spec fn magnitude_text(a: nat) -> Seq<char> {
    if a % 1000 == 0 {
        dec_digits(a / 1000)
    } else {
        dec_digits(a / 1000) + seq!['.'] + frac_digits(a % 1000)
    }
}

/// The decimal rendering of a milli value: an optional minus sign and the
/// magnitude.
pub open spec fn decimal_of_milli(m: int) -> Seq<char> {
    if m < 0 {
        seq!['-'] + magnitude_text((-m) as nat)
    } else {
        magnitude_text(m as nat)
    }
}

/// The single-character string of one decimal digit.
fn digit_str(d: u64) -> (r: &'static str)
    requires
        d < 10,
    ensures
        r@ == seq![digit_char(d as nat)],
{
    if d == 0 {
        proof {
            reveal_strlit("0");
            assert("0"@ =~= seq![digit_char(0)]);
        }
        "0"
    } else if d == 1 {
        proof {
            reveal_strlit("1");
            assert("1"@ =~= seq![digit_char(1)]);
        }
        "1"
    } else if d == 2 {
        proof {
            reveal_strlit("2");
            assert("2"@ =~= seq![digit_char(2)]);
        }
        "2"
    } else if d == 3 {
        proof {
            reveal_strlit("3");
            assert("3"@ =~= seq![digit_char(3)]);
        }
        "3"
    } else if d == 4 {
        proof {
            reveal_strlit("4");
            assert("4"@ =~= seq![digit_char(4)]);
        }
        "4"
    } else if d == 5 {
        proof {
            reveal_strlit("5");
            assert("5"@ =~= seq![digit_char(5)]);
        }
        "5"
    } else if d == 6 {
        proof {
            reveal_strlit("6");
            assert("6"@ =~= seq![digit_char(6)]);
        }
        "6"
    } else if d == 7 {
        proof {
            reveal_strlit("7");
            assert("7"@ =~= seq![digit_char(7)]);
        }
        "7"
    } else if d == 8 {
        proof {
            reveal_strlit("8");
            assert("8"@ =~= seq![digit_char(8)]);
        }
        "8"
    } else {
        proof {
            reveal_strlit("9");
            assert("9"@ =~= seq![digit_char(9)]);
        }
        "9"
    }
}

/// Append the decimal digits of `n`.
fn push_dec_digits(out: &mut String, n: u64)
    ensures
        final(out)@ == old(out)@ + dec_digits(n as nat),
    decreases n,
{
    if n < 10 {
        out.append(digit_str(n));
    } else {
        push_dec_digits(out, n / 10);
        out.append(digit_str(n % 10));
        proof {
            assert(out@ =~= old(out)@ + dec_digits(n as nat));
        }
    }
}

/// Append the decimal rendering of a milli magnitude.
fn push_magnitude(out: &mut String, a: u64)
    ensures
        final(out)@ == old(out)@ + magnitude_text(a as nat),
{
    push_dec_digits(out, a / 1000);
    let f = a % 1000;
    if f != 0 {
        let ghost whole = out@;
        out.append(".");
        proof {
            reveal_strlit(".");
            assert(out@ =~= whole + seq!['.']);
        }
        if f % 10 == 0 {
            if f % 100 == 0 {
                out.append(digit_str(f / 100));
            } else {
                out.append(digit_str(f / 100));
                out.append(digit_str((f / 10) % 10));
            }
        } else {
            out.append(digit_str(f / 100));
            out.append(digit_str((f / 10) % 10));
            out.append(digit_str(f % 10));
        }
        proof {
            assert(out@ =~= whole + seq!['.'] + frac_digits(f as nat));
            assert(out@ =~= old(out)@ + magnitude_text(a as nat));
        }
    }
}

/// The milli magnitude of a value, as an unsigned number.
fn milli_magnitude(v: StatValue) -> (r: u64)
    ensures
        v.as_int() >= 0 ==> r as int == v.as_int(),
        v.as_int() < 0 ==> r as int == -v.as_int(),
{
    let m = v.to_milli();
    if m < 0 {
        (-(m as i128)) as u64
    } else {
        m as u64
    }
}

/// Render a stat value in decimal, milli-exact: `110`, `1.5`, `-0.75`.
pub fn format_stat_value(v: StatValue) -> (r: String)
    ensures
        r@ == decimal_of_milli(v.as_int()),
{
    let mut out = String::new();
    if v.to_milli() < 0 {
        out.append("-");
        proof {
            reveal_strlit("-");
            assert(out@ =~= seq!['-']);
        }
    }
    let a = milli_magnitude(v);
    push_magnitude(&mut out, a);
    out
}

/// The display text of a modifier: ` x f` for a multiplier, ` + d` or
/// ` - |d|` for an addend, ` = s` for a set.
pub open spec fn modifier_text_spec(m: AttributeModifier) -> Seq<char> {
    match m {
        AttributeModifier::Multiply(v) => " x "@ + decimal_of_milli(v.as_int()),
        AttributeModifier::Add(v) => if v.as_int() > 0 {
            " + "@ + decimal_of_milli(v.as_int())
        } else {
            " - "@ + decimal_of_milli(-v.as_int())
        },
        AttributeModifier::SetTo(v) => " = "@ + decimal_of_milli(v.as_int()),
    }
}

/// Render a modifier's display text.
pub fn modifier_text(m: &AttributeModifier) -> (r: String)
    ensures
        r@ == modifier_text_spec(*m),
{
    match m {
        AttributeModifier::Multiply(v) => {
            let mut out: String = " x ".to_owned();
            out.append(format_stat_value(*v).as_str());
            out
        },
        AttributeModifier::Add(v) => {
            if v.is_positive() {
                let mut out: String = " + ".to_owned();
                out.append(format_stat_value(*v).as_str());
                out
            } else {
                let mut out: String = " - ".to_owned();
                let mag = milli_magnitude(*v);
                push_magnitude(&mut out, mag);
                proof {
                    assert(decimal_of_milli(-v.as_int()) == magnitude_text(mag as nat));
                }
                out
            }
        },
        AttributeModifier::SetTo(v) => {
            let mut out: String = " = ".to_owned();
            out.append(format_stat_value(*v).as_str());
            out
        },
    }
}

/// The entries that show up in a rendered breakdown: those with a `Display`
/// reason, in order. `Hidden` entries still aggregate but never render.
pub open spec fn visible_entries(s: Seq<Attribute>) -> Seq<Attribute>
    decreases s.len(),
{
    if s.len() == 0 {
        Seq::empty()
    } else {
        let rest = visible_entries(s.drop_last());
        if s.last().reason is Display {
            rest.push(s.last())
        } else {
            rest
        }
    }
}

/// The classification color of a modifier: green for buffs, yellow for
/// neutral modifiers, red for debuffs.
pub open spec fn classify(m: AttributeModifier) -> StatColor {
    if m.is_buff_spec() {
        StatColor::Green
    } else if m.is_neutral_spec() {
        StatColor::Yellow
    } else {
        StatColor::Red
    }
}

/// One breakdown line for a visible entry: its operator and value, then its
/// label in parentheses, a newline, colored by its classification.
pub open spec fn entry_line_matches(sp: TextSpan, e: Attribute) -> bool {
    e.reason matches AttributeReason::Display(l) && colored_span(
        sp,
        modifier_text_spec(e.modifier) + " ("@ + l@ + ")"@ + "\n"@,
        color_of_stat(classify(e.modifier)),
    )
}

/// A full per-kind breakdown: one line per visible entry, then the final
/// aggregate as a yellow ` = value` line.
pub open spec fn breakdown_matches(spans: Seq<TextSpan>, entries: Seq<Attribute>) -> bool {
    let vis = visible_entries(entries);
    &&& spans.len() == vis.len() + 1
    &&& forall|i: int| 0 <= i < vis.len() ==> entry_line_matches(#[trigger] spans[i], vis[i])
    &&& colored_span(
        spans.last(),
        " = "@ + decimal_of_milli(aggregate_entries(entries)),
        TextColor::Named(NamedColor::Yellow),
    )
}

/// One breakdown line.
fn entry_line(e: &Attribute, label: &String) -> (r: TextSpan)
    requires
        e.reason matches AttributeReason::Display(l) && l == label,
    ensures
        entry_line_matches(r, *e),
{
    let mut content = modifier_text(&e.modifier);
    content.append(" (");
    content.append(label.as_str());
    content.append(")");
    content.append("\n");
    let color = match e.modifier.stat_color() {
        StatColor::Green => TextColor::Named(NamedColor::Green),
        StatColor::Yellow => TextColor::Named(NamedColor::Yellow),
        StatColor::Red => TextColor::Named(NamedColor::Red),
        StatColor::White => TextColor::Named(NamedColor::White),
    };
    TextSpan::colored(content, color)
}

impl AttributeParser {
    /// Render one kind's breakdown: a colored line per visible entry, in
    /// priority order, closed by the final aggregate value.
    pub fn aggregate_to_component(&self, at: AttributeType) -> (r: StyledText)
        ensures
            breakdown_matches(r.spans@, self.entries(at)),
    {
        let entries = self.attributes.bucket(at);
        let mut spans: Vec<TextSpan> = Vec::new();
        let mut i: usize = 0;
        proof {
            assert(entries@.take(0) =~= Seq::<Attribute>::empty());
        }
        while i < entries.len()
            invariant
                0 <= i <= entries.len(),
                entries@ == self.entries(at),
                spans@.len() == visible_entries(entries@.take(i as int)).len(),
                forall|j: int|
                    0 <= j < spans@.len() ==> entry_line_matches(
                        #[trigger] spans@[j],
                        visible_entries(entries@.take(i as int))[j],
                    ),
            decreases entries.len() - i,
        {
            proof {
                assert(entries@.take(i as int + 1).drop_last() =~= entries@.take(i as int));
                assert(entries@.take(i as int + 1).last() == entries@[i as int]);
            }
            let e = &entries[i];
            match &e.reason {
                AttributeReason::Display(label) => {
                    spans.push(entry_line(e, label));
                },
                AttributeReason::Hidden => {},
            }
            i = i + 1;
        }
        proof {
            assert(entries@.take(entries@.len() as int) =~= entries@);
        }
        let total = self.aggregate_to_value(at);
        let mut content: String = " = ".to_owned();
        content.append(format_stat_value(total).as_str());
        spans.push(TextSpan::colored(content, TextColor::Named(NamedColor::Yellow)));
        proof {
            let vis = visible_entries(self.entries(at));
            assert(spans@.drop_last() =~= spans@.take(vis.len() as int));
            assert forall|j: int|
                0 <= j < vis.len() implies entry_line_matches(#[trigger] spans@[j], vis[j]) by {
                assert(spans@[j] == spans@.drop_last()[j]);
            }
        }
        StyledText { spans }
    }

    /// Render every kind's breakdown, in display order.
    pub fn aggregate_to_components(&self) -> (r: Vec<(AttributeType, StyledText)>)
        ensures
            r@.len() == crate::attribute::all_kinds().len(),
            forall|i: int|
                0 <= i < r@.len() ==> (#[trigger] r@[i]).0 == crate::attribute::all_kinds()[i]
                    && breakdown_matches(r@[i].1.spans@, self.entries(crate::attribute::all_kinds()[i])),
    {
        let kinds = crate::attribute::all_attribute_types();
        let mut out: Vec<(AttributeType, StyledText)> = Vec::new();
        let mut i: usize = 0;
        while i < kinds.len()
            invariant
                0 <= i <= kinds.len(),
                kinds@ == crate::attribute::all_kinds(),
                out@.len() == i,
                forall|j: int|
                    0 <= j < i ==> (#[trigger] out@[j]).0 == crate::attribute::all_kinds()[j]
                        && breakdown_matches(
                        out@[j].1.spans@,
                        self.entries(crate::attribute::all_kinds()[j]),
                    ),
            decreases kinds.len() - i,
        {
            let at = kinds[i];
            out.push((at, self.aggregate_to_component(at)));
            i = i + 1;
        }
        out
    }
}

/// The display icon of an attribute kind.
pub open spec fn kind_name_spec(at: AttributeType) -> Seq<char> {
    match at {
        AttributeType::Sharpness => "🗡️"@,
        AttributeType::Durability => "⚡"@,
        AttributeType::Weight => "🏋️"@,
        AttributeType::Strength => "💪"@,
        AttributeType::Agility => "🏃"@,
        AttributeType::Reach => "🏹"@,
    }
}

/// The display icon of an attribute kind.
pub fn kind_name(at: AttributeType) -> (r: String)
    ensures
        r@ == kind_name_spec(at),
{
    match at {
        AttributeType::Sharpness => "🗡️".to_owned(),
        AttributeType::Durability => "⚡".to_owned(),
        AttributeType::Weight => "🏋️".to_owned(),
        AttributeType::Strength => "💪".to_owned(),
        AttributeType::Agility => "🏃".to_owned(),
        AttributeType::Reach => "🏹".to_owned(),
    }
}

/// The foreground color escape opening one span.
pub open spec fn ansi_color_prefix(sp: TextSpan) -> Seq<char> {
    let c = match sp.color {
        Some(c) => c,
        None => TextColor::Reset,
    };
    let rgb = rgb_of(c);
    "\x1b[38;2;"@ + dec_digits(rgb.r as nat) + ";"@ + dec_digits(rgb.g as nat) + ";"@
        + dec_digits(rgb.b as nat) + "m"@
}

/// The style escapes of a span's set flags.
pub open spec fn ansi_style_flags(sp: TextSpan) -> Seq<char> {
    (if sp.bold {
        "\x1b[1m"@
    } else {
        Seq::empty()
    }) + (if sp.italic {
        "\x1b[3m"@
    } else {
        Seq::empty()
    }) + (if sp.underlined {
        "\x1b[4m"@
    } else {
        Seq::empty()
    }) + (if sp.strikethrough {
        "\x1b[9m"@
    } else {
        Seq::empty()
    }) + (if sp.obfuscated {
        "\x1b[8m"@
    } else {
        Seq::empty()
    })
}

/// The ANSI rendering of one span: a 24-bit foreground escape, the style
/// escapes of every set flag, the content, then a reset.
pub open spec fn ansi_span(sp: TextSpan) -> Seq<char> {
    ansi_color_prefix(sp) + ansi_style_flags(sp) + sp.content@ + "\x1b[0m"@
}

/// The ANSI rendering of a span run.
pub open spec fn ansi_text(spans: Seq<TextSpan>) -> Seq<char>
    decreases spans.len(),
{
    if spans.len() == 0 {
        Seq::empty()
    } else {
        ansi_text(spans.drop_last()) + ansi_span(spans.last())
    }
}

/// The tag if the flag is set, else the empty string.
fn flag_str(cond: bool, tag: &'static str) -> (r: &'static str)
    ensures
        cond ==> r@ == tag@,
        !cond ==> r@ == Seq::<char>::empty(),
{
    if cond {
        tag
    } else {
        proof {
            reveal_strlit("");
            assert(""@ =~= Seq::<char>::empty());
        }
        ""
    }
}

/// Append the ANSI rendering of one span.
#[verifier::rlimit(100)]
fn append_ansi_span(out: &mut String, sp: &TextSpan)
    ensures
        final(out)@ == old(out)@ + ansi_span(*sp),
{
    let ghost o0 = out@;
    let color = match &sp.color {
        Some(c) => *c,
        None => TextColor::Reset,
    };
    let rgb = color_to_rgb(color);
    out.append("\x1b[38;2;");
    push_dec_digits(out, rgb.r as u64);
    out.append(";");
    push_dec_digits(out, rgb.g as u64);
    out.append(";");
    push_dec_digits(out, rgb.b as u64);
    out.append("m");
    let ghost o1 = out@;
    proof {
        assert(o1 =~= o0 + ansi_color_prefix(*sp));
    }
    out.append(flag_str(sp.bold, "\x1b[1m"));
    out.append(flag_str(sp.italic, "\x1b[3m"));
    out.append(flag_str(sp.underlined, "\x1b[4m"));
    out.append(flag_str(sp.strikethrough, "\x1b[9m"));
    out.append(flag_str(sp.obfuscated, "\x1b[8m"));
    let ghost o2 = out@;
    proof {
        assert(o2 =~= o1 + ansi_style_flags(*sp));
    }
    out.append(sp.content.as_str());
    out.append("\x1b[0m");
    proof {
        assert(out@ =~= o2 + sp.content@ + "\x1b[0m"@);
        assert(out@ =~= old(out)@ + ansi_span(*sp));
    }
}

impl StyledText {
    /// Render as an ANSI escape string.
    pub fn ansi_string(&self) -> (r: String)
        ensures
            r@ == ansi_text(self.spans@),
    {
        let mut out = String::new();
        let mut i: usize = 0;
        proof {
            assert(self.spans@.take(0) =~= Seq::<TextSpan>::empty());
        }
        while i < self.spans.len()
            invariant
                0 <= i <= self.spans@.len(),
                out@ == ansi_text(self.spans@.take(i as int)),
            decreases self.spans@.len() - i,
        {
            proof {
                assert(self.spans@.take(i as int + 1).drop_last() =~= self.spans@.take(i as int));
                assert(self.spans@.take(i as int + 1).last() == self.spans@[i as int]);
            }
            append_ansi_span(&mut out, &self.spans[i]);
            i = i + 1;
        }
        proof {
            assert(self.spans@.take(self.spans@.len() as int) =~= self.spans@);
        }
        out
    }
}

impl AnsiRenderer for StyledText {
    fn to_ansi_string(&self) -> String {
        self.ansi_string()
    }
}

/// The hexadecimal digit character of `d`.
pub open spec fn hex_digit(d: nat) -> char {
    if d < 10 {
        digit_char(d)
    } else if d == 10 {
        'a'
    } else if d == 11 {
        'b'
    } else if d == 12 {
        'c'
    } else if d == 13 {
        'd'
    } else if d == 14 {
        'e'
    } else {
        'f'
    }
}

/// Two hexadecimal digits of a byte.
pub open spec fn hex2(n: nat) -> Seq<char> {
    seq![hex_digit(n / 16), hex_digit(n % 16)]
}

/// The single-character string of one hexadecimal digit.
fn hex_digit_str(d: u64) -> (r: &'static str)
    requires
        d < 16,
    ensures
        r@ == seq![hex_digit(d as nat)],
{
    if d < 10 {
        digit_str(d)
    } else if d == 10 {
        proof {
            reveal_strlit("a");
            assert("a"@ =~= seq![hex_digit(10)]);
        }
        "a"
    } else if d == 11 {
        proof {
            reveal_strlit("b");
            assert("b"@ =~= seq![hex_digit(11)]);
        }
        "b"
    } else if d == 12 {
        proof {
            reveal_strlit("c");
            assert("c"@ =~= seq![hex_digit(12)]);
        }
        "c"
    } else if d == 13 {
        proof {
            reveal_strlit("d");
            assert("d"@ =~= seq![hex_digit(13)]);
        }
        "d"
    } else if d == 14 {
        proof {
            reveal_strlit("e");
            assert("e"@ =~= seq![hex_digit(14)]);
        }
        "e"
    } else {
        proof {
            reveal_strlit("f");
            assert("f"@ =~= seq![hex_digit(15)]);
        }
        "f"
    }
}

/// The name of a named color in a BBCode color tag.
pub open spec fn named_color_name(c: NamedColor) -> Seq<char> {
    match c {
        NamedColor::Black => "black"@,
        NamedColor::DarkBlue => "dark_blue"@,
        NamedColor::DarkGreen => "dark_green"@,
        NamedColor::DarkAqua => "dark_aqua"@,
        NamedColor::DarkRed => "dark_red"@,
        NamedColor::DarkPurple => "dark_purple"@,
        NamedColor::Gold => "gold"@,
        NamedColor::Gray => "gray"@,
        NamedColor::DarkGray => "dark_gray"@,
        NamedColor::Blue => "blue"@,
        NamedColor::Green => "green"@,
        NamedColor::Aqua => "aqua"@,
        NamedColor::Red => "red"@,
        NamedColor::LightPurple => "light_purple"@,
        NamedColor::Yellow => "yellow"@,
        NamedColor::White => "white"@,
    }
}

/// What a color writes inside a BBCode color tag: a color name, a `#rrggbb`
/// hex triple, or `reset`.
pub open spec fn color_code(c: TextColor) -> Seq<char> {
    match c {
        TextColor::Named(n) => named_color_name(n),
        TextColor::Rgb(rgb) => "#"@ + hex2(rgb.r as nat) + hex2(rgb.g as nat) + hex2(
            rgb.b as nat,
        ),
        TextColor::Reset => "reset"@,
    }
}

/// Append a color's tag code.
fn append_color_code(out: &mut String, c: TextColor)
    ensures
        final(out)@ == old(out)@ + color_code(c),
{
    match c {
        TextColor::Named(n) => {
            let name: &'static str = match n {
                NamedColor::Black => "black",
                NamedColor::DarkBlue => "dark_blue",
                NamedColor::DarkGreen => "dark_green",
                NamedColor::DarkAqua => "dark_aqua",
                NamedColor::DarkRed => "dark_red",
                NamedColor::DarkPurple => "dark_purple",
                NamedColor::Gold => "gold",
                NamedColor::Gray => "gray",
                NamedColor::DarkGray => "dark_gray",
                NamedColor::Blue => "blue",
                NamedColor::Green => "green",
                NamedColor::Aqua => "aqua",
                NamedColor::Red => "red",
                NamedColor::LightPurple => "light_purple",
                NamedColor::Yellow => "yellow",
                NamedColor::White => "white",
            };
            out.append(name);
        },
        TextColor::Rgb(rgb) => {
            out.append("#");
            out.append(hex_digit_str(rgb.r as u64 / 16));
            out.append(hex_digit_str(rgb.r as u64 % 16));
            out.append(hex_digit_str(rgb.g as u64 / 16));
            out.append(hex_digit_str(rgb.g as u64 % 16));
            out.append(hex_digit_str(rgb.b as u64 / 16));
            out.append(hex_digit_str(rgb.b as u64 % 16));
            proof {
                assert(out@ =~= old(out)@ + color_code(c));
            }
        },
        TextColor::Reset => {
            out.append("reset");
        },
    }
}

/// The opening style tags of a span.
pub open spec fn bbcode_open_tags(sp: TextSpan) -> Seq<char> {
    (if sp.bold {
        "[b]"@
    } else {
        Seq::empty()
    }) + (if sp.italic {
        "[i]"@
    } else {
        Seq::empty()
    }) + (if sp.underlined {
        "[u]"@
    } else {
        Seq::empty()
    }) + (if sp.strikethrough {
        "[s]"@
    } else {
        Seq::empty()
    })
}

/// The color tag opening a span, if the span is colored.
pub open spec fn bbcode_color_open(sp: TextSpan) -> Seq<char> {
    match sp.color {
        Some(c) => "[color="@ + color_code(c) + "]"@,
        None => Seq::empty(),
    }
}

/// The closing tags of a span, in reverse order of the opening ones.
pub open spec fn bbcode_close_tags(sp: TextSpan) -> Seq<char> {
    (if sp.color is Some {
        "[/color]"@
    } else {
        Seq::empty()
    }) + (if sp.strikethrough {
        "[/s]"@
    } else {
        Seq::empty()
    }) + (if sp.underlined {
        "[/u]"@
    } else {
        Seq::empty()
    }) + (if sp.italic {
        "[/i]"@
    } else {
        Seq::empty()
    }) + (if sp.bold {
        "[/b]"@
    } else {
        Seq::empty()
    })
}

/// The BBCode rendering of one span: opening style tags, a color tag if
/// colored, the content, then the closing tags in reverse order.
pub open spec fn bbcode_span(sp: TextSpan) -> Seq<char> {
    bbcode_open_tags(sp) + bbcode_color_open(sp) + sp.content@ + bbcode_close_tags(sp)
}

/// The BBCode rendering of a span run.
pub open spec fn bbcode_text(spans: Seq<TextSpan>) -> Seq<char>
    decreases spans.len(),
{
    if spans.len() == 0 {
        Seq::empty()
    } else {
        bbcode_text(spans.drop_last()) + bbcode_span(spans.last())
    }
}

/// Append a span's opening tags, color tag, and content.
#[verifier::rlimit(100)]
fn append_bbcode_head(out: &mut String, sp: &TextSpan)
    ensures
        final(out)@ == old(out)@ + bbcode_open_tags(*sp) + bbcode_color_open(*sp) + sp.content@,
{
    let ghost o0 = out@;
    out.append(flag_str(sp.bold, "[b]"));
    out.append(flag_str(sp.italic, "[i]"));
    out.append(flag_str(sp.underlined, "[u]"));
    out.append(flag_str(sp.strikethrough, "[s]"));
    let ghost o1 = out@;
    proof {
        assert(o1 =~= o0 + bbcode_open_tags(*sp));
    }
    let mut color_tag = String::new();
    match &sp.color {
        Some(c) => {
            color_tag.append("[color=");
            append_color_code(&mut color_tag, *c);
            color_tag.append("]");
        },
        None => {},
    }
    proof {
        assert(color_tag@ =~= bbcode_color_open(*sp));
    }
    out.append(color_tag.as_str());
    out.append(sp.content.as_str());
    proof {
        assert(out@ =~= o0 + bbcode_open_tags(*sp) + bbcode_color_open(*sp) + sp.content@);
    }
}

/// Append a span's closing tags.
#[verifier::rlimit(100)]
fn append_bbcode_tail(out: &mut String, sp: &TextSpan)
    ensures
        final(out)@ == old(out)@ + bbcode_close_tags(*sp),
{
    let ghost o0 = out@;
    out.append(flag_str(sp.color.is_some(), "[/color]"));
    out.append(flag_str(sp.strikethrough, "[/s]"));
    out.append(flag_str(sp.underlined, "[/u]"));
    out.append(flag_str(sp.italic, "[/i]"));
    out.append(flag_str(sp.bold, "[/b]"));
    proof {
        assert(out@ =~= o0 + bbcode_close_tags(*sp));
    }
}

/// Append the BBCode rendering of one span.
fn append_bbcode_span(out: &mut String, sp: &TextSpan)
    ensures
        final(out)@ == old(out)@ + bbcode_span(*sp),
{
    append_bbcode_head(out, sp);
    append_bbcode_tail(out, sp);
    proof {
        assert(out@ =~= old(out)@ + bbcode_span(*sp));
    }
}

impl StyledText {
    /// Render as a BBCode string.
    pub fn bbcode_string(&self) -> (r: String)
        ensures
            r@ == bbcode_text(self.spans@),
    {
        let mut out = String::new();
        let mut i: usize = 0;
        proof {
            assert(self.spans@.take(0) =~= Seq::<TextSpan>::empty());
        }
        while i < self.spans.len()
            invariant
                0 <= i <= self.spans@.len(),
                out@ == bbcode_text(self.spans@.take(i as int)),
            decreases self.spans@.len() - i,
        {
            proof {
                assert(self.spans@.take(i as int + 1).drop_last() =~= self.spans@.take(i as int));
                assert(self.spans@.take(i as int + 1).last() == self.spans@[i as int]);
            }
            append_bbcode_span(&mut out, &self.spans[i]);
            i = i + 1;
        }
        proof {
            assert(self.spans@.take(self.spans@.len() as int) =~= self.spans@);
        }
        out
    }
}

impl BBCodeRenderer for StyledText {
    fn to_bbcode_string(&self) -> String {
        self.bbcode_string()
    }
}

/// One kind's section of a full overview: a `Kind:` header line, the kind's
/// breakdown, then a blank separator line.
pub open spec fn section_matches(
    spans: Seq<TextSpan>,
    p: AttributeParser,
    at: AttributeType,
) -> bool {
    &&& spans.len() == visible_entries(p.entries(at)).len() + 3
    &&& plain_span(spans.first(), kind_name_spec(at) + ":\n"@)
    &&& breakdown_matches(spans.subrange(1, spans.len() - 1), p.entries(at))
    &&& plain_span(spans.last(), "\n"@)
}

/// How many spans one kind's section takes.
pub open spec fn section_len(p: AttributeParser, at: AttributeType) -> int {
    visible_entries(p.entries(at)).len() + 3int
}

/// Where the section of the `k`-th kind starts in a full overview.
pub open spec fn overview_offset(p: AttributeParser, k: int) -> int
    decreases k,
{
    if k <= 0 {
        0
    } else {
        overview_offset(p, k - 1) + section_len(p, crate::attribute::all_kinds()[k - 1])
    }
}

/// A full overview: every kind's section, in display order.
pub open spec fn overview_matches(spans: Seq<TextSpan>, p: AttributeParser) -> bool {
    &&& spans.len() == overview_offset(p, 6)
    &&& forall|k: int|
        0 <= k < 6 ==> section_matches(
            #[trigger] spans.subrange(overview_offset(p, k), overview_offset(p, k + 1)),
            p,
            crate::attribute::all_kinds()[k],
        )
}

proof fn lemma_section_len_nonneg(p: AttributeParser, k: int)
    requires
        0 <= k <= 6,
    ensures
        overview_offset(p, k) >= 0,
    decreases k,
{
    if k > 0 {
        lemma_section_len_nonneg(p, k - 1);
    }
}

/// Section offsets grow with the kind index.
proof fn lemma_offset_monotone(p: AttributeParser, a: int, b: int)
    requires
        0 <= a <= b <= 6,
    ensures
        overview_offset(p, a) <= overview_offset(p, b),
    decreases b - a,
{
    if a < b {
        lemma_offset_monotone(p, a, b - 1);
    }
}

impl AttributeParser {
    /// Render the whole store: for every kind, its name, its breakdown, and
    /// a separating blank line.
    pub fn render_overview(&self) -> (r: StyledText)
        ensures
            overview_matches(r.spans@, *self),
    {
        let kinds = crate::attribute::all_attribute_types();
        let mut spans: Vec<TextSpan> = Vec::new();
        let mut k: usize = 0;
        while k < kinds.len()
            invariant
                0 <= k <= 6,
                kinds@ == crate::attribute::all_kinds(),
                spans@.len() == overview_offset(*self, k as int),
                forall|j: int|
                    0 <= j < k ==> section_matches(
                        #[trigger] spans@.subrange(
                            overview_offset(*self, j),
                            overview_offset(*self, j + 1),
                        ),
                        *self,
                        crate::attribute::all_kinds()[j],
                    ),
            decreases kinds.len() - k,
        {
            let at = kinds[k];
            let ghost pre = spans@;
            let ghost base = overview_offset(*self, k as int);

            let mut header = crate::text::kind_name(at);
            header.append(":\n");
            spans.push(TextSpan::plain(header));

            let mut part = self.aggregate_to_component(at);
            let ghost cs = part.spans@;
            spans.append(&mut part.spans);

            spans.push(TextSpan::plain("\n".to_string()));

            proof {
                lemma_section_len_nonneg(*self, k as int);
                assert(spans@.len() == base + cs.len() + 2);
                assert(cs.len() == visible_entries(self.entries(at)).len() + 1);
                assert(spans@.len() == overview_offset(*self, k as int + 1));
                let sect = spans@.subrange(base, spans@.len() as int);
                assert(sect.len() == section_len(*self, at));
                assert(sect.first() == spans@[base]);
                assert(plain_span(sect.first(), kind_name_spec(at) + ":\n"@));
                assert(sect.subrange(1, sect.len() - 1) =~= cs);
                assert(plain_span(sect.last(), "\n"@));
                assert(section_matches(sect, *self, at));
                assert forall|j: int|
                    0 <= j < k + 1 implies section_matches(
                    #[trigger] spans@.subrange(
                        overview_offset(*self, j),
                        overview_offset(*self, j + 1),
                    ),
                    *self,
                    crate::attribute::all_kinds()[j],
                ) by {
                    if j < k {
                        lemma_section_len_nonneg(*self, j);
                        lemma_offset_monotone(*self, j + 1, k as int);
                        assert(spans@.subrange(
                            overview_offset(*self, j),
                            overview_offset(*self, j + 1),
                        ) =~= pre.subrange(
                            overview_offset(*self, j),
                            overview_offset(*self, j + 1),
                        ));
                    } else {
                        assert(spans@.subrange(
                            overview_offset(*self, j),
                            overview_offset(*self, j + 1),
                        ) =~= sect);
                    }
                }
            }
            k = k + 1;
        }
        StyledText { spans }
    }
}

} // verus!
