//! Color resolution: shields.io-style named colors and their aliases,
//! fall-through to general CSS color syntax, perceptual brightness, and the
//! `rgba(...)` rendering used in SVG attributes.

use vstd::prelude::*;

use crate::strutil::{spec_dec, str_eq, u8_to_dec};

verus! {

/// An RGBA color: three 8-bit channels, and the alpha channel kept as the
/// decimal text the CSS parser produced for it (`"1"`, `"0.5"`, ...).
#[derive(Clone, Debug)]
pub struct Color {
    /// Red channel, `0 ..= 255`.
    pub r: u8,
    /// Green channel, `0 ..= 255`.
    pub g: u8,
    /// Blue channel, `0 ..= 255`.
    pub b: u8,
    /// Alpha channel as decimal text, normalized to `[0, 1]`.
    pub a: String,
}

/// The mathematical value of a `Color`.
pub struct ColorView {
    pub r: u8,
    pub g: u8,
    pub b: u8,
    pub a: Seq<char>,
}

impl View for Color {
    type V = ColorView;

    open spec fn view(&self) -> ColorView {
        ColorView { r: self.r, g: self.g, b: self.b, a: self.a@ }
    }
}

/// The fixed table of named colors, each with its hex value.
pub open spec fn named_color_table() -> Seq<(Seq<char>, Seq<char>)> {
    seq![
        ("blue"@, "#007ec6"@),
        ("brightgreen"@, "#4c1"@),
        ("green"@, "#97ca00"@),
        ("grey"@, "#555"@),
        ("lightgrey"@, "#9f9f9f"@),
        ("orange"@, "#fe7d37"@),
        ("red"@, "#e05d44"@),
        ("yellow"@, "#dfb317"@),
        ("yellowgreen"@, "#a4a61d"@),
    ]
}

/// The fixed table of aliases, each with the named color it stands for.
pub open spec fn alias_table() -> Seq<(Seq<char>, Seq<char>)> {
    seq![
        ("critical"@, "red"@),
        ("gray"@, "grey"@),
        ("important"@, "orange"@),
        ("inactive"@, "lightgrey"@),
        ("informational"@, "blue"@),
        ("lightgray"@, "lightgrey"@),
        ("success"@, "brightgreen"@),
    ]
}

/// The value paired with `key` in `t` at or after position `i`, if any.
pub open spec fn table_lookup_from(
    t: Seq<(Seq<char>, Seq<char>)>,
    key: Seq<char>,
    i: int,
) -> Option<Seq<char>>
    decreases t.len() - i,
{
    if i < 0 || i >= t.len() {
        None
    } else if t[i].0 == key {
        Some(t[i].1)
    } else {
        table_lookup_from(t, key, i + 1)
    }
}

/// The value paired with `key` in `t`, if any.
pub open spec fn table_lookup(t: Seq<(Seq<char>, Seq<char>)>, key: Seq<char>) -> Option<Seq<char>> {
    table_lookup_from(t, key, 0)
}

/// The hex value of a named color.
pub open spec fn spec_named_color(s: Seq<char>) -> Option<Seq<char>> {
    table_lookup(named_color_table(), s)
}

/// The hex value an alias stands for: the alias's target looked up as a
/// named color.
pub open spec fn spec_alias_color(s: Seq<char>) -> Option<Seq<char>> {
    match table_lookup(alias_table(), s) {
        Some(target) => spec_named_color(target),
        None => None,
    }
}

/// The string handed to the CSS parser when resolving `s`: the alias's hex
/// value, else the named color's hex value, else `s` itself.
pub open spec fn spec_candidate(s: Seq<char>) -> Seq<char> {
    match spec_alias_color(s) {
        Some(hex) => hex,
        None => match spec_named_color(s) {
            Some(hex) => hex,
            None => s,
        },
    }
}

/// What resolving `s` yields: the parse of the candidate string. `None`
/// exactly when `s` matches no table entry and is no valid CSS color.
pub open spec fn spec_resolve(s: Seq<char>) -> Option<ColorView> {
    css_color_of(spec_candidate(s))
}

/// What `css_color_parser`'s `Color` yields for a given string through
/// `FromStr`: the parse is a pure function of the characters alone, so its
/// result can be named. `None` stands for a parse error.
pub uninterp spec fn css_color_of(s: Seq<char>) -> Option<ColorView>;

/// Relies on `css_color_parser::Color::from_str`: parses a CSS3 color string
/// (`#rgb`, `#rrggbb`, `rgb(..)`, `rgba(..)`, `hsl(..)`, `hsla(..)`, and the
/// CSS3 color keywords), returns `Err` on anything else, and never panics.
/// The alpha channel is carried over as its decimal text.
#[verifier::external_body]
fn try_parse_color(color: &str) -> (r: Option<Color>)
    ensures
        match r {
            Some(c) => css_color_of(color@) == Some(c@),
            None => css_color_of(color@) is None,
        },
{
    match color.parse::<css_color_parser::Color>() {
        Ok(c) => Some(Color { r: c.r, g: c.g, b: c.b, a: format!("{}", c.a) }),
        Err(_) => None,
    }
}

/// The named-color entries, in table order.
fn named_color_entries() -> (v: Vec<(&'static str, &'static str)>)
    ensures
        v@.len() == named_color_table().len(),
        forall|i: int|
            0 <= i < v@.len() ==> (#[trigger] v@[i]).0@ == named_color_table()[i].0 && v@[i].1@
                == named_color_table()[i].1,
{
    let mut v: Vec<(&'static str, &'static str)> = Vec::new();
    v.push(("blue", "#007ec6"));
    v.push(("brightgreen", "#4c1"));
    v.push(("green", "#97ca00"));
    v.push(("grey", "#555"));
    v.push(("lightgrey", "#9f9f9f"));
    v.push(("orange", "#fe7d37"));
    v.push(("red", "#e05d44"));
    v.push(("yellow", "#dfb317"));
    v.push(("yellowgreen", "#a4a61d"));
    v
}

/// The alias entries, in table order.
fn alias_entries() -> (v: Vec<(&'static str, &'static str)>)
    ensures
        v@.len() == alias_table().len(),
        forall|i: int|
            0 <= i < v@.len() ==> (#[trigger] v@[i]).0@ == alias_table()[i].0 && v@[i].1@
                == alias_table()[i].1,
{
    let mut v: Vec<(&'static str, &'static str)> = Vec::new();
    v.push(("critical", "red"));
    v.push(("gray", "grey"));
    v.push(("important", "orange"));
    v.push(("inactive", "lightgrey"));
    v.push(("informational", "blue"));
    v.push(("lightgray", "lightgrey"));
    v.push(("success", "brightgreen"));
    v
}

/// The hex value of a named color, or `None` for a name outside the table.
pub fn find_named_color(named: &str) -> (r: Option<&'static str>)
    ensures
        match r {
            Some(hex) => spec_named_color(named@) == Some(hex@),
            None => spec_named_color(named@) is None,
        },
{
    let entries = named_color_entries();
    let ghost t = named_color_table();
    let mut i: usize = 0;
    while i < entries.len()
        invariant
            i <= entries.len(),
            entries@.len() == t.len(),
            forall|k: int|
                0 <= k < entries@.len() ==> (#[trigger] entries@[k]).0@ == t[k].0
                    && entries@[k].1@ == t[k].1,
            t == named_color_table(),
            table_lookup(t, named@) == table_lookup_from(t, named@, i as int),
        decreases entries.len() - i,
    {
        let entry = entries[i];
        if str_eq(entry.0, named) {
            return Some(entry.1);
        }
        i += 1;
    }
    None
}

/// The hex value an alias stands for, or `None` for a name that is no alias.
pub fn find_color_by_alias(named: &str) -> (r: Option<&'static str>)
    ensures
        match r {
            Some(hex) => spec_alias_color(named@) == Some(hex@),
            None => spec_alias_color(named@) is None,
        },
{
    let entries = alias_entries();
    let ghost t = alias_table();
    let mut i: usize = 0;
    while i < entries.len()
        invariant
            i <= entries.len(),
            entries@.len() == t.len(),
            forall|k: int|
                0 <= k < entries@.len() ==> (#[trigger] entries@[k]).0@ == t[k].0
                    && entries@[k].1@ == t[k].1,
            t == alias_table(),
            table_lookup(t, named@) == table_lookup_from(t, named@, i as int),
        decreases entries.len() - i,
    {
        let entry = entries[i];
        if str_eq(entry.0, named) {
            return find_named_color(entry.1);
        }
        i += 1;
    }
    None
}

/// Resolves an optional user-supplied color name: alias first, then named
/// color, then the raw input as a CSS color literal. `None` in means no
/// override was given; `None` out means nothing resolved and the caller is
/// to apply its default.
pub fn color_by_name(name: Option<&str>) -> (r: Option<Color>)
    ensures
        match name {
            None => r is None,
            Some(n) => match r {
                Some(c) => spec_resolve(n@) == Some(c@),
                None => spec_resolve(n@) is None,
            },
        },
{
    match name {
        None => None,
        Some(n) => {
            let candidate: &str = match find_color_by_alias(n) {
                Some(hex) => hex,
                None => match find_named_color(n) {
                    Some(hex) => hex,
                    None => n,
                },
            };
            try_parse_color(candidate)
        },
    }
}

/// The `rgba(r,g,b,a)` text of a color, with decimal channels.
pub open spec fn spec_color_string(c: ColorView) -> Seq<char> {
    "rgba("@ + spec_dec(c.r as int) + ","@ + spec_dec(c.g as int) + ","@ + spec_dec(c.b as int)
        + ","@ + c.a + ")"@
}

/// Renders a color as the `rgba(r,g,b,a)` attribute text.
pub fn color_to_string(color: Color) -> (s: String)
    ensures
        s@ == spec_color_string(color@),
{
    let mut s = String::new();
    s.append("rgba(");
    let r = u8_to_dec(color.r);
    s.append(r.as_str());
    s.append(",");
    let g = u8_to_dec(color.g);
    s.append(g.as_str());
    s.append(",");
    let b = u8_to_dec(color.b);
    s.append(b.as_str());
    s.append(",");
    s.append(color.a.as_str());
    s.append(")");
    s
}

/// Perceptual brightness of a color, in hundredths: the luma
/// `(299*r + 587*g + 114*b) / 255000` truncated to two decimal digits, so
/// `0 ..= 100`. The alpha channel plays no part.
pub open spec fn spec_brightness(c: ColorView) -> int {
    (299 * c.r + 587 * c.g + 114 * c.b) / 2550
}

/// Brightness of a color in hundredths of the unit scale.
pub fn brightness(color: Color) -> (b: u8)
    ensures
        b as int == spec_brightness(color@),
        b <= 100,
{
    let sum: u32 = 299 * (color.r as u32) + 587 * (color.g as u32) + 114 * (color.b as u32);
    (sum / 2550) as u8
}

/// Brightness is invariant under alpha: two colors that agree on the three
/// RGB channels have the same brightness, whatever their alpha channels.
pub proof fn lemma_brightness_alpha_invariant(c1: ColorView, c2: ColorView)
    requires
        c1.r == c2.r,
        c1.g == c2.g,
        c1.b == c2.b,
    ensures
        spec_brightness(c1) == spec_brightness(c2),
{
}

/// Every alias resolves to the very color its target resolves to.
pub proof fn lemma_alias_resolves_as_target(i: int)
    requires
        0 <= i < alias_table().len(),
    ensures
        spec_resolve(alias_table()[i].0) == spec_resolve(alias_table()[i].1),
{
    reveal_with_fuel(table_lookup_from, 12);
    reveal_strlit("blue");
    reveal_strlit("brightgreen");
    reveal_strlit("green");
    reveal_strlit("grey");
    reveal_strlit("lightgrey");
    reveal_strlit("orange");
    reveal_strlit("red");
    reveal_strlit("yellow");
    reveal_strlit("yellowgreen");
    reveal_strlit("critical");
    reveal_strlit("gray");
    reveal_strlit("important");
    reveal_strlit("inactive");
    reveal_strlit("informational");
    reveal_strlit("lightgray");
    reveal_strlit("success");
    assert("blue"@.len() == 4);
    assert("brightgreen"@.len() == 11);
    assert("green"@.len() == 5);
    assert("grey"@.len() == 4);
    assert("lightgrey"@.len() == 9);
    assert("orange"@.len() == 6);
    assert("red"@.len() == 3);
    assert("yellow"@.len() == 6);
    assert("yellowgreen"@.len() == 11);
    assert("critical"@.len() == 8);
    assert("gray"@.len() == 4);
    assert("important"@.len() == 9);
    assert("inactive"@.len() == 8);
    assert("informational"@.len() == 13);
    assert("lightgray"@.len() == 9);
    assert("success"@.len() == 7);
    assert("grey"@[0] == 'g' && "blue"@[0] == 'b' && "gray"@[0] == 'g');
    assert("grey"@[2] == 'e' && "gray"@[2] == 'a');
    assert("inactive"@[0] == 'i' && "critical"@[0] == 'c');
    assert("lightgray"@[0] == 'l' && "lightgrey"@[0] == 'l' && "important"@[0] == 'i');
    assert("lightgrey"@[7] == 'e' && "lightgray"@[7] == 'a');
    if i == 0 {
        assert(spec_candidate("critical"@) == spec_candidate("red"@));
    } else if i == 1 {
        assert(spec_candidate("gray"@) == spec_candidate("grey"@));
    } else if i == 2 {
        assert(spec_candidate("important"@) == spec_candidate("orange"@));
    } else if i == 3 {
        assert(spec_candidate("inactive"@) == spec_candidate("lightgrey"@));
    } else if i == 4 {
        assert(spec_candidate("informational"@) == spec_candidate("blue"@));
    } else if i == 5 {
        assert(spec_candidate("lightgray"@) == spec_candidate("lightgrey"@));
    } else {
        assert(spec_candidate("success"@) == spec_candidate("brightgreen"@));
    }
}

} // verus!

