use shield_maker::color::{brightness, color_by_name, color_to_string, find_color_by_alias, find_named_color};

#[test]
fn finds_color_by_alias() {
    let color = find_color_by_alias("success");
    assert!(color.is_some());
    assert_eq!("#4c1", color.unwrap());
}

#[test]
fn returns_none_when_alias_is_incorrect() {
    let color = find_color_by_alias("lol");
    assert!(color.is_none());
}

#[test]
fn returns_none_when_named_color_is_unknown() {
    let color = find_named_color("lol");
    assert!(color.is_none());
}

#[test]
fn returns_a_found_color() {
    let color = color_by_name(Some("success"));
    assert!(color.is_some());
    let color = color.unwrap();
    assert_eq!(color.a, "1");
    assert_eq!(color.r, 68_u8);
    assert_eq!(color.g, 204_u8);
    assert_eq!(color.b, 17_u8);
}

#[test]
fn test_brightness() {
    assert_eq!(brightness(color_by_name(Some("white")).unwrap()), 100);
    assert_eq!(brightness(color_by_name(Some("black")).unwrap()), 0);
    assert_eq!(brightness(color_by_name(Some("#abc123")).unwrap()), 66);
    assert_eq!(brightness(color_by_name(Some("rgb(10, 5, 128)")).unwrap()), 8);
}

#[test]
fn finds_named_color_hex() {
    assert_eq!(find_named_color("blue"), Some("#007ec6"));
    assert_eq!(find_named_color("brightgreen"), Some("#4c1"));
}

#[test]
fn no_override_resolves_to_nothing() {
    assert!(color_by_name(None).is_none());
}

#[test]
fn parses_css_literal_channels() {
    let color = color_by_name(Some("#abc123")).unwrap();
    assert_eq!(color.r, 171_u8);
    assert_eq!(color.g, 193_u8);
    assert_eq!(color.b, 35_u8);
    assert_eq!(color.a, "1");
}

#[test]
fn keeps_fractional_alpha() {
    let color = color_by_name(Some("rgba(10, 5, 128, 0.5)")).unwrap();
    assert_eq!(color.r, 10_u8);
    assert_eq!(color.g, 5_u8);
    assert_eq!(color.b, 128_u8);
    assert_eq!(color.a, "0.5");
}

#[test]
fn brightness_ignores_alpha() {
    let opaque = color_by_name(Some("rgb(10, 5, 128)")).unwrap();
    let translucent = color_by_name(Some("rgba(10, 5, 128, 0.5)")).unwrap();
    assert_eq!(brightness(opaque), brightness(translucent));
}

#[test]
fn every_alias_resolves_as_its_target() {
    let pairs = [
        ("critical", "red"),
        ("gray", "grey"),
        ("important", "orange"),
        ("inactive", "lightgrey"),
        ("informational", "blue"),
        ("lightgray", "lightgrey"),
        ("success", "brightgreen"),
    ];
    for (alias, target) in pairs {
        let a = color_by_name(Some(alias)).unwrap();
        let t = color_by_name(Some(target)).unwrap();
        assert_eq!((a.r, a.g, a.b, a.a), (t.r, t.g, t.b, t.a));
    }
}

#[test]
fn renders_rgba_text() {
    let color = color_by_name(Some("success")).unwrap();
    assert_eq!(color_to_string(color), "rgba(68,204,17,1)");
}

#[test]
fn garbage_stays_unresolved() {
    assert!(color_by_name(Some("")).is_none());
    assert!(color_by_name(Some("not a color")).is_none());
    assert!(color_by_name(Some("#ggg")).is_none());
}
