use zenzai_portal::settings::{
    AccentColor, ColorRGB, ColorScheme, Contrast, PortalValue, Setting, SettingsConfig,
    SettingsError, SettingsMapValue, SettingsService,
};

fn empty_config() -> SettingsConfig {
    SettingsConfig {
        enabled: true,
        color_scheme: None,
        accent_color: None,
        contrast: None,
        dict: None,
    }
}

fn service(config: SettingsConfig) -> SettingsService {
    SettingsService { config }
}

fn section_get<'a>(section: &'a [Setting], key: &str) -> Option<&'a PortalValue> {
    section.iter().find(|s| s.key == key).map(|s| &s.value)
}

#[test]
fn version_is_one() {
    assert_eq!(service(empty_config()).version(), 1);
}

#[test]
fn unknown_namespace_fails() {
    let s = service(empty_config());
    let r = s.read("org.example.other", "color-scheme");
    assert_eq!(r.unwrap_err(), SettingsError::UnknownNamespace);
}

#[test]
fn unknown_key_fails() {
    let s = service(empty_config());
    let r = s.read("org.freedesktop.appearance", "cursor-size");
    assert_eq!(r.unwrap_err(), SettingsError::UnknownKey);
}

#[test]
fn color_scheme_defaults_to_no_preference() {
    let s = service(empty_config());
    let r = s.read("org.freedesktop.appearance", "color-scheme").unwrap();
    assert!(matches!(r, PortalValue::U32(0)));
}

#[test]
fn color_scheme_dark_encodes_as_one() {
    let mut cfg = empty_config();
    cfg.color_scheme = Some(ColorScheme::Dark);
    let r = service(cfg).read("org.freedesktop.appearance", "color-scheme").unwrap();
    assert!(matches!(r, PortalValue::U32(1)));
}

#[test]
fn contrast_defaults_and_encodes() {
    let s = service(empty_config());
    let r = s.read("org.freedesktop.appearance", "contrast").unwrap();
    assert!(matches!(r, PortalValue::U32(0)));

    let mut cfg = empty_config();
    cfg.contrast = Some(Contrast::High);
    let r = service(cfg).read("org.freedesktop.appearance", "contrast").unwrap();
    assert!(matches!(r, PortalValue::U32(1)));
}

#[test]
fn accent_color_absent_when_not_configured() {
    let s = service(empty_config());
    let r = s.read("org.freedesktop.appearance", "accent-color");
    assert_eq!(r.unwrap_err(), SettingsError::AccentColorNotConfigured);
}

#[test]
fn accent_color_parses_hex_string() {
    let mut cfg = empty_config();
    cfg.accent_color = Some(AccentColor::ColorString(String::from("#336699")));
    let r = service(cfg).read("org.freedesktop.appearance", "accent-color").unwrap();
    match r {
        PortalValue::Color(c) => assert_eq!(c, ColorRGB { r: 0x33, g: 0x66, b: 0x99 }),
        other => panic!("expected a color, got {:?}", value_kind(&other)),
    }
}

#[test]
fn accent_color_channels_divide_to_expected_floats() {
    let c = ColorRGB { r: 0x33, g: 0x66, b: 0x99 };
    let triple = (
        (c.r as f64) / 255.0,
        (c.g as f64) / 255.0,
        (c.b as f64) / 255.0,
    );
    assert_eq!(triple, (0.2, 0.4, 0.6));
}

#[test]
fn accent_color_unparseable_string_fails() {
    let mut cfg = empty_config();
    cfg.accent_color = Some(AccentColor::ColorString(String::from("not a color at all")));
    let r = service(cfg).read("org.freedesktop.appearance", "accent-color");
    assert_eq!(r.unwrap_err(), SettingsError::AccentColorUnparseable);
}

#[test]
fn accent_color_explicit_rgb_passes_through() {
    let mut cfg = empty_config();
    cfg.accent_color = Some(AccentColor::RGB(ColorRGB { r: 10, g: 20, b: 30 }));
    let r = service(cfg).read("org.freedesktop.appearance", "accent-color").unwrap();
    match r {
        PortalValue::Color(c) => assert_eq!(c, ColorRGB { r: 10, g: 20, b: 30 }),
        other => panic!("expected a color, got {:?}", value_kind(&other)),
    }
}

fn value_kind(v: &PortalValue) -> &'static str {
    match v {
        PortalValue::U32(_) => "u32",
        PortalValue::Color(_) => "color",
        PortalValue::Str(_) => "string",
        PortalValue::I64(_) => "i64",
        PortalValue::Bool(_) => "bool",
        PortalValue::F64Bits(_) => "f64",
    }
}

#[test]
fn read_all_empty_query_returns_defaulted_appearance() {
    let s = service(empty_config());
    let all = s.read_all(&Vec::new());
    assert_eq!(all.len(), 1);
    assert_eq!(all[0].0, "org.freedesktop.appearance");
    let section = &all[0].1;
    assert_eq!(section.len(), 2);
    assert!(matches!(
        section_get(section, "color-scheme"),
        Some(PortalValue::U32(0))
    ));
    assert!(matches!(
        section_get(section, "contrast"),
        Some(PortalValue::U32(0))
    ));
}

#[test]
fn read_all_includes_accent_color_when_configured() {
    let mut cfg = empty_config();
    cfg.accent_color = Some(AccentColor::ColorString(String::from("#ff0000")));
    let all = service(cfg).read_all(&Vec::new());
    let section = &all[0].1;
    match section_get(section, "accent-color") {
        Some(PortalValue::Color(c)) => assert_eq!(*c, ColorRGB { r: 255, g: 0, b: 0 }),
        _ => panic!("accent color missing from the appearance section"),
    }
}

#[test]
fn read_all_skips_unparseable_accent_color() {
    let mut cfg = empty_config();
    cfg.accent_color = Some(AccentColor::ColorString(String::from("garbage")));
    let all = service(cfg).read_all(&Vec::new());
    let section = &all[0].1;
    assert!(section_get(section, "accent-color").is_none());
}

fn config_with_dict() -> SettingsConfig {
    let mut cfg = empty_config();
    cfg.color_scheme = Some(ColorScheme::Light);
    cfg.dict = Some(vec![
        (
            String::from("org.example.editor"),
            vec![
                (String::from("font"), SettingsMapValue::Str(String::from("monospace"))),
                (String::from("size"), SettingsMapValue::Int(12)),
                (String::from("ligatures"), SettingsMapValue::Bool(true)),
            ],
        ),
        (
            String::from("org.example.player"),
            vec![(String::from("volume"), SettingsMapValue::Int(80))],
        ),
    ]);
    cfg
}

#[test]
fn read_all_merges_dictionary_and_appearance() {
    let all = service(config_with_dict()).read_all(&Vec::new());
    assert_eq!(all.len(), 3);
    let names: Vec<&str> = all.iter().map(|p| p.0.as_str()).collect();
    assert!(names.contains(&"org.example.editor"));
    assert!(names.contains(&"org.example.player"));
    assert!(names.contains(&"org.freedesktop.appearance"));
}

#[test]
fn read_all_filters_by_wildcard_namespace() {
    let all = service(config_with_dict()).read_all(&vec![String::from("org.example.*")]);
    assert_eq!(all.len(), 2);
    let names: Vec<&str> = all.iter().map(|p| p.0.as_str()).collect();
    assert_eq!(names, vec!["org.example.editor", "org.example.player"]);
}

#[test]
fn read_all_exact_namespace_query() {
    let all = service(config_with_dict()).read_all(&vec![String::from(
        "org.freedesktop.appearance",
    )]);
    assert_eq!(all.len(), 1);
    assert_eq!(all[0].0, "org.freedesktop.appearance");
    assert!(matches!(
        section_get(&all[0].1, "color-scheme"),
        Some(PortalValue::U32(2))
    ));
}

#[test]
fn read_all_merges_overlapping_queries_without_duplicates() {
    let queries = vec![String::from("org.example.*"), String::from("org.example.editor")];
    let all = service(config_with_dict()).read_all(&queries);
    assert_eq!(all.len(), 2);
    let editor = all.iter().find(|p| p.0 == "org.example.editor").unwrap();
    assert!(matches!(
        section_get(&editor.1, "size"),
        Some(PortalValue::I64(12))
    ));
    assert!(matches!(
        section_get(&editor.1, "ligatures"),
        Some(PortalValue::Bool(true))
    ));
}

#[test]
fn read_all_no_match_yields_empty_table() {
    let all = service(config_with_dict()).read_all(&vec![String::from("com.nothing")]);
    assert!(all.is_empty());
}

#[test]
fn appearance_namespace_wins_over_dictionary_entry() {
    let mut cfg = empty_config();
    cfg.dict = Some(vec![(
        String::from("org.freedesktop.appearance"),
        vec![(String::from("color-scheme"), SettingsMapValue::Int(9))],
    )]);
    let all = service(cfg).read_all(&Vec::new());
    assert_eq!(all.len(), 1);
    assert!(matches!(
        section_get(&all[0].1, "color-scheme"),
        Some(PortalValue::U32(0))
    ));
}

#[test]
fn float_values_carry_their_bit_pattern() {
    let mut cfg = empty_config();
    cfg.dict = Some(vec![(
        String::from("org.example.scale"),
        vec![(String::from("factor"), SettingsMapValue::Float(1.5f64.to_bits()))],
    )]);
    let all = service(cfg).read_all(&vec![String::from("org.example.scale")]);
    match section_get(&all[0].1, "factor") {
        Some(PortalValue::F64Bits(bits)) => assert_eq!(f64::from_bits(*bits), 1.5),
        _ => panic!("factor missing"),
    }
}
