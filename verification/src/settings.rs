//! The settings resolution engine.
//!
//! Answers single-key reads over the well-known appearance namespace and
//! bulk reads over the appearance namespace merged with a free-form
//! user dictionary, both resolved through the wildcard map.

use vstd::prelude::*;

use crate::text::str_eq;
use crate::wildcard::wildcard_get_all;

verus! {

/// Color scheme preference; the wire encoding is 0, 1, 2 in declaration
/// order.
#[derive(Clone, Copy, PartialEq, Eq, Structural, Debug)]
pub enum ColorScheme {
    NoPreference,
    Dark,
    Light,
}

/// Contrast preference; the wire encoding is 0, 1 in declaration order.
#[derive(Clone, Copy, PartialEq, Eq, Structural, Debug)]
pub enum Contrast {
    NoPreference,
    High,
}

impl Default for ColorScheme {
    fn default() -> (r: Self)
        ensures
            r == ColorScheme::NoPreference,
    {
        ColorScheme::NoPreference
    }
}

impl Default for Contrast {
    fn default() -> (r: Self)
        ensures
            r == Contrast::NoPreference,
    {
        Contrast::NoPreference
    }
}

/// The wire encoding of a possibly unconfigured color scheme: absent
/// means "no preference".
pub open spec fn scheme_code(s: Option<ColorScheme>) -> u32 {
    match s {
        Option::None => 0,
        Option::Some(ColorScheme::NoPreference) => 0,
        Option::Some(ColorScheme::Dark) => 1,
        Option::Some(ColorScheme::Light) => 2,
    }
}

/// The wire encoding of a possibly unconfigured contrast: absent means
/// "no preference".
pub open spec fn contrast_code(c: Option<Contrast>) -> u32 {
    match c {
        Option::None => 0,
        Option::Some(Contrast::NoPreference) => 0,
        Option::Some(Contrast::High) => 1,
    }
}

impl ColorScheme {
    /// The wire encoding of this preference.
    pub fn code(&self) -> (r: u32)
        ensures
            r == scheme_code(Option::Some(*self)),
    {
        match self {
            ColorScheme::NoPreference => 0,
            ColorScheme::Dark => 1,
            ColorScheme::Light => 2,
        }
    }
}

impl Contrast {
    /// The wire encoding of this preference.
    pub fn code(&self) -> (r: u32)
        ensures
            r == contrast_code(Option::Some(*self)),
    {
        match self {
            Contrast::NoPreference => 0,
            Contrast::High => 1,
        }
    }
}

/// An RGB color with 8-bit channels. The transport layer divides each
/// channel by 255 for the floating-point triple it sends.
#[derive(Clone, Copy, PartialEq, Eq, Structural, Debug)]
pub struct ColorRGB {
    pub r: u8,
    pub g: u8,
    pub b: u8,
}

/// A configured accent color: either a CSS color string, parsed by an
/// outside parser, or explicit RGB channels.
#[derive(Debug)]
pub enum AccentColor {
    ColorString(String),
    RGB(ColorRGB),
}

/// Mathematical model of a configured accent color.
#[verifier::ext_equal]
pub ghost enum AccentColorView {
    ColorString(Seq<char>),
    RGB(ColorRGB),
}

impl View for AccentColor {
    type V = AccentColorView;

    open spec fn view(&self) -> AccentColorView {
        match self {
            AccentColor::ColorString(s) => AccentColorView::ColorString(s@),
            AccentColor::RGB(c) => AccentColorView::RGB(*c),
        }
    }
}

impl Clone for AccentColor {
    fn clone(&self) -> (res: Self)
        ensures
            res@ == self@,
    {
        match self {
            AccentColor::ColorString(s) => AccentColor::ColorString(s.clone()),
            AccentColor::RGB(c) => AccentColor::RGB(*c),
        }
    }
}

/// The color a CSS color string denotes, quantized to 8-bit channels,
/// or nothing for a string that does not parse. The outside parser
/// computes it; its value depends on the string alone.
pub uninterp spec fn css_color_of(s: Seq<char>) -> Option<(u8, u8, u8)>;

/// Relies on `csscolorparser::parse` and `Color::to_rgba8`: parses a CSS
/// color string and quantizes its channels to 8 bits; the result is a
/// function of the string alone, and parse failure yields nothing.
#[verifier::external_body]
fn parse_css_color(s: &str) -> (r: Option<(u8, u8, u8)>)
    ensures
        r == css_color_of(s@),
{
    match csscolorparser::parse(s) {
        Ok(c) => {
            let [cr, cg, cb, _ca] = c.to_rgba8();
            Some((cr, cg, cb))
        },
        Err(_) => None,
    }
}

/// The RGB channels an accent color resolves to: explicit channels as
/// given; a CSS string as the outside parser reads it, or nothing when
/// it does not parse.
pub open spec fn resolved_color(c: AccentColorView) -> Option<ColorRGB> {
    match c {
        AccentColorView::ColorString(s) => match css_color_of(s) {
            Option::Some(t) => Option::Some(ColorRGB { r: t.0, g: t.1, b: t.2 }),
            Option::None => Option::None,
        },
        AccentColorView::RGB(rgb) => Option::Some(rgb),
    }
}

impl AccentColor {
    /// The 8-bit RGB channels this accent color resolves to, or nothing
    /// when a configured CSS color string does not parse.
    pub fn to_rgb(&self) -> (res: Option<ColorRGB>)
        ensures
            res == resolved_color(self@),
    {
        match self {
            AccentColor::ColorString(s) => match parse_css_color(s.as_str()) {
                Option::Some(t) => Option::Some(ColorRGB { r: t.0, g: t.1, b: t.2 }),
                Option::None => Option::None,
            },
            AccentColor::RGB(c) => Option::Some(*c),
        }
    }
}

/// A free-form configured settings value. `Float` carries the IEEE 754
/// bit pattern of a 64-bit float; the transport layer converts.
#[derive(Debug)]
pub enum SettingsMapValue {
    Str(String),
    Int(i64),
    Bool(bool),
    Float(u64),
}

/// Mathematical model of a free-form settings value.
#[verifier::ext_equal]
pub ghost enum SettingsMapValueView {
    Str(Seq<char>),
    Int(i64),
    Bool(bool),
    Float(u64),
}

impl View for SettingsMapValue {
    type V = SettingsMapValueView;

    open spec fn view(&self) -> SettingsMapValueView {
        match self {
            SettingsMapValue::Str(s) => SettingsMapValueView::Str(s@),
            SettingsMapValue::Int(i) => SettingsMapValueView::Int(*i),
            SettingsMapValue::Bool(b) => SettingsMapValueView::Bool(*b),
            SettingsMapValue::Float(f) => SettingsMapValueView::Float(*f),
        }
    }
}

impl DeepView for SettingsMapValue {
    type V = SettingsMapValueView;

    open spec fn deep_view(&self) -> SettingsMapValueView {
        self.view()
    }
}

impl Clone for SettingsMapValue {
    fn clone(&self) -> (res: Self)
        ensures
            res@ == self@,
    {
        match self {
            SettingsMapValue::Str(s) => SettingsMapValue::Str(s.clone()),
            SettingsMapValue::Int(i) => SettingsMapValue::Int(*i),
            SettingsMapValue::Bool(b) => SettingsMapValue::Bool(*b),
            SettingsMapValue::Float(f) => SettingsMapValue::Float(*f),
        }
    }
}

/// A value a settings read answers with. `F64Bits` carries an IEEE 754
/// bit pattern; `Color` carries 8-bit channels; the transport layer
/// converts both.
#[derive(Debug)]
pub enum PortalValue {
    U32(u32),
    Color(ColorRGB),
    Str(String),
    I64(i64),
    Bool(bool),
    F64Bits(u64),
}

/// Mathematical model of an answered value.
#[verifier::ext_equal]
pub ghost enum PortalValueView {
    U32(u32),
    Color(ColorRGB),
    Str(Seq<char>),
    I64(i64),
    Bool(bool),
    F64Bits(u64),
}

impl View for PortalValue {
    type V = PortalValueView;

    open spec fn view(&self) -> PortalValueView {
        match self {
            PortalValue::U32(u) => PortalValueView::U32(*u),
            PortalValue::Color(c) => PortalValueView::Color(*c),
            PortalValue::Str(s) => PortalValueView::Str(s@),
            PortalValue::I64(i) => PortalValueView::I64(*i),
            PortalValue::Bool(b) => PortalValueView::Bool(*b),
            PortalValue::F64Bits(f) => PortalValueView::F64Bits(*f),
        }
    }
}

impl DeepView for PortalValue {
    type V = PortalValueView;

    open spec fn deep_view(&self) -> PortalValueView {
        self.view()
    }
}

impl Clone for PortalValue {
    fn clone(&self) -> (res: Self)
        ensures
            res@ == self@,
    {
        match self {
            PortalValue::U32(u) => PortalValue::U32(*u),
            PortalValue::Color(c) => PortalValue::Color(*c),
            PortalValue::Str(s) => PortalValue::Str(s.clone()),
            PortalValue::I64(i) => PortalValue::I64(*i),
            PortalValue::Bool(b) => PortalValue::Bool(*b),
            PortalValue::F64Bits(f) => PortalValue::F64Bits(*f),
        }
    }
}

/// The answered form of a free-form configured value.
pub open spec fn portal_of(v: SettingsMapValueView) -> PortalValueView {
    match v {
        SettingsMapValueView::Str(s) => PortalValueView::Str(s),
        SettingsMapValueView::Int(i) => PortalValueView::I64(i),
        SettingsMapValueView::Bool(b) => PortalValueView::Bool(b),
        SettingsMapValueView::Float(f) => PortalValueView::F64Bits(f),
    }
}

/// One key-value pair of an answered namespace section.
#[derive(Debug)]
pub struct Setting {
    pub key: String,
    pub value: PortalValue,
}

/// Mathematical model of an answered pair.
#[verifier::ext_equal]
pub ghost struct SettingView {
    pub key: Seq<char>,
    pub value: PortalValueView,
}

impl View for Setting {
    type V = SettingView;

    open spec fn view(&self) -> SettingView {
        SettingView { key: self.key@, value: self.value@ }
    }
}

impl DeepView for Setting {
    type V = SettingView;

    open spec fn deep_view(&self) -> SettingView {
        self.view()
    }
}

impl Clone for Setting {
    fn clone(&self) -> (res: Self)
        ensures
            res@ == self@,
    {
        let res = Setting { key: self.key.clone(), value: self.value.clone() };
        proof {
            assert(res@ =~= self@);
        }
        res
    }
}

/// The free-form dictionary: namespace name to key-value entries, keys
/// unique within a namespace.
pub type SettingsDict = Vec<(String, Vec<(String, SettingsMapValue)>)>;

/// Static settings configuration, loaded once at startup.
#[derive(Debug)]
pub struct SettingsConfig {
    pub enabled: bool,
    pub color_scheme: Option<ColorScheme>,
    pub accent_color: Option<AccentColor>,
    pub contrast: Option<Contrast>,
    pub dict: Option<SettingsDict>,
}

/// The well-known appearance namespace name.
pub open spec fn appearance_namespace() -> Seq<char> {
    "org.freedesktop.appearance"@
}

/// The color-scheme key of the appearance namespace.
pub open spec fn key_color_scheme() -> Seq<char> {
    "color-scheme"@
}

/// The contrast key of the appearance namespace.
pub open spec fn key_contrast() -> Seq<char> {
    "contrast"@
}

/// The accent-color key of the appearance namespace.
pub open spec fn key_accent_color() -> Seq<char> {
    "accent-color"@
}

/// Why a single-key read failed.
#[derive(Clone, Copy, PartialEq, Eq, Structural, Debug)]
pub enum SettingsError {
    /// The namespace is not the well-known appearance namespace.
    UnknownNamespace,
    /// The key is not one of the appearance keys.
    UnknownKey,
    /// The accent color was asked for but none is configured.
    AccentColorNotConfigured,
    /// A configured accent color string does not parse.
    AccentColorUnparseable,
}

/// The view of an answered namespace table: namespace name to section.
pub open spec fn table_pairs(t: Seq<(String, Vec<Setting>)>) -> Seq<(Seq<char>, Seq<SettingView>)> {
    Seq::new(t.len(), |i: int| (t[i].0@, t[i].1.deep_view()))
}

/// The key column of a namespace table view.
pub open spec fn spec_table_keys<V>(t: Seq<(Seq<char>, V)>) -> Seq<Seq<char>> {
    Seq::new(t.len(), |i: int| t[i].0)
}

/// Map insertion over an ordered table: the first entry under the same
/// key is replaced in place, else the new entry is appended.
pub open spec fn table_set<V>(t: Seq<(Seq<char>, V)>, k: Seq<char>, v: V) -> Seq<(Seq<char>, V)>
    decreases t.len(),
{
    if t.len() == 0 {
        seq![(k, v)]
    } else if t[0].0 == k {
        seq![(k, v)] + t.drop_first()
    } else {
        seq![t[0]] + table_set(t.drop_first(), k, v)
    }
}

/// `table_set` pinned down by the position of the first matching key.
pub proof fn lemma_table_set_at<V>(t: Seq<(Seq<char>, V)>, k: Seq<char>, v: V, j: int)
    requires
        0 <= j <= t.len(),
        forall|i: int| 0 <= i < j ==> (#[trigger] t[i]).0 != k,
        j < t.len() ==> t[j].0 == k,
    ensures
        j < t.len() ==> table_set(t, k, v) == t.take(j) + seq![(k, v)] + t.skip(j + 1),
        j == t.len() ==> table_set(t, k, v) == t.push((k, v)),
    decreases t.len(),
{
    if t.len() == 0 {
        assert(table_set(t, k, v) =~= t.push((k, v)));
    } else if t[0].0 == k {
        assert(j == 0);
        assert(seq![(k, v)] + t.drop_first() =~= t.take(0) + seq![(k, v)] + t.skip(1));
    } else {
        assert(j > 0);
        assert forall|i: int| 0 <= i < j - 1 implies (#[trigger] t.drop_first()[i]).0 != k by {
            assert(t.drop_first()[i] == t[i + 1]);
        }
        if j - 1 < t.drop_first().len() {
            assert(t.drop_first()[j - 1] == t[j]);
        }
        lemma_table_set_at(t.drop_first(), k, v, j - 1);
        if j < t.len() {
            assert(seq![t[0]] + (t.drop_first().take(j - 1) + seq![(k, v)] + t.drop_first().skip(j))
                =~= t.take(j) + seq![(k, v)] + t.skip(j + 1));
        } else {
            assert(seq![t[0]] + t.drop_first().push((k, v)) =~= t.push((k, v)));
        }
    }
}

/// Whatever the table held, insertion leaves the entry present.
pub proof fn lemma_table_set_contains<V>(t: Seq<(Seq<char>, V)>, k: Seq<char>, v: V)
    ensures
        table_set(t, k, v).contains((k, v)),
    decreases t.len(),
{
    if t.len() == 0 {
        assert(table_set(t, k, v)[0] == (k, v));
    } else if t[0].0 == k {
        assert(table_set(t, k, v)[0] == (k, v));
    } else {
        lemma_table_set_contains(t.drop_first(), k, v);
        let sub = table_set(t.drop_first(), k, v);
        let i = choose|i: int| 0 <= i < sub.len() && sub[i] == (k, v);
        assert(table_set(t, k, v)[i + 1] == (k, v));
    }
}

/// Replaces the first entry under `k`, or appends one.
pub fn table_set_entry(t: &mut Vec<(String, Vec<Setting>)>, k: String, v: Vec<Setting>)
    ensures
        table_pairs(final(t)@) == table_set(table_pairs(old(t)@), k@, v.deep_view()),
{
    let ghost orig = table_pairs(t@);
    let mut j: usize = 0;
    while j < t.len() && !str_eq(t[j].0.as_str(), k.as_str())
        invariant
            0 <= j <= t@.len(),
            forall|i: int| 0 <= i < j ==> (#[trigger] t@[i]).0@ != k@,
        decreases t@.len() - j,
    {
        j = j + 1;
    }
    proof {
        assert forall|i: int| 0 <= i < j implies (#[trigger] orig[i]).0 != k@ by {
            assert(orig[i].0 == t@[i].0@);
        }
        lemma_table_set_at(orig, k@, v.deep_view(), j as int);
    }
    if j < t.len() {
        let ghost before = t@;
        t.remove(j);
        t.insert(j, (k, v));
        proof {
            assert(t@ =~= before.take(j as int).push((k, v)) + before.skip(j + 1));
            assert(table_pairs(t@) =~= orig.take(j as int) + seq![(k@, v.deep_view())] + orig.skip(
                j + 1,
            ));
        }
    } else {
        let ghost before = t@;
        t.push((k, v));
        proof {
            assert(table_pairs(t@) =~= orig.push((k@, v.deep_view())));
        }
    }
}

/// The answered form of one configured namespace section.
pub open spec fn section_of(entries: Seq<(String, SettingsMapValue)>) -> Seq<SettingView> {
    Seq::new(entries.len(), |i: int| SettingView { key: entries[i].0@, value: portal_of(entries[i].1@) })
}

/// Converts one configured namespace section to its answered form.
fn section_from_map(entries: &Vec<(String, SettingsMapValue)>) -> (r: Vec<Setting>)
    ensures
        r.deep_view() == section_of(entries@),
{
    let mut r: Vec<Setting> = Vec::new();
    let mut i: usize = 0;
    while i < entries.len()
        invariant
            0 <= i <= entries@.len(),
            r.deep_view() =~= section_of(entries@).take(i as int),
        decreases entries@.len() - i,
    {
        let pair = &entries[i];
        let value = match &pair.1 {
            SettingsMapValue::Str(s) => PortalValue::Str(s.clone()),
            SettingsMapValue::Int(n) => PortalValue::I64(*n),
            SettingsMapValue::Bool(b) => PortalValue::Bool(*b),
            SettingsMapValue::Float(f) => PortalValue::F64Bits(*f),
        };
        let ghost prev = r.deep_view();
        r.push(Setting { key: pair.0.clone(), value });
        proof {
            assert(r.deep_view() =~= prev.push(section_of(entries@)[i as int]));
            assert(r.deep_view() =~= section_of(entries@).take(i + 1));
        }
        i = i + 1;
    }
    proof {
        assert(section_of(entries@).take(entries@.len() as int) =~= section_of(entries@));
    }
    r
}

/// The answered appearance section: color scheme and contrast always,
/// with defaulted encodings; the accent color only when it is
/// configured and parses.
pub open spec fn appearance_section(cfg: SettingsConfig) -> Seq<SettingView> {
    let base = seq![
        SettingView { key: key_color_scheme(), value: PortalValueView::U32(scheme_code(cfg.color_scheme)) },
        SettingView { key: key_contrast(), value: PortalValueView::U32(contrast_code(cfg.contrast)) },
    ];
    match cfg.accent_color {
        Option::None => base,
        Option::Some(c) => match resolved_color(c@) {
            Option::None => base,
            Option::Some(rgb) => base.push(
                SettingView { key: key_accent_color(), value: PortalValueView::Color(rgb) },
            ),
        },
    }
}

/// Builds the answered appearance section.
fn appearance_entries(cfg: &SettingsConfig) -> (r: Vec<Setting>)
    ensures
        r.deep_view() == appearance_section(*cfg),
{
    let mut r: Vec<Setting> = Vec::new();
    let code = match &cfg.color_scheme {
        Option::Some(s) => s.code(),
        Option::None => 0,
    };
    r.push(Setting { key: "color-scheme".to_owned(), value: PortalValue::U32(code) });
    let code = match &cfg.contrast {
        Option::Some(c) => c.code(),
        Option::None => 0,
    };
    r.push(Setting { key: "contrast".to_owned(), value: PortalValue::U32(code) });
    match &cfg.accent_color {
        Option::None => {},
        Option::Some(c) => match c.to_rgb() {
            Option::None => {},
            Option::Some(rgb) => {
                r.push(
                    Setting { key: "accent-color".to_owned(), value: PortalValue::Color(rgb) },
                );
            },
        },
    }
    proof {
        assert(r.deep_view() =~= appearance_section(*cfg));
    }
    r
}

/// The answered form of the free-form dictionary, entry by entry under
/// map-insertion semantics.
pub open spec fn dict_table(d: Seq<(String, Vec<(String, SettingsMapValue)>)>) -> Seq<
    (Seq<char>, Seq<SettingView>),
>
    decreases d.len(),
{
    if d.len() == 0 {
        Seq::empty()
    } else {
        table_set(dict_table(d.drop_last()), d.last().0@, section_of(d.last().1@))
    }
}

/// The one combined table bulk reads answer from: the free-form
/// dictionary with the appearance namespace inserted over it, so the
/// appearance namespace is always present and always canonical.
pub open spec fn combined_table(cfg: SettingsConfig) -> Seq<(Seq<char>, Seq<SettingView>)> {
    let base = match cfg.dict {
        Option::None => Seq::empty(),
        Option::Some(d) => dict_table(d@),
    };
    table_set(base, appearance_namespace(), appearance_section(cfg))
}

/// Every namespace of the table that a query hits, merged into the
/// accumulator under map-insertion semantics, in table order.
pub open spec fn merge_hits(
    acc: Seq<(Seq<char>, Seq<SettingView>)>,
    table: Seq<(Seq<char>, Seq<SettingView>)>,
    idxs: Seq<int>,
) -> Seq<(Seq<char>, Seq<SettingView>)>
    decreases idxs.len(),
{
    if idxs.len() == 0 {
        acc
    } else {
        let init = merge_hits(acc, table, idxs.drop_last());
        table_set(init, table[idxs.last()].0, table[idxs.last()].1)
    }
}

/// The table a non-empty namespace query list selects: the hits of each
/// query in turn, merged left to right.
pub open spec fn select_namespaces(
    table: Seq<(Seq<char>, Seq<SettingView>)>,
    queries: Seq<Seq<char>>,
) -> Seq<(Seq<char>, Seq<SettingView>)>
    decreases queries.len(),
{
    if queries.len() == 0 {
        Seq::empty()
    } else {
        merge_hits(
            select_namespaces(table, queries.drop_last()),
            table,
            crate::wildcard::match_indices(spec_table_keys(table), queries.last()),
        )
    }
}

/// Bulk reads always surface the appearance namespace: whatever the
/// configuration, the combined table holds its canonical section, and
/// that section answers `color-scheme` and `contrast` first, with the
/// defaulted encodings when they are unconfigured.
pub proof fn lemma_appearance_always_present(cfg: SettingsConfig)
    ensures
        combined_table(cfg).contains((appearance_namespace(), appearance_section(cfg))),
        appearance_section(cfg).len() >= 2,
        appearance_section(cfg)[0] == (SettingView {
            key: key_color_scheme(),
            value: PortalValueView::U32(scheme_code(cfg.color_scheme)),
        }),
        appearance_section(cfg)[1] == (SettingView {
            key: key_contrast(),
            value: PortalValueView::U32(contrast_code(cfg.contrast)),
        }),
{
    let base = match cfg.dict {
        Option::None => Seq::<(Seq<char>, Seq<SettingView>)>::empty(),
        Option::Some(d) => dict_table(d@),
    };
    lemma_table_set_contains(base, appearance_namespace(), appearance_section(cfg));
}

/// A clone of a section answers with the same view: the element clones
/// preserve each pair's key and value.
proof fn lemma_cloned_section(a: Vec<Setting>, b: Vec<Setting>)
    requires
        cloned::<Vec<Setting>>(a, b),
    ensures
        a.deep_view() == b.deep_view(),
{
    if a == b {
    } else {
        assert forall|i: int| 0 <= i < a@.len() implies a@[i]@ == b@[i]@ by {
            assert(cloned::<Setting>(a@[i], b@[i]));
            if a@[i] == b@[i] {
            } else {
                assert(a@[i]@ == b@[i]@);
            }
        }
        assert(a.deep_view() =~= b.deep_view());
    }
}

/// Builds the combined table bulk reads answer from.
fn build_combined(cfg: &SettingsConfig) -> (t: Vec<(String, Vec<Setting>)>)
    ensures
        table_pairs(t@) == combined_table(*cfg),
{
    let mut t: Vec<(String, Vec<Setting>)> = Vec::new();
    match &cfg.dict {
        Option::None => {
            proof {
                assert(table_pairs(t@) =~= Seq::<(Seq<char>, Seq<SettingView>)>::empty());
            }
        },
        Option::Some(d) => {
            proof {
                assert(d@.take(0) =~= Seq::<(String, Vec<(String, SettingsMapValue)>)>::empty());
                assert(table_pairs(t@) =~= dict_table(d@.take(0)));
            }
            let mut i: usize = 0;
            while i < d.len()
                invariant
                    0 <= i <= d@.len(),
                    table_pairs(t@) == dict_table(d@.take(i as int)),
                decreases d@.len() - i,
            {
                proof {
                    assert(d@.take(i + 1).drop_last() =~= d@.take(i as int));
                    assert(d@.take(i + 1).last() == d@[i as int]);
                }
                let pair = &d[i];
                let section = section_from_map(&pair.1);
                table_set_entry(&mut t, pair.0.clone(), section);
                i = i + 1;
            }
            proof {
                assert(d@.take(d@.len() as int) =~= d@);
            }
        },
    }
    let section = appearance_entries(cfg);
    table_set_entry(&mut t, "org.freedesktop.appearance".to_owned(), section);
    t
}

/// The settings portal service: immutable configuration, shared
/// read-only across requests.
#[derive(Debug)]
pub struct SettingsService {
    pub config: SettingsConfig,
}

impl SettingsService {
    /// The protocol version this service answers with.
    pub fn version(&self) -> (r: u32)
        ensures
            r == 1,
    {
        1
    }

    /// Answers a single-key read. Only the appearance namespace is
    /// recognized; `color-scheme` and `contrast` always answer, with
    /// defaults when unconfigured; `accent-color` answers only when it
    /// is configured and parses.
    pub fn read(&self, namespace: &str, key: &str) -> (res: Result<PortalValue, SettingsError>)
        ensures
            namespace@ != appearance_namespace() ==> res == Result::<
                PortalValue,
                SettingsError,
            >::Err(SettingsError::UnknownNamespace),
            namespace@ == appearance_namespace() && key@ == key_color_scheme() ==> res
                == Result::<PortalValue, SettingsError>::Ok(
                PortalValue::U32(scheme_code(self.config.color_scheme)),
            ),
            namespace@ == appearance_namespace() && key@ != key_color_scheme() && key@
                == key_contrast() ==> res == Result::<PortalValue, SettingsError>::Ok(
                PortalValue::U32(contrast_code(self.config.contrast)),
            ),
            namespace@ == appearance_namespace() && key@ != key_color_scheme() && key@
                != key_contrast() && key@ == key_accent_color() ==> res == (match self
                .config
                .accent_color {
                Option::None => Result::<PortalValue, SettingsError>::Err(
                    SettingsError::AccentColorNotConfigured,
                ),
                Option::Some(c) => match resolved_color(c@) {
                    Option::Some(rgb) => Result::<PortalValue, SettingsError>::Ok(
                        PortalValue::Color(rgb),
                    ),
                    Option::None => Result::<PortalValue, SettingsError>::Err(
                        SettingsError::AccentColorUnparseable,
                    ),
                },
            }),
            namespace@ == appearance_namespace() && key@ != key_color_scheme() && key@
                != key_contrast() && key@ != key_accent_color() ==> res == Result::<
                PortalValue,
                SettingsError,
            >::Err(SettingsError::UnknownKey),
    {
        if !str_eq(namespace, "org.freedesktop.appearance") {
            return Result::Err(SettingsError::UnknownNamespace);
        }
        if str_eq(key, "color-scheme") {
            let code = match &self.config.color_scheme {
                Option::Some(s) => s.code(),
                Option::None => 0,
            };
            Result::Ok(PortalValue::U32(code))
        } else if str_eq(key, "contrast") {
            let code = match &self.config.contrast {
                Option::Some(c) => c.code(),
                Option::None => 0,
            };
            Result::Ok(PortalValue::U32(code))
        } else if str_eq(key, "accent-color") {
            match &self.config.accent_color {
                Option::None => Result::Err(SettingsError::AccentColorNotConfigured),
                Option::Some(c) => match c.to_rgb() {
                    Option::Some(rgb) => Result::Ok(PortalValue::Color(rgb)),
                    Option::None => Result::Err(SettingsError::AccentColorUnparseable),
                },
            }
        } else {
            Result::Err(SettingsError::UnknownKey)
        }
    }

    /// Answers a bulk read. An empty query list answers with the whole
    /// combined table; otherwise each query is resolved through the
    /// wildcard map and the hits are merged, later writes winning.
    pub fn read_all(&self, namespaces: &Vec<String>) -> (res: Vec<(String, Vec<Setting>)>)
        ensures
            namespaces@.len() == 0 ==> table_pairs(res@) == combined_table(self.config),
            namespaces@.len() > 0 ==> table_pairs(res@) == select_namespaces(
                combined_table(self.config),
                namespaces.deep_view(),
            ),
    {
        let table = build_combined(&self.config);
        if namespaces.len() == 0 {
            return table;
        }
        let ghost tv = table_pairs(table@);
        let ghost nsdv = namespaces.deep_view();
        let mut res: Vec<(String, Vec<Setting>)> = Vec::new();
        proof {
            assert(nsdv.take(0) =~= Seq::<Seq<char>>::empty());
            assert(table_pairs(res@) =~= select_namespaces(tv, nsdv.take(0)));
        }
        let mut i: usize = 0;
        while i < namespaces.len()
            invariant
                0 <= i <= namespaces@.len(),
                tv == combined_table(self.config),
                tv == table_pairs(table@),
                nsdv == namespaces.deep_view(),
                table_pairs(res@) == select_namespaces(tv, nsdv.take(i as int)),
            decreases namespaces@.len() - i,
        {
            let ghost q = nsdv[i as int];
            let ghost idxs = crate::wildcard::match_indices(spec_table_keys(tv), q);
            let ghost acc0 = table_pairs(res@);
            let hits = wildcard_get_all(&table, namespaces[i].clone());
            proof {
                assert(crate::wildcard::table_keys(table@) =~= spec_table_keys(tv));
                crate::wildcard::lemma_match_indices(spec_table_keys(tv), q);
                assert forall|t: int| 0 <= t < idxs.len() implies (#[trigger] hits@[t]).0@
                    == tv[idxs[t]].0 && hits@[t].1.deep_view() == tv[idxs[t]].1 by {
                    lemma_cloned_section(table@[idxs[t]].1, hits@[t].1);
                }
                assert(idxs.take(0) =~= Seq::<int>::empty());
                assert(acc0 == merge_hits(acc0, tv, idxs.take(0)));
            }
            let mut j: usize = 0;
            while j < hits.len()
                invariant
                    0 <= j <= hits@.len(),
                    hits@.len() == idxs.len(),
                    tv == combined_table(self.config),
                    forall|t: int|
                        0 <= t < idxs.len() ==> 0 <= #[trigger] idxs[t] < tv.len(),
                    forall|t: int|
                        0 <= t < idxs.len() ==> (#[trigger] hits@[t]).0@ == tv[idxs[t]].0
                            && hits@[t].1.deep_view() == tv[idxs[t]].1,
                    table_pairs(res@) == merge_hits(acc0, tv, idxs.take(j as int)),
                decreases hits@.len() - j,
            {
                proof {
                    assert(idxs.take(j + 1).drop_last() =~= idxs.take(j as int));
                    assert(idxs.take(j + 1).last() == idxs[j as int]);
                }
                let pair = &hits[j];
                let section = clone_settings(&pair.1);
                table_set_entry(&mut res, pair.0.clone(), section);
                j = j + 1;
            }
            proof {
                assert(idxs.take(idxs.len() as int) =~= idxs);
                assert(nsdv.take(i + 1).drop_last() =~= nsdv.take(i as int));
                assert(nsdv.take(i + 1).last() == q);
                assert(table_pairs(res@) == select_namespaces(tv, nsdv.take(i + 1)));
            }
            i = i + 1;
        }
        proof {
            assert(nsdv.take(namespaces@.len() as int) =~= nsdv);
        }
        res
    }
}

/// Copies a section, pair for pair.
fn clone_settings(v: &Vec<Setting>) -> (r: Vec<Setting>)
    ensures
        r.deep_view() == v.deep_view(),
{
    let mut r: Vec<Setting> = Vec::new();
    let mut i: usize = 0;
    while i < v.len()
        invariant
            0 <= i <= v@.len(),
            r.deep_view() == v.deep_view().take(i as int),
        decreases v@.len() - i,
    {
        let ghost prev = r.deep_view();
        r.push(v[i].clone());
        proof {
            assert(r.deep_view() =~= prev.push(v@[i as int]@));
            assert(r.deep_view() =~= v.deep_view().take(i + 1));
        }
        i = i + 1;
    }
    proof {
        assert(v.deep_view().take(v@.len() as int) =~= v.deep_view());
    }
    r
}

} // verus!
