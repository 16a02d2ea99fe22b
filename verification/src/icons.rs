//! File-type icons: which icon a request asks for, the colour it is drawn in, and
//! a small cache of icons already drawn.
use vstd::prelude::*;
use vstd::string::{StringExecFns, StringSliceAdditionalSpecFns};
use vstd::utf8::{decode_utf8, encode_utf8, is_char_boundary};
use std::collections::VecDeque;
use crate::auth::{quad_char, quad_to_char, sha3_256, sha3_256_spec};
use crate::config::{conf_lookup, ConfigStore, IconConf};
use crate::text::{all_digits, chars_eq, chars_of, digit_value, digits_value, parse_unsigned, parse_unsigned_exec, string_of};

verus! {

/// The most icons the cache holds.
pub const MAX_ICONS_CACHED: usize = 128;

/// Icons already drawn, as (file type, SVG text), most recently drawn first.
pub struct IconsCache(VecDeque<(String, String)>);

/// The view of the cache entries as pairs of texts.
pub open spec fn entries_view(s: Seq<(String, String)>) -> Seq<(Seq<char>, Seq<char>)> {
    s.map_values(|e: (String, String)| (e.0@, e.1@))
}

/// The SVG of the first (most recent) entry for `ext`.
pub open spec fn cache_lookup(entries: Seq<(Seq<char>, Seq<char>)>, ext: Seq<char>) -> Option<Seq<char>>
    decreases entries.len(),
{
    if entries.len() == 0 {
        None
    } else if entries[0].0 == ext {
        Some(entries[0].1)
    } else {
        cache_lookup(entries.drop_first(), ext)
    }
}

impl View for IconsCache {
    type V = Seq<(Seq<char>, Seq<char>)>;

    closed spec fn view(&self) -> Self::V {
        entries_view(self.0@)
    }
}

impl IconsCache {
    #[verifier::type_invariant]
    spec fn within_limit(&self) -> bool {
        self.0@.len() <= MAX_ICONS_CACHED
    }

    /// An empty cache.
    pub fn empty() -> (res: Self)
        ensures
            res@ == Seq::<(Seq<char>, Seq<char>)>::empty(),
    {
        let res = IconsCache(VecDeque::new());
        assert(res@ =~= Seq::<(Seq<char>, Seq<char>)>::empty());
        res
    }

    /// The cached SVG of file type `ext`, if it was drawn before.
    pub fn get(&self, ext: &str) -> (res: Option<String>)
        ensures
            match cache_lookup(self@, ext@) {
                Some(svg) => res is Some && res->0@ == svg,
                None => res is None,
            },
    {
        let kc = chars_of(ext);
        let mut i: usize = 0;
        assert(self@.skip(0) =~= self@);
        while i < self.0.len()
            invariant
                i <= self.0@.len(),
                kc@ == ext@,
                self@ == entries_view(self.0@),
                cache_lookup(self@, ext@) == cache_lookup(self@.skip(i as int), ext@),
            decreases self.0@.len() - i,
        {
            assert(self@.skip(i as int).drop_first() =~= self@.skip(i + 1));
            let ec = chars_of(self.0[i].0.as_str());
            if chars_eq(ec.as_slice(), kc.as_slice()) {
                return Some(self.0[i].1.clone());
            }
            i += 1;
        }
        None
    }

    /// Files a newly drawn icon as the most recent entry. When that makes the cache
    /// hold more than `MAX_ICONS_CACHED` icons, the least recent entry, at the back, is
    /// dropped.
    pub fn insert_new(&mut self, ext: String, svg: String)
        ensures
            final(self)@ == seq![(ext@, svg@)] + cache_kept(old(self)@),
            final(self)@.len() <= MAX_ICONS_CACHED,
    {
        proof {
            use_type_invariant(&*self);
        }
        let ghost ev = (ext@, svg@);
        let mut entries: VecDeque<(String, String)> = VecDeque::new();
        std::mem::swap(&mut entries, &mut self.0);
        let ghost before = entries@;
        entries.push_front((ext, svg));
        if entries.len() > MAX_ICONS_CACHED {
            let _dropped = entries.pop_back();
            assert(entries_view(entries@) =~= seq![ev] + entries_view(before).take(MAX_ICONS_CACHED - 1));
        } else {
            assert(entries_view(entries@) =~= seq![ev] + entries_view(before));
        }
        self.0 = entries;
    }
}

/// The entries that stay when a new one is filed in front of `entries`: all of them while
/// the cache is not full, else all but the least recent one.
pub open spec fn cache_kept(entries: Seq<(Seq<char>, Seq<char>)>) -> Seq<(Seq<char>, Seq<char>)> {
    if entries.len() < MAX_ICONS_CACHED {
        entries
    } else {
        entries.take(MAX_ICONS_CACHED - 1)
    }
}

/// An icon just filed is what the cache answers for its file type, whether or not the
/// cache was full; the other entries keep their order, and only the least recent one
/// leaves a full cache.
pub proof fn lemma_insert_then_get(
    before: Seq<(Seq<char>, Seq<char>)>,
    after: Seq<(Seq<char>, Seq<char>)>,
    ext: Seq<char>,
    svg: Seq<char>,
)
    requires
        before.len() <= MAX_ICONS_CACHED,
        after == seq![(ext, svg)] + cache_kept(before),
    ensures
        cache_lookup(after, ext) == Some(svg),
        after.len() <= MAX_ICONS_CACHED,
        after.drop_first() == cache_kept(before),
        before.len() < MAX_ICONS_CACHED ==> after.len() == before.len() + 1,
        before.len() == MAX_ICONS_CACHED ==> after.len() == MAX_ICONS_CACHED && after.drop_first()
            == before.drop_last(),
{
    assert(after.drop_first() =~= cache_kept(before));
    if before.len() == MAX_ICONS_CACHED {
        assert(before.take(MAX_ICONS_CACHED - 1) =~= before.drop_last());
    }
}

/// `ext` ends with `.svg`.
pub open spec fn has_svg_suffix(ext: Seq<char>) -> bool {
    ".svg"@.is_suffix_of(ext)
}

/// The file type an icon request names: the request's text without a trailing `.svg`.
pub open spec fn requested_type(ext: Seq<char>) -> Seq<char> {
    if has_svg_suffix(ext) {
        ext.take(ext.len() - 4)
    } else {
        ext
    }
}

/// The file type named by the icon request `ext` (a trailing `.svg` removed).
pub fn strip_svg_suffix(ext: &str) -> (res: String)
    ensures
        res@ == requested_type(ext@),
{
    let cs = chars_of(ext);
    let n = cs.len();
    proof {
        reveal_strlit(".svg");
    }
    let is_svg = n >= 4 && cs[n - 4] == '.' && cs[n - 3] == 's' && cs[n - 2] == 'v' && cs[n - 1] == 'g';
    assert(is_svg ==> cs@.subrange(n - 4, n as int) =~= ".svg"@);
    assert(has_svg_suffix(ext@) ==> cs@.subrange(n - 4, n as int)[0] == '.');
    if is_svg {
        let mut out: Vec<char> = Vec::new();
        let mut i: usize = 0;
        while i < n - 4
            invariant
                n >= 4,
                n == cs.len(),
                i <= n - 4,
                out@ == cs@.take(i as int),
            decreases n - 4 - i,
        {
            out.push(cs[i]);
            i += 1;
            assert(out@ =~= cs@.take(i as int));
        }
        string_of(out.as_slice())
    } else {
        proof {
            if has_svg_suffix(ext@) {
                let t = cs@.subrange(n - 4, n as int);
                assert(t[1] == 's' && t[2] == 'v' && t[3] == 'g');
            }
        }
        string_of(cs.as_slice())
    }
}

/// ASCII lower case of one character.
pub open spec fn ascii_lower(c: char) -> char {
    if 'A' <= c && c <= 'Z' {
        (((c as u32) + 32) as u8) as char
    } else {
        c
    }
}

/// ASCII upper case of one character.
pub open spec fn ascii_upper(c: char) -> char {
    if 'a' <= c && c <= 'z' {
        (((c as u32) - 32) as u8) as char
    } else {
        c
    }
}

/// `ext` equals `folder` up to ASCII case (as `eq_ignore_ascii_case("folder")`).
pub open spec fn is_folder_type(ext: Seq<char>) -> bool {
    ext.len() == 6 && forall|i: int| 0 <= i < 6 ==> #[trigger] ascii_lower(ext[i]) == "folder"@[i]
}

/// Whether the requested type is `folder`, in any ASCII case.
pub fn is_folder_request(ext: &str) -> (r: bool)
    ensures
        r == is_folder_type(ext@),
{
    proof {
        reveal_strlit("folder");
    }
    let cs = chars_of(ext);
    if cs.len() != 6 {
        return false;
    }
    let f: [char; 6] = ['f', 'o', 'l', 'd', 'e', 'r'];
    assert(f@ =~= "folder"@);
    let mut i: usize = 0;
    while i < 6
        invariant
            i <= 6,
            cs@ == ext@,
            cs@.len() == 6,
            f@ == "folder"@,
            forall|j: int| 0 <= j < i ==> #[trigger] ascii_lower(ext@[j]) == "folder"@[j],
        decreases 6 - i,
    {
        let c = cs[i];
        let lower = if 'A' <= c && c <= 'Z' {
            (((c as u32) + 32) as u8) as char
        } else {
            c
        };
        assert(lower == ascii_lower(ext@[i as int]));
        if lower != f[i] {
            return false;
        }
        i += 1;
    }
    true
}

/// The key an icon is drawn and cached under: the first three bytes of the type,
/// in ASCII upper case (the whole type if it is shorter).
pub open spec fn icon_key_spec(ext: Seq<char>) -> Seq<char> {
    let head = if encode_utf8(ext).len() <= 3 {
        ext
    } else {
        decode_utf8(encode_utf8(ext).take(3))
    };
    head.map_values(|c: char| ascii_upper(c))
}

/// Cutting a type to three bytes does not split a character (`String::truncate(3)`
/// panics there).
pub open spec fn icon_key_cuttable(ext: Seq<char>) -> bool {
    encode_utf8(ext).len() <= 3 || is_char_boundary(encode_utf8(ext), 3)
}

/// The key of a type is the type's first three bytes (all of it when shorter) in ASCII
/// upper case: character by character, an ASCII lower-case letter `a`..=`z` becomes its
/// capital (32 code points lower), and every other character stays as it is; so no ASCII
/// lower-case letter is left in a key.
pub proof fn lemma_icon_key_is_upper_case(ext: Seq<char>)
    requires
        icon_key_cuttable(ext),
    ensures
        ({
            let head = if encode_utf8(ext).len() <= 3 {
                ext
            } else {
                decode_utf8(encode_utf8(ext).take(3))
            };
            let key = icon_key_spec(ext);
            &&& key.len() == head.len()
            &&& forall|i: int|
                0 <= i < key.len() ==> if 'a' <= #[trigger] head[i] <= 'z' {
                    key[i] as u32 == head[i] as u32 - 32 && 'A' <= key[i] <= 'Z'
                } else {
                    key[i] == head[i]
                }
            &&& forall|i: int| 0 <= i < key.len() ==> !('a' <= #[trigger] key[i] <= 'z')
        }),
{
    let head = if encode_utf8(ext).len() <= 3 {
        ext
    } else {
        decode_utf8(encode_utf8(ext).take(3))
    };
    let key = icon_key_spec(ext);
    assert forall|i: int| 0 <= i < key.len() implies if 'a' <= #[trigger] head[i] <= 'z' {
        key[i] as u32 == head[i] as u32 - 32 && 'A' <= key[i] <= 'Z'
    } else {
        key[i] == head[i]
    } by {
        assert(key[i] == ascii_upper(head[i]));
        if 'a' <= head[i] <= 'z' {
            let c = head[i];
            let u = (c as u32) - 32;
            assert(97 <= c as u32 <= 122);
            assert(((u as u8) as char) as u32 == u);
        }
    }
    assert forall|i: int| 0 <= i < key.len() implies !('a' <= #[trigger] key[i] <= 'z') by {
        assert(key[i] == ascii_upper(head[i]));
        if 'a' <= head[i] <= 'z' {
            let c = head[i];
            let u = (c as u32) - 32;
            assert(((u as u8) as char) as u32 == u);
        }
    }
}

/// The cache key for the requested type `ext`: its first three bytes, upper case.
pub fn icon_key(ext: &str) -> (res: String)
    requires
        icon_key_cuttable(ext@),
    ensures
        res@ == icon_key_spec(ext@),
{
    let nbytes = ext.as_bytes().len();
    let head: Vec<char> = if nbytes <= 3 {
        chars_of(ext)
    } else {
        let (a, _b) = ext.split_at(3);
        proof {
            vstd::utf8::encode_utf8_decode_utf8(a@);
            assert(a.spec_bytes() == encode_utf8(a@));
        }
        chars_of(a)
    };
    let mut out: Vec<char> = Vec::new();
    let mut i: usize = 0;
    while i < head.len()
        invariant
            i <= head.len(),
            out@ == head@.take(i as int).map_values(|c: char| ascii_upper(c)),
        decreases head.len() - i,
    {
        let c = head[i];
        let up = if 'a' <= c && c <= 'z' {
            (((c as u32) - 32) as u8) as char
        } else {
            c
        };
        out.push(up);
        i += 1;
        assert(out@ =~= head@.take(i as int).map_values(|c: char| ascii_upper(c)));
    }
    assert(head@.take(head@.len() as int) =~= head@);
    string_of(out.as_slice())
}

/// The colour generated for a type without a configured look: `#` and six lower-case
/// hex digits, the `i`-th being the first six bytes of the SHA3-256 of the key, each
/// taken modulo 16.
pub open spec fn generated_color_spec(key: Seq<char>) -> Seq<char> {
    let digest = sha3_256_spec(encode_utf8(key));
    seq!['#'] + Seq::new(6, |i: int| quad_char((digest[i] % 16) as u8))
}

/// The colour generated for `key`.
pub fn generated_color(key: &str) -> (res: String)
    ensures
        res@ == generated_color_spec(key@),
{
    let digest = sha3_256(key.as_bytes());
    let ghost spec_digest = sha3_256_spec(encode_utf8(key@));
    let mut res = String::new();
    res.push('#');
    let mut i: usize = 0;
    while i < 6
        invariant
            i <= 6,
            digest@ == spec_digest,
            digest@.len() == 32,
            res@ == seq!['#'] + Seq::new(i as nat, |j: int| quad_char((spec_digest[j] % 16) as u8)),
        decreases 6 - i,
    {
        let d = digest[i] % 16;
        res.push(quad_to_char(d));
        i += 1;
        assert(res@ =~= seq!['#'] + Seq::new(i as nat, |j: int| quad_char((spec_digest[j] % 16) as u8)));
    }
    res
}

/// The look of an icon: the configured one for its key, or a generated one that shows
/// the key in a colour derived from it.
pub open spec fn icon_look_spec(confs: Seq<(String, IconConf)>, key: Seq<char>) -> (Seq<char>, Seq<char>) {
    match conf_lookup(confs, key) {
        Some(c) => (c.display_text@, c.color@),
        None => (key, generated_color_spec(key)),
    }
}

/// The look of the icon for `key`.
pub fn icon_look(config: &ConfigStore, key: &str) -> (res: IconConf)
    ensures
        (res.display_text@, res.color@) == icon_look_spec(config.icon_confs_view(), key@),
{
    match config.icon_conf_for(key) {
        Some(c) => c,
        None => IconConf { display_text: string_of(chars_of(key).as_slice()), color: generated_color(key) },
    }
}

/// A colour that can be read: at least one character, the first of them ASCII, and the
/// rest a hexadecimal `u32` (`u32::from_str_radix(&color[1..], 16)` succeeds).
pub open spec fn readable_color(color: Seq<char>) -> bool {
    color.len() > 0 && (color[0] as u32) < 128 && parse_unsigned(color.drop_first(), 16, u32::MAX as nat)
        is Some
}

/// The number a readable colour spells after its first character.
pub open spec fn color_number(color: Seq<char>) -> nat {
    parse_unsigned(color.drop_first(), 16, u32::MAX as nat)->0
}

/// A colour is dark when its three low bytes average below half of 255, that is when
/// `(r + g + b) / 765 < 0.5`, which for whole numbers is `2 * (r + g + b) < 765`.
pub open spec fn is_dark_color(color: Seq<char>) -> bool {
    let n = color_number(color);
    2 * ((n % 256) + ((n / 256) % 256) + ((n / 65536) % 256)) < 765
}

/// Whether the colour `color` is dark.
pub fn color_is_dark(color: &str) -> (r: bool)
    requires
        readable_color(color@),
    ensures
        r == is_dark_color(color@),
{
    let cs = chars_of(color);
    let mut rest: Vec<char> = Vec::new();
    let mut i: usize = 1;
    while i < cs.len()
        invariant
            1 <= i <= cs.len(),
            rest@ == cs@.subrange(1, i as int),
        decreases cs.len() - i,
    {
        rest.push(cs[i]);
        i += 1;
        assert(rest@ =~= cs@.subrange(1, i as int));
    }
    assert(cs@.subrange(1, cs@.len() as int) =~= color@.drop_first());
    let num = match parse_unsigned_exec(rest.as_slice(), 16, 0xffff_ffff) {
        Some(n) => n as u32,
        None => {
            return false;
        },
    };
    let b0 = num & 0xff;
    let b1 = (num >> 8) & 0xff;
    let b2 = (num >> 16) & 0xff;
    assert(num & 0xff == num % 256) by (bit_vector);
    assert((num >> 8) & 0xff == (num / 256) % 256) by (bit_vector);
    assert((num >> 16) & 0xff == (num / 65536) % 256) by (bit_vector);
    let total: u32 = b0 + b1 + b2;
    total * 2 < 765
}

/// The fill of the folded top edge: light on dark icons, dark on light ones.
pub open spec fn edge_fill_spec(dark: bool) -> Seq<char> {
    if dark {
        "rgba(255, 255, 255, 0.5)"@
    } else {
        "rgba(0, 0, 0, 0.3)"@
    }
}

/// The fill of the folded top edge.
pub fn edge_fill(dark: bool) -> (res: &'static str)
    ensures
        res@ == edge_fill_spec(dark),
{
    if dark {
        "rgba(255, 255, 255, 0.5)"
    } else {
        "rgba(0, 0, 0, 0.3)"
    }
}

/// The SVG markup that `svg::Document::to_string` gives for a document built from plain
/// parts: the attributes of the `svg` element (besides its `xmlns`), then its children in
/// order: plain elements (name and attributes), then `text` elements (attributes and the
/// text they show).
pub uninterp spec fn svg_document_markup(
    attributes: Seq<(Seq<char>, Seq<char>)>,
    elements: Seq<(Seq<char>, Seq<(Seq<char>, Seq<char>)>)>,
    texts: Seq<(Seq<(Seq<char>, Seq<char>)>, Seq<char>)>,
) -> Seq<char>;

/// `svg::Document::new()` (an `svg` element with its `xmlns`), given the `attributes` with
/// `set`, then each element of `elements` (an `Element::new(name)` with its attributes
/// assigned) and each text of `texts` (a `Text::new(content)` with its attributes set)
/// appended with `add`, in that order, written out with `to_string` (which is what
/// `svg::write` writes): the markup named `svg_document_markup` of these parts.
#[verifier::external_body]
fn svg_markup(
    attributes: &Vec<(String, String)>,
    elements: &Vec<(String, Vec<(String, String)>)>,
    texts: &Vec<(Vec<(String, String)>, String)>,
) -> (res: String)
    ensures
        res@ == svg_document_markup(attributes.deep_view(), elements.deep_view(), texts.deep_view()),
{
    let mut doc = svg::Document::new();
    for (k, v) in attributes { doc = doc.set(k, v.clone()); }
    for (name, attrs) in elements {
        let mut e = svg::node::element::Element::new(name);
        for (k, v) in attrs { svg::Node::assign(&mut e, k, v.clone()); }
        doc = doc.add(e);
    }
    for (attrs, content) in texts {
        let mut t = svg::node::element::Text::new(content);
        for (k, v) in attrs { t = t.set(k, v.clone()); }
        doc = doc.add(t);
    }
    doc.to_string()
}

/// The attributes of the icon's `svg` element.
pub open spec fn icon_svg_attributes() -> Seq<(Seq<char>, Seq<char>)> {
    seq![("viewBox"@, "-5 -5 60 60"@)]
}

/// The plain elements of an icon: the sheet (in `color`), its folded corner (in `edge`)
/// and the grey label background.
pub open spec fn icon_svg_elements(color: Seq<char>, edge: Seq<char>) -> Seq<(Seq<char>, Seq<(Seq<char>, Seq<char>)>)> {
    seq![
        ("path"@, seq![("fill"@, color), ("stroke"@, "none"@), ("d"@, "M5,50 L5,15 L20,0 L45,0 L45,50 z"@)]),
        ("path"@, seq![("fill"@, edge), ("stroke"@, "none"@), ("d"@, "M5,15 L20,0 L20,15 z"@)]),
        ("rect"@, seq![
            ("x"@, "20"@), ("y"@, "25"@), ("rx"@, "5"@), ("ry"@, "5"@), ("height"@, "20"@), ("width"@, "30"@),
            ("fill"@, "#ddd"@),
        ]),
    ]
}

/// The text of an icon: the label showing `text`.
pub open spec fn icon_svg_texts(text: Seq<char>) -> Seq<(Seq<(Seq<char>, Seq<char>)>, Seq<char>)> {
    seq![(seq![
        ("x"@, "35"@), ("y"@, "37"@), ("text-anchor"@, "middle"@), ("font-size"@, "0.9em"@),
        ("font-family"@, "Arial, Helvetica, sans-serif"@), ("dominant-baseline"@, "middle"@),
    ], text)]
}

/// The SVG of an icon: a sheet of paper in `color` with its top-left corner folded (the
/// fold filled with `edge`), and a grey label showing `text`.
pub open spec fn icon_svg_markup(color: Seq<char>, edge: Seq<char>, text: Seq<char>) -> Seq<char> {
    svg_document_markup(icon_svg_attributes(), icon_svg_elements(color, edge), icon_svg_texts(text))
}

/// An attribute: its name and value.
fn attribute(name: &str, value: &str) -> (res: (String, String))
    ensures
        res.deep_view() == (name@, value@),
{
    (String::from_str(name), String::from_str(value))
}

/// The SVG of an icon (see `icon_svg_markup`).
fn render_icon_svg(color: &str, edge: &str, text: &str) -> (res: String)
    ensures
        res@ == icon_svg_markup(color@, edge@, text@),
{
    let mut attributes: Vec<(String, String)> = Vec::new();
    attributes.push(attribute("viewBox", "-5 -5 60 60"));
    let mut sheet: Vec<(String, String)> = Vec::new();
    sheet.push(attribute("fill", color));
    sheet.push(attribute("stroke", "none"));
    sheet.push(attribute("d", "M5,50 L5,15 L20,0 L45,0 L45,50 z"));
    let mut fold: Vec<(String, String)> = Vec::new();
    fold.push(attribute("fill", edge));
    fold.push(attribute("stroke", "none"));
    fold.push(attribute("d", "M5,15 L20,0 L20,15 z"));
    let mut label: Vec<(String, String)> = Vec::new();
    label.push(attribute("x", "20"));
    label.push(attribute("y", "25"));
    label.push(attribute("rx", "5"));
    label.push(attribute("ry", "5"));
    label.push(attribute("height", "20"));
    label.push(attribute("width", "30"));
    label.push(attribute("fill", "#ddd"));
    let mut caption: Vec<(String, String)> = Vec::new();
    caption.push(attribute("x", "35"));
    caption.push(attribute("y", "37"));
    caption.push(attribute("text-anchor", "middle"));
    caption.push(attribute("font-size", "0.9em"));
    caption.push(attribute("font-family", "Arial, Helvetica, sans-serif"));
    caption.push(attribute("dominant-baseline", "middle"));
    let ghost sheet_v = sheet.deep_view();
    let ghost fold_v = fold.deep_view();
    let ghost label_v = label.deep_view();
    let ghost caption_v = caption.deep_view();
    let mut elements: Vec<(String, Vec<(String, String)>)> = Vec::new();
    elements.push((String::from_str("path"), sheet));
    elements.push((String::from_str("path"), fold));
    elements.push((String::from_str("rect"), label));
    let mut texts: Vec<(Vec<(String, String)>, String)> = Vec::new();
    texts.push((caption, String::from_str(text)));
    assert(attributes.deep_view() =~= icon_svg_attributes());
    assert(sheet_v =~= icon_svg_elements(color@, edge@)[0].1);
    assert(fold_v =~= icon_svg_elements(color@, edge@)[1].1);
    assert(label_v =~= icon_svg_elements(color@, edge@)[2].1);
    assert(elements.deep_view() =~= icon_svg_elements(color@, edge@));
    assert(caption_v =~= icon_svg_texts(text@)[0].0);
    assert(texts.deep_view() =~= icon_svg_texts(text@));
    svg_markup(&attributes, &elements, &texts)
}

/// The answer to an icon request.
#[derive(Debug)]
pub enum IconResponse {
    /// The SVG text of the icon.
    Svg(String),
}

/// An icon request can be answered: either the type is
/// cached or is `folder`, or its key can be cut and the colour configured for the key,
/// if any, can be read (a generated colour always can).
pub open spec fn icon_request_answerable(
    cache: Seq<(Seq<char>, Seq<char>)>,
    confs: Seq<(String, IconConf)>,
    ext: Seq<char>,
) -> bool {
    let t = requested_type(ext);
    cache_lookup(cache, t) is Some || is_folder_type(t) || (icon_key_cuttable(t) && match conf_lookup(
        confs,
        icon_key_spec(t),
    ) {
        Some(c) => readable_color(c.color@),
        None => true,
    })
}

/// The value of a digit string in base 16 is below `16` to the power of its length.
proof fn lemma_hex_value_bound(ds: Seq<char>)
    requires
        all_digits(ds, 16),
    ensures
        digits_value(ds, 16) < pow16(ds.len()),
    decreases ds.len(),
{
    if ds.len() > 0 {
        let init = ds.drop_last();
        assert forall|i: int| 0 <= i < init.len() implies digit_value(#[trigger] init[i], 16) is Some by {
            assert(init[i] == ds[i]);
        }
        lemma_hex_value_bound(init);
        let a = digits_value(init, 16);
        let p = pow16(init.len());
        assert(digit_value(ds[ds.len() - 1], 16) is Some);
        let d = digit_value(ds.last(), 16).unwrap();
        assert(d < 16);
        assert(a * 16 + d < p * 16) by (nonlinear_arith)
            requires
                a < p,
                d < 16,
        ;
    }
}

/// `16` to the power `n`.
pub open spec fn pow16(n: nat) -> nat
    decreases n,
{
    if n == 0 {
        1
    } else {
        pow16((n - 1) as nat) * 16
    }
}

/// A generated colour can always be read: `#` and six hexadecimal digits.
pub proof fn lemma_generated_color_readable(key: Seq<char>)
    ensures
        readable_color(generated_color_spec(key)),
{
    let c = generated_color_spec(key);
    let digest = sha3_256_spec(encode_utf8(key));
    let ds = c.drop_first();
    assert(ds =~= Seq::new(6, |i: int| quad_char((digest[i] % 16) as u8)));
    assert forall|i: int| 0 <= i < ds.len() implies digit_value(#[trigger] ds[i], 16) is Some by {
        let k = (digest[i] % 16) as u8;
        assert(ds[i] == quad_char(k));
        assert(k < 16);
    }
    lemma_hex_value_bound(ds);
    reveal_with_fuel(pow16, 7);
    assert(pow16(6) == 16777216);
    assert(ds.len() == 0 || ds[0] != '+');
}

/// Whether the colour `color` can be read (see `readable_color`).
pub fn color_readable(color: &str) -> (r: bool)
    ensures
        r == readable_color(color@),
{
    let cs = chars_of(color);
    if cs.len() == 0 {
        return false;
    }
    if (cs[0] as u32) >= 128 {
        return false;
    }
    let mut rest: Vec<char> = Vec::new();
    let mut i: usize = 1;
    while i < cs.len()
        invariant
            1 <= i <= cs.len(),
            rest@ == cs@.subrange(1, i as int),
        decreases cs.len() - i,
    {
        rest.push(cs[i]);
        i += 1;
        assert(rest@ =~= cs@.subrange(1, i as int));
    }
    assert(cs@.subrange(1, cs@.len() as int) =~= color@.drop_first());
    parse_unsigned_exec(rest.as_slice(), 16, 0xffff_ffff).is_some()
}

/// Whether an icon request for `ext` can be answered (see `icon_request_answerable`):
/// the test to make before `icons_get`.
pub fn icon_request_ok(cache: &IconsCache, config: &ConfigStore, ext: &str) -> (r: bool)
    ensures
        r == icon_request_answerable(cache@, config.icon_confs_view(), ext@),
{
    let t = strip_svg_suffix(ext);
    if cache.get(t.as_str()).is_some() {
        return true;
    }
    if is_folder_request(t.as_str()) {
        return true;
    }
    let cuttable = t.as_str().as_bytes().len() <= 3 || t.as_str().is_char_boundary(3);
    if !cuttable {
        return false;
    }
    let key = icon_key(t.as_str());
    match config.icon_conf_for(key.as_str()) {
        Some(c) => color_readable(c.color.as_str()),
        None => true,
    }
}

/// Answers an icon request for `ext` (a trailing `.svg` ignored): a cached icon for the
/// type as it was asked; `folder_svg` for the type `folder` (any case); otherwise the
/// icon for the type's key (first three bytes, upper case) is drawn in the configured
/// or generated colour, with a light fold on dark colours, showing the key, filed in
/// the cache under the key, and answered.
pub fn icons_get(cache: &mut IconsCache, config: &ConfigStore, ext: String, folder_svg: &str) -> (res:
    IconResponse)
    requires
        icon_request_answerable(old(cache)@, config.icon_confs_view(), ext@),
    ensures
        ({
            let t = requested_type(ext@);
            let k = icon_key_spec(t);
            let c = icon_look_spec(config.icon_confs_view(), k).1;
            match cache_lookup(old(cache)@, t) {
                Some(svg) => res matches IconResponse::Svg(s) && s@ == svg && final(cache)@ == old(cache)@,
                None => if is_folder_type(t) {
                    res matches IconResponse::Svg(s) && s@ == folder_svg@ && final(cache)@ == old(cache)@
                } else {
                    res matches IconResponse::Svg(s) && s@ == icon_svg_markup(c, edge_fill_spec(is_dark_color(c)), k)
                        && final(cache)@ == seq![(k, s@)] + cache_kept(old(cache)@)
                },
            }
        }),
{
    let t = strip_svg_suffix(ext.as_str());
    if let Some(svg) = cache.get(t.as_str()) {
        return IconResponse::Svg(svg);
    }
    if is_folder_request(t.as_str()) {
        return IconResponse::Svg(string_of(chars_of(folder_svg).as_slice()));
    }
    let key = icon_key(t.as_str());
    let look = icon_look(config, key.as_str());
    proof {
        lemma_generated_color_readable(icon_key_spec(requested_type(ext@)));
    }
    let dark = color_is_dark(look.color.as_str());
    let s = render_icon_svg(look.color.as_str(), edge_fill(dark), key.as_str());
    let copy = string_of(chars_of(s.as_str()).as_slice());
    cache.insert_new(key, copy);
    IconResponse::Svg(s)
}

} // verus!
