use svg::node::element::path::Data;
use svg::node::element::{Path, Rectangle, Text};
use backend::config::{ConfigStore, IconConf};
use backend::icons::{
    color_is_dark, color_readable, edge_fill, icon_request_ok, generated_color, icon_key, icon_look, icons_get, is_folder_request,
    strip_svg_suffix, IconResponse, IconsCache, MAX_ICONS_CACHED,
};
use sha3::{Digest, Sha3_256};

fn config(confs: Vec<(String, IconConf)>) -> ConfigStore {
    ConfigStore::new(None, None, confs)
}

#[test]
fn cache_get_and_insert() {
    let mut c = IconsCache::empty();
    assert_eq!(c.get("PDF"), None);
    c.insert_new("PDF".to_string(), "<svg/>".to_string());
    assert_eq!(c.get("PDF"), Some("<svg/>".to_string()));
    c.insert_new("PDF".to_string(), "<svg2/>".to_string());
    assert_eq!(c.get("PDF"), Some("<svg2/>".to_string()));
}

#[test]
fn full_cache_drops_its_oldest_entry() {
    let mut c = IconsCache::empty();
    for i in 0..MAX_ICONS_CACHED {
        c.insert_new(format!("T{}", i), format!("s{}", i));
    }
    assert_eq!(c.get("T0"), Some("s0".to_string()));
    c.insert_new("NEW".to_string(), "x".to_string());
    assert_eq!(c.get("NEW"), Some("x".to_string()));
    assert_eq!(c.get("T0"), None);
    assert_eq!(c.get("T1"), Some("s1".to_string()));
    assert_eq!(c.get(&format!("T{}", MAX_ICONS_CACHED - 1)), Some(format!("s{}", MAX_ICONS_CACHED - 1)));
}

#[test]
fn request_names() {
    assert_eq!(strip_svg_suffix("pdf.svg"), "pdf");
    assert_eq!(strip_svg_suffix("pdf"), "pdf");
    assert_eq!(strip_svg_suffix(".svg"), "");
    assert!(is_folder_request("folder"));
    assert!(is_folder_request("FoLdEr"));
    assert!(!is_folder_request("folders"));
    assert_eq!(icon_key("pdf"), "PDF");
    assert_eq!(icon_key("jpeg"), "JPE");
    assert_eq!(icon_key("c"), "C");
}

#[test]
fn generated_colors_come_from_sha3() {
    let digest = Sha3_256::digest("PDF".as_bytes());
    let expected: String =
        std::iter::once('#').chain(digest.iter().take(6).map(|b| std::char::from_digit((b % 16) as u32, 16).unwrap())).collect();
    assert_eq!(generated_color("PDF"), expected);
    assert_eq!(generated_color("PDF").len(), 7);
}

#[test]
fn looks_and_colors() {
    let cfg = config(vec![("PDF".to_string(), IconConf { display_text: "pdf".to_string(), color: "#ff0000".to_string() })]);
    let look = icon_look(&cfg, "PDF");
    assert_eq!(look.display_text, "pdf");
    assert_eq!(look.color, "#ff0000");
    let other = icon_look(&cfg, "TXT");
    assert_eq!(other.display_text, "TXT");
    assert_eq!(other.color, generated_color("TXT"));
    assert!(color_is_dark("#000000"));
    assert!(!color_is_dark("#ffffff"));
    assert!(color_is_dark("#ff0000"));
    assert!(!color_is_dark("#7f8080"));
    assert!(color_is_dark("#7f7f80"));
    assert_eq!(edge_fill(true), "rgba(255, 255, 255, 0.5)");
    assert_eq!(edge_fill(false), "rgba(0, 0, 0, 0.3)");
}

#[test]
fn icons_get_answers() {
    let cfg = config(vec![]);
    let mut cache = IconsCache::empty();
    match icons_get(&mut cache, &cfg, "folder.svg".to_string(), "<folder/>") {
        IconResponse::Svg(s) => assert_eq!(s, "<folder/>"),
    }
    let first = match icons_get(&mut cache, &cfg, "pdf.svg".to_string(), "<folder/>") {
        IconResponse::Svg(s) => s,
    };
    assert!(first.contains("PDF"));
    assert!(first.contains("viewBox"));
    assert!(first.contains(&generated_color("PDF")));
    assert_eq!(cache.get("PDF"), Some(first.clone()));
    match icons_get(&mut cache, &cfg, "PDF".to_string(), "<folder/>") {
        IconResponse::Svg(s) => assert_eq!(s, first),
    }
}

#[test]
fn answerable_requests() {
    let cfg = config(vec![
        ("BAD".to_string(), IconConf { display_text: "b".to_string(), color: "#xyz".to_string() }),
        ("OK".to_string(), IconConf { display_text: "o".to_string(), color: "#00ff00".to_string() }),
    ]);
    let cache = IconsCache::empty();
    assert!(icon_request_ok(&cache, &cfg, "folder"));
    assert!(icon_request_ok(&cache, &cfg, "pdf.svg"));
    assert!(icon_request_ok(&cache, &cfg, "ok"));
    assert!(!icon_request_ok(&cache, &cfg, "bad.svg"));
    // the third byte falls inside a two-byte character
    assert!(!icon_request_ok(&cache, &cfg, "abé"));
    assert!(icon_request_ok(&cache, &cfg, "é"));
    assert!(color_readable("#ff00ff"));
    assert!(color_readable("x1"));
    assert!(!color_readable("#"));
    assert!(!color_readable(""));
    assert!(!color_readable("#1ffffffff"));
    assert!(!color_readable("é12"));
}

/// The icon as the svg crate draws it, built step by step.
fn reference_icon(color: &str, edge: &str, text: &str) -> String {
    let sheet = Data::new().move_to((5, 50)).line_to((5, 15)).line_to((20, 0)).line_to((45, 0)).line_to((45, 50)).close();
    let fold = Data::new().move_to((5, 15)).line_to((20, 0)).line_to((20, 15)).close();
    let doc = svg::Document::new()
        .set("viewBox", (-5, -5, 60, 60))
        .add(Path::new().set("fill", color).set("stroke", "none").set("d", sheet))
        .add(Path::new().set("fill", edge).set("stroke", "none").set("d", fold))
        .add(
            Rectangle::new()
                .set("x", "20")
                .set("y", "25")
                .set("rx", "5")
                .set("ry", "5")
                .set("height", "20")
                .set("width", "30")
                .set("fill", "#ddd"),
        )
        .add(
            Text::new(text)
                .set("x", "35")
                .set("y", "37")
                .set("text-anchor", "middle")
                .set("font-size", "0.9em")
                .set("font-family", "Arial, Helvetica, sans-serif")
                .set("dominant-baseline", "middle"),
        );
    let mut out = Vec::new();
    svg::write(&mut out, &doc).unwrap();
    String::from_utf8(out).unwrap()
}

#[test]
fn drawn_icons_are_the_svg_of_their_look() {
    let cfg = config(vec![
        ("DOC".to_string(), IconConf { display_text: "doc".to_string(), color: "#000000".to_string() }),
        ("TXT".to_string(), IconConf { display_text: "txt".to_string(), color: "#ffffff".to_string() }),
    ]);
    let mut cache = IconsCache::empty();
    let IconResponse::Svg(dark) = icons_get(&mut cache, &cfg, "doc".to_string(), "");
    assert_eq!(dark, reference_icon("#000000", "rgba(255, 255, 255, 0.5)", "DOC"));
    let IconResponse::Svg(light) = icons_get(&mut cache, &cfg, "txt.svg".to_string(), "");
    assert_eq!(light, reference_icon("#ffffff", "rgba(0, 0, 0, 0.3)", "TXT"));
    let IconResponse::Svg(generated) = icons_get(&mut cache, &cfg, "jpeg".to_string(), "");
    let color = generated_color("JPE");
    let edge = if color_is_dark(&color) { "rgba(255, 255, 255, 0.5)" } else { "rgba(0, 0, 0, 0.3)" };
    assert_eq!(generated, reference_icon(&color, edge, "JPE"));
}
