use ladls::gateway::{codepoint_hex, module_for, parse_name, resolve_one, search, utf8_bytes_hex, JsonResolved, ModuleHandle};

#[test]
fn basic_resolution() {
    let r = resolve_one("sym.arrow.r").unwrap();
    assert_eq!(r.ch, '→');
}

#[test]
fn halo_emoji() {
    let r = resolve_one("emoji.face.halo").unwrap();
    assert_eq!(r.ch, '😇');
}

#[test]
fn parse_name_splits_prefix_base_and_modifiers() {
    let (prefix, base, mods) = parse_name("sym.arrow.r.quad").unwrap();
    assert_eq!(prefix, "sym");
    assert_eq!(base, "arrow");
    assert_eq!(mods, vec!["r", "quad"]);
    assert!(parse_name("nodots").is_none());
    let (p2, b2, m2) = parse_name("sym.").unwrap();
    assert_eq!(p2, "sym");
    assert_eq!(b2, "");
    assert!(m2.is_empty());
}

#[test]
fn module_for_knows_three_prefixes() {
    assert_eq!(module_for("sym").unwrap().1, ModuleHandle::Sym);
    assert_eq!(module_for("emoji").unwrap().1, ModuleHandle::Emoji);
    assert_eq!(module_for("root").unwrap().1, ModuleHandle::Root);
    assert!(module_for("nope").is_none());
}

#[test]
fn resolve_fills_in_the_resolution_details() {
    let r = resolve_one("sym.arrow.r").unwrap();
    assert_eq!(r.input, "sym.arrow.r");
    assert_eq!(r.module, "sym");
    assert_eq!(r.base, "arrow");
    assert_eq!(r.modifiers, vec!["r".to_string()]);
    assert!(r.variant_key.is_some());
    assert!(resolve_one("sym.there-is-no-such-symbol").is_none());
    assert!(resolve_one("unknown.arrow").is_none());
}

#[test]
fn search_finds_keys_by_substring() {
    let hits = search(ModuleHandle::Sym, "ARROW");
    assert!(!hits.is_empty());
    assert!(hits.iter().all(|(k, _)| k.to_lowercase().contains("arrow")));
    assert!(hits.iter().any(|(k, c)| k == "arrow" && *c == '→'));
}

#[test]
fn json_resolution_spells_everything_out() {
    let r = resolve_one("sym.arrow.r").unwrap();
    let j = JsonResolved::from_resolved(r);
    assert_eq!(j.name, "sym.arrow.r");
    assert_eq!(j.glyph, "→");
    assert_eq!(j.codepoint, "U+2192");
    assert_eq!(j.utf8, "E2 86 92");
    assert_eq!(j.module, "sym");
    assert_eq!(j.base, "arrow");
    assert_eq!(j.source, "codex 0.1.1");
}

#[test]
fn codepoint_and_utf8_formatting() {
    assert_eq!(codepoint_hex('A'), "U+0041");
    assert_eq!(codepoint_hex('→'), "U+2192");
    assert_eq!(codepoint_hex('😇'), "U+1F607");
    assert_eq!(utf8_bytes_hex('A'), "41");
    assert_eq!(utf8_bytes_hex('→'), "E2 86 92");
    assert_eq!(utf8_bytes_hex('😇'), "F0 9F 98 87");
}
