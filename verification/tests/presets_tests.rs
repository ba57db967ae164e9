use filmrust::lookup::{find_filmr_stock, find_preset, find_stock_by_key, PresetKey};
use filmrust::presets::{
    capitalize_name, infer_description, infer_tags, is_offered_stock, preset_id,
    split_manufacturer_and_name, StockTraits,
};

fn offered_stock_names() -> Vec<String> {
    let mut names = vec![
        "Ultramax 400".to_string(),
        "Pro 400H".to_string(),
        "Natura 1600".to_string(),
    ];
    for s in filmr::presets::get_all_stocks() {
        if is_offered_stock(&s.name) {
            names.push(s.name.clone());
        }
    }
    names
}

#[test]
fn test_find_filmr_stock_by_name() {
    let names = offered_stock_names();
    assert!(
        find_filmr_stock(&names, "portra").is_some(),
        "portra 是已知预设，应能匹配成功"
    );
}

fn names(v: &[&str]) -> Vec<String> {
    v.iter().map(|s| s.to_string()).collect()
}

#[test]
fn find_stock_exact_name_wins() {
    let n = names(&["Portra 800", "Portra 400", "Gold 200"]);
    assert_eq!(find_filmr_stock(&n, "  PORTRA 400 "), Some(1));
}

#[test]
fn find_stock_by_underscored_id() {
    let n = names(&["Gold 200", "Portra 400"]);
    assert_eq!(find_filmr_stock(&n, "kodak_portra_400"), Some(1));
}

#[test]
fn find_stock_without_maker_prefix() {
    let n = names(&["Gold 200", "Portra 400 NC"]);
    assert_eq!(find_filmr_stock(&n, "Kodak Portra 400"), Some(1));
}

#[test]
fn find_stock_without_spaces() {
    let n = names(&["Gold 200", "Portra 400"]);
    assert_eq!(find_filmr_stock(&n, "Portra 4 00"), Some(1));
    assert_eq!(find_filmr_stock(&n, "portra400"), None);
}

#[test]
fn find_stock_by_keywords() {
    let n = names(&["Gold 200", "Velvia 50 Pro"]);
    assert_eq!(find_filmr_stock(&n, "fuji pro velvia"), Some(1));
}

#[test]
fn find_stock_not_found() {
    let n = names(&["Gold 200", "Portra 400"]);
    assert_eq!(find_filmr_stock(&n, "ektachrome"), None);
    assert_eq!(find_filmr_stock(&Vec::new(), "portra"), None);
}

#[test]
fn stock_by_style_key() {
    let n = names(&["Gold 200", "Portra 400", "Tri-X 400"]);
    assert_eq!(find_stock_by_key(&n, "kodak_portra_400"), Some(1));
    assert_eq!(find_stock_by_key(&n, "kodak_gold_200"), Some(0));
}

#[test]
fn stock_by_key_with_only_maker_words_takes_first() {
    let n = names(&["Gold 200", "Portra 400"]);
    // no key words are left, so every name contains all of them
    assert_eq!(find_stock_by_key(&n, "kodak"), Some(0));
}

fn key(id: &str, name: &str, maker: &str) -> PresetKey {
    PresetKey { id: id.to_string(), name: name.to_string(), manufacturer: maker.to_string() }
}

#[test]
fn find_preset_rules_in_order() {
    let p = vec![
        key("kodak_gold_200", "Gold 200", "Kodak"),
        key("kodak_portra_400", "Portra 400", "Kodak"),
        key("ilford_hp5", "HP5", "Ilford"),
    ];
    assert_eq!(find_preset(&p, "KODAK_PORTRA_400"), Some(1));
    assert_eq!(find_preset(&p, "hp5"), Some(2));
    assert_eq!(find_preset(&p, "ilford"), Some(2));
    assert_eq!(find_preset(&p, "kodak"), Some(0));
    assert_eq!(find_preset(&p, "velvia"), None);
}

#[test]
fn capitalize_examples() {
    assert_eq!(capitalize_name("portra 400"), "Portra 400");
    assert_eq!(capitalize_name("TRI-X 400"), "Tri-X 400");
    assert_eq!(capitalize_name("pan_f plus"), "Pan_F Plus");
    assert_eq!(capitalize_name(""), "");
}

#[test]
fn capitalize_is_idempotent_on_examples() {
    for s in ["gR STREET night", "délta  3200", "x-pro_2"] {
        let once = capitalize_name(s);
        assert_eq!(capitalize_name(&once), once);
    }
}

#[test]
fn manufacturer_from_brand_word() {
    assert_eq!(
        split_manufacturer_and_name("Kodak Portra 400"),
        ("Kodak".to_string(), "Portra 400".to_string())
    );
    assert_eq!(
        split_manufacturer_and_name("CineStill 800T"),
        ("CineStill".to_string(), "800t".to_string())
    );
    assert_eq!(split_manufacturer_and_name("Fuji"), ("Fujifilm".to_string(), "Fuji".to_string()));
}

#[test]
fn manufacturer_from_product_word() {
    assert_eq!(
        split_manufacturer_and_name("Portra 400"),
        ("Kodak".to_string(), "Portra 400".to_string())
    );
    assert_eq!(
        split_manufacturer_and_name("Velvia 50"),
        ("Fujifilm".to_string(), "Velvia 50".to_string())
    );
    assert_eq!(
        split_manufacturer_and_name("redrum 200"),
        ("CineStill".to_string(), "Redrum 200".to_string())
    );
    assert_eq!(
        split_manufacturer_and_name("standard daylight"),
        ("Unknown".to_string(), "Standard Daylight".to_string())
    );
}

fn traits(fast: bool, slow: bool, long_exposure: bool, strong_halation: bool) -> StockTraits {
    StockTraits { fast, slow, long_exposure, strong_halation }
}

#[test]
fn tags_examples() {
    assert_eq!(infer_tags("Portra 400", traits(false, false, false, false)), vec!["通用感光", "人像肤色"]);
    assert_eq!(
        infer_tags("CineStill 800T", traits(true, false, false, true)),
        vec!["弱光/夜景", "电影感/光晕", "强光晕"]
    );
    assert_eq!(
        infer_tags("Plain 50", traits(false, true, true, false)),
        vec!["日光/细颗粒", "长曝光"]
    );
    assert_eq!(infer_tags("Panatomic-X", traits(false, true, false, false)), vec!["日光/细颗粒", "细颗粒黑白"]);
}

#[test]
fn description_examples() {
    assert_eq!(
        infer_description("Portra 400", "Kodak", 400),
        "暖调肤色·低反差·高光滚降柔和 — 经典人像/婚礼万能卷"
    );
    assert_eq!(infer_description("Acme 320", "Acme", 320), "Acme · ISO 320 — 通用胶片风格");
    assert_eq!(infer_description("Odd", "Nobody", -7), "Nobody · ISO -7 — 通用胶片风格");
    assert_eq!(infer_description("Zero", "Z", 0), "Z · ISO 0 — 通用胶片风格");
}

#[test]
fn preset_id_examples() {
    assert_eq!(preset_id("Kodak", "Portra 400"), "kodak_portra_400");
    assert_eq!(preset_id("Fujifilm", "Pro 400H"), "fujifilm_pro_400h");
}

#[test]
fn offered_stocks() {
    assert!(is_offered_stock("Portra 400"));
    assert!(!is_offered_stock("Kodak C200"));
    assert!(!is_offered_stock("ColorPlus 200"));
}
