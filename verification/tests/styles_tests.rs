use filmrust::files::{default_output_name, is_raw_format, preset_file_name};
use filmrust::platform::{
    detect_ps_macos, detect_ps_windows, Platform, PhotoshopInfo, MACOS_PS_CANDIDATES,
    WINDOWS_PS_CANDIDATES,
};
use filmrust::styles::{film_usage_desc, get_style_by_key, tone_color, tone_label, FILM_STYLES};

#[test]
fn style_lookup() {
    let s = get_style_by_key("kodak_portra_400").expect("known style");
    assert_eq!(s.name, "Kodak Portra 400");
    assert_eq!(s.group, "⭐ 常用");
    assert!(s.is_portrait);
    assert_eq!(s.saturation, 6);
    assert!(get_style_by_key("no_such_style").is_none());
    assert_eq!(FILM_STYLES.len(), 60);
    assert_eq!(get_style_by_key("ferrania_solaris_100").unwrap().is_warm, 2);
}

#[test]
fn usage_notes() {
    assert!(film_usage_desc("kodak_portra_400").starts_with("肤色表现自然柔和"));
    assert!(film_usage_desc("KODAK_PORTRA_400_ARTISTIC").starts_with("增强版Portra"));
    assert!(film_usage_desc("cinestill_800t").starts_with("柯达电影卷去碳层版"));
    assert_eq!(film_usage_desc("unknown"), "");
    assert_eq!(film_usage_desc("xyz"), "");
    assert_eq!(film_usage_desc(""), "");
}

#[test]
fn tone_labels_and_colors() {
    assert_eq!(tone_label("Kodak Portra 400"), "暖色调");
    assert_eq!(tone_label("CineStill 800T"), "冷调·蓝钨丝");
    assert_eq!(tone_label("Mystery"), "中性");
    assert_eq!(tone_color("Portra 400"), (220, 160, 80));
    assert_eq!(tone_color("Ilford Delta 100"), (140, 140, 140));
    assert_eq!(tone_color("Mystery"), (120, 160, 120));
}

#[test]
fn raw_formats() {
    assert!(is_raw_format("photo.CR2"));
    assert!(is_raw_format("/a/b/IMG_1.nef"));
    assert!(!is_raw_format("photo.jpg"));
    assert!(!is_raw_format("cr2"));
    assert!(!is_raw_format(".nef"));
}

#[test]
fn file_names() {
    assert_eq!(preset_file_name("  My Look! v2 "), "My Look v2.json");
    assert_eq!(preset_file_name("暖调/人像"), "暖调人像.json");
    assert_eq!(default_output_name("IMG_1"), "IMG_1_film.jpg");
}

#[test]
fn platforms() {
    assert_eq!(Platform::current("windows"), Platform::Windows10);
    assert_eq!(Platform::current("macos"), Platform::MacOS);
    assert_eq!(Platform::current("linux"), Platform::Linux);
    assert_eq!(Platform::current("freebsd"), Platform::Unknown);
    assert!(Platform::Windows10.is_windows());
    assert!(!Platform::Linux.is_windows());
    assert!(Platform::MacOS.is_macos());
}

#[test]
fn photoshop_detection() {
    let info = PhotoshopInfo::detect(Platform::Windows10, &vec![true, true, false]);
    assert!(info.detected);
    assert_eq!(info.install_path.as_deref(), Some(WINDOWS_PS_CANDIDATES[0]));
    assert_eq!(info.version.as_deref(), Some("27.0+"));
    let mac = PhotoshopInfo::detect(Platform::MacOS, &vec![true]);
    assert!(mac.detected);
    assert_eq!(mac.install_path.as_deref(), Some(MACOS_PS_CANDIDATES[0]));
    let none = PhotoshopInfo::detect(Platform::Windows10, &vec![false, false]);
    assert!(!none.detected && none.install_path.is_none() && none.version.is_none());
    let linux = PhotoshopInfo::detect(Platform::Linux, &vec![true, true, true]);
    assert!(!linux.detected);
    assert_eq!(PhotoshopInfo::candidates(Platform::MacOS).len(), 3);
    assert!(PhotoshopInfo::candidates(Platform::Unknown).is_empty());
}

#[test]
fn photoshop_older_versions_are_not_detected() {
    let only_2024 = PhotoshopInfo::detect(Platform::Windows10, &vec![false, false, true]);
    assert!(!only_2024.detected && only_2024.version.is_none() && only_2024.install_path.is_none());
    let only_2025 = PhotoshopInfo::detect(Platform::MacOS, &vec![false, true, false]);
    assert!(!only_2025.detected && only_2025.version.is_none() && only_2025.install_path.is_none());
}

#[test]
fn photoshop_candidate_search_finds_older_installs() {
    assert_eq!(detect_ps_windows(&vec![false, true, true]).as_deref(), Some(WINDOWS_PS_CANDIDATES[1]));
    assert_eq!(detect_ps_macos(&vec![false, false, true]).as_deref(), Some(MACOS_PS_CANDIDATES[2]));
    assert_eq!(detect_ps_windows(&vec![false, false, false]), None);
}

#[test]
fn film_usage_desc_ignores_case() {
    for key in ["Kodak_Portra_400", "CINESTILL_800T", "Fuji_Velvia_50", "ILFORD_HP5", "XyZ"] {
        assert_eq!(film_usage_desc(key), film_usage_desc(&key.to_lowercase()));
    }
}
