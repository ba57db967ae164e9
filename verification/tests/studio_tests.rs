use filmrust::studio::{guide_message, Theme};

#[test]
fn guide_without_files_asks_for_a_photo() {
    assert_eq!(guide_message(false, true, true, true), "拖拽图片到窗口任意位置，或点「打开文件」开始");
}

#[test]
fn guide_without_a_loaded_image_asks_to_pick_one() {
    assert_eq!(guide_message(true, false, false, false), "点击图片列表切换照片");
}

#[test]
fn guide_before_developing() {
    assert_eq!(
        guide_message(true, true, false, false),
        "左侧选好胶片风格 → 右侧调整参数 → 点「开始显影」预览效果"
    );
}

#[test]
fn guide_while_developing() {
    assert_eq!(guide_message(true, true, false, true), "正在显影中，请稍候...");
    assert_eq!(guide_message(true, true, true, true), "正在显影中，请稍候...");
}

#[test]
fn guide_after_developing() {
    assert_eq!(guide_message(true, true, true, false), "可继续调参数重新显影，或点「导出」保存到本地");
}

#[test]
fn theme_colours_dark_and_light() {
    let dark = Theme { dark_mode: true };
    let light = Theme { dark_mode: false };
    assert_eq!(dark.bg_top(), (28, 32, 38));
    assert_eq!(light.bg_top(), (240, 240, 245));
    assert_eq!(dark.bg_bottom(), (22, 26, 32));
    assert_eq!(light.bg_bottom(), (230, 230, 238));
    assert_eq!(dark.bg_panel(), (24, 28, 34));
    assert_eq!(light.bg_panel(), (245, 245, 250));
    assert_eq!(dark.bg_center(), (18, 20, 26));
    assert_eq!(light.bg_center(), (250, 250, 252));
    assert_eq!(dark.bg_layer(), (32, 36, 42));
    assert_eq!(light.bg_layer(), (235, 238, 242));
    assert_eq!(dark.bg_layer_sel(), (50, 60, 70));
    assert_eq!(light.bg_layer_sel(), (200, 210, 225));
    assert_eq!(dark.text_accent(), (200, 180, 140));
    assert_eq!(light.text_accent(), (140, 100, 40));
    assert_eq!(dark.text_ok(), (140, 200, 140));
    assert_eq!(light.text_ok(), (40, 140, 40));
    assert_eq!(dark.text_err(), (240, 140, 140));
    assert_eq!(light.text_err(), (200, 40, 40));
    assert_eq!(dark.text_dim(), (140, 150, 160));
    assert_eq!(light.text_dim(), (120, 120, 130));
}
