//! What the studio window shows that does not depend on the toolkit: the
//! guidance line for the current state and the colours of both themes.
use vstd::prelude::*;

verus! {

/// The guidance line for the window's state, first matching case wins.
pub open spec fn guide_text(has_files: bool, image_loaded: bool, has_processed: bool, is_processing: bool) -> Seq<char> {
    if !has_files {
        "拖拽图片到窗口任意位置，或点「打开文件」开始"@
    } else if !image_loaded {
        "点击图片列表切换照片"@
    } else if !has_processed && !is_processing {
        "左侧选好胶片风格 → 右侧调整参数 → 点「开始显影」预览效果"@
    } else if is_processing {
        "正在显影中，请稍候..."@
    } else if has_processed {
        "可继续调参数重新显影，或点「导出」保存到本地"@
    } else {
        "就绪"@
    }
}

/// The guidance line shown under the toolbar.
pub fn guide_message(has_files: bool, image_loaded: bool, has_processed: bool, is_processing: bool) -> (s: &'static str)
    ensures
        s@ == guide_text(has_files, image_loaded, has_processed, is_processing),
{
    if !has_files {
        "拖拽图片到窗口任意位置，或点「打开文件」开始"
    } else if !image_loaded {
        "点击图片列表切换照片"
    } else if !has_processed && !is_processing {
        "左侧选好胶片风格 → 右侧调整参数 → 点「开始显影」预览效果"
    } else if is_processing {
        "正在显影中，请稍候..."
    } else if has_processed {
        "可继续调参数重新显影，或点「导出」保存到本地"
    } else {
        "就绪"
    }
}

/// The window's colour theme.
#[derive(Debug, Clone, Copy, PartialEq, Eq, Structural)]
pub struct Theme {
    pub dark_mode: bool,
}

/// An RGB colour.
pub type Rgb = (u8, u8, u8);

/// `dark` in the dark theme, `light` in the light one.
pub open spec fn pick(dark_mode: bool, dark: Rgb, light: Rgb) -> Rgb {
    if dark_mode {
        dark
    } else {
        light
    }
}

impl Theme {
    /// Top of the window background.
    pub fn bg_top(&self) -> (c: Rgb)
        ensures
            c == pick(self.dark_mode, (28, 32, 38), (240, 240, 245)),
    {
        if self.dark_mode { (28, 32, 38) } else { (240, 240, 245) }
    }

    /// Bottom of the window background.
    pub fn bg_bottom(&self) -> (c: Rgb)
        ensures
            c == pick(self.dark_mode, (22, 26, 32), (230, 230, 238)),
    {
        if self.dark_mode { (22, 26, 32) } else { (230, 230, 238) }
    }

    /// Side panels.
    pub fn bg_panel(&self) -> (c: Rgb)
        ensures
            c == pick(self.dark_mode, (24, 28, 34), (245, 245, 250)),
    {
        if self.dark_mode { (24, 28, 34) } else { (245, 245, 250) }
    }

    /// The central preview area.
    pub fn bg_center(&self) -> (c: Rgb)
        ensures
            c == pick(self.dark_mode, (18, 20, 26), (250, 250, 252)),
    {
        if self.dark_mode { (18, 20, 26) } else { (250, 250, 252) }
    }

    /// A row of the layer list.
    pub fn bg_layer(&self) -> (c: Rgb)
        ensures
            c == pick(self.dark_mode, (32, 36, 42), (235, 238, 242)),
    {
        if self.dark_mode { (32, 36, 42) } else { (235, 238, 242) }
    }

    /// The selected row of the layer list.
    pub fn bg_layer_sel(&self) -> (c: Rgb)
        ensures
            c == pick(self.dark_mode, (50, 60, 70), (200, 210, 225)),
    {
        if self.dark_mode { (50, 60, 70) } else { (200, 210, 225) }
    }

    /// Headings and highlighted text.
    pub fn text_accent(&self) -> (c: Rgb)
        ensures
            c == pick(self.dark_mode, (200, 180, 140), (140, 100, 40)),
    {
        if self.dark_mode { (200, 180, 140) } else { (140, 100, 40) }
    }

    /// Status text after a success.
    pub fn text_ok(&self) -> (c: Rgb)
        ensures
            c == pick(self.dark_mode, (140, 200, 140), (40, 140, 40)),
    {
        if self.dark_mode { (140, 200, 140) } else { (40, 140, 40) }
    }

    /// Status text after a failure.
    pub fn text_err(&self) -> (c: Rgb)
        ensures
            c == pick(self.dark_mode, (240, 140, 140), (200, 40, 40)),
    {
        if self.dark_mode { (240, 140, 140) } else { (200, 40, 40) }
    }

    /// Secondary text.
    pub fn text_dim(&self) -> (c: Rgb)
        ensures
            c == pick(self.dark_mode, (140, 150, 160), (120, 120, 130)),
    {
        if self.dark_mode { (140, 150, 160) } else { (120, 120, 130) }
    }
}

} // verus!
