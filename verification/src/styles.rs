//! The film-style catalogue and what is shown about a style: the usage
//! notes, tone labels and colours, and which input files are camera raw.
use vstd::prelude::*;
use crate::text::{
    chars_eq, chars_of, contains, contains_str, first_where, lemma_first_where_found,
    lemma_first_where_none, lower_chars, lowercase_of,
};

verus! {

/// A film style of the catalogue: (key, name, description, group,
/// black-and-white, warmth from -2 to 3, saturation from 0 to 10, suits
/// portraits, suits landscapes, suits night, instant film).
pub type StyleRow = (
    &'static str,
    &'static str,
    &'static str,
    &'static str,
    bool,
    i8,
    u8,
    bool,
    bool,
    bool,
    bool,
);

/// The catalogue of film styles, most used first.
pub const FILM_STYLES: [StyleRow; 60] = [
    ("kodak_ultramax_400", "Kodak Ultramax 400", "暖调高饱和·消费级卷王", "⭐ 常用", false, 2, 8, false, true, true, false),
    ("fuji_pro_400h", "Fujicolor Pro 400H", "日系人像王·冷蓝阴影·暖粉高光", "⭐ 常用", false, -1, 5, true, false, false, false),
    ("fuji_natura_1600", "Fujicolor Natura 1600", "月光卷·暖调·青绿阴影", "⭐ 常用", false, 2, 7, false, false, true, false),
    ("kodak_portra_400", "Kodak Portra 400", "人像首选，柔和肤色", "⭐ 常用", false, 2, 6, true, false, true, false),
    ("kodak_gold_200", "Kodak Gold 200", "日常阳光感，90年代温暖回忆", "⭐ 常用", false, 3, 7, true, false, false, false),
    ("kodak_ektar_100", "Kodak Ektar 100", "超细腻颜色，风光利器", "⭐ 常用", false, 1, 8, false, true, false, false),
    ("kodak_tri_x_400", "Kodak Tri-X 400", "传奇黑白，高对比颗粒质感", "⭐ 常用", true, 0, 0, false, false, true, false),
    ("fujifilm_superia_400", "Fujifilm Superia 400", "通用彩色，自然饱和日用", "⭐ 常用", false, 1, 6, true, false, true, false),
    ("fujifilm_provia_100f", "Fujifilm Provia 100F", "专业反转片，中性真实色彩", "⭐ 常用", false, 0, 7, false, true, false, false),
    ("fujifilm_velvia_50", "Fujifilm Velvia 50", "风光首席，超高饱和鲜艳", "⭐ 常用", false, -2, 10, false, true, false, false),
    ("cinestill_800t", "CineStill 800T", "夜景/钨丝灯，电影感青橙调", "⭐ 常用", false, -1, 7, false, false, true, false),
    ("cinestill_50d", "CineStill 50D", "日光型电影胶片，电影感街拍", "⭐ 常用", false, 0, 7, false, true, false, false),
    ("ilford_hp5_plus_400", "Ilford HP5 Plus 400", "黑白经典，高对比颗粒感", "⭐ 常用", true, 0, 0, false, false, true, false),
    ("standard_daylight", "Standard Daylight", "中性基准，去胶片化原色", "⭐ 常用", false, 0, 5, false, false, false, false),
    ("lomography_color_chrome", "Lomography Color Chrome", "LOMO艺术，高对比偏色", "⭐ 常用", false, 1, 9, false, false, true, false),
    ("polaroid_600_color", "Polaroid 600 Color", "宝丽来即时感，怀旧偏暖", "⭐ 常用", false, 2, 6, true, false, false, true),
    ("kodak_portra_160", "Kodak Portra 160", "低感人像，更细腻的肤色", "人像", false, 2, 5, true, false, false, false),
    ("kodak_portra_800", "Kodak Portra 800", "弱光人像，温暖颗粒感", "人像", false, 2, 6, true, false, true, false),
    ("kodak_portra_400_artistic", "Kodak Portra 400 Artistic", "艺术版，增强色彩分离", "人像", false, 2, 7, true, false, true, false),
    ("fujifilm_superia_200", "Fujifilm Superia 200", "暖调人像，日系清新", "人像", false, 1, 6, true, false, false, false),
    ("fujifilm_superia_100", "Fujifilm Superia 100", "低感人像，细腻柔和", "人像", false, 1, 5, true, false, false, false),
    ("agfa_vista_400", "Agfa Vista 400", "德系暖调，浓郁色彩人像", "人像", false, 2, 7, true, false, true, false),
    ("agfa_vista_200", "Agfa Vista 200", "德系暖调，日常人像", "人像", false, 2, 6, true, false, false, false),
    ("agfa_vista_100", "Agfa Vista 100", "德系低感人像", "人像", false, 1, 6, true, false, false, false),
    ("lucky_color_200", "Lucky Color 200", "国产乐凯，暖调怀旧", "人像", false, 2, 5, true, false, false, false),
    ("kodak_ektachrome_100", "Kodak Ektachrome 100", "经典反转片，暖调风光", "风光", false, 1, 8, false, true, false, false),
    ("kodak_ektachrome_100vs", "Kodak Ektachrome 100 VS", "超鲜艳反转片，极致色彩", "风光", false, 0, 10, false, true, false, false),
    ("kodak_kodachrome_64", "Kodak Kodachrome 64", "经典柯达克罗姆，暖调浓郁", "风光", false, 1, 8, false, true, false, false),
    ("kodak_kodachrome_25", "Kodak Kodachrome 25", "极致细腻柯达克罗姆", "风光", false, 1, 7, false, true, false, false),
    ("fujifilm_velvia_50_artistic", "Fujifilm Velvia 50 Artistic", "增强版Velvia，极致鲜艳", "风光", false, -2, 10, false, true, false, false),
    ("fujifilm_astia_100f", "Fujifilm Astia 100F", "柔和反转片，淡彩风光", "风光", false, 0, 5, false, true, false, false),
    ("agfa_optima_200", "Agfa Optima 200", "暖调风光，德系反转片", "风光", false, 1, 7, false, true, false, false),
    ("agfa_precisa_100", "Agfa Precisa 100", "暖调反转片，风光人像通用", "风光", false, 1, 6, false, true, false, false),
    ("kodak_tri_x_400_artistic", "Kodak Tri-X 400 Artistic", "增强版，更强颗粒对比", "黑白", true, 0, 0, false, false, true, false),
    ("kodak_plus_x_125", "Kodak Plus-X 125", "细腻黑白，中调丰富", "黑白", true, 0, 0, false, false, false, false),
    ("ilford_hp5_plus_400_artistic", "Ilford HP5 Plus 400 Artistic", "增强版HP5，更强颗粒", "黑白", true, 0, 0, false, false, true, false),
    ("ilford_fp4_plus_125", "Ilford FP4 Plus 125", "中速黑白，细腻过渡", "黑白", true, 0, 0, false, false, false, false),
    ("ilford_delta_400", "Ilford Delta 400 Professional", "现代黑白，颗粒锐利", "黑白", true, 0, 0, false, false, true, false),
    ("ilford_delta_100", "Ilford Delta 100 Professional", "超细腻现代黑白", "黑白", true, 0, 0, false, false, false, false),
    ("ilford_pan_f_plus_50", "Ilford Pan F Plus 50", "极细腻低感黑白，风光专用", "黑白", true, 0, 0, false, true, false, false),
    ("ilford_xp2_super_400", "Ilford XP2 Super 400", "C41工艺黑白，冲印方便", "黑白", true, 0, 0, false, false, true, false),
    ("ilford_sfx_200", "Ilford SFX 200", "红外效果黑白，独特质感", "黑白", true, 0, 0, false, false, false, false),
    ("ilford_ortho_plus_80", "Ilford Ortho Plus 80", "正色片，高对比反差", "黑白", true, 0, 0, false, false, false, false),
    ("fujifilm_neopan_400", "Fujifilm Neopan 400", "日系黑白，细腻灰阶", "黑白", true, 0, 0, false, false, true, false),
    ("fujifilm_neopan_100", "Fujifilm Neopan 100", "日系低感黑白", "黑白", true, 0, 0, false, false, false, false),
    ("agfa_apx_400", "Agfa APX 400", "经典德系黑白", "黑白", true, 0, 0, false, false, true, false),
    ("agfa_apx_100", "Agfa APX 100", "经典德系细腻黑白", "黑白", true, 0, 0, false, false, false, false),
    ("polaroid_bw_667", "Polaroid B&W 667", "宝丽来黑白，即时显影质感", "黑白", true, 0, 0, false, false, true, false),
    ("polaroid_55_bw", "Polaroid 55 B&W", "宝丽来正负片，极致黑白", "黑白", true, 0, 0, false, false, false, false),
    ("orwo_un54", "Orwo UN54", "东德经典黑白，高对比", "黑白", true, 0, 0, false, false, false, false),
    ("orwo_un64", "Orwo UN64", "东德低感黑白，细腻", "黑白", true, 0, 0, false, false, false, false),
    ("ricoh_gr_street", "Ricoh GR Street Night", "街拍高感黑白，粗颗粒", "黑白", true, 0, 0, false, false, true, false),
    ("agfa_scala_200", "Agfa Scala 200", "黑白反转片，高反差", "黑白", true, 0, 0, false, false, true, false),
    ("polaroid_sx70_color", "Polaroid SX-70 Color", "经典SX-70，暖调柔和", "宝丽来", false, 2, 5, true, false, false, true),
    ("polaroid_i_type_color", "Polaroid i-Type Color", "现代宝丽来，鲜艳色彩", "宝丽来", false, 1, 7, true, false, false, true),
    ("polaroid_spectra_color", "Polaroid Spectra Color", "宽幅宝丽来，偏冷调", "宝丽来", false, 0, 6, true, false, false, true),
    ("polaroid_100_color", "Polaroid 100 Color", "老式宝丽来100，褪色怀旧", "宝丽来", false, 1, 5, true, false, false, true),
    ("lomography_lomochrome_purple", "Lomography Lomochrome Purple", "紫色幻彩，独特艺术效果", "特殊效果", false, 0, 9, false, true, false, false),
    ("ferrania_solaris_400", "Ferrania Solaris 400", "意式暖调，复古褪色感", "特殊效果", false, 3, 5, true, false, true, false),
    ("ferrania_solaris_100", "Ferrania Solaris 100", "意式低感，暖调柔和", "特殊效果", false, 2, 5, true, false, false, false),
];

/// A film style.
#[derive(Debug, Clone, Copy)]
pub struct StyleInfo {
    pub key: &'static str,
    pub name: &'static str,
    pub desc: &'static str,
    pub group: &'static str,
    pub is_bw: bool,
    pub is_warm: i8,
    pub saturation: u8,
    pub is_portrait: bool,
    pub is_landscape: bool,
    pub is_night_ok: bool,
    pub is_instant: bool,
}

/// The style that a catalogue row describes.
pub open spec fn style_of(t: StyleRow) -> StyleInfo {
    StyleInfo {
        key: t.0,
        name: t.1,
        desc: t.2,
        group: t.3,
        is_bw: t.4,
        is_warm: t.5,
        saturation: t.6,
        is_portrait: t.7,
        is_landscape: t.8,
        is_night_ok: t.9,
        is_instant: t.10,
    }
}

/// Rows whose key is `key`.
pub open spec fn has_key(key: Seq<char>) -> spec_fn(StyleRow) -> bool {
    |t: StyleRow| t.0@ == key
}

/// The style with the given key: the first catalogue row with that key.
pub open spec fn style_by_key(key: Seq<char>) -> Option<StyleInfo> {
    match first_where(FILM_STYLES@, has_key(key)) {
        Some(i) => Some(style_of(FILM_STYLES@[i])),
        None => None,
    }
}

/// Looks a style up by its key.
pub fn get_style_by_key(key: &str) -> (r: Option<StyleInfo>)
    ensures
        r == style_by_key(key@),
{
    let k = chars_of(key);
    let ghost p = has_key(key@);
    let n = FILM_STYLES.len();
    for i in 0..n
        invariant
            n == FILM_STYLES@.len(),
            k@ == key@,
            p == has_key(key@),
            forall|j: int| 0 <= j < i ==> !p(#[trigger] FILM_STYLES@[j]),
    {
        let t = FILM_STYLES[i];
        if chars_eq(&chars_of(t.0), &k) {
            proof {
                lemma_first_where_found(FILM_STYLES@, p, i as int);
            }
            return Some(
                StyleInfo {
                    key: t.0,
                    name: t.1,
                    desc: t.2,
                    group: t.3,
                    is_bw: t.4,
                    is_warm: t.5,
                    saturation: t.6,
                    is_portrait: t.7,
                    is_landscape: t.8,
                    is_night_ok: t.9,
                    is_instant: t.10,
                },
            );
        }
    }
    proof {
        lemma_first_where_none(FILM_STYLES@, p);
    }
    None
}

// ------------------------------------------------------------------
// Usage notes
// ------------------------------------------------------------------

/// Usage notes: a word the lower-cased style key must contain, a word it
/// must not contain (empty for none), and the note. The first rule that
/// fits gives the note.
pub const USAGE_RULES: [(&'static str, &'static str, &'static str); 67] = [
    ("kodak_portra_400", "artistic", "肤色表现自然柔和，曝光宽容度极大，圈内称「炮塔」。适合人像写真、婚礼跟拍。黄金时段逆光、室内混合光最佳"),
    ("gold_200", "", "温暖金色基调，90年代家庭感，柯达最畅销的民用卷。适合旅行记录、家庭聚会。晴天户外、阳光海滩首选"),
    ("ektar_100", "", "柯达最细腻颗粒负片，红色表现绝佳，色彩鲜艳锐利反差大。适合风光、静物。强光白天、高反差场景"),
    ("tri_x", "artistic", "黑白传奇，高对比粗颗粒强质感，街拍圣经。适合街头摄影、纪实新闻。白天街光可push到1600"),
    ("superia_400", "", "富士性价比口粮卷，日系清新偏冷调，宽容度高。适合日常街拍、旅行随拍。阴天散射光表现好"),
    ("superia 400", "", "富士性价比口粮卷，日系清新偏冷调，宽容度高。适合日常街拍、旅行随拍。阴天散射光表现好"),
    ("provia_100f", "", "专业反转片，颗粒超细，色彩中性真实，万能ISO 100。适合时装、风光、产品摄影。日光下最佳"),
    ("velvia_50", "artistic", "风光首席，极致高饱和高对比，绿蓝表现惊人，1990年上市至今标杆。适合风光、自然、日出日落"),
    ("cinestill_800t", "", "柯达电影卷去碳层版，高感钨丝灯卷，青橙调标志性色彩。适合夜景、城市灯光、霓虹灯、弱光环境"),
    ("800t", "", "柯达电影卷去碳层版，高感钨丝灯卷，青橙调标志性色彩。适合夜景、城市灯光、霓虹灯、弱光环境"),
    ("cinestill_50d", "", "日光型电影卷，低感细腻，电影感色调过渡柔和。适合白天街拍、柔和日光人像"),
    ("50d", "", "日光型电影卷，低感细腻，电影感色调过渡柔和。适合白天街拍、柔和日光人像"),
    ("hp5", "artistic", "黑白经典，粗颗粒高宽容度，可push使用，纪录片首选。适合纪实、街头、新闻·几乎任何光线"),
    ("standard_daylight", "", "中性基准风格，去胶片化原色校准。适合色彩校准参考、不想有胶片感时使用"),
    ("lomography_color_chrome", "", "LOMO艺术调，高对比大胆偏色。适合创意摄影、社交媒体、艺术表达"),
    ("lomo", "", "LOMO艺术调，高对比大胆偏色。适合创意摄影、社交媒体、艺术表达"),
    ("polaroid_600_color", "", "宝丽来即时显影质感，暖调柔和褪色怀旧。适合聚会抓拍、趣味记录、生活小物"),
    ("polaroid 600", "", "宝丽来即时显影质感，暖调柔和褪色怀旧。适合聚会抓拍、趣味记录、生活小物"),
    ("portra_160", "", "低感版Portra，更细腻的肤色过渡。适合棚拍人像、强光人像，比400更平滑"),
    ("portra_800", "", "高感版Portra，温暖颗粒感。适合弱光人像、室内环境、黄昏街头"),
    ("portra_400_artistic", "", "增强版Portra，色彩分离更强。适合需要更浓郁Portra色调的创意人像"),
    ("superia_200", "", "富士Superia低感版，暖调日系清新。适合户外人像、阳光明媚的日常"),
    ("superia_100", "", "富士Superia最低感，细腻柔和。适合强光下的人像、静物"),
    ("agfa_vista", "", "德系暖调，浓郁色彩，停产经典。适合人像、街拍。阳光下暖意更足"),
    ("lucky_color_200", "", "国产乐凯彩色卷，暖调怀旧，性价比高。适合日常记录、怀旧主题"),
    ("ultramax", "", "柯达消费级卷王，暖调高饱和·浓郁色彩·宽曝光宽容度。适合旅行、家庭、日常街拍，阴天和夜间闪光也强"),
    ("pro_400h", "", "富士人像专业卷（已停产），冷蓝阴影·暖粉高光·细颗粒·肤色柔和。擅长人像写真、婚礼跟拍、过曝两档出粉彩效果"),
    ("pro 400h", "", "富士人像专业卷（已停产），冷蓝阴影·暖粉高光·细颗粒·肤色柔和。擅长人像写真、婚礼跟拍、过曝两档出粉彩效果"),
    ("natura_1600", "", "富士月光卷（日本限定），ISO 1600超高速·暖调浓郁·青绿阴影·颗粒控制出色。适合弱光人像、夜景街拍、室内抓拍，可迫冲到3200"),
    ("natura 1600", "", "富士月光卷（日本限定），ISO 1600超高速·暖调浓郁·青绿阴影·颗粒控制出色。适合弱光人像、夜景街拍、室内抓拍，可迫冲到3200"),
    ("ektachrome_100vs", "", "Ektachrome超鲜艳版，极致色彩饱和度。适合风光、花卉、日落"),
    ("100vs", "", "Ektachrome超鲜艳版，极致色彩饱和度。适合风光、花卉、日落"),
    ("ektachrome_100", "", "经典柯达反转片，色彩浓郁漂亮，2019年复产。适合风光、旅行、记录"),
    ("kodachrome_64", "", "传奇柯达克罗姆暖调浓郁，已停产但色彩风格永存。适合暖调风光、怀旧"),
    ("kodachrome_25", "", "极致细腻柯达克罗姆，曾是最细颗粒彩色反转片。适合极致画质需求"),
    ("velvia_50_artistic", "", "增强版Velvia，更极致鲜艳。适合风光大片、艺术表达"),
    ("astia_100f", "", "富士柔和反转片，淡彩低对比，皮肤过渡平滑。适合人像、柔和风光"),
    ("optima_200", "", "爱克发暖调反转片，德系色彩风格。适合风光、旅行"),
    ("precisa_100", "", "爱克发暖调反转片，通用型。适合风光、人像兼顾"),
    ("tri_x_400_artistic", "", "增强版Tri-X，更强颗粒和对比。适合更粗犷的黑白表达"),
    ("plus_x_125", "", "柯达中速黑白，中调丰富细腻。适合人像、风光通用"),
    ("hp5_plus_400_artistic", "", "增强版HP5，颗粒更突出。适合粗颗粒黑白艺术创作"),
    ("fp4_plus_125", "", "伊尔福中速黑白，细腻过渡。适合人像、风光、静物"),
    ("delta_400", "", "伊尔福现代黑白，颗粒锐利清晰度好。适合风光、纪实、建筑"),
    ("delta_100", "", "伊尔福超细腻现代黑白，可作对比度标准。适合高画质需求"),
    ("pan_f_plus_50", "", "伊尔福极细腻低感卷，风光专用。适合大画幅、风光"),
    ("xp2_super", "", "C41工艺黑白，彩色店也能冲。适合混合冲洗需求的用户"),
    ("sfx_200", "", "红外效果黑白，独特质感让树叶发白。适合创意黑白艺术"),
    ("ortho_plus_80", "", "正色片，高对比反差，红光下不感光。适合高反差艺术"),
    ("neopan_400", "", "富士日系黑白，细腻灰阶。适合街拍、人像"),
    ("neopan_100", "", "富士日系低感黑白，极致细腻。适合风光、静物"),
    ("apx_400", "", "爱克发经典德系黑白，宽泛灰度。适合街拍、纪实"),
    ("apx_100", "", "爱克发经典细腻黑白。适合人像、风光、静物"),
    ("polaroid_bw_667", "", "宝丽来黑白即时显影，独特质感。适合即时街拍、创意"),
    ("polaroid_55_bw", "", "宝丽来正负片，一张出正片+负片。适合追求极限画质的宝丽来用户"),
    ("orwo_un54", "", "东德经典黑白，高对比。适合复古风格、艺术创作"),
    ("orwo_un64", "", "东德低感黑白，细腻。适合人像、静物"),
    ("gr_street", "", "街拍高感黑白，粗颗粒城市感。适合夜晚街拍、城市纪实"),
    ("scala_200", "", "黑白反转片，高反差，可直接放映。适合高对比艺术"),
    ("sx70_color", "", "SX-70经典暖调柔和，宝丽来宽幅。适合室内、创意静物"),
    ("i_type", "", "现代宝丽来鲜艳色彩。适合聚会、创意、日常"),
    ("spectra_color", "", "宽幅宝丽来偏冷调。适合风景、创意构图"),
    ("polaroid_100_color", "", "老式宝丽来褪色怀旧。适合复古创意、文艺表达"),
    ("polaroid 100", "", "老式宝丽来褪色怀旧。适合复古创意、文艺表达"),
    ("lomochrome_purple", "", "紫调幻彩，经独特化学配方产生紫色偏色。适合创意艺术、超现实"),
    ("solaris_400", "", "意式暖调复古褪色感。适合旅行怀旧、文艺街拍"),
    ("solaris_100", "", "意式低感暖调柔和。适合人像、静物"),
];

/// Rule `e` fits the lower-cased key `lower`.
pub open spec fn usage_rule_fits(lower: Seq<char>) -> spec_fn((&'static str, &'static str, &'static str)) -> bool {
    |e: (&'static str, &'static str, &'static str)|
        contains(lower, e.0@) && (e.1@.len() == 0 || !contains(lower, e.1@))
}

/// The usage note of a style key; empty when no rule fits.
pub open spec fn usage_note(key: Seq<char>) -> Seq<char> {
    match first_where(USAGE_RULES@, usage_rule_fits(lowercase_of(key))) {
        Some(i) => USAGE_RULES@[i].2@,
        None => Seq::empty(),
    }
}

/// The usage note ignores case: a key and its lower-cased form get the
/// same note, for every key whose lower-cased form lower-cases to itself.
/// A key that fits no rule gets the empty note.
pub proof fn lemma_usage_note_ignores_case(key: Seq<char>)
    requires
        lowercase_of(lowercase_of(key)) == lowercase_of(key),
    ensures
        usage_note(lowercase_of(key)) == usage_note(key),
        (forall|i: int| 0 <= i < USAGE_RULES@.len() ==> !#[trigger] usage_rule_fits(lowercase_of(key))(USAGE_RULES@[i]))
            ==> usage_note(key) == Seq::<char>::empty(),
{
    let p = usage_rule_fits(lowercase_of(key));
    if forall|i: int| 0 <= i < USAGE_RULES@.len() ==> !#[trigger] p(USAGE_RULES@[i]) {
        lemma_first_where_none(USAGE_RULES@, p);
    }
}

/// What a film style is good for, by its key.
pub fn film_usage_desc(key: &str) -> (d: &'static str)
    ensures
        d@ == usage_note(key@),
{
    let lower = lower_chars(key);
    let ghost p = usage_rule_fits(lower@);
    let n = USAGE_RULES.len();
    for i in 0..n
        invariant
            n == USAGE_RULES@.len(),
            lower@ == lowercase_of(key@),
            p == usage_rule_fits(lower@),
            forall|j: int| 0 <= j < i ==> !p(#[trigger] USAGE_RULES@[j]),
    {
        let (word, unless, note) = USAGE_RULES[i];
        if contains_str(&lower, word) && (unless.is_empty() || !contains_str(&lower, unless)) {
            proof {
                lemma_first_where_found(USAGE_RULES@, p, i as int);
            }
            return note;
        }
    }
    proof {
        lemma_first_where_none(USAGE_RULES@, p);
        reveal_strlit("");
    }
    ""
}

// ------------------------------------------------------------------
// Tone labels and colours
// ------------------------------------------------------------------

/// Name words and the tone label each gives; the first word found wins.
pub const TONE_LABELS: [(&'static str, &'static str); 19] = [
    ("portra", "暖色调"),
    ("gold", "暖色调"),
    ("kodachrome", "暖色调"),
    ("superia", "冷调·青绿"),
    ("fujicolor", "冷调·青绿"),
    ("cinestill 800t", "冷调·蓝钨丝"),
    ("velvia", "高饱和·绿"),
    ("ektar", "高饱和·暖"),
    ("ektachrome", "正片·冷"),
    ("provia", "正片·中性"),
    ("tri-x", "黑白·高反差"),
    ("hp5", "黑白·高反差"),
    ("fp4", "黑白·细颗粒"),
    ("delta", "黑白·细颗粒"),
    ("pan", "黑白·细颗粒"),
    ("solaris", "暖调·复古"),
    ("vista", "暖调·复古"),
    ("lomo", "创意·Lomo"),
    ("polaroid", "暖调·拍立得"),
];

/// Entries whose word occurs in `lower`.
pub open spec fn word_in(lower: Seq<char>) -> spec_fn((&'static str, &'static str)) -> bool {
    |e: (&'static str, &'static str)| contains(lower, e.0@)
}

/// The tone label of a preset name; "中性" when no word is found.
pub open spec fn tone_label_of(name: Seq<char>) -> Seq<char> {
    match first_where(TONE_LABELS@, word_in(lowercase_of(name))) {
        Some(i) => TONE_LABELS@[i].1@,
        None => "中性"@,
    }
}

/// A short label for the tone of the preset called `name`.
pub fn tone_label(name: &str) -> (l: &'static str)
    ensures
        l@ == tone_label_of(name@),
{
    let lower = lower_chars(name);
    let ghost p = word_in(lower@);
    let n = TONE_LABELS.len();
    for i in 0..n
        invariant
            n == TONE_LABELS@.len(),
            lower@ == lowercase_of(name@),
            p == word_in(lower@),
            forall|j: int| 0 <= j < i ==> !p(#[trigger] TONE_LABELS@[j]),
    {
        if contains_str(&lower, TONE_LABELS[i].0) {
            proof {
                lemma_first_where_found(TONE_LABELS@, p, i as int);
            }
            return TONE_LABELS[i].1;
        }
    }
    proof {
        lemma_first_where_none(TONE_LABELS@, p);
    }
    "中性"
}

/// Name words and the swatch colour each gives; the first word found wins.
pub const TONE_COLORS: [(&'static str, u8, u8, u8); 24] = [
    ("portra", 220, 160, 80),
    ("gold", 220, 160, 80),
    ("kodachrome", 220, 160, 80),
    ("solaris", 220, 160, 80),
    ("vista", 220, 160, 80),
    ("optima", 220, 160, 80),
    ("superia", 80, 160, 220),
    ("fujicolor", 80, 160, 220),
    ("cinestill 800t", 80, 160, 220),
    ("provia", 80, 160, 220),
    ("gr street", 80, 160, 220),
    ("velvia", 200, 80, 160),
    ("ektar", 200, 80, 160),
    ("ektachrome", 200, 80, 160),
    ("tri-x", 140, 140, 140),
    ("hp5", 140, 140, 140),
    ("fp4", 140, 140, 140),
    ("delta", 140, 140, 140),
    ("neopan", 140, 140, 140),
    ("pan", 140, 140, 140),
    ("apx", 140, 140, 140),
    ("orwo", 140, 140, 140),
    ("lomo", 180, 120, 200),
    ("polaroid", 180, 120, 200),
];

/// Colour entries whose word occurs in `lower`.
pub open spec fn color_word_in(lower: Seq<char>) -> spec_fn((&'static str, u8, u8, u8)) -> bool {
    |e: (&'static str, u8, u8, u8)| contains(lower, e.0@)
}

/// The swatch colour of a preset name; a muted green when no word is found.
pub open spec fn tone_color_of(name: Seq<char>) -> (u8, u8, u8) {
    match first_where(TONE_COLORS@, color_word_in(lowercase_of(name))) {
        Some(i) => (TONE_COLORS@[i].1, TONE_COLORS@[i].2, TONE_COLORS@[i].3),
        None => (120, 160, 120),
    }
}

/// The swatch colour (red, green, blue) of the preset called `name`.
pub fn tone_color(name: &str) -> (c: (u8, u8, u8))
    ensures
        c == tone_color_of(name@),
{
    let lower = lower_chars(name);
    let ghost p = color_word_in(lower@);
    let n = TONE_COLORS.len();
    for i in 0..n
        invariant
            n == TONE_COLORS@.len(),
            lower@ == lowercase_of(name@),
            p == color_word_in(lower@),
            forall|j: int| 0 <= j < i ==> !p(#[trigger] TONE_COLORS@[j]),
    {
        let (word, r, g, b) = TONE_COLORS[i];
        if contains_str(&lower, word) {
            proof {
                lemma_first_where_found(TONE_COLORS@, p, i as int);
            }
            return (r, g, b);
        }
    }
    proof {
        lemma_first_where_none(TONE_COLORS@, p);
    }
    (120, 160, 120)
}

} // verus!
