//! Film-stock naming: manufacturer detection, display names, tags,
//! descriptions, identifiers and the lookup of stocks and presets by query.
use vstd::prelude::*;
use crate::text::{
    ascii_lower, ascii_upper, char_is_whitespace, char_to_ascii_lowercase, char_to_ascii_uppercase,
    chars_of, contains, contains_str, first_where, is_white_space, lemma_first_where_found,
    lemma_first_where_none, lower_chars, lowercase_of, replace_all, replace_all_exec, string_of,
    trim_by, trim_exec, trim_pred, replace_char, replace_char_exec, string_push,
};

verus! {

// ------------------------------------------------------------------
// Display names
// ------------------------------------------------------------------

/// Characters after which a new word starts in a display name.
pub open spec fn name_sep(c: char) -> bool {
    is_white_space(c) || c == '-' || c == '_'
}

/// `s` with the first letter of each word in upper case and the other
/// letters in lower case (ASCII letters only); separators are kept.
pub open spec fn capitalized(s: Seq<char>) -> Seq<char> {
    Seq::new(
        s.len(),
        |i: int|
            if name_sep(s[i]) {
                s[i]
            } else if i == 0 || name_sep(s[i - 1]) {
                ascii_upper(s[i])
            } else {
                ascii_lower(s[i])
            },
    )
}

/// Capitalizes each word of `name` ("portra 400" gives "Portra 400").
pub fn capitalize_name(name: &str) -> (r: String)
    ensures
        r@ == capitalized(name@),
{
    let cs = chars_of(name);
    let mut out: Vec<char> = Vec::new();
    let mut capitalize_next = true;
    let n = cs.len();
    for i in 0..n
        invariant
            n == cs.len(),
            cs@ == name@,
            out@ =~= capitalized(cs@).take(i as int),
            capitalize_next == (i == 0 || name_sep(cs@[i - 1])),
    {
        let c = cs[i];
        if char_char_is_sep(c) {
            out.push(c);
            capitalize_next = true;
        } else if capitalize_next {
            out.push(char_to_ascii_uppercase(c));
            capitalize_next = false;
        } else {
            out.push(char_to_ascii_lowercase(c));
        }
    }
    assert(capitalized(cs@).take(n as int) =~= capitalized(cs@));
    string_of(&out)
}

fn char_char_is_sep(c: char) -> (b: bool)
    ensures
        b == name_sep(c),
{
    char_is_whitespace(c) || c == '-' || c == '_'
}

/// Capitalizing a display name twice gives what capitalizing it once gives.
pub proof fn lemma_capitalize_idempotent(s: Seq<char>)
    ensures
        capitalized(capitalized(s)) == capitalized(s),
{
    let c = capitalized(s);
    assert forall|i: int| 0 <= i < s.len() implies name_sep(#[trigger] c[i]) == name_sep(s[i]) by {
        let x = s[i];
        if 'a' <= x && x <= 'z' {
            assert(ascii_upper(x) as u32 == x as u32 - 32);
        }
        if 'A' <= x && x <= 'Z' {
            assert(ascii_lower(x) as u32 == x as u32 + 32);
        }
    }
    assert forall|i: int| 0 <= i < s.len() implies #[trigger] capitalized(c)[i] == c[i] by {
        let x = s[i];
        if 'a' <= x && x <= 'z' {
            assert(ascii_upper(x) as u32 == x as u32 - 32);
        }
        if 'A' <= x && x <= 'Z' {
            assert(ascii_lower(x) as u32 == x as u32 + 32);
        }
        if i > 0 {
            assert(name_sep(c[i - 1]) == name_sep(s[i - 1]));
        }
    }
    assert(capitalized(c) =~= c);
}

// ------------------------------------------------------------------
// Manufacturer detection
// ------------------------------------------------------------------

/// Brand words that can stand in a stock's name, with the manufacturer each names.
pub const DIRECT_BRANDS: [(&'static str, &'static str); 10] = [
    ("kodak", "Kodak"),
    ("fujifilm", "Fujifilm"),
    ("fuji", "Fujifilm"),
    ("cinestill", "CineStill"),
    ("ilford", "Ilford"),
    ("polaroid", "Polaroid"),
    ("leica", "Leica"),
    ("agfa", "Agfa"),
    ("konica", "Konica"),
    ("rollei", "Rollei"),
];

/// Product words of Kodak stocks.
pub const KODAK_KEYWORDS: [&'static str; 8] = [
    "portra",
    "tri-x",
    "ektar",
    "gold",
    "ultramax",
    "t-max",
    "plus-x",
    "panatomic",
];

/// Product words of Fujifilm stocks.
pub const FUJI_KEYWORDS: [&'static str; 7] = [
    "velvia",
    "provia",
    "superia",
    "reala",
    "xtra",
    "fujicolor",
    "neopan",
];

/// Product words of CineStill stocks.
pub const CINESTILL_KEYWORDS: [&'static str; 6] = ["800t", "50d", "400d", "bwxx", "cs41", "redrum"];

/// Some word of `words` occurs in `lower`.
pub open spec fn any_contained(lower: Seq<char>, words: Seq<&'static str>) -> bool {
    exists|j: int| 0 <= j < words.len() && contains(lower, (#[trigger] words[j])@)
}

/// The manufacturer and display name of a stock called `full`: the first brand
/// word found in the lower-cased name gives the manufacturer, and the name
/// without that word (trimmed of separators) is the display name, unless
/// nothing is left; failing that, product words of Kodak, Fujifilm and
/// CineStill decide; otherwise the maker is "Unknown". Display names are
/// capitalized.
pub open spec fn manufacturer_and_name(full: Seq<char>) -> (Seq<char>, Seq<char>) {
    let lower = lowercase_of(full);
    match first_where(DIRECT_BRANDS@, |e: (&'static str, &'static str)| contains(lower, e.0@)) {
        Some(i) => {
            let rest = trim_by(replace_all(lower, DIRECT_BRANDS@[i].0@, Seq::empty()), trim_pred(true));
            (DIRECT_BRANDS@[i].1@, capitalized(if rest.len() == 0 { full } else { rest }))
        },
        None => {
            if any_contained(lower, KODAK_KEYWORDS@) {
                ("Kodak"@, capitalized(full))
            } else if any_contained(lower, FUJI_KEYWORDS@) {
                ("Fujifilm"@, capitalized(full))
            } else if any_contained(lower, CINESTILL_KEYWORDS@) {
                ("CineStill"@, capitalized(full))
            } else {
                ("Unknown"@, capitalized(full))
            }
        },
    }
}

/// Every brand word of `DIRECT_BRANDS` decides the manufacturer: when the
/// lower-cased name contains the word of entry `i` and no word of an earlier
/// entry, the manufacturer is entry `i`'s (a name with "polaroid" gets
/// "Polaroid", one with "agfa" gets "Agfa").
pub proof fn lemma_brand_word_decides_maker(full: Seq<char>, i: int)
    requires
        0 <= i < DIRECT_BRANDS@.len(),
        contains(lowercase_of(full), DIRECT_BRANDS@[i].0@),
        forall|j: int| 0 <= j < i ==> !contains(lowercase_of(full), (#[trigger] DIRECT_BRANDS@[j]).0@),
    ensures
        manufacturer_and_name(full).0 == DIRECT_BRANDS@[i].1@,
{
    let p = |e: (&'static str, &'static str)| contains(lowercase_of(full), e.0@);
    assert forall|j: int| 0 <= j < i implies !p(#[trigger] DIRECT_BRANDS@[j]) by {}
    lemma_first_where_found(DIRECT_BRANDS@, p, i);
}

/// The brand words and the manufacturers they name, in the order they are
/// tried: kodak, fujifilm, fuji, cinestill, ilford, polaroid, leica, agfa,
/// konica, rollei.
pub proof fn lemma_brand_table()
    ensures
        DIRECT_BRANDS@.len() == 10,
        DIRECT_BRANDS@[0] == ("kodak", "Kodak"),
        DIRECT_BRANDS@[1] == ("fujifilm", "Fujifilm"),
        DIRECT_BRANDS@[2] == ("fuji", "Fujifilm"),
        DIRECT_BRANDS@[3] == ("cinestill", "CineStill"),
        DIRECT_BRANDS@[4] == ("ilford", "Ilford"),
        DIRECT_BRANDS@[5] == ("polaroid", "Polaroid"),
        DIRECT_BRANDS@[6] == ("leica", "Leica"),
        DIRECT_BRANDS@[7] == ("agfa", "Agfa"),
        DIRECT_BRANDS@[8] == ("konica", "Konica"),
        DIRECT_BRANDS@[9] == ("rollei", "Rollei"),
{
}

/// Without a brand word, product words decide the manufacturer, Kodak's
/// before Fujifilm's before CineStill's, and the whole name is kept.
pub proof fn lemma_product_word_decides_maker(full: Seq<char>)
    requires
        forall|j: int| 0 <= j < DIRECT_BRANDS@.len() ==> !contains(lowercase_of(full), (#[trigger] DIRECT_BRANDS@[j]).0@),
    ensures
        any_contained(lowercase_of(full), KODAK_KEYWORDS@) ==> manufacturer_and_name(full) == ("Kodak"@, capitalized(full)),
        !any_contained(lowercase_of(full), KODAK_KEYWORDS@) && any_contained(lowercase_of(full), FUJI_KEYWORDS@)
            ==> manufacturer_and_name(full) == ("Fujifilm"@, capitalized(full)),
        !any_contained(lowercase_of(full), KODAK_KEYWORDS@) && !any_contained(lowercase_of(full), FUJI_KEYWORDS@)
            && any_contained(lowercase_of(full), CINESTILL_KEYWORDS@)
            ==> manufacturer_and_name(full) == ("CineStill"@, capitalized(full)),
{
    let p = |e: (&'static str, &'static str)| contains(lowercase_of(full), e.0@);
    assert forall|j: int| 0 <= j < DIRECT_BRANDS@.len() implies !p(#[trigger] DIRECT_BRANDS@[j]) by {}
    lemma_first_where_none(DIRECT_BRANDS@, p);
}

/// The product words of Kodak, Fujifilm and CineStill stocks.
pub proof fn lemma_product_word_tables()
    ensures
        KODAK_KEYWORDS@ == seq!["portra", "tri-x", "ektar", "gold", "ultramax", "t-max", "plus-x", "panatomic"],
        FUJI_KEYWORDS@ == seq!["velvia", "provia", "superia", "reala", "xtra", "fujicolor", "neopan"],
        CINESTILL_KEYWORDS@ == seq!["800t", "50d", "400d", "bwxx", "cs41", "redrum"],
{
    assert(KODAK_KEYWORDS@ =~= seq!["portra", "tri-x", "ektar", "gold", "ultramax", "t-max", "plus-x", "panatomic"]);
    assert(FUJI_KEYWORDS@ =~= seq!["velvia", "provia", "superia", "reala", "xtra", "fujicolor", "neopan"]);
    assert(CINESTILL_KEYWORDS@ =~= seq!["800t", "50d", "400d", "bwxx", "cs41", "redrum"]);
}

/// A name with no brand word and no product word of Kodak, Fujifilm or
/// CineStill has manufacturer "Unknown" and keeps its whole name.
pub proof fn lemma_unknown_maker(full: Seq<char>)
    requires
        forall|j: int| 0 <= j < DIRECT_BRANDS@.len() ==> !contains(lowercase_of(full), (#[trigger] DIRECT_BRANDS@[j]).0@),
        !any_contained(lowercase_of(full), KODAK_KEYWORDS@),
        !any_contained(lowercase_of(full), FUJI_KEYWORDS@),
        !any_contained(lowercase_of(full), CINESTILL_KEYWORDS@),
    ensures
        manufacturer_and_name(full) == ("Unknown"@, capitalized(full)),
{
    let p = |e: (&'static str, &'static str)| contains(lowercase_of(full), e.0@);
    assert forall|j: int| 0 <= j < DIRECT_BRANDS@.len() implies !p(#[trigger] DIRECT_BRANDS@[j]) by {}
    lemma_first_where_none(DIRECT_BRANDS@, p);
}

fn any_keyword(lower: &Vec<char>, words: &[&'static str]) -> (b: bool)
    ensures
        b == any_contained(lower@, words@),
{
    let n = words.len();
    for j in 0..n
        invariant
            n == words@.len(),
            forall|k: int| 0 <= k < j ==> !contains(lower@, (#[trigger] words@[k])@),
    {
        if contains_str(lower, words[j]) {
            return true;
        }
    }
    false
}

/// Splits a stock's name into its manufacturer and its display name.
pub fn split_manufacturer_and_name(full: &str) -> (r: (String, String))
    ensures
        (r.0@, r.1@) == manufacturer_and_name(full@),
{
    let lower = lower_chars(full);
    let ghost p = |e: (&'static str, &'static str)| contains(lower@, e.0@);
    let n = DIRECT_BRANDS.len();
    for i in 0..n
        invariant
            n == DIRECT_BRANDS@.len(),
            p == (|e: (&'static str, &'static str)| contains(lower@, e.0@)),
            lower@ == lowercase_of(full@),
            forall|k: int| 0 <= k < i ==> !p(#[trigger] DIRECT_BRANDS@[k]),
    {
        let (keyword, brand) = DIRECT_BRANDS[i];
        if contains_str(&lower, keyword) {
            proof {
                lemma_first_where_found(DIRECT_BRANDS@, p, i as int);
            }
            let kw = chars_of(keyword);
            let empty: Vec<char> = Vec::new();
            let removed = replace_all_exec(&lower, &kw, &empty);
            let rest = trim_exec(&removed, true);
            let display = if rest.len() == 0 {
                capitalize_name(full)
            } else {
                let rest_s = string_of(&rest);
                capitalize_name(rest_s.as_str())
            };
            return (brand.to_string(), display);
        }
    }
    proof {
        lemma_first_where_none(DIRECT_BRANDS@, p);
    }
    let maker = if any_keyword(&lower, &KODAK_KEYWORDS) {
        "Kodak"
    } else if any_keyword(&lower, &FUJI_KEYWORDS) {
        "Fujifilm"
    } else if any_keyword(&lower, &CINESTILL_KEYWORDS) {
        "CineStill"
    } else {
        "Unknown"
    };
    (maker.to_string(), capitalize_name(full))
}

// ------------------------------------------------------------------
// Tags and descriptions
// ------------------------------------------------------------------

/// The views of a vector of strings.
pub open spec fn string_views(v: Seq<String>) -> Seq<Seq<char>> {
    v.map_values(|s: String| s@)
}

/// What a stock's numeric parameters say, as the tag rules read them:
/// `fast` is ISO at least 800, `slow` ISO at most 100, `long_exposure` a
/// reciprocity coefficient above 0.15, `strong_halation` a halation strength
/// above 1.0.
#[derive(Debug, Clone, Copy, PartialEq, Eq, Structural)]
pub struct StockTraits {
    pub fast: bool,
    pub slow: bool,
    pub long_exposure: bool,
    pub strong_halation: bool,
}

/// Name words and the kind of film that each marks; the first word found wins.
pub const KIND_TAGS: [(&'static str, &'static str); 19] = [
    ("portra", "人像肤色"),
    ("gold", "暖调日常"),
    ("ektar", "高饱和风景"),
    ("velvia", "高饱和风景"),
    ("ektachrome", "正片/真实色彩"),
    ("provia", "正片/真实色彩"),
    ("tri-x", "高反差黑白"),
    ("hp5", "高反差黑白"),
    ("delta", "细颗粒黑白"),
    ("fp4", "细颗粒黑白"),
    ("pan", "细颗粒黑白"),
    ("cinestill", "电影感/光晕"),
    ("800t", "电影感/光晕"),
    ("superia", "日系清新"),
    ("fujicolor", "日系清新"),
    ("lomo", "创意/lomo"),
    ("polaroid", "拍立得/怀旧"),
    ("solaris", "复古暖调"),
    ("ferrania", "复古暖调"),
];

/// The index of the first entry of a (word, value) table whose word occurs in `lower`.
pub open spec fn first_word_in(lower: Seq<char>, table: Seq<(&'static str, &'static str)>) -> Option<int> {
    first_where(table, |e: (&'static str, &'static str)| contains(lower, e.0@))
}

/// The suggested-use tags of a stock: one speed tag, then the kind of film
/// its name shows (if any), then a halation tag and a long-exposure tag
/// where the traits call for them.
pub open spec fn stock_tags(name: Seq<char>, t: StockTraits) -> Seq<Seq<char>> {
    let speed = if t.fast {
        "弱光/夜景"@
    } else if t.slow {
        "日光/细颗粒"@
    } else {
        "通用感光"@
    };
    let kind = match first_word_in(lowercase_of(name), KIND_TAGS@) {
        Some(i) => seq![KIND_TAGS@[i].1@],
        None => Seq::empty(),
    };
    let halation = if t.strong_halation { seq!["强光晕"@] } else { Seq::empty() };
    let exposure = if t.long_exposure { seq!["长曝光"@] } else { Seq::empty() };
    seq![speed] + kind + halation + exposure
}

/// The index of the first table entry whose word occurs in `lower`.
fn first_word_exec(lower: &Vec<char>, table: &[(&'static str, &'static str)]) -> (r: Option<usize>)
    ensures
        match r {
            Some(i) => i < table@.len() && first_word_in(lower@, table@) == Some(i as int),
            None => first_word_in(lower@, table@) is None,
        },
{
    let ghost p = |e: (&'static str, &'static str)| contains(lower@, e.0@);
    let n = table.len();
    for i in 0..n
        invariant
            n == table@.len(),
            p == (|e: (&'static str, &'static str)| contains(lower@, e.0@)),
            forall|k: int| 0 <= k < i ==> !p(#[trigger] table@[k]),
    {
        if contains_str(lower, table[i].0) {
            proof {
                lemma_first_where_found(table@, p, i as int);
            }
            return Some(i);
        }
    }
    proof {
        lemma_first_where_none(table@, p);
    }
    None
}

/// Suggested-use tags for a stock called `name` with the given traits.
pub fn infer_tags(name: &str, traits: StockTraits) -> (tags: Vec<String>)
    ensures
        string_views(tags@) == stock_tags(name@, traits),
{
    let mut tags: Vec<String> = Vec::new();
    let lower = lower_chars(name);
    if traits.fast {
        tags.push("弱光/夜景".to_string());
    } else if traits.slow {
        tags.push("日光/细颗粒".to_string());
    } else {
        tags.push("通用感光".to_string());
    }
    match first_word_exec(&lower, &KIND_TAGS) {
        Some(i) => {
            tags.push(KIND_TAGS[i].1.to_string());
        },
        None => {},
    }
    if traits.strong_halation {
        tags.push("强光晕".to_string());
    }
    if traits.long_exposure {
        tags.push("长曝光".to_string());
    }
    assert(string_views(tags@) =~= stock_tags(name@, traits));
    tags
}

/// Stock words and the tonal description of each; the first word found wins.
pub const DESC_TABLE: [(&'static str, &'static str); 51] = [
    ("portra 800", "暖调肤色·宽容度高·低光柔和 — 婚礼/室内/弱光人像首选"),
    ("portra 400", "暖调肤色·低反差·高光滚降柔和 — 经典人像/婚礼万能卷"),
    ("portra 160", "极细颗粒·中性肤色·高宽容度 — 商业人像/时尚/棚拍"),
    ("gold 200", "暖金黄调·复古感·日常亲切 — 旅行/家庭/生活记录"),
    ("ektar 100", "极高饱和·锐利细腻·色彩浓烈 — 风景/建筑/产品"),
    ("ektachrome 100 vs", "高饱和正片·鲜艳浓郁·冷暖分明 — 自然风光/花卉/户外"),
    ("ektachrome 100", "正片·色彩真实·中高饱和·冷调 — 风景/产品/商业摄影"),
    ("kodachrome 64", "经典正片·暖调·红色突出·时代感 — 旅行/纪实/街拍"),
    ("kodachrome 25", "极细颗粒·低感·色彩浓郁 — 静物/风景/阳光充足"),
    ("tri-x 400", "经典粗颗粒·高反差·强戏剧感 — 街拍/纪实/新闻"),
    ("plus-x 125", "细颗粒·中反差·影调丰富 — 风景/静物/人像"),
    ("velvia 100", "极高饱和正片·绿色突出·风光之王 — 自然风光/花草/户外"),
    ("velvia 50", "超饱和正片·极细颗粒·低感 — 风光/静物/三脚架拍摄"),
    ("provia 100f", "正片·色彩准确·中饱和·真实还原 — 风景/产品/商业"),
    ("superia 400", "冷调偏绿·日系清新·通用 — 日常/旅行/街头"),
    ("superia 200", "冷调柔和·细颗粒·清淡 — 日常/人像/旅行"),
    ("superia 100", "冷调·极细颗粒·低感 — 风景/静物/阳光充足"),
    ("fujicolor 100", "冷调·低感·细颗粒·清新 — 风景/静物/户外"),
    ("xtra 400", "暖调·消费级·通用 — 日常/家庭/旅行"),
    ("neopan 400", "黑白·中反差·影调平滑 — 街拍/纪实/通用"),
    ("neopan 100", "黑白·细颗粒·中反差 — 风景/建筑/静物"),
    ("cinestill 800t", "钨丝灯色温·冷蓝调·红晕光·电影感 — 夜景/街拍/霓虹灯"),
    ("cinestill 50d", "日光平衡·细颗粒·电影感·柔和 — 白天/风景/人像"),
    ("hp5 plus 400", "经典黑白·中颗粒·高宽容度 — 街拍/纪实/通用"),
    ("fp4 plus 125", "细颗粒·丰富影调·中反差 — 风景/人像/静物"),
    ("delta 3200", "超高感·粗颗粒·强氛围·暗光 — 音乐会/夜景/情绪"),
    ("delta 100", "极细颗粒·高锐度·中反差 — 风景/建筑/静物"),
    ("xp2 super", "C41黑白·平滑影调·染料片 — 通用/人像"),
    ("pan f plus", "极细颗粒·高反差·高锐度 — 风景/静物/微距"),
    ("polaroid 600", "暖调·低反差·拍立得风格 — 日常/怀旧/创意"),
    ("sx-70", "经典拍立得·柔焦感·怀旧色调 — 怀旧/艺术/创意"),
    ("lomochrome purple", "紫色调·超现实色彩·创意 — 创意/艺术/实验"),
    ("lomography color chrome", "高饱和·强对比·lomo风格 — 创意/街头/旅行"),
    ("solaris 400", "复古暖调·意式风格·颗粒感 — 怀旧/旅行/日常"),
    ("solaris 100", "复古暖调·细颗粒·阳光 — 怀旧/风景/旅行"),
    ("orwo un54", "电影黑白·德味影调·中反差 — 电影/纪实/街拍"),
    ("orwo un64", "电影黑白·细颗粒·低感 — 电影/纪实/静物"),
    ("gr street night", "夜景专用·高反差·冷调 — 夜景/街拍/城市"),
    ("standard daylight", "标准日光·中性参考 — 测试/基准"),
    ("vista 400", "暖调·中颗粒·复古感 — 日常/旅行/怀旧"),
    ("vista 200", "暖调柔和·日用 — 日常/人像"),
    ("vista 100", "暖调·细颗粒·低感 — 风景/户外"),
    ("apx 400", "黑白·中颗粒·高宽容度 — 街拍/纪实"),
    ("apx 100", "黑白·细颗粒·高锐度 — 风景/静物"),
    ("precisa 100", "正片·色彩鲜艳·细颗粒 — 风景/户外"),
    ("scala 200", "黑白反转片·高反差·独特 — 创意/艺术"),
    ("optima 200", "暖调柔和·中感光度 — 日常/人像"),
    ("ultramax 400", "暖调高饱和·浓郁色彩·消费卷王 — 旅行/家庭/街拍"),
    ("pro 400h", "冷蓝阴影·暖粉高光·日系人像王 — 人像/婚礼/生活记录"),
    ("pro_400h", "冷蓝阴影·暖粉高光·日系人像王 — 人像/婚礼/生活记录"),
    ("natura 1600", "高速月光·暖调浓郁·青绿阴影·独特颗粒 — 夜景/室内/街拍"),
];

/// The decimal digits of a natural number.
pub open spec fn digits(n: nat) -> Seq<char>
    decreases n,
{
    let d = ((n % 10) + 48) as char;
    if n < 10 {
        seq![d]
    } else {
        digits(n / 10).push(d)
    }
}

/// The decimal form of an integer, with a leading `-` when negative.
pub open spec fn decimal(v: int) -> Seq<char> {
    if v < 0 {
        seq!['-'] + digits((-v) as nat)
    } else {
        digits(v as nat)
    }
}

fn digits_exec(n: u64) -> (r: Vec<char>)
    ensures
        r@ == digits(n as nat),
    decreases n,
{
    let d = ((n % 10) as u8 + 48) as char;
    if n < 10 {
        let mut r: Vec<char> = Vec::new();
        r.push(d);
        r
    } else {
        let mut r = digits_exec(n / 10);
        r.push(d);
        r
    }
}

/// The decimal form of `v` (what `i32::to_string` gives).
pub fn decimal_exec(v: i32) -> (r: Vec<char>)
    ensures
        r@ == decimal(v as int),
{
    if v < 0 {
        let m = (0i64 - v as i64) as u64;
        let ds = digits_exec(m);
        let mut r: Vec<char> = Vec::new();
        r.push('-');
        let n = ds.len();
        for i in 0..n
            invariant
                n == ds.len(),
                r@ =~= seq!['-'] + ds@.take(i as int),
        {
            r.push(ds[i]);
        }
        assert(ds@.take(n as int) =~= ds@);
        r
    } else {
        digits_exec(v as u64)
    }
}

/// The tonal description of a stock: that of the first table word found in
/// its lower-cased name, else a generic line naming the manufacturer and the
/// whole-number ISO.
pub open spec fn stock_description(name: Seq<char>, manufacturer: Seq<char>, iso: int) -> Seq<char> {
    match first_word_in(lowercase_of(name), DESC_TABLE@) {
        Some(i) => DESC_TABLE@[i].1@,
        None => manufacturer + " · ISO "@ + decimal(iso) + " — 通用胶片风格"@,
    }
}

/// Describes the look of a stock; `iso` is its ISO speed in whole numbers.
pub fn infer_description(name: &str, manufacturer: &str, iso: i32) -> (d: String)
    ensures
        d@ == stock_description(name@, manufacturer@, iso as int),
{
    let lower = lower_chars(name);
    match first_word_exec(&lower, &DESC_TABLE) {
        Some(i) => DESC_TABLE[i].1.to_string(),
        None => {
            let mut d = manufacturer.to_string();
            d.append(" · ISO ");
            let ds = decimal_exec(iso);
            let dstr = string_of(&ds);
            d.append(dstr.as_str());
            d.append(" — 通用胶片风格");
            d
        },
    }
}

// ------------------------------------------------------------------
// Identifiers and stock selection
// ------------------------------------------------------------------

/// A preset's identifier: lower-cased manufacturer and name, spaces as `_`,
/// joined by `_`.
pub open spec fn preset_id_of(manufacturer: Seq<char>, name: Seq<char>) -> Seq<char> {
    replace_char(lowercase_of(manufacturer), ' ', '_') + seq!['_'] + replace_char(lowercase_of(name), ' ', '_')
}

/// The identifier of the preset for `name` by `manufacturer`.
pub fn preset_id(manufacturer: &str, name: &str) -> (id: String)
    ensures
        id@ == preset_id_of(manufacturer@, name@),
{
    let m = replace_char_exec(&lower_chars(manufacturer), ' ', '_');
    let n = replace_char_exec(&lower_chars(name), ' ', '_');
    let mut out = string_of(&m);
    string_push(&mut out, '_');
    let ns = string_of(&n);
    out.append(ns.as_str());
    out
}

/// Whether a built-in stock is offered: stocks known to render badly
/// (names with "c200" or "colorplus 200") are left out.
pub open spec fn stock_offered(name: Seq<char>) -> bool {
    !contains(lowercase_of(name), "c200"@) && !contains(lowercase_of(name), "colorplus 200"@)
}

/// Whether the built-in stock called `name` is offered.
pub fn is_offered_stock(name: &str) -> (b: bool)
    ensures
        b == stock_offered(name@),
{
    let lower = lower_chars(name);
    !contains_str(&lower, "c200") && !contains_str(&lower, "colorplus 200")
}

} // verus!
