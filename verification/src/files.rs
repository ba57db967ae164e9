//! File names: which inputs are camera raw, and the names under which
//! presets and results are written.
use vstd::prelude::*;
use crate::text::{
    alphanumeric, char_is_alphanumeric, chars_eq, chars_of, lower_chars, lowercase_of, string_of,
    trim, trim_exec,
};

verus! {

/// What `Path::extension` gives for a path: the part of the file name
/// after its last `.`, if there is one that does not start the name.
pub uninterp spec fn path_extension(path: Seq<char>) -> Option<Seq<char>>;

/// `std::path::Path::extension` of a path given as text.
#[verifier::external_body]
fn extension_of(path: &str) -> (r: Option<String>)
    ensures
        match r {
            Some(e) => path_extension(path@) == Some(e@),
            None => path_extension(path@) is None,
        },
{
    std::path::Path::new(path).extension().and_then(|e| e.to_str()).map(|e| e.to_string())
}

/// Extensions of camera raw files, lower case.
pub const RAW_EXTENSIONS: [&'static str; 15] = [
    "cr2",
    "cr3",
    "nef",
    "arw",
    "dng",
    "raf",
    "rw2",
    "orf",
    "sr2",
    "srw",
    "x3f",
    "3fr",
    "mef",
    "mos",
    "pef",
];

/// A path names a camera raw file: its lower-cased extension is a raw one.
pub open spec fn is_raw_path(path: Seq<char>) -> bool {
    let ext = match path_extension(path) {
        Some(e) => e,
        None => Seq::empty(),
    };
    exists|j: int| 0 <= j < RAW_EXTENSIONS@.len() && (#[trigger] RAW_EXTENSIONS@[j])@ == lowercase_of(ext)
}

/// Whether `path` names a camera raw file, going by its extension.
pub fn is_raw_format(path: &str) -> (b: bool)
    ensures
        b == is_raw_path(path@),
{
    let ext = match extension_of(path) {
        Some(e) => e,
        None => String::new(),
    };
    let lower = lower_chars(ext.as_str());
    let n = RAW_EXTENSIONS.len();
    for j in 0..n
        invariant
            n == RAW_EXTENSIONS@.len(),
            lower@ == lowercase_of(ext@),
            ext@ == (match path_extension(path@) {
                Some(e) => e,
                None => Seq::empty(),
            }),
            forall|k: int| 0 <= k < j ==> (#[trigger] RAW_EXTENSIONS@[k])@ != lower@,
    {
        if chars_eq(&chars_of(RAW_EXTENSIONS[j]), &lower) {
            return true;
        }
    }
    false
}

/// Characters kept in preset file names.
pub open spec fn file_name_char(c: char) -> bool {
    alphanumeric(c) || c == ' ' || c == '-' || c == '_'
}

/// The file a preset called `name` is stored in: the name's letters,
/// digits, spaces, `-` and `_`, trimmed, with ".json" appended.
pub open spec fn preset_file_name_of(name: Seq<char>) -> Seq<char> {
    trim(name.filter(|c: char| file_name_char(c))) + ".json"@
}

/// The file name of the preset called `name`.
pub fn preset_file_name(name: &str) -> (f: String)
    ensures
        f@ == preset_file_name_of(name@),
{
    let cs = chars_of(name);
    let ghost pred = |c: char| file_name_char(c);
    let mut kept: Vec<char> = Vec::new();
    let n = cs.len();
    for i in 0..n
        invariant
            n == cs.len(),
            cs@ == name@,
            pred == (|c: char| file_name_char(c)),
            kept@ == cs@.take(i as int).filter(pred),
    {
        let c = cs[i];
        proof {
            reveal_with_fuel(Seq::<_>::filter, 1);
            assert(cs@.take(i + 1).drop_last() =~= cs@.take(i as int));
        }
        if char_is_alphanumeric(c) || c == ' ' || c == '-' || c == '_' {
            kept.push(c);
        }
    }
    assert(cs@.take(n as int) =~= cs@);
    let trimmed = trim_exec(&kept, false);
    let mut f = string_of(&trimmed);
    f.append(".json");
    f
}

/// The default output file of a processed image whose input's file stem is `stem`.
pub fn default_output_name(stem: &str) -> (f: String)
    ensures
        f@ == stem@ + "_film.jpg"@,
{
    let mut f = stem.to_string();
    f.append("_film.jpg");
    f
}

} // verus!
