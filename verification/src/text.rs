//! Character-sequence tools: the string operations that the name matching
//! of this crate is built from, each with the meaning it has on `Seq<char>`.
use vstd::prelude::*;

verus! {

// ------------------------------------------------------------------
// Characters
// ------------------------------------------------------------------

/// Unicode `White_Space` code points.
pub open spec fn is_white_space(c: char) -> bool {
    let u = c as u32;
    (9 <= u && u <= 13) || u == 32 || u == 0x85 || u == 0xa0 || u == 0x1680 || (0x2000 <= u
        && u <= 0x200a) || u == 0x2028 || u == 0x2029 || u == 0x202f || u == 0x205f || u == 0x3000
}

/// `c` with `a`..=`z` mapped to `A`..=`Z`.
pub open spec fn ascii_upper(c: char) -> char {
    if 'a' <= c && c <= 'z' {
        ((c as u32) - 32) as char
    } else {
        c
    }
}

/// `c` with `A`..=`Z` mapped to `a`..=`z`.
pub open spec fn ascii_lower(c: char) -> char {
    if 'A' <= c && c <= 'Z' {
        ((c as u32) + 32) as char
    } else {
        c
    }
}

/// What `str::to_lowercase` gives for a string (full Unicode case mapping).
pub uninterp spec fn lowercase_of(s: Seq<char>) -> Seq<char>;

/// What `char::is_alphanumeric` gives (Unicode `Alphabetic` or `Numeric`).
pub uninterp spec fn alphanumeric(c: char) -> bool;

/// Whether `c` is white space (what `char::is_whitespace` answers).
pub(crate) fn char_is_whitespace(c: char) -> (b: bool)
    ensures
        b == is_white_space(c),
{
    let u = c as u32;
    (9 <= u && u <= 13) || u == 32 || u == 0x85 || u == 0xa0 || u == 0x1680 || (0x2000 <= u
        && u <= 0x200a) || u == 0x2028 || u == 0x2029 || u == 0x202f || u == 0x205f || u == 0x3000
}

/// `c` with an ASCII lower-case letter made upper case (what
/// `char::to_ascii_uppercase` gives).
pub(crate) fn char_to_ascii_uppercase(c: char) -> (r: char)
    ensures
        r == ascii_upper(c),
{
    if 'a' <= c && c <= 'z' {
        let b = c as u8;
        ((b - 32) as char)
    } else {
        c
    }
}

/// `c` with an ASCII upper-case letter made lower case (what
/// `char::to_ascii_lowercase` gives).
pub(crate) fn char_to_ascii_lowercase(c: char) -> (r: char)
    ensures
        r == ascii_lower(c),
{
    if 'A' <= c && c <= 'Z' {
        let b = c as u8;
        ((b + 32) as char)
    } else {
        c
    }
}

/// `char::is_alphanumeric`; its result is named, not stated (Unicode tables).
#[verifier::external_body]
pub(crate) fn char_is_alphanumeric(c: char) -> (b: bool)
    ensures
        b == alphanumeric(c),
{
    c.is_alphanumeric()
}

/// `str::to_lowercase`; its result is named, not stated (Unicode case mapping).
#[verifier::external_body]
pub(crate) fn str_to_lowercase(s: &str) -> (r: String)
    ensures
        r@ == lowercase_of(s@),
{
    s.to_lowercase()
}

/// `String::push`: appends one character.
#[verifier::external_body]
pub(crate) fn string_push(s: &mut String, c: char)
    ensures
        final(s)@ == old(s)@.push(c),
{
    s.push(c);
}

// ------------------------------------------------------------------
// Conversions
// ------------------------------------------------------------------

/// The characters of `s`, in order.
pub fn chars_of(s: &str) -> (v: Vec<char>)
    ensures
        v@ == s@,
{
    let mut v: Vec<char> = Vec::new();
    for c in it: s.chars()
        invariant
            v@ == it.seq().take(it.index() as int),
    {
        v.push(c);
    }
    v
}

/// A string holding the characters of `v`.
pub fn string_of(v: &Vec<char>) -> (s: String)
    ensures
        s@ == v@,
{
    let mut s = String::new();
    let n = v.len();
    for i in 0..n
        invariant
            n == v.len(),
            s@ == v@.take(i as int),
    {
        string_push(&mut s, v[i]);
        assert(v@.take(i + 1) == v@.take(i as int).push(v@[i as int]));
    }
    assert(v@.take(n as int) == v@);
    s
}

/// The characters of the lower-cased `s`.
pub fn lower_chars(s: &str) -> (v: Vec<char>)
    ensures
        v@ == lowercase_of(s@),
{
    let l = str_to_lowercase(s);
    chars_of(l.as_str())
}

// ------------------------------------------------------------------
// Equality and search
// ------------------------------------------------------------------

/// Whether two character sequences are equal.
pub fn chars_eq(a: &Vec<char>, b: &Vec<char>) -> (r: bool)
    ensures
        r == (a@ == b@),
{
    if a.len() != b.len() {
        return false;
    }
    let n = a.len();
    for i in 0..n
        invariant
            n == a.len(),
            n == b.len(),
            forall|k: int| 0 <= k < i ==> a@[k] == b@[k],
    {
        if a[i] != b[i] {
            return false;
        }
    }
    assert(a@ =~= b@);
    true
}

/// `needle` occurs in `hay` starting at position `i`.
pub open spec fn occurs_at(hay: Seq<char>, needle: Seq<char>, i: int) -> bool {
    &&& 0 <= i
    &&& i + needle.len() <= hay.len()
    &&& forall|k: int| 0 <= k < needle.len() ==> #[trigger] hay[i + k] == needle[k]
}

/// `needle` is a substring of `hay` (the empty needle is in every hay).
pub open spec fn contains(hay: Seq<char>, needle: Seq<char>) -> bool {
    exists|i: int| occurs_at(hay, needle, i)
}

fn occurs_at_exec(hay: &Vec<char>, needle: &Vec<char>, i: usize) -> (r: bool)
    requires
        i + needle.len() <= hay.len(),
    ensures
        r == occurs_at(hay@, needle@, i as int),
{
    let m = needle.len();
    for k in 0..m
        invariant
            m == needle.len(),
            i + m <= hay.len(),
            forall|j: int| 0 <= j < k ==> #[trigger] hay@[i + j] == needle@[j],
    {
        if hay[i + k] != needle[k] {
            assert(hay@[i + k as int] != needle@[k as int]);
            return false;
        }
    }
    true
}

/// Whether `needle` is a substring of `hay`.
pub fn contains_chars(hay: &Vec<char>, needle: &Vec<char>) -> (r: bool)
    ensures
        r == contains(hay@, needle@),
{
    if needle.len() > hay.len() {
        return false;
    }
    let last = hay.len() - needle.len();
    let mut i: usize = 0;
    while i <= last
        invariant
            last == hay.len() - needle.len(),
            needle.len() <= hay.len(),
            i <= last + 1,
            forall|j: int| 0 <= j < i ==> !occurs_at(hay@, needle@, j),
        decreases last + 1 - i,
    {
        if occurs_at_exec(hay, needle, i) {
            return true;
        }
        i = i + 1;
    }
    false
}

/// Whether the characters of `needle` occur in `hay`.
pub fn contains_str(hay: &Vec<char>, needle: &str) -> (r: bool)
    ensures
        r == contains(hay@, needle@),
{
    let n = chars_of(needle);
    contains_chars(hay, &n)
}

// ------------------------------------------------------------------
// Mapping and filtering
// ------------------------------------------------------------------

/// `s` with every `from` replaced by `to`.
pub open spec fn replace_char(s: Seq<char>, from: char, to: char) -> Seq<char> {
    s.map_values(|c: char| if c == from { to } else { c })
}

/// Replaces every `from` by `to`.
pub fn replace_char_exec(s: &Vec<char>, from: char, to: char) -> (r: Vec<char>)
    ensures
        r@ == replace_char(s@, from, to),
{
    let mut r: Vec<char> = Vec::new();
    let n = s.len();
    for i in 0..n
        invariant
            n == s.len(),
            r@ =~= replace_char(s@.take(i as int), from, to),
    {
        let c = s[i];
        if c == from {
            r.push(to);
        } else {
            r.push(c);
        }
    }
    assert(s@.take(n as int) =~= s@);
    r
}

/// `s` without its white-space characters.
pub open spec fn strip_white_space(s: Seq<char>) -> Seq<char> {
    s.filter(|c: char| !is_white_space(c))
}

/// Drops every white-space character.
pub fn strip_white_space_exec(s: &Vec<char>) -> (r: Vec<char>)
    ensures
        r@ == strip_white_space(s@),
{
    let mut r: Vec<char> = Vec::new();
    let n = s.len();
    for i in 0..n
        invariant
            n == s.len(),
            r@ == strip_white_space(s@.take(i as int)),
    {
        let c = s[i];
        proof {
            reveal_with_fuel(Seq::<_>::filter, 1);
            assert(s@.take(i + 1).drop_last() =~= s@.take(i as int));
        }
        if !char_is_whitespace(c) {
            r.push(c);
        }
    }
    assert(s@.take(n as int) =~= s@);
    r
}

/// `s` with every occurrence of `pat`, scanned from the left without
/// overlaps, replaced by `rep` (`str::replace`); an empty `pat` leaves `s` as it is.
pub open spec fn replace_all(s: Seq<char>, pat: Seq<char>, rep: Seq<char>) -> Seq<char>
    decreases s.len(),
{
    if pat.len() == 0 || s.len() < pat.len() {
        s
    } else if s.take(pat.len() as int) == pat {
        rep + replace_all(s.skip(pat.len() as int), pat, rep)
    } else {
        seq![s[0]] + replace_all(s.skip(1), pat, rep)
    }
}

proof fn lemma_occurs_at_zero(s: Seq<char>, pat: Seq<char>)
    requires
        pat.len() <= s.len(),
    ensures
        occurs_at(s, pat, 0) == (s.take(pat.len() as int) == pat),
{
    if occurs_at(s, pat, 0) {
        assert forall|k: int| 0 <= k < pat.len() implies s.take(pat.len() as int)[k] == pat[k] by {
            assert(s[0 + k] == pat[k]);
        }
        assert(s.take(pat.len() as int) =~= pat);
    }
    if s.take(pat.len() as int) == pat {
        assert forall|k: int| 0 <= k < pat.len() implies #[trigger] s[0 + k] == pat[k] by {
            assert(s.take(pat.len() as int)[k] == pat[k]);
        }
    }
}

/// Replaces every non-overlapping occurrence of `pat` (scanning from the left) by `rep`.
pub fn replace_all_exec(s: &Vec<char>, pat: &Vec<char>, rep: &Vec<char>) -> (r: Vec<char>)
    ensures
        r@ == replace_all(s@, pat@, rep@),
{
    let mut r: Vec<char> = Vec::new();
    if pat.len() == 0 {
        let n = s.len();
        for i in 0..n
            invariant
                n == s.len(),
                r@ =~= s@.take(i as int),
        {
            r.push(s[i]);
        }
        assert(s@.take(n as int) =~= s@);
        return r;
    }
    let n = s.len();
    let m = pat.len();
    let mut i: usize = 0;
    assert(s@.skip(0) =~= s@);
    assert(r@ + replace_all(s@, pat@, rep@) =~= replace_all(s@, pat@, rep@));
    while i < n
        invariant
            n == s.len(),
            m == pat.len(),
            m > 0,
            i <= n,
            r@ + replace_all(s@.skip(i as int), pat@, rep@) == replace_all(s@, pat@, rep@),
        decreases n - i,
    {
        let ghost rest = s@.skip(i as int);
        if n - i >= m && occurs_at_exec(s, pat, i) {
            proof {
                assert forall|k: int| 0 <= k < m implies #[trigger] rest[0 + k] == pat@[k] by {
                    assert(s@[i + k] == pat@[k]);
                }
                lemma_occurs_at_zero(rest, pat@);
                assert(rest.skip(m as int) =~= s@.skip(i + m));
            }
            let ghost r0 = r@;
            let rl = rep.len();
            for k in 0..rl
                invariant
                    rl == rep.len(),
                    r@ == r0 + rep@.take(k as int),
            {
                r.push(rep[k]);
                assert(rep@.take(k + 1) == rep@.take(k as int).push(rep@[k as int]));
            }
            assert(rep@.take(rl as int) =~= rep@);
            assert(r@ + replace_all(s@.skip(i + m), pat@, rep@) =~= r0 + replace_all(rest, pat@, rep@));
            i = i + m;
        } else {
            proof {
                if rest.len() >= m {
                    if rest.take(m as int) == pat@ {
                        lemma_occurs_at_zero(rest, pat@);
                        assert forall|k: int| 0 <= k < m implies #[trigger] s@[i + k] == pat@[k] by {
                            assert(rest[0 + k] == pat@[k]);
                        }
                    }
                }
                assert(rest.skip(1) =~= s@.skip(i + 1));
            }
            let ghost r0 = r@;
            r.push(s[i]);
            assert(r@ + replace_all(s@.skip(i + 1), pat@, rep@) =~= r0 + replace_all(rest, pat@, rep@));
            i = i + 1;
        }
    }
    assert(replace_all(s@.skip(n as int), pat@, rep@) =~= Seq::<char>::empty());
    assert(r@ + Seq::<char>::empty() =~= r@);
    r
}

// ------------------------------------------------------------------
// Trimming
// ------------------------------------------------------------------

/// The characters that trimming strips: white space, and with `dash_underscore`
/// also `-` and `_`.
pub open spec fn trim_pred(dash_underscore: bool) -> spec_fn(char) -> bool {
    |c: char| is_white_space(c) || (dash_underscore && (c == '-' || c == '_'))
}

/// `s` without its leading characters that satisfy `p`.
pub open spec fn trim_start_by(s: Seq<char>, p: spec_fn(char) -> bool) -> Seq<char>
    decreases s.len(),
{
    if s.len() > 0 && p(s[0]) {
        trim_start_by(s.drop_first(), p)
    } else {
        s
    }
}

/// `s` without its trailing characters that satisfy `p`.
pub open spec fn trim_end_by(s: Seq<char>, p: spec_fn(char) -> bool) -> Seq<char>
    decreases s.len(),
{
    if s.len() > 0 && p(s.last()) {
        trim_end_by(s.drop_last(), p)
    } else {
        s
    }
}

/// `s` without leading and trailing characters that satisfy `p`.
pub open spec fn trim_by(s: Seq<char>, p: spec_fn(char) -> bool) -> Seq<char> {
    trim_end_by(trim_start_by(s, p), p)
}

/// `str::trim`: `s` without leading and trailing white space.
pub open spec fn trim(s: Seq<char>) -> Seq<char> {
    trim_by(s, trim_pred(false))
}

proof fn lemma_trim_start(s: Seq<char>, p: spec_fn(char) -> bool, k: int)
    requires
        0 <= k <= s.len(),
        forall|j: int| 0 <= j < k ==> p(#[trigger] s[j]),
        k == s.len() || !p(s[k]),
    ensures
        trim_start_by(s, p) == s.skip(k),
    decreases k,
{
    if k == 0 {
        assert(s.skip(0) =~= s);
    } else {
        assert(p(s[0]));
        let t = s.drop_first();
        assert forall|j: int| 0 <= j < k - 1 implies p(#[trigger] t[j]) by {
            assert(p(s[j + 1]));
        }
        lemma_trim_start(t, p, k - 1);
        assert(t.skip(k - 1) =~= s.skip(k));
    }
}

proof fn lemma_trim_end(t: Seq<char>, p: spec_fn(char) -> bool, e: int)
    requires
        0 <= e <= t.len(),
        forall|j: int| e <= j < t.len() ==> p(#[trigger] t[j]),
        e == 0 || !p(t[e - 1]),
    ensures
        trim_end_by(t, p) == t.take(e),
    decreases t.len() - e,
{
    if e == t.len() {
        assert(t.take(e) =~= t);
    } else {
        assert(p(t.last()));
        let u = t.drop_last();
        assert forall|j: int| e <= j < u.len() implies p(#[trigger] u[j]) by {
            assert(p(t[j]));
        }
        lemma_trim_end(u, p, e);
        assert(u.take(e) =~= t.take(e));
    }
}

fn trim_char(c: char, dash_underscore: bool) -> (b: bool)
    ensures
        b == trim_pred(dash_underscore)(c),
{
    char_is_whitespace(c) || (dash_underscore && (c == '-' || c == '_'))
}

/// Strips leading and trailing white space (and with `dash_underscore`, `-` and `_`).
pub fn trim_exec(s: &Vec<char>, dash_underscore: bool) -> (r: Vec<char>)
    ensures
        r@ == trim_by(s@, trim_pred(dash_underscore)),
{
    let ghost p = trim_pred(dash_underscore);
    let n = s.len();
    let mut start: usize = 0;
    while start < n && trim_char(s[start], dash_underscore)
        invariant
            n == s.len(),
            start <= n,
            p == trim_pred(dash_underscore),
            forall|j: int| 0 <= j < start ==> p(#[trigger] s@[j]),
        decreases n - start,
    {
        start = start + 1;
    }
    let mut end: usize = n;
    while end > start && trim_char(s[end - 1], dash_underscore)
        invariant
            n == s.len(),
            start <= end <= n,
            p == trim_pred(dash_underscore),
            forall|j: int| end <= j < n ==> p(#[trigger] s@[j]),
        decreases end,
    {
        end = end - 1;
    }
    let mut r: Vec<char> = Vec::new();
    for i in start..end
        invariant
            start <= end <= n,
            n == s.len(),
            r@ =~= s@.subrange(start as int, i as int),
    {
        r.push(s[i]);
    }
    proof {
        lemma_trim_start(s@, p, start as int);
        let t = s@.skip(start as int);
        assert forall|j: int| end - start <= j < t.len() implies p(#[trigger] t[j]) by {
            assert(p(s@[start + j]));
        }
        if end - start > 0 {
            assert(t[end - start - 1] == s@[end - 1]);
        }
        lemma_trim_end(t, p, end - start);
        assert(t.take(end - start) =~= s@.subrange(start as int, end as int));
    }
    r
}

// ------------------------------------------------------------------
// Splitting
// ------------------------------------------------------------------

/// The pieces of `s` between separator characters (`str::split` with a
/// character predicate): empty pieces are kept, and there is always one
/// more piece than there are separators.
pub open spec fn split_by(s: Seq<char>, sep: spec_fn(char) -> bool) -> Seq<Seq<char>>
    decreases s.len(),
{
    if s.len() == 0 {
        seq![Seq::<char>::empty()]
    } else {
        let prev = split_by(s.drop_last(), sep);
        if sep(s.last()) {
            prev.push(Seq::<char>::empty())
        } else {
            prev.update(prev.len() - 1, prev.last().push(s.last()))
        }
    }
}

pub proof fn lemma_split_nonempty(s: Seq<char>, sep: spec_fn(char) -> bool)
    ensures
        split_by(s, sep).len() >= 1,
    decreases s.len(),
{
    if s.len() > 0 {
        lemma_split_nonempty(s.drop_last(), sep);
    }
}

/// The separators of the split: space, and with `underscore` also `_`.
pub open spec fn split_sep(underscore: bool) -> spec_fn(char) -> bool {
    |c: char| c == ' ' || (underscore && c == '_')
}

/// The character sequences held by a vector of character vectors.
pub open spec fn views(v: Seq<Vec<char>>) -> Seq<Seq<char>> {
    v.map_values(|w: Vec<char>| w@)
}

/// Splits at every space (and with `underscore`, also at every `_`).
pub fn split_exec(s: &Vec<char>, underscore: bool) -> (r: Vec<Vec<char>>)
    ensures
        views(r@) == split_by(s@, split_sep(underscore)),
{
    let ghost sep = split_sep(underscore);
    let mut words: Vec<Vec<char>> = Vec::new();
    let mut cur: Vec<char> = Vec::new();
    let n = s.len();
    for i in 0..n
        invariant
            n == s.len(),
            sep == split_sep(underscore),
            views(words@).push(cur@) == split_by(s@.take(i as int), sep),
    {
        let c = s[i];
        proof {
            assert(s@.take(i + 1).drop_last() =~= s@.take(i as int));
            lemma_split_nonempty(s@.take(i as int), sep);
        }
        let ghost prev = split_by(s@.take(i as int), sep);
        let ghost w0 = views(words@);
        if c == ' ' || (underscore && c == '_') {
            let done = cur;
            words.push(done);
            cur = Vec::new();
            assert(views(words@) =~= w0.push(done@));
            assert(views(words@).push(cur@) =~= prev.push(Seq::<char>::empty()));
        } else {
            cur.push(c);
            assert(views(words@).push(cur@) =~= prev.update(prev.len() - 1, prev.last().push(c)));
        }
    }
    assert(s@.take(n as int) =~= s@);
    let ghost before = views(words@);
    let ghost last = cur@;
    words.push(cur);
    assert(views(words@) =~= before.push(last));
    words
}

// ------------------------------------------------------------------
// First match
// ------------------------------------------------------------------

/// The index of the first element of `s` that satisfies `p`, if any.
pub open spec fn first_where<T>(s: Seq<T>, p: spec_fn(T) -> bool) -> Option<int>
    decreases s.len(),
{
    if s.len() == 0 {
        None
    } else if p(s[0]) {
        Some(0)
    } else {
        match first_where(s.drop_first(), p) {
            Some(i) => Some(i + 1),
            None => None,
        }
    }
}

pub proof fn lemma_first_where_found<T>(s: Seq<T>, p: spec_fn(T) -> bool, i: int)
    requires
        0 <= i < s.len(),
        p(s[i]),
        forall|j: int| 0 <= j < i ==> !p(#[trigger] s[j]),
    ensures
        first_where(s, p) == Some(i),
    decreases i,
{
    if i > 0 {
        let t = s.drop_first();
        assert(!p(s[0]));
        assert forall|j: int| 0 <= j < i - 1 implies !p(#[trigger] t[j]) by {
            assert(!p(s[j + 1]));
        }
        lemma_first_where_found(t, p, i - 1);
    }
}

pub proof fn lemma_first_where_none<T>(s: Seq<T>, p: spec_fn(T) -> bool)
    requires
        forall|j: int| 0 <= j < s.len() ==> !p(#[trigger] s[j]),
    ensures
        first_where(s, p) == None::<int>,
    decreases s.len(),
{
    if s.len() > 0 {
        let t = s.drop_first();
        assert(!p(s[0]));
        assert forall|j: int| 0 <= j < t.len() implies !p(#[trigger] t[j]) by {
            assert(!p(s[j + 1]));
        }
        lemma_first_where_none(t, p);
    }
}

pub proof fn lemma_first_where_bounds<T>(s: Seq<T>, p: spec_fn(T) -> bool)
    ensures
        first_where(s, p) matches Some(i) ==> 0 <= i < s.len() && p(s[i]) && forall|j: int|
            0 <= j < i ==> !p(#[trigger] s[j]),
        first_where(s, p) is None ==> forall|j: int| 0 <= j < s.len() ==> !p(#[trigger] s[j]),
    decreases s.len(),
{
    if s.len() > 0 {
        let t = s.drop_first();
        lemma_first_where_bounds(t, p);
        if !p(s[0]) {
            assert forall|j: int| 1 <= j < s.len() implies (#[trigger] s[j]) == t[j - 1] by {}
        }
    }
}

/// The UTF-8 length of `w` in bytes (`str::len`), as a `usize`.
pub open spec fn utf8_len(w: Seq<char>) -> usize {
    vstd::utf8::encode_utf8(w).len() as usize
}

/// The UTF-8 length of `w` in bytes.
pub fn utf8_len_exec(w: &Vec<char>) -> (n: usize)
    ensures
        n == utf8_len(w@),
{
    let s = string_of(w);
    s.as_str().len()
}

} // verus!
