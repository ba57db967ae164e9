//! Finding a film stock or a preset from what a user typed.
use vstd::prelude::*;
use crate::text::{
    chars_eq, chars_of, contains, contains_chars, first_where, lemma_first_where_found,
    lemma_first_where_none, lower_chars, lowercase_of, replace_all, replace_all_exec,
    replace_char, replace_char_exec, split_by, split_exec, split_sep, strip_white_space,
    strip_white_space_exec, trim, trim_exec, utf8_len, utf8_len_exec, views,
};
use crate::presets::string_views;

verus! {

/// Lower-cased names.
pub open spec fn lower_all(names: Seq<Seq<char>>) -> Seq<Seq<char>> {
    names.map_values(|n: Seq<char>| lowercase_of(n))
}

fn lower_all_exec(names: &Vec<String>) -> (r: Vec<Vec<char>>)
    ensures
        views(r@) == lower_all(string_views(names@)),
{
    let mut r: Vec<Vec<char>> = Vec::new();
    let n = names.len();
    for i in 0..n
        invariant
            n == names.len(),
            views(r@) =~= lower_all(string_views(names@)).take(i as int),
    {
        let l = lower_chars(names[i].as_str());
        let ghost before = views(r@);
        r.push(l);
        assert(views(r@) =~= before.push(lowercase_of(names@[i as int]@)));
    }
    assert(lower_all(string_views(names@)).take(n as int) =~= lower_all(string_views(names@)));
    r
}

/// An exec index as an optional spec index.
pub open spec fn opt_index(r: Option<usize>) -> Option<int> {
    match r {
        Some(i) => Some(i as int),
        None => None,
    }
}

// ------------------------------------------------------------------
// Stocks by query
// ------------------------------------------------------------------

/// Manufacturer prefixes that a query may carry before a stock's own name.
pub const STOCK_MAKERS: [&'static str; 14] = [
    "kodak ",
    "fujifilm ",
    "fuji ",
    "ilford ",
    "polaroid ",
    "agfa ",
    "lomography ",
    "cinestill ",
    "ferrania ",
    "orwo ",
    "ricoh ",
    "lucky ",
    "standard ",
    "vintage ",
];

/// `s` with every one of the first `k` manufacturer prefixes removed, in table order.
pub open spec fn without_makers(s: Seq<char>, k: nat) -> Seq<char>
    decreases k,
{
    if k == 0 {
        s
    } else {
        replace_all(without_makers(s, (k - 1) as nat), STOCK_MAKERS@[k - 1]@, Seq::empty())
    }
}

/// `w` is a manufacturer word (a prefix without its trailing space).
pub open spec fn is_maker_word(w: Seq<char>) -> bool {
    exists|j: int| 0 <= j < STOCK_MAKERS@.len() && trim((#[trigger] STOCK_MAKERS@[j])@) == w
}

/// `w` counts as a keyword of a query: longer than one byte and no manufacturer word.
pub open spec fn query_keyword(w: Seq<char>) -> bool {
    utf8_len(w) > 1 && !is_maker_word(w)
}

/// The keywords of a query: its pieces between spaces and underscores that count.
pub open spec fn query_keywords(q: Seq<char>) -> Seq<Seq<char>> {
    split_by(q, split_sep(true)).filter(|w: Seq<char>| query_keyword(w))
}

/// The query with manufacturer prefixes removed, trimmed.
pub open spec fn query_cleaned(q: Seq<char>) -> Seq<char> {
    trim(without_makers(q, 14))
}

/// Whether lookup strategy `k` (1 to 6) is tried for the normalized query `q`.
pub open spec fn strategy_enabled(k: int, q: Seq<char>) -> bool {
    if k == 3 {
        query_cleaned(q) != q && query_cleaned(q).len() > 0
    } else if k == 5 {
        strip_white_space(q) != q
    } else if k == 6 {
        query_keywords(q).len() >= 2
    } else {
        true
    }
}

/// Whether the lower-cased stock name `sn` answers the normalized query `q`
/// under strategy `k`: 1 equal; 2 equal, or one containing the other, with
/// spaces read as underscores; 3 containing the query without manufacturer
/// prefixes; 4 containing the query; 5 equal up to white space one way or
/// the other by containment; 6 containing every keyword.
pub open spec fn stock_strategy(k: int, sn: Seq<char>, q: Seq<char>) -> bool {
    if k == 1 {
        sn == q
    } else if k == 2 {
        let su = replace_char(sn, ' ', '_');
        let qu = replace_char(q, ' ', '_');
        su == qu || contains(su, qu) || contains(qu, su)
    } else if k == 3 {
        contains(sn, query_cleaned(q))
    } else if k == 4 {
        contains(sn, q)
    } else if k == 5 {
        let sns = strip_white_space(sn);
        let qn = strip_white_space(q);
        contains(sns, qn) || contains(qn, sns)
    } else {
        let kws = query_keywords(q);
        forall|j: int| 0 <= j < kws.len() ==> contains(sn, #[trigger] kws[j])
    }
}

/// The answer of strategies `k` and later: the first stock that the first
/// enabled strategy with any match picks.
pub open spec fn stock_match_from(names: Seq<Seq<char>>, q: Seq<char>, k: int) -> Option<int>
    decreases 7 - k,
{
    if k < 1 || k > 6 {
        None
    } else {
        let r = if strategy_enabled(k, q) {
            first_where(names, |sn: Seq<char>| stock_strategy(k, sn, q))
        } else {
            None
        };
        if r is Some {
            r
        } else {
            stock_match_from(names, q, k + 1)
        }
    }
}

/// The stock that a query names, among stocks with the given lower-cased
/// names: the query is lower-cased and trimmed, then the strategies are
/// tried in order.
pub open spec fn stock_match(lower_names: Seq<Seq<char>>, query: Seq<char>) -> Option<int> {
    stock_match_from(lower_names, trim(lowercase_of(query)), 1)
}

proof fn lemma_match_from_characterized(names: Seq<Seq<char>>, q: Seq<char>, k0: int)
    requires
        1 <= k0 <= 7,
    ensures
        stock_match_from(names, q, k0) matches Some(j) ==> 0 <= j < names.len() && exists|k: int|
            k0 <= k <= 6 && strategy_enabled(k, q) && #[trigger] stock_strategy(k, names[j], q),
        stock_match_from(names, q, k0) is None <==> forall|k: int, i: int|
            k0 <= k <= 6 && 0 <= i < names.len() && strategy_enabled(k, q) ==> !#[trigger] stock_strategy(k, names[i], q),
    decreases 7 - k0,
{
    if k0 <= 6 {
        let p = |sn: Seq<char>| stock_strategy(k0, sn, q);
        crate::text::lemma_first_where_bounds(names, p);
        lemma_match_from_characterized(names, q, k0 + 1);
        if strategy_enabled(k0, q) && first_where(names, p) is Some {
            let j = first_where(names, p)->0;
            assert(stock_strategy(k0, names[j], q));
            if stock_match_from(names, q, k0) is None {
                assert(false);
            }
        } else if strategy_enabled(k0, q) {
            assert forall|i: int| 0 <= i < names.len() implies !#[trigger] stock_strategy(k0, names[i], q) by {
                assert(!p(names[i]));
            }
        }
        if stock_match_from(names, q, k0) is None {
            assert forall|k: int, i: int|
                k0 <= k <= 6 && 0 <= i < names.len() && strategy_enabled(k, q) implies !#[trigger] stock_strategy(k, names[i], q) by {
                if k == k0 {
                    assert(!p(names[i]));
                }
            }
        }
        if stock_match_from(names, q, k0) is Some {
            let j = stock_match_from(names, q, k0)->0;
            if strategy_enabled(k0, q) && first_where(names, p) is Some {
                assert(p(names[j]));
            }
        }
    }
}

/// The stock that a query finds answers it by one of the strategies the
/// normalized query enables; and nothing is found exactly when no enabled
/// strategy matches any stock.
pub proof fn lemma_stock_match_characterized(lower_names: Seq<Seq<char>>, query: Seq<char>)
    ensures
        stock_match(lower_names, query) matches Some(j) ==> 0 <= j < lower_names.len() && exists|k: int|
            1 <= k <= 6 && strategy_enabled(k, trim(lowercase_of(query)))
                && #[trigger] stock_strategy(k, lower_names[j], trim(lowercase_of(query))),
        stock_match(lower_names, query) is None <==> forall|k: int, i: int|
            1 <= k <= 6 && 0 <= i < lower_names.len() && strategy_enabled(k, trim(lowercase_of(query)))
                ==> !#[trigger] stock_strategy(k, lower_names[i], trim(lowercase_of(query))),
{
    lemma_match_from_characterized(lower_names, trim(lowercase_of(query)), 1);
}

/// A query that is a stock's own name (up to case and surrounding white
/// space) finds the first stock of that name.
pub proof fn lemma_exact_name_found(lower_names: Seq<Seq<char>>, query: Seq<char>, i: int)
    requires
        0 <= i < lower_names.len(),
        lower_names[i] == trim(lowercase_of(query)),
        forall|j: int| 0 <= j < i ==> #[trigger] lower_names[j] != trim(lowercase_of(query)),
    ensures
        stock_match(lower_names, query) == Some(i),
{
    let q = trim(lowercase_of(query));
    let p = |sn: Seq<char>| stock_strategy(1, sn, q);
    assert forall|j: int| 0 <= j < i implies !p(#[trigger] lower_names[j]) by {}
    lemma_first_where_found(lower_names, p, i);
}

/// A query contained in some stock's name (a keyword such as "portra")
/// always finds a stock.
pub proof fn lemma_keyword_found(lower_names: Seq<Seq<char>>, query: Seq<char>, i: int)
    requires
        0 <= i < lower_names.len(),
        contains(lower_names[i], trim(lowercase_of(query))),
    ensures
        stock_match(lower_names, query) is Some,
{
    lemma_stock_match_characterized(lower_names, query);
    assert(stock_strategy(4, lower_names[i], trim(lowercase_of(query))));
}

/// A query that holds a stock's name with spaces written as underscores
/// (an identifier such as "kodak_portra_400") always finds a stock.
pub proof fn lemma_identifier_found(lower_names: Seq<Seq<char>>, query: Seq<char>, i: int)
    requires
        0 <= i < lower_names.len(),
        contains(
            replace_char(trim(lowercase_of(query)), ' ', '_'),
            replace_char(lower_names[i], ' ', '_'),
        ),
    ensures
        stock_match(lower_names, query) is Some,
{
    lemma_stock_match_characterized(lower_names, query);
    assert(stock_strategy(2, lower_names[i], trim(lowercase_of(query))));
}

/// A query carrying a manufacturer prefix ("Kodak Portra") finds a stock
/// whose lower-cased name contains the query with every manufacturer prefix
/// removed and trimmed ("portra"), whenever that removal changes the query
/// and leaves something.
pub proof fn lemma_prefixed_query_found(lower_names: Seq<Seq<char>>, query: Seq<char>, i: int)
    requires
        0 <= i < lower_names.len(),
        trim(without_makers(trim(lowercase_of(query)), 14)) != trim(lowercase_of(query)),
        trim(without_makers(trim(lowercase_of(query)), 14)).len() > 0,
        contains(lower_names[i], trim(without_makers(trim(lowercase_of(query)), 14))),
    ensures
        stock_match(lower_names, query) is Some,
{
    lemma_stock_match_characterized(lower_names, query);
    assert(strategy_enabled(3, trim(lowercase_of(query))));
    assert(stock_strategy(3, lower_names[i], trim(lowercase_of(query))));
}

/// A query that, with white space removed, is contained in a stock's name
/// without white space (or contains it) finds a stock, when the query held
/// white space at all.
pub proof fn lemma_spaced_query_found(lower_names: Seq<Seq<char>>, query: Seq<char>, i: int)
    requires
        0 <= i < lower_names.len(),
        strip_white_space(trim(lowercase_of(query))) != trim(lowercase_of(query)),
        contains(strip_white_space(lower_names[i]), strip_white_space(trim(lowercase_of(query))))
            || contains(strip_white_space(trim(lowercase_of(query))), strip_white_space(lower_names[i])),
    ensures
        stock_match(lower_names, query) is Some,
{
    lemma_stock_match_characterized(lower_names, query);
    assert(strategy_enabled(5, trim(lowercase_of(query))));
    assert(stock_strategy(5, lower_names[i], trim(lowercase_of(query))));
}

/// A query of at least two keywords finds a stock whose name holds every one of them.
pub proof fn lemma_keywords_query_found(lower_names: Seq<Seq<char>>, query: Seq<char>, i: int)
    requires
        0 <= i < lower_names.len(),
        query_keywords(trim(lowercase_of(query))).len() >= 2,
        forall|j: int|
            0 <= j < query_keywords(trim(lowercase_of(query))).len() ==> contains(
                lower_names[i],
                #[trigger] query_keywords(trim(lowercase_of(query)))[j],
            ),
    ensures
        stock_match(lower_names, query) is Some,
{
    lemma_stock_match_characterized(lower_names, query);
    assert(strategy_enabled(6, trim(lowercase_of(query))));
    assert(stock_strategy(6, lower_names[i], trim(lowercase_of(query))));
}

/// The stock a query finds is related to the query (lower-cased, trimmed:
/// `q`) in one of these ways: its name equals `q`; with spaces read as
/// underscores, the two are equal or one contains the other; it contains
/// `q` without manufacturer prefixes (when that removal changes `q` and
/// leaves something); it contains `q`; without white space one contains the
/// other (when `q` holds white space); or it holds every one of at least two
/// keywords of `q`.
pub proof fn lemma_found_stock_answers_query(lower_names: Seq<Seq<char>>, query: Seq<char>)
    ensures
        stock_match(lower_names, query) matches Some(j) ==> {
            let q = trim(lowercase_of(query));
            let sn = lower_names[j];
            let c = trim(without_makers(q, 14));
            let su = replace_char(sn, ' ', '_');
            let qu = replace_char(q, ' ', '_');
            let kws = query_keywords(q);
            &&& 0 <= j < lower_names.len()
            &&& {
                ||| sn == q
                ||| su == qu || contains(su, qu) || contains(qu, su)
                ||| c != q && c.len() > 0 && contains(sn, c)
                ||| contains(sn, q)
                ||| strip_white_space(q) != q && (contains(strip_white_space(sn), strip_white_space(q))
                    || contains(strip_white_space(q), strip_white_space(sn)))
                ||| kws.len() >= 2 && forall|t: int| 0 <= t < kws.len() ==> contains(sn, #[trigger] kws[t])
            }
        },
{
    lemma_stock_match_characterized(lower_names, query);
    if stock_match(lower_names, query) is Some {
        let j = stock_match(lower_names, query)->0;
        let q = trim(lowercase_of(query));
        let k = choose|k: int|
            1 <= k <= 6 && strategy_enabled(k, q) && #[trigger] stock_strategy(k, lower_names[j], q);
        assert(1 <= k <= 6 && strategy_enabled(k, q) && stock_strategy(k, lower_names[j], q));
    }
}

// ------------------------------------------------------------------
// Laws of the style-key lookup
// ------------------------------------------------------------------

/// The stock a style key names is the first whose lower-cased name, against
/// the key's search text `s` (underscores as spaces, lower-cased): equals
/// `s`, contains it, or is contained in it; without white space, contains
/// or is contained in the joined key words; or contains every key word. A
/// name that lacks some key word and meets none of the other tests is
/// never chosen, and no stock is named only when every name fails them all.
pub proof fn lemma_key_choice_answers_key(lower_names: Seq<Seq<char>>, key: Seq<char>)
    ensures
        stock_by_key(lower_names, key) matches Some(j) ==> {
            let s = key_search(key);
            let words = key_words(s);
            let joined = strip_white_space(words.flatten());
            let sn = lower_names[j];
            &&& 0 <= j < lower_names.len()
            &&& {
                ||| sn == s
                ||| contains(sn, s)
                ||| contains(s, sn)
                ||| contains(strip_white_space(sn), joined)
                ||| contains(joined, strip_white_space(sn))
                ||| forall|t: int| 0 <= t < words.len() ==> contains(sn, #[trigger] words[t])
            }
        },
        stock_by_key(lower_names, key) matches Some(j) ==> forall|i: int| 0 <= i < j ==> {
            let s = key_search(key);
            let words = key_words(s);
            let joined = strip_white_space(words.flatten());
            let sn = #[trigger] lower_names[i];
            &&& sn != s
            &&& !contains(sn, s)
            &&& !contains(s, sn)
            &&& !contains(strip_white_space(sn), joined)
            &&& !contains(joined, strip_white_space(sn))
            &&& exists|t: int| 0 <= t < words.len() && !contains(sn, #[trigger] words[t])
        },
        stock_by_key(lower_names, key) is None ==> forall|i: int| 0 <= i < lower_names.len() ==> {
            let s = key_search(key);
            let words = key_words(s);
            let joined = strip_white_space(words.flatten());
            let sn = #[trigger] lower_names[i];
            &&& sn != s
            &&& !contains(sn, s)
            &&& !contains(s, sn)
            &&& !contains(strip_white_space(sn), joined)
            &&& !contains(joined, strip_white_space(sn))
            &&& exists|t: int| 0 <= t < words.len() && !contains(sn, #[trigger] words[t])
        },
{
    let p = |sn: Seq<char>| key_answers(sn, key_search(key));
    crate::text::lemma_first_where_bounds(lower_names, p);
    if stock_by_key(lower_names, key) is Some {
        let j = stock_by_key(lower_names, key)->0;
        assert(p(lower_names[j]));
        assert forall|i: int| 0 <= i < j implies {
            let s = key_search(key);
            let words = key_words(s);
            let joined = strip_white_space(words.flatten());
            let sn = #[trigger] lower_names[i];
            &&& sn != s
            &&& !contains(sn, s)
            &&& !contains(s, sn)
            &&& !contains(strip_white_space(sn), joined)
            &&& !contains(joined, strip_white_space(sn))
            &&& exists|t: int| 0 <= t < words.len() && !contains(sn, #[trigger] words[t])
        } by {
            assert(!p(lower_names[i]));
        }
    } else {
        assert forall|i: int| 0 <= i < lower_names.len() implies {
            let s = key_search(key);
            let words = key_words(s);
            let joined = strip_white_space(words.flatten());
            let sn = #[trigger] lower_names[i];
            &&& sn != s
            &&& !contains(sn, s)
            &&& !contains(s, sn)
            &&& !contains(strip_white_space(sn), joined)
            &&& !contains(joined, strip_white_space(sn))
            &&& exists|t: int| 0 <= t < words.len() && !contains(sn, #[trigger] words[t])
        } by {
            assert(!p(lower_names[i]));
        }
    }
}

/// Every name that meets one of the key tests makes the lookup name a stock.
pub proof fn lemma_key_match_found(lower_names: Seq<Seq<char>>, key: Seq<char>, i: int)
    requires
        0 <= i < lower_names.len(),
        ({
            let s = key_search(key);
            let words = key_words(s);
            let joined = strip_white_space(words.flatten());
            let sn = lower_names[i];
            ||| contains(sn, s)
            ||| contains(s, sn)
            ||| contains(strip_white_space(sn), joined)
            ||| contains(joined, strip_white_space(sn))
            ||| forall|t: int| 0 <= t < words.len() ==> contains(sn, #[trigger] words[t])
        }),
    ensures
        stock_by_key(lower_names, key) is Some,
{
    let p = |sn: Seq<char>| key_answers(sn, key_search(key));
    crate::text::lemma_first_where_bounds(lower_names, p);
    assert(p(lower_names[i]));
}

/// The key words of a search text are exactly its space-separated pieces
/// that are longer than one byte and are none of the manufacturer words of
/// `KEY_MAKERS`: every key word is such a piece, and every such piece is a
/// key word.
pub proof fn lemma_key_words_are_pieces(s: Seq<char>)
    ensures
        forall|t: int| 0 <= t < key_words(s).len() ==> {
            let w = #[trigger] key_words(s)[t];
            &&& split_by(s, split_sep(false)).contains(w)
            &&& utf8_len(w) > 1
            &&& forall|j: int| 0 <= j < KEY_MAKERS@.len() ==> (#[trigger] KEY_MAKERS@[j])@ != w
        },
        forall|u: int| 0 <= u < split_by(s, split_sep(false)).len() ==> {
            let w = #[trigger] split_by(s, split_sep(false))[u];
            (utf8_len(w) > 1 && forall|j: int| 0 <= j < KEY_MAKERS@.len() ==> (#[trigger] KEY_MAKERS@[j])@ != w)
                ==> key_words(s).contains(w)
        },
{
    let pieces = split_by(s, split_sep(false));
    let pred = |w: Seq<char>| utf8_len(w) > 1 && !is_key_maker(w);
    assert forall|t: int| 0 <= t < key_words(s).len() implies {
        let w = #[trigger] key_words(s)[t];
        &&& pieces.contains(w)
        &&& utf8_len(w) > 1
        &&& forall|j: int| 0 <= j < KEY_MAKERS@.len() ==> (#[trigger] KEY_MAKERS@[j])@ != w
    } by {
        pieces.lemma_filter_pred(pred, t);
        let w = key_words(s)[t];
        assert(pieces.filter(pred).contains(w));
        pieces.lemma_filter_contains_rev(pred, w);
        assert forall|j: int| 0 <= j < KEY_MAKERS@.len() implies (#[trigger] KEY_MAKERS@[j])@ != w by {
            if KEY_MAKERS@[j]@ == w {
                assert(is_key_maker(w));
            }
        }
    }
    assert forall|u: int| 0 <= u < pieces.len() implies {
        let w = #[trigger] pieces[u];
        (utf8_len(w) > 1 && forall|j: int| 0 <= j < KEY_MAKERS@.len() ==> (#[trigger] KEY_MAKERS@[j])@ != w)
            ==> key_words(s).contains(w)
    } by {
        let w = pieces[u];
        if utf8_len(w) > 1 && forall|j: int| 0 <= j < KEY_MAKERS@.len() ==> (#[trigger] KEY_MAKERS@[j])@ != w {
            assert(!is_key_maker(w));
            pieces.lemma_filter_contains(pred, u);
        }
    }
}

/// The keywords of a query are exactly its pieces between spaces and
/// underscores that are longer than one byte and are no manufacturer word
/// (a prefix of `STOCK_MAKERS` without its trailing space).
pub proof fn lemma_query_keywords_are_pieces(q: Seq<char>)
    ensures
        forall|t: int| 0 <= t < query_keywords(q).len() ==> {
            let w = #[trigger] query_keywords(q)[t];
            &&& split_by(q, split_sep(true)).contains(w)
            &&& utf8_len(w) > 1
            &&& forall|j: int| 0 <= j < STOCK_MAKERS@.len() ==> trim((#[trigger] STOCK_MAKERS@[j])@) != w
        },
        forall|u: int| 0 <= u < split_by(q, split_sep(true)).len() ==> {
            let w = #[trigger] split_by(q, split_sep(true))[u];
            (utf8_len(w) > 1 && forall|j: int| 0 <= j < STOCK_MAKERS@.len() ==> trim((#[trigger] STOCK_MAKERS@[j])@) != w)
                ==> query_keywords(q).contains(w)
        },
{
    let pieces = split_by(q, split_sep(true));
    let pred = |w: Seq<char>| query_keyword(w);
    assert forall|t: int| 0 <= t < query_keywords(q).len() implies {
        let w = #[trigger] query_keywords(q)[t];
        &&& pieces.contains(w)
        &&& utf8_len(w) > 1
        &&& forall|j: int| 0 <= j < STOCK_MAKERS@.len() ==> trim((#[trigger] STOCK_MAKERS@[j])@) != w
    } by {
        pieces.lemma_filter_pred(pred, t);
        let w = query_keywords(q)[t];
        assert(pieces.filter(pred).contains(w));
        pieces.lemma_filter_contains_rev(pred, w);
        assert forall|j: int| 0 <= j < STOCK_MAKERS@.len() implies trim((#[trigger] STOCK_MAKERS@[j])@) != w by {
            if trim(STOCK_MAKERS@[j]@) == w {
                assert(is_maker_word(w));
            }
        }
    }
    assert forall|u: int| 0 <= u < pieces.len() implies {
        let w = #[trigger] pieces[u];
        (utf8_len(w) > 1 && forall|j: int| 0 <= j < STOCK_MAKERS@.len() ==> trim((#[trigger] STOCK_MAKERS@[j])@) != w)
            ==> query_keywords(q).contains(w)
    } by {
        let w = pieces[u];
        if utf8_len(w) > 1 && forall|j: int| 0 <= j < STOCK_MAKERS@.len() ==> trim((#[trigger] STOCK_MAKERS@[j])@) != w {
            assert(!is_maker_word(w));
            pieces.lemma_filter_contains(pred, u);
        }
    }
}

/// The manufacturer prefixes a query may carry, in the order they are
/// removed, and the manufacturer words of style keys.
pub proof fn lemma_maker_tables()
    ensures
        STOCK_MAKERS@ == seq![
            "kodak ", "fujifilm ", "fuji ", "ilford ", "polaroid ", "agfa ", "lomography ", "cinestill ",
            "ferrania ", "orwo ", "ricoh ", "lucky ", "standard ", "vintage ",
        ],
        KEY_MAKERS@ == seq![
            "kodak", "fujifilm", "fuji", "ilford", "polaroid", "agfa", "lomo", "lomography", "cinestill",
            "ferrania", "orwo", "ricoh", "lucky", "standard", "vintage",
        ],
{
    assert(STOCK_MAKERS@ =~= seq![
        "kodak ", "fujifilm ", "fuji ", "ilford ", "polaroid ", "agfa ", "lomography ", "cinestill ",
        "ferrania ", "orwo ", "ricoh ", "lucky ", "standard ", "vintage ",
    ]);
    assert(KEY_MAKERS@ =~= seq![
        "kodak", "fujifilm", "fuji", "ilford", "polaroid", "agfa", "lomo", "lomography", "cinestill",
        "ferrania", "orwo", "ricoh", "lucky", "standard", "vintage",
    ]);
}

struct QueryForms {
    q: Vec<char>,
    under: Vec<char>,
    cleaned: Vec<char>,
    nospace: Vec<char>,
    keywords: Vec<Vec<char>>,
}

impl QueryForms {
    spec fn wf(&self) -> bool {
        &&& self.under@ == replace_char(self.q@, ' ', '_')
        &&& self.cleaned@ == query_cleaned(self.q@)
        &&& self.nospace@ == strip_white_space(self.q@)
        &&& views(self.keywords@) == query_keywords(self.q@)
    }
}

fn maker_word_exec(w: &Vec<char>) -> (b: bool)
    ensures
        b == is_maker_word(w@),
{
    let n = STOCK_MAKERS.len();
    for j in 0..n
        invariant
            n == STOCK_MAKERS@.len(),
            forall|k: int| 0 <= k < j ==> trim((#[trigger] STOCK_MAKERS@[k])@) != w@,
    {
        let m = trim_exec(&chars_of(STOCK_MAKERS[j]), false);
        if chars_eq(&m, w) {
            return true;
        }
    }
    false
}

fn query_keywords_exec(q: &Vec<char>) -> (r: Vec<Vec<char>>)
    ensures
        views(r@) == query_keywords(q@),
{
    let words = split_exec(q, true);
    let ghost pred = |w: Seq<char>| query_keyword(w);
    let ghost ws = views(words@);
    let mut r: Vec<Vec<char>> = Vec::new();
    let n = words.len();
    for i in 0..n
        invariant
            n == words.len(),
            ws == views(words@),
            ws == split_by(q@, split_sep(true)),
            pred == (|w: Seq<char>| query_keyword(w)),
            views(r@) == ws.take(i as int).filter(pred),
    {
        proof {
            reveal_with_fuel(Seq::<_>::filter, 1);
            assert(ws.take(i + 1).drop_last() =~= ws.take(i as int));
        }
        let ghost before = views(r@);
        if utf8_len_exec(&words[i]) > 1 && !maker_word_exec(&words[i]) {
            let w = words[i].clone();
            r.push(w);
            assert(views(r@) =~= before.push(ws[i as int]));
        } else {
            assert(views(r@) =~= before);
        }
    }
    assert(ws.take(n as int) =~= ws);
    r
}

fn without_makers_exec(s: &Vec<char>) -> (r: Vec<char>)
    ensures
        r@ == without_makers(s@, 14),
{
    let mut cur = s.clone();
    let n = STOCK_MAKERS.len();
    let empty: Vec<char> = Vec::new();
    for k in 0..n
        invariant
            n == 14,
            n == STOCK_MAKERS@.len(),
            empty@ == Seq::<char>::empty(),
            cur@ == without_makers(s@, k as nat),
    {
        let m = chars_of(STOCK_MAKERS[k]);
        cur = replace_all_exec(&cur, &m, &empty);
    }
    cur
}

fn query_forms(query: &str) -> (f: QueryForms)
    ensures
        f.wf(),
        f.q@ == trim(lowercase_of(query@)),
{
    let q = trim_exec(&lower_chars(query), false);
    let under = replace_char_exec(&q, ' ', '_');
    let cleaned = trim_exec(&without_makers_exec(&q), false);
    let nospace = strip_white_space_exec(&q);
    let keywords = query_keywords_exec(&q);
    QueryForms { q, under, cleaned, nospace, keywords }
}

fn all_contained(sn: &Vec<char>, kws: &Vec<Vec<char>>) -> (b: bool)
    ensures
        b == forall|j: int| 0 <= j < kws@.len() ==> contains(sn@, #[trigger] views(kws@)[j]),
{
    let n = kws.len();
    for j in 0..n
        invariant
            n == kws.len(),
            forall|k: int| 0 <= k < j ==> contains(sn@, #[trigger] views(kws@)[k]),
    {
        if !contains_chars(sn, &kws[j]) {
            assert(!contains(sn@, views(kws@)[j as int]));
            return false;
        }
    }
    true
}

fn strategy_exec(k: u8, sn: &Vec<char>, f: &QueryForms) -> (b: bool)
    requires
        f.wf(),
        1 <= k <= 6,
    ensures
        b == stock_strategy(k as int, sn@, f.q@),
{
    if k == 1 {
        chars_eq(sn, &f.q)
    } else if k == 2 {
        let su = replace_char_exec(sn, ' ', '_');
        chars_eq(&su, &f.under) || contains_chars(&su, &f.under) || contains_chars(&f.under, &su)
    } else if k == 3 {
        contains_chars(sn, &f.cleaned)
    } else if k == 4 {
        contains_chars(sn, &f.q)
    } else if k == 5 {
        let sns = strip_white_space_exec(sn);
        contains_chars(&sns, &f.nospace) || contains_chars(&f.nospace, &sns)
    } else {
        all_contained(sn, &f.keywords)
    }
}

fn strategy_enabled_exec(k: u8, f: &QueryForms) -> (b: bool)
    requires
        f.wf(),
        1 <= k <= 6,
    ensures
        b == strategy_enabled(k as int, f.q@),
{
    if k == 3 {
        !chars_eq(&f.cleaned, &f.q) && f.cleaned.len() > 0
    } else if k == 5 {
        !chars_eq(&f.nospace, &f.q)
    } else if k == 6 {
        f.keywords.len() >= 2
    } else {
        true
    }
}

fn first_by_strategy(names: &Vec<Vec<char>>, k: u8, f: &QueryForms) -> (r: Option<usize>)
    requires
        f.wf(),
        1 <= k <= 6,
    ensures
        opt_index(r) == first_where(views(names@), |sn: Seq<char>| stock_strategy(k as int, sn, f.q@)),
{
    let ghost p = |sn: Seq<char>| stock_strategy(k as int, sn, f.q@);
    let n = names.len();
    for i in 0..n
        invariant
            n == names.len(),
            f.wf(),
            1 <= k <= 6,
            p == (|sn: Seq<char>| stock_strategy(k as int, sn, f.q@)),
            forall|j: int| 0 <= j < i ==> !p(#[trigger] views(names@)[j]),
    {
        if strategy_exec(k, &names[i], f) {
            proof {
                lemma_first_where_found(views(names@), p, i as int);
            }
            return Some(i);
        }
    }
    proof {
        lemma_first_where_none(views(names@), p);
    }
    None
}

/// Finds the stock that `query` names among stocks called `names`; its index.
pub fn find_filmr_stock(names: &Vec<String>, query: &str) -> (r: Option<usize>)
    ensures
        opt_index(r) == stock_match(lower_all(string_views(names@)), query@),
        r matches Some(i) ==> i < names@.len(),
{
    let lowered = lower_all_exec(names);
    let f = query_forms(query);
    let mut k: u8 = 1;
    while k <= 6
        invariant
            1 <= k <= 7,
            f.wf(),
            f.q@ == trim(lowercase_of(query@)),
            views(lowered@) == lower_all(string_views(names@)),
            lowered@.len() == names@.len(),
            stock_match_from(views(lowered@), f.q@, 1) == stock_match_from(views(lowered@), f.q@, k as int),
        decreases 7 - k,
    {
        if strategy_enabled_exec(k, &f) {
            let r = first_by_strategy(&lowered, k, &f);
            if r.is_some() {
                proof {
                    crate::text::lemma_first_where_bounds(
                        views(lowered@),
                        |sn: Seq<char>| stock_strategy(k as int, sn, f.q@),
                    );
                }
                return r;
            }
        }
        k = k + 1;
    }
    None
}

// ------------------------------------------------------------------
// Stocks by style key
// ------------------------------------------------------------------

/// Manufacturer words that a style key may contain.
pub const KEY_MAKERS: [&'static str; 15] = [
    "kodak",
    "fujifilm",
    "fuji",
    "ilford",
    "polaroid",
    "agfa",
    "lomo",
    "lomography",
    "cinestill",
    "ferrania",
    "orwo",
    "ricoh",
    "lucky",
    "standard",
    "vintage",
];

/// `w` is one of the manufacturer words of style keys.
pub open spec fn is_key_maker(w: Seq<char>) -> bool {
    exists|j: int| 0 <= j < KEY_MAKERS@.len() && (#[trigger] KEY_MAKERS@[j])@ == w
}

/// The search text of a style key: underscores as spaces, lower-cased.
pub open spec fn key_search(key: Seq<char>) -> Seq<char> {
    lowercase_of(replace_char(key, '_', ' '))
}

/// The words of the search text that are longer than one byte and no
/// manufacturer word.
pub open spec fn key_words(search: Seq<char>) -> Seq<Seq<char>> {
    split_by(search, split_sep(false)).filter(|w: Seq<char>| utf8_len(w) > 1 && !is_key_maker(w))
}

/// Whether the lower-cased stock name `sn` answers the search text `s`:
/// equal, or one containing the other; or, without white space, one of the
/// name and the joined key words containing the other; or every key word
/// occurring in the name.
pub open spec fn key_answers(sn: Seq<char>, s: Seq<char>) -> bool {
    let words = key_words(s);
    let joined = strip_white_space(words.flatten());
    let sns = strip_white_space(sn);
    ||| sn == s
    ||| contains(sn, s)
    ||| contains(s, sn)
    ||| contains(sns, joined)
    ||| contains(joined, sns)
    ||| forall|j: int| 0 <= j < words.len() ==> contains(sn, #[trigger] words[j])
}

/// The stock that a style key names: the first whose lower-cased name answers it.
pub open spec fn stock_by_key(lower_names: Seq<Seq<char>>, key: Seq<char>) -> Option<int> {
    first_where(lower_names, |sn: Seq<char>| key_answers(sn, key_search(key)))
}

fn key_maker_exec(w: &Vec<char>) -> (b: bool)
    ensures
        b == is_key_maker(w@),
{
    let n = KEY_MAKERS.len();
    for j in 0..n
        invariant
            n == KEY_MAKERS@.len(),
            forall|k: int| 0 <= k < j ==> (#[trigger] KEY_MAKERS@[k])@ != w@,
    {
        let m = chars_of(KEY_MAKERS[j]);
        if chars_eq(&m, w) {
            return true;
        }
    }
    false
}

fn key_words_exec(s: &Vec<char>) -> (r: Vec<Vec<char>>)
    ensures
        views(r@) == key_words(s@),
{
    let words = split_exec(s, false);
    let ghost pred = |w: Seq<char>| utf8_len(w) > 1 && !is_key_maker(w);
    let ghost ws = views(words@);
    let mut r: Vec<Vec<char>> = Vec::new();
    let n = words.len();
    for i in 0..n
        invariant
            n == words.len(),
            ws == views(words@),
            ws == split_by(s@, split_sep(false)),
            pred == (|w: Seq<char>| utf8_len(w) > 1 && !is_key_maker(w)),
            views(r@) == ws.take(i as int).filter(pred),
    {
        proof {
            reveal_with_fuel(Seq::<_>::filter, 1);
            assert(ws.take(i + 1).drop_last() =~= ws.take(i as int));
        }
        let ghost before = views(r@);
        if utf8_len_exec(&words[i]) > 1 && !key_maker_exec(&words[i]) {
            let w = words[i].clone();
            r.push(w);
            assert(views(r@) =~= before.push(ws[i as int]));
        } else {
            assert(views(r@) =~= before);
        }
    }
    assert(ws.take(n as int) =~= ws);
    r
}

fn joined_exec(words: &Vec<Vec<char>>) -> (r: Vec<char>)
    ensures
        r@ == views(words@).flatten(),
{
    let mut r: Vec<char> = Vec::new();
    let n = words.len();
    for i in 0..n
        invariant
            n == words.len(),
            r@ == views(words@).take(i as int).flatten(),
    {
        let ghost before = r@;
        let w = &words[i];
        let m = w.len();
        for k in 0..m
            invariant
                m == w.len(),
                r@ =~= before + w@.take(k as int),
        {
            r.push(w[k]);
        }
        proof {
            assert(w@.take(m as int) =~= w@);
            assert(views(words@).take(i + 1) =~= views(words@).take(i as int).push(w@));
            views(words@).take(i as int).lemma_flatten_push(w@);
        }
    }
    assert(views(words@).take(n as int) =~= views(words@));
    r
}

/// Finds the stock that a style key names among stocks called `names`; its index.
pub fn find_stock_by_key(names: &Vec<String>, key: &str) -> (r: Option<usize>)
    ensures
        opt_index(r) == stock_by_key(lower_all(string_views(names@)), key@),
        r matches Some(i) ==> i < names@.len(),
{
    let lowered = lower_all_exec(names);
    let replaced = crate::text::string_of(&replace_char_exec(&chars_of(key), '_', ' '));
    let search = lower_chars(replaced.as_str());
    let words = key_words_exec(&search);
    let joined = strip_white_space_exec(&joined_exec(&words));
    let ghost p = |sn: Seq<char>| key_answers(sn, key_search(key@));
    let n = lowered.len();
    for i in 0..n
        invariant
            n == lowered.len(),
            n == names@.len(),
            views(lowered@) == lower_all(string_views(names@)),
            search@ == key_search(key@),
            views(words@) == key_words(search@),
            joined@ == strip_white_space(views(words@).flatten()),
            p == (|sn: Seq<char>| key_answers(sn, key_search(key@))),
            forall|j: int| 0 <= j < i ==> !p(#[trigger] views(lowered@)[j]),
    {
        let sn = &lowered[i];
        let sns = strip_white_space_exec(sn);
        if chars_eq(sn, &search) || contains_chars(sn, &search) || contains_chars(&search, sn)
            || contains_chars(&sns, &joined) || contains_chars(&joined, &sns) || all_contained(
            sn,
            &words,
        ) {
            proof {
                lemma_first_where_found(views(lowered@), p, i as int);
            }
            return Some(i);
        }
    }
    proof {
        lemma_first_where_none(views(lowered@), p);
    }
    None
}

// ------------------------------------------------------------------
// Presets by query
// ------------------------------------------------------------------

/// The textual identity of a preset: its identifier, name and manufacturer.
pub struct PresetKey {
    pub id: String,
    pub name: String,
    pub manufacturer: String,
}

/// The preset that a query names: the first whose identifier equals the
/// lower-cased query, else the first whose lower-cased name equals it, else
/// the first whose lower-cased name or manufacturer contains it.
pub open spec fn preset_match(presets: Seq<PresetKey>, query: Seq<char>) -> Option<int> {
    let q = lowercase_of(query);
    let by_id = first_where(presets, preset_rule_spec(0, q));
    let by_name = first_where(presets, preset_rule_spec(1, q));
    let by_part = first_where(presets, preset_rule_spec(2, q));
    if by_id is Some {
        by_id
    } else if by_name is Some {
        by_name
    } else {
        by_part
    }
}

/// Preset rule `rule` for the lower-cased query `q`: 0 identifier equal,
/// 1 lower-cased name equal, 2 lower-cased name or manufacturer containing it.
pub open spec fn preset_rule_spec(rule: int, q: Seq<char>) -> spec_fn(PresetKey) -> bool {
    |p: PresetKey|
        if rule == 0 {
            p.id@ == q
        } else if rule == 1 {
            lowercase_of(p.name@) == q
        } else {
            contains(lowercase_of(p.name@), q) || contains(lowercase_of(p.manufacturer@), q)
        }
}

/// A query equal to a preset's identifier (after lower-casing) finds the
/// first preset with that identifier, whatever the names say.
pub proof fn lemma_preset_id_wins(presets: Seq<PresetKey>, query: Seq<char>, i: int)
    requires
        0 <= i < presets.len(),
        presets[i].id@ == lowercase_of(query),
        forall|j: int| 0 <= j < i ==> (#[trigger] presets[j]).id@ != lowercase_of(query),
    ensures
        preset_match(presets, query) == Some(i),
{
    let p = preset_rule_spec(0, lowercase_of(query));
    assert forall|j: int| 0 <= j < i implies !p(#[trigger] presets[j]) by {}
    lemma_first_where_found(presets, p, i);
}

/// A preset query finds nothing exactly when no identifier equals the
/// lower-cased query and no lower-cased name or manufacturer contains it;
/// what it finds satisfies one of the three rules.
pub proof fn lemma_preset_match_characterized(presets: Seq<PresetKey>, query: Seq<char>)
    ensures
        preset_match(presets, query) matches Some(j) ==> 0 <= j < presets.len() && exists|k: int|
            0 <= k <= 2 && #[trigger] preset_rule_spec(k, lowercase_of(query))(presets[j]),
        preset_match(presets, query) is None <==> forall|i: int|
            0 <= i < presets.len() ==> {
                let pk = #[trigger] presets[i];
                let q = lowercase_of(query);
                &&& pk.id@ != q
                &&& !contains(lowercase_of(pk.name@), q)
                &&& !contains(lowercase_of(pk.manufacturer@), q)
            },
{
    let q = lowercase_of(query);
    let p0 = preset_rule_spec(0, q);
    let p1 = preset_rule_spec(1, q);
    let p2 = preset_rule_spec(2, q);
    crate::text::lemma_first_where_bounds(presets, p0);
    crate::text::lemma_first_where_bounds(presets, p1);
    crate::text::lemma_first_where_bounds(presets, p2);
    if preset_match(presets, query) is Some {
        let j = preset_match(presets, query)->0;
        if first_where(presets, p0) is Some {
            assert(p0(presets[j]));
        } else if first_where(presets, p1) is Some {
            assert(p1(presets[j]));
        } else {
            assert(p2(presets[j]));
        }
        let i = j;
        let pk = presets[i];
        if pk.id@ == q {
        } else {
            if !p1(pk) {
                assert(p2(pk));
            } else {
                assert(crate::text::occurs_at(lowercase_of(pk.name@), q, 0));
            }
        }
    } else {
        assert forall|i: int| 0 <= i < presets.len() implies {
            let pk = #[trigger] presets[i];
            &&& pk.id@ != q
            &&& !contains(lowercase_of(pk.name@), q)
            &&& !contains(lowercase_of(pk.manufacturer@), q)
        } by {
            assert(!p0(presets[i]));
            assert(!p2(presets[i]));
        }
    }
}

fn preset_rule(rule: u8, p: &PresetKey, q: &Vec<char>) -> (b: bool)
    requires
        rule <= 2,
    ensures
        b == preset_rule_spec(rule as int, q@)(*p),
{
    if rule == 0 {
        chars_eq(&chars_of(p.id.as_str()), q)
    } else if rule == 1 {
        chars_eq(&lower_chars(p.name.as_str()), q)
    } else {
        contains_chars(&lower_chars(p.name.as_str()), q) || contains_chars(
            &lower_chars(p.manufacturer.as_str()),
            q,
        )
    }
}

/// Finds the preset that `query` names; its index.
pub fn find_preset(presets: &Vec<PresetKey>, query: &str) -> (r: Option<usize>)
    ensures
        opt_index(r) == preset_match(presets@, query@),
        r matches Some(i) ==> i < presets@.len(),
{
    let q = lower_chars(query);
    let n = presets.len();
    let mut rule: u8 = 0;
    while rule <= 2
        invariant
            n == presets.len(),
            rule <= 3,
            q@ == lowercase_of(query@),
            forall|k: int| 0 <= k < rule ==> first_where(presets@, #[trigger] preset_rule_spec(k, q@)) is None,
        decreases 3 - rule,
    {
        let ghost pr = preset_rule_spec(rule as int, q@);
        for i in 0..n
            invariant
                n == presets.len(),
                rule <= 2,
                q@ == lowercase_of(query@),
                pr == preset_rule_spec(rule as int, q@),
                forall|k: int| 0 <= k < rule ==> first_where(presets@, #[trigger] preset_rule_spec(k, q@)) is None,
                forall|j: int| 0 <= j < i ==> !pr(#[trigger] presets@[j]),
        {
            if preset_rule(rule, &presets[i], &q) {
                proof {
                    lemma_first_where_found(presets@, pr, i as int);
                }
                return Some(i);
            }
        }
        proof {
            lemma_first_where_none(presets@, pr);
        }
        rule = rule + 1;
    }
    None
}

} // verus!
