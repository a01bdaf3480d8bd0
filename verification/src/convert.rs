use vstd::prelude::*;

use crate::cache::ConversionCache;
use convert_case::Case;
use convert_case::Casing;

verus! {

/// The naming convention a key is rewritten into. An unrecognized selector
/// string falls back to `Camel` (see `spec_case_of`).
#[derive(Clone, Copy, Debug, PartialEq, Eq, Hash, Structural)]
pub enum CaseKind {
    Camel,
    Snake,
    Pascal,
    Kebab,
}

/// The case kind a selector string denotes; anything outside the four
/// recognized selectors means `Camel`.
pub open spec fn spec_case_of(s: Seq<char>) -> CaseKind {
    if s == "snake"@ {
        CaseKind::Snake
    } else if s == "pascal"@ {
        CaseKind::Pascal
    } else if s == "kebab"@ {
        CaseKind::Kebab
    } else {
        CaseKind::Camel
    }
}

/// Maps a selector string to the case kind it denotes.
pub fn case_kind_of(casing: &str) -> (r: CaseKind)
    ensures
        r == spec_case_of(casing@),
{
    let owned = casing.to_owned();
    if owned == String::from_str("snake") {
        CaseKind::Snake
    } else if owned == String::from_str("pascal") {
        CaseKind::Pascal
    } else if owned == String::from_str("kebab") {
        CaseKind::Kebab
    } else {
        CaseKind::Camel
    }
}

/// An ASCII lower-case letter turned upper case; any other character kept.
pub open spec fn to_upper_char(c: char) -> char {
    if 'a' <= c && c <= 'z' {
        (c as u32 - 32) as char
    } else {
        c
    }
}

/// An ASCII upper-case letter turned lower case; any other character kept.
pub open spec fn to_lower_char(c: char) -> char {
    if 'A' <= c && c <= 'Z' {
        (c as u32 + 32) as char
    } else {
        c
    }
}

/// Relies on char::to_ascii_uppercase: maps 'a'..='z' to 'A'..='Z' and
/// leaves every other character unchanged.
pub assume_specification[ char::to_ascii_uppercase ](c: &char) -> (r: char)
    ensures
        r == to_upper_char(*c),
;

/// Relies on char::to_ascii_lowercase: maps 'A'..='Z' to 'a'..='z' and
/// leaves every other character unchanged.
pub assume_specification[ char::to_ascii_lowercase ](c: &char) -> (r: char)
    ensures
        r == to_lower_char(*c),
;

/// Relies on String::push: appends the given character to the end.
pub assume_specification[ String::push ](s: &mut String, c: char)
    ensures
        final(s)@ == old(s)@.push(c),
;

/// Whether a character counts as a word delimiter in a key.
pub open spec fn is_delim(c: char) -> bool {
    c == '_' || c == '-'
}

/// Whether a key holds any word delimiter.
pub open spec fn has_delim(s: Seq<char>) -> bool {
    exists|i: int| 0 <= i < s.len() && is_delim(#[trigger] s[i])
}

/// The key with its first character upper-cased (when an ASCII letter) and
/// the rest untouched.
pub open spec fn spec_upper_first(s: Seq<char>) -> Seq<char> {
    if s.len() == 0 {
        s
    } else {
        seq![to_upper_char(s[0])] + s.subrange(1, s.len() as int)
    }
}

/// The key with its first character lower-cased (when an ASCII letter) and
/// the rest untouched.
pub open spec fn spec_lower_first(s: Seq<char>) -> Seq<char> {
    if s.len() == 0 {
        s
    } else {
        seq![to_lower_char(s[0])] + s.subrange(1, s.len() as int)
    }
}

/// What the general conversion algorithm returns for a key, by target case.
pub open spec fn spec_full_convert(s: Seq<char>, case: CaseKind) -> Seq<char> {
    match case {
        CaseKind::Camel => camel_of(s),
        CaseKind::Snake => snake_of(s),
        CaseKind::Pascal => pascal_of(s),
        CaseKind::Kebab => kebab_of(s),
    }
}

pub uninterp spec fn camel_of(s: Seq<char>) -> Seq<char>;

pub uninterp spec fn snake_of(s: Seq<char>) -> Seq<char>;

pub uninterp spec fn pascal_of(s: Seq<char>) -> Seq<char>;

pub uninterp spec fn kebab_of(s: Seq<char>) -> Seq<char>;

/// Relies on convert_case's Casing::to_case with Case::Camel: the result is
/// a pure function of the input characters.
#[verifier::external_body]
fn to_camel(key: &str) -> (r: String)
    ensures
        r@ == camel_of(key@),
{
    key.to_case(Case::Camel)
}

/// Relies on convert_case's Casing::to_case with Case::Snake: the result is
/// a pure function of the input characters.
#[verifier::external_body]
fn to_snake(key: &str) -> (r: String)
    ensures
        r@ == snake_of(key@),
{
    key.to_case(Case::Snake)
}

/// Relies on convert_case's Casing::to_case with Case::Pascal: the result is
/// a pure function of the input characters.
#[verifier::external_body]
fn to_pascal(key: &str) -> (r: String)
    ensures
        r@ == pascal_of(key@),
{
    key.to_case(Case::Pascal)
}

/// Relies on convert_case's Casing::to_case with Case::Kebab: the result is
/// a pure function of the input characters.
#[verifier::external_body]
fn to_kebab(key: &str) -> (r: String)
    ensures
        r@ == kebab_of(key@),
{
    key.to_case(Case::Kebab)
}

/// The general conversion algorithm, dispatched by target case.
fn full_convert(key: &str, case: CaseKind) -> (r: String)
    ensures
        r@ == spec_full_convert(key@, case),
{
    match case {
        CaseKind::Camel => to_camel(key),
        CaseKind::Snake => to_snake(key),
        CaseKind::Pascal => to_pascal(key),
        CaseKind::Kebab => to_kebab(key),
    }
}

/// What `convert_key` returns: the cheap first-character flip where the key
/// has no delimiter to rearrange and the target is camel or pascal, the full
/// conversion everywhere else.
pub open spec fn spec_convert_key(s: Seq<char>, case: CaseKind) -> Seq<char> {
    if !has_delim(s) && case == CaseKind::Camel {
        spec_lower_first(s)
    } else if !has_delim(s) && case == CaseKind::Pascal {
        spec_upper_first(s)
    } else {
        spec_full_convert(s, case)
    }
}

/// Fast-path equivalence: a key without delimiters converts to camel case by
/// lower-casing its first character, and to pascal case by upper-casing it,
/// the rest untouched in both.
pub proof fn lemma_fast_path_equivalence(key: Seq<char>)
    requires
        !has_delim(key),
    ensures
        spec_convert_key(key, CaseKind::Camel) == spec_lower_first(key),
        spec_convert_key(key, CaseKind::Pascal) == spec_upper_first(key),
{
}

/// Cache transparency: what `convert_key` returns is a function of the key
/// and the target case alone, so any two calls for the same pair — one
/// against a cold cache, one against a warm one — return the same string.
pub proof fn lemma_cache_transparency(r1: Seq<char>, r2: Seq<char>, key: Seq<char>, case: CaseKind)
    requires
        r1 == spec_convert_key(key, case),
        r2 == spec_convert_key(key, case),
    ensures
        r1 == r2,
{
}

/// Whether the key holds a `_` or `-` delimiter.
fn contains_delim(s: &str) -> (r: bool)
    ensures
        r == has_delim(s@),
{
    let n = s.unicode_len();
    let mut i: usize = 0;
    while i < n
        invariant
            i <= n,
            n == s@.len(),
            forall|j: int| 0 <= j < i ==> !is_delim(#[trigger] s@[j]),
        decreases n - i,
    {
        let c = s.get_char(i);
        if c == '_' || c == '-' {
            return true;
        }
        i += 1;
    }
    false
}

/// The key with its first character upper-cased and the rest untouched.
fn upper_first(s: &str) -> (r: String)
    ensures
        r@ == spec_upper_first(s@),
{
    let n = s.unicode_len();
    if n == 0 {
        let r = String::new();
        proof {
            assert(r@ =~= spec_upper_first(s@));
        }
        return r;
    }
    let first = s.get_char(0);
    let mut out = String::new();
    out.push(first.to_ascii_uppercase());
    let rest = s.substring_char(1, n);
    let r = out.concat(rest);
    proof {
        assert(r@ =~= spec_upper_first(s@));
    }
    r
}

/// The key with its first character lower-cased and the rest untouched.
fn lower_first(s: &str) -> (r: String)
    ensures
        r@ == spec_lower_first(s@),
{
    let n = s.unicode_len();
    if n == 0 {
        let r = String::new();
        proof {
            assert(r@ =~= spec_lower_first(s@));
        }
        return r;
    }
    let first = s.get_char(0);
    let mut out = String::new();
    out.push(first.to_ascii_lowercase());
    let rest = s.substring_char(1, n);
    let r = out.concat(rest);
    proof {
        assert(r@ =~= spec_lower_first(s@));
    }
    r
}

/// Converts one key into the target case: fast path, then cache, then full
/// conversion (stored in the cache on the way out). The result depends on
/// the key and the case alone, never on what the cache holds.
pub fn convert_key(key: &str, case: CaseKind, cache: &ConversionCache) -> (r: String)
    ensures
        r@ == spec_convert_key(key@, case),
{
    if !contains_delim(key) {
        match case {
            CaseKind::Camel => {
                return lower_first(key);
            },
            CaseKind::Pascal => {
                return upper_first(key);
            },
            _ => {},
        }
    }
    if let Some(v) = cache.get(key, case) {
        return v;
    }
    let converted = full_convert(key, case);
    cache.insert(key, case, converted.clone());
    converted
}

} // verus!
