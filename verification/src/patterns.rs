//! The pattern classifier: a first-match rule cascade that buckets a string
//! value into one semantic category, and the aggregation of a facet analysis
//! into pattern groups.

use vstd::prelude::*;
use vstd::string::StrSliceExecFns;

use crate::facets::pct_bp;
use crate::facets::sum_fv;
use crate::facets::FacetAnalysis;
use crate::facets::FacetValue;

use crate::text::all_caps_seq;
use crate::text::alnum_char;
use crate::text::alpha_char;
use crate::text::chars_of;
use crate::text::char_count;
use crate::text::contains_char;
use crate::text::contains_char_exec;
use crate::text::contains_lit;
use crate::text::contains_seq;
use crate::text::count_char_exec;
use crate::text::count_digits_exec;
use crate::text::digit_char;
use crate::text::digit_count;
use crate::text::first_nonwhite;
use crate::text::has_prefix;
use crate::text::has_prefix_lit;
use crate::text::is_digit_char;
use crate::text::last_nonwhite_end;
use crate::text::lemma_first_nonwhite_bounds;
use crate::text::lemma_last_nonwhite_past;
use crate::text::lower_of;
use crate::text::trim_end_idx;
use crate::text::trim_spec;
use crate::text::trim_start_idx;
use crate::text::upper_char;
use crate::text::white_char;

verus! {

/// The closed set of pattern categories the cascade can assign.
#[derive(Debug, Clone, Copy, PartialEq, Eq, Hash, Structural)]
pub enum PatternType {
    Empty,
    VeryLong,
    VeryShort,
    PureNumeric,
    FourDigitYear,
    IsoDate,
    EmailLike,
    UrlLike,
    AllCaps,
    NumericWithPunctuation,
    FuzzyDate,
    DateRange,
    CenturyNotation,
    IsoLanguageCode,
    BracketedContent,
    MixedAlphanumeric,
    SpecialCharacterHeavy,
    Other,
}

// ---------------------------------------------------------------------------
// The individual rules, each over an already-trimmed character sequence.
// ---------------------------------------------------------------------------
/// Every character is an ASCII digit.
pub open spec fn all_digits(s: Seq<char>) -> bool {
    forall|i: int| 0 <= i < s.len() ==> digit_char(#[trigger] s[i])
}

/// The numeric value of a four-digit string.
pub open spec fn four_digit_val(s: Seq<char>) -> int {
    (s[0] as u32 - 48) * 1000 + (s[1] as u32 - 48) * 100 + (s[2] as u32 - 48) * 10 + (
    s[3] as u32 - 48)
}

/// Exactly four digits whose value reads as a plausible year.
pub open spec fn is_four_digit_year_spec(s: Seq<char>) -> bool {
    &&& s.len() == 4
    &&& all_digits(s)
    &&& 1000 <= four_digit_val(s) <= 2999
}

/// The shape `DDDD-DD-D...` of an ISO date: splitting on `-` gives a first
/// part of exactly four digits, a second of exactly two, and a third that
/// starts with a digit. Since a digit is never a dash, that is the same as
/// fixing dashes at positions 4 and 7.
pub open spec fn is_iso_date_spec(s: Seq<char>) -> bool {
    &&& s.len() >= 10
    &&& digit_char(s[0])
    &&& digit_char(s[1])
    &&& digit_char(s[2])
    &&& digit_char(s[3])
    &&& s[4] == '-'
    &&& digit_char(s[5])
    &&& digit_char(s[6])
    &&& s[7] == '-'
    &&& digit_char(s[8])
}

/// An approximate date marker: "circa", "ca.", "ca ", a leading tilde, or
/// "c." next to a century prefix, all case-insensitively.
pub open spec fn is_fuzzy_date_spec(s: Seq<char>) -> bool {
    let l = lower_of(s);
    ||| contains_seq(l, "circa"@)
    ||| contains_seq(l, "ca."@)
    ||| contains_seq(l, "ca "@)
    ||| has_prefix(l, "~"@)
    ||| (contains_seq(l, "c."@) && (contains_seq(l, "18"@) || contains_seq(l, "19"@)
        || contains_seq(l, "20"@)))
}

/// Exactly one `-` or `/` in total, alongside at least eight digits: the
/// shape of two joined four-digit years.
pub open spec fn is_date_range_spec(s: Seq<char>) -> bool {
    &&& contains_char(s, '-') || contains_char(s, '/')
    &&& digit_count(s) >= 8
    &&& char_count(s, '-') + char_count(s, '/') == 1
}

/// A century reference: "century" or "jahrhundert" together with an ordinal
/// marker or a period, case-insensitively.
pub open spec fn is_century_notation_spec(s: Seq<char>) -> bool {
    let l = lower_of(s);
    &&& contains_seq(l, "century"@) || contains_seq(l, "jahrhundert"@)
    &&& (contains_seq(l, "th"@) || contains_seq(l, "st"@) || contains_seq(l, "nd"@)
        || contains_seq(l, "rd"@) || contains_char(l, '.'))
}

/// Wrapped whole in square brackets or parentheses.
pub open spec fn is_bracketed_content_spec(s: Seq<char>) -> bool {
    &&& s.len() > 0
    &&& ((s[0] == '[' && s[s.len() - 1] == ']') || (s[0] == '(' && s[s.len() - 1] == ')'))
}

/// Exactly three alphabetic characters, the shape of an ISO 639-2 code.
pub open spec fn is_iso_language_code_spec(s: Seq<char>) -> bool {
    &&& s.len() == 3
    &&& forall|i: int| 0 <= i < s.len() ==> alpha_char(#[trigger] s[i])
}

/// Some character is an ASCII digit.
pub open spec fn has_digit(s: Seq<char>) -> bool {
    exists|i: int| 0 <= i < s.len() && digit_char(#[trigger] s[i])
}

/// Digits mixed only with commas, periods, hyphens and whitespace, with at
/// least one digit and one of the three punctuation marks.
pub open spec fn is_numeric_with_punctuation_spec(s: Seq<char>) -> bool {
    &&& has_digit(s)
    &&& contains_char(s, ',') || contains_char(s, '.') || contains_char(s, '-')
    &&& forall|i: int|
        0 <= i < s.len() && !white_char(#[trigger] s[i]) ==> (digit_char(s[i]) || s[i] == ','
            || s[i] == '.' || s[i] == '-')
}

/// At least three characters, each uppercase or non-alphabetic.
pub open spec fn all_caps_spec(s: Seq<char>) -> bool {
    &&& s.len() >= 3
    &&& all_caps_seq(s)
}

/// A character that counts as "special": neither alphanumeric nor
/// whitespace.
pub open spec fn special_char(c: char) -> bool {
    !alnum_char(c) && !white_char(c)
}

/// How many characters of `s` are special.
pub open spec fn special_count(s: Seq<char>) -> nat
    decreases s.len(),
{
    if s.len() == 0 {
        0
    } else {
        special_count(s.drop_last()) + (if special_char(s.last()) {
            1nat
        } else {
            0nat
        })
    }
}

/// More than a quarter of the characters are special. Stated over exact
/// integers: `n/len > 1/4` is `4n > len`.
pub open spec fn special_heavy_spec(s: Seq<char>) -> bool {
    special_count(s) * 4 > s.len()
}

/// Some alphabetic character stands next to some digit.
pub open spec fn mixed_alnum_spec(s: Seq<char>) -> bool {
    &&& exists|i: int| 0 <= i < s.len() && alpha_char(#[trigger] s[i])
    &&& has_digit(s)
}

/// The full first-match cascade over the trimmed input. Order is normative:
/// a value matching an earlier rule is never reconsidered against a later
/// one. Opaque: proofs open it only where a value is actually classified,
/// so that counting over many values does not unfold the cascade each time.
#[verifier::opaque]
pub open spec fn classify_spec(s: Seq<char>) -> PatternType {
    let t = trim_spec(s);
    if t.len() == 0 {
        PatternType::Empty
    } else if t.len() > 100 {
        PatternType::VeryLong
    } else if t.len() <= 2 {
        PatternType::VeryShort
    } else if has_prefix(t, "http://"@) || has_prefix(t, "https://"@) {
        PatternType::UrlLike
    } else if contains_char(t, '@') {
        PatternType::EmailLike
    } else if is_fuzzy_date_spec(t) {
        PatternType::FuzzyDate
    } else if is_date_range_spec(t) {
        PatternType::DateRange
    } else if is_century_notation_spec(t) {
        PatternType::CenturyNotation
    } else if is_bracketed_content_spec(t) {
        PatternType::BracketedContent
    } else if is_iso_date_spec(t) {
        PatternType::IsoDate
    } else if is_four_digit_year_spec(t) {
        PatternType::FourDigitYear
    } else if is_iso_language_code_spec(t) {
        PatternType::IsoLanguageCode
    } else if all_digits(t) {
        PatternType::PureNumeric
    } else if is_numeric_with_punctuation_spec(t) {
        PatternType::NumericWithPunctuation
    } else if all_caps_spec(t) {
        PatternType::AllCaps
    } else if special_heavy_spec(t) {
        PatternType::SpecialCharacterHeavy
    } else if mixed_alnum_spec(t) {
        PatternType::MixedAlphanumeric
    } else {
        PatternType::Other
    }
}

// ---------------------------------------------------------------------------
// Executable rule tests, each over an already-trimmed string.
// ---------------------------------------------------------------------------
/// Whether the (trimmed) string is exactly four digits reading as a year in
/// [1000, 2999].
pub fn is_four_digit_year(value: &str) -> (r: bool)
    ensures
        r == is_four_digit_year_spec(value@),
{
    let chars = chars_of(value);
    if chars.len() != 4 {
        return false;
    }
    if !(is_digit_char(chars[0]) && is_digit_char(chars[1]) && is_digit_char(chars[2])
        && is_digit_char(chars[3])) {
        return false;
    }
    let val: u32 = (chars[0] as u32 - 48) * 1000 + (chars[1] as u32 - 48) * 100 + (chars[2] as u32
        - 48) * 10 + (chars[3] as u32 - 48);
    1000 <= val && val <= 2999
}

/// Whether the (trimmed) string has the ISO date shape `DDDD-DD-D...`.
pub fn is_iso_date(value: &str) -> (r: bool)
    ensures
        r == is_iso_date_spec(value@),
{
    let chars = chars_of(value);
    if chars.len() < 10 {
        return false;
    }
    is_digit_char(chars[0]) && is_digit_char(chars[1]) && is_digit_char(chars[2]) && is_digit_char(
        chars[3],
    ) && chars[4] == '-' && is_digit_char(chars[5]) && is_digit_char(chars[6]) && chars[7] == '-'
        && is_digit_char(chars[8])
}

/// Whether the (trimmed) string carries an approximate-date marker.
pub fn is_fuzzy_date(value: &str) -> (r: bool)
    ensures
        r == is_fuzzy_date_spec(value@),
{
    let lower = value.to_lowercase();
    let l = chars_of(lower.as_str());
    contains_lit(&l, "circa") || contains_lit(&l, "ca.") || contains_lit(&l, "ca ")
        || has_prefix_lit(&l, "~") || (contains_lit(&l, "c.") && (contains_lit(&l, "18")
        || contains_lit(&l, "19") || contains_lit(&l, "20")))
}

/// Whether the (trimmed) string looks like a range of two joined years.
pub fn is_date_range(value: &str) -> (r: bool)
    ensures
        r == is_date_range_spec(value@),
{
    let chars = chars_of(value);
    if !(contains_char_exec(&chars, '-') || contains_char_exec(&chars, '/')) {
        return false;
    }
    let digits = count_digits_exec(&chars);
    if digits < 8 {
        return false;
    }
    let dashes = count_char_exec(&chars, '-');
    let slashes = count_char_exec(&chars, '/');
    (dashes as u128) + (slashes as u128) == 1
}

/// Whether the (trimmed) string is a century reference.
pub fn is_century_notation(value: &str) -> (r: bool)
    ensures
        r == is_century_notation_spec(value@),
{
    let lower = value.to_lowercase();
    let l = chars_of(lower.as_str());
    (contains_lit(&l, "century") || contains_lit(&l, "jahrhundert")) && (contains_lit(&l, "th")
        || contains_lit(&l, "st") || contains_lit(&l, "nd") || contains_lit(&l, "rd")
        || contains_char_exec(&l, '.'))
}

/// Whether the (trimmed) string is exactly three alphabetic characters.
pub fn is_iso_language_code(value: &str) -> (r: bool)
    ensures
        r == is_iso_language_code_spec(value@),
{
    let chars = chars_of(value);
    let n = chars.len();
    if n != 3 {
        return false;
    }
    let mut i: usize = 0;
    while i < n
        invariant
            chars@ == value@,
            n == chars@.len(),
            i <= n,
            forall|k: int| 0 <= k < i ==> alpha_char(#[trigger] chars@[k]),
        decreases n - i,
    {
        if !chars[i].is_alphabetic() {
            proof {
                assert(!alpha_char(value@[i as int]));
            }
            return false;
        }
        i = i + 1;
    }
    true
}

/// Whether the (trimmed) string is wrapped whole in brackets or parentheses.
pub fn is_bracketed_content(value: &str) -> (r: bool)
    ensures
        r == is_bracketed_content_spec(value@),
{
    let chars = chars_of(value);
    let n = chars.len();
    if n == 0 {
        return false;
    }
    (chars[0] == '[' && chars[n - 1] == ']') || (chars[0] == '(' && chars[n - 1] == ')')
}

fn has_digit_exec(chars: &Vec<char>) -> (r: bool)
    ensures
        r == has_digit(chars@),
{
    let n = chars.len();
    let mut i: usize = 0;
    while i < n
        invariant
            n == chars@.len(),
            i <= n,
            forall|k: int| 0 <= k < i ==> !digit_char(#[trigger] chars@[k]),
        decreases n - i,
    {
        if is_digit_char(chars[i]) {
            return true;
        }
        i = i + 1;
    }
    false
}

/// Whether the (trimmed) string is digits mixed only with `,`, `.`, `-` and
/// whitespace, with at least one digit and one of those marks.
pub fn is_numeric_with_punctuation(value: &str) -> (r: bool)
    ensures
        r == is_numeric_with_punctuation_spec(value@),
{
    let chars = chars_of(value);
    if !has_digit_exec(&chars) {
        return false;
    }
    if !(contains_char_exec(&chars, ',') || contains_char_exec(&chars, '.') || contains_char_exec(
        &chars,
        '-',
    )) {
        return false;
    }
    let n = chars.len();
    let mut i: usize = 0;
    while i < n
        invariant
            chars@ == value@,
            n == chars@.len(),
            i <= n,
            forall|k: int|
                0 <= k < i && !white_char(#[trigger] chars@[k]) ==> (digit_char(chars@[k])
                    || chars@[k] == ',' || chars@[k] == '.' || chars@[k] == '-'),
        decreases n - i,
    {
        let c = chars[i];
        if !c.is_whitespace() && !(is_digit_char(c) || c == ',' || c == '.' || c == '-') {
            proof {
                assert(!white_char(value@[i as int]) && !(digit_char(value@[i as int])
                    || value@[i as int] == ',' || value@[i as int] == '.' || value@[i as int]
                    == '-'));
            }
            return false;
        }
        i = i + 1;
    }
    true
}

fn all_digits_exec(chars: &Vec<char>) -> (r: bool)
    ensures
        r == all_digits(chars@),
{
    let n = chars.len();
    let mut i: usize = 0;
    while i < n
        invariant
            n == chars@.len(),
            i <= n,
            forall|k: int| 0 <= k < i ==> digit_char(#[trigger] chars@[k]),
        decreases n - i,
    {
        if !is_digit_char(chars[i]) {
            return false;
        }
        i = i + 1;
    }
    true
}

fn all_caps_exec(chars: &Vec<char>) -> (r: bool)
    ensures
        r == all_caps_seq(chars@),
{
    let n = chars.len();
    let mut i: usize = 0;
    while i < n
        invariant
            n == chars@.len(),
            i <= n,
            forall|k: int|
                0 <= k < i ==> (upper_char(#[trigger] chars@[k]) || !alpha_char(chars@[k])),
        decreases n - i,
    {
        let c = chars[i];
        if !c.is_uppercase() && c.is_alphabetic() {
            return false;
        }
        i = i + 1;
    }
    true
}

fn special_count_exec(chars: &Vec<char>) -> (r: usize)
    ensures
        r == special_count(chars@),
{
    let n = chars.len();
    let mut i: usize = 0;
    let mut acc: usize = 0;
    while i < n
        invariant
            n == chars@.len(),
            i <= n,
            acc <= i,
            acc == special_count(chars@.take(i as int)),
        decreases n - i,
    {
        proof {
            assert(chars@.take(i + 1).drop_last() =~= chars@.take(i as int));
            assert(chars@.take(i + 1).last() == chars@[i as int]);
        }
        let c = chars[i];
        if !c.is_alphanumeric() && !c.is_whitespace() {
            acc = acc + 1;
        }
        i = i + 1;
    }
    proof {
        assert(chars@.take(n as int) =~= chars@);
    }
    acc
}

fn has_alpha_exec(chars: &Vec<char>) -> (r: bool)
    ensures
        r == exists|i: int| 0 <= i < chars@.len() && alpha_char(#[trigger] chars@[i]),
{
    let n = chars.len();
    let mut i: usize = 0;
    while i < n
        invariant
            n == chars@.len(),
            i <= n,
            forall|k: int| 0 <= k < i ==> !alpha_char(#[trigger] chars@[k]),
        decreases n - i,
    {
        if chars[i].is_alphabetic() {
            return true;
        }
        i = i + 1;
    }
    false
}

/// Classifies one value's text through the rule cascade. Total: every string
/// lands in exactly one category.
pub fn classify_value(value: &str) -> (p: PatternType)
    ensures
        p == classify_spec(value@),
{
    proof {
        reveal(classify_spec);
    }
    let chars = chars_of(value);
    let lo = trim_start_idx(&chars);
    let hi = trim_end_idx(&chars);
    proof {
        lemma_first_nonwhite_bounds(value@, 0);
        if lo < value@.len() {
            lemma_last_nonwhite_past(value@, value@.len() as int, lo as int);
        }
    }
    if lo >= hi {
        return PatternType::Empty;
    }
    let trimmed = value.substring_char(lo, hi);
    proof {
        assert(trimmed@ == trim_spec(value@));
    }
    let tchars = chars_of(trimmed);
    let n = tchars.len();
    if n > 100 {
        return PatternType::VeryLong;
    }
    if n <= 2 {
        return PatternType::VeryShort;
    }
    if has_prefix_lit(&tchars, "http://") || has_prefix_lit(&tchars, "https://") {
        return PatternType::UrlLike;
    }
    if contains_char_exec(&tchars, '@') {
        return PatternType::EmailLike;
    }
    if is_fuzzy_date(trimmed) {
        return PatternType::FuzzyDate;
    }
    if is_date_range(trimmed) {
        return PatternType::DateRange;
    }
    if is_century_notation(trimmed) {
        return PatternType::CenturyNotation;
    }
    if is_bracketed_content(trimmed) {
        return PatternType::BracketedContent;
    }
    if is_iso_date(trimmed) {
        return PatternType::IsoDate;
    }
    if is_four_digit_year(trimmed) {
        return PatternType::FourDigitYear;
    }
    if is_iso_language_code(trimmed) {
        return PatternType::IsoLanguageCode;
    }
    if all_digits_exec(&tchars) {
        return PatternType::PureNumeric;
    }
    if is_numeric_with_punctuation(trimmed) {
        return PatternType::NumericWithPunctuation;
    }
    if all_caps_exec(&tchars) {
        return PatternType::AllCaps;
    }
    let sc = special_count_exec(&tchars);
    if (sc as u128) * 4 > (n as u128) {
        return PatternType::SpecialCharacterHeavy;
    }
    if has_alpha_exec(&tchars) && has_digit_exec(&tchars) {
        return PatternType::MixedAlphanumeric;
    }
    PatternType::Other
}

// ---------------------------------------------------------------------------
// Names and descriptions of the categories: a fixed lookup for display.
// ---------------------------------------------------------------------------
/// The short human-readable name of a category.
pub open spec fn pattern_name(p: PatternType) -> Seq<char> {
    match p {
        PatternType::Empty => "Empty/Whitespace"@,
        PatternType::VeryLong => "Very Long (>100 chars)"@,
        PatternType::VeryShort => "Very Short (1-2 chars)"@,
        PatternType::PureNumeric => "Purely Numeric"@,
        PatternType::FourDigitYear => "4-Digit Years (1000-2999)"@,
        PatternType::IsoDate => "ISO Date Format"@,
        PatternType::EmailLike => "Email-like"@,
        PatternType::UrlLike => "URL-like"@,
        PatternType::AllCaps => "All Uppercase"@,
        PatternType::NumericWithPunctuation => "Numbers with Punctuation"@,
        PatternType::FuzzyDate => "Fuzzy Dates (circa, ca., ~)"@,
        PatternType::DateRange => "Date Ranges"@,
        PatternType::CenturyNotation => "Century Notation"@,
        PatternType::IsoLanguageCode => "ISO Language Code (3-letter)"@,
        PatternType::BracketedContent => "Bracketed Content"@,
        PatternType::MixedAlphanumeric => "Mixed Alphanumeric"@,
        PatternType::SpecialCharacterHeavy => "Special Character Heavy"@,
        PatternType::Other => "Other/Unclassified"@,
    }
}

/// The one-line description of a category.
pub open spec fn pattern_description(p: PatternType) -> Seq<char> {
    match p {
        PatternType::Empty => "Empty strings or whitespace only"@,
        PatternType::VeryLong => "Strings longer than 100 characters"@,
        PatternType::VeryShort => "1-2 character strings (codes, initials)"@,
        PatternType::PureNumeric => "Only digits, no other characters"@,
        PatternType::FourDigitYear => "Four-digit numbers in year range (1000-2999)"@,
        PatternType::IsoDate => "ISO 8601 date format (YYYY-MM-DD or with time)"@,
        PatternType::EmailLike => "Contains @ symbol"@,
        PatternType::UrlLike => "Starts with http:// or https://"@,
        PatternType::AllCaps => "All uppercase letters (acronyms, codes)"@,
        PatternType::NumericWithPunctuation => "Numbers with commas, periods, or hyphens"@,
        PatternType::FuzzyDate => "Approximate dates: 'circa 1800', 'ca. 1850', '~1900'"@,
        PatternType::DateRange => "Date ranges: '1800-1850', '1999/2000'"@,
        PatternType::CenturyNotation => "Century references: '18th century', '19. Jahrhundert'"@,
        PatternType::IsoLanguageCode => "3-letter language codes (eng, ger, fre)"@,
        PatternType::BracketedContent => "Text within brackets: '[n.d.]', '[London]'"@,
        PatternType::MixedAlphanumeric => "Mix of letters and numbers"@,
        PatternType::SpecialCharacterHeavy => ">25% special characters"@,
        PatternType::Other => "Does not match any specific pattern"@,
    }
}

impl PatternType {
    /// The category's fixed display name.
    pub fn name(&self) -> (r: &'static str)
        ensures
            r@ == pattern_name(*self),
    {
        match self {
            PatternType::Empty => "Empty/Whitespace",
            PatternType::VeryLong => "Very Long (>100 chars)",
            PatternType::VeryShort => "Very Short (1-2 chars)",
            PatternType::PureNumeric => "Purely Numeric",
            PatternType::FourDigitYear => "4-Digit Years (1000-2999)",
            PatternType::IsoDate => "ISO Date Format",
            PatternType::EmailLike => "Email-like",
            PatternType::UrlLike => "URL-like",
            PatternType::AllCaps => "All Uppercase",
            PatternType::NumericWithPunctuation => "Numbers with Punctuation",
            PatternType::FuzzyDate => "Fuzzy Dates (circa, ca., ~)",
            PatternType::DateRange => "Date Ranges",
            PatternType::CenturyNotation => "Century Notation",
            PatternType::IsoLanguageCode => "ISO Language Code (3-letter)",
            PatternType::BracketedContent => "Bracketed Content",
            PatternType::MixedAlphanumeric => "Mixed Alphanumeric",
            PatternType::SpecialCharacterHeavy => "Special Character Heavy",
            PatternType::Other => "Other/Unclassified",
        }
    }

    /// The category's fixed one-line description.
    pub fn description(&self) -> (r: &'static str)
        ensures
            r@ == pattern_description(*self),
    {
        match self {
            PatternType::Empty => "Empty strings or whitespace only",
            PatternType::VeryLong => "Strings longer than 100 characters",
            PatternType::VeryShort => "1-2 character strings (codes, initials)",
            PatternType::PureNumeric => "Only digits, no other characters",
            PatternType::FourDigitYear => "Four-digit numbers in year range (1000-2999)",
            PatternType::IsoDate => "ISO 8601 date format (YYYY-MM-DD or with time)",
            PatternType::EmailLike => "Contains @ symbol",
            PatternType::UrlLike => "Starts with http:// or https://",
            PatternType::AllCaps => "All uppercase letters (acronyms, codes)",
            PatternType::NumericWithPunctuation => "Numbers with commas, periods, or hyphens",
            PatternType::FuzzyDate => "Approximate dates: 'circa 1800', 'ca. 1850', '~1900'",
            PatternType::DateRange => "Date ranges: '1800-1850', '1999/2000'",
            PatternType::CenturyNotation => "Century references: '18th century', '19. Jahrhundert'",
            PatternType::IsoLanguageCode => "3-letter language codes (eng, ger, fre)",
            PatternType::BracketedContent => "Text within brackets: '[n.d.]', '[London]'",
            PatternType::MixedAlphanumeric => "Mix of letters and numbers",
            PatternType::SpecialCharacterHeavy => ">25% special characters",
            PatternType::Other => "Does not match any specific pattern",
        }
    }
}


} // verus!
