//! Text primitives shared by the analysis passes: character classes,
//! substring search, counting, trimming, lexicographic order on strings, and
//! decimal rendering of numbers.

use vstd::prelude::*;
use vstd::string::StrSliceExecFns;
use vstd::string::StringExecFns;

verus! {

// ---------------------------------------------------------------------------
// Character classes. The Unicode-wide classes are those of std's `char`
// methods; their exact extent is named, not restated.
// ---------------------------------------------------------------------------
/// What `char::is_whitespace` returns for a character.
pub uninterp spec fn white_char(c: char) -> bool;

/// What `char::is_uppercase` returns for a character.
pub uninterp spec fn upper_char(c: char) -> bool;

/// What `char::is_alphabetic` returns for a character.
pub uninterp spec fn alpha_char(c: char) -> bool;

/// What `char::is_alphanumeric` returns for a character.
pub uninterp spec fn alnum_char(c: char) -> bool;

/// What `str::to_lowercase` returns: a function of the characters alone.
pub uninterp spec fn lower_of(s: Seq<char>) -> Seq<char>;

/// Relies on char::is_whitespace: a pure predicate on the character.
pub assume_specification[ char::is_whitespace ](c: char) -> (r: bool)
    ensures
        r == white_char(c),
;

/// Relies on char::is_uppercase: a pure predicate on the character.
pub assume_specification[ char::is_uppercase ](c: char) -> (r: bool)
    ensures
        r == upper_char(c),
;

/// Relies on char::is_alphabetic: a pure predicate on the character.
pub assume_specification[ char::is_alphabetic ](c: char) -> (r: bool)
    ensures
        r == alpha_char(c),
;

/// Relies on char::is_alphanumeric: a pure predicate on the character.
pub assume_specification[ char::is_alphanumeric ](c: char) -> (r: bool)
    ensures
        r == alnum_char(c),
;

/// Relies on str::to_lowercase: the result depends on the characters alone.
pub assume_specification[ str::to_lowercase ](s: &str) -> (r: String)
    ensures
        r@ == lower_of(s@),
;

/// Every character is uppercase or non-alphabetic.
pub open spec fn all_caps_seq(s: Seq<char>) -> bool {
    forall|i: int| 0 <= i < s.len() ==> (upper_char(#[trigger] s[i]) || !alpha_char(s[i]))
}

/// An ASCII decimal digit.
pub open spec fn digit_char(c: char) -> bool {
    48 <= c as u32 <= 57
}

/// Executable test for an ASCII decimal digit.
pub fn is_digit_char(c: char) -> (r: bool)
    ensures
        r == digit_char(c),
{
    let u = c as u32;
    48 <= u && u <= 57
}

// ---------------------------------------------------------------------------
// Character vectors.
// ---------------------------------------------------------------------------
/// The characters of a string, as a vector.
pub fn chars_of(s: &str) -> (v: Vec<char>)
    ensures
        v@ == s@,
{
    let n = s.unicode_len();
    let mut v: Vec<char> = Vec::new();
    let mut i: usize = 0;
    while i < n
        invariant
            n == s@.len(),
            i <= n,
            v@ == s@.take(i as int),
        decreases n - i,
    {
        v.push(s.get_char(i));
        i = i + 1;
        proof {
            assert(v@ =~= s@.take(i as int));
        }
    }
    proof {
        assert(v@ =~= s@);
    }
    v
}

/// Whether two strings hold the same characters.
pub fn str_eq(a: &str, b: &str) -> (r: bool)
    ensures
        r == (a@ == b@),
{
    let na = a.unicode_len();
    let nb = b.unicode_len();
    if na != nb {
        proof {
            assert(a@ != b@);
        }
        return false;
    }
    let mut i: usize = 0;
    while i < na
        invariant
            na == a@.len(),
            na == b@.len(),
            i <= na,
            forall|j: int| 0 <= j < i ==> a@[j] == b@[j],
        decreases na - i,
    {
        if a.get_char(i) != b.get_char(i) {
            return false;
        }
        i = i + 1;
    }
    proof {
        assert(a@ =~= b@);
    }
    true
}

// ---------------------------------------------------------------------------
// Substring search and counting.
// ---------------------------------------------------------------------------
/// The needle `p` occurs in `s` at position `i`.
pub open spec fn contains_at(s: Seq<char>, p: Seq<char>, i: int) -> bool {
    &&& 0 <= i
    &&& i + p.len() <= s.len()
    &&& forall|j: int| 0 <= j < p.len() ==> s[i + j] == p[j]
}

/// The needle `p` occurs somewhere in `s`.
pub open spec fn contains_seq(s: Seq<char>, p: Seq<char>) -> bool {
    exists|i: int| contains_at(s, p, i)
}

/// `s` starts with `p`.
pub open spec fn has_prefix(s: Seq<char>, p: Seq<char>) -> bool {
    &&& p.len() <= s.len()
    &&& forall|j: int| 0 <= j < p.len() ==> s[j] == p[j]
}

/// The character `c` occurs in `s`.
pub open spec fn contains_char(s: Seq<char>, c: char) -> bool {
    exists|i: int| 0 <= i < s.len() && s[i] == c
}

fn match_at(hay: &Vec<char>, nee: &Vec<char>, i: usize) -> (r: bool)
    requires
        i + nee@.len() <= hay@.len(),
    ensures
        r == contains_at(hay@, nee@, i as int),
{
    let h = hay.len();
    let n = nee.len();
    let mut j: usize = 0;
    while j < n
        invariant
            h == hay@.len(),
            n == nee@.len(),
            i + n <= hay@.len(),
            j <= n,
            forall|k: int| 0 <= k < j ==> hay@[i + k] == nee@[k],
        decreases n - j,
    {
        if hay[i + j] != nee[j] {
            return false;
        }
        j = j + 1;
    }
    true
}

/// Whether the needle occurs in the haystack.
pub fn contains_chars(hay: &Vec<char>, nee: &Vec<char>) -> (r: bool)
    ensures
        r == contains_seq(hay@, nee@),
{
    let h = hay.len();
    let n = nee.len();
    if n > h {
        proof {
            assert(forall|i: int| !contains_at(hay@, nee@, i));
        }
        return false;
    }
    let mut i: usize = 0;
    while i <= h - n
        invariant
            h == hay@.len(),
            n == nee@.len(),
            n <= h,
            i <= h - n + 1,
            forall|k: int| 0 <= k < i ==> !contains_at(hay@, nee@, k),
        decreases h - i,
    {
        if match_at(hay, nee, i) {
            return true;
        }
        i = i + 1;
    }
    proof {
        assert(forall|k: int| k > h - n ==> !contains_at(hay@, nee@, k));
    }
    false
}

/// Whether the haystack contains the literal needle.
pub fn contains_lit(hay: &Vec<char>, nee: &str) -> (r: bool)
    ensures
        r == contains_seq(hay@, nee@),
{
    let n = chars_of(nee);
    contains_chars(hay, &n)
}

/// Whether the character occurs in the vector.
pub fn contains_char_exec(hay: &Vec<char>, c: char) -> (r: bool)
    ensures
        r == contains_char(hay@, c),
{
    let h = hay.len();
    let mut i: usize = 0;
    while i < h
        invariant
            h == hay@.len(),
            i <= h,
            forall|k: int| 0 <= k < i ==> hay@[k] != c,
        decreases h - i,
    {
        if hay[i] == c {
            return true;
        }
        i = i + 1;
    }
    false
}

/// Whether `hay` starts with the literal prefix.
pub fn has_prefix_lit(hay: &Vec<char>, p: &str) -> (r: bool)
    ensures
        r == has_prefix(hay@, p@),
{
    let nee = chars_of(p);
    let n = nee.len();
    if n > hay.len() {
        return false;
    }
    match_at(hay, &nee, 0)
}

/// How many characters of `s` equal `c`.
pub open spec fn char_count(s: Seq<char>, c: char) -> nat
    decreases s.len(),
{
    if s.len() == 0 {
        0
    } else {
        char_count(s.drop_last(), c) + (if s.last() == c {
            1nat
        } else {
            0nat
        })
    }
}

/// Counts the occurrences of `c` in `s`.
pub fn count_char_exec(s: &Vec<char>, c: char) -> (r: usize)
    ensures
        r == char_count(s@, c),
{
    let n = s.len();
    let mut i: usize = 0;
    let mut acc: usize = 0;
    while i < n
        invariant
            n == s@.len(),
            i <= n,
            acc <= i,
            acc == char_count(s@.take(i as int), c),
        decreases n - i,
    {
        proof {
            assert(s@.take(i + 1).drop_last() =~= s@.take(i as int));
            assert(s@.take(i + 1).last() == s@[i as int]);
        }
        if s[i] == c {
            acc = acc + 1;
        }
        i = i + 1;
    }
    proof {
        assert(s@.take(n as int) =~= s@);
    }
    acc
}

/// How many characters of `s` are ASCII digits.
pub open spec fn digit_count(s: Seq<char>) -> nat
    decreases s.len(),
{
    if s.len() == 0 {
        0
    } else {
        digit_count(s.drop_last()) + (if digit_char(s.last()) {
            1nat
        } else {
            0nat
        })
    }
}

/// Counts the ASCII digits in `s`.
pub fn count_digits_exec(s: &Vec<char>) -> (r: usize)
    ensures
        r == digit_count(s@),
{
    let n = s.len();
    let mut i: usize = 0;
    let mut acc: usize = 0;
    while i < n
        invariant
            n == s@.len(),
            i <= n,
            acc <= i,
            acc == digit_count(s@.take(i as int)),
        decreases n - i,
    {
        proof {
            assert(s@.take(i + 1).drop_last() =~= s@.take(i as int));
            assert(s@.take(i + 1).last() == s@[i as int]);
        }
        if is_digit_char(s[i]) {
            acc = acc + 1;
        }
        i = i + 1;
    }
    proof {
        assert(s@.take(n as int) =~= s@);
    }
    acc
}

// ---------------------------------------------------------------------------
// Trimming.
// ---------------------------------------------------------------------------
/// The position of the first non-whitespace character at or after `i`, or
/// the length of `s` if there is none.
pub open spec fn first_nonwhite(s: Seq<char>, i: int) -> int
    decreases s.len() - i,
{
    if i < 0 || i >= s.len() {
        s.len() as int
    } else if white_char(s[i]) {
        first_nonwhite(s, i + 1)
    } else {
        i
    }
}

/// One past the position of the last non-whitespace character strictly
/// before `j`, or 0 if there is none.
pub open spec fn last_nonwhite_end(s: Seq<char>, j: int) -> int
    decreases j,
{
    if j <= 0 || j > s.len() {
        0
    } else if white_char(s[j - 1]) {
        last_nonwhite_end(s, j - 1)
    } else {
        j
    }
}

/// `s` with leading and trailing whitespace removed.
pub open spec fn trim_spec(s: Seq<char>) -> Seq<char> {
    let lo = first_nonwhite(s, 0);
    let hi = last_nonwhite_end(s, s.len() as int);
    if lo < hi {
        s.subrange(lo, hi)
    } else {
        Seq::empty()
    }
}

pub proof fn lemma_first_nonwhite_bounds(s: Seq<char>, i: int)
    requires
        0 <= i <= s.len(),
    ensures
        i <= first_nonwhite(s, i) <= s.len(),
        first_nonwhite(s, i) < s.len() ==> !white_char(s[first_nonwhite(s, i)]),
    decreases s.len() - i,
{
    if i < s.len() && white_char(s[i]) {
        lemma_first_nonwhite_bounds(s, i + 1);
    }
}

pub proof fn lemma_last_nonwhite_bounds(s: Seq<char>, j: int)
    requires
        0 <= j <= s.len(),
    ensures
        0 <= last_nonwhite_end(s, j) <= j,
        last_nonwhite_end(s, j) > 0 ==> !white_char(s[last_nonwhite_end(s, j) - 1]),
    decreases j,
{
    if j > 0 && white_char(s[j - 1]) {
        lemma_last_nonwhite_bounds(s, j - 1);
    }
}

/// If a non-whitespace character stands at `k`, the trailing scan from any
/// `j` past `k` stops after it.
pub proof fn lemma_last_nonwhite_past(s: Seq<char>, j: int, k: int)
    requires
        0 <= k < j <= s.len(),
        !white_char(s[k]),
    ensures
        last_nonwhite_end(s, j) >= k + 1,
    decreases j,
{
    if white_char(s[j - 1]) {
        lemma_last_nonwhite_past(s, j - 1, k);
    }
}

/// Computes `first_nonwhite(s@, 0)`.
pub fn trim_start_idx(s: &Vec<char>) -> (r: usize)
    ensures
        r == first_nonwhite(s@, 0),
        r <= s@.len(),
{
    let n = s.len();
    let mut i: usize = 0;
    while i < n
        invariant
            n == s@.len(),
            i <= n,
            first_nonwhite(s@, 0) == first_nonwhite(s@, i as int),
        decreases n - i,
    {
        if !s[i].is_whitespace() {
            return i;
        }
        i = i + 1;
    }
    n
}

/// Computes `last_nonwhite_end(s@, s@.len())`.
pub fn trim_end_idx(s: &Vec<char>) -> (r: usize)
    ensures
        r == last_nonwhite_end(s@, s@.len() as int),
        r <= s@.len(),
{
    let n = s.len();
    let mut j: usize = n;
    while j > 0
        invariant
            n == s@.len(),
            j <= n,
            last_nonwhite_end(s@, n as int) == last_nonwhite_end(s@, j as int),
        decreases j,
    {
        if !s[j - 1].is_whitespace() {
            return j;
        }
        j = j - 1;
    }
    0
}

// ---------------------------------------------------------------------------
// Lexicographic order on character sequences (by code point, the order of
// Rust's `str` comparison).
// ---------------------------------------------------------------------------
pub open spec fn lex_lt(a: Seq<char>, b: Seq<char>) -> bool
    decreases a.len(),
{
    if b.len() == 0 {
        false
    } else if a.len() == 0 {
        true
    } else if a[0] == b[0] {
        lex_lt(a.skip(1), b.skip(1))
    } else {
        (a[0] as u32) < (b[0] as u32)
    }
}

/// Two characters are the same exactly when their code points are.
proof fn lemma_char_inj(c1: char, c2: char)
    ensures
        (c1 as u32 == c2 as u32) <==> c1 == c2,
{
}

pub proof fn lemma_lex_lt_trichotomy(a: Seq<char>, b: Seq<char>)
    ensures
        lex_lt(a, b) || lex_lt(b, a) || a == b,
    decreases a.len(),
{
    if a.len() == 0 && b.len() == 0 {
        assert(a =~= b);
    } else if a.len() > 0 && b.len() > 0 {
        if a[0] == b[0] {
            lemma_lex_lt_trichotomy(a.skip(1), b.skip(1));
            if a.skip(1) == b.skip(1) {
                assert(a.len() == a.skip(1).len() + 1);
                assert(b.len() == b.skip(1).len() + 1);
                assert forall|i: int| 0 <= i < a.len() implies a[i] == b[i] by {
                    if i >= 1 {
                        assert(a.skip(1)[i - 1] == a[i]);
                        assert(b.skip(1)[i - 1] == b[i]);
                    }
                }
                assert(a =~= b);
            }
        } else {
            lemma_char_inj(a[0], b[0]);
        }
    }
}

pub proof fn lemma_lex_lt_irreflexive(a: Seq<char>)
    ensures
        !lex_lt(a, a),
    decreases a.len(),
{
    if a.len() > 0 {
        lemma_lex_lt_irreflexive(a.skip(1));
    }
}

pub proof fn lemma_lex_lt_transitive(a: Seq<char>, b: Seq<char>, c: Seq<char>)
    requires
        lex_lt(a, b),
        lex_lt(b, c),
    ensures
        lex_lt(a, c),
    decreases a.len(),
{
    if a.len() > 0 && b.len() > 0 && c.len() > 0 {
        if (a[0] as u32) == (b[0] as u32) && (b[0] as u32) == (c[0] as u32) {
            lemma_lex_lt_transitive(a.skip(1), b.skip(1), c.skip(1));
        }
    }
}

/// Lexicographic comparison of two strings.
pub fn str_lt(a: &str, b: &str) -> (r: bool)
    ensures
        r == lex_lt(a@, b@),
{
    let na = a.unicode_len();
    let nb = b.unicode_len();
    let mut i: usize = 0;
    proof {
        assert(a@.skip(0) =~= a@);
        assert(b@.skip(0) =~= b@);
    }
    loop
        invariant
            na == a@.len(),
            nb == b@.len(),
            i <= na,
            i <= nb,
            lex_lt(a@, b@) == lex_lt(a@.skip(i as int), b@.skip(i as int)),
        decreases na - i,
    {
        if i >= nb {
            proof {
                assert(b@.skip(i as int).len() == 0);
            }
            return false;
        }
        if i >= na {
            proof {
                assert(a@.skip(i as int).len() == 0 && b@.skip(i as int).len() > 0);
            }
            return true;
        }
        let ca = a.get_char(i) as u32;
        let cb = b.get_char(i) as u32;
        proof {
            assert(a@.skip(i as int)[0] == a@[i as int]);
            assert(b@.skip(i as int)[0] == b@[i as int]);
        }
        if ca < cb {
            return true;
        }
        if ca > cb {
            return false;
        }
        proof {
            lemma_char_inj(a@[i as int], b@[i as int]);
            assert(a@.skip(i as int).skip(1) =~= a@.skip(i + 1));
            assert(b@.skip(i as int).skip(1) =~= b@.skip(i + 1));
        }
        i = i + 1;
    }
}

// ---------------------------------------------------------------------------
// Decimal rendering.
// ---------------------------------------------------------------------------
/// The decimal digit character for `n` < 10.
pub open spec fn dec_digit(n: nat) -> char {
    if n == 0 {
        '0'
    } else if n == 1 {
        '1'
    } else if n == 2 {
        '2'
    } else if n == 3 {
        '3'
    } else if n == 4 {
        '4'
    } else if n == 5 {
        '5'
    } else if n == 6 {
        '6'
    } else if n == 7 {
        '7'
    } else if n == 8 {
        '8'
    } else {
        '9'
    }
}

/// The decimal text of `n`, without sign or leading zeros.
pub open spec fn dec_rep(n: nat) -> Seq<char>
    decreases n,
{
    if n < 10 {
        seq![dec_digit(n)]
    } else {
        dec_rep(n / 10).push(dec_digit(n % 10))
    }
}

fn digit_str(d: u64) -> (s: String)
    requires
        d < 10,
    ensures
        s@ == seq![dec_digit(d as nat)],
{
    proof {
        reveal_strlit("0");
        reveal_strlit("1");
        reveal_strlit("2");
        reveal_strlit("3");
        reveal_strlit("4");
        reveal_strlit("5");
        reveal_strlit("6");
        reveal_strlit("7");
        reveal_strlit("8");
        reveal_strlit("9");
    }
    let s = if d == 0 {
        String::from_str("0")
    } else if d == 1 {
        String::from_str("1")
    } else if d == 2 {
        String::from_str("2")
    } else if d == 3 {
        String::from_str("3")
    } else if d == 4 {
        String::from_str("4")
    } else if d == 5 {
        String::from_str("5")
    } else if d == 6 {
        String::from_str("6")
    } else if d == 7 {
        String::from_str("7")
    } else {
        String::from_str("8")
    };
    if d <= 8 {
        proof {
            assert(s@ =~= seq![dec_digit(d as nat)]);
        }
        s
    } else {
        let s9 = String::from_str("9");
        proof {
            assert(s9@ =~= seq![dec_digit(d as nat)]);
        }
        s9
    }
}

/// Renders `n` in decimal.
pub fn u64_to_string(n: u64) -> (s: String)
    ensures
        s@ == dec_rep(n as nat),
    decreases n,
{
    if n < 10 {
        digit_str(n)
    } else {
        let mut s = u64_to_string(n / 10);
        let d = digit_str(n % 10);
        s.append(d.as_str());
        proof {
            assert(s@ =~= dec_rep((n / 10) as nat).push(dec_digit((n % 10) as nat)));
        }
        s
    }
}

} // verus!
