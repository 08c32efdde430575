//! Text primitives over sequences of characters: whitespace, trimming,
//! searching, splitting into words and reading decimal numbers.

use vstd::prelude::*;
use vstd::string::*;

verus! {

/// The characters that count as whitespace (the Unicode `White_Space` property).
pub open spec fn is_space(c: char) -> bool {
    let n = c as u32;
    (0x09 <= n <= 0x0D) || n == 0x20 || n == 0x85 || n == 0xA0 || n == 0x1680 || (0x2000 <= n
        <= 0x200A) || n == 0x2028 || n == 0x2029 || n == 0x202F || n == 0x205F || n == 0x3000
}

pub fn char_is_space(c: char) -> (r: bool)
    ensures
        r == is_space(c),
{
    let n: u32 = c as u32;
    (0x09 <= n && n <= 0x0D) || n == 0x20 || n == 0x85 || n == 0xA0 || n == 0x1680 || (0x2000
        <= n && n <= 0x200A) || n == 0x2028 || n == 0x2029 || n == 0x202F || n == 0x205F || n
        == 0x3000
}

/// The first position at or after `i` that holds no whitespace (the length if there is none).
pub open spec fn skip_spaces(s: Seq<char>, i: int) -> int
    decreases s.len() - i,
{
    if 0 <= i < s.len() && is_space(s[i]) {
        skip_spaces(s, i + 1)
    } else {
        i
    }
}

/// The first position at or after `i` that holds whitespace (the length if there is none).
pub open spec fn skip_word(s: Seq<char>, i: int) -> int
    decreases s.len() - i,
{
    if 0 <= i < s.len() && !is_space(s[i]) {
        skip_word(s, i + 1)
    } else {
        i
    }
}

/// The least position `j >= lo` such that everything in `[j, hi)` is whitespace.
pub open spec fn back_spaces(s: Seq<char>, lo: int, hi: int) -> int
    decreases hi - lo,
{
    if lo < hi <= s.len() && 0 <= lo && is_space(s[hi - 1]) {
        back_spaces(s, lo, hi - 1)
    } else {
        hi
    }
}

pub open spec fn trim_start(s: Seq<char>) -> int {
    skip_spaces(s, 0)
}

pub open spec fn trim_end(s: Seq<char>) -> int {
    back_spaces(s, trim_start(s), s.len() as int)
}

/// `s` without its leading and trailing whitespace.
pub open spec fn trimmed(s: Seq<char>) -> Seq<char> {
    s.subrange(trim_start(s), trim_end(s))
}

pub proof fn lemma_skip_spaces(s: Seq<char>, i: int)
    requires
        0 <= i <= s.len(),
    ensures
        i <= skip_spaces(s, i) <= s.len(),
        skip_spaces(s, i) < s.len() ==> !is_space(s[skip_spaces(s, i)]),
        forall|k: int| i <= k < skip_spaces(s, i) ==> is_space(#[trigger] s[k]),
    decreases s.len() - i,
{
    if i < s.len() && is_space(s[i]) {
        lemma_skip_spaces(s, i + 1);
    }
}

pub proof fn lemma_skip_word(s: Seq<char>, i: int)
    requires
        0 <= i <= s.len(),
    ensures
        i <= skip_word(s, i) <= s.len(),
        skip_word(s, i) < s.len() ==> is_space(s[skip_word(s, i)]),
        i < s.len() && !is_space(s[i]) ==> i < skip_word(s, i),
        forall|k: int| i <= k < skip_word(s, i) ==> !is_space(#[trigger] s[k]),
    decreases s.len() - i,
{
    if i < s.len() && !is_space(s[i]) {
        lemma_skip_word(s, i + 1);
    }
}

pub proof fn lemma_back_spaces(s: Seq<char>, lo: int, hi: int)
    requires
        0 <= lo <= hi <= s.len(),
    ensures
        lo <= back_spaces(s, lo, hi) <= hi,
        lo < back_spaces(s, lo, hi) ==> !is_space(s[back_spaces(s, lo, hi) - 1]),
        forall|k: int| back_spaces(s, lo, hi) <= k < hi ==> is_space(#[trigger] s[k]),
    decreases hi - lo,
{
    if lo < hi && is_space(s[hi - 1]) {
        lemma_back_spaces(s, lo, hi - 1);
    }
}

/// The trimmed text is a slice of the text that neither begins nor ends with
/// whitespace, and all that was cut away is whitespace.
pub proof fn lemma_trimmed(s: Seq<char>)
    ensures
        0 <= trim_start(s) <= trim_end(s) <= s.len(),
        trimmed(s).len() == trim_end(s) - trim_start(s),
        trimmed(s).len() > 0 ==> !is_space(trimmed(s)[0]) && !is_space(trimmed(s).last()),
        forall|k: int| 0 <= k < trim_start(s) ==> is_space(#[trigger] s[k]),
        forall|k: int| trim_end(s) <= k < s.len() ==> is_space(#[trigger] s[k]),
{
    lemma_skip_spaces(s, 0);
    lemma_back_spaces(s, trim_start(s), s.len() as int);
}

/// The characters of a string, one by one.
pub fn to_chars(s: &str) -> (out: Vec<char>)
    ensures
        out@ == s@,
{
    let n: usize = s.unicode_len();
    let mut out: Vec<char> = Vec::new();
    let mut i: usize = 0;
    while i < n
        invariant
            i <= n,
            n == s@.len(),
            out@ == s@.subrange(0, i as int),
        decreases n - i,
    {
        out.push(s.get_char(i));
        i += 1;
        assert(out@ =~= s@.subrange(0, i as int));
    }
    assert(out@ =~= s@);
    out
}

/// The bounds of the trimmed text within `v`.
pub fn trim_bounds(v: &Vec<char>) -> (r: (usize, usize))
    ensures
        r.0 == trim_start(v@),
        r.1 == trim_end(v@),
        r.0 <= r.1 <= v.len(),
{
    let n: usize = v.len();
    let mut a: usize = 0;
    while a < n && char_is_space(v[a])
        invariant
            a <= n,
            n == v@.len(),
            skip_spaces(v@, 0) == skip_spaces(v@, a as int),
        decreases n - a,
    {
        a += 1;
    }
    let mut b: usize = n;
    while a < b && char_is_space(v[b - 1])
        invariant
            a <= b <= n,
            n == v@.len(),
            back_spaces(v@, a as int, n as int) == back_spaces(v@, a as int, b as int),
        decreases b - a,
    {
        b -= 1;
    }
    (a, b)
}

/// `needle` stands in `hay` at position `i`.
pub open spec fn occurs_at(hay: Seq<char>, needle: Seq<char>, i: int) -> bool {
    0 <= i && i + needle.len() <= hay.len() && hay.subrange(i, i + needle.len()) == needle
}

/// `needle` stands somewhere in `hay`.
pub open spec fn contains(hay: Seq<char>, needle: Seq<char>) -> bool {
    exists|i: int| occurs_at(hay, needle, i)
}

/// The first position at or after `i` at which `needle` stands in `hay`.
pub open spec fn first_from(hay: Seq<char>, needle: Seq<char>, i: int) -> Option<int>
    decreases hay.len() - i,
{
    if i < 0 || i + needle.len() > hay.len() {
        None
    } else if occurs_at(hay, needle, i) {
        Some(i)
    } else if i < hay.len() {
        first_from(hay, needle, i + 1)
    } else {
        None
    }
}

/// The first position at which `needle` stands in `hay`.
pub open spec fn first_occurrence(hay: Seq<char>, needle: Seq<char>) -> Option<int> {
    first_from(hay, needle, 0)
}

/// The last position at or before `i` at which `needle` stands in `hay`.
pub open spec fn last_upto(hay: Seq<char>, needle: Seq<char>, i: int) -> Option<int>
    decreases i + 1,
{
    if i < 0 {
        None
    } else if occurs_at(hay, needle, i) {
        Some(i)
    } else {
        last_upto(hay, needle, i - 1)
    }
}

/// The last position at which `needle` stands in `hay`.
pub open spec fn last_occurrence(hay: Seq<char>, needle: Seq<char>) -> Option<int> {
    last_upto(hay, needle, hay.len() as int)
}

pub fn matches_at(hay: &Vec<char>, needle: &Vec<char>, i: usize) -> (r: bool)
    ensures
        r == occurs_at(hay@, needle@, i as int),
{
    let m: usize = needle.len();
    let n: usize = hay.len();
    if i > n || m > n - i {
        return false;
    }
    let mut j: usize = 0;
    while j < m
        invariant
            j <= m,
            m == needle@.len(),
            n == hay@.len(),
            i + m <= n,
            forall|k: int| 0 <= k < j ==> hay@[i + k] == needle@[k],
        decreases m - j,
    {
        if hay[i + j] != needle[j] {
            proof {
                let sub = hay@.subrange(i as int, i + m);
                assert(sub[j as int] != needle@[j as int]);
            }
            return false;
        }
        j += 1;
    }
    assert(hay@.subrange(i as int, i + m) =~= needle@);
    true
}

/// The first position at which `needle` stands in `hay`.
pub fn find_first(hay: &Vec<char>, needle: &Vec<char>) -> (r: Option<usize>)
    ensures
        match r {
            Some(i) => occurs_at(hay@, needle@, i as int) && forall|j: int|
                0 <= j < i ==> !occurs_at(hay@, needle@, j),
            None => !contains(hay@, needle@),
        },
        first_occurrence(hay@, needle@) == match r {
            Some(i) => Some(i as int),
            None => None,
        },
{
    let n: usize = hay.len();
    let mut i: usize = 0;
    while i <= n
        invariant
            i <= n + 1,
            n == hay@.len(),
            first_from(hay@, needle@, 0) == first_from(hay@, needle@, i as int),
            forall|j: int| 0 <= j < i ==> !occurs_at(hay@, needle@, j),
        decreases n + 1 - i,
    {
        if matches_at(hay, needle, i) {
            return Some(i);
        }
        if i == n {
            assert(forall|j: int| !occurs_at(hay@, needle@, j));
            assert(first_from(hay@, needle@, n + 1) is None);
            return None;
        }
        i += 1;
    }
    None
}

/// The last position at which `needle` stands in `hay`.
pub fn find_last(hay: &Vec<char>, needle: &Vec<char>) -> (r: Option<usize>)
    ensures
        match r {
            Some(i) => occurs_at(hay@, needle@, i as int) && forall|j: int|
                i < j ==> !occurs_at(hay@, needle@, j),
            None => !contains(hay@, needle@),
        },
        last_occurrence(hay@, needle@) == match r {
            Some(i) => Some(i as int),
            None => None,
        },
{
    let n: usize = hay.len();
    let mut i: usize = n;
    loop
        invariant
            i <= n,
            n == hay@.len(),
            last_upto(hay@, needle@, n as int) == last_upto(hay@, needle@, i as int),
            forall|j: int| i < j ==> !occurs_at(hay@, needle@, j),
        decreases i,
    {
        if matches_at(hay, needle, i) {
            return Some(i);
        }
        if i == 0 {
            assert(forall|j: int| !occurs_at(hay@, needle@, j));
            assert(last_upto(hay@, needle@, -1) is None);
            return None;
        }
        i -= 1;
    }
}

/// `needle` stands in `hay` at position `from`.
pub fn starts_with(hay: &Vec<char>, from: usize, needle: &str) -> (r: bool)
    ensures
        r == occurs_at(hay@, needle@, from as int),
{
    let n = to_chars(needle);
    matches_at(hay, &n, from)
}

/// The text without its leading and trailing whitespace.
pub fn trim(s: &str) -> (r: String)
    ensures
        r@ == trimmed(s@),
        r@.len() > 0 ==> !is_space(r@[0]) && !is_space(r@.last()),
{
    let v = to_chars(s);
    let (a, b) = trim_bounds(&v);
    proof {
        lemma_trimmed(s@);
    }
    String::from_str(s.substring_char(a, b))
}

} // verus!

verus! {

/// The view of each string of a list.
pub open spec fn texts(v: Seq<String>) -> Seq<Seq<char>> {
    v.map_values(|x: String| x@)
}

/// The words of `s` from position `i` on: the maximal runs without whitespace, in order.
pub open spec fn words_from(s: Seq<char>, i: int) -> Seq<Seq<char>>
    decreases s.len() - i,
{
    let a = skip_spaces(s, i);
    let b = skip_word(s, a);
    if 0 <= i <= a && a < b <= s.len() {
        seq![s.subrange(a, b)] + words_from(s, b)
    } else {
        Seq::empty()
    }
}

/// The words of `s`, split at whitespace.
pub open spec fn words_of(s: Seq<char>) -> Seq<Seq<char>> {
    words_from(s, 0)
}

/// A word: at least one character, and no whitespace.
pub open spec fn is_word(w: Seq<char>) -> bool {
    w.len() > 0 && forall|j: int| 0 <= j < w.len() ==> !is_space(#[trigger] w[j])
}

/// Each of the words of a text is a word.
pub proof fn lemma_words_from(s: Seq<char>, i: int)
    requires
        0 <= i <= s.len(),
    ensures
        forall|k: int| 0 <= k < words_from(s, i).len() ==> is_word(#[trigger] words_from(s, i)[k]),
    decreases s.len() - i,
{
    let a = skip_spaces(s, i);
    let b = skip_word(s, a);
    lemma_skip_spaces(s, i);
    lemma_skip_word(s, a);
    if a < b {
        lemma_words_from(s, b);
        let first = s.subrange(a, b);
        assert(is_word(first)) by {
            assert forall|j: int| 0 <= j < first.len() implies !is_space(#[trigger] first[j]) by {
                assert(first[j] == s[a + j]);
            }
        }
        assert forall|k: int| 0 <= k < words_from(s, i).len() implies is_word(
            #[trigger] words_from(s, i)[k],
        ) by {
            if k > 0 {
                assert(words_from(s, i)[k] == words_from(s, b)[k - 1]);
            }
        }
    }
}

/// Splits a text at whitespace into its words.
pub fn words(s: &str) -> (out: Vec<String>)
    ensures
        texts(out@) == words_of(s@),
        forall|k: int| 0 <= k < out@.len() ==> is_word(#[trigger] out@[k]@),
{
    proof {
        lemma_words_from(s@, 0);
    }
    let v = to_chars(s);
    let n: usize = v.len();
    let mut out: Vec<String> = Vec::new();
    let mut i: usize = 0;
    loop
        invariant
            i <= n,
            n == v@.len(),
            v@ == s@,
            words_of(s@) == texts(out@) + words_from(s@, i as int),
            forall|k: int|
                0 <= k < words_from(s@, 0).len() ==> is_word(#[trigger] words_from(s@, 0)[k]),
        decreases n - i,
    {
        let mut a: usize = i;
        while a < n && char_is_space(v[a])
            invariant
                i <= a <= n,
                n == v@.len(),
                skip_spaces(v@, i as int) == skip_spaces(v@, a as int),
            decreases n - a,
        {
            a += 1;
        }
        if a >= n {
            proof {
                assert(words_from(s@, i as int) =~= Seq::empty());
                assert(texts(out@) + words_from(s@, i as int) =~= texts(out@));
                assert forall|k: int| 0 <= k < out@.len() implies is_word(#[trigger] out@[k]@) by {
                    assert(texts(out@)[k] == out@[k]@);
                    assert(is_word(words_from(s@, 0)[k]));
                }
            }
            return out;
        }
        let mut b: usize = a;
        while b < n && !char_is_space(v[b])
            invariant
                a <= b <= n,
                n == v@.len(),
                skip_word(v@, a as int) == skip_word(v@, b as int),
            decreases n - b,
        {
            b += 1;
        }
        proof {
            lemma_skip_word(v@, a as int);
        }
        let word = String::from_str(s.substring_char(a, b));
        proof {
            let before = texts(out@);
            assert(words_from(s@, i as int) == seq![s@.subrange(a as int, b as int)] + words_from(
                s@,
                b as int,
            ));
            assert(texts(out@.push(word)) =~= before.push(word@));
            assert(before.push(word@) + words_from(s@, b as int) =~= before
                + words_from(s@, i as int));
        }
        out.push(word);
        i = b;
    }
}

/// A decimal digit.
pub open spec fn is_digit(c: char) -> bool {
    '0' <= c <= '9'
}

/// The number that the digits of `s` write in base ten.
pub open spec fn decimal_value(s: Seq<char>) -> nat
    decreases s.len(),
{
    if s.len() == 0 {
        0
    } else {
        (10 * decimal_value(s.drop_last()) + (s.last() as u32 - '0' as u32)) as nat
    }
}

/// `s` is a non-empty run of decimal digits.
pub open spec fn is_decimal(s: Seq<char>) -> bool {
    s.len() > 0 && forall|k: int| 0 <= k < s.len() ==> is_digit(#[trigger] s[k])
}

/// The digits of a number text: the text itself, without one leading plus sign.
pub open spec fn digits_of(s: Seq<char>) -> Seq<char> {
    if s.len() > 0 && s[0] == '+' {
        s.subrange(1, s.len() as int)
    } else {
        s
    }
}

/// The number that `s` writes, if it writes one: decimal digits after an optional plus sign.
pub open spec fn number_of(s: Seq<char>) -> Option<nat> {
    if is_decimal(digits_of(s)) {
        Some(decimal_value(digits_of(s)))
    } else {
        None
    }
}

/// Reads a number of at most `limit`; any other text, and any larger number, gives `None`.
pub fn parse_number(s: &str, limit: usize) -> (r: Option<usize>)
    ensures
        r == match number_of(s@) {
            Some(n) => if n <= limit { Some(n as usize) } else { None },
            None => None,
        },
{
    let v = to_chars(s);
    let n: usize = v.len();
    let start: usize = if n > 0 && v[0] == '+' { 1 } else { 0 };
    let ghost d = digits_of(v@);
    assert(d =~= v@.subrange(start as int, n as int));
    if start == n {
        return None;
    }
    let mut acc: u128 = 0;
    let mut over: bool = false;
    let mut i: usize = start;
    while i < n
        invariant
            start <= i <= n,
            n == v@.len(),
            v@ == s@,
            d == v@.subrange(start as int, n as int),
            d == digits_of(s@),
            forall|k: int| 0 <= k < i - start ==> is_digit(#[trigger] d[k]),
            !over ==> acc == decimal_value(d.subrange(0, i - start)) && acc <= limit,
            over ==> decimal_value(d.subrange(0, i - start)) > limit,
        decreases n - i,
    {
        let c: char = v[i];
        if !('0' <= c && c <= '9') {
            assert(!is_digit(d[i - start]));
            return None;
        }
        let digit: u128 = (c as u32 - '0' as u32) as u128;
        proof {
            let next = d.subrange(0, i - start + 1);
            assert(next.drop_last() =~= d.subrange(0, i - start));
            assert(next.last() == c);
        }
        if !over {
            acc = acc * 10 + digit;
            if acc > limit as u128 {
                over = true;
            }
        }
        i += 1;
    }
    assert(d.subrange(0, n - start) =~= d);
    if over {
        None
    } else {
        Some(acc as usize)
    }
}

} // verus!

verus! {

/// The two texts are the same.
pub fn same_text(hay: &Vec<char>, other: &str) -> (r: bool)
    ensures
        r == (hay@ == other@),
{
    let o = to_chars(other);
    if hay.len() != o.len() {
        return false;
    }
    let r = matches_at(hay, &o, 0);
    assert(hay@.subrange(0, hay@.len() as int) =~= hay@);
    r
}

} // verus!

verus! {

/// The position behind every leading repetition of `prefix` that begins at `i`.
pub open spec fn after_prefixes(s: Seq<char>, prefix: Seq<char>, i: int) -> int
    decreases s.len() - i,
{
    if prefix.len() > 0 && occurs_at(s, prefix, i) {
        after_prefixes(s, prefix, i + prefix.len())
    } else {
        i
    }
}

/// The position behind every leading repetition of `prefix`.
pub fn skip_prefixes(v: &Vec<char>, prefix: &str) -> (r: usize)
    ensures
        r == after_prefixes(v@, prefix@, 0),
        r <= v@.len(),
{
    let p = to_chars(prefix);
    let m: usize = p.len();
    if m == 0 {
        return 0;
    }
    let n: usize = v.len();
    let mut i: usize = 0;
    while matches_at(v, &p, i)
        invariant
            i <= v@.len(),
            n == v@.len(),
            m == p@.len(),
            m > 0,
            p@ == prefix@,
            after_prefixes(v@, prefix@, 0) == after_prefixes(v@, prefix@, i as int),
        decreases v@.len() - i,
    {
        i += m;
    }
    i
}

/// The end of the line that holds position `i`: the next line feed, or the end of the text.
pub open spec fn line_end(s: Seq<char>, i: int) -> int
    decreases s.len() - i,
{
    if 0 <= i < s.len() && s[i] != '\n' {
        line_end(s, i + 1)
    } else {
        i
    }
}

/// The end of the line that holds position `i`.
pub fn find_line_end(v: &Vec<char>, i: usize) -> (r: usize)
    requires
        i <= v@.len(),
    ensures
        r == line_end(v@, i as int),
        i <= r <= v@.len(),
{
    let n: usize = v.len();
    let mut e: usize = i;
    while e < n && v[e] != '\n'
        invariant
            i <= e <= n,
            n == v@.len(),
            line_end(v@, i as int) == line_end(v@, e as int),
        decreases n - e,
    {
        e += 1;
    }
    e
}

/// The character stands somewhere in the text.
pub fn has_char(s: &str, c: char) -> (r: bool)
    ensures
        r == s@.contains(c),
{
    let v = to_chars(s);
    let n: usize = v.len();
    let mut i: usize = 0;
    while i < n
        invariant
            i <= n,
            n == v@.len(),
            v@ == s@,
            forall|k: int| 0 <= k < i ==> v@[k] != c,
        decreases n - i,
    {
        if v[i] == c {
            assert(s@[i as int] == c);
            return true;
        }
        i += 1;
    }
    false
}

/// The brace that closes the block which is open at position `i`, `depth`
/// further blocks being open inside it.
pub open spec fn closing_brace(s: Seq<char>, i: int, depth: nat) -> Option<int>
    decreases s.len() - i,
{
    if i < 0 || i >= s.len() {
        None
    } else if s[i] == '{' {
        closing_brace(s, i + 1, depth + 1)
    } else if s[i] == '}' {
        if depth == 0 {
            Some(i)
        } else {
            closing_brace(s, i + 1, (depth - 1) as nat)
        }
    } else {
        closing_brace(s, i + 1, depth)
    }
}

/// The brace that closes the block whose inside begins at `start`.
pub fn find_closing_brace(v: &Vec<char>, start: usize) -> (r: Option<usize>)
    requires
        start <= v@.len(),
    ensures
        closing_brace(v@, start as int, 0) == match r {
            Some(q) => Some(q as int),
            None => None,
        },
        r matches Some(q) ==> start <= q < v@.len(),
{
    let n: usize = v.len();
    let mut i: usize = start;
    let mut depth: usize = 0;
    while i < n
        invariant
            start <= i <= n,
            n == v@.len(),
            depth <= i - start,
            closing_brace(v@, start as int, 0) == closing_brace(v@, i as int, depth as nat),
        decreases n - i,
    {
        let c: char = v[i];
        if c == '{' {
            depth += 1;
        } else if c == '}' {
            if depth == 0 {
                return Some(i);
            }
            depth -= 1;
        }
        i += 1;
    }
    None
}

} // verus!

verus! {

/// The start of the line that holds position `i`: the position behind the
/// last line feed before `i`, or the start of the text.
pub open spec fn line_start(s: Seq<char>, i: int) -> int
    decreases i,
{
    if 0 < i <= s.len() && s[i - 1] != '\n' {
        line_start(s, i - 1)
    } else {
        i
    }
}

/// The start of the line that holds position `i`.
pub fn find_line_start(v: &Vec<char>, i: usize) -> (r: usize)
    requires
        i <= v@.len(),
    ensures
        r == line_start(v@, i as int),
        r <= i,
{
    let mut b: usize = i;
    while b > 0 && v[b - 1] != '\n'
        invariant
            b <= i,
            i <= v@.len(),
            line_start(v@, i as int) == line_start(v@, b as int),
        decreases b,
    {
        b -= 1;
    }
    b
}

/// The text from position `i` on without any occurrence of `pattern`, the
/// occurrences being taken from left to right.
pub open spec fn without_all(s: Seq<char>, pattern: Seq<char>, i: int) -> Seq<char>
    decreases s.len() - i,
{
    if i < 0 || i >= s.len() {
        Seq::empty()
    } else if pattern.len() > 0 && occurs_at(s, pattern, i) {
        without_all(s, pattern, i + pattern.len())
    } else {
        seq![s[i]] + without_all(s, pattern, i + 1)
    }
}

/// The text from position `from` on without any occurrence of `pattern`.
pub fn remove_all(s: &str, pattern: &str, from: usize) -> (r: String)
    ensures
        r@ == without_all(s@, pattern@, from as int),
{
    let v = to_chars(s);
    let p = to_chars(pattern);
    let n: usize = v.len();
    let m: usize = p.len();
    let mut out = String::new();
    if from >= n {
        return out;
    }
    let mut kept: usize = from;
    let mut i: usize = from;
    assert(out@ + s@.subrange(kept as int, i as int) + without_all(s@, pattern@, i as int)
        =~= without_all(s@, pattern@, from as int));
    while i < n
        invariant
            from <= kept <= i <= n,
            n == v@.len(),
            m == p@.len(),
            v@ == s@,
            p@ == pattern@,
            without_all(s@, pattern@, from as int) == out@ + s@.subrange(kept as int, i as int)
                + without_all(s@, pattern@, i as int),
        decreases n - i,
    {
        let ghost before = out@;
        if m > 0 && matches_at(&v, &p, i) {
            out.append(s.substring_char(kept, i));
            i += m;
            kept = i;
            assert(out@ + s@.subrange(kept as int, i as int) + without_all(
                s@,
                pattern@,
                i as int,
            ) =~= without_all(s@, pattern@, from as int));
        } else {
            assert(s@.subrange(kept as int, i + 1) =~= s@.subrange(kept as int, i as int)
                + seq![s@[i as int]]);
            i += 1;
            assert(out@ + s@.subrange(kept as int, i as int) + without_all(
                s@,
                pattern@,
                i as int,
            ) =~= without_all(s@, pattern@, from as int));
        }
    }
    out.append(s.substring_char(kept, n));
    assert(out@ =~= without_all(s@, pattern@, from as int));
    out
}

} // verus!
