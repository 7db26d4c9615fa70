//! Character-level text operations shared by the sanitizer, the URL rules and the
//! command-line builders, each with a specification over `Seq<char>`.
use vstd::prelude::*;

verus! {

// ---------------------------------------------------------------------------
// What std's Unicode tables decide
// ---------------------------------------------------------------------------

/// Whether a character has Unicode's `White_Space` property, which
/// `char::is_whitespace` tests: tab, line feed, vertical tab, form feed,
/// carriage return, space, next line, no-break space, ogham space mark, the
/// spaces U+2000 to U+200A, line and paragraph separators, narrow no-break
/// space, medium mathematical space and ideographic space.
pub open spec fn char_is_whitespace(c: char) -> bool {
    let u = c as u32;
    (0x09 <= u && u <= 0x0D) || u == 0x20 || u == 0x85 || u == 0xA0 || u == 0x1680 || (0x2000
        <= u && u <= 0x200A) || u == 0x2028 || u == 0x2029 || u == 0x202F || u == 0x205F || u
        == 0x3000
}

/// Whether `char::is_alphanumeric` holds of a character (Unicode `Alphabetic` or `Numeric`).
pub uninterp spec fn char_is_alphanumeric(c: char) -> bool;

/// What `str::to_lowercase` returns for a string.
pub uninterp spec fn str_to_lowercase(s: Seq<char>) -> Seq<char>;

/// What `str::to_uppercase` returns for a string.
pub uninterp spec fn str_to_uppercase(s: Seq<char>) -> Seq<char>;

/// `char::is_whitespace`: the contract claims the answer is Unicode's
/// `White_Space` property, as `char_is_whitespace` lists it.
#[verifier::external_body]
pub(crate) fn is_whitespace(c: char) -> (r: bool)
    ensures
        r == char_is_whitespace(c),
{
    c.is_whitespace()
}

/// `char::is_alphanumeric`: the contract claims only that the answer is a fixed
/// function of the character, named `char_is_alphanumeric`.
#[verifier::external_body]
pub(crate) fn is_alphanumeric(c: char) -> (r: bool)
    ensures
        r == char_is_alphanumeric(c),
{
    c.is_alphanumeric()
}

/// `str::to_lowercase`: the contract claims only that the result is a fixed
/// function of the input, named `str_to_lowercase`.
#[verifier::external_body]
pub(crate) fn to_lowercase(s: &str) -> (r: String)
    ensures
        r@ == str_to_lowercase(s@),
{
    s.to_lowercase()
}

/// A character with ASCII lower-case letters made upper-case.
pub open spec fn ascii_upper(c: char) -> char {
    if 'a' <= c && c <= 'z' {
        ((c as u32) - 32) as char
    } else {
        c
    }
}

/// Every character is ASCII.
pub open spec fn all_ascii(s: Seq<char>) -> bool {
    forall|i: int| 0 <= i < s.len() ==> (s[i] as u32) < 0x80
}

/// ASCII upper-casing of a string.
pub open spec fn upper_ascii(s: Seq<char>) -> Seq<char> {
    s.map_values(|c: char| ascii_upper(c))
}

/// `str::to_uppercase`: the contract claims that the result is a fixed
/// function of the input, named `str_to_uppercase`, and what the documented
/// character-by-character Unicode mapping gives: every character maps to at
/// least one, the upper-cased form of a prefix is a prefix of the result, and
/// ASCII letters map to their ASCII capitals, other ASCII characters to
/// themselves.
#[verifier::external_body]
pub(crate) fn to_uppercase(s: &str) -> (r: String)
    ensures
        r@ == str_to_uppercase(s@),
        r@.len() >= s@.len(),
        forall|k: int| 0 <= k <= s@.len() ==> has_prefix(r@, #[trigger] str_to_uppercase(s@.take(k))),
        forall|k: int|
            0 <= k <= s@.len() && all_ascii(#[trigger] s@.take(k)) ==> has_prefix(
                r@,
                upper_ascii(s@.take(k)),
            ),
{
    s.to_uppercase()
}

/// `String::push`: appends one character at the end.
#[verifier::external_body]
pub(crate) fn push_char(s: &mut String, c: char)
    ensures
        final(s)@ == old(s)@.push(c),
{
    s.push(c);
}

/// `String::push_str`: appends a string slice at the end.
#[verifier::external_body]
pub(crate) fn push_str(s: &mut String, t: &str)
    ensures
        final(s)@ == old(s)@ + t@,
{
    s.push_str(t);
}

// ---------------------------------------------------------------------------
// Specifications
// ---------------------------------------------------------------------------

/// `p` is a prefix of `s`.
pub open spec fn has_prefix(s: Seq<char>, p: Seq<char>) -> bool {
    p.len() <= s.len() && s.take(p.len() as int) == p
}

/// `p` is a suffix of `s`.
pub open spec fn has_suffix(s: Seq<char>, p: Seq<char>) -> bool {
    p.len() <= s.len() && s.skip(s.len() - p.len()) == p
}

/// `p` occurs in `s` at position `i`.
pub open spec fn occurs_at(s: Seq<char>, p: Seq<char>, i: int) -> bool {
    0 <= i && i + p.len() <= s.len() && s.subrange(i, i + p.len()) == p
}

/// `p` occurs somewhere in `s` (the empty pattern occurs in every string).
pub open spec fn contains_seq(s: Seq<char>, p: Seq<char>) -> bool {
    exists|i: int| occurs_at(s, p, i)
}

/// `c` occurs in `s`.
pub open spec fn contains_char(s: Seq<char>, c: char) -> bool {
    exists|i: int| 0 <= i < s.len() && s[i] == c
}

/// Drops leading characters while `p` holds of them.
pub open spec fn trim_start_by(s: Seq<char>, p: spec_fn(char) -> bool) -> Seq<char>
    decreases s.len(),
{
    if s.len() > 0 && p(s[0]) {
        trim_start_by(s.drop_first(), p)
    } else {
        s
    }
}

/// Drops trailing characters while `p` holds of them.
pub open spec fn trim_end_by(s: Seq<char>, p: spec_fn(char) -> bool) -> Seq<char>
    decreases s.len(),
{
    if s.len() > 0 && p(s.last()) {
        trim_end_by(s.drop_last(), p)
    } else {
        s
    }
}

/// The predicate of `str::trim`: Unicode white space.
pub open spec fn ws_pred() -> spec_fn(char) -> bool {
    |c: char| char_is_whitespace(c)
}

/// The predicate of `trim_*_matches(c)` for one character.
pub open spec fn eq_pred(c: char) -> spec_fn(char) -> bool {
    |x: char| x == c
}

/// `str::trim`: white space removed at both ends.
pub open spec fn trim_ws(s: Seq<char>) -> Seq<char> {
    trim_end_by(trim_start_by(s, ws_pred()), ws_pred())
}

/// `str::trim_end_matches(c)` for a single character.
pub open spec fn trim_end_char(s: Seq<char>, c: char) -> Seq<char> {
    trim_end_by(s, eq_pred(c))
}

/// `str::trim_matches(c)` for a single character.
pub open spec fn trim_char(s: Seq<char>, c: char) -> Seq<char> {
    trim_end_by(trim_start_by(s, eq_pred(c)), eq_pred(c))
}

/// `str::trim_start_matches(p)` for a non-empty pattern: every leading copy removed.
pub open spec fn strip_prefix_all(s: Seq<char>, p: Seq<char>) -> Seq<char>
    decreases s.len(),
{
    if p.len() > 0 && has_prefix(s, p) {
        strip_prefix_all(s.skip(p.len() as int), p)
    } else {
        s
    }
}

/// Number of bytes in the UTF-8 encoding of one character.
pub open spec fn char_width(c: char) -> nat {
    if (c as u32) < 0x80 {
        1
    } else if (c as u32) < 0x800 {
        2
    } else if (c as u32) < 0x10000 {
        3
    } else {
        4
    }
}

/// Number of bytes in the UTF-8 encoding of a string.
pub open spec fn utf8_width(s: Seq<char>) -> nat
    decreases s.len(),
{
    if s.len() == 0 {
        0
    } else {
        char_width(s[0]) + utf8_width(s.drop_first())
    }
}

/// The view of a list of strings.
pub open spec fn strings_view(v: Seq<String>) -> Seq<Seq<char>> {
    v.map_values(|s: String| s@)
}

/// The view of a list of character vectors.
pub open spec fn lists_view(v: Seq<Vec<char>>) -> Seq<Seq<char>> {
    v.map_values(|p: Vec<char>| p@)
}

/// `str::split(c)`: the pieces between occurrences of `c`, always at least one.
pub open spec fn split_on(s: Seq<char>, c: char) -> Seq<Seq<char>>
    decreases s.len(),
{
    if s.len() == 0 {
        seq![Seq::empty()]
    } else {
        let r = split_on(s.drop_last(), c);
        if s.last() == c {
            r.push(Seq::empty())
        } else {
            r.update(r.len() - 1, r.last().push(s.last()))
        }
    }
}

/// `str::split_whitespace`: the maximal runs of non-white-space characters.
pub open spec fn ws_tokens(s: Seq<char>) -> Seq<Seq<char>>
    decreases s.len(),
{
    if s.len() == 0 {
        Seq::empty()
    } else {
        let r = ws_tokens(s.drop_last());
        let c = s.last();
        if char_is_whitespace(c) {
            r
        } else if s.len() >= 2 && !char_is_whitespace(s[s.len() - 2]) {
            r.update(r.len() - 1, r.last().push(c))
        } else {
            r.push(seq![c])
        }
    }
}

/// The character of a decimal or hexadecimal digit (lower case).
pub open spec fn digit_char(d: nat) -> char {
    seq!['0', '1', '2', '3', '4', '5', '6', '7', '8', '9', 'a', 'b', 'c', 'd', 'e', 'f'][d as int]
}

/// The decimal notation of a number, without leading zeros.
pub open spec fn decimal(n: nat) -> Seq<char>
    decreases n,
{
    if n < 10 {
        seq![digit_char(n)]
    } else {
        decimal(n / 10).push(digit_char(n % 10))
    }
}

/// The decimal notation of a number, padded with zeros to at least two digits
/// (`format!("{:02}", n)`).
pub open spec fn decimal2(n: nat) -> Seq<char> {
    if n < 10 {
        seq!['0', digit_char(n)]
    } else {
        decimal(n)
    }
}

// ---------------------------------------------------------------------------
// Lemmas
// ---------------------------------------------------------------------------

/// A string of white space alone trims to nothing.
pub proof fn lemma_trim_blank(s: Seq<char>)
    requires
        forall|i: int| 0 <= i < s.len() ==> char_is_whitespace(#[trigger] s[i]),
    ensures
        trim_ws(s).len() == 0,
    decreases s.len(),
{
    if s.len() > 0 {
        assert forall|i: int| 0 <= i < s.drop_first().len() implies char_is_whitespace(
            #[trigger] s.drop_first()[i],
        ) by {
            assert(s.drop_first()[i] == s[i + 1]);
        }
        lemma_trim_blank(s.drop_first());
        assert(trim_start_by(s, ws_pred()) == trim_start_by(s.drop_first(), ws_pred()));
    }
}

/// The width of a concatenation is the sum of the widths.
pub proof fn lemma_width_concat(a: Seq<char>, b: Seq<char>)
    ensures
        utf8_width(a + b) == utf8_width(a) + utf8_width(b),
    decreases a.len(),
{
    if a.len() == 0 {
        assert(a + b =~= b);
    } else {
        lemma_width_concat(a.drop_first(), b);
        assert((a + b).drop_first() =~= a.drop_first() + b);
    }
}

/// Extending a prefix by one character adds that character's width.
pub proof fn lemma_width_take_step(s: Seq<char>, k: int)
    requires
        0 <= k < s.len(),
    ensures
        utf8_width(s.take(k + 1)) == utf8_width(s.take(k)) + char_width(s[k]),
{
    assert(s.take(k + 1) =~= s.take(k) + seq![s[k]]);
    lemma_width_concat(s.take(k), seq![s[k]]);
    assert(seq![s[k]].drop_first() =~= Seq::<char>::empty());
    assert(utf8_width(Seq::<char>::empty()) == 0);
    assert(utf8_width(seq![s[k]]) == char_width(s[k]) + utf8_width(seq![s[k]].drop_first()));
}

/// Widths of prefixes grow strictly with the prefix length.
pub proof fn lemma_width_take_monotone(s: Seq<char>, i: int, j: int)
    requires
        0 <= i <= j <= s.len(),
    ensures
        utf8_width(s.take(i)) + (j - i) <= utf8_width(s.take(j)),
    decreases j - i,
{
    if i < j {
        lemma_width_take_monotone(s, i, j - 1);
        lemma_width_take_step(s, j - 1);
    }
}

/// The UTF-8 encoding that vstd gives a string has `utf8_width` bytes.
pub proof fn lemma_width_is_encoded_len(s: Seq<char>)
    ensures
        vstd::utf8::encode_utf8(s).len() == utf8_width(s),
    decreases s.len(),
{
    if s.len() > 0 {
        lemma_width_is_encoded_len(s.drop_first());
        vstd::utf8::char_is_scalar(s[0]);
    }
}

// ---------------------------------------------------------------------------
// Executable operations
// ---------------------------------------------------------------------------

/// An owned copy of a string slice.
pub fn owned(s: &str) -> (r: String)
    ensures
        r@ == s@,
{
    s.to_owned()
}

/// The characters of a string slice, in order.
pub fn chars_of(s: &str) -> (v: Vec<char>)
    ensures
        v@ == s@,
{
    let mut v: Vec<char> = Vec::new();
    for c in it: s.chars()
        invariant
            v@ == it.seq().take(it.index() as int),
            it.seq() == s@,
    {
        v.push(c);
    }
    v
}

/// A string made of the characters `v[from..to]`.
pub fn string_of_range(v: &Vec<char>, from: usize, to: usize) -> (r: String)
    requires
        from <= to <= v.len(),
    ensures
        r@ == v@.subrange(from as int, to as int),
{
    let mut r = String::new();
    let mut i = from;
    while i < to
        invariant
            from <= i <= to <= v.len(),
            r@ == v@.subrange(from as int, i as int),
        decreases to - i,
    {
        push_char(&mut r, v[i]);
        assert(v@.subrange(from as int, i + 1) =~= v@.subrange(from as int, i as int).push(v@[i as int]));
        i = i + 1;
    }
    r
}

/// A string made of all the characters of `v`.
pub fn string_of(v: &Vec<char>) -> (r: String)
    ensures
        r@ == v@,
{
    let r = string_of_range(v, 0, v.len());
    assert(v@.subrange(0, v@.len() as int) =~= v@);
    r
}

/// Whether `p` occurs in `s` at position `i`.
pub fn occurs_at_exec(s: &Vec<char>, p: &Vec<char>, i: usize) -> (r: bool)
    ensures
        r == occurs_at(s@, p@, i as int),
{
    if i > s.len() || p.len() > s.len() - i {
        return false;
    }
    let mut j: usize = 0;
    while j < p.len()
        invariant
            i + p.len() <= s.len(),
            0 <= j <= p.len(),
            forall|k: int| 0 <= k < j ==> s@[i + k] == p@[k],
        decreases p.len() - j,
    {
        if s[i + j] != p[j] {
            assert(s@.subrange(i as int, i + p.len())[j as int] != p@[j as int]);
            return false;
        }
        j = j + 1;
    }
    assert(s@.subrange(i as int, i + p.len()) =~= p@);
    true
}

/// Whether `s` starts with `p`.
pub fn starts_with_chars(s: &Vec<char>, p: &Vec<char>) -> (r: bool)
    ensures
        r == has_prefix(s@, p@),
{
    let r = occurs_at_exec(s, p, 0);
    proof {
        if p@.len() <= s@.len() {
            assert(s@.subrange(0, p@.len() as int) =~= s@.take(p@.len() as int));
        }
    }
    r
}

/// Whether the string `s` starts with `p`.
pub fn starts_with(s: &str, p: &str) -> (r: bool)
    ensures
        r == has_prefix(s@, p@),
{
    starts_with_chars(&chars_of(s), &chars_of(p))
}

/// Whether `p` occurs in `s`.
pub fn contains_chars(s: &Vec<char>, p: &Vec<char>) -> (r: bool)
    ensures
        r == contains_seq(s@, p@),
{
    if p.len() > s.len() {
        return false;
    }
    let last = s.len() - p.len();
    let mut i: usize = 0;
    while i < last
        invariant
            last == s.len() - p.len(),
            p.len() <= s.len(),
            0 <= i <= last,
            forall|k: int| 0 <= k < i ==> !occurs_at(s@, p@, k),
        decreases last - i,
    {
        if occurs_at_exec(s, p, i) {
            return true;
        }
        i = i + 1;
    }
    if occurs_at_exec(s, p, last) {
        return true;
    }
    assert forall|k: int| !occurs_at(s@, p@, k) by {
        if 0 <= k && k + p@.len() <= s@.len() {
            assert(k <= last);
        }
    }
    false
}

/// Whether the string `p` occurs in the string `s`.
pub fn contains(s: &str, p: &str) -> (r: bool)
    ensures
        r == contains_seq(s@, p@),
{
    contains_chars(&chars_of(s), &chars_of(p))
}

/// Whether the character `c` occurs in `s`.
pub fn contains_char_exec(s: &Vec<char>, c: char) -> (r: bool)
    ensures
        r == contains_char(s@, c),
{
    let mut i: usize = 0;
    while i < s.len()
        invariant
            0 <= i <= s.len(),
            forall|k: int| 0 <= k < i ==> s@[k] != c,
        decreases s.len() - i,
    {
        if s[i] == c {
            return true;
        }
        i = i + 1;
    }
    false
}

/// `trim_start_by` as a count: the number of leading characters it drops.
proof fn lemma_trim_start_skip(s: Seq<char>, p: spec_fn(char) -> bool, k: int)
    requires
        0 <= k <= s.len(),
        forall|j: int| 0 <= j < k ==> p(s[j]),
        k == s.len() || !p(s[k]),
    ensures
        trim_start_by(s, p) == s.skip(k),
    decreases k,
{
    if k == 0 {
        assert(s.skip(0) =~= s);
    } else {
        lemma_trim_start_skip(s.drop_first(), p, k - 1);
        assert(s.drop_first().skip(k - 1) =~= s.skip(k));
    }
}

/// `trim_end_by` as a count: the number of trailing characters it keeps.
proof fn lemma_trim_end_take(s: Seq<char>, p: spec_fn(char) -> bool, k: int)
    requires
        0 <= k <= s.len(),
        forall|j: int| k <= j < s.len() ==> p(s[j]),
        k == 0 || !p(s[k - 1]),
    ensures
        trim_end_by(s, p) == s.take(k),
    decreases s.len() - k,
{
    if k == s.len() {
        assert(s.take(k) =~= s);
    } else {
        lemma_trim_end_take(s.drop_last(), p, k);
        assert(s.drop_last().take(k) =~= s.take(k));
    }
}

/// `trim_start_by` as a count of dropped characters.
pub proof fn lemma_trim_start_skip_public(s: Seq<char>, p: spec_fn(char) -> bool, k: int)
    requires
        0 <= k <= s.len(),
        forall|j: int| 0 <= j < k ==> p(s[j]),
        k == s.len() || !p(s[k]),
    ensures
        trim_start_by(s, p) == s.skip(k),
{
    lemma_trim_start_skip(s, p, k);
}

/// Range `[from, to)` of `v` with white space trimmed at both ends.
pub fn trim_ws_range(v: &Vec<char>, from: usize, to: usize) -> (r: (usize, usize))
    requires
        from <= to <= v.len(),
    ensures
        from <= r.0 <= r.1 <= to,
        v@.subrange(r.0 as int, r.1 as int) == trim_ws(v@.subrange(from as int, to as int)),
{
    let ghost s = v@.subrange(from as int, to as int);
    let mut a = from;
    while a < to && is_whitespace(v[a])
        invariant
            from <= a <= to <= v.len(),
            s == v@.subrange(from as int, to as int),
            forall|j: int| from <= j < a ==> char_is_whitespace(v@[j]),
        decreases to - a,
    {
        a = a + 1;
    }
    proof {
        lemma_trim_start_skip(s, ws_pred(), a - from);
        assert(s.skip(a - from) =~= v@.subrange(a as int, to as int));
    }
    let ghost t = v@.subrange(a as int, to as int);
    let mut b = to;
    while b > a && is_whitespace(v[b - 1])
        invariant
            from <= a <= b <= to <= v.len(),
            t == v@.subrange(a as int, to as int),
            forall|j: int| b <= j < to ==> char_is_whitespace(v@[j]),
        decreases b - a,
    {
        b = b - 1;
    }
    proof {
        lemma_trim_end_take(t, ws_pred(), b - a);
        assert(t.take(b - a) =~= v@.subrange(a as int, b as int));
    }
    (a, b)
}

/// Range `[from, to)` of `v` with trailing copies of `c` removed.
pub fn trim_end_char_range(v: &Vec<char>, from: usize, to: usize, c: char) -> (b: usize)
    requires
        from <= to <= v.len(),
    ensures
        from <= b <= to,
        v@.subrange(from as int, b as int) == trim_end_char(v@.subrange(from as int, to as int), c),
{
    let ghost t = v@.subrange(from as int, to as int);
    let mut b = to;
    while b > from && v[b - 1] == c
        invariant
            from <= b <= to <= v.len(),
            t == v@.subrange(from as int, to as int),
            forall|j: int| b <= j < to ==> v@[j] == c,
        decreases b - from,
    {
        b = b - 1;
    }
    proof {
        lemma_trim_end_take(t, eq_pred(c), b - from);
        assert(t.take(b - from) =~= v@.subrange(from as int, b as int));
    }
    b
}

/// Range `[from, to)` of `v` with copies of `c` removed at both ends.
pub fn trim_char_range(v: &Vec<char>, from: usize, to: usize, c: char) -> (r: (usize, usize))
    requires
        from <= to <= v.len(),
    ensures
        from <= r.0 <= r.1 <= to,
        v@.subrange(r.0 as int, r.1 as int) == trim_char(v@.subrange(from as int, to as int), c),
{
    let ghost s = v@.subrange(from as int, to as int);
    let mut a = from;
    while a < to && v[a] == c
        invariant
            from <= a <= to <= v.len(),
            s == v@.subrange(from as int, to as int),
            forall|j: int| from <= j < a ==> v@[j] == c,
        decreases to - a,
    {
        a = a + 1;
    }
    proof {
        lemma_trim_start_skip(s, eq_pred(c), a - from);
        assert(s.skip(a - from) =~= v@.subrange(a as int, to as int));
    }
    let b = trim_end_char_range(v, a, to, c);
    (a, b)
}

/// Whether two strings are equal.
pub fn eq_str(a: &str, b: &str) -> (r: bool)
    ensures
        r == (a@ == b@),
{
    let av = chars_of(a);
    let bv = chars_of(b);
    if av.len() != bv.len() {
        return false;
    }
    let r = starts_with_chars(&av, &bv);
    assert(av@.take(bv@.len() as int) =~= av@);
    r
}

/// The concatenation of two strings.
pub fn concat(a: &str, b: &str) -> (r: String)
    ensures
        r@ == a@ + b@,
{
    let mut r = owned(a);
    push_str(&mut r, b);
    r
}

/// `split_on` never yields an empty list of pieces.
pub proof fn lemma_split_nonempty(s: Seq<char>, c: char)
    ensures
        split_on(s, c).len() >= 1,
    decreases s.len(),
{
    if s.len() > 0 {
        lemma_split_nonempty(s.drop_last(), c);
    }
}

/// `str::split(c)`.
pub fn split_char(s: &str, c: char) -> (r: Vec<String>)
    ensures
        strings_view(r@) == split_on(s@, c),
{
    let v = chars_of(s);
    let mut parts: Vec<Vec<char>> = Vec::new();
    parts.push(Vec::new());
    let mut i: usize = 0;
    assert(v@.take(0) =~= Seq::<char>::empty());
    while i < v.len()
        invariant
            0 <= i <= v.len(),
            parts@.len() >= 1,
            lists_view(parts@) == split_on(v@.take(i as int), c),
        decreases v.len() - i,
    {
        assert(v@.take(i + 1).drop_last() =~= v@.take(i as int));
        let ghost before = lists_view(parts@);
        if v[i] == c {
            parts.push(Vec::new());
            assert(lists_view(parts@) =~= before.push(Seq::empty()));
        } else {
            let last = parts.len() - 1;
            let mut piece = parts.remove(last);
            piece.push(v[i]);
            parts.push(piece);
            assert(lists_view(parts@) =~= before.update(
                before.len() - 1,
                before.last().push(v@[i as int]),
            ));
        }
        i = i + 1;
    }
    assert(v@.take(v@.len() as int) =~= v@);
    let mut r: Vec<String> = Vec::new();
    let mut j: usize = 0;
    while j < parts.len()
        invariant
            0 <= j <= parts.len(),
            strings_view(r@) == lists_view(parts@.take(j as int)),
        decreases parts.len() - j,
    {
        let piece = string_of(&parts[j]);
        let ghost before = r@;
        r.push(piece);
        assert(r@ =~= before.push(piece));
        assert(strings_view(r@) =~= strings_view(before).push(piece@));
        assert(parts@.take(j + 1) =~= parts@.take(j as int).push(parts@[j as int]));
        assert(lists_view(parts@.take(j + 1)) =~= lists_view(parts@.take(j as int)).push(parts@[j as int]@));
        assert(strings_view(r@) =~= lists_view(parts@.take(j + 1)));
        j = j + 1;
    }
    assert(parts@.take(parts@.len() as int) =~= parts@);
    r
}

/// `str::split_whitespace`.
pub fn split_whitespace(s: &str) -> (r: Vec<String>)
    ensures
        strings_view(r@) == ws_tokens(s@),
{
    let v = chars_of(s);
    let mut parts: Vec<Vec<char>> = Vec::new();
    let mut i: usize = 0;
    assert(v@.take(0) =~= Seq::<char>::empty());
    while i < v.len()
        invariant
            0 <= i <= v.len(),
            lists_view(parts@) == ws_tokens(v@.take(i as int)),
            i > 0 && !char_is_whitespace(v@[i - 1]) ==> parts@.len() > 0,
        decreases v.len() - i,
    {
        assert(v@.take(i + 1).drop_last() =~= v@.take(i as int));
        let ghost before = lists_view(parts@);
        let c = v[i];
        if is_whitespace(c) {
        } else if i >= 1 && !is_whitespace(v[i - 1]) {
            let last = parts.len() - 1;
            let mut piece = parts.remove(last);
            piece.push(c);
            parts.push(piece);
            assert(lists_view(parts@) =~= before.update(
                before.len() - 1,
                before.last().push(c),
            ));
        } else {
            let mut piece: Vec<char> = Vec::new();
            piece.push(c);
            parts.push(piece);
            assert(lists_view(parts@) =~= before.push(seq![c]));
        }
        i = i + 1;
    }
    assert(v@.take(v@.len() as int) =~= v@);
    let mut r: Vec<String> = Vec::new();
    let mut j: usize = 0;
    while j < parts.len()
        invariant
            0 <= j <= parts.len(),
            strings_view(r@) == lists_view(parts@.take(j as int)),
        decreases parts.len() - j,
    {
        let piece = string_of(&parts[j]);
        let ghost before = r@;
        r.push(piece);
        assert(r@ =~= before.push(piece));
        assert(strings_view(r@) =~= strings_view(before).push(piece@));
        assert(parts@.take(j + 1) =~= parts@.take(j as int).push(parts@[j as int]));
        assert(lists_view(parts@.take(j + 1)) =~= lists_view(parts@.take(j as int)).push(parts@[j as int]@));
        assert(strings_view(r@) =~= lists_view(parts@.take(j + 1)));
        j = j + 1;
    }
    assert(parts@.take(parts@.len() as int) =~= parts@);
    r
}

/// Appends an owned copy of `s` to a list of strings.
pub fn push_owned(v: &mut Vec<String>, s: &str)
    ensures
        strings_view(final(v)@) == strings_view(old(v)@).push(s@),
{
    let ghost before = v@;
    v.push(owned(s));
    assert(v@ =~= before.push(v@.last()));
    assert(strings_view(v@) =~= strings_view(before).push(s@));
}

/// The character of a digit below 16.
pub fn digit_char_exec(d: u64) -> (c: char)
    requires
        d < 16,
    ensures
        c == digit_char(d as nat),
{
    match d {
        0 => '0',
        1 => '1',
        2 => '2',
        3 => '3',
        4 => '4',
        5 => '5',
        6 => '6',
        7 => '7',
        8 => '8',
        9 => '9',
        10 => 'a',
        11 => 'b',
        12 => 'c',
        13 => 'd',
        14 => 'e',
        _ => 'f',
    }
}

/// The decimal notation of a number.
pub fn decimal_string(n: u64) -> (r: String)
    ensures
        r@ == decimal(n as nat),
    decreases n,
{
    if n < 10 {
        let mut r = String::new();
        push_char(&mut r, digit_char_exec(n));
        r
    } else {
        let mut r = decimal_string(n / 10);
        push_char(&mut r, digit_char_exec(n % 10));
        r
    }
}

/// The decimal notation of a number, at least two digits wide.
pub fn decimal2_string(n: u64) -> (r: String)
    ensures
        r@ == decimal2(n as nat),
{
    if n < 10 {
        let mut r = String::new();
        push_char(&mut r, '0');
        push_char(&mut r, digit_char_exec(n));
        r
    } else {
        decimal_string(n)
    }
}

/// `str::trim`.
pub fn trim(s: &str) -> (r: String)
    ensures
        r@ == trim_ws(s@),
{
    let v = chars_of(s);
    let (a, b) = trim_ws_range(&v, 0, v.len());
    assert(v@.subrange(0, v@.len() as int) =~= v@);
    string_of_range(&v, a, b)
}

} // verus!
