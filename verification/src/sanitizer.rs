//! File-name sanitizing for video editors and the three desktop filesystems, and
//! the names tried when a target file already exists.
use vstd::prelude::*;
use unicode_normalization::UnicodeNormalization;

use std::path::{Path, PathBuf};

use crate::paths::{
    canonical, parent_dir_flags, parent_or_self, path_dotdot_flags, path_exists, path_within, path_join, path_joined,
    path_lossy_text, path_owned, path_starts_with, path_text, path_to_buf,
};
use crate::text::{
    concat, decimal, decimal_string,
    char_is_alphanumeric, char_width, chars_of, starts_with_chars, eq_pred, has_prefix, is_alphanumeric, lemma_width_concat,
    lemma_width_take_monotone, lemma_width_take_step, owned, str_to_uppercase, string_of,
    all_ascii, upper_ascii, char_is_whitespace,
    string_of_range, to_uppercase, trim_end_by, lemma_trim_start_skip_public, trim_end_char, trim_end_char_range,
    trim_start_by, trim_ws, trim_ws_range, utf8_width, ws_pred,
};

verus! {

/// What the NFKD normalization of `unicode_normalization` returns for a string.
pub uninterp spec fn nfkd_normalized(s: Seq<char>) -> Seq<char>;

/// `UnicodeNormalization::nfkd` collected into a `String`: the contract claims only
/// that the result is a fixed function of the input, named `nfkd_normalized`.
#[verifier::external_body]
fn nfkd(s: &str) -> (r: String)
    ensures
        r@ == nfkd_normalized(s@),
{
    s.nfkd().collect()
}

/// The most bytes a sanitized name may take.
pub const MAX_NAME_BYTES: usize = 200;

// ---------------------------------------------------------------------------
// Specification
// ---------------------------------------------------------------------------

/// Characters copied unchanged into a sanitized name.
pub open spec fn is_kept_char(c: char) -> bool {
    char_is_alphanumeric(c) || c == ' ' || c == '-' || c == '_' || c == '(' || c == ')' || c
        == '.' || c == '[' || c == ']'
}

/// One step of the character filter: what `c` adds to the name built so far.
pub open spec fn filter_step(acc: Seq<char>, c: char) -> Seq<char> {
    if is_kept_char(c) {
        acc.push(c)
    } else if c == '&' {
        acc + seq!['a', 'n', 'd']
    } else if c == '+' {
        acc.push('_')
    } else if c == '@' {
        acc + seq!['a', 't']
    } else if c == '#' {
        acc + seq!['n', 'u', 'm']
    } else if c == '%' {
        acc + seq!['p', 'c', 't']
    } else if acc.len() > 0 && acc.last() != '_' {
        acc.push('_')
    } else {
        acc
    }
}

/// The character filter applied to a whole string, left to right.
pub open spec fn filter_chars(s: Seq<char>) -> Seq<char>
    decreases s.len(),
{
    if s.len() == 0 {
        Seq::empty()
    } else {
        filter_step(filter_chars(s.drop_last()), s.last())
    }
}

/// `trim().trim_end_matches('.').trim_end_matches('_').trim()`.
pub open spec fn clean_edges(s: Seq<char>) -> Seq<char> {
    trim_ws(trim_end_char(trim_end_char(trim_ws(s), '.'), '_'))
}

/// Names that Windows reserves for devices, with or without an extension.
pub open spec fn reserved_names() -> Seq<Seq<char>> {
    seq![
        "CON"@, "PRN"@, "AUX"@, "NUL"@,
        "COM1"@, "COM2"@, "COM3"@, "COM4"@, "COM5"@, "COM6"@, "COM7"@, "COM8"@, "COM9"@,
        "LPT1"@, "LPT2"@, "LPT3"@, "LPT4"@, "LPT5"@, "LPT6"@, "LPT7"@, "LPT8"@, "LPT9"@,
    ]
}

/// An upper-cased name is a reserved device name, alone or followed by `.`.
pub open spec fn is_reserved_upper(u: Seq<char>) -> bool {
    exists|i: int|
        0 <= i < reserved_names().len() && (u == reserved_names()[i] || has_prefix(
            u,
            reserved_names()[i].push('.'),
        ))
}

/// The name with `fetchr_` put before it where its upper-cased form is a
/// reserved device name.
pub open spec fn guard_reserved(c: Seq<char>) -> Seq<char> {
    if is_reserved_upper(str_to_uppercase(c)) {
        "fetchr_"@ + c
    } else {
        c
    }
}

/// The name before the length limit is applied: filtered, cleaned, never empty,
/// and prefixed with `fetchr_` when it would be a reserved device name.
pub open spec fn sanitize_stage(name: Seq<char>) -> Seq<char> {
    let c0 = clean_edges(filter_chars(nfkd_normalized(name)));
    let c1 = if c0.len() == 0 {
        "media"@
    } else {
        c0
    };
    guard_reserved(c1)
}

/// Some prefix of `s` takes exactly `n` bytes.
pub open spec fn width_boundary(s: Seq<char>, n: nat) -> bool {
    exists|k: int| 0 <= k <= s.len() && utf8_width(s.take(k)) == n
}

/// The length limit can be applied: the name is short enough, or cutting it at
/// 200 bytes does not split a character.
pub open spec fn sanitize_truncation_ok(name: Seq<char>) -> bool {
    name.len() == 0 || utf8_width(sanitize_stage(name)) <= 200 || width_boundary(
        sanitize_stage(name),
        200,
    )
}

/// The sanitized file name: a name longer than 200 bytes is cut there and
/// cleaned again, and the reserved-name guard is applied to what the cut leaves.
pub open spec fn sanitized_name(name: Seq<char>) -> Seq<char> {
    if name.len() == 0 {
        "download"@
    } else {
        let c = sanitize_stage(name);
        if utf8_width(c) <= 200 {
            c
        } else {
            guard_reserved(
                clean_edges(c.take(choose|k: int| 0 <= k <= c.len() && utf8_width(c.take(k)) == 200)),
            )
        }
    }
}

/// Characters a sanitized name may hold: the kept ones and lower-case ASCII letters.
pub open spec fn is_output_char(c: char) -> bool {
    is_kept_char(c) || ('a' <= c && c <= 'z')
}

// ---------------------------------------------------------------------------
// Lemmas
// ---------------------------------------------------------------------------

proof fn lemma_filter_take_step(s: Seq<char>, i: int)
    requires
        0 <= i < s.len(),
    ensures
        filter_chars(s.take(i + 1)) == filter_step(filter_chars(s.take(i)), s[i]),
{
    assert(s.take(i + 1).drop_last() =~= s.take(i));
}

proof fn lemma_trim_start_is_skip(s: Seq<char>, p: spec_fn(char) -> bool)
    ensures
        exists|k: int| 0 <= k <= s.len() && trim_start_by(s, p) == s.skip(k),
    decreases s.len(),
{
    if s.len() > 0 && p(s[0]) {
        lemma_trim_start_is_skip(s.drop_first(), p);
        let k = choose|k: int|
            0 <= k <= s.drop_first().len() && trim_start_by(s.drop_first(), p)
                == s.drop_first().skip(k);
        assert(s.drop_first().skip(k) =~= s.skip(k + 1));
    } else {
        assert(s.skip(0) =~= s);
    }
}

proof fn lemma_trim_end_is_take(s: Seq<char>, p: spec_fn(char) -> bool)
    ensures
        exists|k: int| 0 <= k <= s.len() && trim_end_by(s, p) == s.take(k),
    decreases s.len(),
{
    if s.len() > 0 && p(s.last()) {
        lemma_trim_end_is_take(s.drop_last(), p);
        let k = choose|k: int|
            0 <= k <= s.drop_last().len() && trim_end_by(s.drop_last(), p)
                == s.drop_last().take(k);
        assert(s.drop_last().take(k) =~= s.take(k));
    } else {
        assert(s.take(s.len() as int) =~= s);
    }
}

proof fn lemma_width_skip(s: Seq<char>, k: int)
    requires
        0 <= k <= s.len(),
    ensures
        utf8_width(s.skip(k)) <= utf8_width(s),
{
    assert(s =~= s.take(k) + s.skip(k));
    lemma_width_concat(s.take(k), s.skip(k));
}

proof fn lemma_width_take(s: Seq<char>, k: int)
    requires
        0 <= k <= s.len(),
    ensures
        utf8_width(s.take(k)) <= utf8_width(s),
{
    assert(s =~= s.take(k) + s.skip(k));
    lemma_width_concat(s.take(k), s.skip(k));
}

/// Every character that a trim keeps was in its input.
proof fn lemma_trim_chars(s: Seq<char>, p: spec_fn(char) -> bool, q: spec_fn(char) -> bool)
    requires
        forall|i: int| 0 <= i < s.len() ==> q(s[i]),
    ensures
        forall|i: int| 0 <= i < trim_start_by(s, p).len() ==> q(trim_start_by(s, p)[i]),
        forall|i: int| 0 <= i < trim_end_by(s, p).len() ==> q(trim_end_by(s, p)[i]),
        utf8_width(trim_start_by(s, p)) <= utf8_width(s),
        utf8_width(trim_end_by(s, p)) <= utf8_width(s),
{
    lemma_trim_start_is_skip(s, p);
    lemma_trim_end_is_take(s, p);
    let a = choose|k: int| 0 <= k <= s.len() && trim_start_by(s, p) == s.skip(k);
    let b = choose|k: int| 0 <= k <= s.len() && trim_end_by(s, p) == s.take(k);
    lemma_width_skip(s, a);
    lemma_width_take(s, b);
    assert forall|i: int| 0 <= i < trim_start_by(s, p).len() implies q(trim_start_by(s, p)[i]) by {
        assert(s.skip(a)[i] == s[a + i]);
    }
    assert forall|i: int| 0 <= i < trim_end_by(s, p).len() implies q(trim_end_by(s, p)[i]) by {
        assert(s.take(b)[i] == s[i]);
    }
}

/// Cleaning the edges keeps only characters of its input and never adds bytes.
proof fn lemma_clean_edges(s: Seq<char>)
    requires
        forall|i: int| 0 <= i < s.len() ==> is_output_char(s[i]),
    ensures
        forall|i: int| 0 <= i < clean_edges(s).len() ==> is_output_char(clean_edges(s)[i]),
        utf8_width(clean_edges(s)) <= utf8_width(s),
{
    let q = |c: char| is_output_char(c);
    let s1 = trim_start_by(s, ws_pred());
    lemma_trim_chars(s, ws_pred(), q);
    let s2 = trim_end_by(s1, ws_pred());
    lemma_trim_chars(s1, ws_pred(), q);
    let s3 = trim_end_by(s2, eq_pred('.'));
    lemma_trim_chars(s2, eq_pred('.'), q);
    let s4 = trim_end_by(s3, eq_pred('_'));
    lemma_trim_chars(s3, eq_pred('_'), q);
    let s5 = trim_start_by(s4, ws_pred());
    lemma_trim_chars(s4, ws_pred(), q);
    lemma_trim_chars(s5, ws_pred(), q);
}

/// The filter emits only kept characters and lower-case ASCII letters.
proof fn lemma_filter_output(s: Seq<char>)
    ensures
        forall|i: int| 0 <= i < filter_chars(s).len() ==> is_output_char(filter_chars(s)[i]),
    decreases s.len(),
{
    if s.len() > 0 {
        lemma_filter_output(s.drop_last());
        let acc = filter_chars(s.drop_last());
        let r = filter_chars(s);
        assert forall|i: int| 0 <= i < r.len() implies is_output_char(r[i]) by {
            if i < acc.len() {
                assert(r[i] == acc[i]);
            }
        }
    }
}

/// Two prefixes of the same width have the same length.
proof fn lemma_width_take_injective(s: Seq<char>, i: int, j: int)
    requires
        0 <= i <= s.len(),
        0 <= j <= s.len(),
        utf8_width(s.take(i)) == utf8_width(s.take(j)),
    ensures
        i == j,
{
    if i < j {
        lemma_width_take_monotone(s, i, j);
    } else if j < i {
        lemma_width_take_monotone(s, j, i);
    }
}

/// The reserved-name guard keeps a name of output characters one of output
/// characters, and adds at most the seven bytes of `fetchr_`.
proof fn lemma_guard_output(c: Seq<char>)
    requires
        forall|i: int| 0 <= i < c.len() ==> is_output_char(c[i]),
    ensures
        forall|i: int| 0 <= i < guard_reserved(c).len() ==> is_output_char(guard_reserved(c)[i]),
        utf8_width(guard_reserved(c)) <= utf8_width(c) + 7,
        guard_reserved(c) == c || has_prefix(guard_reserved(c), "fetchr_"@),
        !is_reserved_upper(str_to_uppercase(guard_reserved(c))) || has_prefix(
            guard_reserved(c),
            "fetchr_"@,
        ),
{
    reveal_strlit("fetchr_");
    let p = "fetchr_"@;
    assert forall|i: int| 0 <= i < (p + c).len() implies is_output_char((p + c)[i]) by {
        if i >= p.len() {
            assert((p + c)[i] == c[i - p.len()]);
        }
    }
    assert(utf8_width(p) == 7) by {
        reveal_with_fuel(utf8_width, 8);
    }
    lemma_width_concat(p, c);
    assert((p + c).take(p.len() as int) =~= p);
}

/// The stage before the length limit emits only output characters.
proof fn lemma_stage_output(name: Seq<char>)
    ensures
        forall|i: int|
            0 <= i < sanitize_stage(name).len() ==> is_output_char(sanitize_stage(name)[i]),
{
    let f = filter_chars(nfkd_normalized(name));
    lemma_filter_output(nfkd_normalized(name));
    lemma_clean_edges(f);
    reveal_strlit("media");
    reveal_strlit("fetchr_");
    let c0 = clean_edges(f);
    let c1 = if c0.len() == 0 {
        "media"@
    } else {
        c0
    };
    assert forall|i: int| 0 <= i < c1.len() implies is_output_char(c1[i]) by {}
    lemma_guard_output(c1);
}

/// A sanitized name takes at most 200 bytes, or 207 where a name cut to 200
/// bytes had to be prefixed with `fetchr_`, and holds only output characters.
pub proof fn lemma_sanitized_name_is_safe(name: Seq<char>)
    requires
        sanitize_truncation_ok(name),
    ensures
        utf8_width(sanitized_name(name)) <= 207,
        utf8_width(sanitized_name(name)) <= 200 || has_prefix(sanitized_name(name), "fetchr_"@),
        forall|i: int|
            0 <= i < sanitized_name(name).len() ==> is_output_char(sanitized_name(name)[i]),
{
    reveal_strlit("download");
    if name.len() == 0 {
        let d = "download"@;
        assert(utf8_width(d) <= 200) by {
            reveal_with_fuel(utf8_width, 9);
        }
        assert forall|i: int| 0 <= i < d.len() implies is_output_char(d[i]) by {}
    } else {
        let c = sanitize_stage(name);
        lemma_stage_output(name);
        if utf8_width(c) > 200 {
            let k = choose|k: int| 0 <= k <= c.len() && utf8_width(c.take(k)) == 200;
            assert forall|i: int| 0 <= i < c.take(k).len() implies is_output_char(c.take(k)[i]) by {
                assert(c.take(k)[i] == c[i]);
            }
            lemma_clean_edges(c.take(k));
            lemma_guard_output(clean_edges(c.take(k)));
        }
    }
}

/// A sanitized name is never a reserved device name as it stands: either its
/// upper-cased form is none of them (alone or before a `.`), or it starts with
/// `fetchr_`. This holds of the name after the 200-byte cut as well.
pub proof fn lemma_sanitized_name_not_reserved(name: Seq<char>)
    requires
        name.len() > 0,
        sanitize_truncation_ok(name),
    ensures
        !is_reserved_upper(str_to_uppercase(sanitized_name(name))) || has_prefix(
            sanitized_name(name),
            "fetchr_"@,
        ),
{
    let f = filter_chars(nfkd_normalized(name));
    lemma_filter_output(nfkd_normalized(name));
    lemma_clean_edges(f);
    reveal_strlit("media");
    let c0 = clean_edges(f);
    let c1 = if c0.len() == 0 {
        "media"@
    } else {
        c0
    };
    assert forall|i: int| 0 <= i < c1.len() implies is_output_char(c1[i]) by {}
    lemma_guard_output(c1);
    let c = sanitize_stage(name);
    if utf8_width(c) > 200 {
        lemma_stage_output(name);
        let k = choose|k: int| 0 <= k <= c.len() && utf8_width(c.take(k)) == 200;
        assert forall|i: int| 0 <= i < c.take(k).len() implies is_output_char(c.take(k)[i]) by {
            assert(c.take(k)[i] == c[i]);
        }
        lemma_clean_edges(c.take(k));
        lemma_guard_output(clean_edges(c.take(k)));
    }
}

/// Letters, digits, space and `- _ ( ) . [ ]` pass the character filter
/// unchanged: a string made only of them is its own filtered form.
pub proof fn lemma_kept_characters_copied(s: Seq<char>)
    requires
        forall|i: int|
            0 <= i < s.len() ==> {
                let c = #[trigger] s[i];
                char_is_alphanumeric(c) || c == ' ' || c == '-' || c == '_' || c == '(' || c == ')'
                    || c == '.' || c == '[' || c == ']'
            },
    ensures
        filter_chars(s) == s,
    decreases s.len(),
{
    if s.len() > 0 {
        assert forall|i: int| 0 <= i < s.drop_last().len() implies {
            let c = #[trigger] s.drop_last()[i];
            char_is_alphanumeric(c) || c == ' ' || c == '-' || c == '_' || c == '(' || c == ')'
                || c == '.' || c == '[' || c == ']'
        } by {
            assert(s.drop_last()[i] == s[i]);
        }
        lemma_kept_characters_copied(s.drop_last());
        assert(s.last() == s[s.len() - 1]);
        assert(s.drop_last().push(s.last()) =~= s);
    }
}

/// A name that normalization leaves as it is, made only of letters, digits,
/// space and `- _ ( ) . [ ]`, with no white space at either end and no dot or
/// underscore at the end, at most 200 bytes long and not a reserved device
/// name, is its own sanitized form.
pub proof fn lemma_clean_name_unchanged(name: Seq<char>)
    requires
        name.len() > 0,
        nfkd_normalized(name) == name,
        forall|i: int|
            0 <= i < name.len() ==> {
                let c = #[trigger] name[i];
                char_is_alphanumeric(c) || c == ' ' || c == '-' || c == '_' || c == '(' || c == ')'
                    || c == '.' || c == '[' || c == ']'
            },
        !char_is_whitespace(name[0]),
        !char_is_whitespace(name.last()),
        name.last() != '.',
        name.last() != '_',
        utf8_width(name) <= 200,
        !is_reserved_upper(str_to_uppercase(name)),
    ensures
        sanitized_name(name) == name,
{
    lemma_kept_characters_copied(name);
    assert(trim_start_by(name, ws_pred()) == name);
    assert(trim_end_by(name, ws_pred()) == name);
    assert(trim_end_by(name, eq_pred('.')) == name);
    assert(trim_end_by(name, eq_pred('_')) == name);
    assert(clean_edges(name) == name);
}

/// `&`, `+`, `@`, `#` and `%` (not alphanumeric) are spelled `and`, `_`, `at`,
/// `num` and `pct`;
/// any other character that is not a letter, a digit or one of space and
/// `- _ ( ) . [ ]` becomes a single `_` after a name part that does not end in
/// one, and is dropped otherwise.
pub proof fn lemma_symbols_spelled_out(s: Seq<char>, c: char)
    ensures
        c == '&' && !char_is_alphanumeric(c) ==> filter_chars(s.push(c)) == filter_chars(s) + "and"@,
        c == '+' && !char_is_alphanumeric(c) ==> filter_chars(s.push(c)) == filter_chars(s).push('_'),
        c == '@' && !char_is_alphanumeric(c) ==> filter_chars(s.push(c)) == filter_chars(s) + "at"@,
        c == '#' && !char_is_alphanumeric(c) ==> filter_chars(s.push(c)) == filter_chars(s) + "num"@,
        c == '%' && !char_is_alphanumeric(c) ==> filter_chars(s.push(c)) == filter_chars(s) + "pct"@,
        !(char_is_alphanumeric(c) || c == ' ' || c == '-' || c == '_' || c == '(' || c == ')' || c
            == '.' || c == '[' || c == ']' || c == '&' || c == '+' || c == '@' || c == '#' || c
            == '%') ==> filter_chars(s.push(c)) == if filter_chars(s).len() > 0 && filter_chars(
            s,
        ).last() != '_' {
            filter_chars(s).push('_')
        } else {
            filter_chars(s)
        },
{
    reveal_strlit("and");
    reveal_strlit("at");
    reveal_strlit("num");
    reveal_strlit("pct");
    assert(s.push(c).drop_last() =~= s);
    assert(seq!['a', 'n', 'd'] =~= "and"@);
    assert(seq!['a', 't'] =~= "at"@);
    assert(seq!['n', 'u', 'm'] =~= "num"@);
    assert(seq!['p', 'c', 't'] =~= "pct"@);
}

/// Each of the Windows device names CON, PRN, AUX, NUL, COM1 to COM9 and LPT1
/// to LPT9 is reserved, alone or followed by a `.` and anything.
pub proof fn lemma_device_names_reserved(u: Seq<char>)
    ensures
        (u == "CON"@ || u == "PRN"@ || u == "AUX"@ || u == "NUL"@ || u == "COM1"@ || u == "COM2"@ || u == "COM3"@ || u == "COM4"@ || u == "COM5"@ || u == "COM6"@ || u == "COM7"@ || u == "COM8"@ || u == "COM9"@ || u == "LPT1"@ || u == "LPT2"@ || u == "LPT3"@ || u == "LPT4"@ || u == "LPT5"@ || u == "LPT6"@ || u == "LPT7"@ || u == "LPT8"@ || u == "LPT9"@) ==> is_reserved_upper(u),
        (has_prefix(u, "CON"@.push('.')) || has_prefix(u, "PRN"@.push('.')) || has_prefix(u, "AUX"@.push('.')) || has_prefix(u, "NUL"@.push('.')) || has_prefix(u, "COM1"@.push('.')) || has_prefix(u, "COM2"@.push('.')) || has_prefix(u, "COM3"@.push('.')) || has_prefix(u, "COM4"@.push('.')) || has_prefix(u, "COM5"@.push('.')) || has_prefix(u, "COM6"@.push('.')) || has_prefix(u, "COM7"@.push('.')) || has_prefix(u, "COM8"@.push('.')) || has_prefix(u, "COM9"@.push('.')) || has_prefix(u, "LPT1"@.push('.')) || has_prefix(u, "LPT2"@.push('.')) || has_prefix(u, "LPT3"@.push('.')) || has_prefix(u, "LPT4"@.push('.')) || has_prefix(u, "LPT5"@.push('.')) || has_prefix(u, "LPT6"@.push('.')) || has_prefix(u, "LPT7"@.push('.')) || has_prefix(u, "LPT8"@.push('.')) || has_prefix(u, "LPT9"@.push('.'))) ==> is_reserved_upper(u),
{
    assert(reserved_names()[0] == "CON"@);
    assert(reserved_names()[1] == "PRN"@);
    assert(reserved_names()[2] == "AUX"@);
    assert(reserved_names()[3] == "NUL"@);
    assert(reserved_names()[4] == "COM1"@);
    assert(reserved_names()[5] == "COM2"@);
    assert(reserved_names()[6] == "COM3"@);
    assert(reserved_names()[7] == "COM4"@);
    assert(reserved_names()[8] == "COM5"@);
    assert(reserved_names()[9] == "COM6"@);
    assert(reserved_names()[10] == "COM7"@);
    assert(reserved_names()[11] == "COM8"@);
    assert(reserved_names()[12] == "COM9"@);
    assert(reserved_names()[13] == "LPT1"@);
    assert(reserved_names()[14] == "LPT2"@);
    assert(reserved_names()[15] == "LPT3"@);
    assert(reserved_names()[16] == "LPT4"@);
    assert(reserved_names()[17] == "LPT5"@);
    assert(reserved_names()[18] == "LPT6"@);
    assert(reserved_names()[19] == "LPT7"@);
    assert(reserved_names()[20] == "LPT8"@);
    assert(reserved_names()[21] == "LPT9"@);
}

/// A sanitized name is never empty where no cut to 200 bytes is needed: an
/// empty name becomes `download`, and one that cleans to nothing becomes `media`.
pub proof fn lemma_sanitized_name_nonempty(name: Seq<char>)
    requires
        name.len() == 0 || utf8_width(sanitize_stage(name)) <= 200,
    ensures
        sanitized_name(name).len() > 0,
{
    reveal_strlit("download");
    reveal_strlit("media");
    reveal_strlit("fetchr_");
}

/// What the documented upper-case mapping gives of `s`: at least one character
/// per character, the upper-cased form of each prefix as a prefix, and ASCII
/// capitals for an ASCII prefix.
pub open spec fn upper_facts(s: Seq<char>) -> bool {
    &&& str_to_uppercase(s).len() >= s.len()
    &&& forall|k: int|
        0 <= k <= s.len() ==> has_prefix(str_to_uppercase(s), #[trigger] str_to_uppercase(s.take(k)))
    &&& forall|k: int|
        0 <= k <= s.len() && all_ascii(#[trigger] s.take(k)) ==> has_prefix(
            str_to_uppercase(s),
            upper_ascii(s.take(k)),
        )
}

/// A string takes at most four bytes per character.
proof fn lemma_width_at_most_four(s: Seq<char>)
    ensures
        utf8_width(s) <= 4 * s.len(),
    decreases s.len(),
{
    if s.len() > 0 {
        lemma_width_at_most_four(s.drop_first());
    }
}

/// The reserved names have three or four characters, none starting with `F`.
proof fn lemma_reserved_shape()
    ensures
        forall|i: int|
            0 <= i < reserved_names().len() ==> 3 <= #[trigger] reserved_names()[i].len() <= 4
                && reserved_names()[i][0] != 'F',
{
    reveal_strlit("CON");
    reveal_strlit("PRN");
    reveal_strlit("AUX");
    reveal_strlit("NUL");
    reveal_strlit("COM1");
    reveal_strlit("COM2");
    reveal_strlit("COM3");
    reveal_strlit("COM4");
    reveal_strlit("COM5");
    reveal_strlit("COM6");
    reveal_strlit("COM7");
    reveal_strlit("COM8");
    reveal_strlit("COM9");
    reveal_strlit("LPT1");
    reveal_strlit("LPT2");
    reveal_strlit("LPT3");
    reveal_strlit("LPT4");
    reveal_strlit("LPT5");
    reveal_strlit("LPT6");
    reveal_strlit("LPT7");
    reveal_strlit("LPT8");
    reveal_strlit("LPT9");
}

/// A trimmed-at-the-start string does not start with a trimmed character.
proof fn lemma_trim_start_head(s: Seq<char>, p: spec_fn(char) -> bool)
    ensures
        trim_start_by(s, p).len() > 0 ==> !p(trim_start_by(s, p)[0]),
    decreases s.len(),
{
    if s.len() > 0 && p(s[0]) {
        lemma_trim_start_head(s.drop_first(), p);
    }
}

/// A cleaned name does not start with white space.
proof fn lemma_clean_head(s: Seq<char>)
    ensures
        clean_edges(s).len() > 0 ==> !char_is_whitespace(clean_edges(s)[0]),
{
    let x = trim_end_by(trim_end_by(trim_ws(s), eq_pred('.')), eq_pred('_'));
    let y = trim_start_by(x, ws_pred());
    lemma_trim_start_head(x, ws_pred());
    lemma_trim_end_is_take(y, ws_pred());
    let k = choose|k: int| 0 <= k <= y.len() && trim_end_by(y, ws_pred()) == y.take(k);
    if clean_edges(s).len() > 0 {
        assert(clean_edges(s)[0] == y[0]);
    }
}

/// Cleaning a name that does not start with white space keeps a prefix of it.
proof fn lemma_clean_prefix(s: Seq<char>)
    requires
        s.len() > 0,
        !char_is_whitespace(s[0]),
    ensures
        exists|j: int| 0 <= j <= s.len() && clean_edges(s) == s.take(j),
{
    assert(trim_start_by(s, ws_pred()) == s);
    lemma_trim_end_is_take(s, ws_pred());
    let k1 = choose|k: int| 0 <= k <= s.len() && trim_end_by(s, ws_pred()) == s.take(k);
    let a = s.take(k1);
    lemma_trim_end_is_take(a, eq_pred('.'));
    let k2 = choose|k: int| 0 <= k <= a.len() && trim_end_by(a, eq_pred('.')) == a.take(k);
    assert(a.take(k2) =~= s.take(k2));
    let b = s.take(k2);
    lemma_trim_end_is_take(b, eq_pred('_'));
    let k3 = choose|k: int| 0 <= k <= b.len() && trim_end_by(b, eq_pred('_')) == b.take(k);
    assert(b.take(k3) =~= s.take(k3));
    let c = s.take(k3);
    if k3 == 0 {
        assert(c.len() == 0);
        assert(trim_ws(c) =~= s.take(0));
    } else {
        assert(c[0] == s[0]);
        assert(trim_start_by(c, ws_pred()) == c);
        lemma_trim_end_is_take(c, ws_pred());
        let k4 = choose|k: int| 0 <= k <= c.len() && trim_end_by(c, ws_pred()) == c.take(k);
        assert(c.take(k4) =~= s.take(k4));
    }
}

/// A prefix of a guarded name that upper-cases to a reserved name is short:
/// the guard left the name unprefixed only where its upper-cased form is not
/// reserved, and a `fetchr_` prefix upper-cases to `FETCHR_`.
proof fn lemma_reguard_short(c1: Seq<char>, j: int)
    requires
        0 <= j <= guard_reserved(c1).len(),
        upper_facts(c1),
        upper_facts(guard_reserved(c1).take(j)),
        is_reserved_upper(str_to_uppercase(guard_reserved(c1).take(j))),
    ensures
        utf8_width(guard_reserved(c1).take(j)) <= 28,
{
    let c = guard_reserved(c1);
    let t = c.take(j);
    let u = str_to_uppercase(t);
    lemma_reserved_shape();
    lemma_width_at_most_four(t);
    let i = choose|i: int|
        0 <= i < reserved_names().len() && (u == reserved_names()[i] || has_prefix(
            u,
            reserved_names()[i].push('.'),
        ));
    let rn = reserved_names()[i];
    if is_reserved_upper(str_to_uppercase(c1)) {
        reveal_strlit("fetchr_");
        let p = "fetchr_"@;
        if j > 7 {
            assert(t.take(7) =~= p);
            assert(all_ascii(t.take(7)));
            assert(has_prefix(u, upper_ascii(t.take(7))));
            assert(upper_ascii(t.take(7))[0] == 'F');
            assert(u[0] == 'F');
            if u == rn {
                assert(u.len() >= 7);
            } else {
                assert(rn.push('.')[0] == rn[0]);
            }
        }
    } else {
        assert(c == c1);
        assert(has_prefix(str_to_uppercase(c1), str_to_uppercase(c1.take(j))));
        if u == rn {
        } else {
            let q = rn.push('.');
            assert(str_to_uppercase(c1).take(q.len() as int) =~= u.take(q.len() as int));
            assert(is_reserved_upper(str_to_uppercase(c1)));
        }
    }
}

// ---------------------------------------------------------------------------
// Implementation
// ---------------------------------------------------------------------------

/// Number of UTF-8 bytes of one character.
pub fn char_width_exec(c: char) -> (w: usize)
    ensures
        w == char_width(c),
        1 <= w <= 4,
{
    let u = c as u32;
    if u < 0x80 {
        1
    } else if u < 0x800 {
        2
    } else if u < 0x10000 {
        3
    } else {
        4
    }
}

/// Applies the character filter.
fn filter_name(v: &Vec<char>) -> (acc: Vec<char>)
    ensures
        acc@ == filter_chars(v@),
{
    let mut acc: Vec<char> = Vec::new();
    let mut i: usize = 0;
    while i < v.len()
        invariant
            0 <= i <= v.len(),
            acc@ == filter_chars(v@.take(i as int)),
        decreases v.len() - i,
    {
        let c = v[i];
        proof {
            lemma_filter_take_step(v@, i as int);
        }
        if is_alphanumeric(c) || c == ' ' || c == '-' || c == '_' || c == '(' || c == ')' || c
            == '.' || c == '[' || c == ']' {
            acc.push(c);
        } else if c == '&' {
            acc.push('a');
            acc.push('n');
            acc.push('d');
        } else if c == '+' {
            acc.push('_');
        } else if c == '@' {
            acc.push('a');
            acc.push('t');
        } else if c == '#' {
            acc.push('n');
            acc.push('u');
            acc.push('m');
        } else if c == '%' {
            acc.push('p');
            acc.push('c');
            acc.push('t');
        } else if acc.len() > 0 && acc[acc.len() - 1] != '_' {
            acc.push('_');
        }
        let ghost prev = filter_chars(v@.take(i as int));
        assert(acc@ =~= filter_step(prev, c));
        i = i + 1;
    }
    assert(v@.take(v@.len() as int) =~= v@);
    acc
}

/// Range of `v[from..to]` left after `clean_edges`.
fn clean_edges_range(v: &Vec<char>, from: usize, to: usize) -> (r: (usize, usize))
    requires
        from <= to <= v.len(),
    ensures
        from <= r.0 <= r.1 <= to,
        v@.subrange(r.0 as int, r.1 as int) == clean_edges(v@.subrange(from as int, to as int)),
{
    let (a, b) = trim_ws_range(v, from, to);
    let b2 = trim_end_char_range(v, a, b, '.');
    let b3 = trim_end_char_range(v, a, b2, '_');
    trim_ws_range(v, a, b3)
}

/// The characters of `v[from..to]`.
fn chars_range(v: &Vec<char>, from: usize, to: usize) -> (r: Vec<char>)
    requires
        from <= to <= v.len(),
    ensures
        r@ == v@.subrange(from as int, to as int),
{
    let mut r: Vec<char> = Vec::new();
    let mut i = from;
    while i < to
        invariant
            from <= i <= to <= v.len(),
            r@ == v@.subrange(from as int, i as int),
        decreases to - i,
    {
        r.push(v[i]);
        assert(v@.subrange(from as int, i + 1) =~= v@.subrange(from as int, i as int).push(
            v@[i as int],
        ));
        i = i + 1;
    }
    r
}

/// Whether an upper-cased name is a reserved device name.
fn is_reserved_upper_exec(u: &Vec<char>) -> (r: bool)
    ensures
        r == is_reserved_upper(u@),
{
    let names: Vec<&str> = vec![
        "CON", "PRN", "AUX", "NUL",
        "COM1", "COM2", "COM3", "COM4", "COM5", "COM6", "COM7", "COM8", "COM9",
        "LPT1", "LPT2", "LPT3", "LPT4", "LPT5", "LPT6", "LPT7", "LPT8", "LPT9",
    ];
    assert(names@.len() == reserved_names().len());
    assert forall|k: int| 0 <= k < names@.len() implies names@[k]@ == reserved_names()[k] by {}
    let mut i: usize = 0;
    while i < names.len()
        invariant
            0 <= i <= names.len(),
            names@.len() == reserved_names().len(),
            forall|k: int| 0 <= k < names@.len() ==> names@[k]@ == reserved_names()[k],
            forall|k: int|
                0 <= k < i ==> !(u@ == reserved_names()[k] || has_prefix(
                    u@,
                    reserved_names()[k].push('.'),
                )),
        decreases names.len() - i,
    {
        let mut n = chars_of(names[i]);
        let exact = n.len() == u.len() && starts_with_chars(u, &n);
        proof {
            if n@.len() == u@.len() && has_prefix(u@, n@) {
                assert(u@.take(n@.len() as int) =~= u@);
            }
            if u@ == n@ {
                assert(u@.take(n@.len() as int) =~= u@);
            }
        }
        n.push('.');
        if exact || starts_with_chars(u, &n) {
            return true;
        }
        i = i + 1;
    }
    false
}

/// The reserved-name guard: `fetchr_` put before a name whose upper-cased form
/// is a reserved device name.
fn guard_reserved_exec(cleaned: Vec<char>) -> (r: Vec<char>)
    ensures
        r@ == guard_reserved(cleaned@),
        upper_facts(cleaned@),
{
    let upper = to_uppercase(string_of(&cleaned).as_str());
    if is_reserved_upper_exec(&chars_of(upper.as_str())) {
        let mut prefixed = chars_of("fetchr_");
        let ghost p = prefixed@;
        let mut j: usize = 0;
        while j < cleaned.len()
            invariant
                0 <= j <= cleaned.len(),
                prefixed@ == p + cleaned@.take(j as int),
            decreases cleaned.len() - j,
        {
            prefixed.push(cleaned[j]);
            assert(cleaned@.take(j + 1) =~= cleaned@.take(j as int).push(cleaned@[j as int]));
            j = j + 1;
        }
        assert(cleaned@.take(cleaned@.len() as int) =~= cleaned@);
        prefixed
    } else {
        cleaned
    }
}

/// The sanitizing steps, stopping with `None` exactly where the length limit
/// would cut a character in two.
#[verifier::rlimit(60)]
#[verifier::spinoff_prover]
fn sanitize_steps(filename: &str) -> (r: Option<String>)
    ensures
        r is Some <==> sanitize_truncation_ok(filename@),
        r matches Some(s) ==> s@ == sanitized_name(filename@),
        r matches Some(s) ==> utf8_width(s@) <= 200,
{
    if filename.is_empty() {
        proof {
            reveal_strlit("download");
            assert(utf8_width("download"@) <= 200) by {
                reveal_with_fuel(utf8_width, 9);
            }
        }
        return Some(owned("download"));
    }
    let normalized = nfkd(filename);
    let v = chars_of(normalized.as_str());
    let filtered = filter_name(&v);
    let (a, b) = clean_edges_range(&filtered, 0, filtered.len());
    assert(filtered@.subrange(0, filtered@.len() as int) =~= filtered@);
    let mut cleaned = chars_range(&filtered, a, b);
    proof {
        lemma_clean_head(filtered@);
    }
    if cleaned.len() == 0 {
        cleaned = chars_of("media");
        proof {
            reveal_strlit("media");
        }
    }
    let ghost c1 = cleaned@;
    assert(c1.len() > 0 && !char_is_whitespace(c1[0]));
    let cleaned = guard_reserved_exec(cleaned);
    let ghost c = sanitize_stage(filename@);
    assert(cleaned@ == c);
    proof {
        if is_reserved_upper(str_to_uppercase(c1)) {
            reveal_strlit("fetchr_");
            assert(c[0] == 'f');
        } else {
            assert(c[0] == c1[0]);
        }
        assert(c.len() > 0 && !char_is_whitespace(c[0]));
    }
    // Width of the shortest prefix that reaches 200 bytes, or of the whole name.
    let mut w: usize = 0;
    let mut k: usize = 0;
    while k < cleaned.len() && w < MAX_NAME_BYTES
        invariant
            0 <= k <= cleaned.len(),
            w == utf8_width(cleaned@.take(k as int)),
            w <= 203,
            k > 0 ==> utf8_width(cleaned@.take(k - 1)) < 200,
        decreases cleaned.len() - k,
    {
        proof {
            lemma_width_take_step(cleaned@, k as int);
        }
        w = w + char_width_exec(cleaned[k]);
        k = k + 1;
    }
    if w < MAX_NAME_BYTES || (w == MAX_NAME_BYTES && k == cleaned.len()) {
        assert(cleaned@.take(cleaned@.len() as int) =~= cleaned@);
        return Some(string_of(&cleaned));
    }
    if w > MAX_NAME_BYTES {
        proof {
            assert(cleaned@.take(cleaned@.len() as int) =~= cleaned@);
            lemma_width_take_monotone(cleaned@, k as int, cleaned@.len() as int);
            assert forall|k2: int| 0 <= k2 <= c.len() implies utf8_width(c.take(k2)) != 200 by {
                if k2 < k {
                    lemma_width_take_monotone(c, k2, k - 1);
                } else {
                    lemma_width_take_monotone(c, k as int, k2);
                }
            }
        }
        return None;
    }
    proof {
        assert(cleaned@.take(cleaned@.len() as int) =~= cleaned@);
        lemma_width_take_monotone(cleaned@, k as int, cleaned@.len() as int);
        let k0 = choose|k2: int| 0 <= k2 <= c.len() && utf8_width(c.take(k2)) == 200;
        lemma_width_take_injective(c, k0, k as int);
        assert(cleaned@.subrange(0, k as int) =~= c.take(k as int));
    }
    let (a2, b2) = clean_edges_range(&cleaned, 0, k);
    let cut = chars_range(&cleaned, a2, b2);
    let ghost t = cut@;
    proof {
        assert(k > 0);
        assert(cleaned@.subrange(0, k as int) =~= c.take(k as int));
        assert(c.take(k as int)[0] == c[0]);
        lemma_clean_prefix(c.take(k as int));
        let j = choose|j: int| 0 <= j <= k && clean_edges(c.take(k as int)) == c.take(k as int).take(j);
        assert(c.take(k as int).take(j) =~= c.take(j));
        assert(t == c.take(j));
        lemma_width_take_monotone(c, j, k as int);
    }
    let guarded = guard_reserved_exec(cut);
    proof {
        let j = choose|j: int| 0 <= j <= k && t == c.take(j);
        if is_reserved_upper(str_to_uppercase(t)) {
            lemma_reguard_short(c1, j);
            reveal_strlit("fetchr_");
            assert(utf8_width("fetchr_"@) == 7) by {
                reveal_with_fuel(utf8_width, 8);
            }
            lemma_width_concat("fetchr_"@, t);
        }
    }
    Some(string_of(&guarded))
}

/// Sanitizes a string to make it safe for file names across Windows, macOS and
/// Linux: NFKD normalization, only letters, digits, spaces and `-_().[]` kept,
/// `& + @ # %` spelled out, other symbols collapsed into one `_`, edges cleaned,
/// reserved device names prefixed with `fetchr_`, and the result cut to 200
/// bytes (a name the cut leaves reserved is prefixed again).
pub fn sanitize_filename(filename: &str) -> (r: String)
    requires
        sanitize_truncation_ok(filename@),
    ensures
        r@ == sanitized_name(filename@),
        utf8_width(r@) <= 200,
        vstd::utf8::encode_utf8(r@).len() <= 200,
        filename@.len() > 0 ==> !is_reserved_upper(str_to_uppercase(r@)) || has_prefix(
            r@,
            "fetchr_"@,
        ),
        forall|i: int| 0 <= i < r@.len() ==> is_output_char(r@[i]),
{
    proof {
        lemma_sanitized_name_is_safe(filename@);
        crate::text::lemma_width_is_encoded_len(sanitized_name(filename@));
        if filename@.len() > 0 {
            lemma_sanitized_name_not_reserved(filename@);
        }
    }
    match sanitize_steps(filename) {
        Some(s) => s,
        None => {
            proof {
                assert(false);
            }
            String::new()
        },
    }
}

/// `sanitize_filename` for every input: `None` exactly where cutting the name to
/// 200 bytes would split a character.
pub fn checked_sanitize_filename(filename: &str) -> (r: Option<String>)
    ensures
        r is Some <==> sanitize_truncation_ok(filename@),
        r matches Some(s) ==> s@ == sanitized_name(filename@),
{
    sanitize_steps(filename)
}

// ---------------------------------------------------------------------------
// Names tried when the target file exists
// ---------------------------------------------------------------------------

/// The longest file name (in bytes) allowed in a folder whose path takes
/// `dir_len` bytes: what is left of 250 after a 15-byte reserve, at least 50.
pub open spec fn max_file_name_len(dir_len: nat) -> nat {
    if dir_len + 15 < 250 {
        (250 - dir_len - 15) as nat
    } else {
        50
    }
}

/// An extension without its leading dots.
pub open spec fn bare_extension(ext: Seq<char>) -> Seq<char> {
    trim_start_by(ext, eq_pred('.'))
}

/// The base name, cut to `max` bytes and trimmed where it is longer.
pub open spec fn cut_base(base: Seq<char>, max: nat) -> Seq<char> {
    if utf8_width(base) > max {
        trim_ws(base.take(choose|k: int| 0 <= k <= base.len() && utf8_width(base.take(k)) == max))
    } else {
        base
    }
}

/// `name.ext`, or `name` for an empty extension.
pub open spec fn with_extension(name: Seq<char>, ext: Seq<char>) -> Seq<char> {
    if ext.len() == 0 {
        name
    } else {
        name + "."@ + ext
    }
}

/// The base name can be cut where it is too long without splitting a character.
pub open spec fn collision_cut_ok(base: Seq<char>, dir_len: nat) -> bool {
    utf8_width(base) <= max_file_name_len(dir_len) || width_boundary(
        base,
        max_file_name_len(dir_len),
    )
}

/// The names a collision-free target is built from.
pub struct CollisionNames {
    /// The name tried first.
    pub first: String,
    /// The stem numbered copies are named after.
    pub stem: String,
    /// The extension without leading dots.
    pub ext: String,
}

/// The name tried first for a sanitized base name, an extension and the byte
/// length of the target folder's path.
pub open spec fn first_name(base: Seq<char>, ext: Seq<char>, dir_len: nat) -> Seq<char> {
    with_extension(
        if utf8_width(base) > max_file_name_len(dir_len) {
            cut_base(base, max_file_name_len(dir_len))
        } else {
            base
        },
        bare_extension(ext),
    )
}

/// The stem of the numbered copies: the base name cut to the folder's limit,
/// with or without an extension, so that every candidate keeps to the path
/// length limits.
pub open spec fn copy_stem(base: Seq<char>, ext: Seq<char>, dir_len: nat) -> Seq<char> {
    cut_base(base, max_file_name_len(dir_len))
}

/// The `counter`-th numbered copy: `stem (counter).ext`.
pub open spec fn numbered_name(stem: Seq<char>, ext: Seq<char>, counter: nat) -> Seq<char> {
    with_extension(stem + " ("@ + decimal(counter) + ")"@, ext)
}

/// The base name a target is built from takes at most the folder's limit of
/// `max_file_name_len(dir_len)` bytes: the first name before its extension,
/// and the stem of the numbered copies.
pub proof fn lemma_collision_names_bounded(base: Seq<char>, ext: Seq<char>, dir_len: nat)
    requires
        collision_cut_ok(base, dir_len),
    ensures
        utf8_width(
            if utf8_width(base) > max_file_name_len(dir_len) {
                cut_base(base, max_file_name_len(dir_len))
            } else {
                base
            },
        ) <= max_file_name_len(dir_len),
        utf8_width(copy_stem(base, ext, dir_len)) <= max_file_name_len(dir_len),
{
    let m = max_file_name_len(dir_len);
    if utf8_width(base) > m {
        let k = choose|k: int| 0 <= k <= base.len() && utf8_width(base.take(k)) == m;
        let t = base.take(k);
        let q = |c: char| true;
        lemma_trim_chars(t, ws_pred(), q);
        lemma_trim_chars(trim_start_by(t, ws_pred()), ws_pred(), q);
    }
}

/// The names for placing a download with a sanitized base name and an extension
/// in a folder whose path takes `dir_len` bytes.
fn collision_plan_steps(sanitized_base: &str, extension: &str, dir_len: usize) -> (r: Option<
    CollisionNames,
>)
    ensures
        r is Some <==> collision_cut_ok(sanitized_base@, dir_len as nat),
        r matches Some(c) ==> {
            &&& c.first@ == first_name(sanitized_base@, extension@, dir_len as nat)
            &&& c.stem@ == copy_stem(sanitized_base@, extension@, dir_len as nat)
            &&& c.ext@ == bare_extension(extension@)
        },
{
    let max: usize = if dir_len < 235 {
        250 - dir_len - 15
    } else {
        50
    };
    let ev = chars_of(extension);
    let mut a: usize = 0;
    while a < ev.len() && ev[a] == '.'
        invariant
            0 <= a <= ev.len(),
            forall|j: int| 0 <= j < a ==> ev@[j] == '.',
        decreases ev.len() - a,
    {
        a = a + 1;
    }
    proof {
        lemma_trim_start_skip_public(ev@, eq_pred('.'), a as int);
        assert(ev@.subrange(a as int, ev@.len() as int) =~= ev@.skip(a as int));
    }
    let ext = string_of_range(&ev, a, ev.len());
    let bv = chars_of(sanitized_base);
    // Width of the shortest prefix that reaches `max` bytes.
    let mut w: usize = 0;
    let mut k: usize = 0;
    while k < bv.len() && w < max
        invariant
            0 <= k <= bv.len(),
            max <= 250,
            w == utf8_width(bv@.take(k as int)),
            w <= max + 3,
            k > 0 ==> utf8_width(bv@.take(k - 1)) < max,
        decreases bv.len() - k,
    {
        proof {
            lemma_width_take_step(bv@, k as int);
        }
        w = w + char_width_exec(bv[k]);
        k = k + 1;
    }
    let too_long = !(w < max || (w == max && k == bv.len()));
    proof {
        assert(bv@.take(bv@.len() as int) =~= bv@);
        lemma_width_take_monotone(bv@, k as int, bv@.len() as int);
        if too_long {
            assert(utf8_width(bv@) > max);
            if w > max {
                assert forall|k2: int| 0 <= k2 <= bv@.len() implies utf8_width(bv@.take(k2)) != max by {
                    if k2 < k {
                        lemma_width_take_monotone(bv@, k2, k - 1);
                    } else {
                        lemma_width_take_monotone(bv@, k as int, k2);
                    }
                }
            } else {
                let k0 = choose|k2: int| 0 <= k2 <= bv@.len() && utf8_width(bv@.take(k2)) == max;
                lemma_width_take_injective(bv@, k0, k as int);
            }
        } else {
            assert(utf8_width(bv@) <= max);
        }
    }
    if too_long && w > max {
        return None;
    }
    let cut = if too_long {
        let (c0, c1) = trim_ws_range(&bv, 0, k);
        assert(bv@.subrange(0, k as int) =~= bv@.take(k as int));
        string_of_range(&bv, c0, c1)
    } else {
        owned(sanitized_base)
    };
    let first = if ext.as_str().is_empty() {
        cut.clone()
    } else {
        let a1 = concat(cut.as_str(), ".");
        concat(a1.as_str(), ext.as_str())
    };
    let stem = cut;
    Some(CollisionNames { first, stem, ext })
}

/// The names for placing a download with a sanitized base name and an extension
/// in a folder whose path takes `dir_len` bytes.
pub fn plan_collision_names(sanitized_base: &str, extension: &str, dir_len: usize) -> (r:
    CollisionNames)
    requires
        collision_cut_ok(sanitized_base@, dir_len as nat),
    ensures
        r.first@ == first_name(sanitized_base@, extension@, dir_len as nat),
        r.stem@ == copy_stem(sanitized_base@, extension@, dir_len as nat),
        r.ext@ == bare_extension(extension@),
{
    match collision_plan_steps(sanitized_base, extension, dir_len) {
        Some(c) => c,
        None => {
            proof {
                assert(false);
            }
            CollisionNames { first: String::new(), stem: String::new(), ext: String::new() }
        },
    }
}

/// `plan_collision_names` for every input: `None` exactly where cutting the base
/// name would split a character.
pub fn checked_plan_collision_names(sanitized_base: &str, extension: &str, dir_len: usize) -> (r:
    Option<CollisionNames>)
    ensures
        r is Some <==> collision_cut_ok(sanitized_base@, dir_len as nat),
        r matches Some(c) ==> {
            &&& c.first@ == first_name(sanitized_base@, extension@, dir_len as nat)
            &&& c.stem@ == copy_stem(sanitized_base@, extension@, dir_len as nat)
            &&& c.ext@ == bare_extension(extension@)
        },
{
    collision_plan_steps(sanitized_base, extension, dir_len)
}

/// Every character of `s` is ASCII (one byte in UTF-8).
pub open spec fn is_ascii_text(s: Seq<char>) -> bool {
    forall|i: int| 0 <= i < s.len() ==> (s[i] as u32) < 0x80
}

/// An ASCII string takes one byte per character.
proof fn lemma_ascii_width(s: Seq<char>)
    requires
        is_ascii_text(s),
    ensures
        utf8_width(s) == s.len(),
    decreases s.len(),
{
    if s.len() > 0 {
        assert(is_ascii_text(s.drop_first())) by {
            assert forall|i: int| 0 <= i < s.drop_first().len() implies (s.drop_first()[i] as u32) < 0x80 by {
                assert(s.drop_first()[i] == s[i + 1]);
            }
        }
        lemma_ascii_width(s.drop_first());
    }
}

/// An ASCII base name can be cut at any byte count.
proof fn lemma_ascii_cut_ok(base: Seq<char>, dir_len: nat)
    requires
        is_ascii_text(base),
    ensures
        collision_cut_ok(base, dir_len),
{
    lemma_ascii_width(base);
    let m = max_file_name_len(dir_len);
    if base.len() > m {
        let t = base.take(m as int);
        assert(is_ascii_text(t)) by {
            assert forall|i: int| 0 <= i < t.len() implies (t[i] as u32) < 0x80 by {
                assert(t[i] == base[i]);
            }
        }
        lemma_ascii_width(t);
        assert(utf8_width(base.take(m as int)) == m);
    }
}

/// A fresh random identifier (a version 4 UUID in its simple form). It changes
/// from call to call; nothing is claimed of it.
#[verifier::external_body]
fn unique_token() -> String {
    uuid::Uuid::new_v4().simple().to_string()
}

/// The byte length of a folder's path as `str::len` reports it, which the
/// length limits count.
pub open spec fn dir_text_len(directory: &Path) -> nat {
    (vstd::utf8::encode_utf8(path_lossy_text(directory)).len() as usize) as nat
}

/// The name used when all numbered copies are taken.
pub open spec fn fallback_name(stem: Seq<char>, unique: Seq<char>, ext: Seq<char>) -> Seq<char> {
    stem + "_collision_"@ + unique + "."@ + ext
}

/// The paths a collision-free target can be, for a sanitized base name: the
/// folder joined with the first name, with a numbered copy `stem (k).ext` for
/// `k` from 1 to 9999, or with a fallback name holding a unique identifier.
pub open spec fn collision_target(
    p: PathBuf,
    dir: PathBuf,
    base: Seq<char>,
    ext: Seq<char>,
    dir_len: nat,
) -> bool {
    let stem = copy_stem(base, ext, dir_len);
    let e = bare_extension(ext);
    ||| p == path_joined(dir, first_name(base, ext, dir_len))
    ||| exists|k: nat| 1 <= k <= 9999 && p == path_joined(dir, #[trigger] numbered_name(stem, e, k))
    ||| exists|u: Seq<char>| p == path_joined(dir, #[trigger] fallback_name(stem, u, e))
}

/// Resolves path collisions: the sanitized name in `directory` if no file is
/// there, else the first free numbered copy `name (1)`, `name (2)`, ... up to
/// 9999, else a name made unique with a random identifier. `None` exactly where
/// the name could not be cut to its length limits without splitting a
/// character. Which of the candidates is returned rests on what the filesystem
/// reports.
pub fn resolve_path_collision(directory: &Path, filename: &str, extension: &str) -> (r: Option<
    PathBuf,
>)
    ensures
        r is Some <==> sanitize_truncation_ok(filename@) && collision_cut_ok(
            sanitized_name(filename@),
            dir_text_len(directory),
        ),
        sanitize_truncation_ok(filename@) && is_ascii_text(sanitized_name(filename@)) ==> r is Some,
        r matches Some(p) ==> collision_target(
            p,
            path_owned(directory),
            sanitized_name(filename@),
            extension@,
            dir_text_len(directory),
        ),
{
    let sanitized_base = match checked_sanitize_filename(filename) {
        Some(s) => s,
        None => return None,
    };
    let dir_text = path_text(directory);
    let dir_len = dir_text.as_str().len();
    proof {
        assert(dir_len == dir_text_len(directory));
        if is_ascii_text(sanitized_base@) {
            lemma_ascii_cut_ok(sanitized_base@, dir_len as nat);
        }
    }
    let names = match checked_plan_collision_names(sanitized_base.as_str(), extension, dir_len) {
        Some(n) => n,
        None => return None,
    };
    let dir = path_to_buf(directory);
    let ghost stem = copy_stem(sanitized_base@, extension@, dir_len as nat);
    let ghost e = bare_extension(extension@);
    let mut counter: u64 = 0;
    loop
        invariant
            counter <= 9999,
            sanitize_truncation_ok(filename@),
            sanitized_base@ == sanitized_name(filename@),
            dir_len == dir_text_len(directory),
            collision_cut_ok(sanitized_base@, dir_len as nat),
            dir == path_owned(directory),
            names.first@ == first_name(sanitized_base@, extension@, dir_len as nat),
            names.stem@ == stem,
            names.ext@ == e,
            stem == copy_stem(sanitized_base@, extension@, dir_len as nat),
            e == bare_extension(extension@),
        decreases 9999 - counter,
    {
        let candidate = if counter == 0 {
            path_join(&dir, names.first.as_str())
        } else {
            let candidate_name = numbered_copy_name(names.stem.as_str(), names.ext.as_str(), counter);
            path_join(&dir, candidate_name.as_str())
        };
        proof {
            if counter > 0 {
                assert(candidate == path_joined(dir, numbered_name(stem, e, counter as nat)));
            }
        }
        let taken = path_exists(&candidate);
        match collision_step(counter, taken) {
            CollisionStep::Take => {
                return Some(candidate);
            },
            CollisionStep::Fallback => {
                let unique = unique_token();
                let fallback = collision_fallback_name(names.stem.as_str(), unique.as_str(), names.ext.as_str());
                proof {
                    assert(fallback@ == fallback_name(stem, unique@, e));
                }
                return Some(path_join(&dir, fallback.as_str()));
            },
            CollisionStep::Next => {
                counter = counter + 1;
            },
        }
    }
}

/// What the search for a free name does after asking whether its
/// `counter`-th candidate is taken (0: the first name; k: the k-th numbered copy).
#[derive(Debug, Clone, Copy, PartialEq, Eq, Structural)]
pub enum CollisionStep {
    /// The candidate is free: it is the target.
    Take,
    /// Ask about the next numbered copy.
    Next,
    /// All 9999 numbered copies are taken: use a fallback name.
    Fallback,
}

/// The step after the answer for the `counter`-th candidate.
pub open spec fn collision_step_of(counter: nat, taken: bool) -> CollisionStep {
    if !taken {
        CollisionStep::Take
    } else if counter >= 9999 {
        CollisionStep::Fallback
    } else {
        CollisionStep::Next
    }
}

/// The step the search for a free name takes after the filesystem answered
/// whether its `counter`-th candidate is taken.
pub fn collision_step(counter: u64, taken: bool) -> (r: CollisionStep)
    ensures
        r == collision_step_of(counter as nat, taken),
{
    if !taken {
        CollisionStep::Take
    } else if counter >= 9999 {
        CollisionStep::Fallback
    } else {
        CollisionStep::Next
    }
}

/// Where the search settles for the answers `taken[c..]` about candidates `c`,
/// `c + 1`, ...: `Some(k)` for the `k`-th candidate, `None` for the fallback
/// (or where the answers run out first).
pub open spec fn search_from(taken: Seq<bool>, c: nat) -> Option<nat>
    decreases taken.len() - c,
{
    if c >= taken.len() {
        None
    } else {
        match collision_step_of(c, taken[c as int]) {
            CollisionStep::Take => Some(c),
            CollisionStep::Fallback => None,
            CollisionStep::Next => search_from(taken, c + 1),
        }
    }
}

/// Stepping through the answers settles on the first free candidate among the
/// first name and the numbered copies up to 9999: every candidate before it
/// was reported taken. With all of them taken, it falls back.
pub proof fn lemma_search_takes_first_free(taken: Seq<bool>, c: nat)
    requires
        c <= 9999,
    ensures
        search_from(taken, c) matches Some(k) ==> c <= k <= 9999 && k < taken.len() && !taken[k as int]
            && forall|j: int| c <= j < k ==> taken[j],
        taken.len() >= 10000 && (forall|j: int| c <= j <= 9999 ==> taken[j]) ==> search_from(taken, c)
            is None,
    decreases taken.len() - c,
{
    if c < taken.len() && taken[c as int] && c < 9999 {
        lemma_search_takes_first_free(taken, c + 1);
    }
}

/// The name of the `counter`-th numbered copy: `stem (counter).ext`.
pub fn numbered_copy_name(stem: &str, ext: &str, counter: u64) -> (r: String)
    ensures
        r@ == numbered_name(stem@, ext@, counter as nat),
{
    let n = decimal_string(counter);
    let a = concat(stem, " (");
    let b = concat(a.as_str(), n.as_str());
    let c = concat(b.as_str(), ")");
    if ext.is_empty() {
        c
    } else {
        let d = concat(c.as_str(), ".");
        concat(d.as_str(), ext)
    }
}

/// The name used when all numbered copies are taken: `stem_collision_UNIQUE.ext`.
pub fn collision_fallback_name(stem: &str, unique: &str, ext: &str) -> (r: String)
    ensures
        r@ == stem@ + "_collision_"@ + unique@ + "."@ + ext@,
{
    let a = concat(stem, "_collision_");
    let b = concat(a.as_str(), unique);
    let c = concat(b.as_str(), ".");
    concat(c.as_str(), ext)
}

// ---------------------------------------------------------------------------
// Path safety
// ---------------------------------------------------------------------------

/// Whether a target path is safe to write, from what the filesystem reports:
/// unsafe where the base folder cannot be resolved; where the target's parent
/// resolves, safe exactly when it lies inside the resolved base; otherwise safe
/// exactly when the path has no `..` component.
pub open spec fn path_safety(
    base_resolves: bool,
    parent_inside_base: Option<bool>,
    parent_dir_components: Seq<bool>,
) -> bool {
    if !base_resolves {
        false
    } else {
        match parent_inside_base {
            Some(inside) => inside,
            None => forall|i: int| 0 <= i < parent_dir_components.len() ==> !parent_dir_components[i],
        }
    }
}

/// The safety verdict from what the filesystem reports.
pub fn path_safety_verdict(
    base_resolves: bool,
    parent_inside_base: Option<bool>,
    parent_dir_components: &Vec<bool>,
) -> (r: bool)
    ensures
        r == path_safety(base_resolves, parent_inside_base, parent_dir_components@),
{
    if !base_resolves {
        return false;
    }
    match parent_inside_base {
        Some(inside) => inside,
        None => {
            let mut i: usize = 0;
            while i < parent_dir_components.len()
                invariant
                    0 <= i <= parent_dir_components.len(),
                    base_resolves,
                    parent_inside_base is None,
                    forall|j: int| 0 <= j < i ==> !parent_dir_components@[j],
                decreases parent_dir_components.len() - i,
            {
                if parent_dir_components[i] {
                    assert(parent_dir_components@[i as int]);
                    return false;
                }
                i = i + 1;
            }
            true
        },
    }
}

/// The safety verdict from what the filesystem reported of the base folder
/// and of the target's folder (their canonical forms, `None` where they do not
/// resolve): unsafe where the base does not resolve; where the target's folder
/// resolves, safe exactly when it lies inside the base (`Path::starts_with`);
/// otherwise safe exactly when the target has no `..` component.
pub open spec fn safety_from_reports(
    canonical_base: Option<PathBuf>,
    canonical_parent: Option<PathBuf>,
    target: &Path,
) -> bool {
    match canonical_base {
        None => path_safety(false, None, Seq::empty()),
        Some(b) => match canonical_parent {
            Some(c) => path_safety(true, Some(path_within(c, b)), Seq::empty()),
            None => path_safety(true, None, path_dotdot_flags(target)),
        },
    }
}

/// The safety verdict from what the filesystem reported of the base folder
/// and of the target's folder.
pub fn path_safety_from_reports(
    canonical_base: Option<PathBuf>,
    canonical_parent: Option<PathBuf>,
    target: &Path,
) -> (r: bool)
    ensures
        r == safety_from_reports(canonical_base, canonical_parent, target),
{
    match canonical_base {
        None => path_safety_verdict(false, None, &Vec::new()),
        Some(b) => match canonical_parent {
            Some(c) => path_safety_verdict(true, Some(path_starts_with(&c, &b)), &Vec::new()),
            None => path_safety_verdict(true, None, &parent_dir_flags(target)),
        },
    }
}

/// Hardens a target path against directory traversal and symlinks leading out
/// of the base folder: the verdict of `path_safety_from_reports` on what the
/// filesystem reports of the base folder and of the target's parent (the
/// target itself where it has none). Which canonical forms the filesystem
/// reports is not stated.
pub fn is_path_safe(base_dir: &Path, target_path: &Path) -> (r: bool)
    ensures
        exists|b: Option<PathBuf>, c: Option<PathBuf>| r == safety_from_reports(b, c, target_path),
{
    let canonical_base = canonical(base_dir);
    match canonical_base {
        None => path_safety_from_reports(None, None, target_path),
        Some(b) => {
            let parent = parent_or_self(target_path);
            let canonical_parent = canonical(parent);
            path_safety_from_reports(Some(b), canonical_parent, target_path)
        },
    }
}


proof fn lemma_decimal_len(n: nat)
    ensures
        decimal(n).len() >= 1,
        n >= 10 ==> decimal(n).len() >= 2,
    decreases n,
{
    if n >= 10 {
        lemma_decimal_len(n / 10);
    }
}

proof fn lemma_digit_char_injective(a: nat, b: nat)
    requires
        a < 16,
        b < 16,
        crate::text::digit_char(a) == crate::text::digit_char(b),
    ensures
        a == b,
{
}

/// Different numbers have different decimal notations.
pub proof fn lemma_decimal_injective(a: nat, b: nat)
    requires
        decimal(a) == decimal(b),
    ensures
        a == b,
    decreases a,
{
    lemma_decimal_len(a);
    lemma_decimal_len(b);
    if a < 10 && b < 10 {
        assert(decimal(a)[0] == crate::text::digit_char(a));
        assert(decimal(b)[0] == crate::text::digit_char(b));
        lemma_digit_char_injective(a, b);
    } else if a >= 10 && b >= 10 {
        lemma_decimal_len(a / 10);
        let da = decimal(a);
        let db = decimal(b);
        assert(da.last() == db.last());
        lemma_digit_char_injective(a % 10, b % 10);
        assert(da.drop_last() =~= decimal(a / 10));
        assert(db.drop_last() =~= decimal(b / 10));
        lemma_decimal_injective(a / 10, b / 10);
    } else {
        assert(decimal(a).len() != decimal(b).len());
    }
}

/// Numbered copies with different numbers have different names, so the search
/// for a free name tries a new name at every step.
pub proof fn lemma_numbered_names_distinct(stem: Seq<char>, ext: Seq<char>, a: nat, b: nat)
    requires
        a != b,
    ensures
        numbered_name(stem, ext, a) != numbered_name(stem, ext, b),
{
    let p = stem + " ("@;
    let xa = p + decimal(a) + ")"@;
    let xb = p + decimal(b) + ")"@;
    reveal_strlit(")");
    reveal_strlit(".");
    if numbered_name(stem, ext, a) == numbered_name(stem, ext, b) {
        if ext.len() > 0 {
            let na = xa + "."@ + ext;
            let nb = xb + "."@ + ext;
            assert(na.take(na.len() - ext.len() - 1) =~= xa);
            assert(nb.take(nb.len() - ext.len() - 1) =~= xb);
        }
        assert(xa == xb);
        assert(xa.subrange(p.len() as int, xa.len() - 1) =~= decimal(a));
        assert(xb.subrange(p.len() as int, xb.len() - 1) =~= decimal(b));
        lemma_decimal_injective(a, b);
    }
}

} // verus!
