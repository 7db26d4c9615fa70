//! The parts of progress parsing that need no floating point: recognizing the
//! lines yt-dlp prints and rendering remaining times.
use vstd::prelude::*;

use crate::text::{
    chars_of, concat, contains, contains_seq, decimal, decimal2, decimal2_string, digit_char,
    has_prefix, owned,
    starts_with, string_of_range, trim, trim_ws,
};
use super::{capture_group, groups_view, ov, regex_captures, regex_captures_of};

verus! {

/// Parser of yt-dlp's `--progress-template` JSON lines.
pub struct JsonProgressParser;

/// The prefix of the JSON progress lines.
pub open spec fn json_prefix() -> Seq<char> {
    "download-json:"@
}

/// The JSON document carried by a progress line, if the line is one.
pub open spec fn json_payload(line: Seq<char>) -> Option<Seq<char>> {
    if has_prefix(line, json_prefix()) {
        Some(line.skip(json_prefix().len() as int))
    } else {
        None
    }
}

impl JsonProgressParser {
    /// The JSON document of a `download-json:` progress line, if the line is one.
    pub fn payload(&self, line: &str) -> (r: Option<String>)
        ensures
            match r {
                Some(p) => json_payload(line@) == Some(p@),
                None => json_payload(line@) is None,
            },
    {
        if !starts_with(line, "download-json:") {
            return None;
        }
        let v = chars_of(line);
        let n = chars_of("download-json:").len();
        assert(v@.subrange(n as int, v@.len() as int) =~= line@.skip(json_prefix().len() as int));
        Some(string_of_range(&v, n, v.len()))
    }
}

/// What a JSON progress record reports, its floating-point speed aside.
pub struct ProgressRecord {
    /// The record reports the download finished.
    pub finished: bool,
    /// Bytes downloaded, as reported.
    pub downloaded_bytes: Option<u64>,
    /// Bytes expected, as reported.
    pub total_bytes: Option<u64>,
    /// Bytes done, for the percentage (`0` where none are reported).
    pub done: u64,
    /// Bytes expected, for the percentage (`0` where unknown).
    pub expected: u64,
    /// The remaining time, formatted.
    pub eta: Option<String>,
}

/// The first of two optional values that is present.
pub open spec fn or_else(a: Option<u64>, b: Option<u64>) -> Option<u64> {
    match a {
        Some(x) => Some(x),
        None => b,
    }
}

/// The value, or `0` where it is absent.
pub open spec fn or_zero(a: Option<u64>) -> u64 {
    match a {
        Some(x) => x,
        None => 0,
    }
}

/// The remaining time of a record, formatted.
pub open spec fn eta_text(eta: Option<i64>) -> Option<Seq<char>> {
    match eta {
        Some(e) => Some(seconds_text(e as int)),
        None => None,
    }
}

/// The record a parsed JSON progress line gives: a finished one reports the
/// total as downloaded (where known) and no time left; any other reports what
/// it carries, with the estimated size where the exact one is missing.
pub open spec fn record_of(
    status: Option<Seq<char>>,
    downloaded: Option<u64>,
    total: Option<u64>,
    estimate: Option<u64>,
    eta: Option<i64>,
) -> (bool, Option<u64>, Option<u64>, u64, u64, Option<Seq<char>>) {
    if status == Some("finished"@) {
        (true, or_else(total, downloaded), total, 0, 0, Some("00:00"@))
    } else {
        (
            false,
            downloaded,
            or_else(total, estimate),
            or_zero(downloaded),
            or_zero(or_else(total, estimate)),
            eta_text(eta),
        )
    }
}

/// The view of a progress record, in the order of `record_of`.
pub open spec fn record_view(r: ProgressRecord) -> (bool, Option<u64>, Option<u64>, u64, u64, Option<Seq<char>>) {
    (
        r.finished,
        r.downloaded_bytes,
        r.total_bytes,
        r.done,
        r.expected,
        match r.eta {
            Some(e) => Some(e@),
            None => None,
        },
    )
}

/// The record of a parsed JSON progress line, from its `status`,
/// `downloaded_bytes`, `total_bytes`, `total_bytes_estimate` and `eta` fields.
pub fn progress_record(
    status: Option<&str>,
    downloaded: Option<u64>,
    total: Option<u64>,
    estimate: Option<u64>,
    eta: Option<i64>,
) -> (r: ProgressRecord)
    ensures
        record_view(r) == record_of(
            crate::url_normalizer::opt_str_view(status),
            downloaded,
            total,
            estimate,
            eta,
        ),
{
    let finished = match status {
        Some(s) => crate::text::eq_str(s, "finished"),
        None => false,
    };
    if finished {
        let reported = match total {
            Some(t) => Some(t),
            None => downloaded,
        };
        return ProgressRecord {
            finished: true,
            downloaded_bytes: reported,
            total_bytes: total,
            done: 0,
            expected: 0,
            eta: Some(owned("00:00")),
        };
    }
    let expected_total = match total {
        Some(t) => Some(t),
        None => estimate,
    };
    let done = match downloaded {
        Some(d) => d,
        None => 0,
    };
    let expected = match expected_total {
        Some(t) => t,
        None => 0,
    };
    let eta_str = match eta {
        Some(e) => Some(format_seconds(e)),
        None => None,
    };
    ProgressRecord {
        finished: false,
        downloaded_bytes: downloaded,
        total_bytes: expected_total,
        done,
        expected,
        eta: eta_str,
    }
}

/// A post-processing step yt-dlp reports once the download itself is done.
#[derive(Debug, Clone, Copy, PartialEq, Eq, Structural)]
pub enum PostprocessStage {
    Transcoding,
    ExtractingAudio,
}

/// The post-processing step a line announces.
pub open spec fn postprocess_stage(line: Seq<char>) -> Option<PostprocessStage> {
    if contains_seq(line, "[VideoConvertor]"@) || contains_seq(line, "[Merger]"@) || contains_seq(
        line,
        "[ffmpeg]"@,
    ) {
        Some(PostprocessStage::Transcoding)
    } else if contains_seq(line, "[ExtractAudio]"@) {
        Some(PostprocessStage::ExtractingAudio)
    } else {
        None
    }
}

/// The post-processing step a yt-dlp output line announces, if any.
pub fn classify_postprocess_line(line: &str) -> (r: Option<PostprocessStage>)
    ensures
        r == postprocess_stage(line@),
{
    if contains(line, "[VideoConvertor]") || contains(line, "[Merger]") || contains(
        line,
        "[ffmpeg]",
    ) {
        Some(PostprocessStage::Transcoding)
    } else if contains(line, "[ExtractAudio]") {
        Some(PostprocessStage::ExtractingAudio)
    } else {
        None
    }
}

/// The pattern of yt-dlp's plain progress lines, such as
/// `[download]  23.4% of   10.23MiB at    2.34MiB/s ETA 00:04`.
pub open spec fn plain_progress_pattern() -> Seq<char> {
    "\\[download\\]\\s+([0-9.]+)%\\s+of\\s+([0-9.a-zA-Z\\s]+)\\s+at\\s+([0-9.a-zA-Z/]+)\\s+ETA\\s+([0-9:]+)"@
}

/// The fields of a plain progress line: the percentage as written, the speed
/// and the remaining time.
pub struct PlainProgress {
    pub percentage_text: String,
    pub speed: String,
    pub eta: String,
}

/// The view of a plain-line reading.
pub open spec fn plain_view(r: Option<Option<PlainProgress>>) -> Option<
    Option<(Seq<char>, Seq<char>, Seq<char>)>,
> {
    match r {
        Some(Some(p)) => Some(Some((p.percentage_text@, p.speed@, p.eta@))),
        Some(None) => Some(None),
        None => None,
    }
}

/// What the groups of a plain progress line give: `None` where the pattern did
/// not match, `Some(None)` where a group is missing, else the percentage text
/// and the trimmed speed and remaining time.
pub open spec fn plain_fields_of(caps: Option<Seq<Option<Seq<char>>>>) -> Option<
    Option<(Seq<char>, Seq<char>, Seq<char>)>,
> {
    match caps {
        None => None,
        Some(_) => if capture_group(caps, 1) is Some && capture_group(caps, 2) is Some
            && capture_group(caps, 3) is Some && capture_group(caps, 4) is Some {
            Some(
                Some(
                    (
                        capture_group(caps, 1)->0,
                        trim_ws(capture_group(caps, 3)->0),
                        trim_ws(capture_group(caps, 4)->0),
                    ),
                ),
            )
        } else {
            Some(None)
        },
    }
}

/// Group `i` of captured groups, owned.
fn group_at(groups: &Vec<Option<String>>, i: usize) -> (r: Option<String>)
    ensures
        ov(r) == capture_group(Some(groups_view(groups@)), i as int),
{
    if i < groups.len() {
        match &groups[i] {
            Some(g) => Some(g.clone()),
            None => None,
        }
    } else {
        None
    }
}

/// The fields of a plain progress line from the groups its pattern captured.
pub fn plain_fields_from_groups(groups: Option<Vec<Option<String>>>) -> (r: Option<
    Option<PlainProgress>,
>)
    ensures
        plain_view(r) == plain_fields_of(
            match groups {
                Some(g) => Some(groups_view(g@)),
                None => None,
            },
        ),
{
    let g = match groups {
        Some(g) => g,
        None => return None,
    };
    let pct = group_at(&g, 1);
    let total = group_at(&g, 2);
    let speed = group_at(&g, 3);
    let eta = group_at(&g, 4);
    match (pct, total, speed, eta) {
        (Some(p), Some(_), Some(sp), Some(e)) => Some(
            Some(PlainProgress { percentage_text: p, speed: trim(sp.as_str()), eta: trim(e.as_str()) }),
        ),
        _ => Some(None),
    }
}

/// The fields of a plain yt-dlp progress line: `None` where the line is not one.
pub fn plain_progress_fields(line: &str) -> (r: Option<Option<PlainProgress>>)
    ensures
        plain_view(r) == plain_fields_of(regex_captures_of(plain_progress_pattern(), line@)),
{
    let groups = regex_captures(
        "\\[download\\]\\s+([0-9.]+)%\\s+of\\s+([0-9.a-zA-Z\\s]+)\\s+at\\s+([0-9.a-zA-Z/]+)\\s+ETA\\s+([0-9:]+)",
        line,
    );
    plain_fields_from_groups(groups)
}

/// The line is yt-dlp's summary of a finished download (`[download] 100% of ... in ...`).
pub open spec fn completion_line(line: Seq<char>) -> bool {
    contains_seq(line, "[download]"@) && contains_seq(line, "100%"@) && contains_seq(line, "in"@)
}

/// Whether a plain yt-dlp line reports a finished download.
pub fn is_completion_line(line: &str) -> (r: bool)
    ensures
        r == completion_line(line@),
{
    contains(line, "[download]") && contains(line, "100%") && contains(line, "in")
}

/// A remaining time in seconds as `MM:SS`, `HH:MM:SS` from an hour on, and
/// `--:--` for a negative time.
pub open spec fn seconds_text(secs: int) -> Seq<char> {
    if secs < 0 {
        "--:--"@
    } else {
        let h = secs / 3600;
        let m = (secs % 3600) / 60;
        let s = secs % 60;
        if h > 0 {
            decimal2(h as nat) + ":"@ + decimal2(m as nat) + ":"@ + decimal2(s as nat)
        } else {
            decimal2(m as nat) + ":"@ + decimal2(s as nat)
        }
    }
}

/// Formats a remaining time in seconds, e.g. `01:24`.
pub fn format_seconds(secs: i64) -> (r: String)
    ensures
        r@ == seconds_text(secs as int),
{
    if secs < 0 {
        return owned("--:--");
    }
    let t = secs as u64;
    let h = t / 3600;
    let m = (t % 3600) / 60;
    let s = t % 60;
    let mm = decimal2_string(m);
    let ss = decimal2_string(s);
    if h > 0 {
        let hh = decimal2_string(h);
        let a = concat(hh.as_str(), ":");
        let b = concat(a.as_str(), mm.as_str());
        let c = concat(b.as_str(), ":");
        concat(c.as_str(), ss.as_str())
    } else {
        let a = concat(mm.as_str(), ":");
        concat(a.as_str(), ss.as_str())
    }
}

/// The number a string of decimal digits spells (`'0'` is 48).
pub open spec fn digits_value(t: Seq<char>) -> int
    decreases t.len(),
{
    if t.len() == 0 {
        0
    } else {
        digits_value(t.drop_last()) * 10 + ((t.last() as int) - 48)
    }
}

/// Every character is one of `0`..`9`.
pub open spec fn all_digits(t: Seq<char>) -> bool {
    forall|i: int| 0 <= i < t.len() ==> '0' <= #[trigger] t[i] && t[i] <= '9'
}

proof fn lemma_digit_char_value(d: nat)
    requires
        d < 10,
    ensures
        '0' <= digit_char(d) <= '9',
        (digit_char(d) as int) - 48 == d,
{
    if d == 0 {
    } else if d == 1 {
    } else if d == 2 {
    } else if d == 3 {
    } else if d == 4 {
    } else if d == 5 {
    } else if d == 6 {
    } else if d == 7 {
    } else if d == 8 {
    } else {
    }
}

proof fn lemma_decimal_reads_back(n: nat)
    ensures
        all_digits(decimal(n)),
        digits_value(decimal(n)) == n,
        decimal(n).len() >= 1,
        n < 10 ==> decimal(n).len() == 1,
        10 <= n < 100 ==> decimal(n).len() == 2,
    decreases n,
{
    assert(digits_value(Seq::<char>::empty()) == 0);
    if n < 10 {
        lemma_digit_char_value(n);
        assert(decimal(n).drop_last() =~= Seq::<char>::empty());
    } else {
        lemma_decimal_reads_back(n / 10);
        lemma_digit_char_value(n % 10);
        let d = decimal(n);
        assert(d.drop_last() =~= decimal(n / 10));
        assert((n / 10) * 10 + n % 10 == n) by (nonlinear_arith);
        assert forall|i: int| 0 <= i < d.len() implies '0' <= #[trigger] d[i] && d[i] <= '9' by {
            if i < d.len() - 1 {
                assert(d[i] == decimal(n / 10)[i]);
            }
        }
    }
}

proof fn lemma_decimal2_reads_back(n: nat)
    ensures
        all_digits(decimal2(n)),
        digits_value(decimal2(n)) == n,
        n < 100 ==> decimal2(n).len() == 2,
        decimal2(n).len() >= 2,
{
    if n < 10 {
        lemma_digit_char_value(n);
        let d = decimal2(n);
        assert(digits_value(Seq::<char>::empty()) == 0);
        assert(seq!['0'].drop_last() =~= Seq::<char>::empty());
        assert(digits_value(seq!['0']) == 0);
        assert(d.drop_last() =~= seq!['0']);
    } else {
        lemma_decimal_reads_back(n);
        lemma_decimal_reads_back(n / 10);
        assert(decimal(n).len() == decimal(n / 10).len() + 1);
    }
}

/// A remaining time reads back as the number of seconds it was made from:
/// `MM:SS` below an hour and `HH:MM:SS` from an hour on, the fields made of
/// decimal digits, minutes and seconds below 60 and two digits wide, and
/// `hours * 3600 + minutes * 60 + seconds` giving back the time; a negative
/// time is `--:--`.
pub proof fn lemma_seconds_text_reads_back(secs: int)
    ensures
        secs < 0 ==> seconds_text(secs) == "--:--"@,
        0 <= secs < 3600 ==> {
            let t = seconds_text(secs);
            &&& t.len() == 5
            &&& t[2] == ':'
            &&& all_digits(t.take(2))
            &&& all_digits(t.skip(3))
            &&& digits_value(t.skip(3)) < 60
            &&& digits_value(t.take(2)) * 60 + digits_value(t.skip(3)) == secs
        },
        secs >= 3600 ==> {
            let t = seconds_text(secs);
            let n = t.len() as int;
            &&& n >= 8
            &&& t[n - 6] == ':'
            &&& t[n - 3] == ':'
            &&& all_digits(t.take(n - 6))
            &&& all_digits(t.subrange(n - 5, n - 3))
            &&& all_digits(t.skip(n - 2))
            &&& digits_value(t.subrange(n - 5, n - 3)) < 60
            &&& digits_value(t.skip(n - 2)) < 60
            &&& digits_value(t.take(n - 6)) * 3600 + digits_value(t.subrange(n - 5, n - 3)) * 60
                + digits_value(t.skip(n - 2)) == secs
        },
{
    if secs >= 0 {
        let h = secs / 3600;
        let m = (secs % 3600) / 60;
        let sec = secs % 60;
        assert(h * 3600 + m * 60 + sec == secs) by (nonlinear_arith)
            requires
                secs >= 0,
                h == secs / 3600,
                m == (secs % 3600) / 60,
                sec == secs % 60,
        ;
        assert(0 <= m < 60 && 0 <= sec < 60);
        lemma_decimal2_reads_back(h as nat);
        lemma_decimal2_reads_back(m as nat);
        lemma_decimal2_reads_back(sec as nat);
        let dm = decimal2(m as nat);
        let ds = decimal2(sec as nat);
        reveal_strlit(":");
        if h > 0 {
            let dh = decimal2(h as nat);
            let t = dh + ":"@ + dm + ":"@ + ds;
            let n = t.len() as int;
            assert(t.take(n - 6) =~= dh);
            assert(t.subrange(n - 5, n - 3) =~= dm);
            assert(t.skip(n - 2) =~= ds);
        } else {
            assert(secs < 3600);
            let t = dm + ":"@ + ds;
            assert(t.take(2) =~= dm);
            assert(t.skip(3) =~= ds);
        }
    } else {
    }
}

} // verus!
