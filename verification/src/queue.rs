//! The decisions of the download queue: which pending tasks start, which file
//! extension and which yt-dlp format options a task gets, and how failures and
//! direct downloads are named. The scheduler loop that acts on them runs outside.
use vstd::prelude::*;

use crate::db::{TaskStatus, TaskType};
use crate::presets::{find_preset, default_presets, get_preset_by_id};
use crate::text::{
    char_width, chars_of, concat, contains, contains_char, contains_char_exec,
    eq_str, has_prefix, push_owned, lemma_split_nonempty, owned, split_char, split_on,
    split_whitespace, starts_with, string_of_range, strings_view, trim_ws, trim_ws_range,
    utf8_width, ws_tokens,
};

verus! {

/// The view of a task type.
pub enum TaskTypeView {
    DownloadVideo { format_preset: Seq<char> },
    DownloadAudio { audio_format: Seq<char> },
    FetchMetadataOnly,
    ExtractThumbnail,
    ExtractSubtitles,
}

impl View for TaskType {
    type V = TaskTypeView;

    open spec fn view(&self) -> TaskTypeView {
        match self {
            TaskType::DownloadVideo { format_preset } => TaskTypeView::DownloadVideo {
                format_preset: format_preset@,
            },
            TaskType::DownloadAudio { audio_format } => TaskTypeView::DownloadAudio {
                audio_format: audio_format@,
            },
            TaskType::FetchMetadataOnly => TaskTypeView::FetchMetadataOnly,
            TaskType::ExtractThumbnail => TaskTypeView::ExtractThumbnail,
            TaskType::ExtractSubtitles => TaskTypeView::ExtractSubtitles,
        }
    }
}

// ---------------------------------------------------------------------------
// Scheduling
// ---------------------------------------------------------------------------

/// Positions of the pending tasks, in queue order.
pub open spec fn pending_positions(s: Seq<TaskStatus>) -> Seq<int>
    decreases s.len(),
{
    if s.len() == 0 {
        Seq::empty()
    } else {
        let r = pending_positions(s.drop_last());
        if s.last() == TaskStatus::Pending {
            r.push(s.len() - 1)
        } else {
            r
        }
    }
}

/// The tasks the scheduler starts: the first pending ones, as many as there are
/// free slots.
pub open spec fn tasks_to_start(s: Seq<TaskStatus>, active: nat, max: nat) -> Seq<int> {
    if active >= max {
        Seq::empty()
    } else {
        let p = pending_positions(s);
        let open = (max - active) as nat;
        if open < p.len() {
            p.take(open as int)
        } else {
            p
        }
    }
}

/// The positions of pending tasks are in range, pending, strictly increasing,
/// and include every pending task.
pub proof fn lemma_pending_positions(s: Seq<TaskStatus>)
    ensures
        forall|i: int|
            0 <= i < pending_positions(s).len() ==> 0 <= #[trigger] pending_positions(s)[i]
                < s.len() && s[pending_positions(s)[i]] == TaskStatus::Pending,
        forall|i: int, j: int|
            0 <= i < j < pending_positions(s).len() ==> #[trigger] pending_positions(s)[i]
                < #[trigger] pending_positions(s)[j],
        forall|k: int|
            0 <= k < s.len() && s[k] == TaskStatus::Pending ==> #[trigger] pending_positions(
                s,
            ).contains(k),
    decreases s.len(),
{
    if s.len() > 0 {
        let t = s.drop_last();
        lemma_pending_positions(t);
        let r = pending_positions(t);
        assert forall|k: int| 0 <= k < s.len() && s[k] == TaskStatus::Pending implies #[trigger] pending_positions(
            s,
        ).contains(k) by {
            if k < s.len() - 1 {
                assert(t[k] == s[k]);
                assert(r.contains(k));
                let w = choose|w: int| 0 <= w < r.len() && r[w] == k;
                assert(pending_positions(s)[w] == k);
            } else {
                assert(pending_positions(s)[r.len() as int] == k);
            }
        }
    }
}

/// The scheduler starts at most as many tasks as there are free slots, only
/// pending ones, in queue order, and skips no pending task before the last one
/// it starts; with slots left over, it starts every pending task.
pub proof fn lemma_scheduling(s: Seq<TaskStatus>, active: nat, max: nat)
    ensures
        active >= max ==> tasks_to_start(s, active, max).len() == 0,
        active < max ==> tasks_to_start(s, active, max).len() <= max - active,
        forall|i: int|
            0 <= i < tasks_to_start(s, active, max).len() ==> 0 <= #[trigger] tasks_to_start(
                s,
                active,
                max,
            )[i] < s.len() && s[tasks_to_start(s, active, max)[i]] == TaskStatus::Pending,
        forall|i: int, j: int|
            0 <= i < j < tasks_to_start(s, active, max).len() ==> #[trigger] tasks_to_start(
                s,
                active,
                max,
            )[i] < #[trigger] tasks_to_start(s, active, max)[j],
        active < max && tasks_to_start(s, active, max).len() < max - active ==> forall|k: int|
            0 <= k < s.len() && s[k] == TaskStatus::Pending ==> #[trigger] tasks_to_start(
                s,
                active,
                max,
            ).contains(k),
{
    lemma_pending_positions(s);
}

/// The queue never runs more downloads than its limit: those running and those
/// the scheduler starts together stay within it, and with no slot free nothing
/// is started.
pub proof fn lemma_running_within_limit(s: Seq<TaskStatus>, active: nat, max: nat)
    ensures
        active <= max ==> active + tasks_to_start(s, active, max).len() <= max,
        active >= max ==> tasks_to_start(s, active, max).len() == 0,
{
    lemma_scheduling(s, active, max);
}

/// Positions of the tasks to start, given the queue's statuses in order, the
/// number of running downloads and the concurrency limit.
pub fn select_tasks_to_start(statuses: &Vec<TaskStatus>, active_count: usize, max_concurrency: usize) -> (r: Vec<usize>)
    ensures
        r@.map_values(|i: usize| i as int) == tasks_to_start(
            statuses@,
            active_count as nat,
            max_concurrency as nat,
        ),
{
    let mut r: Vec<usize> = Vec::new();
    if active_count >= max_concurrency {
        assert(r@.map_values(|i: usize| i as int) =~= Seq::<int>::empty());
        return r;
    }
    let open = max_concurrency - active_count;
    let mut i: usize = 0;
    while i < statuses.len() && r.len() < open
        invariant
            0 <= i <= statuses.len(),
            r.len() <= open,
            open == max_concurrency - active_count,
            r@.map_values(|x: usize| x as int) == pending_positions(statuses@.take(i as int)),
        decreases statuses.len() - i,
    {
        assert(statuses@.take(i + 1).drop_last() =~= statuses@.take(i as int));
        let ghost before = r@;
        if statuses[i] == TaskStatus::Pending {
            r.push(i);
            assert(r@.map_values(|x: usize| x as int) =~= before.map_values(|x: usize| x as int).push(i as int));
        }
        i = i + 1;
    }
    proof {
        lemma_pending_prefix(statuses@, i as int);
        if r.len() < open {
            assert(statuses@.take(i as int) =~= statuses@);
        }
    }
    r
}

/// The pending positions of a prefix are a prefix of the pending positions.
proof fn lemma_pending_prefix(s: Seq<TaskStatus>, i: int)
    requires
        0 <= i <= s.len(),
    ensures
        pending_positions(s.take(i)).len() <= pending_positions(s).len(),
        pending_positions(s).take(pending_positions(s.take(i)).len() as int) == pending_positions(
            s.take(i),
        ),
        i < s.len() ==> pending_positions(s.take(i)).len() < pending_positions(s).len()
            || forall|k: int| i <= k < s.len() ==> s[k] != TaskStatus::Pending,
    decreases s.len() - i,
{
    if i == s.len() {
        assert(s.take(i) =~= s);
        assert(pending_positions(s).take(pending_positions(s).len() as int) =~= pending_positions(s));
    } else {
        lemma_pending_prefix(s, i + 1);
        assert(s.take(i + 1).drop_last() =~= s.take(i));
        let a = pending_positions(s.take(i));
        let b = pending_positions(s.take(i + 1));
        let full = pending_positions(s);
        assert(full.take(b.len() as int) == b);
        if s[i] == TaskStatus::Pending {
            assert(b == a.push(i));
            assert(full.take(a.len() as int) =~= b.take(a.len() as int));
            assert(b.take(a.len() as int) =~= a);
        } else {
            assert(b == a);
        }
    }
}

/// The queue has no download running.
pub open spec fn queue_idle(s: Seq<TaskStatus>) -> bool {
    forall|i: int| 0 <= i < s.len() ==> s[i] != TaskStatus::Downloading
}

/// Whether no task of the queue is downloading, the moment to announce that the
/// whole queue is complete.
pub fn is_queue_idle(statuses: &Vec<TaskStatus>) -> (r: bool)
    ensures
        r == queue_idle(statuses@),
{
    let mut i: usize = 0;
    while i < statuses.len()
        invariant
            0 <= i <= statuses.len(),
            forall|k: int| 0 <= k < i ==> statuses@[k] != TaskStatus::Downloading,
        decreases statuses.len() - i,
    {
        if statuses[i] == TaskStatus::Downloading {
            return false;
        }
        i = i + 1;
    }
    true
}

// ---------------------------------------------------------------------------
// Output extension and format options
// ---------------------------------------------------------------------------

/// The quality and container of a `dynamic:QUALITY:CONTAINER` preset.
pub open spec fn dynamic_parts(p: Seq<char>) -> Option<(Seq<char>, Seq<char>)> {
    let parts = split_on(p, ':');
    if has_prefix(p, "dynamic:"@) && parts.len() == 3 {
        Some((parts[1], parts[2]))
    } else {
        None
    }
}

/// The container a task's file is expected in.
pub open spec fn output_extension(t: TaskTypeView) -> Seq<char> {
    match t {
        TaskTypeView::DownloadAudio { audio_format } => audio_format,
        TaskTypeView::DownloadVideo { format_preset } => if has_prefix(format_preset, "dynamic:"@) {
            match dynamic_parts(format_preset) {
                Some(q) => q.1,
                None => "mp4"@,
            }
        } else {
            match find_preset(default_presets(), format_preset) {
                Some(p) => match p.merge_format {
                    Some(m) => m,
                    None => "mp4"@,
                },
                None => "mp4"@,
            }
        },
        _ => "mp4"@,
    }
}

/// The height limit of a quality such as `1080p`: the digits before the final `p`.
pub open spec fn height_limit(q: Seq<char>) -> Option<Seq<char>> {
    if q.len() > 0 && q.last() == 'p' && (forall|i: int|
        0 <= i < q.len() - 1 ==> '0' <= #[trigger] q[i] <= '9') {
        Some(q.drop_last())
    } else {
        None
    }
}

/// The yt-dlp options that select streams for a dynamic quality and container.
pub open spec fn dynamic_args(quality: Seq<char>, container: Seq<char>, encoder: Seq<char>) -> Seq<
    Seq<char>,
> {
    let select = match height_limit(quality) {
        Some(h) => seq![
            "-f"@,
            "bestvideo[height<="@ + h + "]+bestaudio/best[height<="@ + h + "]"@,
            "-S"@,
            "res"@,
        ],
        None => seq!["-f"@, "bestvideo*+bestaudio/best"@, "-S"@, "res"@],
    };
    let merge = seq!["--merge-output-format"@, container];
    if container == "mp4"@ {
        select + merge + seq![
            "--postprocessor-args"@,
            "ffmpeg:-c:v "@ + encoder + " -c:a aac -pix_fmt yuv420p"@,
        ]
    } else {
        select + merge
    }
}

/// The yt-dlp options that select the streams of a task.
pub open spec fn format_args(t: TaskTypeView, encoder: Seq<char>) -> Seq<Seq<char>> {
    match t {
        TaskTypeView::DownloadVideo { format_preset } => if has_prefix(
            format_preset,
            "dynamic:"@,
        ) {
            match dynamic_parts(format_preset) {
                Some(q) => dynamic_args(q.0, q.1, encoder),
                None => seq!["-f"@, "bestvideo+bestaudio/best"@],
            }
        } else {
            match find_preset(default_presets(), format_preset) {
                Some(p) => match p.merge_format {
                    Some(m) => seq!["-f"@, p.format_filter, "--merge-output-format"@, m],
                    None => seq!["-f"@, p.format_filter],
                },
                None => seq!["-f"@, "bestvideo+bestaudio/best"@],
            }
        },
        TaskTypeView::DownloadAudio { audio_format } => seq![
            "-x"@,
            "--audio-format"@,
            audio_format,
            "--audio-quality"@,
            "0"@,
        ],
        _ => seq!["-f"@, "best"@],
    }
}

/// The options of a task name an H.264 encoder: a dynamic preset with an MP4 container.
pub open spec fn needs_encoder(t: TaskTypeView) -> bool {
    match t {
        TaskTypeView::DownloadVideo { format_preset } => match dynamic_parts(format_preset) {
            Some(q) => q.1 == "mp4"@,
            None => false,
        },
        _ => false,
    }
}

/// The quality and container of a `dynamic:QUALITY:CONTAINER` preset.
pub fn parse_dynamic_preset(preset: &str) -> (r: Option<(String, String)>)
    ensures
        match r {
            Some(q) => dynamic_parts(preset@) == Some((q.0@, q.1@)),
            None => dynamic_parts(preset@) is None,
        },
{
    if !starts_with(preset, "dynamic:") {
        return None;
    }
    let mut parts = split_char(preset, ':');
    if parts.len() != 3 {
        return None;
    }
    let container = parts.remove(2);
    let quality = parts.remove(1);
    Some((quality, container))
}

/// The container a task's downloaded file is expected in.
pub fn get_output_extension(task_type: &TaskType) -> (r: String)
    ensures
        r@ == output_extension(task_type@),
{
    match task_type {
        TaskType::DownloadAudio { audio_format } => audio_format.clone(),
        TaskType::DownloadVideo { format_preset } => {
            if starts_with(format_preset.as_str(), "dynamic:") {
                match parse_dynamic_preset(format_preset.as_str()) {
                    Some((_, container)) => container,
                    None => owned("mp4"),
                }
            } else {
                match get_preset_by_id(format_preset.as_str()) {
                    Some(p) => match p.merge_format {
                        Some(m) => m,
                        None => owned("mp4"),
                    },
                    None => owned("mp4"),
                }
            }
        },
        _ => owned("mp4"),
    }
}

/// The digits of a quality such as `1080p`.
pub fn get_height_limit(quality: &str) -> (r: Option<String>)
    ensures
        match r {
            Some(h) => height_limit(quality@) == Some(h@),
            None => height_limit(quality@) is None,
        },
{
    let v = chars_of(quality);
    if v.len() == 0 || v[v.len() - 1] != 'p' {
        return None;
    }
    let n = v.len() - 1;
    let mut i: usize = 0;
    while i < n
        invariant
            0 <= i <= n,
            n == v.len() - 1,
            v@ == quality@,
            forall|k: int| 0 <= k < i ==> '0' <= #[trigger] v@[k] <= '9',
        decreases n - i,
    {
        if !('0' <= v[i] && v[i] <= '9') {
            return None;
        }
        i = i + 1;
    }
    assert(v@.subrange(0, n as int) =~= v@.drop_last());
    Some(string_of_range(&v, 0, n))
}

/// Whether the options of a task name an H.264 encoder, which then has to be probed.
pub fn task_needs_encoder(task_type: &TaskType) -> (r: bool)
    ensures
        r == needs_encoder(task_type@),
{
    match task_type {
        TaskType::DownloadVideo { format_preset } => match parse_dynamic_preset(
            format_preset.as_str(),
        ) {
            Some((_, container)) => eq_str(container.as_str(), "mp4"),
            None => false,
        },
        _ => false,
    }
}

/// The yt-dlp options for a dynamic quality and container.
fn dynamic_format_args(quality: &str, container: &str, encoder: &str) -> (r: Vec<String>)
    ensures
        strings_view(r@) == dynamic_args(quality@, container@, encoder@),
{
    let mut args: Vec<String> = Vec::new();
    match get_height_limit(quality) {
        Some(h) => {
            push_owned(&mut args, "-f");
            let a = concat("bestvideo[height<=", h.as_str());
            let b = concat(a.as_str(), "]+bestaudio/best[height<=");
            let c = concat(b.as_str(), h.as_str());
            let d = concat(c.as_str(), "]");
            push_owned(&mut args, d.as_str());
            push_owned(&mut args, "-S");
            push_owned(&mut args, "res");
        },
        None => {
            push_owned(&mut args, "-f");
            push_owned(&mut args, "bestvideo*+bestaudio/best");
            push_owned(&mut args, "-S");
            push_owned(&mut args, "res");
        },
    }
    push_owned(&mut args, "--merge-output-format");
    push_owned(&mut args, container);
    if eq_str(container, "mp4") {
        push_owned(&mut args, "--postprocessor-args");
        let a = concat("ffmpeg:-c:v ", encoder);
        let b = concat(a.as_str(), " -c:a aac -pix_fmt yuv420p");
        push_owned(&mut args, b.as_str());
    }
    assert(strings_view(args@) =~= dynamic_args(quality@, container@, encoder@));
    args
}

/// The yt-dlp options that select the streams of a task. `h264_encoder` is used
/// only where `task_needs_encoder` holds.
pub fn format_selection_args(task_type: &TaskType, h264_encoder: &str) -> (r: Vec<String>)
    ensures
        strings_view(r@) == format_args(task_type@, h264_encoder@),
{
    let mut args: Vec<String> = Vec::new();
    match task_type {
        TaskType::DownloadVideo { format_preset } => {
            if starts_with(format_preset.as_str(), "dynamic:") {
                match parse_dynamic_preset(format_preset.as_str()) {
                    Some((quality, container)) => {
                        return dynamic_format_args(
                            quality.as_str(),
                            container.as_str(),
                            h264_encoder,
                        );
                    },
                    None => {
                        push_owned(&mut args, "-f");
                        push_owned(&mut args, "bestvideo+bestaudio/best");
                    },
                }
            } else {
                match get_preset_by_id(format_preset.as_str()) {
                    Some(p) => {
                        push_owned(&mut args, "-f");
                        push_owned(&mut args, p.format_filter.as_str());
                        match &p.merge_format {
                            Some(m) => {
                                push_owned(&mut args, "--merge-output-format");
                                push_owned(&mut args, m.as_str());
                            },
                            None => {},
                        }
                    },
                    None => {
                        push_owned(&mut args, "-f");
                        push_owned(&mut args, "bestvideo+bestaudio/best");
                    },
                }
            }
        },
        TaskType::DownloadAudio { audio_format } => {
            push_owned(&mut args, "-x");
            push_owned(&mut args, "--audio-format");
            push_owned(&mut args, audio_format.as_str());
            push_owned(&mut args, "--audio-quality");
            push_owned(&mut args, "0");
        },
        _ => {
            push_owned(&mut args, "-f");
            push_owned(&mut args, "best");
        },
    }
    assert(strings_view(args@) =~= format_args(task_type@, h264_encoder@));
    args
}

/// The user's extra yt-dlp options: the white-space separated words of the
/// setting, none where it is absent or blank.
pub open spec fn custom_flags(flags: Option<Seq<char>>) -> Seq<Seq<char>> {
    match flags {
        Some(f) => if trim_ws(f).len() == 0 {
            Seq::empty()
        } else {
            ws_tokens(f)
        },
        None => Seq::empty(),
    }
}

/// The extra yt-dlp options from the advanced-mode setting.
pub fn custom_flag_args(flags: Option<&str>) -> (r: Vec<String>)
    ensures
        strings_view(r@) == custom_flags(crate::url_normalizer::opt_str_view(flags)),
{
    match flags {
        Some(f) => {
            let v = chars_of(f);
            let (a, b) = trim_ws_range(&v, 0, v.len());
            assert(v@.subrange(0, v@.len() as int) =~= v@);
            if a == b {
                let r: Vec<String> = Vec::new();
                assert(strings_view(r@) =~= Seq::<Seq<char>>::empty());
                r
            } else {
                split_whitespace(f)
            }
        },
        None => {
            let r: Vec<String> = Vec::new();
            assert(strings_view(r@) =~= Seq::<Seq<char>>::empty());
            r
        },
    }
}

// ---------------------------------------------------------------------------
// Failure messages
// ---------------------------------------------------------------------------

/// Some suffix of `s` takes exactly `n` bytes.
pub open spec fn suffix_boundary(s: Seq<char>, n: nat) -> bool {
    exists|k: int| 0 <= k <= s.len() && utf8_width(s.skip(k)) == n
}

/// The message is short enough, or keeping its last 300 bytes does not split a character.
pub open spec fn failure_tail_ok(stderr: Seq<char>) -> bool {
    utf8_width(trim_ws(stderr)) <= 300 || suffix_boundary(trim_ws(stderr), 300)
}

/// The message shown for a failed yt-dlp run: its trimmed error output, cut to
/// the last 300 bytes behind `...` when longer.
pub open spec fn failure_message(stderr: Seq<char>) -> Seq<char> {
    if stderr.len() == 0 {
        "yt-dlp exited with non-zero status code."@
    } else {
        let t = trim_ws(stderr);
        if utf8_width(t) <= 300 {
            t
        } else {
            "..."@ + t.skip(choose|k: int| 0 <= k <= t.len() && utf8_width(t.skip(k)) == 300)
        }
    }
}

proof fn lemma_width_skip_step(s: Seq<char>, k: int)
    requires
        0 < k <= s.len(),
    ensures
        utf8_width(s.skip(k - 1)) == utf8_width(s.skip(k)) + char_width(s[k - 1]),
{
    assert(s.skip(k - 1).drop_first() =~= s.skip(k));
}

proof fn lemma_width_skip_monotone(s: Seq<char>, i: int, j: int)
    requires
        0 <= i <= j <= s.len(),
    ensures
        utf8_width(s.skip(j)) + (j - i) <= utf8_width(s.skip(i)),
    decreases j - i,
{
    if i < j {
        lemma_width_skip_monotone(s, i + 1, j);
        lemma_width_skip_step(s, i + 1);
    }
}

fn failure_message_steps(stderr: &str) -> (r: Option<String>)
    ensures
        r is Some <==> (stderr@.len() == 0 || failure_tail_ok(stderr@)),
        r matches Some(m) ==> m@ == failure_message(stderr@),
{
    if stderr.is_empty() {
        return Some(owned("yt-dlp exited with non-zero status code."));
    }
    let v = chars_of(stderr);
    let (a, b) = trim_ws_range(&v, 0, v.len());
    assert(v@.subrange(0, v@.len() as int) =~= v@);
    let ghost t = v@.subrange(a as int, b as int);
    // Width of the shortest suffix that reaches 300 bytes.
    let mut w: usize = 0;
    let mut k: usize = b;
    while k > a && w < 300
        invariant
            a <= k <= b,
            b <= v.len(),
            t == v@.subrange(a as int, b as int),
            w == utf8_width(t.skip(k - a)),
            w <= 303,
            k < b ==> utf8_width(t.skip(k - a + 1)) < 300,
        decreases k - a,
    {
        proof {
            lemma_width_skip_step(t, k - a);
            assert(t[k - a - 1] == v@[k - 1]);
        }
        w = w + crate::sanitizer::char_width_exec(v[k - 1]);
        k = k - 1;
    }
    proof {
        assert(t.skip(0) =~= t);
    }
    if w < 300 || (w == 300 && k == a) {
        return Some(string_of_range(&v, a, b));
    }
    if w > 300 {
        proof {
            lemma_width_skip_monotone(t, 0, k - a);
            assert forall|k2: int| 0 <= k2 <= t.len() implies utf8_width(t.skip(k2)) != 300 by {
                if k2 > k - a {
                    lemma_width_skip_monotone(t, k - a + 1, k2);
                } else {
                    lemma_width_skip_monotone(t, k2, k - a);
                }
            }
        }
        return None;
    }
    proof {
        lemma_width_skip_monotone(t, 0, k - a);
        let k0 = choose|k2: int| 0 <= k2 <= t.len() && utf8_width(t.skip(k2)) == 300;
        if k0 < k - a {
            lemma_width_skip_monotone(t, k0, k - a);
        } else if k0 > k - a {
            lemma_width_skip_monotone(t, k - a, k0);
        }
        assert(v@.subrange(k as int, b as int) =~= t.skip(k - a));
    }
    let tail = string_of_range(&v, k, b);
    Some(concat("...", tail.as_str()))
}

/// The message recorded for a failed yt-dlp run, from its error output.
pub fn failure_summary(stderr: &str) -> (r: String)
    requires
        stderr@.len() == 0 || failure_tail_ok(stderr@),
    ensures
        r@ == failure_message(stderr@),
{
    match failure_message_steps(stderr) {
        Some(m) => m,
        None => {
            proof {
                assert(false);
            }
            String::new()
        },
    }
}

/// `failure_summary` for every input: `None` exactly where keeping the last 300
/// bytes would split a character.
pub fn checked_failure_summary(stderr: &str) -> (r: Option<String>)
    ensures
        r is Some <==> (stderr@.len() == 0 || failure_tail_ok(stderr@)),
        r matches Some(m) ==> m@ == failure_message(stderr@),
{
    failure_message_steps(stderr)
}

// ---------------------------------------------------------------------------
// Direct downloads
// ---------------------------------------------------------------------------

/// The file name of a direct download: the last `/` piece of the URL, without
/// its query string.
pub open spec fn direct_file_name(url: Seq<char>) -> Seq<char> {
    let name = split_on(url, '/').last();
    if contains_char(name, '?') {
        split_on(name, '?')[0]
    } else {
        name
    }
}

/// The extension of a direct download: the last `.` piece of its file name, `mp4`
/// where it has none.
pub open spec fn direct_file_extension(url: Seq<char>) -> Seq<char> {
    let name = direct_file_name(url);
    if contains_char(name, '.') {
        split_on(name, '.').last()
    } else {
        "mp4"@
    }
}

/// The file name and the extension a direct HTTP download is saved under.
pub fn direct_download_names(url: &str) -> (r: (String, String))
    ensures
        r.0@ == direct_file_name(url@),
        r.1@ == direct_file_extension(url@),
{
    let mut pieces = split_char(url, '/');
    proof {
        lemma_split_nonempty(url@, '/');
    }
    let last = pieces.len() - 1;
    let name = pieces.remove(last);
    let name_chars = chars_of(name.as_str());
    let clean = if contains_char_exec(&name_chars, '?') {
        let mut q = split_char(name.as_str(), '?');
        proof {
            lemma_split_nonempty(name@, '?');
        }
        q.remove(0)
    } else {
        name
    };
    let clean_chars = chars_of(clean.as_str());
    let ext = if contains_char_exec(&clean_chars, '.') {
        let mut d = split_char(clean.as_str(), '.');
        proof {
            lemma_split_nonempty(clean@, '.');
        }
        let n = d.len() - 1;
        d.remove(n)
    } else {
        owned("mp4")
    };
    (clean, ext)
}


/// The message recorded for a failed run takes at most 303 bytes: the last 300
/// bytes of the error output behind `...`.
pub proof fn lemma_failure_message_bounded(stderr: Seq<char>)
    requires
        stderr.len() > 0,
        failure_tail_ok(stderr),
    ensures
        utf8_width(failure_message(stderr)) <= 303,
{
    let t = trim_ws(stderr);
    if utf8_width(t) > 300 {
        let k = choose|k: int| 0 <= k <= t.len() && utf8_width(t.skip(k)) == 300;
        reveal_strlit("...");
        assert(utf8_width("..."@) == 3) by {
            reveal_with_fuel(utf8_width, 4);
        }
        crate::text::lemma_width_concat("..."@, t.skip(k));
    }
}

} // verus!
