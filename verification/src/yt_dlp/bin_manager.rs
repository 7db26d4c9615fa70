//! Locating the yt-dlp, ffmpeg and ffprobe executables, and the release
//! channels yt-dlp is downloaded from.
use vstd::prelude::*;
use std::path::PathBuf;

use crate::paths::{path_exists, path_from, path_is_file, path_join, path_joined, path_of_text};
use crate::text::{concat, contains, eq_str, owned, split_char};

verus! {

/// The family of operating system the executables are looked up for.
#[derive(Debug, Clone, Copy, PartialEq, Eq, Structural)]
pub enum HostOs {
    /// Executables end in `.exe`, `PATH` entries are separated by `;`.
    Windows,
    /// Unix-like systems: `PATH` entries separated by `:`, with the usual
    /// binary folders searched last.
    Unix,
    /// Any other system: `PATH` entries separated by `:`.
    Other,
}

/// The yt-dlp release channels.
#[derive(Debug, Clone, Copy, PartialEq, Eq, Structural)]
pub enum UpdateChannel {
    Stable,
    Beta,
    Nightly,
}

/// The name a channel is stored under.
pub open spec fn channel_name(c: UpdateChannel) -> Seq<char> {
    match c {
        UpdateChannel::Stable => "Stable"@,
        UpdateChannel::Beta => "Beta"@,
        UpdateChannel::Nightly => "Nightly"@,
    }
}

/// The channel a stored setting selects: `Beta`, `Nightly`, otherwise `Stable`.
pub open spec fn channel_from_setting(s: Option<Seq<char>>) -> UpdateChannel {
    match s {
        Some(n) => if n == "Beta"@ {
            UpdateChannel::Beta
        } else if n == "Nightly"@ {
            UpdateChannel::Nightly
        } else {
            UpdateChannel::Stable
        },
        None => UpdateChannel::Stable,
    }
}

/// The release download of a channel for a system.
pub open spec fn channel_url(c: UpdateChannel, os: HostOs) -> Seq<char> {
    if os == HostOs::Windows {
        match c {
            UpdateChannel::Stable => "https://github.com/yt-dlp/yt-dlp/releases/latest/download/yt-dlp.exe"@,
            UpdateChannel::Beta => "https://github.com/yt-dlp/yt-dlp-master-builds/releases/latest/download/yt-dlp.exe"@,
            UpdateChannel::Nightly => "https://github.com/yt-dlp/yt-dlp-nightly-builds/releases/latest/download/yt-dlp.exe"@,
        }
    } else {
        match c {
            UpdateChannel::Stable => "https://github.com/yt-dlp/yt-dlp/releases/latest/download/yt-dlp"@,
            UpdateChannel::Beta => "https://github.com/yt-dlp/yt-dlp-master-builds/releases/latest/download/yt-dlp"@,
            UpdateChannel::Nightly => "https://github.com/yt-dlp/yt-dlp-nightly-builds/releases/latest/download/yt-dlp"@,
        }
    }
}

impl UpdateChannel {
    /// The name this channel is stored under.
    pub fn as_str(&self) -> (r: &'static str)
        ensures
            r@ == channel_name(*self),
    {
        match self {
            UpdateChannel::Stable => "Stable",
            UpdateChannel::Beta => "Beta",
            UpdateChannel::Nightly => "Nightly",
        }
    }

    /// The URL of this channel's latest release of yt-dlp for a system.
    pub fn download_url(&self, os: HostOs) -> (r: &'static str)
        ensures
            r@ == channel_url(*self, os),
    {
        if os == HostOs::Windows {
            match self {
                UpdateChannel::Stable => "https://github.com/yt-dlp/yt-dlp/releases/latest/download/yt-dlp.exe",
                UpdateChannel::Beta => "https://github.com/yt-dlp/yt-dlp-master-builds/releases/latest/download/yt-dlp.exe",
                UpdateChannel::Nightly => "https://github.com/yt-dlp/yt-dlp-nightly-builds/releases/latest/download/yt-dlp.exe",
            }
        } else {
            match self {
                UpdateChannel::Stable => "https://github.com/yt-dlp/yt-dlp/releases/latest/download/yt-dlp",
                UpdateChannel::Beta => "https://github.com/yt-dlp/yt-dlp-master-builds/releases/latest/download/yt-dlp",
                UpdateChannel::Nightly => "https://github.com/yt-dlp/yt-dlp-nightly-builds/releases/latest/download/yt-dlp",
            }
        }
    }

    /// The channel selected by the stored `yt_dlp_channel` setting.
    pub fn from_setting(setting: Option<&str>) -> (r: UpdateChannel)
        ensures
            r == channel_from_setting(crate::url_normalizer::opt_str_view(setting)),
    {
        match setting {
            Some(s) => if eq_str(s, "Beta") {
                UpdateChannel::Beta
            } else if eq_str(s, "Nightly") {
                UpdateChannel::Nightly
            } else {
                UpdateChannel::Stable
            },
            None => UpdateChannel::Stable,
        }
    }
}

/// Storing a channel's name and reading the setting back selects the same channel.
pub proof fn lemma_channel_setting_round_trip(c: UpdateChannel)
    ensures
        channel_from_setting(Some(channel_name(c))) == c,
{
    reveal_strlit("Stable");
    reveal_strlit("Beta");
    reveal_strlit("Nightly");
    assert("Stable"@[0] != "Beta"@[0]);
    assert("Stable"@[0] != "Nightly"@[0]);
    assert("Beta"@[0] != "Nightly"@[0]);
}

/// Why an executable could not be located.
#[derive(Debug, Clone, Copy, PartialEq, Eq, Structural)]
pub enum BinaryError {
    YtDlpNotFound,
    FfmpegNotFound,
    FfprobeNotFound,
}

impl BinaryError {
    /// The message shown for this error.
    pub fn message(&self) -> (r: &'static str)
        ensures
            r@ == match *self {
                BinaryError::YtDlpNotFound => "yt-dlp binary could not be found locally or on the system PATH."@,
                BinaryError::FfmpegNotFound => "ffmpeg binary could not be resolved."@,
                BinaryError::FfprobeNotFound => "ffprobe binary could not be resolved."@,
            },
    {
        match self {
            BinaryError::YtDlpNotFound => "yt-dlp binary could not be found locally or on the system PATH.",
            BinaryError::FfmpegNotFound => "ffmpeg binary could not be resolved.",
            BinaryError::FfprobeNotFound => "ffprobe binary could not be resolved.",
        }
    }
}

/// The file name of an executable on a system.
pub open spec fn exe_name(base: Seq<char>, os: HostOs) -> Seq<char> {
    if os == HostOs::Windows {
        base + ".exe"@
    } else {
        base
    }
}

/// The separator of `PATH` entries on a system.
pub open spec fn path_separator(os: HostOs) -> char {
    if os == HostOs::Windows {
        ';'
    } else {
        ':'
    }
}

/// The file name of an executable on a system: `.exe` appended on Windows.
pub fn executable_name(base: &str, os: HostOs) -> (r: String)
    ensures
        r@ == exe_name(base@, os),
{
    if os == HostOs::Windows {
        concat(base, ".exe")
    } else {
        owned(base)
    }
}

/// The H.264 encoder to transcode with, from the listing of `ffmpeg -encoders`:
/// the first hardware encoder present in the order VideoToolbox, NVENC, AMF, QSV,
/// otherwise the software encoder.
pub open spec fn best_encoder(listing: Seq<char>) -> Seq<char> {
    if crate::text::contains_seq(listing, "h264_videotoolbox"@) {
        "h264_videotoolbox"@
    } else if crate::text::contains_seq(listing, "h264_nvenc"@) {
        "h264_nvenc"@
    } else if crate::text::contains_seq(listing, "h264_amf"@) {
        "h264_amf"@
    } else if crate::text::contains_seq(listing, "h264_qsv"@) {
        "h264_qsv"@
    } else {
        "libx264"@
    }
}

/// The encoder chosen from a listing is the highest-ranked one it names, in the
/// order VideoToolbox, NVENC, AMF, QSV, and the software encoder where it names
/// none: the choice is always named by the listing or `libx264`, and no
/// higher-ranked encoder named by the listing is passed over.
pub proof fn lemma_encoder_priority(listing: Seq<char>)
    ensures
        best_encoder(listing) == "libx264"@ || crate::text::contains_seq(listing, best_encoder(listing)),
        crate::text::contains_seq(listing, "h264_videotoolbox"@) ==> best_encoder(listing)
            == "h264_videotoolbox"@,
        !crate::text::contains_seq(listing, "h264_videotoolbox"@) && crate::text::contains_seq(
            listing,
            "h264_nvenc"@,
        ) ==> best_encoder(listing) == "h264_nvenc"@,
        !crate::text::contains_seq(listing, "h264_videotoolbox"@) && !crate::text::contains_seq(
            listing,
            "h264_nvenc"@,
        ) && crate::text::contains_seq(listing, "h264_amf"@) ==> best_encoder(listing)
            == "h264_amf"@,
        !crate::text::contains_seq(listing, "h264_videotoolbox"@) && !crate::text::contains_seq(
            listing,
            "h264_nvenc"@,
        ) && !crate::text::contains_seq(listing, "h264_amf"@) && crate::text::contains_seq(
            listing,
            "h264_qsv"@,
        ) ==> best_encoder(listing) == "h264_qsv"@,
        !crate::text::contains_seq(listing, "h264_videotoolbox"@) && !crate::text::contains_seq(
            listing,
            "h264_nvenc"@,
        ) && !crate::text::contains_seq(listing, "h264_amf"@) && !crate::text::contains_seq(
            listing,
            "h264_qsv"@,
        ) ==> best_encoder(listing) == "libx264"@,
{
}

/// The best H.264 encoder named in the output of `ffmpeg -encoders`.
pub fn select_h264_encoder(encoders_listing: &str) -> (r: String)
    ensures
        r@ == best_encoder(encoders_listing@),
{
    if contains(encoders_listing, "h264_videotoolbox") {
        owned("h264_videotoolbox")
    } else if contains(encoders_listing, "h264_nvenc") {
        owned("h264_nvenc")
    } else if contains(encoders_listing, "h264_amf") {
        owned("h264_amf")
    } else if contains(encoders_listing, "h264_qsv") {
        owned("h264_qsv")
    } else {
        owned("libx264")
    }
}

/// The encoder used where ffmpeg cannot be asked.
pub fn fallback_h264_encoder() -> (r: String)
    ensures
        r@ == "libx264"@,
{
    owned("libx264")
}

/// The folders named by a `PATH` value, in search order.
pub open spec fn path_entries(search_path: Option<Seq<char>>, os: HostOs) -> Seq<Seq<char>> {
    match search_path {
        Some(p) => crate::text::split_on(p, path_separator(os)),
        None => Seq::empty(),
    }
}

/// The folders searched after the `PATH` ones: the usual binary folders on Unix.
pub open spec fn standard_entries(os: HostOs) -> Seq<Seq<char>> {
    if os == HostOs::Unix {
        seq!["/usr/bin"@, "/usr/local/bin"@, "/opt/homebrew/bin"@, "/opt/local/bin"@]
    } else {
        Seq::empty()
    }
}

/// The folders of a `PATH` value, in search order.
pub fn search_path_entries(search_path: Option<&str>, os: HostOs) -> (r: Vec<String>)
    ensures
        crate::text::strings_view(r@) == path_entries(
            crate::url_normalizer::opt_str_view(search_path),
            os,
        ),
{
    match search_path {
        Some(p) => {
            let sep = if os == HostOs::Windows {
                ';'
            } else {
                ':'
            };
            split_char(p, sep)
        },
        None => {
            let r: Vec<String> = Vec::new();
            assert(crate::text::strings_view(r@) =~= Seq::<Seq<char>>::empty());
            r
        },
    }
}

/// The usual binary folders searched last.
pub fn standard_search_entries(os: HostOs) -> (r: Vec<&'static str>)
    ensures
        r@.map_values(|s: &str| s@) == standard_entries(os),
{
    if os == HostOs::Unix {
        let r = vec!["/usr/bin", "/usr/local/bin", "/opt/homebrew/bin", "/opt/local/bin"];
        assert(r@.map_values(|s: &str| s@) =~= standard_entries(os));
        r
    } else {
        let r: Vec<&'static str> = Vec::new();
        assert(r@.map_values(|s: &str| s@) =~= standard_entries(os));
        r
    }
}

/// A place an executable may be taken from, and whether the filesystem must
/// report a regular file there (otherwise any entry will do).
pub struct Candidate {
    pub path: PathBuf,
    pub must_be_file: bool,
}

/// The view of a list of candidates.
pub open spec fn plan_view(v: Seq<Candidate>) -> Seq<(PathBuf, bool)> {
    v.map_values(|c: Candidate| (c.path, c.must_be_file))
}

/// The places an executable is looked for on the search path, in order: each
/// folder of the `PATH` value (a regular file is needed), then the usual binary
/// folders (any entry will do), joined with the executable's file name.
pub open spec fn path_plan(search_path: Option<Seq<char>>, base: Seq<char>, os: HostOs) -> Seq<
    (PathBuf, bool),
> {
    path_entries(search_path, os).map_values(
        |d: Seq<char>| (path_joined(path_of_text(d), exe_name(base, os)), true),
    ) + standard_entries(os).map_values(
        |d: Seq<char>| (path_joined(path_of_text(d), exe_name(base, os)), false),
    )
}

/// The position of the first candidate the filesystem reported present (the
/// length of the list where none was).
pub open spec fn first_found(found: Seq<bool>) -> int
    decreases found.len(),
{
    if found.len() == 0 {
        0
    } else if found[0] {
        0
    } else {
        1 + first_found(found.drop_first())
    }
}

/// The candidate a plan yields for the filesystem's answers: the first one
/// reported present, in order of precedence.
pub open spec fn selected(plan: Seq<(PathBuf, bool)>, found: Seq<bool>) -> Option<PathBuf> {
    if first_found(found) < found.len() {
        Some(plan[first_found(found)].0)
    } else {
        None
    }
}

/// The path is one of the places a plan looks at.
pub open spec fn offers(plan: Seq<(PathBuf, bool)>, p: PathBuf) -> bool {
    exists|i: int| 0 <= i < plan.len() && plan[i].0 == p
}

proof fn lemma_first_found(found: Seq<bool>)
    ensures
        0 <= first_found(found) <= found.len(),
        forall|j: int| 0 <= j < first_found(found) ==> !found[j],
        first_found(found) < found.len() ==> found[first_found(found)],
    decreases found.len(),
{
    if found.len() > 0 && !found[0] {
        lemma_first_found(found.drop_first());
        assert forall|j: int| 0 <= j < first_found(found) implies !found[j] by {
            if j > 0 {
                assert(found[j] == found.drop_first()[j - 1]);
            }
        }
    }
}

/// The candidate to take, given what the filesystem reported of each
/// candidate of a plan (in the plan's order): the first one reported present.
pub fn select_found(plan: Vec<Candidate>, found: &Vec<bool>) -> (r: Option<PathBuf>)
    requires
        plan.len() == found.len(),
    ensures
        r == selected(plan_view(plan@), found@),
{
    let ghost pv = plan_view(plan@);
    let mut rest = plan;
    let mut i: usize = 0;
    proof {
        lemma_first_found(found@);
    }
    while i < found.len()
        invariant
            0 <= i <= found.len(),
            rest.len() == found.len(),
            plan_view(rest@) == pv,
            pv == plan_view(plan@),
            forall|j: int| 0 <= j < i ==> !found@[j],
            0 <= first_found(found@) <= found@.len(),
            forall|j: int| 0 <= j < first_found(found@) ==> !found@[j],
            first_found(found@) < found@.len() ==> found@[first_found(found@)],
        decreases found.len() - i,
    {
        if found[i] {
            assert(first_found(found@) == i);
            let ghost before = rest@;
            assert(pv[i as int] == (before[i as int].path, before[i as int].must_be_file));
            let c = rest.remove(i);
            assert(c == before[i as int]);
            assert(selected(pv, found@) == Some(c.path));
            return Some(c.path);
        }
        i = i + 1;
    }
    None
}

/// A candidate is present: the filesystem reports an entry at its path, and a
/// regular file there where one is needed.
pub open spec fn present(exists: bool, is_file: bool, must_be_file: bool) -> bool {
    exists && (!must_be_file || is_file)
}

/// Whether a candidate is present, from the filesystem's answers on whether an
/// entry exists at its path and whether it is a regular file.
pub fn candidate_present(exists: bool, is_file: bool, must_be_file: bool) -> (r: bool)
    ensures
        r == present(exists, is_file, must_be_file),
{
    exists && (!must_be_file || is_file)
}

/// What the filesystem reports of each candidate, in order: whether there is
/// an entry at the path, and a regular file where one is needed
/// (`candidate_present` on the answers of `Path::exists` and `Path::is_file`;
/// the second is asked only where it matters).
fn probe(plan: &Vec<Candidate>) -> (found: Vec<bool>)
    ensures
        found.len() == plan.len(),
{
    let mut found: Vec<bool> = Vec::new();
    let mut i: usize = 0;
    while i < plan.len()
        invariant
            0 <= i <= plan.len(),
            found.len() == i,
        decreases plan.len() - i,
    {
        let c = &plan[i];
        let exists = path_exists(&c.path);
        let is_file = if exists && c.must_be_file {
            path_is_file(&c.path)
        } else {
            false
        };
        let p = candidate_present(exists, is_file, c.must_be_file);
        found.push(p);
        i = i + 1;
    }
    found
}

/// Locates and downloads the external executables, below a folder of its own.
#[derive(Debug, Clone)]
pub struct BinManager {
    pub bin_dir: PathBuf,
    pub host: HostOs,
}

impl BinManager {
    /// A manager for the executables in `bin_dir` on the given system.
    pub fn new(bin_dir: PathBuf, host: HostOs) -> (r: Self)
        ensures
            r.bin_dir == bin_dir,
            r.host == host,
    {
        Self { bin_dir, host }
    }

    /// The folder the downloaded executables are kept in.
    pub fn get_bin_dir(&self) -> (r: &PathBuf)
        ensures
            *r == self.bin_dir,
    {
        &self.bin_dir
    }

    /// Where the downloaded yt-dlp executable is kept: the binaries folder joined
    /// with the executable's file name.
    pub open spec fn yt_dlp_path(&self) -> PathBuf {
        path_joined(self.bin_dir, exe_name("yt-dlp"@, self.host))
    }

    /// Whether the downloaded yt-dlp executable is present.
    pub fn yt_dlp_local_exists(&self) -> bool {
        let p = self.get_yt_dlp_path();
        path_exists(&p)
    }

    /// Where the downloaded yt-dlp executable is kept.
    pub fn get_yt_dlp_path(&self) -> (r: PathBuf)
        ensures
            r == self.yt_dlp_path(),
    {
        let name = executable_name("yt-dlp", self.host);
        path_join(&self.bin_dir, name.as_str())
    }

    /// The places searched for an executable on the `PATH` value
    /// (`search_path`), then on Unix in the usual binary folders, in order.
    pub fn path_search_plan(&self, bin_name: &str, search_path: Option<&str>) -> (r: Vec<Candidate>)
        ensures
            plan_view(r@) == path_plan(
                crate::url_normalizer::opt_str_view(search_path),
                bin_name@,
                self.host,
            ),
    {
        let ghost entries = path_entries(crate::url_normalizer::opt_str_view(search_path), self.host);
        let ghost name = exe_name(bin_name@, self.host);
        let full_name = executable_name(bin_name, self.host);
        let dirs = search_path_entries(search_path, self.host);
        let mut plan: Vec<Candidate> = Vec::new();
        let mut i: usize = 0;
        while i < dirs.len()
            invariant
                0 <= i <= dirs.len(),
                crate::text::strings_view(dirs@) == entries,
                full_name@ == name,
                plan_view(plan@) == entries.take(i as int).map_values(
                    |d: Seq<char>| (path_joined(path_of_text(d), name), true),
                ),
            decreases dirs.len() - i,
        {
            let dir = path_from(dirs[i].as_str());
            let candidate = path_join(&dir, full_name.as_str());
            let ghost before = plan_view(plan@);
            plan.push(Candidate { path: candidate, must_be_file: true });
            proof {
                assert(entries[i as int] == dirs@[i as int]@);
                assert(entries.take(i + 1) =~= entries.take(i as int).push(entries[i as int]));
                assert(plan_view(plan@) =~= before.push((candidate, true)));
                assert(plan_view(plan@) =~= entries.take(i + 1).map_values(
                    |d: Seq<char>| (path_joined(path_of_text(d), name), true),
                ));
            }
            i = i + 1;
        }
        assert(entries.take(entries.len() as int) =~= entries);
        let ghost head = plan_view(plan@);
        let standard = standard_search_entries(self.host);
        let ghost st = standard_entries(self.host);
        let mut j: usize = 0;
        while j < standard.len()
            invariant
                0 <= j <= standard.len(),
                standard@.map_values(|s: &str| s@) == st,
                full_name@ == name,
                plan_view(plan@) == head + st.take(j as int).map_values(
                    |d: Seq<char>| (path_joined(path_of_text(d), name), false),
                ),
            decreases standard.len() - j,
        {
            let dir = path_from(standard[j]);
            let candidate = path_join(&dir, full_name.as_str());
            let ghost before = plan_view(plan@);
            plan.push(Candidate { path: candidate, must_be_file: false });
            proof {
                assert(st[j as int] == standard@[j as int]@);
                assert(st.take(j + 1) =~= st.take(j as int).push(st[j as int]));
                assert(plan_view(plan@) =~= before.push((candidate, false)));
                assert(plan_view(plan@) =~= head + st.take(j + 1).map_values(
                    |d: Seq<char>| (path_joined(path_of_text(d), name), false),
                ));
            }
            j = j + 1;
        }
        assert(st.take(st.len() as int) =~= st);
        plan
    }

    /// The places yt-dlp is taken from, in order of precedence: the custom path
    /// from the settings (a regular file is needed), the downloaded one, then the
    /// search path.
    pub open spec fn yt_dlp_plan(&self, custom_path: Option<Seq<char>>, search_path: Option<Seq<char>>) -> Seq<
        (PathBuf, bool),
    > {
        let custom: Seq<(PathBuf, bool)> = match custom_path {
            Some(c) => seq![(path_of_text(c), true)],
            None => Seq::empty(),
        };
        custom + seq![(self.yt_dlp_path(), false)] + path_plan(search_path, "yt-dlp"@, self.host)
    }

    /// The places yt-dlp is taken from, in order of precedence.
    pub fn yt_dlp_search_plan(&self, custom_path: Option<&str>, search_path: Option<&str>) -> (r: Vec<
        Candidate,
    >)
        ensures
            plan_view(r@) == self.yt_dlp_plan(
                crate::url_normalizer::opt_str_view(custom_path),
                crate::url_normalizer::opt_str_view(search_path),
            ),
    {
        let mut plan: Vec<Candidate> = Vec::new();
        if let Some(cp) = custom_path {
            plan.push(Candidate { path: path_from(cp), must_be_file: true });
        }
        plan.push(Candidate { path: self.get_yt_dlp_path(), must_be_file: false });
        let ghost head = plan_view(plan@);
        let rest = self.path_search_plan("yt-dlp", search_path);
        let ghost tail = plan_view(rest@);
        let mut rest = rest;
        plan.append(&mut rest);
        assert(plan_view(plan@) =~= head + tail);
        assert(plan_view(plan@) =~= self.yt_dlp_plan(
            crate::url_normalizer::opt_str_view(custom_path),
            crate::url_normalizer::opt_str_view(search_path),
        ));
        plan
    }

    /// Resolves the yt-dlp executable: the custom path from the settings if it
    /// names a file, else the downloaded one, else one found on `search_path`;
    /// the first of these places the filesystem reports it at (`select_found`).
    pub fn resolve_yt_dlp_binary(&self, custom_path: Option<&str>, search_path: Option<&str>) -> (r:
        Result<PathBuf, BinaryError>)
        ensures
            r matches Err(e) ==> e == BinaryError::YtDlpNotFound,
            r matches Ok(p) ==> offers(
                self.yt_dlp_plan(
                    crate::url_normalizer::opt_str_view(custom_path),
                    crate::url_normalizer::opt_str_view(search_path),
                ),
                p,
            ),
    {
        let plan = self.yt_dlp_search_plan(custom_path, search_path);
        let found = probe(&plan);
        proof {
            lemma_first_found(found@);
        }
        match select_found(plan, &found) {
            Some(p) => Ok(p),
            None => Err(BinaryError::YtDlpNotFound),
        }
    }

    /// The places a tool kept beside yt-dlp is taken from, in order of
    /// precedence: the downloaded one, then the search path.
    pub open spec fn tool_plan(&self, base: Seq<char>, search_path: Option<Seq<char>>) -> Seq<(PathBuf, bool)> {
        seq![(path_joined(self.bin_dir, exe_name(base, self.host)), false)] + path_plan(
            search_path,
            base,
            self.host,
        )
    }

    /// The places a tool kept beside yt-dlp is taken from, in order of precedence.
    pub fn tool_search_plan(&self, base: &str, search_path: Option<&str>) -> (r: Vec<Candidate>)
        ensures
            plan_view(r@) == self.tool_plan(base@, crate::url_normalizer::opt_str_view(search_path)),
    {
        let name = executable_name(base, self.host);
        let mut plan: Vec<Candidate> = Vec::new();
        plan.push(Candidate { path: path_join(&self.bin_dir, name.as_str()), must_be_file: false });
        let ghost head = plan_view(plan@);
        let mut rest = self.path_search_plan(base, search_path);
        let ghost tail = plan_view(rest@);
        plan.append(&mut rest);
        assert(plan_view(plan@) =~= head + tail);
        plan
    }

    /// Resolves an executable kept beside yt-dlp: the downloaded one, else one
    /// found on `search_path`; the first of these places the filesystem reports.
    fn resolve_tool(&self, base: &str, search_path: Option<&str>) -> (r: Option<PathBuf>)
        ensures
            r matches Some(p) ==> offers(
                self.tool_plan(base@, crate::url_normalizer::opt_str_view(search_path)),
                p,
            ),
    {
        let plan = self.tool_search_plan(base, search_path);
        let found = probe(&plan);
        proof {
            lemma_first_found(found@);
        }
        select_found(plan, &found)
    }

    /// Resolves ffmpeg: the downloaded one, else one found on `search_path`.
    pub fn resolve_ffmpeg_binary(&self, search_path: Option<&str>) -> (r: Result<PathBuf, BinaryError>)
        ensures
            r matches Err(e) ==> e == BinaryError::FfmpegNotFound,
            r matches Ok(p) ==> offers(
                self.tool_plan("ffmpeg"@, crate::url_normalizer::opt_str_view(search_path)),
                p,
            ),
    {
        match self.resolve_tool("ffmpeg", search_path) {
            Some(p) => Ok(p),
            None => Err(BinaryError::FfmpegNotFound),
        }
    }

    /// Resolves ffprobe: the downloaded one, else one found on `search_path`.
    pub fn resolve_ffprobe_binary(&self, search_path: Option<&str>) -> (r: Result<PathBuf, BinaryError>)
        ensures
            r matches Err(e) ==> e == BinaryError::FfprobeNotFound,
            r matches Ok(p) ==> offers(
                self.tool_plan("ffprobe"@, crate::url_normalizer::opt_str_view(search_path)),
                p,
            ),
    {
        match self.resolve_tool("ffprobe", search_path) {
            Some(p) => Ok(p),
            None => Err(BinaryError::FfprobeNotFound),
        }
    }
}

} // verus!
