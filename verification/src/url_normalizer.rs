//! Platform detection and the rewriting of social-media links into the clean
//! endpoints that the yt-dlp extractors expect.
use vstd::prelude::*;
use url::Url;

use crate::text::{
    chars_of, concat, contains, eq_str, contains_seq, has_prefix, owned, push_str, starts_with, starts_with_chars,
    str_to_lowercase, strip_prefix_all, to_lowercase, trim, trim_char, trim_char_range, trim_ws,
    string_of_range, strings_view,
};

verus! {

/// Supported social video platforms.
#[derive(Debug, Clone, Copy, PartialEq, Eq, Structural)]
pub enum Platform {
    YouTube,
    Instagram,
    Facebook,
    TikTok,
    Vimeo,
    Generic,
}

// ---------------------------------------------------------------------------
// The parts of a URL that the rules read, and the two calls into `url`
// ---------------------------------------------------------------------------

/// What the rules read of a parsed URL: its host, its path and its decoded query pairs.
pub struct UrlComponents {
    pub host: Option<String>,
    pub path: String,
    pub query: Vec<(String, String)>,
}

/// The view of `UrlComponents`.
pub struct UrlComponentsView {
    pub host: Option<Seq<char>>,
    pub path: Seq<char>,
    pub query: Seq<(Seq<char>, Seq<char>)>,
}

/// The view of a list of query pairs.
pub open spec fn pairs_view(v: Seq<(String, String)>) -> Seq<(Seq<char>, Seq<char>)> {
    v.map_values(|p: (String, String)| (p.0@, p.1@))
}

/// The view of an optional string slice.
pub open spec fn opt_str_view(o: Option<&str>) -> Option<Seq<char>> {
    match o {
        Some(s) => Some(s@),
        None => None,
    }
}

impl View for UrlComponents {
    type V = UrlComponentsView;

    open spec fn view(&self) -> UrlComponentsView {
        UrlComponentsView {
            host: match self.host {
                Some(h) => Some(h@),
                None => None,
            },
            path: self.path@,
            query: pairs_view(self.query@),
        }
    }
}

/// How a parsed URL is rewritten: the host set (where one is), the path set
/// (where one is), and the query pairs kept (`None`: the query removed).
pub struct UrlRewrite {
    pub host: Option<String>,
    pub path: Option<String>,
    pub query: Option<Vec<(String, String)>>,
}

/// The view of `UrlRewrite`.
pub struct UrlRewriteView {
    pub host: Option<Seq<char>>,
    pub path: Option<Seq<char>>,
    pub query: Option<Seq<(Seq<char>, Seq<char>)>>,
}

impl View for UrlRewrite {
    type V = UrlRewriteView;

    open spec fn view(&self) -> UrlRewriteView {
        UrlRewriteView {
            host: match self.host {
                Some(h) => Some(h@),
                None => None,
            },
            path: match self.path {
                Some(p) => Some(p@),
                None => None,
            },
            query: match self.query {
                Some(q) => Some(pairs_view(q@)),
                None => None,
            },
        }
    }
}

/// What `Url::parse` gives for a string, read through `host_str`, `path` and
/// `query_pairs`; `None` where the string does not parse.
pub uninterp spec fn url_components_of(s: Seq<char>) -> Option<UrlComponentsView>;

/// What a parsed URL serializes to after `set_host` (where a host is given),
/// `set_path` (where a path is given) and the query replaced by the given pairs
/// (`None`: the query removed).
pub uninterp spec fn url_assembled(
    s: Seq<char>,
    host: Option<Seq<char>>,
    path: Option<Seq<char>>,
    query: Option<Seq<(Seq<char>, Seq<char>)>>,
) -> Seq<char>;

/// `Url::parse` followed by `host_str`, `path` and `query_pairs`: the contract
/// claims only that the result is a fixed function of the input, named
/// `url_components_of`.
#[verifier::external_body]
fn parse_url_components(s: &str) -> (r: Option<UrlComponents>)
    ensures
        match r {
            Some(c) => url_components_of(s@) == Some(c@),
            None => url_components_of(s@) is None,
        },
{
    let u = Url::parse(s).ok()?;
    let query = u.query_pairs().map(|(k, v)| (k.into_owned(), v.into_owned())).collect();
    Some(UrlComponents { host: u.host_str().map(|h| h.to_string()), path: u.path().to_string(), query })
}

/// `Url::parse` of `s`, then `set_host` (where the rewrite sets a host),
/// `set_path` (where it sets a path), `query_pairs_mut().clear()` with one
/// `append_pair` per kept pair (or `set_query(None)`), then `to_string`: the
/// contract claims only that the result is a fixed function of the arguments,
/// named `url_assembled`. Where `s` does not parse, it is returned unchanged.
#[verifier::external_body]
fn assemble_url(s: &str, w: &UrlRewrite) -> (r: String)
    ensures
        r@ == url_assembled(s@, w@.host, w@.path, w@.query),
{
    let Ok(mut u) = Url::parse(s) else { return s.to_string() };
    if let Some(h) = &w.host { u.set_host(Some(h)).ok(); }
    if let Some(p) = &w.path { u.set_path(p); }
    match &w.query {
        Some(pairs) => {
            u.query_pairs_mut().clear();
            for (k, v) in pairs { u.query_pairs_mut().append_pair(k, v); }
        }
        None => u.set_query(None),
    }
    u.to_string()
}

// ---------------------------------------------------------------------------
// Specification
// ---------------------------------------------------------------------------

/// The platform named by an already lower-cased URL.
pub open spec fn platform_of_lower(l: Seq<char>) -> Platform {
    if contains_seq(l, "youtube.com"@) || contains_seq(l, "youtu.be"@) {
        Platform::YouTube
    } else if contains_seq(l, "instagram.com"@) || contains_seq(l, "instagr.am"@) {
        Platform::Instagram
    } else if contains_seq(l, "facebook.com"@) || contains_seq(l, "fb.watch"@) || contains_seq(
        l,
        "fb.com"@,
    ) {
        Platform::Facebook
    } else if contains_seq(l, "tiktok.com"@) {
        Platform::TikTok
    } else if contains_seq(l, "vimeo.com"@) {
        Platform::Vimeo
    } else {
        Platform::Generic
    }
}

/// The platform of a URL.
pub open spec fn platform_of(url: Seq<char>) -> Platform {
    platform_of_lower(str_to_lowercase(url))
}

/// Which tracking parameters a rule set strips.
pub enum TrackingRules {
    Instagram,
    Facebook,
    Generic,
}

/// A query key is a tracking parameter under the given rules (compared lower-cased).
pub open spec fn is_tracking_key(rules: TrackingRules, key: Seq<char>) -> bool {
    let l = str_to_lowercase(key);
    match rules {
        TrackingRules::Instagram => has_prefix(l, "igsh"@) || has_prefix(l, "utm_"@) || l
            == "ig_rid"@ || l == "ig_mid"@ || l == "sfnsn"@,
        TrackingRules::Facebook => l == "mibextid"@ || l == "rdid"@ || l == "share_id"@ || l
            == "fbclid"@ || l == "ref"@ || l == "sfnsn"@ || has_prefix(l, "utm_"@),
        TrackingRules::Generic => has_prefix(l, "utm_"@) || l == "fbclid"@ || l == "gclid"@,
    }
}

/// The query pairs that are not tracking parameters, in their order.
pub open spec fn drop_tracking(rules: TrackingRules, pairs: Seq<(Seq<char>, Seq<char>)>) -> Seq<
    (Seq<char>, Seq<char>),
>
    decreases pairs.len(),
{
    if pairs.len() == 0 {
        Seq::empty()
    } else {
        let rest = drop_tracking(rules, pairs.drop_last());
        if is_tracking_key(rules, pairs.last().0) {
            rest
        } else {
            rest.push(pairs.last())
        }
    }
}

/// The query handed to the serializer: the kept pairs, or none at all.
pub open spec fn query_arg(kept: Seq<(Seq<char>, Seq<char>)>) -> Option<
    Seq<(Seq<char>, Seq<char>)>,
> {
    if kept.len() == 0 {
        None
    } else {
        Some(kept)
    }
}

/// Instagram paths: share links and the plural `/reels/` mapped to canonical ones.
pub open spec fn instagram_path(p: Seq<char>) -> Seq<char> {
    if has_prefix(p, "/share/reel/"@) {
        "/reel/"@ + p.skip("/share/reel/"@.len() as int)
    } else if has_prefix(p, "/share/p/"@) {
        "/p/"@ + p.skip("/share/p/"@.len() as int)
    } else if has_prefix(p, "/reels/"@) {
        "/reel/"@ + p.skip("/reels/"@.len() as int)
    } else {
        p
    }
}

/// The media id of a Facebook share path.
pub open spec fn share_id(p: Seq<char>, prefix: Seq<char>) -> Seq<char> {
    trim_char(strip_prefix_all(p, prefix), '/')
}

/// Mobile Facebook hosts are moved to the desktop host.
pub open spec fn facebook_host(host: Seq<char>) -> Option<Seq<char>> {
    if has_prefix(host, "m.facebook.com"@) || has_prefix(host, "web.facebook.com"@) || has_prefix(
        host,
        "touch.facebook.com"@,
    ) {
        Some("www.facebook.com"@)
    } else {
        None
    }
}

/// The URL with its scheme ensured (`https://` added where none is given).
pub open spec fn with_scheme(t: Seq<char>) -> Seq<char> {
    if has_prefix(t, "http://"@) || has_prefix(t, "https://"@) {
        t
    } else {
        "https://"@ + t
    }
}

/// The rewrite of a parsed URL with a (lower-cased) host, by the host's platform rules.
pub open spec fn rewrite_of(c: UrlComponentsView, host: Seq<char>) -> UrlRewriteView {
    if contains_seq(host, "instagram.com"@) || contains_seq(host, "instagr.am"@) {
        UrlRewriteView {
            host: Some("www.instagram.com"@),
            path: Some(instagram_path(c.path)),
            query: query_arg(drop_tracking(TrackingRules::Instagram, c.query)),
        }
    } else if contains_seq(host, "facebook.com"@) || contains_seq(host, "fb.watch"@)
        || contains_seq(host, "fb.com"@) {
        if has_prefix(c.path, "/share/r/"@) {
            UrlRewriteView {
                host: facebook_host(host),
                path: Some("/reel/"@ + share_id(c.path, "/share/r/"@) + "/"@),
                query: query_arg(drop_tracking(TrackingRules::Facebook, c.query)),
            }
        } else if has_prefix(c.path, "/share/v/"@) {
            UrlRewriteView {
                host: facebook_host(host),
                path: Some("/watch/"@),
                query: query_arg(
                    drop_tracking(
                        TrackingRules::Facebook,
                        c.query.push(("v"@, share_id(c.path, "/share/v/"@))),
                    ),
                ),
            }
        } else {
            UrlRewriteView {
                host: facebook_host(host),
                path: None,
                query: query_arg(drop_tracking(TrackingRules::Facebook, c.query)),
            }
        }
    } else {
        UrlRewriteView {
            host: None,
            path: None,
            query: query_arg(drop_tracking(TrackingRules::Generic, c.query)),
        }
    }
}

/// The normalization of a parsed URL with a (lower-cased) host.
pub open spec fn normalize_parsed(u: Seq<char>, c: UrlComponentsView, host: Seq<char>) -> Seq<
    char,
> {
    let w = rewrite_of(c, host);
    url_assembled(u, w.host, w.path, w.query)
}

/// The normalized form of a raw URL.
pub open spec fn normalized_url(raw: Seq<char>) -> Seq<char> {
    let t = trim_ws(raw);
    if t.len() == 0 {
        Seq::empty()
    } else {
        let u = with_scheme(t);
        match url_components_of(u) {
            None => u,
            Some(c) => match c.host {
                None => u,
                Some(h) => normalize_parsed(u, c, str_to_lowercase(h)),
            },
        }
    }
}

/// The command-line options yt-dlp gets for each platform.
pub open spec fn platform_args(p: Platform) -> Seq<Seq<char>> {
    let ua = "Mozilla/5.0 (Macintosh; Intel Mac OS X 10_15_7) AppleWebKit/537.36 (KHTML, like Gecko) Chrome/126.0.0.0 Safari/537.36"@;
    match p {
        Platform::Instagram => seq![
            "--user-agent"@, ua, "--add-header"@, "Accept-Language:en-US,en;q=0.9"@,
            "--add-header"@, "Referer:https://www.instagram.com/"@, "--no-check-certificates"@,
        ],
        Platform::Facebook => seq![
            "--user-agent"@, ua, "--add-header"@, "Accept-Language:en-US,en;q=0.9"@,
            "--add-header"@, "Referer:https://www.facebook.com/"@, "--no-check-certificates"@,
        ],
        Platform::TikTok => seq![
            "--user-agent"@, ua, "--add-header"@, "Referer:https://www.tiktok.com/"@,
        ],
        _ => seq!["--user-agent"@, ua],
    }
}

/// The format selection for a platform: Instagram and Facebook get the
/// progressive-stream fallback after any `bestvideo` selection.
pub open spec fn platform_filter(p: Platform, requested: Option<Seq<char>>) -> Seq<char> {
    let req = match requested {
        Some(r) => r,
        None => "bestvideo+bestaudio/best"@,
    };
    if (p == Platform::Instagram || p == Platform::Facebook) && contains_seq(req, "bestvideo"@) {
        req + "/b/best/hd/sd"@
    } else {
        req
    }
}

// ---------------------------------------------------------------------------
// Implementation
// ---------------------------------------------------------------------------

/// The platform named by a URL that is already lower-cased.
pub fn detect_platform_lowercased(lower: &str) -> (p: Platform)
    ensures
        p == platform_of_lower(lower@),
{
    if contains(lower, "youtube.com") || contains(lower, "youtu.be") {
        Platform::YouTube
    } else if contains(lower, "instagram.com") || contains(lower, "instagr.am") {
        Platform::Instagram
    } else if contains(lower, "facebook.com") || contains(lower, "fb.watch") || contains(
        lower,
        "fb.com",
    ) {
        Platform::Facebook
    } else if contains(lower, "tiktok.com") {
        Platform::TikTok
    } else if contains(lower, "vimeo.com") {
        Platform::Vimeo
    } else {
        Platform::Generic
    }
}

/// Detects the target platform from a URL, by the domains it contains.
pub fn detect_platform(url: &str) -> (p: Platform)
    ensures
        p == platform_of(url@),
{
    let lower = to_lowercase(url);
    detect_platform_lowercased(lower.as_str())
}

/// Whether a query key is a tracking parameter under the given rules.
fn is_tracking_key_exec(rules: &TrackingRules, key: &str) -> (r: bool)
    ensures
        r == is_tracking_key(*rules, key@),
{
    let l = to_lowercase(key);
    let l = l.as_str();
    match rules {
        TrackingRules::Instagram => starts_with(l, "igsh") || starts_with(l, "utm_") || eq_str(
            l,
            "ig_rid",
        ) || eq_str(l, "ig_mid") || eq_str(l, "sfnsn"),
        TrackingRules::Facebook => eq_str(l, "mibextid") || eq_str(l, "rdid") || eq_str(
            l,
            "share_id",
        ) || eq_str(l, "fbclid") || eq_str(l, "ref") || eq_str(l, "sfnsn") || starts_with(
            l,
            "utm_",
        ),
        TrackingRules::Generic => starts_with(l, "utm_") || eq_str(l, "fbclid") || eq_str(
            l,
            "gclid",
        ),
    }
}

/// The pairs that are not tracking parameters.
fn drop_tracking_exec(rules: TrackingRules, pairs: &Vec<(String, String)>) -> (r: Vec<(String, String)>)
    ensures
        pairs_view(r@) == drop_tracking(rules, pairs_view(pairs@)),
{
    let mut r: Vec<(String, String)> = Vec::new();
    let mut i: usize = 0;
    while i < pairs.len()
        invariant
            0 <= i <= pairs.len(),
            pairs_view(r@) == drop_tracking(rules, pairs_view(pairs@.take(i as int))),
        decreases pairs.len() - i,
    {
        let ghost before = pairs_view(pairs@.take(i as int));
        assert(pairs_view(pairs@.take(i + 1)).drop_last() =~= before);
        assert(pairs_view(pairs@.take(i + 1)).last() == (pairs@[i as int].0@, pairs@[i as int].1@));
        let (k, v) = (&pairs[i].0, &pairs[i].1);
        if !is_tracking_key_exec(&rules, k.as_str()) {
            let ghost rv = pairs_view(r@);
            r.push((k.clone(), v.clone()));
            assert(pairs_view(r@) =~= rv.push((k@, v@)));
        }
        i = i + 1;
    }
    assert(pairs@.take(pairs@.len() as int) =~= pairs@);
    r
}

/// `Some(v)` for a non-empty list, `None` for an empty one.
fn query_kept(v: Vec<(String, String)>) -> (r: Option<Vec<(String, String)>>)
    ensures
        match r {
            Some(q) => Some(pairs_view(q@)),
            None => None::<Seq<(Seq<char>, Seq<char>)>>,
        } == query_arg(pairs_view(v@)),
{
    if v.len() == 0 {
        None
    } else {
        Some(v)
    }
}

/// The id of a Facebook share path: every leading `prefix` removed, then `/` trimmed.
fn share_id_exec(path: &str, prefix: &str) -> (r: String)
    requires
        prefix@.len() > 0,
    ensures
        r@ == share_id(path@, prefix@),
{
    let v = chars_of(path);
    let p = chars_of(prefix);
    let mut start: usize = 0;
    let mut rest: Vec<char> = chars_of(path);
    while starts_with_chars(&rest, &p)
        invariant
            p@ == prefix@,
            p@.len() > 0,
            start <= v.len(),
            rest@ == v@.skip(start as int),
            strip_prefix_all(v@, p@) == strip_prefix_all(rest@, p@),
        decreases v.len() - start,
    {
        proof {
            assert(v@.skip(start as int).skip(p@.len() as int) =~= v@.skip(start + p@.len()));
        }
        start = start + p.len();
        rest = Vec::new();
        let mut j = start;
        while j < v.len()
            invariant
                start <= j <= v.len(),
                rest@ == v@.subrange(start as int, j as int),
            decreases v.len() - j,
        {
            rest.push(v[j]);
            assert(v@.subrange(start as int, j + 1) =~= v@.subrange(start as int, j as int).push(
                v@[j as int],
            ));
            j = j + 1;
        }
        assert(rest@ =~= v@.skip(start as int));
    }
    let (a, b) = trim_char_range(&rest, 0, rest.len(), '/');
    assert(rest@.subrange(0, rest@.len() as int) =~= rest@);
    string_of_range(&rest, a, b)
}

/// `prefix + rest`.
fn concat3(a: &str, b: &str, c: &str) -> (r: String)
    ensures
        r@ == a@ + b@ + c@,
{
    let mut r = owned(a);
    push_str(&mut r, b);
    push_str(&mut r, c);
    r
}

/// The Instagram path rewrite.
fn instagram_path_exec(p: &str) -> (r: String)
    ensures
        r@ == instagram_path(p@),
{
    let v = chars_of(p);
    if starts_with(p, "/share/reel/") {
        let n = chars_of("/share/reel/").len();
        let rest = string_of_range(&v, n, v.len());
        assert(v@.subrange(n as int, v@.len() as int) =~= p@.skip("/share/reel/"@.len() as int));
        concat("/reel/", rest.as_str())
    } else if starts_with(p, "/share/p/") {
        let n = chars_of("/share/p/").len();
        let rest = string_of_range(&v, n, v.len());
        assert(v@.subrange(n as int, v@.len() as int) =~= p@.skip("/share/p/"@.len() as int));
        concat("/p/", rest.as_str())
    } else if starts_with(p, "/reels/") {
        let n = chars_of("/reels/").len();
        let rest = string_of_range(&v, n, v.len());
        assert(v@.subrange(n as int, v@.len() as int) =~= p@.skip("/reels/"@.len() as int));
        concat("/reel/", rest.as_str())
    } else {
        owned(p)
    }
}

/// The Facebook host rewrite.
fn facebook_host_exec(host: &str) -> (r: Option<String>)
    ensures
        match r {
            Some(h) => Some(h@),
            None => None::<Seq<char>>,
        } == facebook_host(host@),
{
    if starts_with(host, "m.facebook.com") || starts_with(host, "web.facebook.com") || starts_with(
        host,
        "touch.facebook.com",
    ) {
        Some(owned("www.facebook.com"))
    } else {
        None
    }
}

/// The rewrite of a parsed URL by its (lower-cased) host's platform rules:
/// Instagram moved to `www.instagram.com` with canonical paths, Facebook mobile
/// hosts moved to the desktop host and share links mapped to reels and watch
/// pages, and the platform's tracking parameters dropped from the query.
pub fn plan_url_rewrite(c: &UrlComponents, host: &str) -> (r: UrlRewrite)
    ensures
        r@ == rewrite_of(c@, host@),
{
    if contains(host, "instagram.com") || contains(host, "instagr.am") {
        let path = instagram_path_exec(c.path.as_str());
        let kept = drop_tracking_exec(TrackingRules::Instagram, &c.query);
        return UrlRewrite { host: Some(owned("www.instagram.com")), path: Some(path), query: query_kept(kept) };
    }
    if contains(host, "facebook.com") || contains(host, "fb.watch") || contains(host, "fb.com") {
        let new_host = facebook_host_exec(host);
        let p = c.path.as_str();
        if starts_with(p, "/share/r/") {
            proof { reveal_strlit("/share/r/"); }
            let id = share_id_exec(p, "/share/r/");
            let path = concat3("/reel/", id.as_str(), "/");
            let kept = drop_tracking_exec(TrackingRules::Facebook, &c.query);
            return UrlRewrite { host: new_host, path: Some(path), query: query_kept(kept) };
        } else if starts_with(p, "/share/v/") {
            proof { reveal_strlit("/share/v/"); }
            let id = share_id_exec(p, "/share/v/");
            let mut all: Vec<(String, String)> = Vec::new();
            let mut i: usize = 0;
            while i < c.query.len()
                invariant
                    0 <= i <= c.query.len(),
                    pairs_view(all@) == pairs_view(c.query@.take(i as int)),
                decreases c.query.len() - i,
            {
                let k = c.query[i].0.clone();
                let v = c.query[i].1.clone();
                all.push((k, v));
                assert(c.query@.take(i + 1) =~= c.query@.take(i as int).push(c.query@[i as int]));
                assert(pairs_view(c.query@.take(i + 1)) =~= pairs_view(c.query@.take(i as int)).push(
                    (c.query@[i as int].0@, c.query@[i as int].1@),
                ));
                assert(pairs_view(all@) =~= pairs_view(c.query@.take(i + 1)));
                i = i + 1;
            }
            all.push((owned("v"), id));
            proof {
                assert(c.query@.take(c.query@.len() as int) =~= c.query@);
                assert(pairs_view(all@) =~= c@.query.push(("v"@, share_id(c@.path, "/share/v/"@))));
            }
            let kept = drop_tracking_exec(TrackingRules::Facebook, &all);
            return UrlRewrite { host: new_host, path: Some(owned("/watch/")), query: query_kept(kept) };
        } else {
            let kept = drop_tracking_exec(TrackingRules::Facebook, &c.query);
            return UrlRewrite { host: new_host, path: None, query: query_kept(kept) };
        }
    }
    let kept = drop_tracking_exec(TrackingRules::Generic, &c.query);
    UrlRewrite { host: None, path: None, query: query_kept(kept) }
}

/// Normalizes social media URLs: removes tracking parameters and maps
/// share and mobile endpoints to the standard media endpoints.
pub fn normalize_url(raw_url: &str) -> (r: String)
    ensures
        r@ == normalized_url(raw_url@),
{
    let trimmed = trim(raw_url);
    if trimmed.as_str().is_empty() {
        return String::new();
    }
    let t = trimmed.as_str();
    let url_str = if starts_with(t, "http://") || starts_with(t, "https://") {
        owned(t)
    } else {
        concat("https://", t)
    };
    proof {
        assert(url_str@ =~= with_scheme(trimmed@));
    }
    match parse_url_components(url_str.as_str()) {
        None => url_str,
        Some(c) => match &c.host {
            None => url_str,
            Some(h) => {
                let host = to_lowercase(h.as_str());
                let rewrite = plan_url_rewrite(&c, host.as_str());
                assemble_url(url_str.as_str(), &rewrite)
            },
        },
    }
}

/// The yt-dlp options for a platform: a desktop browser user agent, and for
/// Instagram, Facebook and TikTok the headers their extractors need.
pub fn args_for_platform(platform: Platform) -> (r: Vec<String>)
    ensures
        strings_view(r@) == platform_args(platform),
{
    let ua = "Mozilla/5.0 (Macintosh; Intel Mac OS X 10_15_7) AppleWebKit/537.36 (KHTML, like Gecko) Chrome/126.0.0.0 Safari/537.36";
    let mut args: Vec<String> = Vec::new();
    args.push(owned("--user-agent"));
    args.push(owned(ua));
    match platform {
        Platform::Instagram => {
            args.push(owned("--add-header"));
            args.push(owned("Accept-Language:en-US,en;q=0.9"));
            args.push(owned("--add-header"));
            args.push(owned("Referer:https://www.instagram.com/"));
            args.push(owned("--no-check-certificates"));
        },
        Platform::Facebook => {
            args.push(owned("--add-header"));
            args.push(owned("Accept-Language:en-US,en;q=0.9"));
            args.push(owned("--add-header"));
            args.push(owned("Referer:https://www.facebook.com/"));
            args.push(owned("--no-check-certificates"));
        },
        Platform::TikTok => {
            args.push(owned("--add-header"));
            args.push(owned("Referer:https://www.tiktok.com/"));
        },
        _ => {},
    }
    assert(strings_view(args@) =~= platform_args(platform));
    args
}

/// Platform-specific yt-dlp options for a URL.
pub fn get_platform_yt_dlp_args(url: &str) -> (r: Vec<String>)
    ensures
        strings_view(r@) == platform_args(platform_of(url@)),
{
    args_for_platform(detect_platform(url))
}

/// The format selection string for a platform and an optional requested selection.
pub fn filter_for_platform(platform: Platform, requested_filter: Option<&str>) -> (r: String)
    ensures
        r@ == platform_filter(platform, opt_str_view(requested_filter)),
{
    let req = match requested_filter {
        Some(r) => r,
        None => "bestvideo+bestaudio/best",
    };
    if (platform == Platform::Instagram || platform == Platform::Facebook) && contains(
        req,
        "bestvideo",
    ) {
        concat(req, "/b/best/hd/sd")
    } else {
        owned(req)
    }
}

/// The format selection string for a URL: for Instagram and Facebook a
/// `bestvideo` selection gets the progressive fallback `/b/best/hd/sd`.
pub fn get_platform_format_filter(url: &str, requested_filter: Option<&str>) -> (r: String)
    ensures
        r@ == platform_filter(platform_of(url@), opt_str_view(requested_filter)),
{
    filter_for_platform(detect_platform(url), requested_filter)
}

// ---------------------------------------------------------------------------
// Laws
// ---------------------------------------------------------------------------

/// The query handed to the serializer holds no tracking parameter, and every
/// other pair of the original query, in its order: `drop_tracking` keeps exactly
/// the non-tracking pairs.
pub proof fn lemma_tracking_parameters_removed(
    rules: TrackingRules,
    pairs: Seq<(Seq<char>, Seq<char>)>,
)
    ensures
        forall|i: int|
            0 <= i < drop_tracking(rules, pairs).len() ==> !is_tracking_key(
                rules,
                #[trigger] drop_tracking(rules, pairs)[i].0,
            ),
        drop_tracking(rules, pairs) == pairs.filter(|p: (Seq<char>, Seq<char>)| !is_tracking_key(rules, p.0)),
    decreases pairs.len(),
{
    reveal(Seq::filter);
    if pairs.len() > 0 {
        lemma_tracking_parameters_removed(rules, pairs.drop_last());
        let r = drop_tracking(rules, pairs.drop_last());
        assert forall|i: int|
            0 <= i < drop_tracking(rules, pairs).len() implies !is_tracking_key(
            rules,
            #[trigger] drop_tracking(rules, pairs)[i].0,
        ) by {
            if i < r.len() {
                assert(drop_tracking(rules, pairs)[i] == r[i]);
            }
        }
    } else {
        assert(pairs.filter(|p: (Seq<char>, Seq<char>)| !is_tracking_key(rules, p.0)) =~= Seq::empty());
    }
}

/// Platform detection ignores letter case: two URLs that lower-case alike are
/// detected as the same platform, and get the same yt-dlp options.
pub proof fn lemma_detection_ignores_case(a: Seq<char>, b: Seq<char>)
    requires
        str_to_lowercase(a) == str_to_lowercase(b),
    ensures
        platform_of(a) == platform_of(b),
        platform_args(platform_of(a)) == platform_args(platform_of(b)),
{
}

/// A URL is detected by the domains its lower-cased form contains, checked in
/// the order YouTube (`youtube.com`, `youtu.be`), Instagram (`instagram.com`,
/// `instagr.am`), Facebook (`facebook.com`, `fb.watch`, `fb.com`), TikTok
/// (`tiktok.com`), Vimeo (`vimeo.com`); any other URL is generic. A TikTok URL
/// gets the TikTok `Referer` header.
pub proof fn lemma_platform_by_domain(url: Seq<char>)
    ensures
        ({
            let l = str_to_lowercase(url);
            let yt = contains_seq(l, "youtube.com"@) || contains_seq(l, "youtu.be"@);
            let ig = contains_seq(l, "instagram.com"@) || contains_seq(l, "instagr.am"@);
            let fb = contains_seq(l, "facebook.com"@) || contains_seq(l, "fb.watch"@) || contains_seq(
                l,
                "fb.com"@,
            );
            let tt = contains_seq(l, "tiktok.com"@);
            let vm = contains_seq(l, "vimeo.com"@);
            &&& yt ==> platform_of(url) == Platform::YouTube
            &&& !yt && ig ==> platform_of(url) == Platform::Instagram
            &&& !yt && !ig && fb ==> platform_of(url) == Platform::Facebook
            &&& !yt && !ig && !fb && tt ==> platform_of(url) == Platform::TikTok
                && platform_args(platform_of(url)).contains("Referer:https://www.tiktok.com/"@)
            &&& !yt && !ig && !fb && !tt && vm ==> platform_of(url) == Platform::Vimeo
            &&& !yt && !ig && !fb && !tt && !vm ==> platform_of(url) == Platform::Generic
        }),
{
    let p = platform_args(Platform::TikTok);
    assert(p[3] == "Referer:https://www.tiktok.com/"@);
}

/// A link on a host that is neither Instagram nor Facebook keeps its host and
/// path, and its query loses exactly the pairs whose key lower-cases to
/// `fbclid`, `gclid` or starts with `utm_`: every other pair stays, in order,
/// and none of those keys is left (no query at all where nothing stays).
pub proof fn lemma_generic_links_lose_tracking_keys(c: UrlComponentsView, host: Seq<char>)
    requires
        !contains_seq(host, "instagram.com"@),
        !contains_seq(host, "instagr.am"@),
        !contains_seq(host, "facebook.com"@),
        !contains_seq(host, "fb.watch"@),
        !contains_seq(host, "fb.com"@),
    ensures
        rewrite_of(c, host).host is None,
        rewrite_of(c, host).path is None,
        rewrite_of(c, host).query == query_arg(
            c.query.filter(
                |p: (Seq<char>, Seq<char>)|
                    {
                        let l = str_to_lowercase(p.0);
                        !(has_prefix(l, "utm_"@) || l == "fbclid"@ || l == "gclid"@)
                    },
            ),
        ),
        rewrite_of(c, host).query matches Some(q) ==> forall|i: int|
            0 <= i < q.len() ==> {
                let l = str_to_lowercase(#[trigger] q[i].0);
                !(has_prefix(l, "utm_"@) || l == "fbclid"@ || l == "gclid"@)
            },
{
    lemma_tracking_parameters_removed(TrackingRules::Generic, c.query);
    let f1 = |p: (Seq<char>, Seq<char>)| !is_tracking_key(TrackingRules::Generic, p.0);
    let f2 = |p: (Seq<char>, Seq<char>)|
        {
            let l = str_to_lowercase(p.0);
            !(has_prefix(l, "utm_"@) || l == "fbclid"@ || l == "gclid"@)
        };
    assert(f1 =~= f2);
    let kept = drop_tracking(TrackingRules::Generic, c.query);
    assert forall|i: int| 0 <= i < kept.len() implies #[trigger] f2(kept[i]) by {
        assert(!is_tracking_key(TrackingRules::Generic, kept[i].0));
    }
}

/// An Instagram link is moved to `www.instagram.com`, and its query keeps no
/// pair whose key lower-cases to `ig_rid`, `ig_mid`, `sfnsn` or starts with
/// `igsh` or `utm_`; every other pair stays, in order.
pub proof fn lemma_instagram_links_lose_tracking_keys(c: UrlComponentsView, host: Seq<char>)
    requires
        contains_seq(host, "instagram.com"@) || contains_seq(host, "instagr.am"@),
    ensures
        rewrite_of(c, host).host == Some("www.instagram.com"@),
        has_prefix(c.path, "/share/reel/"@) ==> rewrite_of(c, host).path == Some(
            "/reel/"@ + c.path.skip(12),
        ),
        has_prefix(c.path, "/share/p/"@) ==> rewrite_of(c, host).path == Some("/p/"@ + c.path.skip(9)),
        has_prefix(c.path, "/reels/"@) ==> rewrite_of(c, host).path == Some(
            "/reel/"@ + c.path.skip(7),
        ),
        !has_prefix(c.path, "/share/reel/"@) && !has_prefix(c.path, "/share/p/"@) && !has_prefix(
            c.path,
            "/reels/"@,
        ) ==> rewrite_of(c, host).path == Some(c.path),
        rewrite_of(c, host).query == query_arg(
            c.query.filter(
                |p: (Seq<char>, Seq<char>)|
                    {
                        let l = str_to_lowercase(p.0);
                        !(has_prefix(l, "igsh"@) || has_prefix(l, "utm_"@) || l == "ig_rid"@ || l
                            == "ig_mid"@ || l == "sfnsn"@)
                    },
            ),
        ),
{
    lemma_tracking_parameters_removed(TrackingRules::Instagram, c.query);
    let f1 = |p: (Seq<char>, Seq<char>)| !is_tracking_key(TrackingRules::Instagram, p.0);
    let f2 = |p: (Seq<char>, Seq<char>)|
        {
            let l = str_to_lowercase(p.0);
            !(has_prefix(l, "igsh"@) || has_prefix(l, "utm_"@) || l == "ig_rid"@ || l == "ig_mid"@
                || l == "sfnsn"@)
        };
    assert(f1 =~= f2);
    reveal_strlit("/share/reel/");
    reveal_strlit("/share/p/");
    reveal_strlit("/reels/");
    reveal_strlit("/reel/");
    let p = c.path;
    if has_prefix(p, "/share/p/"@) {
        assert(p.take(9)[7] == p[7]);
        if has_prefix(p, "/share/reel/"@) {
            assert(p.take(12)[7] == p[7]);
        }
    }
    if has_prefix(p, "/reels/"@) {
        assert(p.take(7)[1] == p[1]);
        if has_prefix(p, "/share/reel/"@) {
            assert(p.take(12)[1] == p[1]);
        }
        if has_prefix(p, "/share/p/"@) {
            assert(p.take(9)[1] == p[1]);
        }
    }
}

/// A Facebook link's query keeps no pair whose key lower-cases to `mibextid`,
/// `rdid`, `share_id`, `fbclid`, `ref`, `sfnsn` or starts with `utm_`.
pub proof fn lemma_facebook_links_lose_tracking_keys(c: UrlComponentsView, host: Seq<char>)
    requires
        !contains_seq(host, "instagram.com"@),
        !contains_seq(host, "instagr.am"@),
        contains_seq(host, "facebook.com"@) || contains_seq(host, "fb.watch"@) || contains_seq(
            host,
            "fb.com"@,
        ),
    ensures
        has_prefix(host, "m.facebook.com"@) || has_prefix(host, "web.facebook.com"@) || has_prefix(
            host,
            "touch.facebook.com"@,
        ) ==> rewrite_of(c, host).host == Some("www.facebook.com"@),
        !(has_prefix(host, "m.facebook.com"@) || has_prefix(host, "web.facebook.com"@)
            || has_prefix(host, "touch.facebook.com"@)) ==> rewrite_of(c, host).host is None,
        has_prefix(c.path, "/share/r/"@) ==> (rewrite_of(c, host).path matches Some(p) && has_prefix(
            p,
            "/reel/"@,
        ) && p.last() == '/'),
        has_prefix(c.path, "/share/v/"@) ==> rewrite_of(c, host).path == Some("/watch/"@),
        !has_prefix(c.path, "/share/r/"@) && !has_prefix(c.path, "/share/v/"@) ==> rewrite_of(
            c,
            host,
        ).path is None,
        rewrite_of(c, host).query matches Some(q) ==> forall|i: int|
            0 <= i < q.len() ==> {
                let l = str_to_lowercase(#[trigger] q[i].0);
                !(l == "mibextid"@ || l == "rdid"@ || l == "share_id"@ || l == "fbclid"@ || l
                    == "ref"@ || l == "sfnsn"@ || has_prefix(l, "utm_"@))
            },
{
    let extra = if has_prefix(c.path, "/share/v/"@) && !has_prefix(c.path, "/share/r/"@) {
        c.query.push(("v"@, share_id(c.path, "/share/v/"@)))
    } else {
        c.query
    };
    lemma_tracking_parameters_removed(TrackingRules::Facebook, c.query);
    lemma_tracking_parameters_removed(TrackingRules::Facebook, extra);
    reveal_strlit("/share/r/");
    reveal_strlit("/share/v/");
    if has_prefix(c.path, "/share/v/"@) {
        assert(c.path.take(9)[7] == c.path[7]);
        if has_prefix(c.path, "/share/r/"@) {
            assert(c.path.take(9)[7] == c.path[7]);
            assert("/share/v/"@[7] != "/share/r/"@[7]);
        }
    }
    reveal_strlit("/reel/");
    reveal_strlit("/");
    if has_prefix(c.path, "/share/r/"@) {
        let p = "/reel/"@ + share_id(c.path, "/share/r/"@) + "/"@;
        assert(p.take(6) =~= "/reel/"@);
        assert(p.last() == '/');
    }
}

/// For Instagram and Facebook, a `bestvideo` selection always ends in the
/// progressive fallback `/b/best/hd/sd`; every other selection is kept as requested.
pub proof fn lemma_progressive_fallback(p: Platform, requested: Option<Seq<char>>)
    ensures
        ({
            let req = match requested {
                Some(r) => r,
                None => "bestvideo+bestaudio/best"@,
            };
            if (p == Platform::Instagram || p == Platform::Facebook) && contains_seq(
                req,
                "bestvideo"@,
            ) {
                crate::text::has_suffix(platform_filter(p, requested), "/b/best/hd/sd"@)
                    && crate::text::has_prefix(platform_filter(p, requested), req)
            } else {
                platform_filter(p, requested) == req
            }
        }),
{
    let req = match requested {
        Some(r) => r,
        None => "bestvideo+bestaudio/best"@,
    };
    let suf = "/b/best/hd/sd"@;
    let r = req + suf;
    assert(r.skip(r.len() - suf.len()) =~= suf);
    assert(r.take(req.len() as int) =~= req);
}

} // verus!
