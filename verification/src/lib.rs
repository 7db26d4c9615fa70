use vstd::prelude::*;

pub mod text;
pub mod paths;
pub mod sanitizer;
pub mod url_normalizer;
pub mod capabilities;
pub mod presets;
pub mod db;
pub mod queue;
pub mod yt_dlp;
pub mod verification;
pub mod sha256;

verus! {

/// The version of this library, as published in its manifest.
pub fn get_core_version() -> (v: &'static str)
    ensures
        v@ == "0.1.0"@,
{
    "0.1.0"
}

} // verus!
