use vstd::prelude::*;
use vstd::string::StrSliceExecFns;

use crate::config::Config;
use crate::config::ConfigModel;

verus! {

/// Compare two string slices by their characters.
pub fn str_eq(a: &str, b: &str) -> (r: bool)
    ensures
        r == (a@ == b@),
{
    let na = a.unicode_len();
    let nb = b.unicode_len();
    if na != nb {
        return false;
    }
    let mut i: usize = 0;
    while i < na
        invariant
            na == a@.len(),
            nb == b@.len(),
            na == nb,
            i <= na,
            forall|k: int| 0 <= k < i ==> a@[k] == b@[k],
        decreases na - i,
    {
        let ca = a.get_char(i);
        let cb = b.get_char(i);
        if ca != cb {
            return false;
        }
        i += 1;
    }
    proof {
        assert(a@ =~= b@);
    }
    true
}

/// An update is needed when no version is stored, or the stored version
/// differs from the current one.
pub open spec fn spec_needs_update(current: Seq<char>, stored: Option<Seq<char>>) -> bool {
    match stored {
        Option::None => true,
        Option::Some(s) => s != current,
    }
}

/// Check if the installed sounds need an update (true if update needed).
pub fn needs_update(current_version: &str, stored_version: Option<&str>) -> (r: bool)
    ensures
        r == spec_needs_update(
            current_version@,
            match stored_version {
                Option::Some(s) => Option::Some(s@),
                Option::None => Option::None,
            },
        ),
{
    match stored_version {
        None => true,
        Some(stored) => !str_eq(stored, current_version),
    }
}

/// The sound files the playback engine requires, one per non-master channel.
pub fn required_sounds() -> (r: [&'static str; 3])
    ensures
        r@.len() == 3,
        r@[0]@ == "rain.mp3"@,
        r@[1]@ == "thunder.mp3"@,
        r@[2]@ == "campfire.mp3"@,
{
    let r = ["rain.mp3", "thunder.mp3", "campfire.mp3"];
    proof {
        assert(r@ =~= seq!["rain.mp3", "thunder.mp3", "campfire.mp3"]);
    }
    r
}

/// What to do about sound assets at startup.
#[derive(Clone, Copy, PartialEq, Eq, Structural, Debug)]
pub enum SoundsPlan {
    /// Local sounds next to the working directory are used as they are.
    UseLocal,
    /// Assets exist and match the current version: nothing to do.
    Keep,
    /// No assets on disk: download without asking.
    Download,
    /// Assets exist but are out of date: ask the user first.
    Ask,
}

pub open spec fn spec_sounds_plan(
    use_local: bool,
    sounds_exist: bool,
    current: Seq<char>,
    stored: Option<Seq<char>>,
) -> SoundsPlan {
    if use_local {
        SoundsPlan::UseLocal
    } else if !sounds_exist {
        SoundsPlan::Download
    } else if spec_needs_update(current, stored) {
        SoundsPlan::Ask
    } else {
        SoundsPlan::Keep
    }
}

/// Decide how to handle sound assets at startup: keep local sounds, keep the
/// installed ones, download silently on a first install, or prompt before
/// replacing an out-of-date set.
pub fn sounds_plan(
    use_local: bool,
    sounds_exist: bool,
    current_version: &str,
    stored_version: Option<&str>,
) -> (r: SoundsPlan)
    ensures
        r == spec_sounds_plan(
            use_local,
            sounds_exist,
            current_version@,
            match stored_version {
                Option::Some(s) => Option::Some(s@),
                Option::None => Option::None,
            },
        ),
{
    if use_local {
        SoundsPlan::UseLocal
    } else if !sounds_exist {
        SoundsPlan::Download
    } else if needs_update(current_version, stored_version) {
        SoundsPlan::Ask
    } else {
        SoundsPlan::Keep
    }
}

/// How a download attempt ended.
#[derive(Clone, Copy, PartialEq, Eq, Structural, Debug)]
pub enum DownloadOutcome {
    /// The download succeeded; the version was recorded and must be saved.
    Recorded,
    /// The download failed but older assets exist; they stay in use and the
    /// version mismatch is not recorded.
    KeptStale,
    /// The download failed and no assets exist: startup cannot proceed.
    Fatal,
}

/// Record the outcome of a download attempt in the configuration. Only a
/// success touches the configuration, by recording the installed version.
pub fn after_download(
    config: &mut Config,
    success: bool,
    had_sounds: bool,
    version: &str,
) -> (r: DownloadOutcome)
    ensures
        success ==> r == DownloadOutcome::Recorded && final(config).model() == (ConfigModel {
            sounds_version: Option::Some(version@),
            ..old(config).model()
        }),
        !success && had_sounds ==> r == DownloadOutcome::KeptStale && *final(config) == *old(
            config,
        ),
        !success && !had_sounds ==> r == DownloadOutcome::Fatal && *final(config) == *old(config),
{
    if success {
        config.sounds_version = Some(version.to_owned());
        DownloadOutcome::Recorded
    } else if had_sounds {
        DownloadOutcome::KeptStale
    } else {
        DownloadOutcome::Fatal
    }
}

} // verus!
