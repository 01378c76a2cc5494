//! Locating the encoder and inspector executables.
use vstd::prelude::*;
use crate::error::{ConfigIssue, EngineError};
use crate::text::{chars_of, starts_with_text, trim_text, trimmed};

verus! {

/// What the file system shows of a candidate tool directory.
#[derive(PartialEq, Eq, Structural, Debug, Clone, Copy)]
pub struct DirFacts {
    pub exists: bool,
    pub is_dir: bool,
    /// The directory holds the encoder executable as a file.
    pub has_encoder: bool,
    /// The directory holds the inspector executable as a file.
    pub has_inspector: bool,
}

/// At most this many entries of a folder are scanned for a versioned build.
pub const MAX_SCANNED_ENTRIES: usize = 20;

/// Whether a directory holds both executables.
pub fn looks_like_ffmpeg_bin_dir(facts: &DirFacts) -> (r: bool)
    ensures
        r == (facts.has_encoder && facts.has_inspector),
{
    facts.has_encoder && facts.has_inspector
}

/// The verdict on a tool-directory hint: an empty hint asks for automatic
/// resolution; else the directory must exist, be a directory and hold both
/// executables, checked in that order.
pub open spec fn hint_verdict(hint: Seq<char>, facts: DirFacts) -> Option<ConfigIssue> {
    if trimmed(hint).len() == 0 {
        None
    } else if !facts.exists {
        Some(ConfigIssue::DirMissing)
    } else if !facts.is_dir {
        Some(ConfigIssue::NotADirectory)
    } else if !facts.has_encoder {
        Some(ConfigIssue::EncoderMissing)
    } else if !facts.has_inspector {
        Some(ConfigIssue::InspectorMissing)
    } else {
        None
    }
}

/// Checks a tool-directory hint against what the file system shows of the
/// trimmed hint.
pub fn validate_ffmpeg_bin_dir(hint: &str, facts: &DirFacts) -> (r: Result<(), EngineError>)
    ensures
        match hint_verdict(hint@, *facts) {
            None => r is Ok,
            Some(c) => r == Err::<(), EngineError>(EngineError::Configuration(c)),
        },
{
    if trim_text(hint).is_empty() {
        return Ok(());
    }
    if !facts.exists {
        return Err(EngineError::Configuration(ConfigIssue::DirMissing));
    }
    if !facts.is_dir {
        return Err(EngineError::Configuration(ConfigIssue::NotADirectory));
    }
    if !facts.has_encoder {
        return Err(EngineError::Configuration(ConfigIssue::EncoderMissing));
    }
    if !facts.has_inspector {
        return Err(EngineError::Configuration(ConfigIssue::InspectorMissing));
    }
    Ok(())
}

/// Where the two executables are: inside `folder` under their file names, or,
/// with no folder, under their bare names on the search path.
#[derive(Debug, Clone)]
pub struct ToolPaths {
    pub folder: Option<String>,
    pub encoder: String,
    pub inspector: String,
}

pub open spec fn tool_paths_for(dir: Seq<char>, p: ToolPaths) -> bool {
    let d = trimmed(dir);
    if d.len() == 0 {
        p.folder is None && p.encoder@ == "ffmpeg"@ && p.inspector@ == "ffprobe"@
    } else {
        p.folder matches Some(f) && f@ == d && p.encoder@ == "ffmpeg.exe"@ && p.inspector@
            == "ffprobe.exe"@
    }
}

/// The executables in a directory, or on the search path for an empty one.
pub fn resolve_ffmpeg_binaries(dir: &str) -> (r: ToolPaths)
    ensures
        tool_paths_for(dir@, r),
{
    let d = trim_text(dir);
    if d.is_empty() {
        ToolPaths {
            folder: None,
            encoder: "ffmpeg".to_owned(),
            inspector: "ffprobe".to_owned(),
        }
    } else {
        ToolPaths {
            folder: Some(d.to_owned()),
            encoder: "ffmpeg.exe".to_owned(),
            inspector: "ffprobe.exe".to_owned(),
        }
    }
}

/// Resolves the executables: from the hint when it is not blank, else from
/// an automatically detected directory, else on the search path. Also gives
/// the directory used (empty for the search path).
pub fn resolve_ffmpeg_binaries_with_fallback(hint: &str, detected: Option<&str>) -> (r: (ToolPaths, String))
    ensures
        trimmed(hint@).len() != 0 ==> tool_paths_for(hint@, r.0) && r.1@ == trimmed(hint@),
        trimmed(hint@).len() == 0 ==> match detected {
            Some(d) => tool_paths_for(d@, r.0) && r.1@ == d@,
            None => tool_paths_for(""@, r.0) && r.1@ == Seq::<char>::empty(),
        },
{
    let h = trim_text(hint);
    if !h.is_empty() {
        return (resolve_ffmpeg_binaries(hint), h.to_owned());
    }
    match detected {
        Some(d) => (resolve_ffmpeg_binaries(d), d.to_owned()),
        None => {
            let e = "";
            let p = resolve_ffmpeg_binaries(e);
            (p, String::new())
        },
    }
}

/// Whether a folder name is that of a versioned essentials build of the
/// tools.
pub open spec fn is_versioned_build_name(name: Seq<char>) -> bool {
    &&& "ffmpeg-"@.len() <= name.len()
    &&& name.take("ffmpeg-"@.len() as int) == "ffmpeg-"@
    &&& exists|i: int|
        0 <= i && i + "essentials_build"@.len() <= name.len() && #[trigger] name.subrange(
            i,
            i + "essentials_build"@.len(),
        ) == "essentials_build"@
}

fn contains_text(c: &Vec<char>, lit: &str) -> (r: bool)
    ensures
        r == exists|i: int|
            0 <= i && i + lit@.len() <= c@.len() && #[trigger] c@.subrange(i, i + lit@.len())
                == lit@,
{
    let l = chars_of(lit);
    if l.len() > c.len() {
        return false;
    }
    let n = c.len();
    let m = l.len();
    let mut i: usize = 0;
    while i <= n - m
        invariant
            l@ == lit@,
            n == c@.len(),
            m == l@.len(),
            m <= n,
            i <= n - m + 1,
            forall|k: int| 0 <= k < i ==> #[trigger] c@.subrange(k, k + l@.len()) != l@,
        decreases c@.len() - i,
    {
        let mut j: usize = 0;
        let mut same = true;
        while j < m
            invariant
                n == c@.len(),
                m == l@.len(),
                i + m <= n,
                j <= l@.len(),
                same == forall|k: int| 0 <= k < j ==> c@[i + k] == l@[k],
            decreases l@.len() - j,
        {
            if c[i + j] != l[j] {
                same = false;
            }
            j = j + 1;
        }
        if same {
            assert(c@.subrange(i as int, i + l@.len()) =~= l@);
            return true;
        }
        assert(c@.subrange(i as int, i + l@.len()) != l@) by {
            let k = choose|k: int| 0 <= k < l@.len() && c@[i + k] != l@[k];
            assert(c@.subrange(i as int, i + l@.len())[k] == c@[i + k]);
        }
        i = i + 1;
    }
    false
}

/// Whether a folder name is that of a versioned essentials build.
pub fn looks_like_versioned_build(name: &str) -> (r: bool)
    ensures
        r == is_versioned_build_name(name@),
{
    let c = chars_of(name);
    starts_with_text(&c, "ffmpeg-") && contains_text(&c, "essentials_build")
}

/// The environment variables that may name a tool directory, in the order
/// they are consulted.
pub fn bin_dir_env_vars() -> (r: Vec<String>)
    ensures
        r@.len() == 2,
        r@[0]@ == "VIDEO_TRIM_FFMPEG_BIN_DIR"@,
        r@[1]@ == "FFMPEG_BIN_DIR"@,
{
    let mut v: Vec<String> = Vec::new();
    v.push("VIDEO_TRIM_FFMPEG_BIN_DIR".to_owned());
    v.push("FFMPEG_BIN_DIR".to_owned());
    v
}

} // verus!
