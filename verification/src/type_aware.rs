//! The decisions of the backend-neutral protocol for the opt-in type-aware
//! pass: where the companion is looked for, what its status probe means, and
//! how bounded its output must be. Spawning it and reading its pipes is the
//! caller's.
use vstd::prelude::*;
use vstd::utf8::{decode_utf8, valid_utf8};
use crate::text::{copy_str, decimal, push_decimal, push_str, str_eq, trim, trim_vec, string_of};
use crate::diff_filter::{path_eq, path_strip_prefix, same_path, strip_path_prefix};

verus! {

/// The companion executable's name.
pub const SIDECAR_BINARY: &'static str = "fallow-type-aware";

/// The backend family the companion must report.
pub const BACKEND_FAMILY: &'static str = "typescript-go";

/// The backend version the companion must report.
pub const BACKEND_VERSION: &'static str = "7.0.2";

/// The protocol version this build speaks.
pub const PROTOCOL_VERSION: u32 = 3;

/// Largest request written to the companion.
pub const MAX_REQUEST_BYTES: usize = 8388608;

/// Largest status response read back.
pub const MAX_RESPONSE_BYTES: usize = 2097152;

/// Largest semantic response read back.
pub const MAX_SEMANTIC_RESPONSE_BYTES: usize = 33554432;

/// Most characters of the companion's stderr an error quotes.
pub const MAX_STDERR_CHARS: usize = 4096;

/// Largest stderr read back: four bytes for each quoted character.
pub const MAX_STDERR_BYTES: usize = 16384;

/// What `fallow` reports about the optional semantic companion.
pub struct TypeAwareStatus {
    pub available: bool,
    pub discovery_source: Option<&'static str>,
    pub companion_path: Option<String>,
    pub package_version: Option<String>,
    pub protocol_version: u32,
    pub backend_family: Option<String>,
    pub backend_version: Option<String>,
    pub remediation: Option<String>,
}

/// The companion's answer to a status request.
pub struct StatusResponse {
    pub package_version: String,
    pub protocol_version: u32,
    pub backend_family: String,
    pub backend_version: String,
}

/// What looking for and asking the companion produced.
pub enum StatusProbe {
    /// No companion was found; the discovery error.
    NotFound(String),
    /// A companion was found at `sidecar` and asked for its status.
    Probed { sidecar: String, response: Result<StatusResponse, String> },
}

/// How the companion was looked for.
pub open spec fn discovery_text(override_set: bool) -> Seq<char> {
    if override_set {
        "environment-override"@
    } else {
        "installed-sibling"@
    }
}

/// Whether a status response matches this build exactly.
pub open spec fn response_matches(r: StatusResponse, fallow_version: Seq<char>) -> bool {
    &&& r.protocol_version == 3
    &&& r.package_version@ == fallow_version
    &&& r.backend_family@ == "typescript-go"@
    &&& r.backend_version@ == "7.0.2"@
}

/// The remediation for a companion that could not be found.
pub open spec fn not_found_remediation(override_set: bool, error: Seq<char>, fallow_version: Seq<char>) -> Seq<char> {
    if override_set {
        error
    } else {
        "Install the matching companion with: npm install --save-dev fallow-type-aware@"@ + fallow_version
    }
}

/// Inspect the optional semantic companion: available only when it was found
/// and reported exactly this build's protocol, package version and backend.
/// `override_set` says whether `FALLOW_TYPE_AWARE_BIN` named the companion, and
/// `fallow_version` is this build's package version.
pub fn status(override_set: bool, probe: StatusProbe, fallow_version: &str) -> (s: TypeAwareStatus)
    ensures
        s.available <==> (probe matches StatusProbe::Probed { response: Ok(r), .. } && response_matches(r, fallow_version@)),
        match probe {
            StatusProbe::NotFound(e) => {
                &&& s.discovery_source is None
                &&& s.companion_path is None
                &&& s.package_version is None
                &&& s.protocol_version == 3
                &&& s.backend_family is None
                &&& s.backend_version is None
                &&& s.remediation matches Some(m) && m@ == not_found_remediation(override_set, e@, fallow_version@)
            },
            StatusProbe::Probed { sidecar, response } => {
                &&& s.discovery_source matches Some(d) && d@ == discovery_text(override_set)
                &&& s.companion_path matches Some(p) && p@ == sidecar@
                &&& match response {
                    Ok(r) => {
                        &&& s.package_version matches Some(v) && v@ == r.package_version@
                        &&& s.protocol_version == r.protocol_version
                        &&& s.backend_family matches Some(f) && f@ == r.backend_family@
                        &&& s.backend_version matches Some(v) && v@ == r.backend_version@
                        &&& if response_matches(r, fallow_version@) {
                            s.remediation is None
                        } else {
                            s.remediation matches Some(m) && m@ == "Install the exact fallow-type-aware version that matches Fallow"@
                        }
                    },
                    Err(e) => {
                        &&& s.package_version is None
                        &&& s.protocol_version == 3
                        &&& s.backend_family is None
                        &&& s.backend_version is None
                        &&& s.remediation matches Some(m) && m@ == e@
                    },
                }
            },
        },
{
    let source: &'static str = if override_set { "environment-override" } else { "installed-sibling" };
    match probe {
        StatusProbe::NotFound(error) => {
            let remediation = if override_set {
                error
            } else {
                let mut m = String::new();
                push_str(&mut m, "Install the matching companion with: npm install --save-dev fallow-type-aware@");
                push_str(&mut m, fallow_version);
                m
            };
            TypeAwareStatus {
                available: false,
                discovery_source: None,
                companion_path: None,
                package_version: None,
                protocol_version: 3,
                backend_family: None,
                backend_version: None,
                remediation: Some(remediation),
            }
        },
        StatusProbe::Probed { sidecar, response } => match response {
            Ok(r) => {
                let matches = r.protocol_version == 3 && str_eq(r.package_version.as_str(), fallow_version)
                    && str_eq(r.backend_family.as_str(), BACKEND_FAMILY) && str_eq(r.backend_version.as_str(), BACKEND_VERSION);
                let remediation = if matches {
                    None
                } else {
                    let mut m = String::new();
                    push_str(&mut m, "Install the exact fallow-type-aware version that matches Fallow");
                    Some(m)
                };
                TypeAwareStatus {
                    available: matches,
                    discovery_source: Some(source),
                    companion_path: Some(sidecar),
                    package_version: Some(r.package_version),
                    protocol_version: r.protocol_version,
                    backend_family: Some(r.backend_family),
                    backend_version: Some(r.backend_version),
                    remediation,
                }
            },
            Err(error) => TypeAwareStatus {
                available: false,
                discovery_source: Some(source),
                companion_path: Some(sidecar),
                package_version: None,
                protocol_version: 3,
                backend_family: None,
                backend_version: None,
                remediation: Some(error),
            },
        },
    }
}

/// A failure of the type-aware pass, with its message.
#[derive(Debug)]
pub struct TypeAwareError(pub String);

impl TypeAwareError {
    /// The failure's message.
    pub fn message(&self) -> (r: &str)
        ensures
            r@ == self.0@,
    {
        self.0.as_str()
    }
}

impl From<String> for TypeAwareError {
    fn from(message: String) -> (r: Self) {
        TypeAwareError(message)
    }
}

impl vstd::std_specs::convert::FromSpecImpl<String> for TypeAwareError {
    open spec fn obeys_from_spec() -> bool {
        true
    }

    open spec fn from_spec(message: String) -> Self {
        TypeAwareError(message)
    }
}

/// What looking for the companion found on disk.
pub enum SidecarProbe {
    /// `FALLOW_TYPE_AWARE_BIN` named `value`; whether a file exists there, and
    /// its canonical path or the error resolving it.
    Override { value: String, is_file: bool, canonical: Result<String, String> },
    /// No override: the regular file beside the running executable, if any.
    Installed(Option<String>),
}

/// The message for an override that names no file.
pub open spec fn missing_override_text(value: Seq<char>) -> Seq<char> {
    "FALLOW_TYPE_AWARE_BIN is set to "@ + value
        + ", but no file exists there. Point it at a trusted fallow-type-aware executable."@
}

/// The message for a companion found nowhere.
pub open spec fn not_found_text() -> Seq<char> {
    "Type-aware sidecar `fallow-type-aware` was not found next to the active Fallow executable. Install it in the same directory as Fallow or set FALLOW_TYPE_AWARE_BIN to a trusted executable path. Project-local node_modules and PATH are intentionally not searched. The normal command still works without --type-aware."@
}

/// Choose the companion: an explicit override wins and never falls back to the
/// installed sibling; otherwise only the sibling of the running executable is
/// accepted. Project-local `node_modules` and `PATH` are never searched.
pub fn discover_type_aware_sidecar_from(probe: SidecarProbe) -> (r: Result<String, String>)
    ensures
        match probe {
            SidecarProbe::Override { value, is_file, canonical } => if is_file {
                match canonical {
                    Ok(p) => r matches Ok(q) && q@ == p@,
                    Err(e) => r matches Err(m) && m@ == "failed to resolve type-aware sidecar "@ + value@ + ": "@ + e@,
                }
            } else {
                r matches Err(m) && m@ == missing_override_text(value@)
            },
            SidecarProbe::Installed(found) => match found {
                Some(p) => r matches Ok(q) && q@ == p@,
                None => r matches Err(m) && m@ == not_found_text(),
            },
        },
{
    match probe {
        SidecarProbe::Override { value, is_file, canonical } => {
            if is_file {
                match canonical {
                    Ok(p) => Ok(p),
                    Err(e) => {
                        let mut m = String::new();
                        push_str(&mut m, "failed to resolve type-aware sidecar ");
                        push_str(&mut m, value.as_str());
                        push_str(&mut m, ": ");
                        push_str(&mut m, e.as_str());
                        Err(m)
                    },
                }
            } else {
                let mut m = String::new();
                push_str(&mut m, "FALLOW_TYPE_AWARE_BIN is set to ");
                push_str(&mut m, value.as_str());
                push_str(&mut m, ", but no file exists there. Point it at a trusted fallow-type-aware executable.");
                Err(m)
            }
        },
        SidecarProbe::Installed(found) => match found {
            Some(p) => Ok(p),
            None => {
                let mut m = String::new();
                push_str(&mut m, "Type-aware sidecar `fallow-type-aware` was not found next to the active Fallow executable. Install it in the same directory as Fallow or set FALLOW_TYPE_AWARE_BIN to a trusted executable path. Project-local node_modules and PATH are intentionally not searched. The normal command still works without --type-aware.");
                Err(m)
            },
        },
    }
}

/// The file names the companion may have: the bare name, plus the `.exe`,
/// `.cmd` and `.bat` forms on Windows.
pub fn binary_names(binary: &str, windows: bool) -> (r: Vec<String>)
    ensures
        windows ==> (r@.len() == 4 && r@[0]@ == binary@ && r@[1]@ == binary@ + ".exe"@ && r@[2]@ == binary@ + ".cmd"@ && r@[3]@ == binary@ + ".bat"@),
        !windows ==> (r@.len() == 1 && r@[0]@ == binary@),
{
    let mut names: Vec<String> = Vec::new();
    let mut bare = String::new();
    push_str(&mut bare, binary);
    names.push(bare);
    if windows {
        let mut exe = String::new();
        push_str(&mut exe, binary);
        push_str(&mut exe, ".exe");
        names.push(exe);
        let mut cmd = String::new();
        push_str(&mut cmd, binary);
        push_str(&mut cmd, ".cmd");
        names.push(cmd);
        let mut bat = String::new();
        push_str(&mut bat, binary);
        push_str(&mut bat, ".bat");
        names.push(bat);
    }
    names
}

/// The message for a stream that exceeded its limit.
pub open spec fn oversize_text(stream: Seq<char>, limit: nat) -> Seq<char> {
    "type-aware sidecar "@ + stream + " exceeded the "@ + decimal(limit) + "-byte limit"@
}

/// Accept what was read from a companion stream (at most `limit + 1` bytes are
/// read) when it fits `limit`; one byte more means the stream was oversized, and
/// the caller terminates the companion.
pub fn read_bounded_stream(bytes: Vec<u8>, limit: usize, stream: &str) -> (r: Result<Vec<u8>, String>)
    ensures
        bytes@.len() <= limit ==> (r matches Ok(b) && b@ == bytes@),
        bytes@.len() > limit ==> (r matches Err(m) && m@ == oversize_text(stream@, limit as nat)),
{
    if bytes.len() > limit {
        let mut m = String::new();
        push_str(&mut m, "type-aware sidecar ");
        push_str(&mut m, stream);
        push_str(&mut m, " exceeded the ");
        push_decimal(&mut m, limit as u64);
        push_str(&mut m, "-byte limit");
        return Err(m);
    }
    Ok(bytes)
}

/// What `String::from_utf8_lossy` makes of `bytes`.
pub uninterp spec fn utf8_lossy(bytes: Seq<u8>) -> Seq<char>;

/// `String::from_utf8_lossy`: the text of `bytes`, with each invalid sequence
/// replaced by U+FFFD; valid UTF-8 decodes unchanged.
#[verifier::external_body]
fn from_utf8_lossy(bytes: &[u8]) -> (r: String)
    ensures
        r@ == utf8_lossy(bytes@),
        valid_utf8(bytes@) ==> r@ == decode_utf8(bytes@),
{
    String::from_utf8_lossy(bytes).into_owned()
}

/// At most `max_chars` characters of `bytes` read as lossy UTF-8, trimmed.
pub fn bounded_text(bytes: &[u8], max_chars: usize) -> (r: String)
    ensures
        r@ == trim(utf8_lossy(bytes@).take(if max_chars < utf8_lossy(bytes@).len() { max_chars as int } else { utf8_lossy(bytes@).len() as int })),
{
    let text = from_utf8_lossy(bytes);
    let v = crate::text::chars_of(text.as_str());
    let n = if max_chars < v.len() { max_chars } else { v.len() };
    let mut head: Vec<char> = Vec::new();
    let mut i: usize = 0;
    while i < n
        invariant
            n <= v.len(),
            i <= n,
            head@ == v@.take(i as int),
        decreases n - i,
    {
        head.push(v[i]);
        i = i + 1;
        assert(head@ =~= v@.take(i as int));
    }
    let t = trim_vec(&head);
    string_of(&t)
}

/// The error for a companion that exited unsuccessfully.
pub open spec fn exit_text(status: Seq<char>, stderr: Seq<char>) -> Seq<char> {
    "type-aware sidecar exited with status "@ + status + (if stderr.len() == 0 {
        Seq::empty()
    } else {
        ": "@ + stderr
    })
}

/// Accept a companion that exited successfully; otherwise an error naming its
/// exit status (as `status_text`) and quoting its bounded, trimmed stderr.
pub fn validate_process_output(success: bool, status_text: &str, stderr: &[u8]) -> (r: Result<(), String>)
    ensures
        success ==> r is Ok,
        !success ==> (r matches Err(m) && m@ == exit_text(
            status_text@,
            trim(utf8_lossy(stderr@).take(if 4096 < utf8_lossy(stderr@).len() { 4096 } else { utf8_lossy(stderr@).len() as int })),
        )),
{
    if success {
        return Ok(());
    }
    let text = bounded_text(stderr, MAX_STDERR_CHARS);
    let mut m = String::new();
    push_str(&mut m, "type-aware sidecar exited with status ");
    push_str(&mut m, status_text);
    if text.unicode_len() > 0 {
        push_str(&mut m, ": ");
        push_str(&mut m, text.as_str());
    }
    proof {
        if text@.len() == 0 {
            assert(m@ =~= "type-aware sidecar exited with status "@ + status_text@ + Seq::<char>::empty());
        }
    }
    Err(m)
}

/// The environment variables the companion keeps besides `PATH`.
pub open spec fn sidecar_env_kept(key: Seq<char>) -> bool {
    ||| key == "HOME"@
    ||| key == "PATHEXT"@
    ||| key == "COMSPEC"@
    ||| key == "SYSTEMROOT"@
    ||| key == "TEMP"@
    ||| key == "TMP"@
    ||| key == "TMPDIR"@
    ||| key == "USERPROFILE"@
    ||| key == "WINDIR"@
}

/// Whether the companion's environment keeps variable `key` (`PATH` is
/// handed on separately, sanitized).
pub fn sidecar_env_allowed(key: &str) -> (r: bool)
    ensures
        r == sidecar_env_kept(key@),
{
    str_eq(key, "HOME") || str_eq(key, "PATHEXT") || str_eq(key, "COMSPEC") || str_eq(key, "SYSTEMROOT")
        || str_eq(key, "TEMP") || str_eq(key, "TMP") || str_eq(key, "TMPDIR") || str_eq(key, "USERPROFILE")
        || str_eq(key, "WINDIR")
}

/// One entry of the `PATH` the companion would inherit: whether it is
/// absolute, and its canonical form when it could be resolved.
pub struct SearchEntry {
    pub absolute: bool,
    pub canonical: Option<String>,
}

/// The directories of `es` the companion may search, in order: absolute,
/// resolvable entries, by their canonical form, outside the project `root`,
/// each once (compared as `Path`s).
pub open spec fn safe_search_dirs(root: Seq<char>, es: Seq<SearchEntry>) -> Seq<Seq<char>>
    decreases es.len(),
{
    if es.len() == 0 {
        Seq::empty()
    } else {
        let prev = safe_search_dirs(root, es.drop_last());
        let e = es.last();
        match e.canonical {
            Some(c) => if e.absolute && path_strip_prefix(c@, root) is None && !(exists|k: int|
                0 <= k < prev.len() && path_eq(#[trigger] prev[k], c@)) {
                prev.push(c@)
            } else {
                prev
            },
            None => prev,
        }
    }
}

/// The sanitized search path of the companion: the entries of `PATH` it may
/// search, so a project cannot place a program the companion would run.
pub fn safe_search_path(root: &str, entries: &Vec<SearchEntry>) -> (r: Vec<String>)
    ensures
        r@.map_values(|x: String| x@) == safe_search_dirs(root@, entries@),
{
    let mut out: Vec<String> = Vec::new();
    let mut i: usize = 0;
    while i < entries.len()
        invariant
            i <= entries@.len(),
            out@.map_values(|x: String| x@) == safe_search_dirs(root@, entries@.take(i as int)),
        decreases entries@.len() - i,
    {
        let ghost t = entries@.take(i as int + 1);
        proof {
            assert(t.drop_last() =~= entries@.take(i as int));
            assert(t.last() == entries@[i as int]);
        }
        let ghost prev = out@.map_values(|x: String| x@);
        let e = &entries[i];
        if let Some(c) = &e.canonical {
            if e.absolute && strip_path_prefix(c.as_str(), root).is_none() {
                let mut seen = false;
                let mut k: usize = 0;
                while k < out.len()
                    invariant
                        k <= out@.len(),
                        prev == out@.map_values(|x: String| x@),
                        seen <==> exists|q: int| 0 <= q < k && path_eq(#[trigger] prev[q], c@),
                    decreases out@.len() - k,
                {
                    if same_path(out[k].as_str(), c.as_str()) {
                        seen = true;
                    }
                    proof {
                        assert(prev[k as int] == out@[k as int]@);
                    }
                    k = k + 1;
                }
                if !seen {
                    out.push(copy_str(c.as_str()));
                    assert(out@.map_values(|x: String| x@) =~= prev.push(c@));
                }
            }
        }
        i = i + 1;
    }
    assert(entries@.take(entries@.len() as int) =~= entries@);
    out
}

} // verus!
