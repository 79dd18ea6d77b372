//! Line-level diff filtering: how a diff source is chosen and named, and the
//! stand-downs that drop a diff and report at full scope, each with the reason
//! token and the sentence that the log line and the envelope both carry.
use vstd::prelude::*;
use crate::text::{copy_str, decimal, push_decimal, push_str, replace_char, replace_char_str, str_eq, trim, trim_str};

verus! {

/// How findings are matched against the diff.
#[derive(Debug, Clone, Copy, PartialEq, Eq, Structural)]
pub enum DiffFilterMode {
    Added,
    DiffContext,
    File,
    NoFilter,
}

/// The mode `FALLOW_DIFF_FILTER` selects; unset or unknown means `Added`.
pub open spec fn filter_mode_of(value: Option<Seq<char>>) -> DiffFilterMode {
    match value {
        Some(v) => if v == "diff_context"@ || v == "context"@ {
            DiffFilterMode::DiffContext
        } else if v == "file"@ {
            DiffFilterMode::File
        } else if v == "nofilter"@ || v == "none"@ {
            DiffFilterMode::NoFilter
        } else {
            DiffFilterMode::Added
        },
        None => DiffFilterMode::Added,
    }
}

/// The characters of an optional string slice.
pub open spec fn opt_chars(o: Option<&str>) -> Option<Seq<char>> {
    match o {
        Some(s) => Some(s@),
        None => None,
    }
}

impl DiffFilterMode {
    /// The mode named by the value of `FALLOW_DIFF_FILTER`, if it is set.
    pub fn from_env(value: Option<&str>) -> (r: DiffFilterMode)
        ensures
            r == filter_mode_of(opt_chars(value)),
    {
        match value {
            Some(v) => if str_eq(v, "diff_context") || str_eq(v, "context") {
                DiffFilterMode::DiffContext
            } else if str_eq(v, "file") {
                DiffFilterMode::File
            } else if str_eq(v, "nofilter") || str_eq(v, "none") {
                DiffFilterMode::NoFilter
            } else {
                DiffFilterMode::Added
            },
            None => DiffFilterMode::Added,
        }
    }
}

/// Which findings the PR summary filters against the diff.
#[derive(Debug, Clone, Copy, PartialEq, Eq, Structural)]
pub enum SummaryScope {
    All,
    Diff,
}

impl SummaryScope {
    /// `diff` (surrounding whitespace ignored) selects `Diff`; anything else is
    /// the safe default `All`.
    pub fn from_value(value: &str) -> (r: SummaryScope)
        ensures
            r == (if trim(value@) == "diff"@ { SummaryScope::Diff } else { SummaryScope::All }),
    {
        let t = trim_str(value);
        if str_eq(t.as_str(), "diff") {
            SummaryScope::Diff
        } else {
            SummaryScope::All
        }
    }

    /// The scope named by the value of `FALLOW_SUMMARY_SCOPE`, if it is set.
    pub fn from_env(value: Option<&str>) -> (r: SummaryScope)
        ensures
            value is None ==> r == SummaryScope::All,
            value matches Some(v) ==> r == (if trim(v@) == "diff"@ { SummaryScope::Diff } else { SummaryScope::All }),
    {
        match value {
            Some(v) => SummaryScope::from_value(v),
            None => SummaryScope::All,
        }
    }
}

/// How a diff source was located.
#[derive(Debug, Clone, PartialEq, Eq)]
pub enum DiffSource {
    /// `--diff-file <path>`, absolute after joining onto the root.
    Flag(String),
    /// `--diff-stdin` or `--diff-file -`.
    Stdin,
    /// `$FALLOW_DIFF_FILE`, absolute after joining onto the root.
    EnvVar(String),
}

/// The user-facing label of a diff source.
pub open spec fn source_label(source: DiffSource) -> Seq<char> {
    match source {
        DiffSource::Flag(p) => "--diff-file "@ + p@,
        DiffSource::Stdin => "--diff-stdin"@,
        DiffSource::EnvVar(p) => "$FALLOW_DIFF_FILE "@ + p@,
    }
}

impl DiffSource {
    /// Short, user-facing label for warning messages.
    pub fn label(&self) -> (r: String)
        ensures
            r@ == source_label(*self),
    {
        let mut r = String::new();
        match self {
            DiffSource::Flag(p) => {
                push_str(&mut r, "--diff-file ");
                push_str(&mut r, p.as_str());
            },
            DiffSource::Stdin => push_str(&mut r, "--diff-stdin"),
            DiffSource::EnvVar(p) => {
                push_str(&mut r, "$FALLOW_DIFF_FILE ");
                push_str(&mut r, p.as_str());
            },
        }
        r
    }
}

/// Whether `Path::is_absolute` holds of `path` (a rule that differs between
/// platforms).
pub uninterp spec fn path_absolute(path: Seq<char>) -> bool;

/// What `Path::join` gives for `base` and `path`, read back as text.
pub uninterp spec fn path_joined(base: Seq<char>, path: Seq<char>) -> Seq<char>;

/// Calls `std::path::Path::is_absolute`; the result is named, not stated.
#[verifier::external_body]
pub(crate) fn is_absolute_path(path: &str) -> (r: bool)
    ensures
        r == path_absolute(path@),
{
    std::path::Path::new(path).is_absolute()
}

/// Calls `std::path::Path::join` and reads the result back as text; the result
/// is named, not stated.
#[verifier::external_body]
pub(crate) fn join_path(base: &str, path: &str) -> (r: String)
    ensures
        r@ == path_joined(base@, path@),
{
    std::path::Path::new(base).join(path).to_string_lossy().into_owned()
}

/// `path` made absolute under `root`: unchanged when already absolute,
/// otherwise joined onto `root`.
pub open spec fn absolute_under_text(root: Seq<char>, path: Seq<char>) -> Seq<char> {
    if path_absolute(path) {
        path
    } else {
        path_joined(root, path)
    }
}

/// `path` made absolute under `root`.
pub fn absolute_under(root: &str, path: &str) -> (r: String)
    ensures
        r@ == absolute_under_text(root@, path@),
{
    if is_absolute_path(path) {
        let mut r = String::new();
        push_str(&mut r, path);
        assert(r@ =~= path@);
        r
    } else {
        join_path(root, path)
    }
}

/// The mutual-exclusion error for `--diff-stdin` with an explicit path.
pub open spec fn exclusive_text(path: Seq<char>) -> Seq<char> {
    "--diff-stdin and --diff-file "@ + path
        + " are mutually exclusive. Pick one: --diff-stdin to pipe via stdin, --diff-file PATH to point at a file on disk."@
}

/// The error for `--diff-file ""` without `--diff-stdin`.
pub open spec fn empty_path_text() -> Seq<char> {
    "--diff-file was given an empty path. Pass --diff-file PATH to point at a file on disk, or --diff-stdin to pipe via stdin."@
}

/// Resolve a diff source from CLI input and the value of `$FALLOW_DIFF_FILE`.
/// Precedence: `--diff-stdin`, then `--diff-file -` (a path equal to `-`),
/// then `--diff-file <path>`, then a non-empty `$FALLOW_DIFF_FILE`; none of
/// them gives `Ok(None)`. Inconsistent input is an error: `--diff-stdin`
/// together with an explicit path, or an empty `--diff-file` path.
pub fn resolve_diff_source(
    diff_file: Option<&str>,
    diff_stdin: bool,
    root: &str,
    env_value: Option<&str>,
) -> (r: Result<Option<DiffSource>, String>)
    ensures
        match diff_file {
            Some(p) => if path_eq(p@, "-"@) {
                r matches Ok(Some(DiffSource::Stdin))
            } else if diff_stdin {
                r matches Err(m) && m@ == exclusive_text(p@)
            } else if p@.len() == 0 {
                r matches Err(m) && m@ == empty_path_text()
            } else {
                r matches Ok(Some(DiffSource::Flag(f))) && f@ == absolute_under_text(root@, p@)
            },
            None => if diff_stdin {
                r matches Ok(Some(DiffSource::Stdin))
            } else {
                match env_value {
                    Some(e) => if e@.len() > 0 {
                        r matches Ok(Some(DiffSource::EnvVar(f))) && f@ == absolute_under_text(root@, e@)
                    } else {
                        r matches Ok(None)
                    },
                    None => r matches Ok(None),
                }
            },
        },
{
    let is_sentinel = match diff_file {
        Some(p) => same_path(p, "-"),
        None => false,
    };
    if diff_stdin && !is_sentinel {
        if let Some(path) = diff_file {
            let mut m = String::new();
            push_str(&mut m, "--diff-stdin and --diff-file ");
            push_str(&mut m, path);
            push_str(
                &mut m,
                " are mutually exclusive. Pick one: --diff-stdin to pipe via stdin, --diff-file PATH to point at a file on disk.",
            );
            return Err(m);
        }
    }
    if diff_stdin || is_sentinel {
        return Ok(Some(DiffSource::Stdin));
    }
    if let Some(path) = diff_file {
        if path.unicode_len() == 0 {
            return Err(
                copy_str(
                    "--diff-file was given an empty path. Pass --diff-file PATH to point at a file on disk, or --diff-stdin to pipe via stdin.",
                ),
            );
        }
        return Ok(Some(DiffSource::Flag(absolute_under(root, path))));
    }
    if let Some(env) = env_value {
        if env.unicode_len() > 0 {
            return Ok(Some(DiffSource::EnvVar(absolute_under(root, env))));
        }
    }
    Ok(None)
}

/// Why a supplied diff could not be applied (the reason token the envelope
/// publishes), and the sentence the log and the envelope both carry.
pub struct DiffStandDown {
    pub reason: &'static str,
    pub message: String,
}

/// The sentence for a diff over the size cap.
pub open spec fn oversize_text(label: Seq<char>, bytes: nat, cap: nat) -> Seq<char> {
    label + " is "@ + decimal(bytes) + " bytes (cap "@ + decimal(cap)
        + "); line-level filtering disabled, reporting all findings. Narrow the diff; the cap is fixed."@
}

/// The sentence for a diff that could not be read.
pub open spec fn unreadable_text(label: Seq<char>, err: Seq<char>) -> Seq<char> {
    "could not read "@ + label + ": "@ + err
        + " (line-level filtering disabled, reporting all findings). Check the path exists and is readable."@
}

/// The sentence for a diff that is not UTF-8.
pub open spec fn not_utf8_text(label: Seq<char>, err: Seq<char>) -> Seq<char> {
    "could not read "@ + label + " as UTF-8: "@ + err
        + " (line-level filtering disabled, reporting all findings). Regenerate the diff as UTF-8 text."@
}

/// The sentence for a diff whose paths resolve equally under two bases.
pub open spec fn ambiguous_text(label: Seq<char>, bases: Seq<char>) -> Seq<char> {
    "the paths in "@ + label + " name existing files under "@ + bases
        + ", so their base is ambiguous and fallow cannot tell which one the diff is relative to. It will not filter against a guess: every finding is reported (full scope, not scoped to the diff). Generate the diff from the repository root (plain `git diff`, not `git diff --relative`) to scope the report."@
}

/// The sentence for a diff whose paths resolve under no base.
pub open spec fn foreign_text(total: nat, label: Seq<char>, bases: Seq<char>) -> Seq<char> {
    "none of the "@ + decimal(total) + " file(s) named by "@ + label + " exist under "@ + bases
        + "; the diff's paths look relative to a different directory. fallow cannot place the diff, so every finding is reported (full scope, not scoped to the diff). Regenerate the diff from one of those directories to scope the report."@
}

impl DiffStandDown {
    pub fn new(reason: &'static str, message: String) -> (r: DiffStandDown)
        ensures
            r.reason == reason,
            r.message == message,
    {
        DiffStandDown { reason, message }
    }

    /// A diff of `bytes` bytes over the cap `cap`.
    pub fn oversize(label: &str, bytes: u64, cap: u64) -> (r: DiffStandDown)
        ensures
            r.reason@ == "oversize"@,
            r.message@ == oversize_text(label@, bytes as nat, cap as nat),
    {
        let mut m = String::new();
        push_str(&mut m, label);
        push_str(&mut m, " is ");
        push_decimal(&mut m, bytes);
        push_str(&mut m, " bytes (cap ");
        push_decimal(&mut m, cap);
        push_str(
            &mut m,
            "); line-level filtering disabled, reporting all findings. Narrow the diff; the cap is fixed.",
        );
        DiffStandDown::new("oversize", m)
    }

    /// A diff that could not be read; `err` is the read error's text.
    pub fn unreadable(label: &str, err: &str) -> (r: DiffStandDown)
        ensures
            r.reason@ == "unreadable"@,
            r.message@ == unreadable_text(label@, err@),
    {
        let mut m = String::new();
        push_str(&mut m, "could not read ");
        push_str(&mut m, label);
        push_str(&mut m, ": ");
        push_str(&mut m, err);
        push_str(
            &mut m,
            " (line-level filtering disabled, reporting all findings). Check the path exists and is readable.",
        );
        DiffStandDown::new("unreadable", m)
    }

    /// A diff that is not UTF-8; `err` is the decoding error's text.
    pub fn not_utf8(label: &str, err: &str) -> (r: DiffStandDown)
        ensures
            r.reason@ == "not-utf8"@,
            r.message@ == not_utf8_text(label@, err@),
    {
        let mut m = String::new();
        push_str(&mut m, "could not read ");
        push_str(&mut m, label);
        push_str(&mut m, " as UTF-8: ");
        push_str(&mut m, err);
        push_str(
            &mut m,
            " (line-level filtering disabled, reporting all findings). Regenerate the diff as UTF-8 text.",
        );
        DiffStandDown::new("not-utf8", m)
    }

    /// The diff's paths resolve equally well under two candidate bases.
    pub fn ambiguous_base(candidate_bases: &Vec<String>, root: &str, label: &str) -> (r: DiffStandDown)
        ensures
            r.reason@ == "ambiguous-base"@,
            r.message@ == ambiguous_text(label@, bases_text(string_seq(candidate_bases@), root@, " and "@)),
    {
        let bases = join_bases(candidate_bases, root, " and ");
        let mut m = String::new();
        push_str(&mut m, "the paths in ");
        push_str(&mut m, label);
        push_str(&mut m, " name existing files under ");
        push_str(&mut m, bases.as_str());
        push_str(
            &mut m,
            ", so their base is ambiguous and fallow cannot tell which one the diff is relative to. It will not filter against a guess: every finding is reported (full scope, not scoped to the diff). Generate the diff from the repository root (plain `git diff`, not `git diff --relative`) to scope the report.",
        );
        assert(m@ == ambiguous_text(label@, bases@));
        DiffStandDown::new("ambiguous-base", m)
    }

    /// None of the `total` files the diff names exists under any candidate base.
    pub fn foreign_namespace(total: usize, candidate_bases: &Vec<String>, root: &str, label: &str) -> (r: DiffStandDown)
        ensures
            r.reason@ == "foreign-namespace"@,
            r.message@ == foreign_text(total as nat, label@, bases_text(string_seq(candidate_bases@), root@, ", "@)),
    {
        let bases = join_bases(candidate_bases, root, ", ");
        let mut m = String::new();
        push_str(&mut m, "none of the ");
        push_decimal(&mut m, total as u64);
        push_str(&mut m, " file(s) named by ");
        push_str(&mut m, label);
        push_str(&mut m, " exist under ");
        push_str(&mut m, bases.as_str());
        push_str(
            &mut m,
            "; the diff's paths look relative to a different directory. fallow cannot place the diff, so every finding is reported (full scope, not scoped to the diff). Regenerate the diff from one of those directories to scope the report.",
        );
        assert(m@ == foreign_text(total as nat, label@, bases@));
        DiffStandDown::new("foreign-namespace", m)
    }
}

/// What `Path::strip_prefix` gives for `path` and `base` (the rest of `path`
/// after the leading components `base`, read back as text), or `None` when
/// `base` is not a component prefix of `path`.
pub uninterp spec fn path_strip_prefix(path: Seq<char>, base: Seq<char>) -> Option<Seq<char>>;

/// Whether `Path`'s `==` holds of two paths (component-wise equality).
pub uninterp spec fn path_eq(a: Seq<char>, b: Seq<char>) -> bool;

/// Calls `std::path::Path::strip_prefix` and reads the remainder back as text;
/// the result is named, not stated, since `Path`'s component rules take pages.
#[verifier::external_body]
pub(crate) fn strip_path_prefix(path: &str, base: &str) -> (r: Option<String>)
    ensures
        match r {
            Some(s) => path_strip_prefix(path@, base@) == Some(s@),
            None => path_strip_prefix(path@, base@) is None,
        },
{
    std::path::Path::new(path).strip_prefix(base).ok().map(|p| p.to_string_lossy().into_owned())
}

/// Calls `Path`'s `==` on two paths; the result is named, not stated.
#[verifier::external_body]
pub(crate) fn same_path(a: &str, b: &str) -> (r: bool)
    ensures
        r == path_eq(a@, b@),
{
    std::path::Path::new(a) == std::path::Path::new(b)
}

/// How a candidate base is named without the checkout path: the project root
/// itself, the repository root above it with the offset the diff is missing,
/// a directory inside the project, or one outside it.
pub open spec fn base_label_text(
    same: bool,
    root_below_base: Option<Seq<char>>,
    base_below_root: Option<Seq<char>>,
) -> Seq<char> {
    if same {
        "the project root"@
    } else if root_below_base is Some {
        "the repository root (the project root is "@ + replace_char(root_below_base->0, '\\', "/"@)
            + " below it)"@
    } else if base_below_root is Some {
        replace_char(base_below_root->0, '\\', "/"@)
    } else {
        "a directory outside the project root"@
    }
}

/// Name a candidate base, given whether it is the root and the offsets
/// `Path::strip_prefix` found in either direction.
pub fn base_label_from(
    same: bool,
    root_below_base: Option<String>,
    base_below_root: Option<String>,
) -> (r: String)
    ensures
        r@ == base_label_text(
            same,
            match root_below_base { Some(s) => Some(s@), None => None },
            match base_below_root { Some(s) => Some(s@), None => None },
        ),
{
    if same {
        let mut r = String::new();
        push_str(&mut r, "the project root");
        return r;
    }
    if let Some(offset) = root_below_base {
        let mut r = String::new();
        push_str(&mut r, "the repository root (the project root is ");
        let o = replace_char_str(offset.as_str(), '\\', "/");
        push_str(&mut r, o.as_str());
        push_str(&mut r, " below it)");
        return r;
    }
    if let Some(inside) = base_below_root {
        return replace_char_str(inside.as_str(), '\\', "/");
    }
    let mut r = String::new();
    push_str(&mut r, "a directory outside the project root");
    r
}

/// The label of candidate base `base` for analysis root `root`.
pub open spec fn base_label_of(base: Seq<char>, root: Seq<char>) -> Seq<char> {
    base_label_text(
        path_eq(base, root) || base == root,
        path_strip_prefix(root, base),
        path_strip_prefix(base, root),
    )
}

/// Name a candidate base without putting the machine's checkout path in it.
pub fn base_label(base: &str, root: &str) -> (r: String)
    ensures
        r@ == base_label_of(base@, root@),
{
    let same = same_path(base, root) || str_eq(base, root);
    let a = strip_path_prefix(root, base);
    let b = strip_path_prefix(base, root);
    base_label_from(same, a, b)
}

/// The labels of `bases` for root `root`, joined by `separator`.
pub open spec fn bases_text(bases: Seq<Seq<char>>, root: Seq<char>, separator: Seq<char>) -> Seq<char>
    decreases bases.len(),
{
    if bases.len() == 0 {
        Seq::empty()
    } else if bases.len() == 1 {
        base_label_of(bases[0], root)
    } else {
        bases_text(bases.drop_last(), root, separator) + separator + base_label_of(bases.last(), root)
    }
}

/// The views of a vector of strings.
pub open spec fn string_seq(v: Seq<String>) -> Seq<Seq<char>> {
    v.map_values(|s: String| s@)
}

/// The labels of `bases` joined by `separator`. A single base that is the
/// root itself reads `the project root`, so no checkout path is printed.
pub fn join_bases(candidate_bases: &Vec<String>, root: &str, separator: &str) -> (r: String)
    ensures
        r@ == bases_text(string_seq(candidate_bases@), root@, separator@),
        candidate_bases@.len() == 1 && candidate_bases@[0]@ == root@ ==> r@ == "the project root"@,
{
    let ghost bs = string_seq(candidate_bases@);
    let mut r = String::new();
    let mut i: usize = 0;
    while i < candidate_bases.len()
        invariant
            i <= candidate_bases@.len(),
            bs == string_seq(candidate_bases@),
            r@ == bases_text(bs.take(i as int), root@, separator@),
        decreases candidate_bases@.len() - i,
    {
        let ghost prev = r@;
        if i > 0 {
            push_str(&mut r, separator);
        }
        let label = base_label(candidate_bases[i].as_str(), root);
        push_str(&mut r, label.as_str());
        proof {
            let t = bs.take(i as int + 1);
            assert(t.drop_last() =~= bs.take(i as int));
            assert(t.last() == candidate_bases@[i as int]@);
            if i == 0 {
                assert(r@ =~= label@);
            } else {
                assert(r@ =~= prev + separator@ + label@);
            }
        }
        i = i + 1;
    }
    assert(bs.take(candidate_bases@.len() as int) =~= bs);
    proof {
        if candidate_bases@.len() == 1 && candidate_bases@[0]@ == root@ {
            reveal_strlit("the project root");
        }
    }
    r
}

/// Where the analysis root sits below `base`, forward-slashed; empty when
/// `root` is not below `base` (or is `base` itself).
pub fn root_offset_below(base: &str, root: &str) -> (r: String)
    ensures
        r@ == match path_strip_prefix(root@, base@) {
            Some(o) => replace_char(o, '\\', "/"@),
            None => Seq::empty(),
        },
{
    match strip_path_prefix(root, base) {
        Some(offset) => replace_char_str(offset.as_str(), '\\', "/"),
        None => String::new(),
    }
}

/// The position of the best-scoring candidate, `None` when no candidate
/// resolved any path. Ties keep the caller's order, and a tie for the best
/// score is ambiguous.
pub open spec fn best_base(scores: Seq<usize>, i: int) -> bool {
    &&& 0 <= i < scores.len()
    &&& scores[i] > 0
    &&& forall|j: int| 0 <= j < scores.len() ==> scores[j] <= scores[i]
    &&& forall|j: int| 0 <= j < i ==> scores[j] < scores[i]
}

/// Decide which directory the diff's paths are relative to, from the number of
/// the diff's paths that exist under each candidate (`scores`, most-preferred
/// first): the best score wins, an exact tie for it is ambiguous, and no
/// resolving candidate at all is `None`.
pub fn choose_diff_base(scores: &Vec<usize>) -> (r: Option<(usize, bool)>)
    ensures
        r is None <==> forall|j: int| 0 <= j < scores@.len() ==> scores@[j] == 0,
        r matches Some((i, ambiguous)) ==> best_base(scores@, i as int) && (ambiguous <==> exists|j: int|
            0 <= j < scores@.len() && j != i && scores@[j] == scores@[i as int]),
{
    let mut best: usize = 0;
    let mut found = false;
    let mut i: usize = 0;
    while i < scores.len()
        invariant
            i <= scores@.len(),
            !found ==> forall|j: int| 0 <= j < i ==> scores@[j] == 0,
            found ==> best < i && scores@[best as int] > 0 && (forall|j: int| 0 <= j < i ==> scores@[j] <= scores@[best as int])
                && (forall|j: int| 0 <= j < best ==> scores@[j] < scores@[best as int]),
        decreases scores@.len() - i,
    {
        if scores[i] > 0 && (!found || scores[i] > scores[best]) {
            best = i;
            found = true;
        }
        i = i + 1;
    }
    if !found {
        return None;
    }
    let mut ambiguous = false;
    let mut k: usize = 0;
    while k < scores.len()
        invariant
            k <= scores@.len(),
            best < scores@.len(),
            ambiguous <==> exists|j: int| 0 <= j < k && j != best && scores@[j] == scores@[best as int],
        decreases scores@.len() - k,
    {
        if k != best && scores[k] == scores[best] {
            ambiguous = true;
        }
        k = k + 1;
    }
    Some((best, ambiguous))
}


/// The message `String::from_utf8` gives for bytes that are not UTF-8.
pub uninterp spec fn utf8_error_text(bytes: Seq<u8>) -> Seq<char>;

/// Calls `String::from_utf8`: the text when the bytes are valid UTF-8, else
/// the error's message (which is named, not stated).
#[verifier::external_body]
pub(crate) fn string_from_utf8(bytes: Vec<u8>) -> (r: Result<String, String>)
    ensures
        r is Ok <==> vstd::utf8::valid_utf8(bytes@),
        r matches Ok(s) ==> s@ == vstd::utf8::decode_utf8(bytes@),
        r matches Err(e) ==> e@ == utf8_error_text(bytes@),
{
    String::from_utf8(bytes).map_err(|e| e.to_string())
}

/// The text of a diff read from `label`, given the bytes the read returned
/// (at most one past `limit`): a stand-down when there are more than `limit`
/// of them or they are not UTF-8.
pub fn diff_text(bytes: Vec<u8>, label: &str, limit: u64) -> (r: Result<String, DiffStandDown>)
    ensures
        bytes@.len() > limit ==> (r matches Err(d) && d.reason@ == "oversize"@ && d.message@ == oversize_text(label@, bytes@.len(), limit as nat)),
        bytes@.len() <= limit && !vstd::utf8::valid_utf8(bytes@) ==> (r matches Err(d) && d.reason@ == "not-utf8"@ && d.message@ == not_utf8_text(label@, utf8_error_text(bytes@))),
        bytes@.len() <= limit && vstd::utf8::valid_utf8(bytes@) ==> (r matches Ok(s) && s@ == vstd::utf8::decode_utf8(bytes@)),
{
    let n = bytes.len();
    if n as u64 > limit {
        return Err(DiffStandDown::oversize(label, n as u64, limit));
    }
    match string_from_utf8(bytes) {
        Ok(text) => Ok(text),
        Err(e) => Err(DiffStandDown::not_utf8(label, e.as_str())),
    }
}

/// The warning for a diff that parsed to no added line, unless quiet: the
/// filter is applied, and its scope is empty.
pub fn empty_diff_warning(label: &str, added_lines: usize, quiet: bool) -> (r: Option<String>)
    ensures
        (!quiet && added_lines == 0) <==> r is Some,
        r matches Some(m) ==> m@ == "fallow: warning [diff-file]: "@ + label@
            + " parsed 0 added lines; no findings will pass the diff filter. Verify the input is a unified diff (look for `+++ b/<path>` headers). Pure-rename, binary-only, and deletion-only diffs also produce empty indices."@,
{
    if quiet || added_lines != 0 {
        return None;
    }
    let mut m = String::new();
    push_str(&mut m, "fallow: warning [diff-file]: ");
    push_str(&mut m, label);
    push_str(
        &mut m,
        " parsed 0 added lines; no findings will pass the diff filter. Verify the input is a unified diff (look for `+++ b/<path>` headers). Pure-rename, binary-only, and deletion-only diffs also produce empty indices.",
    );
    Some(m)
}

/// The context radius `FALLOW_DIFF_CONTEXT` asks for, when it parses as a
/// count; 3 otherwise.
pub fn context_radius(value: Option<&str>) -> (r: u64)
    ensures
        r == match value {
            Some(v) => match crate::text::parsed_u64(v@) {
                Some(n) => n,
                None => 3,
            },
            None => 3,
        },
{
    match value {
        Some(v) => match crate::text::parse_u64(v) {
            Some(n) => n,
            None => 3,
        },
        None => 3,
    }
}

} // verus!
