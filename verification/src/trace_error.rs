//! `fallow trace-error [FILE|-]`: where the stack trace comes from, what is
//! refused of it, and the human rendering of the resolved frames.
//!
//! A trace in which nothing resolves is an answer, not an error: the counts
//! say so. Only unreadable input is refused.
use vstd::prelude::*;
use crate::diff_filter::{absolute_under, absolute_under_text, string_from_utf8};
use crate::text::{decimal, push_decimal, push_str, str_eq, string_views_of};

verus! {

/// The stdin sentinel, as `--diff-file -` spells it.
pub const STDIN_SENTINEL: &'static str = "-";

/// The next step for an input that produced no frames.
pub const PIPE_HINT: &'static str =
    "pass a stack-trace file, or pipe one: `node app.js 2>&1 | fallow trace-error -`";

/// The remedy for an input over the size ceiling: the frames that matter sit
/// at the top of a stack.
pub const TRIM_HINT: &'static str =
    "keep the top frames and drop the rest; the innermost frames are the ones this resolves";

/// The remedy for bytes read from stdin that are not text.
pub const TEXT_HINT: &'static str =
    "pipe the trace as text; a captured binary log or a mixed encoding cannot be parsed";

/// Where the trace is read from.
#[derive(Debug, PartialEq, Eq)]
pub enum TraceSource {
    Stdin,
    /// A file, as the caller spelled it.
    File(String),
}

/// No file, or `-`, reads stdin; anything else names a file.
pub fn trace_source(trace_file: Option<&str>) -> (r: TraceSource)
    ensures
        match trace_file {
            None => r is Stdin,
            Some(p) => if p@ == STDIN_SENTINEL@ {
                r is Stdin
            } else {
                r matches TraceSource::File(f) && f@ == p@
            },
        },
{
    match trace_file {
        None => TraceSource::Stdin,
        Some(p) => {
            if str_eq(p, STDIN_SENTINEL) {
                TraceSource::Stdin
            } else {
                let mut f = String::new();
                push_str(&mut f, p);
                assert(f@ =~= p@);
                TraceSource::File(f)
            }
        },
    }
}

/// The file a trace path names: a relative path is resolved against the
/// project root, as `--diff-file` resolves its input.
pub fn trace_file_path(root: &str, path: &str) -> (r: String)
    ensures
        r@ == absolute_under_text(root@, path@),
{
    absolute_under(root, path)
}

/// A refused trace input: what went wrong and the remedy for it.
#[derive(Debug)]
pub struct TraceInputError {
    pub message: String,
    pub hint: &'static str,
}

/// The message for a failed read of `source`, given the I/O error's text.
pub open spec fn read_failure_text(source: TraceSource, error: Seq<char>) -> Seq<char> {
    match source {
        TraceSource::Stdin => "failed to read stack trace from stdin: "@ + error,
        TraceSource::File(p) => "failed to read stack trace from '"@ + p@ + "': "@ + error,
    }
}

/// A read of the trace failed: say which input and why, and how to pass one.
pub fn read_failure(source: &TraceSource, error: &str) -> (r: TraceInputError)
    ensures
        r.message@ == read_failure_text(*source, error@),
        r.hint@ == PIPE_HINT@,
{
    let mut m = String::new();
    match source {
        TraceSource::Stdin => push_str(&mut m, "failed to read stack trace from stdin: "),
        TraceSource::File(p) => {
            push_str(&mut m, "failed to read stack trace from '");
            push_str(&mut m, p.as_str());
            push_str(&mut m, "': ");
        },
    }
    push_str(&mut m, error);
    assert(m@ =~= read_failure_text(*source, error@));
    TraceInputError { message: m, hint: PIPE_HINT }
}

/// The message for an input over `limit` bytes.
pub open spec fn oversize_trace_text(source: TraceSource, limit: nat) -> Seq<char> {
    match source {
        TraceSource::Stdin => "stack trace from stdin exceeds the "@ + decimal(limit)
            + "-byte limit"@,
        TraceSource::File(p) => "stack trace '"@ + p@ + "' exceeds the "@ + decimal(limit)
            + "-byte limit"@,
    }
}

/// The message for an input that is not UTF-8.
pub open spec fn not_text_trace_text(source: TraceSource) -> Seq<char> {
    match source {
        TraceSource::Stdin => "stack trace from stdin is not valid UTF-8"@,
        TraceSource::File(p) => "stack trace from '"@ + p@ + "' is not valid UTF-8"@,
    }
}

/// The label the payload reports as its source: `stdin`, or the caller's own
/// spelling of the file.
pub open spec fn source_label(source: TraceSource) -> Seq<char> {
    match source {
        TraceSource::Stdin => "stdin"@,
        TraceSource::File(p) => p@,
    }
}

/// The text of a trace and its source label, given the bytes a read returned
/// (at most one past `limit`): refused when there are more than `limit` bytes
/// (trim it) or they are not UTF-8.
pub fn accept_trace_bytes(source: &TraceSource, bytes: Vec<u8>, limit: u64) -> (r: Result<
    (String, String),
    TraceInputError,
>)
    ensures
        bytes@.len() > limit ==> (r matches Err(e) && e.message@ == oversize_trace_text(
            *source,
            limit as nat,
        ) && e.hint@ == TRIM_HINT@),
        bytes@.len() <= limit && !vstd::utf8::valid_utf8(bytes@) ==> (r matches Err(e)
            && e.message@ == not_text_trace_text(*source) && e.hint@ == (match *source {
            TraceSource::Stdin => TEXT_HINT@,
            TraceSource::File(_) => PIPE_HINT@,
        })),
        bytes@.len() <= limit && vstd::utf8::valid_utf8(bytes@) ==> (r matches Ok((text, label))
            && text@ == vstd::utf8::decode_utf8(bytes@) && label@ == source_label(*source)),
{
    let n = bytes.len();
    if n as u64 > limit {
        let mut m = String::new();
        match source {
            TraceSource::Stdin => push_str(&mut m, "stack trace from stdin exceeds the "),
            TraceSource::File(p) => {
                push_str(&mut m, "stack trace '");
                push_str(&mut m, p.as_str());
                push_str(&mut m, "' exceeds the ");
            },
        }
        push_decimal(&mut m, limit);
        push_str(&mut m, "-byte limit");
        assert(m@ =~= oversize_trace_text(*source, limit as nat));
        return Err(TraceInputError { message: m, hint: TRIM_HINT });
    }
    match string_from_utf8(bytes) {
        Ok(text) => {
            let mut label = String::new();
            match source {
                TraceSource::Stdin => push_str(&mut label, "stdin"),
                TraceSource::File(p) => push_str(&mut label, p.as_str()),
            }
            assert(label@ =~= source_label(*source));
            Ok((text, label))
        },
        Err(_) => {
            let mut m = String::new();
            let hint = match source {
                TraceSource::Stdin => {
                    push_str(&mut m, "stack trace from stdin is not valid UTF-8");
                    TEXT_HINT
                },
                TraceSource::File(p) => {
                    push_str(&mut m, "stack trace from '");
                    push_str(&mut m, p.as_str());
                    push_str(&mut m, "' is not valid UTF-8");
                    PIPE_HINT
                },
            };
            assert(m@ =~= not_text_trace_text(*source));
            Err(TraceInputError { message: m, hint })
        },
    }
}

/// One definition a frame may have matched.
#[derive(Debug)]
pub struct FrameCandidate {
    pub file: String,
    pub line: Option<u64>,
    pub symbol: String,
    pub member: Option<String>,
    pub kind: String,
}

/// One frame of the trace, with its labels as the payload writes them.
#[derive(Debug)]
pub struct TraceFrame {
    pub index: usize,
    pub function: Option<String>,
    pub file: Option<String>,
    pub line: Option<u64>,
    pub origin: String,
    pub resolution: String,
    /// The frame resolved to exactly one definition.
    pub resolved: bool,
    /// The frame's own line disagrees with the definition it matched.
    pub line_mismatch: bool,
    pub reason: String,
    pub candidates: Vec<FrameCandidate>,
    pub candidates_omitted: usize,
}

/// The measurements of a trace.
#[derive(Debug, Clone, Copy)]
pub struct TraceCounts {
    pub frames: usize,
    pub resolved: usize,
    pub ambiguous: usize,
    pub not_found: usize,
    pub not_attempted: usize,
    pub frames_omitted: usize,
    pub unparsed_lines: usize,
}

/// A resolved stack trace.
#[derive(Debug)]
pub struct ErrorTrace {
    pub source: String,
    pub header: Option<String>,
    pub frames: Vec<TraceFrame>,
    pub counts: TraceCounts,
    pub reason: String,
}

/// `file:line`, the file alone, or `<no location>`.
pub open spec fn location_text(f: TraceFrame) -> Seq<char> {
    match f.file {
        Some(file) => match f.line {
            Some(l) => file@ + ":"@ + decimal(l as nat),
            None => file@,
        },
        None => "<no location>"@,
    }
}

/// `  [index] function location [origin/resolution]`.
pub open spec fn frame_header(f: TraceFrame) -> Seq<char> {
    "  ["@ + decimal(f.index as nat) + "] "@ + (match f.function {
        Some(name) => name@,
        None => "<anonymous>"@,
    }) + " "@ + location_text(f) + " ["@ + f.origin@ + "/"@ + f.resolution@ + "]"@
}

/// `        -> file[:line] symbol[.member] (kind)`.
pub open spec fn candidate_line(c: FrameCandidate) -> Seq<char> {
    "        -> "@ + c.file@ + (match c.line {
        Some(l) => ":"@ + decimal(l as nat),
        None => Seq::empty(),
    }) + " "@ + c.symbol@ + (match c.member {
        Some(m) => "."@ + m@,
        None => Seq::empty(),
    }) + " ("@ + c.kind@ + ")"@
}

/// Every candidate of a frame, one line each: an ambiguous frame shows them all.
pub open spec fn candidate_lines(cs: Seq<FrameCandidate>) -> Seq<Seq<char>> {
    cs.map_values(|c: FrameCandidate| candidate_line(c))
}

/// The line counting the candidates left out, when some were.
pub open spec fn omitted_lines(f: TraceFrame) -> Seq<Seq<char>> {
    if f.candidates_omitted > 0 {
        seq!["        -> "@ + decimal(f.candidates_omitted as nat) + " further matches omitted"@]
    } else {
        Seq::empty()
    }
}

/// A frame's reason is printed when the frame needs explaining (it did not
/// resolve, or its line disagrees with its match) and the reason differs from
/// the last one printed.
pub open spec fn explains(f: TraceFrame, last: Option<Seq<char>>) -> bool {
    (!f.resolved || f.line_mismatch) && last != Some(f.reason@)
}

/// The last reason printed once `f` has been rendered.
pub open spec fn reason_after(f: TraceFrame, last: Option<Seq<char>>) -> Option<Seq<char>> {
    if explains(f, last) {
        Some(f.reason@)
    } else {
        last
    }
}

/// The lines of one frame, given the last reason printed before it.
pub open spec fn frame_lines(f: TraceFrame, last: Option<Seq<char>>) -> Seq<Seq<char>> {
    seq![frame_header(f)] + candidate_lines(f.candidates@) + omitted_lines(f) + (if explains(
        f,
        last,
    ) {
        seq!["        "@ + f.reason@]
    } else {
        Seq::empty()
    })
}

/// The last reason printed after the first `n` frames.
pub open spec fn reason_state(frames: Seq<TraceFrame>, n: nat) -> Option<Seq<char>>
    decreases n,
{
    if n == 0 {
        None
    } else {
        reason_after(frames[n - 1], reason_state(frames, (n - 1) as nat))
    }
}

/// The lines of the first `n` frames.
pub open spec fn frames_lines(frames: Seq<TraceFrame>, n: nat) -> Seq<Seq<char>>
    decreases n,
{
    if n == 0 {
        Seq::empty()
    } else {
        frames_lines(frames, (n - 1) as nat) + frame_lines(
            frames[n - 1],
            reason_state(frames, (n - 1) as nat),
        )
    }
}

/// The counts line: the measurements that say how much of the input was
/// recognised, the omissions only when there were some.
pub open spec fn counts_text(c: TraceCounts) -> Seq<char> {
    "  frames "@ + decimal(c.frames as nat) + " | resolved "@ + decimal(c.resolved as nat)
        + " | ambiguous "@ + decimal(c.ambiguous as nat) + " | not found "@ + decimal(
        c.not_found as nat,
    ) + " | not attempted "@ + decimal(c.not_attempted as nat) + (if c.frames_omitted > 0 {
        " | frames omitted "@ + decimal(c.frames_omitted as nat)
    } else {
        Seq::empty()
    }) + (if c.unparsed_lines > 0 {
        " | unparsed lines "@ + decimal(c.unparsed_lines as nat)
    } else {
        Seq::empty()
    })
}

/// The empty state: the fact once, with the unparsed-line count folded in,
/// then what to do about it.
pub open spec fn empty_trace_lines(c: TraceCounts) -> Seq<Seq<char>> {
    seq![
        if c.unparsed_lines > 0 {
            "No stack frames recognised ("@ + decimal(c.unparsed_lines as nat) + " input line"@
                + (if c.unparsed_lines == 1 {
                Seq::empty()
            } else {
                "s"@
            }) + " did not parse as a frame)."@
        } else {
            "No stack frames recognised."@
        },
        "  hint: "@ + PIPE_HINT@,
    ]
}

/// The title, the source and the error header, and a blank line.
pub open spec fn trace_head(t: ErrorTrace) -> Seq<Seq<char>> {
    seq!["Stack-trace frames (syntactic; OFF the ranked path)"@, Seq::empty(), "  source: "@ + t.source@]
        + (match t.header {
        Some(h) => seq!["  error:  "@ + h@],
        None => Seq::empty(),
    }) + seq![Seq::empty()]
}

/// The whole human rendering; `quiet` drops the closing prose.
pub open spec fn trace_human_lines(t: ErrorTrace, quiet: bool) -> Seq<Seq<char>> {
    trace_head(t) + if t.frames@.len() == 0 {
        empty_trace_lines(t.counts)
    } else {
        frames_lines(t.frames@, t.frames@.len()) + seq![Seq::empty(), counts_text(t.counts)] + (
        if quiet {
            Seq::empty()
        } else {
            seq![Seq::empty(), t.reason@]
        })
    }
}

/// Appends a line.
fn push_line(lines: &mut Vec<String>, s: String)
    ensures
        string_views_of(final(lines)@) == string_views_of(old(lines)@).push(s@),
{
    let ghost v = s@;
    lines.push(s);
    assert(string_views_of(lines@) =~= string_views_of(old(lines)@).push(v));
}

/// Appends a line holding `t`.
fn push_text(lines: &mut Vec<String>, t: &str)
    ensures
        string_views_of(final(lines)@) == string_views_of(old(lines)@).push(t@),
{
    let mut s = String::new();
    push_str(&mut s, t);
    assert(s@ =~= t@);
    push_line(lines, s);
}

/// The counts line.
pub fn counts_line(c: &TraceCounts) -> (r: String)
    ensures
        r@ == counts_text(*c),
{
    let mut s = String::new();
    push_str(&mut s, "  frames ");
    push_decimal(&mut s, c.frames as u64);
    push_str(&mut s, " | resolved ");
    push_decimal(&mut s, c.resolved as u64);
    push_str(&mut s, " | ambiguous ");
    push_decimal(&mut s, c.ambiguous as u64);
    push_str(&mut s, " | not found ");
    push_decimal(&mut s, c.not_found as u64);
    push_str(&mut s, " | not attempted ");
    push_decimal(&mut s, c.not_attempted as u64);
    let ghost base = s@;
    if c.frames_omitted > 0 {
        push_str(&mut s, " | frames omitted ");
        push_decimal(&mut s, c.frames_omitted as u64);
    }
    let ghost mid = s@;
    if c.unparsed_lines > 0 {
        push_str(&mut s, " | unparsed lines ");
        push_decimal(&mut s, c.unparsed_lines as u64);
    }
    assert(s@ =~= counts_text(*c));
    s
}

/// The line of one candidate.
fn candidate_string(c: &FrameCandidate) -> (r: String)
    ensures
        r@ == candidate_line(*c),
{
    let mut s = String::new();
    push_str(&mut s, "        -> ");
    push_str(&mut s, c.file.as_str());
    match c.line {
        Some(l) => {
            push_str(&mut s, ":");
            push_decimal(&mut s, l);
        },
        None => {},
    }
    push_str(&mut s, " ");
    push_str(&mut s, c.symbol.as_str());
    match &c.member {
        Some(m) => {
            push_str(&mut s, ".");
            push_str(&mut s, m.as_str());
        },
        None => {},
    }
    push_str(&mut s, " (");
    push_str(&mut s, c.kind.as_str());
    push_str(&mut s, ")");
    assert(s@ =~= candidate_line(*c));
    s
}

/// The header line of one frame.
fn frame_header_string(f: &TraceFrame) -> (r: String)
    ensures
        r@ == frame_header(*f),
{
    let mut s = String::new();
    push_str(&mut s, "  [");
    push_decimal(&mut s, f.index as u64);
    push_str(&mut s, "] ");
    match &f.function {
        Some(name) => push_str(&mut s, name.as_str()),
        None => push_str(&mut s, "<anonymous>"),
    }
    push_str(&mut s, " ");
    match &f.file {
        Some(file) => {
            push_str(&mut s, file.as_str());
            match f.line {
                Some(l) => {
                    push_str(&mut s, ":");
                    push_decimal(&mut s, l);
                },
                None => {},
            }
        },
        None => push_str(&mut s, "<no location>"),
    }
    push_str(&mut s, " [");
    push_str(&mut s, f.origin.as_str());
    push_str(&mut s, "/");
    push_str(&mut s, f.resolution.as_str());
    push_str(&mut s, "]");
    assert(s@ =~= frame_header(*f));
    s
}

/// Appends the lines of one frame; `printed` holds the last reason printed
/// before it, and whether this frame's reason was printed comes back.
fn push_frame_lines(lines: &mut Vec<String>, f: &TraceFrame, printed: Option<&str>) -> (r: bool)
    ensures
        ({
            let last = match printed {
                Some(p) => Some(p@),
                None => None,
            };
            &&& string_views_of(final(lines)@) == string_views_of(old(lines)@) + frame_lines(*f, last)
            &&& r == explains(*f, last)
        }),
{
    let ghost last: Option<Seq<char>> = match printed {
        Some(p) => Some(p@),
        None => None,
    };
    let ghost start = string_views_of(lines@);
    push_line(lines, frame_header_string(f));
    let ghost cands = candidate_lines(f.candidates@);
    let mut i: usize = 0;
    while i < f.candidates.len()
        invariant
            i <= f.candidates@.len(),
            cands == candidate_lines(f.candidates@),
            string_views_of(lines@) == start + seq![frame_header(*f)] + cands.take(i as int),
        decreases f.candidates@.len() - i,
    {
        push_line(lines, candidate_string(&f.candidates[i]));
        proof {
            assert(cands.take(i as int + 1) =~= cands.take(i as int).push(
                candidate_line(f.candidates@[i as int]),
            ));
        }
        i = i + 1;
    }
    assert(cands.take(f.candidates@.len() as int) =~= cands);
    if f.candidates_omitted > 0 {
        let mut s = String::new();
        push_str(&mut s, "        -> ");
        push_decimal(&mut s, f.candidates_omitted as u64);
        push_str(&mut s, " further matches omitted");
        push_line(lines, s);
    }
    assert(string_views_of(lines@) =~= start + seq![frame_header(*f)] + cands + omitted_lines(*f));
    let needs = !f.resolved || f.line_mismatch;
    let repeat = match printed {
        Some(p) => str_eq(p, f.reason.as_str()),
        None => false,
    };
    if needs && !repeat {
        let mut s = String::new();
        push_str(&mut s, "        ");
        push_str(&mut s, f.reason.as_str());
        push_line(lines, s);
        assert(string_views_of(lines@) =~= start + frame_lines(*f, last));
        true
    } else {
        assert(string_views_of(lines@) =~= start + frame_lines(*f, last));
        false
    }
}

/// The human rendering of a resolved trace, line by line. A reason explains a
/// class of frame, so a repeat of the last reason printed is left out; the
/// counts line always prints; `quiet` drops the closing prose.
pub fn human_lines(trace: &ErrorTrace, quiet: bool) -> (r: Vec<String>)
    ensures
        string_views_of(r@) == trace_human_lines(*trace, quiet),
{
    let mut lines: Vec<String> = Vec::new();
    push_text(&mut lines, "Stack-trace frames (syntactic; OFF the ranked path)");
    push_line(&mut lines, String::new());
    let mut src = String::new();
    push_str(&mut src, "  source: ");
    push_str(&mut src, trace.source.as_str());
    push_line(&mut lines, src);
    match &trace.header {
        Some(h) => {
            let mut e = String::new();
            push_str(&mut e, "  error:  ");
            push_str(&mut e, h.as_str());
            push_line(&mut lines, e);
        },
        None => {},
    }
    push_line(&mut lines, String::new());
    let ghost head = trace_head(*trace);
    assert(string_views_of(lines@) =~= head);
    if trace.frames.len() == 0 {
        let c = &trace.counts;
        let mut first = String::new();
        if c.unparsed_lines > 0 {
            push_str(&mut first, "No stack frames recognised (");
            push_decimal(&mut first, c.unparsed_lines as u64);
            push_str(&mut first, " input line");
            if c.unparsed_lines != 1 {
                push_str(&mut first, "s");
            }
            push_str(&mut first, " did not parse as a frame).");
        } else {
            push_str(&mut first, "No stack frames recognised.");
        }
        push_line(&mut lines, first);
        let mut hint = String::new();
        push_str(&mut hint, "  hint: ");
        push_str(&mut hint, PIPE_HINT);
        push_line(&mut lines, hint);
        assert(string_views_of(lines@) =~= trace_human_lines(*trace, quiet));
        return lines;
    }
    let ghost frames = trace.frames@;
    let mut last: Option<usize> = None;
    let mut i: usize = 0;
    while i < trace.frames.len()
        invariant
            i <= frames.len(),
            frames == trace.frames@,
            string_views_of(lines@) == head + frames_lines(frames, i as nat),
            match last {
                None => reason_state(frames, i as nat) is None,
                Some(j) => j < i && reason_state(frames, i as nat) == Some(frames[j as int].reason@),
            },
        decreases frames.len() - i,
    {
        let f = &trace.frames[i];
        let printed = match last {
            Some(j) => Some(trace.frames[j].reason.as_str()),
            None => None,
        };
        let said = push_frame_lines(&mut lines, f, printed);
        if said {
            last = Some(i);
        }
        proof {
            assert(frames[i as int] == *f);
            assert(head + frames_lines(frames, (i + 1) as nat) =~= head + frames_lines(
                frames,
                i as nat,
            ) + frame_lines(frames[i as int], reason_state(frames, i as nat)));
        }
        i = i + 1;
    }
    push_line(&mut lines, String::new());
    push_line(&mut lines, counts_line(&trace.counts));
    if !quiet {
        push_line(&mut lines, String::new());
        let mut reason = String::new();
        push_str(&mut reason, trace.reason.as_str());
        push_line(&mut lines, reason);
    }
    assert(string_views_of(lines@) =~= trace_human_lines(*trace, quiet));
    lines
}

} // verus!
