use fallow_cli::trace_error::{
    accept_trace_bytes, counts_line, human_lines, read_failure, trace_source, ErrorTrace,
    FrameCandidate, TraceCounts, TraceFrame, TraceSource, PIPE_HINT, TEXT_HINT, TRIM_HINT,
};

fn counts(frames: usize, resolved: usize) -> TraceCounts {
    TraceCounts {
        frames,
        resolved,
        ambiguous: 0,
        not_found: frames - resolved,
        not_attempted: 0,
        frames_omitted: 0,
        unparsed_lines: 0,
    }
}

fn frame(index: usize, resolved: bool, reason: &str) -> TraceFrame {
    TraceFrame {
        index,
        function: Some(format!("fn{index}")),
        file: Some("src/app.ts".to_string()),
        line: Some(10 + index as u64),
        origin: "project".to_string(),
        resolution: if resolved { "resolved" } else { "not_found" }.to_string(),
        resolved,
        line_mismatch: false,
        reason: reason.to_string(),
        candidates: Vec::new(),
        candidates_omitted: 0,
    }
}

#[test]
fn no_file_and_dash_both_read_stdin() {
    assert_eq!(trace_source(None), TraceSource::Stdin);
    assert_eq!(trace_source(Some("-")), TraceSource::Stdin);
    assert_eq!(trace_source(Some("trace.txt")), TraceSource::File("trace.txt".to_string()));
}

#[test]
fn an_oversized_trace_is_refused_with_the_trim_hint() {
    let err = accept_trace_bytes(&TraceSource::Stdin, vec![b'a'; 11], 10).unwrap_err();
    assert_eq!(err.message, "stack trace from stdin exceeds the 10-byte limit");
    assert_eq!(err.hint, TRIM_HINT);
    let err = accept_trace_bytes(&TraceSource::File("t.log".to_string()), vec![b'a'; 11], 10)
        .unwrap_err();
    assert_eq!(err.message, "stack trace 't.log' exceeds the 10-byte limit");
}

#[test]
fn a_trace_that_is_not_text_is_refused() {
    let err = accept_trace_bytes(&TraceSource::Stdin, vec![0xff, 0xfe], 10).unwrap_err();
    assert_eq!(err.message, "stack trace from stdin is not valid UTF-8");
    assert_eq!(err.hint, TEXT_HINT);
    let err = accept_trace_bytes(&TraceSource::File("t.log".to_string()), vec![0xff], 10)
        .unwrap_err();
    assert_eq!(err.message, "stack trace from 't.log' is not valid UTF-8");
    assert_eq!(err.hint, PIPE_HINT);
}

#[test]
fn a_text_trace_keeps_the_callers_spelling_as_its_source() {
    let (text, label) =
        accept_trace_bytes(&TraceSource::File("./t.log".to_string()), b"at x".to_vec(), 10)
            .unwrap();
    assert_eq!(text, "at x");
    assert_eq!(label, "./t.log");
    let (_, label) = accept_trace_bytes(&TraceSource::Stdin, b"at x".to_vec(), 4).unwrap();
    assert_eq!(label, "stdin");
}

#[test]
fn a_failed_read_names_the_input() {
    let err = read_failure(&TraceSource::File("t.log".to_string()), "No such file");
    assert_eq!(err.message, "failed to read stack trace from 't.log': No such file");
    assert_eq!(err.hint, PIPE_HINT);
}

#[test]
fn counts_line_shows_omissions_only_when_nonzero() {
    assert_eq!(
        counts_line(&counts(3, 2)),
        "  frames 3 | resolved 2 | ambiguous 0 | not found 1 | not attempted 0"
    );
    let mut c = counts(3, 2);
    c.frames_omitted = 4;
    c.unparsed_lines = 5;
    assert_eq!(
        counts_line(&c),
        "  frames 3 | resolved 2 | ambiguous 0 | not found 1 | not attempted 0 \
         | frames omitted 4 | unparsed lines 5"
    );
}

#[test]
fn an_empty_trace_states_the_fact_once_and_the_next_step() {
    let mut c = counts(0, 0);
    c.unparsed_lines = 1;
    let trace = ErrorTrace {
        source: "stdin".to_string(),
        header: None,
        frames: Vec::new(),
        counts: c,
        reason: "nothing".to_string(),
    };
    let lines = human_lines(&trace, false);
    assert_eq!(
        lines,
        vec![
            "Stack-trace frames (syntactic; OFF the ranked path)".to_string(),
            String::new(),
            "  source: stdin".to_string(),
            String::new(),
            "No stack frames recognised (1 input line did not parse as a frame).".to_string(),
            format!("  hint: {PIPE_HINT}"),
        ]
    );
}

#[test]
fn a_repeated_reason_prints_once_and_a_changed_one_prints_again() {
    let mut ambiguous = frame(2, false, "no module");
    ambiguous.candidates = vec![
        FrameCandidate {
            file: "src/a.ts".to_string(),
            line: Some(4),
            symbol: "A".to_string(),
            member: Some("run".to_string()),
            kind: "class".to_string(),
        },
        FrameCandidate {
            file: "src/b.ts".to_string(),
            line: None,
            symbol: "B".to_string(),
            member: None,
            kind: "function".to_string(),
        },
    ];
    ambiguous.candidates_omitted = 3;
    let trace = ErrorTrace {
        source: "t.log".to_string(),
        header: Some("TypeError: x".to_string()),
        frames: vec![
            frame(0, false, "node_modules frame"),
            frame(1, false, "node_modules frame"),
            ambiguous,
            frame(3, true, "matched"),
        ],
        counts: counts(4, 1),
        reason: "prose".to_string(),
    };
    let lines = human_lines(&trace, true);
    assert_eq!(
        lines,
        vec![
            "Stack-trace frames (syntactic; OFF the ranked path)",
            "",
            "  source: t.log",
            "  error:  TypeError: x",
            "",
            "  [0] fn0 src/app.ts:10 [project/not_found]",
            "        node_modules frame",
            "  [1] fn1 src/app.ts:11 [project/not_found]",
            "  [2] fn2 src/app.ts:12 [project/not_found]",
            "        -> src/a.ts:4 A.run (class)",
            "        -> src/b.ts B (function)",
            "        -> 3 further matches omitted",
            "        no module",
            "  [3] fn3 src/app.ts:13 [project/resolved]",
            "",
            "  frames 4 | resolved 1 | ambiguous 0 | not found 3 | not attempted 0",
        ]
    );
    let loud = human_lines(&trace, false);
    assert_eq!(loud.len(), lines.len() + 2);
    assert_eq!(loud.last().unwrap(), "prose");
}

#[test]
fn a_resolved_frame_with_a_line_mismatch_is_explained() {
    let mut f = frame(0, true, "line differs");
    f.function = None;
    f.file = None;
    f.line_mismatch = true;
    let trace = ErrorTrace {
        source: "stdin".to_string(),
        header: None,
        frames: vec![f],
        counts: counts(1, 1),
        reason: String::new(),
    };
    let lines = human_lines(&trace, true);
    assert_eq!(lines[4], "  [0] <anonymous> <no location> [project/resolved]");
    assert_eq!(lines[5], "        line differs");
}
