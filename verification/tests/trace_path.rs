use fallow_cli::trace_path::{
    endpoint_error, human_lines, ImportHop, ImportPathEndpoint, ImportPathTrace,
};

fn trace(path: Vec<ImportHop>, reachable: bool) -> ImportPathTrace {
    ImportPathTrace {
        from: "src/a.ts".to_string(),
        to: "src/c.ts".to_string(),
        reachable,
        hops: path.len(),
        path,
        reason: "syntactic walk".to_string(),
    }
}

#[test]
fn an_unknown_endpoint_names_the_value_the_caller_passed() {
    assert_eq!(
        endpoint_error(ImportPathEndpoint::To, "to", "src/a.ts", "src/x.ts"),
        "--path to module 'src/x.ts' not found in module graph"
    );
    assert_eq!(
        endpoint_error(ImportPathEndpoint::AmbiguousFrom, "from", "index", "src/x.ts"),
        "--path from module 'index' matches multiple modules; use the full project-relative path"
    );
}

#[test]
fn an_unreachable_pair_is_an_answer_not_an_error() {
    let lines = human_lines(&trace(Vec::new(), false), true, false);
    assert_eq!(
        lines,
        vec![
            "Shortest import path (syntactic; OFF the ranked path)",
            "",
            "  from:      src/a.ts",
            "  to:        src/c.ts",
            "  reachable: no",
            "  hops:      0",
            "",
            "No import path.",
        ]
    );
}

#[test]
fn the_same_module_is_reachable_with_no_hop() {
    let lines = human_lines(&trace(Vec::new(), true), false, true);
    assert_eq!(lines[0], "Shortest eager import path (static value imports only; syntactic)");
    assert_eq!(lines[4], "  reachable: yes");
    assert_eq!(lines[7], "Same module: no import hop needed.");
    assert_eq!(lines[8], "");
    assert_eq!(lines[9], "syntactic walk");
}

#[test]
fn hops_are_numbered_from_one_with_the_importing_line() {
    let hops = vec![
        ImportHop {
            from: "src/a.ts".to_string(),
            to: "src/b.ts".to_string(),
            import_line: Some(3),
            type_only: true,
            dynamic: true,
        },
        ImportHop {
            from: "src/b.ts".to_string(),
            to: "src/c.ts".to_string(),
            import_line: None,
            type_only: false,
            dynamic: true,
        },
    ];
    let lines = human_lines(&trace(hops, true), true, false);
    assert_eq!(lines[5], "  hops:      2");
    assert_eq!(lines[7], "  [1] src/a.ts:3 -> src/b.ts [type-only]");
    assert_eq!(lines[8], "  [2] src/b.ts -> src/c.ts [dynamic]");
    assert_eq!(lines.len(), 9);
}
