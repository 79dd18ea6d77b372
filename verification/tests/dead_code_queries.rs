use fallow_cli::dead_code_queries::{
    build_dead_code_queries, member_kind_name, namespace_name, protocol_entry_points,
    protocol_path, MemberKind, SemanticNamespace, SemanticQuery, UnusedExportFinding,
    UnusedMemberFinding,
};
use fallow_cli::semantic_queries::{QueryTarget, SemanticOperation};

fn member(path: &str) -> UnusedMemberFinding {
    UnusedMemberFinding {
        path: path.to_string(),
        kind: MemberKind::ClassMethod,
        member_name: "run".to_string(),
        parent_name: "Job".to_string(),
        line: 4,
        col: 2,
    }
}

fn export(path: &str, name: &str) -> UnusedExportFinding {
    UnusedExportFinding { path: path.to_string(), export_name: name.to_string(), line: 1, col: 7 }
}

#[test]
fn absolute_paths_lose_the_root_and_relative_paths_stay() {
    assert_eq!(protocol_path("/repo", "/repo/src/a.ts").unwrap(), "src/a.ts");
    assert_eq!(protocol_path("/repo", "src/a.ts").unwrap(), "src/a.ts");
}

#[test]
fn a_path_outside_the_root_is_refused() {
    let err = protocol_path("/repo", "/other/a.ts").unwrap_err();
    assert_eq!(err.message(), "type-aware path /other/a.ts is outside project root /repo");
}

#[test]
fn a_path_that_climbs_out_is_refused() {
    let err = protocol_path("/repo", "src/../../x.ts").unwrap_err();
    assert_eq!(err.message(), "type-aware path src/../../x.ts is not project-relative");
}

#[test]
fn member_kinds_and_namespaces_use_protocol_names() {
    assert_eq!(member_kind_name(MemberKind::ClassMethod), "class_method");
    assert_eq!(member_kind_name(MemberKind::StoreMember), "store_member");
    assert_eq!(namespace_name(SemanticNamespace::Type), "type");
}

#[test]
fn entry_points_cross_the_protocol_project_relative() {
    let points = protocol_entry_points(
        "/repo",
        &vec!["/repo/src/index.ts".to_string(), "lib\\main.ts".to_string()],
    )
    .unwrap();
    assert_eq!(points, vec!["src/index.ts".to_string(), "lib/main.ts".to_string()]);
}

#[test]
fn queries_are_numbered_in_finding_order_and_map_back() {
    let (queries, targets) = build_dead_code_queries(
        "/repo",
        &vec![member("/repo/src/job.ts")],
        &vec![export("src/a.ts", "a"), export("src/b.ts", "b")],
        &vec![export("src/t.ts", "T")],
        &vec!["src/index.ts".to_string()],
        true,
        true,
    )
    .unwrap();
    assert_eq!(queries.len(), 6);
    for (i, query) in queries.iter().enumerate() {
        assert_eq!(query.id(), i);
    }
    assert_eq!(
        targets,
        vec![
            QueryTarget::ClassMember(0),
            QueryTarget::UnusedExport(0),
            QueryTarget::UnusedExport(1),
            QueryTarget::UnusedType(0),
            QueryTarget::ApiSurface,
            QueryTarget::TypeCoupling,
        ]
    );
    match &queries[0] {
        SemanticQuery::SymbolUse { symbol, .. } => {
            assert_eq!(symbol.path, "src/job.ts");
            assert_eq!(symbol.declaration_kind, "class_method");
            assert_eq!(symbol.exported_name, "run");
            assert_eq!(symbol.owner.as_deref(), Some("Job"));
            assert_eq!(symbol.namespace, SemanticNamespace::Value);
        }
        other => panic!("unexpected {other:?}"),
    }
    match &queries[3] {
        SemanticQuery::SymbolUse { symbol, .. } => {
            assert_eq!(symbol.declaration_kind, "export");
            assert_eq!(symbol.namespace, SemanticNamespace::Type);
            assert!(symbol.owner.is_none());
        }
        other => panic!("unexpected {other:?}"),
    }
    match &queries[4] {
        SemanticQuery::ApiSurface { entry_points, include_cycles, .. } => {
            assert_eq!(entry_points, &vec!["src/index.ts".to_string()]);
            assert!(!include_cycles);
        }
        other => panic!("unexpected {other:?}"),
    }
    assert_eq!(queries[5].operation(), SemanticOperation::TypeCoupling);
}

#[test]
fn no_api_surface_query_without_entry_points() {
    let (queries, targets) =
        build_dead_code_queries("/repo", &Vec::new(), &Vec::new(), &Vec::new(), &Vec::new(), true, false)
            .unwrap();
    assert!(queries.is_empty());
    assert!(targets.is_empty());
}

#[test]
fn the_first_path_outside_the_project_refuses_the_batch() {
    let err = build_dead_code_queries(
        "/repo",
        &Vec::new(),
        &vec![export("src/a.ts", "a"), export("/elsewhere/b.ts", "b"), export("../c.ts", "c")],
        &Vec::new(),
        &Vec::new(),
        false,
        false,
    )
    .unwrap_err();
    assert_eq!(err.message(), "type-aware path /elsewhere/b.ts is outside project root /repo");
}
