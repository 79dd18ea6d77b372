//! The semantic batch a dead-code run sends to the type-aware companion: one
//! symbol-use query per unused class member, export and type, then the
//! whole-project queries, each query numbered by its position and mapped back
//! to the finding it stands for. Paths cross the protocol project-relative.
use vstd::prelude::*;
use crate::diff_filter::{is_absolute_path, path_absolute, path_strip_prefix, strip_path_prefix};
use crate::semantic_queries::{QueryTarget, SemanticOperation};
use crate::text::{push_str, replace_char, replace_char_str, string_views_of};
use crate::type_aware::TypeAwareError;

verus! {

/// The kind of one path component, as `std::path::Component` tells them apart.
#[derive(Debug, Clone, Copy, PartialEq, Eq, Structural)]
pub enum PathPart {
    Prefix,
    RootDir,
    CurDir,
    ParentDir,
    Normal,
}

/// The kinds of the components `Path::components` yields for `path`.
pub uninterp spec fn path_parts(path: Seq<char>) -> Seq<PathPart>;

/// Calls `std::path::Path::components` and keeps the kind of each component;
/// the result is named, not stated, since the parsing rules are the
/// platform's.
#[verifier::external_body]
fn component_kinds(path: &str) -> (r: Vec<PathPart>)
    ensures
        r@ == path_parts(path@),
{
    std::path::Path::new(path).components().map(
        |c| match c {
            std::path::Component::Prefix(_) => PathPart::Prefix,
            std::path::Component::RootDir => PathPart::RootDir,
            std::path::Component::CurDir => PathPart::CurDir,
            std::path::Component::ParentDir => PathPart::ParentDir,
            std::path::Component::Normal(_) => PathPart::Normal,
        },
    ).collect()
}

/// A component that leaves the project: `..`, the root, or a drive prefix.
pub open spec fn escapes(p: PathPart) -> bool {
    p == PathPart::ParentDir || p == PathPart::RootDir || p == PathPart::Prefix
}

/// Some component of `parts` leaves the project.
pub open spec fn leaves_project(parts: Seq<PathPart>) -> bool {
    exists|i: int| 0 <= i < parts.len() && escapes(#[trigger] parts[i])
}

/// The path the protocol carries for `path`: an absolute path must lie under
/// `root` and loses it; the result must not climb out or restart at a root.
pub open spec fn protocol_path_spec(root: Seq<char>, path: Seq<char>) -> Result<Seq<char>, Seq<char>> {
    let relative = if path_absolute(path) {
        path_strip_prefix(path, root)
    } else {
        Some(path)
    };
    match relative {
        None => Err("type-aware path "@ + path + " is outside project root "@ + root),
        Some(rel) => if leaves_project(path_parts(rel)) {
            Err("type-aware path "@ + path + " is not project-relative"@)
        } else {
            Ok(rel)
        },
    }
}

/// The project-relative form of `path`, or why it has none.
pub fn protocol_path(root: &str, path: &str) -> (r: Result<String, TypeAwareError>)
    ensures
        match protocol_path_spec(root@, path@) {
            Ok(rel) => r matches Ok(s) && s@ == rel,
            Err(e) => r matches Err(err) && err.0@ == e,
        },
{
    let relative = if is_absolute_path(path) {
        match strip_path_prefix(path, root) {
            Some(rest) => rest,
            None => {
                let mut m = String::new();
                push_str(&mut m, "type-aware path ");
                push_str(&mut m, path);
                push_str(&mut m, " is outside project root ");
                push_str(&mut m, root);
                return Err(TypeAwareError(m));
            },
        }
    } else {
        let mut s = String::new();
        push_str(&mut s, path);
        assert(s@ =~= path@);
        s
    };
    let ghost rel: Option<Seq<char>> = if path_absolute(path@) {
        path_strip_prefix(path@, root@)
    } else {
        Some(path@)
    };
    assert(rel == Some(relative@));
    let parts = component_kinds(relative.as_str());
    let mut i: usize = 0;
    while i < parts.len()
        invariant
            i <= parts@.len(),
            forall|j: int| 0 <= j < i ==> !escapes(#[trigger] parts@[j]),
            parts@ == path_parts(relative@),
            rel == Some(relative@),
            rel == (if path_absolute(path@) {
                path_strip_prefix(path@, root@)
            } else {
                Some(path@)
            }),
        decreases parts@.len() - i,
    {
        let p = parts[i];
        let bad = match p {
            PathPart::ParentDir | PathPart::RootDir | PathPart::Prefix => true,
            _ => false,
        };
        if bad {
            assert(escapes(path_parts(relative@)[i as int]));
            assert(leaves_project(path_parts(relative@)));
            let mut m = String::new();
            push_str(&mut m, "type-aware path ");
            push_str(&mut m, path);
            push_str(&mut m, " is not project-relative");
            return Err(TypeAwareError(m));
        }
        i = i + 1;
    }
    Ok(relative)
}

/// The kind of an unused class-like member.
#[derive(Debug, Clone, Copy, PartialEq, Eq, Structural)]
pub enum MemberKind {
    ClassMethod,
    ClassProperty,
    EnumMember,
    NamespaceMember,
    StoreMember,
}

/// How the protocol names a member kind.
pub open spec fn member_kind_label(kind: MemberKind) -> Seq<char> {
    match kind {
        MemberKind::ClassMethod => "class_method"@,
        MemberKind::ClassProperty => "class_property"@,
        MemberKind::EnumMember => "enum_member"@,
        MemberKind::NamespaceMember => "namespace_member"@,
        MemberKind::StoreMember => "store_member"@,
    }
}

pub fn member_kind_name(kind: MemberKind) -> (r: &'static str)
    ensures
        r@ == member_kind_label(kind),
{
    match kind {
        MemberKind::ClassMethod => "class_method",
        MemberKind::ClassProperty => "class_property",
        MemberKind::EnumMember => "enum_member",
        MemberKind::NamespaceMember => "namespace_member",
        MemberKind::StoreMember => "store_member",
    }
}

/// Whether a symbol is looked up among values or among types.
#[derive(Debug, Clone, Copy, PartialEq, Eq, Structural)]
pub enum SemanticNamespace {
    Value,
    Type,
}

/// How the protocol names a namespace.
pub open spec fn namespace_label(ns: SemanticNamespace) -> Seq<char> {
    match ns {
        SemanticNamespace::Value => "value"@,
        SemanticNamespace::Type => "type"@,
    }
}

pub fn namespace_name(ns: SemanticNamespace) -> (r: &'static str)
    ensures
        r@ == namespace_label(ns),
{
    match ns {
        SemanticNamespace::Value => "value",
        SemanticNamespace::Type => "type",
    }
}

/// The symbol a query asks about.
#[derive(Debug)]
pub struct SemanticSymbol {
    /// Project-relative.
    pub path: String,
    pub namespace: SemanticNamespace,
    pub declaration_kind: String,
    pub exported_name: String,
    pub local_name: String,
    pub owner: Option<String>,
    pub line: u32,
    pub col: u32,
}

/// One query of a semantic batch; `id` is its position in the batch.
#[derive(Debug)]
pub enum SemanticQuery {
    SymbolUse { id: usize, symbol: SemanticSymbol },
    SymbolTrace { id: usize, symbol: SemanticSymbol },
    SymbolImpact { id: usize, symbol: SemanticSymbol },
    ApiSurface { id: usize, entry_points: Vec<String>, include_cycles: bool },
    TypeCoupling { id: usize, entry_points: Vec<String>, include_cycles: bool },
}

/// The id of a query.
pub open spec fn query_id(q: SemanticQuery) -> usize {
    match q {
        SemanticQuery::SymbolUse { id, .. } => id,
        SemanticQuery::SymbolTrace { id, .. } => id,
        SemanticQuery::SymbolImpact { id, .. } => id,
        SemanticQuery::ApiSurface { id, .. } => id,
        SemanticQuery::TypeCoupling { id, .. } => id,
    }
}

/// The operation of a query.
pub open spec fn query_operation(q: SemanticQuery) -> SemanticOperation {
    match q {
        SemanticQuery::SymbolUse { .. } => SemanticOperation::SymbolUse,
        SemanticQuery::SymbolTrace { .. } => SemanticOperation::SymbolTrace,
        SemanticQuery::SymbolImpact { .. } => SemanticOperation::SymbolImpact,
        SemanticQuery::ApiSurface { .. } => SemanticOperation::ApiSurface,
        SemanticQuery::TypeCoupling { .. } => SemanticOperation::TypeCoupling,
    }
}

impl SemanticQuery {
    pub fn id(&self) -> (r: usize)
        ensures
            r == query_id(*self),
    {
        match self {
            SemanticQuery::SymbolUse { id, .. } => *id,
            SemanticQuery::SymbolTrace { id, .. } => *id,
            SemanticQuery::SymbolImpact { id, .. } => *id,
            SemanticQuery::ApiSurface { id, .. } => *id,
            SemanticQuery::TypeCoupling { id, .. } => *id,
        }
    }

    pub fn operation(&self) -> (r: SemanticOperation)
        ensures
            r == query_operation(*self),
    {
        match self {
            SemanticQuery::SymbolUse { .. } => SemanticOperation::SymbolUse,
            SemanticQuery::SymbolTrace { .. } => SemanticOperation::SymbolTrace,
            SemanticQuery::SymbolImpact { .. } => SemanticOperation::SymbolImpact,
            SemanticQuery::ApiSurface { .. } => SemanticOperation::ApiSurface,
            SemanticQuery::TypeCoupling { .. } => SemanticOperation::TypeCoupling,
        }
    }
}

/// An unused class-like member the syntactic pass reported.
#[derive(Debug)]
pub struct UnusedMemberFinding {
    pub path: String,
    pub kind: MemberKind,
    pub member_name: String,
    pub parent_name: String,
    pub line: u32,
    pub col: u32,
}

/// An unused export (or exported type) the syntactic pass reported.
#[derive(Debug)]
pub struct UnusedExportFinding {
    pub path: String,
    pub export_name: String,
    pub line: u32,
    pub col: u32,
}

/// `s` asks about member `f`, whose project-relative path is `rel`: a value
/// named by the member, owned by its parent.
pub open spec fn member_symbol(s: SemanticSymbol, rel: Seq<char>, f: UnusedMemberFinding) -> bool {
    &&& s.path@ == rel
    &&& s.namespace == SemanticNamespace::Value
    &&& s.declaration_kind@ == member_kind_label(f.kind)
    &&& s.exported_name@ == f.member_name@
    &&& s.local_name@ == f.member_name@
    &&& s.owner matches Some(o) && o@ == f.parent_name@
    &&& s.line == f.line
    &&& s.col == f.col
}

/// `s` asks about export `f` in namespace `ns`, whose project-relative path is
/// `rel`: an `export` named by the export, with no owner.
pub open spec fn export_symbol_of(
    s: SemanticSymbol,
    rel: Seq<char>,
    f: UnusedExportFinding,
    ns: SemanticNamespace,
) -> bool {
    &&& s.path@ == rel
    &&& s.namespace == ns
    &&& s.declaration_kind@ == "export"@
    &&& s.exported_name@ == f.export_name@
    &&& s.local_name@ == f.export_name@
    &&& s.owner is None
    &&& s.line == f.line
    &&& s.col == f.col
}

fn copy_string(s: &String) -> (r: String)
    ensures
        r@ == s@,
{
    let mut r = String::new();
    push_str(&mut r, s.as_str());
    assert(r@ =~= s@);
    r
}

/// The symbol-use subject for an unused member.
pub fn member_symbol_for(root: &str, f: &UnusedMemberFinding) -> (r: Result<SemanticSymbol, TypeAwareError>)
    ensures
        match protocol_path_spec(root@, f.path@) {
            Ok(rel) => r matches Ok(s) && member_symbol(s, rel, *f),
            Err(e) => r matches Err(err) && err.0@ == e,
        },
{
    let path = match protocol_path(root, f.path.as_str()) {
        Ok(p) => p,
        Err(e) => return Err(e),
    };
    let mut kind = String::new();
    push_str(&mut kind, member_kind_name(f.kind));
    Ok(SemanticSymbol {
        path,
        namespace: SemanticNamespace::Value,
        declaration_kind: kind,
        exported_name: copy_string(&f.member_name),
        local_name: copy_string(&f.member_name),
        owner: Some(copy_string(&f.parent_name)),
        line: f.line,
        col: f.col,
    })
}

/// The symbol-use subject for an unused export or type.
pub fn export_symbol(root: &str, f: &UnusedExportFinding, ns: SemanticNamespace) -> (r: Result<
    SemanticSymbol,
    TypeAwareError,
>)
    ensures
        match protocol_path_spec(root@, f.path@) {
            Ok(rel) => r matches Ok(s) && export_symbol_of(s, rel, *f, ns),
            Err(e) => r matches Err(err) && err.0@ == e,
        },
{
    let path = match protocol_path(root, f.path.as_str()) {
        Ok(p) => p,
        Err(e) => return Err(e),
    };
    let mut kind = String::new();
    push_str(&mut kind, "export");
    Ok(SemanticSymbol {
        path,
        namespace: ns,
        declaration_kind: kind,
        exported_name: copy_string(&f.export_name),
        local_name: copy_string(&f.export_name),
        owner: None,
        line: f.line,
        col: f.col,
    })
}

/// The project-relative form of `path`, when it has one.
pub open spec fn relative_of(root: Seq<char>, path: Seq<char>) -> Seq<char> {
    match protocol_path_spec(root, path) {
        Ok(rel) => rel,
        Err(_) => Seq::empty(),
    }
}

/// Every path has a project-relative form.
pub open spec fn all_project_relative(root: Seq<char>, paths: Seq<Seq<char>>) -> bool {
    forall|j: int| 0 <= j < paths.len() ==> (#[trigger] protocol_path_spec(root, paths[j])) is Ok
}

/// `e` is the refusal of the first path that has no project-relative form.
pub open spec fn first_refusal(root: Seq<char>, paths: Seq<Seq<char>>, e: Seq<char>) -> bool {
    exists|k: int|
        0 <= k < paths.len() && all_project_relative(root, paths.take(k)) && #[trigger] protocol_path_spec(
            root,
            paths[k],
        ) == Err::<Seq<char>, Seq<char>>(e)
}

/// An entry point as the protocol carries it: project-relative, with `/`
/// separators.
pub open spec fn entry_point_text(root: Seq<char>, path: Seq<char>) -> Seq<char> {
    replace_char(relative_of(root, path), '\\', "/"@)
}

/// The entry points as the protocol carries them.
pub open spec fn entry_point_texts(root: Seq<char>, paths: Seq<Seq<char>>) -> Seq<Seq<char>> {
    paths.map_values(|p: Seq<char>| entry_point_text(root, p))
}

proof fn lemma_refusal_at(root: Seq<char>, paths: Seq<Seq<char>>, k: int, e: Seq<char>)
    requires
        0 <= k < paths.len(),
        all_project_relative(root, paths.take(k)),
        protocol_path_spec(root, paths[k]) == Err::<Seq<char>, Seq<char>>(e),
    ensures
        first_refusal(root, paths, e),
        !all_project_relative(root, paths),
{
    assert(paths.take(k) == paths.take(k));
}

/// The entry points as the protocol carries them, or the refusal of the first
/// that lies outside the project.
pub fn protocol_entry_points(root: &str, entries: &Vec<String>) -> (r: Result<Vec<String>, TypeAwareError>)
    ensures
        r is Ok <==> all_project_relative(root@, string_views_of(entries@)),
        r matches Ok(v) ==> string_views_of(v@) == entry_point_texts(root@, string_views_of(entries@)),
        r matches Err(e) ==> first_refusal(root@, string_views_of(entries@), e.0@),
{
    let ghost paths = string_views_of(entries@);
    let mut out: Vec<String> = Vec::new();
    let mut i: usize = 0;
    while i < entries.len()
        invariant
            i <= entries@.len(),
            paths == string_views_of(entries@),
            all_project_relative(root@, paths.take(i as int)),
            string_views_of(out@) == entry_point_texts(root@, paths.take(i as int)),
        decreases entries@.len() - i,
    {
        assert(paths[i as int] == entries@[i as int]@);
        match protocol_path(root, entries[i].as_str()) {
            Ok(rel) => {
                let text = replace_char_str(rel.as_str(), '\\', "/");
                let ghost t = text@;
                let ghost prev = string_views_of(out@);
                out.push(text);
                proof {
                    assert(t == entry_point_text(root@, paths[i as int]));
                    assert(string_views_of(out@) =~= prev.push(t));
                    assert(paths.take(i as int + 1) =~= paths.take(i as int).push(paths[i as int]));
                    assert(string_views_of(out@) =~= entry_point_texts(root@, paths.take(i as int + 1)));
                }
            },
            Err(e) => {
                proof {
                    lemma_refusal_at(root@, paths, i as int, e.0@);
                }
                return Err(e);
            },
        }
        i = i + 1;
    }
    assert(paths.take(entries@.len() as int) =~= paths);
    Ok(out)
}

/// The paths of a list of member findings, in order.
pub open spec fn member_paths(ms: Seq<UnusedMemberFinding>) -> Seq<Seq<char>> {
    ms.map_values(|f: UnusedMemberFinding| f.path@)
}

/// The paths of a list of export findings, in order.
pub open spec fn export_paths(es: Seq<UnusedExportFinding>) -> Seq<Seq<char>> {
    es.map_values(|f: UnusedExportFinding| f.path@)
}

/// The API-surface query is asked when private type leaks are wanted and
/// there are entry points to start from.
pub open spec fn asks_api_surface(include_private_type_leaks: bool, entries: Seq<Seq<char>>) -> bool {
    include_private_type_leaks && entries.len() > 0
}

/// Every path the batch carries, in the order it is made project-relative.
pub open spec fn batch_paths(
    ms: Seq<UnusedMemberFinding>,
    es: Seq<UnusedExportFinding>,
    ts: Seq<UnusedExportFinding>,
    entries: Seq<Seq<char>>,
    include_private_type_leaks: bool,
    include_type_coupling: bool,
) -> Seq<Seq<char>> {
    member_paths(ms) + export_paths(es) + export_paths(ts) + (if asks_api_surface(
        include_private_type_leaks,
        entries,
    ) || include_type_coupling {
        entries
    } else {
        Seq::empty()
    })
}

/// Query `i` asks whether member `f` is used, and stands for it.
pub open spec fn member_query(
    root: Seq<char>,
    q: SemanticQuery,
    target: QueryTarget,
    i: int,
    f: UnusedMemberFinding,
) -> bool {
    &&& q matches SemanticQuery::SymbolUse { id, symbol } && id == i && member_symbol(
        symbol,
        relative_of(root, f.path@),
        f,
    )
    &&& target == QueryTarget::ClassMember(i as usize)
}

/// Query `i` asks whether export `f` is used in namespace `ns`.
pub open spec fn export_query(
    root: Seq<char>,
    q: SemanticQuery,
    i: int,
    f: UnusedExportFinding,
    ns: SemanticNamespace,
) -> bool {
    q matches SemanticQuery::SymbolUse { id, symbol } && id == i && export_symbol_of(
        symbol,
        relative_of(root, f.path@),
        f,
        ns,
    )
}

/// The batch: one symbol-use query per member, export and type, in that order,
/// then the API-surface query (without cycles) when asked, then the coupling
/// query (with cycles) when asked; every query numbered by its position, and
/// `targets[i]` the finding or project query that query `i` stands for.
pub open spec fn dead_code_batch(
    root: Seq<char>,
    ms: Seq<UnusedMemberFinding>,
    es: Seq<UnusedExportFinding>,
    ts: Seq<UnusedExportFinding>,
    entries: Seq<Seq<char>>,
    include_private_type_leaks: bool,
    include_type_coupling: bool,
    qs: Seq<SemanticQuery>,
    targets: Seq<QueryTarget>,
) -> bool {
    let m = ms.len() as int;
    let e = es.len() as int;
    let t = ts.len() as int;
    let api = asks_api_surface(include_private_type_leaks, entries);
    let n = m + e + t + (if api { 1int } else { 0 }) + (if include_type_coupling { 1int } else { 0 });
    &&& qs.len() == n
    &&& targets.len() == n
    &&& forall|i: int| 0 <= i < m ==> member_query(root, #[trigger] qs[i], targets[i], i, ms[i])
    &&& forall|i: int|
        0 <= i < e ==> export_query(root, #[trigger] qs[m + i], m + i, es[i], SemanticNamespace::Value)
            && targets[m + i] == QueryTarget::UnusedExport(i as usize)
    &&& forall|i: int|
        0 <= i < t ==> export_query(root, #[trigger] qs[m + e + i], m + e + i, ts[i], SemanticNamespace::Type)
            && targets[m + e + i] == QueryTarget::UnusedType(i as usize)
    &&& api ==> (qs[m + e + t] matches SemanticQuery::ApiSurface { id, entry_points, include_cycles }
        && id == m + e + t && !include_cycles && string_views_of(entry_points@) == entry_point_texts(
        root,
        entries,
    ) && targets[m + e + t] == QueryTarget::ApiSurface)
    &&& include_type_coupling ==> (qs[n - 1] matches SemanticQuery::TypeCoupling {
        id,
        entry_points,
        include_cycles,
    } && id == n - 1 && include_cycles && string_views_of(entry_points@) == entry_point_texts(
        root,
        entries,
    ) && targets[n - 1] == QueryTarget::TypeCoupling)
}

proof fn lemma_extend_relative(root: Seq<char>, paths: Seq<Seq<char>>, k: int)
    requires
        0 <= k < paths.len(),
        all_project_relative(root, paths.take(k)),
        protocol_path_spec(root, paths[k]) is Ok,
    ensures
        all_project_relative(root, paths.take(k + 1)),
{
    assert forall|j: int| 0 <= j < k + 1 implies (#[trigger] protocol_path_spec(
        root,
        paths.take(k + 1)[j],
    )) is Ok by {
        if j < k {
            assert(paths.take(k + 1)[j] == paths.take(k)[j]);
        }
    }
}

proof fn lemma_relative_concat(root: Seq<char>, a: Seq<Seq<char>>, b: Seq<Seq<char>>)
    requires
        all_project_relative(root, a),
    ensures
        all_project_relative(root, b) ==> all_project_relative(root, a + b),
        forall|e: Seq<char>| first_refusal(root, b, e) ==> first_refusal(root, a + b, e),
{
    if all_project_relative(root, b) {
        assert forall|j: int| 0 <= j < (a + b).len() implies (#[trigger] protocol_path_spec(
            root,
            (a + b)[j],
        )) is Ok by {
            if j >= a.len() {
                assert((a + b)[j] == b[j - a.len()]);
            }
        }
    }
    assert forall|e: Seq<char>| first_refusal(root, b, e) implies first_refusal(root, a + b, e) by {
        let k = choose|k: int|
            0 <= k < b.len() && all_project_relative(root, b.take(k)) && #[trigger] protocol_path_spec(
                root,
                b[k],
            ) == Err::<Seq<char>, Seq<char>>(e);
        let ab = a + b;
        let w = a.len() + k;
        assert(ab[w] == b[k]);
        assert forall|j: int| 0 <= j < ab.take(w).len() implies (#[trigger] protocol_path_spec(
            root,
            ab.take(w)[j],
        )) is Ok by {
            if j < a.len() {
                assert(ab.take(w)[j] == a[j]);
            } else {
                assert(ab.take(w)[j] == b.take(k)[j - a.len()]);
            }
        }
        lemma_refusal_at(root, ab, w, e);
    }
}

/// The semantic batch for a dead-code run and the finding each query stands
/// for, or the refusal of the first path that lies outside the project.
pub fn build_dead_code_queries(
    root: &str,
    class_members: &Vec<UnusedMemberFinding>,
    exports: &Vec<UnusedExportFinding>,
    types: &Vec<UnusedExportFinding>,
    entry_points: &Vec<String>,
    include_private_type_leaks: bool,
    include_type_coupling: bool,
) -> (r: Result<(Vec<SemanticQuery>, Vec<QueryTarget>), TypeAwareError>)
    ensures
        r is Ok <==> all_project_relative(
            root@,
            batch_paths(
                class_members@,
                exports@,
                types@,
                string_views_of(entry_points@),
                include_private_type_leaks,
                include_type_coupling,
            ),
        ),
        r matches Err(e) ==> first_refusal(
            root@,
            batch_paths(
                class_members@,
                exports@,
                types@,
                string_views_of(entry_points@),
                include_private_type_leaks,
                include_type_coupling,
            ),
            e.0@,
        ),
        r matches Ok((qs, targets)) ==> dead_code_batch(
            root@,
            class_members@,
            exports@,
            types@,
            string_views_of(entry_points@),
            include_private_type_leaks,
            include_type_coupling,
            qs@,
            targets@,
        ),
{
    let ghost entries = string_views_of(entry_points@);
    let ghost mp = member_paths(class_members@);
    let ghost ep = export_paths(exports@);
    let ghost tp = export_paths(types@);
    let ghost paths = batch_paths(
        class_members@,
        exports@,
        types@,
        entries,
        include_private_type_leaks,
        include_type_coupling,
    );
    let ghost m = class_members@.len() as int;
    let ghost e = exports@.len() as int;
    let ghost t = types@.len() as int;
    assert(paths.len() >= m + e + t);
    let mut queries: Vec<SemanticQuery> = Vec::new();
    let mut targets: Vec<QueryTarget> = Vec::new();
    let mut i: usize = 0;
    while i < class_members.len()
        invariant
            i <= m,
            m == class_members@.len(),
            entries == string_views_of(entry_points@),
            paths == batch_paths(
                class_members@,
                exports@,
                types@,
                entries,
                include_private_type_leaks,
                include_type_coupling,
            ),
            mp == member_paths(class_members@),
            paths.len() >= m + e + t,
            queries@.len() == i,
            targets@.len() == i,
            forall|j: int| 0 <= j < i ==> member_query(root@, #[trigger] queries@[j], targets@[j], j, class_members@[j]),
            all_project_relative(root@, paths.take(i as int)),
        decreases m - i,
    {
        assert(paths[i as int] == class_members@[i as int].path@);
        let id = queries.len();
        match member_symbol_for(root, &class_members[i]) {
            Ok(symbol) => {
                queries.push(SemanticQuery::SymbolUse { id, symbol });
                targets.push(QueryTarget::ClassMember(i));
                proof {
                    lemma_extend_relative(root@, paths, i as int);
                }
            },
            Err(err) => {
                proof {
                    lemma_refusal_at(root@, paths, i as int, err.0@);
                }
                return Err(err);
            },
        }
        i = i + 1;
    }
    let mut i: usize = 0;
    while i < exports.len()
        invariant
            i <= e,
            m == class_members@.len(),
            e == exports@.len(),
            entries == string_views_of(entry_points@),
            paths == batch_paths(
                class_members@,
                exports@,
                types@,
                entries,
                include_private_type_leaks,
                include_type_coupling,
            ),
            paths.len() >= m + e + t,
            queries@.len() == m + i,
            targets@.len() == m + i,
            forall|j: int| 0 <= j < m ==> member_query(root@, #[trigger] queries@[j], targets@[j], j, class_members@[j]),
            forall|j: int|
                0 <= j < i ==> export_query(root@, #[trigger] queries@[m + j], m + j, exports@[j], SemanticNamespace::Value)
                    && targets@[m + j] == QueryTarget::UnusedExport(j as usize),
            all_project_relative(root@, paths.take(m + i)),
        decreases e - i,
    {
        assert(paths[m + i] == exports@[i as int].path@);
        let id = queries.len();
        match export_symbol(root, &exports[i], SemanticNamespace::Value) {
            Ok(symbol) => {
                queries.push(SemanticQuery::SymbolUse { id, symbol });
                targets.push(QueryTarget::UnusedExport(i));
                proof {
                    lemma_extend_relative(root@, paths, m + i);
                }
            },
            Err(err) => {
                proof {
                    lemma_refusal_at(root@, paths, m + i, err.0@);
                }
                return Err(err);
            },
        }
        i = i + 1;
    }
    let mut i: usize = 0;
    while i < types.len()
        invariant
            i <= t,
            m == class_members@.len(),
            e == exports@.len(),
            t == types@.len(),
            entries == string_views_of(entry_points@),
            paths == batch_paths(
                class_members@,
                exports@,
                types@,
                entries,
                include_private_type_leaks,
                include_type_coupling,
            ),
            paths.len() >= m + e + t,
            queries@.len() == m + e + i,
            targets@.len() == m + e + i,
            forall|j: int| 0 <= j < m ==> member_query(root@, #[trigger] queries@[j], targets@[j], j, class_members@[j]),
            forall|j: int|
                0 <= j < e ==> export_query(root@, #[trigger] queries@[m + j], m + j, exports@[j], SemanticNamespace::Value)
                    && targets@[m + j] == QueryTarget::UnusedExport(j as usize),
            forall|j: int|
                0 <= j < i ==> export_query(root@, #[trigger] queries@[m + e + j], m + e + j, types@[j], SemanticNamespace::Type)
                    && targets@[m + e + j] == QueryTarget::UnusedType(j as usize),
            all_project_relative(root@, paths.take(m + e + i)),
        decreases t - i,
    {
        assert(paths[m + e + i] == types@[i as int].path@);
        let id = queries.len();
        match export_symbol(root, &types[i], SemanticNamespace::Type) {
            Ok(symbol) => {
                queries.push(SemanticQuery::SymbolUse { id, symbol });
                targets.push(QueryTarget::UnusedType(i));
                proof {
                    lemma_extend_relative(root@, paths, m + e + i);
                }
            },
            Err(err) => {
                proof {
                    lemma_refusal_at(root@, paths, m + e + i, err.0@);
                }
                return Err(err);
            },
        }
        i = i + 1;
    }
    assert(forall|i: int|
        0 <= i < t ==> export_query(root@, #[trigger] queries@[m + e + i], m + e + i, types@[i], SemanticNamespace::Type)
            && targets@[m + e + i] == QueryTarget::UnusedType(i as usize));
    let ghost q0 = queries@;
    let ghost t0 = targets@;
    let ghost prefix = mp + ep + tp;
    proof {
        assert(paths.take(m + e + t) =~= prefix);
        if !(asks_api_surface(include_private_type_leaks, entries) || include_type_coupling) {
            assert(paths =~= prefix);
        } else {
            assert(paths =~= prefix + entries);
        }
    }
    let api = include_private_type_leaks && entry_points.len() > 0;
    if api {
        let id = queries.len();
        match protocol_entry_points(root, entry_points) {
            Ok(points) => {
                let ghost pv = string_views_of(points@);
                queries.push(SemanticQuery::ApiSurface { id, entry_points: points, include_cycles: false });
                targets.push(QueryTarget::ApiSurface);
                assert(queries@[m + e + t] matches SemanticQuery::ApiSurface { id, entry_points, include_cycles }
                    && id == m + e + t && !include_cycles && string_views_of(entry_points@) == pv);
            },
            Err(err) => {
                proof {
                    lemma_relative_concat(root@, prefix, entries);
                }
                return Err(err);
            },
        }
    }
    if include_type_coupling {
        let id = queries.len();
        match protocol_entry_points(root, entry_points) {
            Ok(points) => {
                let ghost pv = string_views_of(points@);
                queries.push(SemanticQuery::TypeCoupling { id, entry_points: points, include_cycles: true });
                targets.push(QueryTarget::TypeCoupling);
                assert(queries@[queries@.len() - 1] matches SemanticQuery::TypeCoupling { id, entry_points, include_cycles }
                    && id == queries@.len() - 1 && include_cycles && string_views_of(entry_points@) == pv);
            },
            Err(err) => {
                proof {
                    lemma_relative_concat(root@, prefix, entries);
                }
                return Err(err);
            },
        }
    }
    proof {
        if api || include_type_coupling {
            lemma_relative_concat(root@, prefix, entries);
        }
        let n = m + e + t + (if api { 1int } else { 0 }) + (if include_type_coupling { 1int } else { 0 });
        assert(queries@.len() == n);
        assert(targets@.len() == n);
        assert(forall|k: int| 0 <= k < m + e + t ==> #[trigger] queries@[k] == q0[k] && targets@[k] == t0[k]);
        assert forall|i: int| 0 <= i < m implies member_query(root@, #[trigger] queries@[i], targets@[i], i, class_members@[i]) by {
            assert(queries@[i] == q0[i]);
        }
        assert forall|i: int|
            0 <= i < e implies export_query(root@, #[trigger] queries@[m + i], m + i, exports@[i], SemanticNamespace::Value)
                && targets@[m + i] == QueryTarget::UnusedExport(i as usize) by {
            assert(queries@[m + i] == q0[m + i]);
        }
        assert forall|i: int|
            0 <= i < t implies export_query(root@, #[trigger] queries@[m + e + i], m + e + i, types@[i], SemanticNamespace::Type)
                && targets@[m + e + i] == QueryTarget::UnusedType(i as usize) by {
            assert(queries@[m + e + i] == q0[m + e + i]);
        }
        assert(api == asks_api_surface(include_private_type_leaks, entries));
        assert(api ==> (queries@[m + e + t] matches SemanticQuery::ApiSurface { id, entry_points, include_cycles }
            && id == m + e + t && !include_cycles && string_views_of(entry_points@) == entry_point_texts(
            root@,
            entries,
        ) && targets@[m + e + t] == QueryTarget::ApiSurface));
        assert(include_type_coupling ==> (queries@[n - 1] matches SemanticQuery::TypeCoupling {
            id,
            entry_points,
            include_cycles,
        } && id == n - 1 && include_cycles && string_views_of(entry_points@) == entry_point_texts(
            root@,
            entries,
        ) && targets@[n - 1] == QueryTarget::TypeCoupling));
        assert(dead_code_batch(
            root@,
            class_members@,
            exports@,
            types@,
            entries,
            include_private_type_leaks,
            include_type_coupling,
            queries@,
            targets@,
        ));
    }
    Ok((queries, targets))
}

} // verus!
