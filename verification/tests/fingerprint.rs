use fallow_cli::fingerprint::{
    finding_fingerprint, fingerprint_hash, linecomp_fingerprint, normalize_snippet,
    summary_fingerprint,
};

#[test]
fn fingerprint_is_stable_for_whitespace_only_snippet_changes() {
    let a = finding_fingerprint("fallow/unused-export", "src/a.ts", "  export const x = 1;  ");
    let b = finding_fingerprint("fallow/unused-export", "src/a.ts", "\nexport const x = 1;\n");
    assert_eq!(a, b);
}

#[test]
fn fingerprint_parts_are_separated() {
    assert_ne!(fingerprint_hash(&["ab", "c"]), fingerprint_hash(&["a", "bc"]));
}

#[test]
fn linecomp_fingerprint_is_stable_per_path_line_pair() {
    let a = linecomp_fingerprint("src/foo.ts", 42);
    let b = linecomp_fingerprint("src/foo.ts", 42);
    let c = linecomp_fingerprint("src/foo.ts", 43);
    let d = linecomp_fingerprint("src/bar.ts", 42);
    assert_eq!(a, b);
    assert_ne!(a, c);
    assert_ne!(a, d);
    assert!(a.starts_with("linecomp:"));
    assert_eq!(a.len(), 25);
}

#[test]
fn summary_fingerprint_shifts_when_body_changes() {
    let a = summary_fingerprint("### Fallow check\n\n0 findings");
    let b = summary_fingerprint("### Fallow check\n\n1 finding");
    assert_ne!(a, b);
    assert_eq!(a, summary_fingerprint("### Fallow check\n\n0 findings"));
    assert_eq!(a.len(), 16);
}

#[test]
fn fingerprint_hash_of_no_parts_is_the_offset_basis() {
    assert_eq!(fingerprint_hash(&[]), "cbf29ce484222325");
}

#[test]
fn fingerprint_hash_matches_fnv1a_with_separator() {
    // FNV-1a over the bytes "a" then the separator 0xff.
    let mut h: u64 = 0xcbf2_9ce4_8422_2325;
    for b in [b'a', 0xff] {
        h ^= u64::from(b);
        h = h.wrapping_mul(0x0100_0000_01b3);
    }
    assert_eq!(fingerprint_hash(&["a"]), format!("{h:016x}"));
}

#[test]
fn normalize_snippet_trims_lines_and_drops_blank_ones() {
    assert_eq!(normalize_snippet("  a  \n\n\t b\n  \n"), "a\nb");
    assert_eq!(normalize_snippet(""), "");
    assert_eq!(normalize_snippet(" \n \n"), "");
}

#[test]
fn finding_fingerprint_depends_on_rule_path_and_snippet() {
    let base = finding_fingerprint("r", "p", "x");
    assert_ne!(base, finding_fingerprint("r2", "p", "x"));
    assert_ne!(base, finding_fingerprint("r", "p2", "x"));
    assert_ne!(base, finding_fingerprint("r", "p", "y"));
    assert_eq!(base, fingerprint_hash(&["r", "p", "x"]));
}
