use fallow_cli::pr_comment::{pr_comment_layout_from_env, PrCommentLayout};
use fallow_cli::review::{
    comment_body, github_check_conclusion, gitlab_diff_refs, max_comments, review_body,
    review_label_from_codeclimate, review_line, GitlabDiffRefs, ReviewCheckConclusion,
};
use fallow_cli::review::{render_comment, render_review_envelope, ReviewComment, ReviewIssue};

#[test]
fn labels_and_conclusions_follow_codeclimate_severity() {
    assert_eq!(review_label_from_codeclimate("critical"), "error");
    assert_eq!(review_label_from_codeclimate("minor"), "warn");
    assert_eq!(github_check_conclusion(&vec![]), ReviewCheckConclusion::Success);
    assert_eq!(github_check_conclusion(&vec!["minor".to_string()]), ReviewCheckConclusion::Neutral);
    assert_eq!(
        github_check_conclusion(&vec!["minor".to_string(), "blocker".to_string()]),
        ReviewCheckConclusion::Failure
    );
}

#[test]
fn gitlab_refs_need_a_base_and_a_head() {
    assert_eq!(gitlab_diff_refs(None, Some("b"), None, None, Some("h")), Some(GitlabDiffRefs {
        base_sha: "b".to_string(),
        start_sha: "b".to_string(),
        head_sha: "h".to_string(),
    }));
    assert_eq!(gitlab_diff_refs(Some("fb"), Some("b"), Some("s"), Some(" "), Some("h")), Some(GitlabDiffRefs {
        base_sha: "fb".to_string(),
        start_sha: "s".to_string(),
        head_sha: "h".to_string(),
    }));
    assert_eq!(gitlab_diff_refs(Some(" "), None, None, Some("h"), None), None);
    assert_eq!(gitlab_diff_refs(Some("b"), None, None, None, None), None);
}

#[test]
fn max_comments_parses_like_usize() {
    assert_eq!(max_comments(None), 50);
    assert_eq!(max_comments(Some("7")), 7);
    assert_eq!(max_comments(Some("+7")), 7);
    assert_eq!(max_comments(Some(" 7")), 50);
    assert_eq!(max_comments(Some("-1")), 50);
    assert_eq!(max_comments(Some("99999999999999999999999")), 50);
    assert_eq!(max_comments(Some("")), 50);
}

#[test]
fn envelope_text() {
    assert_eq!(
        review_body("check", 3, 50, "GitHub"),
        "### Fallow check\n\n3 inline findings selected for GitHub review.\n\n<!-- fallow-review -->"
    );
    assert_eq!(
        review_body("check", 3, 1, "GitLab"),
        "### Fallow check\n\n1 inline finding selected for GitLab review.\n\n<!-- fallow-review -->"
    );
    assert_eq!(
        comment_body("warn", "fallow/unused-file", "File is unused", "abc"),
        "**warn** `fallow/unused-file`: File is unused\n\n<!-- fallow-fingerprint: abc -->"
    );
    assert_eq!(review_line(7), 7);
    assert_eq!(review_line(u64::MAX), u32::MAX);
}

#[test]
fn pr_comment_layout_reads_the_variable() {
    assert_eq!(pr_comment_layout_from_env(Some("compact")), PrCommentLayout::Compact);
    assert_eq!(pr_comment_layout_from_env(Some("gate-only")), PrCommentLayout::GateOnly);
    assert_eq!(pr_comment_layout_from_env(Some("details")), PrCommentLayout::Details);
    assert_eq!(pr_comment_layout_from_env(Some("other")), PrCommentLayout::Default);
    assert_eq!(pr_comment_layout_from_env(None), PrCommentLayout::Default);
}

fn review_issue(severity: &str) -> ReviewIssue {
    ReviewIssue {
        severity: severity.to_string(),
        rule_id: "fallow/unused-file".to_string(),
        description: "File is unused".to_string(),
        fingerprint: "abc".to_string(),
        path: "src/a.ts".to_string(),
        line: 1,
        suggestion: None,
    }
}

#[test]
fn github_review_envelope_matches_api_shape() {
    let envelope = render_review_envelope("check", true, "GitHub", &vec![review_issue("minor")], 50, None);
    assert!(envelope.comment_event);
    match &envelope.comments[0] {
        ReviewComment::GitHub { path, body, .. } => {
            assert_eq!(path, "src/a.ts");
            assert!(body.contains("fallow-fingerprint"));
        }
        _ => panic!("a GitHub envelope holds GitHub comments"),
    }
    assert_eq!(envelope.check_conclusion, Some(ReviewCheckConclusion::Neutral));
}

#[test]
fn github_comments_target_current_state_side() {
    let comment = render_comment(true, &review_issue("minor"), None);
    assert!(matches!(comment, ReviewComment::GitHub { line: 1, .. }));
}

#[test]
fn labels_major_issues_as_errors() {
    match render_comment(true, &review_issue("major"), None) {
        ReviewComment::GitHub { body, .. } => assert!(body.starts_with("**error**"), "{body}"),
        _ => panic!("a GitHub comment"),
    }
}

#[test]
fn gitlab_comment_accepts_diff_refs() {
    let refs = GitlabDiffRefs {
        base_sha: "base".to_string(),
        start_sha: "start".to_string(),
        head_sha: "head".to_string(),
    };
    match render_comment(false, &review_issue("minor"), Some(&refs)) {
        ReviewComment::GitLab { base_sha, start_sha, head_sha, new_path, new_line, .. } => {
            assert_eq!(base_sha.as_deref(), Some("base"));
            assert_eq!(start_sha.as_deref(), Some("start"));
            assert_eq!(head_sha.as_deref(), Some("head"));
            assert_eq!(new_path, "src/a.ts");
            assert_eq!(new_line, 1);
        }
        _ => panic!("a GitLab comment"),
    }
}

#[test]
fn the_envelope_keeps_the_first_max_issues_and_gitlab_gets_no_conclusion() {
    let mut with_suggestion = review_issue("critical");
    with_suggestion.suggestion = Some("\n```suggestion\n```".to_string());
    let issues = vec![with_suggestion, review_issue("minor"), review_issue("minor")];
    let envelope = render_review_envelope("audit", false, "GitLab", &issues, 2, None);
    assert!(!envelope.comment_event);
    assert_eq!(envelope.comments.len(), 2);
    assert_eq!(envelope.check_conclusion, None);
    assert!(envelope.body.contains("2 inline findings selected for GitLab review."), "{}", envelope.body);
    match &envelope.comments[0] {
        ReviewComment::GitLab { body, base_sha, .. } => {
            assert!(body.ends_with("```suggestion\n```"), "{body}");
            assert!(base_sha.is_none());
        }
        _ => panic!("a GitLab comment"),
    }
    let github = render_review_envelope("audit", true, "GitHub", &issues, 2, None);
    assert_eq!(github.check_conclusion, Some(ReviewCheckConclusion::Failure));
}
