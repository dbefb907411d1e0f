use std::collections::HashMap;
use suisei_core::git::{
    flame_color_for, format_blame_gutter, gutter_from_diffs, hunk_action_done, parse_blame_porcelain, parse_diff_hunks,
    parse_diff_hunks_full, plan_hunk_action, signs_from_hunks, BlameLine, GitGutter, GitSign, HunkAction,
};

#[test]
fn shrinking_a_hunk_reports_a_deletion() {
    let hunks = parse_diff_hunks_full("@@ -7,3 +7,1 @@\n-a\n-b\n-c\n+a\n");
    assert_eq!(hunks.len(), 1);
    assert_eq!((hunks[0].start, hunks[0].len), (6, 1));
    assert_eq!(hunks[0].removed.len(), 3);
    let mut signs = HashMap::new();
    signs_from_hunks(&hunks, &mut signs);
    assert_eq!(signs.get(&6), Some(&GitSign::Deleted), "the surviving row carries the loss");
}

#[test]
fn a_growing_hunk_is_not_a_deletion() {
    let hunks = parse_diff_hunks_full("@@ -7,1 +7,3 @@\n-a\n+a\n+b\n+c\n");
    let mut signs = HashMap::new();
    signs_from_hunks(&hunks, &mut signs);
    assert_eq!(signs.get(&6), Some(&GitSign::Modified));
    assert_eq!(signs.get(&7), Some(&GitSign::Added));
    assert_eq!(signs.get(&8), Some(&GitSign::Added));
    assert!(!signs.values().any(|s| *s == GitSign::Deleted));
}

#[test]
fn hunks_carry_what_they_replaced() {
    let diff = "@@ -10,2 +10,1 @@\n-old one\n-old two\n+new\n";
    let hunks = parse_diff_hunks_full(diff);
    assert_eq!(hunks.len(), 1);
    assert_eq!(hunks[0].start, 9, "0-based");
    assert_eq!(hunks[0].len, 1);
    assert_eq!(hunks[0].kind, GitSign::Modified);
    assert_eq!(hunks[0].removed, vec!["old one", "old two"]);
}

#[test]
fn a_pure_addition_replaced_nothing() {
    let hunks = parse_diff_hunks_full("@@ -5,0 +6,3 @@\n+a\n+b\n+c\n");
    assert_eq!(hunks.len(), 1);
    assert_eq!(hunks[0].kind, GitSign::Added);
    assert_eq!(hunks[0].len, 3);
    assert!(hunks[0].removed.is_empty());
}

#[test]
fn a_hunk_spans_its_whole_run() {
    let hunks = parse_diff_hunks_full("@@ -1,3 +1,3 @@\n-a\n-b\n-c\n+x\n+y\n+z\n");
    assert_eq!(hunks.len(), 1);
    assert_eq!((hunks[0].start, hunks[0].len), (0, 3));
    assert_eq!(hunks[0].end(), 2);
    assert!(hunks[0].contains(0) && hunks[0].contains(2));
    assert!(!hunks[0].contains(3));
}

#[test]
fn several_hunks_keep_their_own_removed_text() {
    let diff = "@@ -1,1 +1,1 @@\n-first\n+FIRST\n@@ -9,1 +9,1 @@\n-ninth\n+NINTH\n";
    let hunks = parse_diff_hunks_full(diff);
    assert_eq!(hunks.len(), 2);
    assert_eq!(hunks[0].removed, vec!["first"]);
    assert_eq!(hunks[1].removed, vec!["ninth"]);
    assert_eq!(hunks[1].start, 8);
}

#[test]
fn the_diff_header_is_not_a_removed_line() {
    let diff = "--- a/x.rs\n+++ b/x.rs\n@@ -1,1 +1,1 @@\n-real\n+new\n";
    let hunks = parse_diff_hunks_full(diff);
    assert_eq!(hunks.len(), 1);
    assert_eq!(hunks[0].removed, vec!["real"]);
}

#[test]
fn parse_added_lines() {
    let mut m = HashMap::new();
    parse_diff_hunks("@@ -5,0 +6,2 @@\n+a\n+b\n", &mut m);
    assert_eq!(m.get(&5), Some(&GitSign::Added));
    assert_eq!(m.get(&6), Some(&GitSign::Added));
}

#[test]
fn parse_modified_line() {
    let mut m = HashMap::new();
    parse_diff_hunks("@@ -10,1 +10,1 @@\n-old\n+new\n", &mut m);
    assert_eq!(m.get(&9), Some(&GitSign::Modified));
}

#[test]
fn parse_deleted() {
    let mut m = HashMap::new();
    parse_diff_hunks("@@ -3,2 +3,0 @@\n-a\n-b\n", &mut m);
    assert!(m.values().any(|s| *s == GitSign::Deleted));
}

#[test]
fn a_hunk_keeps_its_patch_text_and_deletions_mark_their_line() {
    let hunks = parse_diff_hunks_full("diff --git a/f b/f\n@@ -3,2 +2,0 @@\n-a\n-b\n\\ No newline at end of file\n");
    assert_eq!(hunks.len(), 1);
    assert_eq!(hunks[0].kind, GitSign::Deleted);
    assert_eq!((hunks[0].start, hunks[0].len), (2, 0));
    assert_eq!(hunks[0].patch, "@@ -3,2 +2,0 @@\n-a\n-b\n\\ No newline at end of file\n");
    assert!(hunks[0].contains(2) && !hunks[0].contains(3));
    assert_eq!(hunks[0].end(), 2);
    let one = parse_diff_hunks_full("@@ -4 +4 @@\n-x\n+y\r\n");
    assert_eq!((one[0].start, one[0].len, one[0].kind), (3, 1, GitSign::Modified));
    assert_eq!(one[0].patch, "@@ -4 +4 @@\n-x\n+y\n");
}

#[test]
fn staged_hunks_are_the_ones_the_index_already_has() {
    let all = "@@ -1,1 +1,1 @@\n-A\n+a\n@@ -5,0 +6,1 @@\n+new\n";
    let unstaged = "@@ -6,0 +6,1 @@\n+new\n";
    let (signs, hunks) = gutter_from_diffs(all, unstaged);
    assert_eq!(hunks.len(), 2);
    assert!(hunks[0].staged);
    assert!(!hunks[1].staged);
    assert_eq!(signs.get(&0), Some(&GitSign::Modified));
    assert_eq!(signs.get(&5), Some(&GitSign::Added));

    let mut g = GitGutter::new();
    g.refresh("f.rs", Some(all), unstaged);
    assert!(g.available);
    assert_eq!(g.hunks.len(), 2);
    assert_eq!(g.signs, signs);
    drop(hunks);
    assert_eq!(g.sign_at(5), Some(GitSign::Added));
    assert_eq!(g.sign_at(4), None);
    assert_eq!(g.hunk_at(5).map(|h| h.start), Some(5));
    assert!(g.hunk_at(3).is_none());

    let patch = plan_hunk_action(&g.hunks, 5, HunkAction::Stage, "src\\f.rs").unwrap();
    assert_eq!(
        patch,
        "diff --git a/src/f.rs b/src/f.rs\n--- a/src/f.rs\n+++ b/src/f.rs\n@@ -5,0 +6,1 @@\n+new\n"
    );
    assert_eq!(plan_hunk_action(&g.hunks, 0, HunkAction::Stage, "f.rs").unwrap_err(), "Already staged");
    assert!(plan_hunk_action(&g.hunks, 0, HunkAction::Discard, "f.rs").is_ok());
    assert_eq!(plan_hunk_action(&g.hunks, 3, HunkAction::Discard, "f.rs").unwrap_err(), "No change on that line");
    assert_eq!(hunk_action_done(HunkAction::Stage), "Staged change");
    assert_eq!(hunk_action_done(HunkAction::Discard), "Discarded change");
    g.clear();
    assert!(g.hunks.is_empty() && !g.available);
}

#[test]
fn blame_porcelain_is_read_per_line() {
    let text = "0123456789abcdef0123456789abcdef01234567 1 3 1\n\
author Someone With A Long Name\n\
author-time 1700000000\n\
\tfn main() {}\n\
89abcdef0123456789abcdef0123456789abcdef 2 4\n\
author-time -5\n\
\tsecond\n";
    let mut out = HashMap::new();
    parse_blame_porcelain(text, &mut out);
    let a = out.get(&2).unwrap();
    assert_eq!(a.author, "Someone With");
    assert_eq!(a.hash, "0123456");
    assert_eq!(a.date, "1700000000");
    let b = out.get(&3).unwrap();
    assert_eq!(b.author, "?");
    assert_eq!(b.hash, "89abcde");
    assert_eq!(b.date, "-5");
    assert_eq!(out.len(), 2);

    let line = BlameLine { author: "Ann".into(), hash: "abc1234".into(), date: String::new() };
    assert_eq!(format_blame_gutter(&line, 40), "Ann      abc1234");
    assert_eq!(format_blame_gutter(&line, 5), "Ann  ");
    assert_eq!(flame_color_for("Ann"), flame_color_for("Ann"));
    assert_eq!(flame_color_for(""), (255, 48, 20));
}

#[test]
fn gutter_without_a_diff_is_unavailable() {
    let mut g = GitGutter::new();
    g.refresh("f.rs", None, "");
    assert!(!g.available);
    assert!(g.hunks.is_empty() && g.signs.is_empty());
    g.refresh("", Some("@@ -1 +1 @@\n-a\n+b\n"), "");
    assert!(!g.available);
    g.refresh("f.rs", Some("@@ -1 +1 @@\n-a\n+b\n"), "");
    assert!(g.available);
    assert_eq!(g.sign_at(0), Some(GitSign::Modified));
    g.clear();
    assert!(!g.available && g.path.is_empty());
}

#[test]
fn a_long_author_line_is_not_a_commit_header() {
    let text = "0123456789abcdef0123456789abcdef01234567 1 1 1\nauthor Alexander Maximilian Bartholomew-Smith\n\tx\n";
    let mut out = HashMap::new();
    parse_blame_porcelain(text, &mut out);
    assert_eq!(out.len(), 1);
    assert_eq!(out[&0].author, "Alexander Ma");
    assert_eq!(out[&0].hash, "0123456");
}
