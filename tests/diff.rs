use jr::diff::normalize_diff;

#[test]
fn test_normalize_diff() {
    // Diffs whose index lines differ only in hash length normalize equally.
    let diff_10_char_hash = "diff --git a/foo b/foo\n\
index 0123456789..0123456789 100644\n\
--- a/foo\n\
+++ b/foo\n\
@@ -1 +1 @@\n\
-old content\n\
+new content";

    let diff_11_char_hash = "diff --git a/foo b/foo\n\
index 0123456789a..0123456789a 100644\n\
--- a/foo\n\
+++ b/foo\n\
@@ -1 +1 @@\n\
-old content\n\
+new content";

    let normalized_10 = normalize_diff(diff_10_char_hash);
    let normalized_11 = normalize_diff(diff_11_char_hash);

    assert_eq!(normalized_10, normalized_11);

    assert!(!normalized_10.contains("index "));
    assert!(!normalized_11.contains("index "));

    assert!(normalized_10.contains("diff --git a/foo b/foo"));
    assert!(normalized_10.contains("--- a/foo"));
    assert!(normalized_10.contains("+++ b/foo"));
    assert!(normalized_10.contains("-old content"));
    assert!(normalized_10.contains("+new content"));
}

#[test]
fn test_normalize_diff_preserves_code_with_index_keyword() {
    let diff_with_index_code = "diff --git a/src/main.rs b/src/main.rs\n\
index abc123..def456 100644\n\
--- a/src/main.rs\n\
+++ b/src/main.rs\n\
@@ -1,2 +1,2 @@\n\
-let index = 0;\n\
+let index = 1;";

    let normalized = normalize_diff(diff_with_index_code);

    assert!(!normalized.contains("index abc123..def456"));

    assert!(normalized.contains("let index = 0;"));
    assert!(normalized.contains("let index = 1;"));
}

#[test]
fn normalize_exact_output() {
    let d = "diff --git a/x b/x\nindex 12ab..34cd 100644\n--- a/x\n+++ b/x\n+y\n";
    assert_eq!(normalize_diff(d), "diff --git a/x b/x\n--- a/x\n+++ b/x\n+y\n");
}

#[test]
fn normalize_is_idempotent_on_examples() {
    let samples = [
        "",
        "\n",
        "\n\n",
        "index ab..cd",
        "index ab..cd\n",
        "a\nindex 1..2 644\nb\n\n",
        "a\r\nindex 1..2\r\nb",
    ];
    for d in samples.iter() {
        let once = normalize_diff(d);
        let twice = normalize_diff(&once);
        assert_eq!(once, twice, "input {:?}", d);
    }
}

#[test]
fn normalize_empty_and_blank_lines() {
    assert_eq!(normalize_diff(""), "");
    assert_eq!(normalize_diff("\n\n"), "\n\n");
    assert_eq!(normalize_diff("index ab..cd"), "");
    assert_eq!(normalize_diff("index ab..cd\n"), "");
}

#[test]
fn normalize_index_line_forms() {
    // Without a mode, the line is still metadata.
    assert_eq!(normalize_diff("a\nindex 0a1b..2c3d\nb"), "a\nb");
    // Upper-case hex, a missing second hash, a non-numeric mode, extra text
    // or leading space: not metadata.
    assert_eq!(normalize_diff("index 0A..1B"), "index 0A..1B");
    assert_eq!(normalize_diff("index 0a.."), "index 0a..");
    assert_eq!(normalize_diff("index 0a..1b mode"), "index 0a..1b mode");
    assert_eq!(normalize_diff("index 0a..1b 100644 x"), "index 0a..1b 100644 x");
    assert_eq!(normalize_diff(" index 0a..1b"), " index 0a..1b");
    assert_eq!(normalize_diff("index 0a..1b "), "index 0a..1b ");
    assert_eq!(normalize_diff("index ..1b"), "index ..1b");
}

#[test]
fn normalize_distinguishes_content() {
    let a = "diff --git a/f b/f\nindex 1..2 100644\n+one\n";
    let b = "diff --git a/f b/f\nindex 1..2 100644\n+two\n";
    assert_ne!(normalize_diff(a), normalize_diff(b));
}
