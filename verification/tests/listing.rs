use git_cleanup::listing::{filter_candidates, parse_listing};

fn lines(items: &[&str]) -> Vec<String> {
    items.iter().map(|item| item.to_string()).collect()
}

#[test]
fn candidates_of_the_example_listing() {
    let listing = lines(&["* main", "  feature-a", "  feature-b", "  main"]);
    assert_eq!(filter_candidates(&listing, "main"), vec!["feature-a", "feature-b"]);
}

#[test]
fn candidates_never_hold_the_current_or_the_target_branch() {
    let listing = lines(&["  a", "* b", "  main", "main", " main ", "*", "  c  ", "main2"]);
    let candidates = filter_candidates(&listing, "main");
    assert_eq!(candidates, vec!["a", "c", "main2"]);
    for candidate in &candidates {
        assert!(!candidate.starts_with('*'));
        assert_ne!(candidate, "main");
    }
}

#[test]
fn candidates_keep_the_order_of_the_listing() {
    let listing = lines(&["  zeta", "  alpha", "* cur", "  mid", "  alpha", "  beta"]);
    assert_eq!(
        filter_candidates(&listing, "master"),
        vec!["zeta", "alpha", "mid", "alpha", "beta"]
    );
}

#[test]
fn current_branch_is_dropped_when_it_is_not_the_target() {
    let listing = lines(&["  main", "* work", "  old"]);
    assert_eq!(filter_candidates(&listing, "main"), vec!["old"]);
}

#[test]
fn detached_head_line_is_dropped() {
    let listing = lines(&["* (HEAD detached at 1a2b3c4)", "  old", "  main"]);
    assert_eq!(filter_candidates(&listing, "main"), vec!["old"]);
}

#[test]
fn indented_marker_is_recognised_after_trimming() {
    let listing = lines(&["   * work", "\t*other", "  a*b"]);
    assert_eq!(filter_candidates(&listing, "main"), vec!["a*b"]);
}

#[test]
fn target_is_compared_after_trimming_the_line_only() {
    let listing = lines(&["  main  ", "  main-2", "  Main"]);
    assert_eq!(filter_candidates(&listing, "main"), vec!["main-2", "Main"]);
    assert_eq!(filter_candidates(&listing, " main"), vec!["main", "main-2", "Main"]);
}

#[test]
fn blank_lines_stay_as_empty_names() {
    let listing = lines(&["  a", "", "   ", "  b"]);
    assert_eq!(filter_candidates(&listing, "main"), vec!["a", "", "", "b"]);
    assert_eq!(filter_candidates(&listing, ""), vec!["a", "b"]);
}

#[test]
fn empty_listing_gives_no_candidates() {
    assert_eq!(filter_candidates(&Vec::new(), "main"), Vec::<String>::new());
    assert_eq!(parse_listing("", "main"), Vec::<String>::new());
    assert_eq!(parse_listing("* main\n", "main"), Vec::<String>::new());
    assert_eq!(parse_listing("* dev\n  main\n", "main"), Vec::<String>::new());
}

#[test]
fn parse_listing_reads_the_printed_text() {
    let output = "* main\n  feature-a\n  feature-b\n  main\n";
    assert_eq!(parse_listing(output, "main"), vec!["feature-a", "feature-b"]);
}

#[test]
fn parse_listing_takes_either_line_ending() {
    let output = "  one\r\n* two\r\n  three";
    assert_eq!(parse_listing(output, "main"), vec!["one", "three"]);
}

#[test]
fn parse_listing_agrees_with_the_plain_pipeline() {
    let outputs = [
        "",
        "* main\n",
        "  a\n  b\n* c\n  main\n",
        "  main\n* feature\n  x y\n\n  \u{3000}wide\u{3000}\n",
        "  é\n  ✨\n  master\n",
        "+ worktree\n  plain\r\n",
    ];
    for output in outputs {
        for target in ["main", "master", ""] {
            let expected: Vec<String> = output
                .lines()
                .map(|line| line.trim().to_string())
                .filter(|line| !line.starts_with('*'))
                .filter(|line| line != target)
                .collect();
            assert_eq!(parse_listing(output, target), expected, "{:?} {:?}", output, target);
        }
    }
}
