use prism::command_knowledge::ranking::{
    fuzzy_score, icon_for_command, label_for_query, rank_candidates, score_candidate,
    CommandAutocompleteCandidate,
};

fn chars(s: &str) -> Vec<char> {
    s.chars().collect()
}

fn candidate(id: i64, line: &str, usage: i64, last: Option<&str>) -> CommandAutocompleteCandidate {
    CommandAutocompleteCandidate {
        command_id: id,
        command_line: line.to_string(),
        description: None,
        usage_count: usage,
        usage_last_used_at: last.map(|s| s.to_string()),
    }
}

#[test]
fn ranks_prefix_matches_by_score_and_drops_non_matches() {
    let candidates = vec![
        candidate(1, "git status", 0, None),
        candidate(2, "docker ps", 50, Some("2024-01-02")),
        candidate(3, "git stash", 10, Some("2024-01-01")),
    ];
    let ranked = rank_candidates(candidates, "  Git St ", 10);
    assert_eq!(ranked.len(), 2);
    assert_eq!(ranked[0].command_id, 3);
    assert_eq!(ranked[0].score, 140 + 30 + 25);
    assert_eq!(ranked[0].label, "stash");
    assert!(ranked[0].frequently_used);
    assert!(ranked[0].recently_used);
    assert_eq!(ranked[0].last_used_at.as_deref(), Some("2024-01-01"));
    assert_eq!(ranked[1].command_id, 1);
    assert_eq!(ranked[1].score, 140);
    assert!(!ranked[1].frequently_used);
    assert!(!ranked[1].recently_used);
}

#[test]
fn empty_query_gives_no_suggestions() {
    let ranked = rank_candidates(vec![candidate(1, "git status", 3, None)], "   ", 5);
    assert!(ranked.is_empty());
}

#[test]
fn limit_is_clamped_between_one_and_twenty() {
    let many: Vec<CommandAutocompleteCandidate> =
        (0..30).map(|i| candidate(i, &format!("git c{:02}", i), 0, None)).collect();
    assert_eq!(rank_candidates(many.clone(), "git", 0).len(), 1);
    assert_eq!(rank_candidates(many, "git", 100).len(), 20);
}

#[test]
fn ties_are_broken_by_usage_then_last_use_then_command_line() {
    let candidates = vec![
        candidate(1, "git b", 1, None),
        candidate(2, "git a", 1, None),
        candidate(3, "git c", 1, Some("2024")),
    ];
    let ranked = rank_candidates(candidates, "git", 10);
    let ids: Vec<i64> = ranked.iter().map(|s| s.command_id).collect();
    assert_eq!(ids, vec![3, 2, 1]);
}

#[test]
fn usage_counts_at_most_one_hundred_times() {
    let s = score_candidate(candidate(7, "cargo build", 500, None), &chars("cargo"))
        .expect("prefix match");
    assert_eq!(s.score, 140 + 300);
}

#[test]
fn label_prefix_and_substring_scores() {
    let by_label = score_candidate(candidate(1, "git checkout", 0, None), &chars("x che"))
        .expect("label match");
    assert_eq!(by_label.score, 120);
    assert_eq!(by_label.label, "checkout");
    let by_substring = score_candidate(candidate(2, "npm run build", 0, None), &chars("run"))
        .expect("substring match");
    assert_eq!(by_substring.score, 80);
}

#[test]
fn fuzzy_scores_ordered_characters() {
    assert_eq!(fuzzy_score(&chars("docker compose"), &chars("dcp")), Some(10));
    assert_eq!(fuzzy_score(&chars("docker compose"), &chars("doc")), Some(18));
    assert_eq!(fuzzy_score(&chars("docker"), &chars("z")), None);
    assert_eq!(fuzzy_score(&chars("docker"), &chars("")), Some(0));
    let fuzzy = score_candidate(candidate(4, "docker compose", 0, None), &chars("dcp"))
        .expect("fuzzy match");
    assert_eq!(fuzzy.score, 10);
}

#[test]
fn labels_follow_the_query_word_count() {
    assert_eq!(
        label_for_query(&chars("git stash pop"), &chars("git st")),
        chars("stash")
    );
    assert_eq!(label_for_query(&chars("git"), &chars("git st")), chars("git"));
    assert_eq!(label_for_query(&chars("git stash"), &chars("git")), chars("git stash"));
}

#[test]
fn icons_follow_the_program() {
    assert_eq!(icon_for_command("Docker ps"), "bi-box-seam");
    assert_eq!(icon_for_command("git log"), "bi-git");
    assert_eq!(icon_for_command("cargo test"), "bi-box");
    assert_eq!(icon_for_command("npm i"), "bi-node-plus");
    assert_eq!(icon_for_command("node x.js"), "bi-node-plus");
    assert_eq!(icon_for_command("pnpm add"), "bi-node-plus");
    assert_eq!(icon_for_command("ls -la"), "bi-terminal");
    assert_eq!(icon_for_command(""), "bi-terminal");
}
