use chapr_endpoint::nearname::{budget, close_enough, differs_only_in_digits, distance_within, normalise, similar_names};

#[test]
fn a_transposition_is_caught() {
    assert_eq!(similar_names("Repotrs", &["Reports"]), vec!["Reports"]);
}

#[test]
fn case_and_separators_are_not_differences() {
    for existing in ["reports", "REPORTS", "Q1 Reports", "q1-reports"] {
        let candidate = if existing.contains('1') { "Q1_Reports" } else { "Reports" };
        assert_eq!(
            similar_names(candidate, &[existing]),
            vec![existing.to_string()],
            "{candidate} vs {existing}"
        );
    }
}

#[test]
fn a_singular_beside_a_plural_is_caught() {
    assert_eq!(similar_names("Report", &["Reports"]), vec!["Reports"]);
}

#[test]
fn unrelated_names_pass() {
    let existing = ["Reports", "Tenders", "Archive", "2026"];
    for candidate in ["Proposals", "Invoices", "Drafts", "2027"] {
        assert!(similar_names(candidate, &existing).is_empty(), "{candidate} was wrongly flagged");
    }
}

#[test]
fn short_names_get_a_tighter_budget() {
    assert!(similar_names("abc", &["abd"]).is_empty(), "3 chars: no budget");
    assert_eq!(similar_names("draft", &["drafts"]), vec!["drafts"], "5 chars: 1");
    assert_eq!(similar_names("proposals", &["propsal"]), vec!["propsal"], "9 chars: 2");
    assert!(
        similar_names("quarterlies", &["quarterly"]).is_empty(),
        "distance 3 is not a near-duplicate"
    );
}

#[test]
fn numbered_siblings_are_deliberate_not_typos() {
    assert!(similar_names("2027", &["2026"]).is_empty());
    assert!(similar_names("Q2", &["Q1"]).is_empty());
    assert!(similar_names("Reports2026", &["Reports2025"]).is_empty());
    assert!(similar_names("Reports2026", &["Reports"]).is_empty());
    assert_eq!(similar_names("Repotrs2026", &["Reports2026"]), vec!["Reports2026"]);
}

#[test]
fn an_exact_normalised_match_is_always_reported() {
    assert_eq!(similar_names("a-b-c", &["abc"]), vec!["abc"]);
}

#[test]
fn every_match_is_listed_in_listing_order() {
    let existing = ["Reports", "Unrelated", "reports "];
    assert_eq!(similar_names("Report", &existing), vec!["Reports".to_string(), "reports ".to_string()]);
}

#[test]
fn a_name_with_no_alphanumerics_flags_nothing() {
    assert!(similar_names("___", &["Reports"]).is_empty());
}

fn chars(s: &str) -> Vec<char> {
    s.chars().collect()
}

#[test]
fn the_distance_counts_edits_and_swaps() {
    let d = |a: &str, b: &str| distance_within(&chars(a), &chars(b), 10);
    assert_eq!(d("reports", "reports"), Some(0));
    assert_eq!(d("repotrs", "reports"), Some(1));
    assert_eq!(d("kitten", "sitting"), Some(3));
    assert_eq!(d("sitting", "kitten"), Some(3));
    assert_eq!(d("", "abc"), Some(3));
    assert_eq!(d("ca", "abc"), Some(3));
    assert_eq!(distance_within(&chars("kitten"), &chars("sitting"), 2), None);
    assert_eq!(distance_within(&chars("a"), &chars("abcd"), 2), None);
}

#[test]
fn the_budget_goes_by_characters() {
    assert_eq!((budget(3), budget(4), budget(7), budget(8)), (0, 1, 1, 2));
    // Three letters, whatever their bytes: no slip is allowed.
    assert!(similar_names("æøå", &["æøe"]).is_empty());
    assert!(similar_names("årsplan", &["årspl"]).is_empty());
    assert_eq!(similar_names("årsplan", &["årspla"]), vec!["årspla"]);
    assert_eq!(similar_names("årsplane", &["årspla"]), vec!["årspla"]);
}

#[test]
fn plain_forms_and_numbers() {
    assert_eq!(normalise("Q1 - Årsrapport!"), chars("q1årsrapport"));
    assert!(differs_only_in_digits(&chars("q1"), &chars("q2")));
    assert!(!differs_only_in_digits(&chars("q1"), &chars("q1")));
    assert!(!differs_only_in_digits(&chars("qa1"), &chars("qb1")));
}

#[test]
fn plain_forms_are_close_within_their_slips() {
    let close = |a: &str, b: &str, apart: bool| close_enough(&a.chars().collect(), &b.chars().collect(), apart);
    assert!(close("repotrs", "reports", false));
    assert!(!close("repotrs", "reports", true));
    assert!(close("abc", "abc", true), "the same form is close, however short");
    assert!(!close("abc", "abd", false), "a short form has no slips to spare");
    assert!(!close("reports", "rexorxs", false), "two slips are too many for seven letters");
    assert!(close("quarterly", "quaxterxy", false), "and not too many for nine");
    assert!(!close("", "", false));
}
