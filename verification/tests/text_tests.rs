use vote_bootstrap::text::candidate_labels;

#[test]
fn labels_basic_order() {
    let labels = candidate_labels("Alice\nBob\nCarol");
    assert_eq!(labels, vec!["Alice", "Bob", "Carol"]);
}

#[test]
fn labels_surrounding_whitespace_trimmed() {
    let labels = candidate_labels(" \nAlice\nBob\n\t ");
    assert_eq!(labels, vec!["Alice", "Bob"]);
}

#[test]
fn labels_blank_interior_lines_skipped() {
    let labels = candidate_labels("Alice\n\nBob");
    assert_eq!(labels, vec!["Alice", "Bob"]);
}

#[test]
fn labels_interior_spaces_kept_verbatim() {
    let labels = candidate_labels("Alice \n Bob");
    assert_eq!(labels, vec!["Alice ", " Bob"]);
}

#[test]
fn labels_empty_block() {
    assert_eq!(candidate_labels(""), Vec::<String>::new());
    assert_eq!(candidate_labels(" \n \n "), Vec::<String>::new());
}

#[test]
fn labels_single_candidate() {
    assert_eq!(candidate_labels("Only"), vec!["Only"]);
}
