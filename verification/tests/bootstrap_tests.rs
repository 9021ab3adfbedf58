use vote_bootstrap::bootstrap::{
    assemble_election_data, check_template, finish_election, prepare_election, recover_candidates,
};
use vote_bootstrap::election::{election_well_formed, ElectionTemplate};
use vote_bootstrap::errors::BootstrapError;
use vote_bootstrap::progress::{check_progress_sequence, sync_progress};
use vote_bootstrap::text::candidate_labels;

fn board_vote_template() -> ElectionTemplate {
    ElectionTemplate {
        name: "Board Vote".to_string(),
        start: 1000,
        end: 1010,
        question: "Pick one".to_string(),
        choices: "Alice\nBob\nCarol".to_string(),
        signature_required: false,
    }
}

#[test]
fn bootstrap_rejects_empty_height_range() {
    let mut t = board_vote_template();
    t.start = 100;
    t.end = 100;
    assert!(matches!(prepare_election(&t), Err(BootstrapError::EmptyHeightRange)));
    assert!(matches!(check_template(&t), Err(BootstrapError::EmptyHeightRange)));
    t.end = 50;
    assert!(matches!(prepare_election(&t), Err(BootstrapError::EmptyHeightRange)));
}

#[test]
fn bootstrap_rejects_empty_choices() {
    let mut t = board_vote_template();
    t.choices = "".to_string();
    assert!(matches!(prepare_election(&t), Err(BootstrapError::NoCandidates)));
    assert!(matches!(check_template(&t), Err(BootstrapError::NoCandidates)));
    t.choices = " \n \n".to_string();
    assert!(matches!(prepare_election(&t), Err(BootstrapError::NoCandidates)));
}

#[test]
fn bootstrap_board_vote_scenario() {
    let t = board_vote_template();
    let pending = prepare_election(&t).expect("a valid template must bootstrap");
    let e = &pending.election;

    assert_eq!(e.id, "board-vote");
    assert_eq!(e.name, "Board Vote");
    assert_eq!(e.question, "Pick one");
    assert_eq!(e.start_height, 1000);
    assert_eq!(e.end_height, 1010);
    assert!(!e.signature_required);

    assert_eq!(e.candidates.len(), 3);
    let labels: Vec<&str> = e.candidates.iter().map(|c| c.choice.as_str()).collect();
    assert_eq!(labels, vec!["Alice", "Bob", "Carol"]);
    for c in &e.candidates {
        assert!(!c.address.is_empty());
    }
    assert_ne!(e.candidates[0].address, e.candidates[1].address);
    assert_ne!(e.candidates[0].address, e.candidates[2].address);
    assert_ne!(e.candidates[1].address, e.candidates[2].address);

    assert_eq!(e.cmx, vec![0u8; 32]);
    assert_eq!(e.nf, vec![0u8; 32]);
    assert!(election_well_formed(e));

    let mut observed: Vec<u32> = Vec::new();
    let mut last: Option<u32> = None;
    for h in e.start_height..e.end_height {
        let p = sync_progress(e.start_height, e.end_height, h);
        if last != Some(p) {
            observed.push(p);
            last = Some(p);
        }
    }
    let nf = vec![7u8; 32];
    let cmx = vec![9u8; 32];
    let finished = finish_election(pending.election, nf.clone(), cmx.clone())
        .expect("non-zero roots must finish the record");
    observed.push(75);
    observed.push(100);
    assert!(check_progress_sequence(&observed));
    assert_eq!(*observed.last().unwrap(), 100);
    assert_eq!(observed[observed.len() - 2], 75);

    assert_eq!(finished.nf, nf);
    assert_eq!(finished.cmx, cmx);
    assert_eq!(finished.candidates.len(), 3);

    let data = assemble_election_data(pending.phrase.clone(), finished);
    assert_eq!(data.seed, pending.phrase);
    assert_eq!(data.election.id, "board-vote");
}

#[test]
fn candidates_count_matches_non_empty_lines() {
    let mut t = board_vote_template();
    t.choices = "A\n\nB\nC\n\n".to_string();
    let pending = prepare_election(&t).expect("valid template");
    let labels = candidate_labels(&t.choices);
    assert_eq!(pending.election.candidates.len(), labels.len());
    assert_eq!(labels, vec!["A", "B", "C"]);
    for (c, l) in pending.election.candidates.iter().zip(labels.iter()) {
        assert_eq!(&c.choice, l);
    }
}

#[test]
fn derivation_is_deterministic_from_phrase() {
    let t = board_vote_template();
    let pending = prepare_election(&t).expect("valid template");
    let labels = candidate_labels(&t.choices);

    let (normalized, again) = recover_candidates(&pending.phrase, &labels)
        .expect("a generated phrase is well formed");
    assert_eq!(normalized, pending.phrase);
    assert_eq!(again.len(), pending.election.candidates.len());
    for (a, b) in again.iter().zip(pending.election.candidates.iter()) {
        assert_eq!(a.address, b.address);
        assert_eq!(a.choice, b.choice);
    }

    let (_, again2) = recover_candidates(&pending.phrase, &labels).expect("well formed");
    for (a, b) in again.iter().zip(again2.iter()) {
        assert_eq!(a.address, b.address);
    }

    assert!(recover_candidates("not a real phrase at all", &labels).is_none());
}

#[test]
fn distinct_phrases_give_distinct_addresses() {
    let t = board_vote_template();
    let p1 = prepare_election(&t).expect("valid template");
    let p2 = prepare_election(&t).expect("valid template");
    assert_ne!(p1.phrase, p2.phrase);
    for a in &p1.election.candidates {
        for b in &p2.election.candidates {
            assert_ne!(a.address, b.address);
        }
    }
}

#[test]
fn finish_rejects_zero_or_malformed_roots() {
    let t = board_vote_template();

    let pending = prepare_election(&t).expect("valid template");
    let r = finish_election(pending.election, vec![0u8; 32], vec![9u8; 32]);
    assert!(matches!(r, Err(BootstrapError::AggregationFailed)));

    let pending = prepare_election(&t).expect("valid template");
    let r = finish_election(pending.election, vec![7u8; 32], vec![0u8; 32]);
    assert!(matches!(r, Err(BootstrapError::AggregationFailed)));

    let pending = prepare_election(&t).expect("valid template");
    let r = finish_election(pending.election, vec![7u8; 16], vec![9u8; 32]);
    assert!(matches!(r, Err(BootstrapError::AggregationFailed)));
}

#[test]
fn error_messages_are_user_facing() {
    assert!(!BootstrapError::EmptyHeightRange.message().is_empty());
    assert!(!BootstrapError::NoCandidates.message().is_empty());
    assert!(!BootstrapError::DerivationFailed.message().is_empty());
    assert!(!BootstrapError::AggregationFailed.message().is_empty());
    let sync = BootstrapError::SyncFailed("the ledger endpoint closed the stream".to_string());
    assert_eq!(sync.message(), "the ledger endpoint closed the stream");
}

#[test]
fn addresses_are_lowercase_hex_of_raw_bytes() {
    let bytes = vec![0u8, 1, 15, 16, 255];
    let hex = vote_bootstrap::keys::to_hex(&bytes);
    assert_eq!(hex, "00010f10ff");

    let t = board_vote_template();
    let pending = prepare_election(&t).expect("valid template");
    for c in &pending.election.candidates {
        assert_eq!(c.address.len(), 86);
        assert!(c.address.chars().all(|ch| ch.is_ascii_hexdigit()));
    }
}
