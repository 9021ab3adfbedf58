use vote_bootstrap::election::ElectionTemplate;
use vote_bootstrap::errors::BootstrapError;
use vote_bootstrap::progress::check_progress_sequence;
use vote_bootstrap::session::BootstrapSession;

fn template() -> ElectionTemplate {
    ElectionTemplate {
        name: "Board Vote".to_string(),
        start: 1000,
        end: 1010,
        question: "Pick one".to_string(),
        choices: "Alice\nBob\nCarol".to_string(),
        signature_required: false,
    }
}

#[test]
fn session_rejects_bad_template_before_any_stage() {
    let mut t = template();
    t.start = 100;
    t.end = 100;
    assert!(matches!(BootstrapSession::start(&t), Err(BootstrapError::EmptyHeightRange)));
    let mut t = template();
    t.choices = "".to_string();
    assert!(matches!(BootstrapSession::start(&t), Err(BootstrapError::NoCandidates)));
}

#[test]
fn session_happy_path_emits_75_then_100() {
    let t = template();
    let mut session = BootstrapSession::start(&t).expect("valid template");
    assert!(session.stage_is_syncing());
    assert!(session.invariant_holds());

    let mut observed: Vec<u32> = Vec::new();
    for h in 1000u32..1010u32 {
        if let Some(p) = session.sync_progress_event(h) {
            assert!(p < 50);
            if observed.last() != Some(&p) {
                observed.push(p);
            }
        }
    }
    // Heights outside the window report nothing.
    assert!(session.sync_progress_event(999).is_none());
    assert!(session.sync_progress_event(1010).is_none());

    let p75 = session.nullifier_root(vec![7u8; 32]).expect("a non-zero root");
    assert_eq!(p75, 75);
    assert!(session.stage_is_nullifier_done());
    assert!(session.invariant_holds());
    // No sync events after the syncing stage.
    assert!(session.sync_progress_event(1005).is_none());
    observed.push(p75);

    let p100 = session.commitment_root(vec![9u8; 32]).expect("a non-zero root");
    assert_eq!(p100, 100);
    assert!(session.stage_is_finished());
    assert!(session.invariant_holds());
    observed.push(p100);

    assert!(check_progress_sequence(&observed));

    let data = session.into_election_data();
    assert_eq!(data.election.id, "board-vote");
    assert_eq!(data.election.nf, vec![7u8; 32]);
    assert_eq!(data.election.cmx, vec![9u8; 32]);
    assert!(!data.seed.is_empty());
}

#[test]
fn session_zero_root_fails_and_goes_dead() {
    let t = template();
    let mut session = BootstrapSession::start(&t).expect("valid template");
    let r = session.nullifier_root(vec![0u8; 32]);
    assert!(matches!(r, Err(BootstrapError::AggregationFailed)));
    assert!(!session.stage_is_syncing());
    assert!(!session.stage_is_nullifier_done());
    assert!(!session.stage_is_finished());
    // A dead session emits no further progress.
    assert!(session.sync_progress_event(1005).is_none());
}

#[test]
fn session_sync_failure_keeps_message_and_emits_nothing() {
    let t = template();
    let mut session = BootstrapSession::start(&t).expect("valid template");
    let err = session.sync_failed("the ledger endpoint closed the stream".to_string());
    assert_eq!(err.message(), "the ledger endpoint closed the stream");
    assert!(session.sync_progress_event(1005).is_none());
    assert!(!session.stage_is_finished());
}
