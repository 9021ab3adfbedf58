use vote_bootstrap::codec::{election_data_to_json, election_to_json, parse_election};
use vote_bootstrap::election::{CandidateChoice, Election, ElectionData};

fn sample_election() -> Election {
    Election {
        id: "board-vote".to_string(),
        name: "Board Vote".to_string(),
        start_height: 1000,
        end_height: 1010,
        question: "Pick one".to_string(),
        candidates: vec![
            CandidateChoice { address: "aa11".to_string(), choice: "Alice".to_string() },
            CandidateChoice { address: "bb22".to_string(), choice: "Bob".to_string() },
        ],
        signature_required: false,
        cmx: (1u8..=32).collect(),
        nf: (101u8..=132).collect(),
    }
}

fn assert_same_election(a: &Election, b: &Election) {
    assert_eq!(a.id, b.id);
    assert_eq!(a.name, b.name);
    assert_eq!(a.start_height, b.start_height);
    assert_eq!(a.end_height, b.end_height);
    assert_eq!(a.question, b.question);
    assert_eq!(a.signature_required, b.signature_required);
    assert_eq!(a.cmx, b.cmx);
    assert_eq!(a.nf, b.nf);
    assert_eq!(a.candidates.len(), b.candidates.len());
    for (x, y) in a.candidates.iter().zip(b.candidates.iter()) {
        assert_eq!(x.address, y.address);
        assert_eq!(x.choice, y.choice);
    }
}

#[test]
fn round_trip_basic() {
    let e = sample_election();
    let text = election_to_json(&e);
    let parsed = parse_election(&text).expect("canonical form must parse");
    assert_same_election(&e, &parsed);
}

#[test]
fn round_trip_with_escapes() {
    let mut e = sample_election();
    e.name = "A \"quoted\" name \\ with backslash".to_string();
    e.question = "line one\nline two\ttabbed".to_string();
    e.candidates[0].choice = "Candidate \"A\"".to_string();
    let text = election_to_json(&e);
    let parsed = parse_election(&text).expect("escaped canonical form must parse");
    assert_same_election(&e, &parsed);
}

#[test]
fn canonical_shape_is_exact() {
    let e = Election {
        id: "x".to_string(),
        name: "x y".to_string(),
        start_height: 1,
        end_height: 4294967295,
        question: "q".to_string(),
        candidates: vec![CandidateChoice { address: "a".to_string(), choice: "c".to_string() }],
        signature_required: true,
        cmx: vec![0u8; 3],
        nf: vec![255u8, 0u8, 7u8],
    };
    let text = election_to_json(&e);
    let expected = "{\"id\":\"x\",\"name\":\"x y\",\"start_height\":1,\"end_height\":4294967295,\"question\":\"q\",\"candidates\":[{\"address\":\"a\",\"choice\":\"c\"}],\"signature_required\":true,\"cmx\":[0,0,0],\"nf\":[255,0,7]}";
    assert_eq!(text, expected);
}

#[test]
fn election_data_canonical_shape() {
    let d = ElectionData {
        seed: "apple banana cherry".to_string(),
        election: sample_election(),
    };
    let text = election_data_to_json(&d);
    assert!(text.starts_with("{\"seed\":\"apple banana cherry\",\"election\":{\"id\":\"board-vote\""));
    assert!(text.ends_with("}}"));
}

#[test]
fn parse_rejects_non_canonical_text() {
    assert!(parse_election("").is_none());
    assert!(parse_election("not json at all").is_none());
    assert!(parse_election("{\"id\":\"x\"}").is_none());

    let e = sample_election();
    let text = election_to_json(&e);
    let truncated = &text[..text.len() - 1];
    assert!(parse_election(truncated).is_none());
    let padded = format!("{} ", text);
    assert!(parse_election(&padded).is_none());
}

#[test]
fn parse_accepts_handwritten_canonical_text() {
    let text = "{\"id\":\"x\",\"name\":\"x y\",\"start_height\":7,\"end_height\":9,\"question\":\"q\",\"candidates\":[{\"address\":\"a\",\"choice\":\"c\"},{\"address\":\"b\",\"choice\":\"d\"}],\"signature_required\":false,\"cmx\":[1,2],\"nf\":[3]}";
    let e = parse_election(text).expect("canonical text must parse");
    assert_eq!(e.id, "x");
    assert_eq!(e.name, "x y");
    assert_eq!(e.start_height, 7);
    assert_eq!(e.end_height, 9);
    assert_eq!(e.question, "q");
    assert_eq!(e.candidates.len(), 2);
    assert_eq!(e.candidates[1].address, "b");
    assert_eq!(e.candidates[1].choice, "d");
    assert!(!e.signature_required);
    assert_eq!(e.cmx, vec![1u8, 2u8]);
    assert_eq!(e.nf, vec![3u8]);
}

#[test]
fn parse_result_reserializes_identically() {
    let e = sample_election();
    let text = election_to_json(&e);
    let parsed = parse_election(&text).expect("canonical form must parse");
    assert_eq!(election_to_json(&parsed), text);
}
