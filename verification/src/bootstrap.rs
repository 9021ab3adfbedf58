//! The bootstrap pipeline: validation of the template, recovery-phrase
//! generation, candidate derivation, assembly of the election skeleton,
//! and the installation of the commitment roots once the ledger slice has
//! been synchronized. Every stage is all-or-nothing: an error at any stage
//! yields no election at all.
use vstd::prelude::*;

use crate::election::{
    all_zero, election_finalized, election_wf, CandidateChoice, Election, ElectionData,
    ElectionTemplate,
};
use crate::errors::BootstrapError;
use crate::keys::{
    address_chars_of, address_derivable_of, derive_candidate_address, VOTE_COIN_TYPE,
    VOTE_DIVERSIFIER,
};
use crate::recovery::{generate_recovery, seed_of};
use crate::text::{candidate_labels, labels_of};

verus! {

/// The URL-safe slug that identifies an election: a deterministic function
/// of its name (not guaranteed globally unique across colliding names).
pub uninterp spec fn slug_of(name: Seq<char>) -> Seq<char>;

/// Relies on slug's `slugify`: the result is a deterministic function of
/// the input string alone (lowercase ASCII letters, digits and single
/// dashes, never at the ends).
#[verifier::external_body]
fn slugify_str(s: &str) -> (r: String)
    ensures
        r@ == slug_of(s@),
{
    slug::slugify(s)
}

/// The passphrase that, together with the recovery phrase, fixes the
/// master seed of every election.
pub open spec fn spec_vote_passphrase() -> Seq<char> {
    "vote"@
}

/// A template is usable when its height window is non-empty and its
/// choices block yields at least one candidate label.
pub open spec fn template_valid(t: ElectionTemplate) -> bool {
    t.start < t.end && labels_of(t.choices@).len() >= 1
}

/// Checks the preconditions of the pipeline, before any other work:
/// rejects an empty height window, then an empty candidate list.
pub fn check_template(t: &ElectionTemplate) -> (r: Result<(), BootstrapError>)
    ensures
        r is Ok <==> template_valid(*t),
        t.start >= t.end ==> r == Err::<(), BootstrapError>(BootstrapError::EmptyHeightRange),
        t.start < t.end && labels_of(t.choices@).len() == 0 ==> r == Err::<(),
            BootstrapError,
        >(BootstrapError::NoCandidates),
{
    if t.start >= t.end {
        return Err(BootstrapError::EmptyHeightRange);
    }
    let labels = candidate_labels(t.choices.as_str());
    proof {
        assert(labels@.len() == labels.deep_view().len());
    }
    if labels.len() == 0 {
        return Err(BootstrapError::NoCandidates);
    }
    Ok(())
}

/// What a derived candidate list promises: one entry per label, in the
/// original order, each address the deterministic derivation at its index.
pub open spec fn candidates_match(
    seed: Seq<u8>,
    labels: Seq<Seq<char>>,
    cs: Seq<CandidateChoice>,
) -> bool {
    &&& cs.len() == labels.len()
    &&& forall|i: int|
        0 <= i < cs.len() ==> (#[trigger] cs[i]).choice@ == labels[i] && cs[i].address@
            == address_chars_of(seed, i as u32)
}

/// Whether every candidate index of a list of this length is derivable
/// from the seed: the exact success condition of candidate derivation.
pub open spec fn all_indices_derivable(seed: Seq<u8>, count: int) -> bool {
    &&& count < 0x8000_0000
    &&& forall|i: u32|
        (i as int) < count ==> #[trigger] address_derivable_of(
            seed,
            VOTE_COIN_TYPE,
            i,
            VOTE_DIVERSIFIER,
        )
}

/// Derives one receiving address per label, in order: succeeds exactly
/// when the index space is not exhausted and the key hierarchy yields an
/// address at every index.
pub fn derive_candidates(seed: &Vec<u8>, labels: &Vec<String>) -> (r: Result<
    Vec<CandidateChoice>,
    BootstrapError,
>)
    requires
        seed@.len() == 64,
    ensures
        r is Ok <==> all_indices_derivable(seed@, labels@.len() as int),
        r matches Ok(cs) ==> candidates_match(seed@, labels.deep_view(), cs@) && labels@.len()
            < 0x8000_0000,
        r matches Err(e) ==> e is DerivationFailed,
{
    if labels.len() >= 0x8000_0000usize {
        return Err(BootstrapError::DerivationFailed);
    }
    let mut cs: Vec<CandidateChoice> = Vec::new();
    let mut i: usize = 0;
    while i < labels.len()
        invariant
            seed@.len() == 64,
            0 <= i <= labels@.len(),
            labels@.len() < 0x8000_0000,
            cs@.len() == i,
            forall|j: u32|
                (j as int) < i ==> #[trigger] address_derivable_of(
                    seed@,
                    VOTE_COIN_TYPE,
                    j,
                    VOTE_DIVERSIFIER,
                ),
            forall|j: int|
                0 <= j < i ==> (#[trigger] cs@[j]).choice@ == labels.deep_view()[j]
                    && cs@[j].address@ == address_chars_of(seed@, j as u32),
        decreases labels@.len() - i,
    {
        let address = match derive_candidate_address(seed, i as u32) {
            Some(a) => a,
            None => {
                assert(!address_derivable_of(seed@, VOTE_COIN_TYPE, i as u32, VOTE_DIVERSIFIER));
                return Err(BootstrapError::DerivationFailed);
            },
        };
        let choice = labels[i].clone();
        cs.push(CandidateChoice { address, choice });
        i = i + 1;
    }
    Ok(cs)
}

/// Re-derives the candidate addresses of an election from its recovery
/// phrase: the administrator's recovery path. The returned string is the
/// normalized phrase; the candidates are exactly the derivation that
/// [`prepare_election`] performed for that phrase and these labels.
/// `None` for a malformed phrase, an exhausted index space, or a refused
/// derivation.
pub fn recover_candidates(phrase: &str, labels: &Vec<String>) -> (r: Option<
    (String, Vec<CandidateChoice>),
>)
    ensures
        r matches Some(p) ==> candidates_match(
            seed_of(p.0@, spec_vote_passphrase()),
            labels.deep_view(),
            p.1@,
        ),
{
    let (normalized, seed) = match crate::recovery::recover_seed(phrase, "vote") {
        Some(x) => x,
        None => return None,
    };
    match derive_candidates(&seed, labels) {
        Ok(cs) => Some((normalized, cs)),
        Err(_) => None,
    }
}

/// An election skeleton awaiting synchronization, paired with the phrase
/// that must be handed to the administrator once the bootstrap succeeds.
pub struct PendingElection {
    pub phrase: String,
    pub election: Election,
}

/// What a prepared skeleton promises: every field taken from the template,
/// the id its slug, the candidates derived in order from the fresh seed,
/// and both roots still all zero.
pub open spec fn pending_matches(t: ElectionTemplate, p: PendingElection) -> bool {
    &&& p.election.id@ == slug_of(t.name@)
    &&& p.election.name@ == t.name@
    &&& p.election.start_height == t.start
    &&& p.election.end_height == t.end
    &&& p.election.question@ == t.question@
    &&& p.election.signature_required == t.signature_required
    &&& candidates_match(
        seed_of(p.phrase@, spec_vote_passphrase()),
        labels_of(t.choices@),
        p.election.candidates@,
    )
    &&& p.election.candidates@.len() < 0x8000_0000
    &&& p.election.cmx@.len() == 32 && all_zero(p.election.cmx@)
    &&& p.election.nf@.len() == 32 && all_zero(p.election.nf@)
    &&& election_wf(p.election)
}

/// The offline part of the bootstrap: validates the template, generates a
/// fresh recovery phrase and master seed, derives one address per
/// candidate, and assembles the skeleton with zero roots. Rejection of a
/// bad template comes before any other work, so a failed validation never
/// reaches key generation or synchronization.
pub fn prepare_election(t: &ElectionTemplate) -> (r: Result<PendingElection, BootstrapError>)
    ensures
        t.start >= t.end ==> r == Err::<PendingElection, BootstrapError>(
            BootstrapError::EmptyHeightRange,
        ),
        t.start < t.end && labels_of(t.choices@).len() == 0 ==> r == Err::<
            PendingElection,
            BootstrapError,
        >(BootstrapError::NoCandidates),
        r matches Err(e) ==> (e is EmptyHeightRange || e is NoCandidates || e is DerivationFailed),
        r matches Err(e) && e is DerivationFailed ==> template_valid(*t),
        template_valid(*t) ==> (r matches Err(e) ==> e is DerivationFailed),
        r matches Ok(p) ==> template_valid(*t) && pending_matches(*t, p),
{
    if t.start >= t.end {
        return Err(BootstrapError::EmptyHeightRange);
    }
    let labels = candidate_labels(t.choices.as_str());
    proof {
        assert(labels@.len() == labels.deep_view().len());
    }
    if labels.len() == 0 {
        return Err(BootstrapError::NoCandidates);
    }
    let (phrase, seed) = generate_recovery("vote");
    let candidates = match derive_candidates(&seed, &labels) {
        Ok(cs) => cs,
        Err(e) => return Err(e),
    };
    let id = slugify_str(t.name.as_str());
    let election = Election {
        id,
        name: t.name.clone(),
        start_height: t.start,
        end_height: t.end,
        question: t.question.clone(),
        candidates,
        signature_required: t.signature_required,
        cmx: crate::election::zero_root(),
        nf: crate::election::zero_root(),
    };
    Ok(PendingElection { phrase, election })
}

/// Installs the two commitment roots into a synchronized skeleton,
/// finishing the record. A root that is missing its 32-byte width or is
/// all zero marks an inconsistent aggregation and fails the bootstrap;
/// otherwise the finished record is the skeleton with exactly these roots.
pub fn finish_election(e: Election, nf: Vec<u8>, cmx: Vec<u8>) -> (r: Result<
    Election,
    BootstrapError,
>)
    ensures
        r is Ok <==> (nf@.len() == 32 && cmx@.len() == 32 && !all_zero(nf@) && !all_zero(cmx@)),
        r matches Err(err) ==> err is AggregationFailed,
        r matches Ok(f) ==> f.nf@ == nf@ && f.cmx@ == cmx@ && f.id@ == e.id@ && f.name@ == e.name@
            && f.start_height == e.start_height && f.end_height == e.end_height && f.question@
            == e.question@ && f.candidates@ == e.candidates@ && f.signature_required
            == e.signature_required,
        r matches Ok(f) ==> (election_wf(e) ==> election_finalized(f)),
{
    if nf.len() != 32 || cmx.len() != 32 {
        return Err(BootstrapError::AggregationFailed);
    }
    if crate::election::is_all_zero(&nf) || crate::election::is_all_zero(&cmx) {
        return Err(BootstrapError::AggregationFailed);
    }
    let mut f = e;
    f.nf = nf;
    f.cmx = cmx;
    Ok(f)
}

/// Pairs the finished record with its recovery phrase: the bundle the
/// administrator receives, created only at the very end of the pipeline.
pub fn assemble_election_data(phrase: String, election: Election) -> (r: ElectionData)
    ensures
        r.seed@ == phrase@,
        r.election == election,
{
    ElectionData { seed: phrase, election }
}

} // verus!
