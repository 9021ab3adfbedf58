//! The bootstrap state machine. A session is created from a template (the
//! offline stages run atomically), then driven strictly forward by the
//! caller: sync progress events while the ledger slice downloads, the
//! nullifier root (reporting exactly 75), the commitment root (reporting
//! exactly 100), and finally the assembled bundle. Any failure moves the
//! session to its terminal failed stage; no event and no value comes out
//! of it afterwards.
use vstd::prelude::*;

use crate::bootstrap::{pending_matches, prepare_election, template_valid, PendingElection};
use crate::election::{
    all_zero, election_finalized, election_wf, Election, ElectionData, ElectionTemplate,
};
use crate::errors::BootstrapError;
use crate::progress::{sync_progress, sync_progress_of, CMX_ROOT_PROGRESS, NF_ROOT_PROGRESS};

verus! {

#[derive(PartialEq, Eq, Structural)]
pub enum BootstrapStage {
    /// The ledger slice is downloading; both roots are still zero.
    Syncing,
    /// The nullifier-set root is installed; the note-commitment root is not.
    NullifierRootComputed,
    /// Both roots are installed: the record is finalized and can be taken.
    CommitmentRootComputed,
    /// A stage failed; the session is dead and exposes nothing.
    Failed,
}

pub struct BootstrapSession {
    pub stage: BootstrapStage,
    pub phrase: String,
    pub election: Election,
}

/// The invariant that every live session keeps: the record is well formed,
/// and each root is non-zero exactly from its stage onward.
pub open spec fn session_inv(s: BootstrapSession) -> bool {
    &&& election_wf(s.election)
    &&& (s.stage is Syncing ==> all_zero(s.election.nf@) && all_zero(s.election.cmx@))
    &&& (s.stage is NullifierRootComputed ==> !all_zero(s.election.nf@) && all_zero(
        s.election.cmx@,
    ))
    &&& (s.stage is CommitmentRootComputed ==> election_finalized(s.election))
}

/// Equality of every election field except the two roots.
pub open spec fn same_but_roots(a: Election, b: Election) -> bool {
    &&& a.id == b.id
    &&& a.name == b.name
    &&& a.start_height == b.start_height
    &&& a.end_height == b.end_height
    &&& a.question == b.question
    &&& a.candidates == b.candidates
    &&& a.signature_required == b.signature_required
}

/// Roots are all zero exactly until their stage completes: a session still
/// syncing has both roots zero, and a session whose record can be taken
/// never does.
pub proof fn lemma_roots_zero_only_before_completion(s: BootstrapSession)
    requires
        session_inv(s),
    ensures
        s.stage is Syncing ==> all_zero(s.election.nf@) && all_zero(s.election.cmx@),
        s.stage is CommitmentRootComputed ==> !all_zero(s.election.nf@) && !all_zero(
            s.election.cmx@,
        ),
{
}

impl BootstrapSession {
    /// Runs the offline stages — validation, recovery phrase, candidate
    /// derivation, skeleton assembly — and opens the session in its
    /// syncing stage. Rejection of a bad template comes before any other
    /// work, so a failed validation never opens a session at all.
    pub fn start(t: &ElectionTemplate) -> (r: Result<BootstrapSession, BootstrapError>)
        ensures
            t.start >= t.end ==> r == Err::<BootstrapSession, BootstrapError>(
                BootstrapError::EmptyHeightRange,
            ),
            t.start < t.end && crate::text::labels_of(t.choices@).len() == 0 ==> r == Err::<
                BootstrapSession,
                BootstrapError,
            >(BootstrapError::NoCandidates),
            r matches Err(e) ==> (e is EmptyHeightRange || e is NoCandidates
                || e is DerivationFailed),
            template_valid(*t) ==> (r matches Err(e) ==> e is DerivationFailed),
            r matches Ok(s) ==> s.stage is Syncing && session_inv(s) && template_valid(*t)
                && pending_matches(*t, (PendingElection { phrase: s.phrase, election: s.election })),
    {
        match prepare_election(t) {
            Ok(p) => Ok(
                BootstrapSession {
                    stage: BootstrapStage::Syncing,
                    phrase: p.phrase,
                    election: p.election,
                },
            ),
            Err(e) => Err(e),
        }
    }

    /// The progress value to report for a synchronized height: only while
    /// the session is syncing, only for heights inside the window, and
    /// always below 50. A dead or finished session reports nothing.
    pub fn sync_progress_event(&self, h: u32) -> (r: Option<u32>)
        ensures
            r matches Some(p) ==> self.stage is Syncing && self.election.start_height <= h
                < self.election.end_height && p == sync_progress_of(
                self.election.start_height,
                self.election.end_height,
                h,
            ) && p < 50,
            r is None ==> !(self.stage is Syncing && self.election.start_height <= h
                < self.election.end_height),
    {
        if !(self.stage == BootstrapStage::Syncing) {
            return None;
        }
        let start = self.election.start_height;
        let end = self.election.end_height;
        if !(start < end && start <= h && h < end) {
            return None;
        }
        Some(sync_progress(start, end, h))
    }

    /// Marks the session failed after a synchronization error, keeping the
    /// collaborator's message. Nothing comes out of the session afterwards.
    pub fn sync_failed(&mut self, message: String) -> (r: BootstrapError)
        ensures
            final(self).stage is Failed,
            r == BootstrapError::SyncFailed(message),
    {
        self.stage = BootstrapStage::Failed;
        BootstrapError::SyncFailed(message)
    }

    /// Installs the nullifier-set root, the first aggregation stage, and
    /// reports exactly 75. A malformed or all-zero root fails the session
    /// instead.
    pub fn nullifier_root(&mut self, nf: Vec<u8>) -> (r: Result<u32, BootstrapError>)
        requires
            old(self).stage is Syncing,
            session_inv(*old(self)),
        ensures
            r is Ok <==> (nf@.len() == 32 && !all_zero(nf@)),
            r matches Ok(p) ==> p == NF_ROOT_PROGRESS && final(self).stage
                is NullifierRootComputed && final(self).election.nf@ == nf@ && session_inv(
                *final(self),
            ) && same_but_roots(final(self).election, old(self).election) && final(self).phrase
                == old(self).phrase && final(self).election.cmx == old(self).election.cmx,
            r matches Err(e) ==> e is AggregationFailed && final(self).stage is Failed,
    {
        if nf.len() != 32 || crate::election::is_all_zero(&nf) {
            self.stage = BootstrapStage::Failed;
            return Err(BootstrapError::AggregationFailed);
        }
        self.election.nf = nf;
        self.stage = BootstrapStage::NullifierRootComputed;
        Ok(NF_ROOT_PROGRESS)
    }

    /// Installs the note-commitment root, the second aggregation stage,
    /// and reports exactly 100: the record is then finalized. A malformed
    /// or all-zero root fails the session instead.
    pub fn commitment_root(&mut self, cmx: Vec<u8>) -> (r: Result<u32, BootstrapError>)
        requires
            old(self).stage is NullifierRootComputed,
            session_inv(*old(self)),
        ensures
            r is Ok <==> (cmx@.len() == 32 && !all_zero(cmx@)),
            r matches Ok(p) ==> p == CMX_ROOT_PROGRESS && final(self).stage
                is CommitmentRootComputed && final(self).election.cmx@ == cmx@ && session_inv(
                *final(self),
            ) && same_but_roots(final(self).election, old(self).election) && final(self).phrase
                == old(self).phrase && final(self).election.nf == old(self).election.nf
                && election_finalized(final(self).election),
            r matches Err(e) ==> e is AggregationFailed && final(self).stage is Failed,
    {
        if cmx.len() != 32 || crate::election::is_all_zero(&cmx) {
            self.stage = BootstrapStage::Failed;
            return Err(BootstrapError::AggregationFailed);
        }
        self.election.cmx = cmx;
        self.stage = BootstrapStage::CommitmentRootComputed;
        Ok(CMX_ROOT_PROGRESS)
    }

    /// Takes the assembled bundle out of a finished session: the finalized
    /// record together with the recovery phrase, created atomically and
    /// only here.
    pub fn into_election_data(self) -> (r: ElectionData)
        requires
            self.stage is CommitmentRootComputed,
            session_inv(self),
        ensures
            r.seed@ == self.phrase@,
            r.election == self.election,
            election_finalized(r.election),
    {
        ElectionData { seed: self.phrase, election: self.election }
    }

    /// Whether the session is still in its syncing stage.
    pub fn stage_is_syncing(&self) -> (r: bool)
        ensures
            r == (self.stage is Syncing),
    {
        self.stage == BootstrapStage::Syncing
    }

    /// Whether the nullifier root is installed and the commitment root is
    /// still owed.
    pub fn stage_is_nullifier_done(&self) -> (r: bool)
        ensures
            r == (self.stage is NullifierRootComputed),
    {
        self.stage == BootstrapStage::NullifierRootComputed
    }

    /// Whether the record is finalized and can be taken.
    pub fn stage_is_finished(&self) -> (r: bool)
        ensures
            r == (self.stage is CommitmentRootComputed),
    {
        self.stage == BootstrapStage::CommitmentRootComputed
    }

    /// Exec form of [`session_inv`], for callers outside the verified
    /// library.
    pub fn invariant_holds(&self) -> (r: bool)
        ensures
            r == session_inv(*self),
    {
        let wf = crate::election::election_well_formed(&self.election);
        let nf_zero = crate::election::is_all_zero(&self.election.nf);
        let cmx_zero = crate::election::is_all_zero(&self.election.cmx);
        let stage_ok = match self.stage {
            BootstrapStage::Syncing => nf_zero && cmx_zero,
            BootstrapStage::NullifierRootComputed => !nf_zero && cmx_zero,
            BootstrapStage::CommitmentRootComputed => !nf_zero && !cmx_zero,
            BootstrapStage::Failed => true,
        };
        wf && stage_ok
    }
}

} // verus!
