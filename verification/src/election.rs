//! The data model: the input template, the finished election record, and
//! the exported bundle that pairs it with the recovery phrase.
use vstd::prelude::*;

verus! {

/// The human-supplied description of an election: a name, a height window
/// `[start, end)`, a ballot question, a newline-delimited block of candidate
/// labels, and whether ballots must be signed.
pub struct ElectionTemplate {
    pub name: String,
    pub start: u32,
    pub end: u32,
    pub question: String,
    pub choices: String,
    pub signature_required: bool,
}

/// One candidate: its encoded receiving address and its verbatim label.
/// The position within the election's candidate list is the derivation
/// index of the address and must never change after creation.
pub struct CandidateChoice {
    pub address: String,
    pub choice: String,
}

/// The finished election record. `cmx` (note-commitment root) and `nf`
/// (nullifier-set root) are 32 bytes each and stay all zero until the
/// synchronization and aggregation stages complete: a record with zero
/// roots is not finalized.
pub struct Election {
    pub id: String,
    pub name: String,
    pub start_height: u32,
    pub end_height: u32,
    pub question: String,
    pub candidates: Vec<CandidateChoice>,
    pub signature_required: bool,
    pub cmx: Vec<u8>,
    pub nf: Vec<u8>,
}

/// The exported bundle: the recovery phrase (shown once to the
/// administrator) together with the election record.
pub struct ElectionData {
    pub seed: String,
    pub election: Election,
}

pub open spec fn all_zero(s: Seq<u8>) -> bool {
    forall|i: int| 0 <= i < s.len() ==> s[i] == 0
}

/// Well-formedness of an election record: a non-empty height window, at
/// least one candidate, and roots of the fixed 32-byte width.
pub open spec fn election_wf(e: Election) -> bool {
    &&& e.start_height < e.end_height
    &&& e.candidates@.len() >= 1
    &&& e.cmx@.len() == 32
    &&& e.nf@.len() == 32
}

/// A finalized record additionally carries non-zero roots; only the
/// aggregation stage can make one.
pub open spec fn election_finalized(e: Election) -> bool {
    &&& election_wf(e)
    &&& !all_zero(e.cmx@)
    &&& !all_zero(e.nf@)
}

/// Tests whether a byte buffer is all zero.
pub fn is_all_zero(v: &Vec<u8>) -> (r: bool)
    ensures
        r == all_zero(v@),
{
    let mut i: usize = 0;
    while i < v.len()
        invariant
            0 <= i <= v@.len(),
            forall|j: int| 0 <= j < i ==> v@[j] == 0,
        decreases v@.len() - i,
    {
        if v[i] != 0 {
            return false;
        }
        i = i + 1;
    }
    true
}

/// A fresh all-zero 32-byte root, the placeholder of an unfinished stage.
pub fn zero_root() -> (r: Vec<u8>)
    ensures
        r@.len() == 32,
        all_zero(r@),
{
    let mut r: Vec<u8> = Vec::new();
    let mut i: usize = 0;
    while i < 32
        invariant
            r@.len() == i,
            0 <= i <= 32,
            forall|j: int| 0 <= j < i ==> r@[j] == 0,
        decreases 32 - i,
    {
        r.push(0u8);
        i = i + 1;
    }
    r
}

/// Exec form of [`election_wf`], for callers outside the verified library.
pub fn election_well_formed(e: &Election) -> (r: bool)
    ensures
        r == election_wf(*e),
{
    e.start_height < e.end_height && e.candidates.len() >= 1 && e.cmx.len() == 32 && e.nf.len()
        == 32
}

} // verus!
