//! Recovery-phrase generation: a fresh 24-word mnemonic and the 64-byte
//! master seed derived from it together with an application passphrase.
use vstd::prelude::*;

verus! {

/// The seed that the mnemonic standard derives from a (normalized) phrase
/// and a passphrase. The derivation is a pure function of the two strings,
/// so its result carries a name rather than a page of algorithm.
pub uninterp spec fn seed_of(phrase: Seq<char>, passphrase: Seq<char>) -> Seq<u8>;

/// Relies on bip0039's `Mnemonic::generate`, `Mnemonic::phrase` and
/// `Mnemonic::to_seed`: a fresh 24-word phrase is drawn from a
/// cryptographically secure source, and `to_seed` returns the 64-byte
/// seed that is a deterministic function of the phrase and the
/// passphrase alone. Nothing is promised of which phrase comes back.
#[verifier::external_body]
pub(crate) fn generate_recovery(passphrase: &str) -> (r: (String, Vec<u8>))
    ensures
        r.1@ == seed_of(r.0@, passphrase@),
        r.1@.len() == 64,
{
    let mnemonic = bip0039::Mnemonic::<bip0039::English>::generate(bip0039::Count::Words24);
    let phrase = mnemonic.phrase().to_string();
    let seed = mnemonic.to_seed(passphrase);
    (phrase, seed.to_vec())
}

/// Relies on bip0039's `Mnemonic::from_phrase`, `Mnemonic::phrase` and
/// `Mnemonic::to_seed`: a well-formed phrase is accepted and normalized,
/// and the returned seed is the 64-byte deterministic function of the
/// normalized phrase and the passphrase. A malformed phrase is rejected.
#[verifier::external_body]
pub(crate) fn recover_seed(phrase: &str, passphrase: &str) -> (r: Option<(String, Vec<u8>)>)
    ensures
        r matches Some(p) ==> p.1@ == seed_of(p.0@, passphrase@) && p.1@.len() == 64,
{
    let mnemonic = match bip0039::Mnemonic::<bip0039::English>::from_phrase(phrase) {
        Ok(m) => m,
        Err(_) => return None,
    };
    let normalized = mnemonic.phrase().to_string();
    let seed = mnemonic.to_seed(passphrase);
    Some((normalized, seed.to_vec()))
}

} // verus!
