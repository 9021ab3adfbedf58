//! Candidate key derivation: one independent receiving address per
//! candidate index, derived deterministically from the master seed, and
//! its printable encoding.
use vstd::prelude::*;

verus! {

/// The raw 43-byte receiving address that the shielded-key hierarchy
/// derives from a seed, a coin type, a hardened account index and a
/// diversifier index. The derivation is a pure function of these four
/// arguments, so its result carries a name rather than a page of algorithm.
pub uninterp spec fn address_bytes_of(
    seed: Seq<u8>,
    coin_type: u32,
    account: u32,
    div_index: u64,
) -> Seq<u8>;

/// Whether the key hierarchy yields an address for these arguments. The
/// derivation is deterministic, so success is a pure function of the same
/// four arguments and can carry a name: it fails exactly for an account
/// index outside the hardened space or a child key the curve refuses.
pub uninterp spec fn address_derivable_of(
    seed: Seq<u8>,
    coin_type: u32,
    account: u32,
    div_index: u64,
) -> bool;

/// Relies on orchard's `SpendingKey::from_zip32_seed`,
/// `FullViewingKey::from`, `FullViewingKey::address_at` (external scope)
/// and `Address::to_raw_address_bytes`: the raw address is a deterministic
/// function of the seed, coin type, account index and diversifier index
/// alone, and its raw encoding is 43 bytes. Whether derivation succeeds
/// is likewise deterministic of the four arguments (an account index
/// outside the hardened space, or an unusable child key, always fails;
/// everything else always succeeds), so success equals the named
/// predicate [`address_derivable_of`].
#[verifier::external_body]
fn derive_address_bytes(seed: &Vec<u8>, coin_type: u32, account: u32, div_index: u64) -> (r:
    Option<Vec<u8>>)
    requires
        seed@.len() == 64,
    ensures
        r is Some <==> address_derivable_of(seed@, coin_type, account, div_index),
        r matches Some(b) ==> b@ == address_bytes_of(seed@, coin_type, account, div_index)
            && b@.len() == 43,
{
    let account = match account.try_into() {
        Ok(a) => a,
        Err(_) => return None,
    };
    let spk = match orchard::keys::SpendingKey::from_zip32_seed(seed.as_slice(), coin_type, account)
        {
        Ok(s) => s,
        Err(_) => return None,
    };
    let fvk = orchard::keys::FullViewingKey::from(&spk);
    let addr = fvk.address_at(div_index, orchard::keys::Scope::External);
    Some(addr.to_raw_address_bytes().to_vec())
}

pub open spec fn hex_digit(n: int) -> char {
    if n == 0 {
        '0'
    } else if n == 1 {
        '1'
    } else if n == 2 {
        '2'
    } else if n == 3 {
        '3'
    } else if n == 4 {
        '4'
    } else if n == 5 {
        '5'
    } else if n == 6 {
        '6'
    } else if n == 7 {
        '7'
    } else if n == 8 {
        '8'
    } else if n == 9 {
        '9'
    } else if n == 10 {
        'a'
    } else if n == 11 {
        'b'
    } else if n == 12 {
        'c'
    } else if n == 13 {
        'd'
    } else if n == 14 {
        'e'
    } else {
        'f'
    }
}

/// The lowercase hexadecimal rendering of a byte string, two digits a byte.
pub open spec fn hex_of(bs: Seq<u8>) -> Seq<char>
    decreases bs.len(),
{
    if bs.len() == 0 {
        Seq::empty()
    } else {
        hex_of(bs.drop_last()).push(hex_digit(bs.last() as int / 16)).push(
            hex_digit(bs.last() as int % 16),
        )
    }
}

pub fn hex_digit_char(n: u8) -> (r: char)
    requires
        n < 16,
    ensures
        r == hex_digit(n as int),
{
    match n {
        0 => '0',
        1 => '1',
        2 => '2',
        3 => '3',
        4 => '4',
        5 => '5',
        6 => '6',
        7 => '7',
        8 => '8',
        9 => '9',
        10 => 'a',
        11 => 'b',
        12 => 'c',
        13 => 'd',
        14 => 'e',
        _ => 'f',
    }
}

/// Renders a byte buffer as lowercase hexadecimal.
pub fn to_hex(v: &Vec<u8>) -> (r: String)
    ensures
        r@ == hex_of(v@),
{
    let mut r = String::new();
    let mut i: usize = 0;
    while i < v.len()
        invariant
            0 <= i <= v@.len(),
            r@ == hex_of(v@.take(i as int)),
        decreases v@.len() - i,
    {
        let b = v[i];
        let ghost pref = v@.take(i as int + 1);
        proof {
            assert(pref.drop_last() =~= v@.take(i as int));
            assert(pref.last() == v@[i as int]);
        }
        crate::text::push_char(&mut r, hex_digit_char(b / 16));
        crate::text::push_char(&mut r, hex_digit_char(b % 16));
        i = i + 1;
    }
    proof {
        assert(v@.take(v@.len() as int) =~= v@);
    }
    r
}

/// The printable encoding keeps addresses apart: two byte strings with the
/// same hexadecimal rendering are the same bytes, so distinct raw
/// addresses always print as distinct address strings.
pub proof fn lemma_hex_injective(b1: Seq<u8>, b2: Seq<u8>)
    requires
        hex_of(b1) == hex_of(b2),
    ensures
        b1 == b2,
    decreases b1.len(),
{
    if b1.len() == 0 && b2.len() == 0 {
        assert(b1 =~= b2);
    } else if b1.len() == 0 {
        assert(hex_of(b1).len() == 0);
        assert(hex_of(b2).len() == hex_of(b2.drop_last()).len() + 2);
        assert(false);
    } else if b2.len() == 0 {
        assert(hex_of(b2).len() == 0);
        assert(hex_of(b1).len() == hex_of(b1.drop_last()).len() + 2);
        assert(false);
    } else {
        let h1 = hex_of(b1);
        let h2 = hex_of(b2);
        assert(h1.len() == hex_of(b1.drop_last()).len() + 2);
        assert(h2.len() == hex_of(b2.drop_last()).len() + 2);
        assert(h1[h1.len() - 2] == hex_digit(b1.last() as int / 16));
        assert(h1[h1.len() - 1] == hex_digit(b1.last() as int % 16));
        assert(h2[h2.len() - 2] == hex_digit(b2.last() as int / 16));
        assert(h2[h2.len() - 1] == hex_digit(b2.last() as int % 16));
        assert(b1.last() as int / 16 == b2.last() as int / 16);
        assert(b1.last() as int % 16 == b2.last() as int % 16);
        vstd::arithmetic::div_mod::lemma_fundamental_div_mod(b1.last() as int, 16);
        vstd::arithmetic::div_mod::lemma_fundamental_div_mod(b2.last() as int, 16);
        assert(b1.last() == b2.last());
        assert(hex_of(b1.drop_last()) =~= h1.take(h1.len() - 2));
        assert(hex_of(b2.drop_last()) =~= h2.take(h2.len() - 2));
        lemma_hex_injective(b1.drop_last(), b2.drop_last());
        assert(b1.drop_last().len() == b1.len() - 1);
        assert(b2.drop_last().len() == b2.len() - 1);
        assert forall|i: int| 0 <= i < b1.len() implies b1[i] == b2[i] by {
            if i < b1.len() - 1 {
                assert(b1.drop_last()[i] == b1[i]);
                assert(b2.drop_last()[i] == b2[i]);
            } else {
                assert(b1.last() == b1[i]);
                assert(b2.last() == b2[i]);
            }
        }
        assert(b1 =~= b2);
    }
}

/// The coin type that fixes the derivation path of every candidate key.
pub const VOTE_COIN_TYPE: u32 = 159;

/// The diversifier index at which each candidate address is taken.
pub const VOTE_DIVERSIFIER: u64 = 0;

/// The printable encoding of the candidate address at `account`: the
/// lowercase hexadecimal form of the raw 43-byte address.
pub open spec fn address_chars_of(seed: Seq<u8>, account: u32) -> Seq<char> {
    hex_of(address_bytes_of(seed, VOTE_COIN_TYPE, account, VOTE_DIVERSIFIER))
}

/// Determinism of candidate derivation: the address is a function of the
/// seed and the index alone, so two derivations of the same candidate
/// from the same seed always print the same address.
pub proof fn lemma_derivation_deterministic(
    seed: Seq<u8>,
    account: u32,
    a1: Seq<char>,
    a2: Seq<char>,
)
    requires
        a1 == address_chars_of(seed, account),
        a2 == address_chars_of(seed, account),
    ensures
        a1 == a2,
{
}

/// Derives the printable receiving address of candidate `account`:
/// `Some` exactly when the key hierarchy yields an address for the index.
pub fn derive_candidate_address(seed: &Vec<u8>, account: u32) -> (r: Option<String>)
    requires
        seed@.len() == 64,
    ensures
        r is Some <==> address_derivable_of(seed@, VOTE_COIN_TYPE, account, VOTE_DIVERSIFIER),
        r matches Some(a) ==> a@ == address_chars_of(seed@, account),
{
    match derive_address_bytes(seed, VOTE_COIN_TYPE, account, VOTE_DIVERSIFIER) {
        Some(bytes) => Some(to_hex(&bytes)),
        None => None,
    }
}

} // verus!
