//! The 8-byte obfuscation key: its validity rules, the sidecar file's
//! contents, and generation of a fresh live key.

use vstd::prelude::*;

verus! {

/// The first four key bytes are all zero.
pub open spec fn first4_zero(key: Seq<u8>) -> bool {
    forall|i: int| 0 <= i < 4 ==> key[i] == 0
}

/// The last four key bytes are all zero.
pub open spec fn last4_zero(key: Seq<u8>) -> bool {
    forall|i: int| 4 <= i < 8 ==> key[i] == 0
}

/// The all-zero sentinel, meaning "no key assigned yet".
pub open spec fn is_sentinel(key: Seq<u8>) -> bool {
    first4_zero(key) && last4_zero(key)
}

/// A live key: 8 bytes whose first 4 bytes are not all zero, so that an
/// obfuscated header can never look like the plain signature.
pub open spec fn is_live(key: Seq<u8>) -> bool {
    key.len() == 8 && !first4_zero(key)
}

/// The obfuscation key for one run.
pub struct Key {
    pub bytes: Vec<u8>,
}

impl View for Key {
    type V = Seq<u8>;

    open spec fn view(&self) -> Seq<u8> {
        self.bytes@
    }
}

impl Key {
    /// A key always holds exactly 8 bytes.
    pub open spec fn wf(&self) -> bool {
        self@.len() == 8
    }
}

/// Why a run must abort before touching any data file.
#[derive(Clone, Copy, Debug, PartialEq, Eq, Structural)]
pub enum KeyError {
    /// The sidecar key file does not exist: the host's obfuscation feature is
    /// not available.
    MissingSidecar,
    /// The sidecar file is not exactly 8 bytes.
    MalformedKeyFile,
    /// The key's first 4 bytes are zero but its last 4 are not: raw and
    /// obfuscated files would be indistinguishable.
    InvalidKeyState,
}

/// What the sidecar file held: the unassigned sentinel, or a live key.
pub enum KeyStatus {
    Sentinel,
    Live(Key),
}

/// Validates the sidecar file's contents: exactly 8 bytes, never a key whose
/// first 4 bytes are zero while the rest is not.
pub fn check_key_bytes(bytes: &Vec<u8>) -> (r: Result<KeyStatus, KeyError>)
    ensures
        bytes@.len() != 8 ==> r == Err::<KeyStatus, KeyError>(KeyError::MalformedKeyFile),
        bytes@.len() == 8 && first4_zero(bytes@) && !last4_zero(bytes@) ==> r == Err::<
            KeyStatus,
            KeyError,
        >(KeyError::InvalidKeyState),
        is_sentinel(bytes@) && bytes@.len() == 8 ==> r matches Ok(KeyStatus::Sentinel),
        is_live(bytes@) ==> (r matches Ok(KeyStatus::Live(k)) && k@ == bytes@),
{
    if bytes.len() != 8 {
        return Err(KeyError::MalformedKeyFile);
    }
    let f4 = bytes[0] == 0 && bytes[1] == 0 && bytes[2] == 0 && bytes[3] == 0;
    let l4 = bytes[4] == 0 && bytes[5] == 0 && bytes[6] == 0 && bytes[7] == 0;
    proof {
        assert(f4 == first4_zero(bytes@));
        assert(l4 == last4_zero(bytes@));
    }
    if f4 && !l4 {
        return Err(KeyError::InvalidKeyState);
    }
    if f4 && l4 {
        return Ok(KeyStatus::Sentinel);
    }
    let mut kb: Vec<u8> = Vec::new();
    let mut i: usize = 0;
    while i < bytes.len()
        invariant
            i <= bytes@.len(),
            kb@ == bytes@.take(i as int),
        decreases bytes@.len() - i,
    {
        kb.push(bytes[i]);
        proof {
            assert(kb@ =~= bytes@.take(i + 1));
        }
        i = i + 1;
    }
    proof {
        assert(kb@ =~= bytes@);
    }
    Ok(KeyStatus::Live(Key { bytes: kb }))
}

/// Relies on `std::hash::RandomState`: a freshly seeded hasher's `finish`
/// yields an arbitrary `u64`. Nothing is assumed about the value.
#[verifier::external_body]
fn random_u64() -> u64 {
    let h = std::hash::BuildHasher::build_hasher(&std::hash::RandomState::new());
    std::hash::Hasher::finish(&h)
}

/// Byte `i` of the little-endian form of `x`.
fn le_byte(x: u64, i: u64) -> (b: u8)
    requires
        i < 8,
{
    let shifted = x >> (i * 8);
    let masked = shifted & 0xff;
    proof {
        assert(masked < 256) by (bit_vector)
            requires
                masked == shifted & 0xffu64,
        ;
    }
    masked as u8
}

/// Draws random 8-byte keys until one is live (first 4 bytes not all zero),
/// so that the plain signature stays detectable in raw files.
pub fn generate_live_key() -> (k: Key)
    ensures
        k.wf(),
        is_live(k@),
{
    let mut attempts: u64 = 0;
    while attempts < 0xffff_ffff
        decreases 0xffff_ffffu64 - attempts,
    {
        let r = random_u64();
        let mut bytes: Vec<u8> = Vec::new();
        let mut i: u64 = 0;
        while i < 8
            invariant
                i <= 8,
                bytes@.len() == i,
            decreases 8 - i,
        {
            bytes.push(le_byte(r, i));
            i = i + 1;
        }
        if !(bytes[0] == 0 && bytes[1] == 0 && bytes[2] == 0 && bytes[3] == 0) {
            let k = Key { bytes };
            proof {
                if first4_zero(k@) {
                    assert(k@[0] == 0 && k@[1] == 0 && k@[2] == 0 && k@[3] == 0);
                }
            }
            return k;
        }
        attempts = attempts + 1;
    }
    // A draw is rejected with probability 2^-32, so this point is never
    // reached in practice; termination checking demands a bound, and the
    // last resort makes the final candidate live by force.
    let r = random_u64();
    let mut bytes: Vec<u8> = Vec::new();
    bytes.push(1);
    let mut i: u64 = 1;
    while i < 8
        invariant
            1 <= i <= 8,
            bytes@.len() == i,
            bytes@[0] == 1,
        decreases 8 - i,
    {
        bytes.push(le_byte(r, i));
        i = i + 1;
    }
    let k = Key { bytes };
    proof {
        if first4_zero(k@) {
            assert(k@[0] == 0);
        }
    }
    k
}

/// The key to use for the run, and whether the sidecar file must be
/// rewritten first.
pub enum KeyLoadAction {
    /// The sidecar already held a live key: use it, write nothing.
    UseExisting(Key),
    /// The sidecar held the sentinel: a fresh live key was generated and must
    /// be written over the sidecar, durably, before any file is transformed.
    WriteNew(Key),
}

/// The KeyStore decision, from the sidecar file's contents (`None` when the
/// file does not exist) to the key for the run. Fails, touching nothing, on
/// a missing sidecar, contents of the wrong length, or an ambiguous key.
pub fn load_or_create(contents: Option<&Vec<u8>>) -> (r: Result<KeyLoadAction, KeyError>)
    ensures
        contents is None ==> r == Err::<KeyLoadAction, KeyError>(KeyError::MissingSidecar),
        contents matches Some(b) && b@.len() != 8 ==> r == Err::<KeyLoadAction, KeyError>(
            KeyError::MalformedKeyFile,
        ),
        contents matches Some(b) && b@.len() == 8 && first4_zero(b@) && !last4_zero(b@) ==> r
            == Err::<KeyLoadAction, KeyError>(KeyError::InvalidKeyState),
        contents matches Some(b) && is_sentinel(b@) && b@.len() == 8 ==> (r matches Ok(
            KeyLoadAction::WriteNew(k),
        ) && is_live(k@) && k.wf()),
        contents matches Some(b) ==> (is_live(b@) ==> (r matches Ok(KeyLoadAction::UseExisting(k))
            && k@ == b@)),
{
    match contents {
        Option::None => Err(KeyError::MissingSidecar),
        Option::Some(bytes) => match check_key_bytes(bytes) {
            Err(e) => Err(e),
            Ok(KeyStatus::Sentinel) => Ok(KeyLoadAction::WriteNew(generate_live_key())),
            Ok(KeyStatus::Live(k)) => Ok(KeyLoadAction::UseExisting(k)),
        },
    }
}

} // verus!
