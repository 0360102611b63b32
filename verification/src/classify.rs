//! Deciding, per file, whether it is a raw record file that needs the
//! transform or must be skipped (wrong name, sidecar file, short or already
//! obfuscated header).

use vstd::prelude::*;

use crate::key::is_live;
use crate::transform::xor_with_key;

verus! {

/// The fixed 4-byte signature beginning every raw, unobfuscated record file.
pub open spec fn spec_signature() -> Seq<u8> {
    seq![0xf9u8, 0xbeu8, 0xb4u8, 0xd9u8]
}

/// The signature as bytes.
pub fn signature() -> (s: Vec<u8>)
    ensures
        s@ == spec_signature(),
{
    let mut s: Vec<u8> = Vec::new();
    s.push(0xf9);
    s.push(0xbe);
    s.push(0xb4);
    s.push(0xd9);
    proof {
        assert(s@ =~= spec_signature());
    }
    s
}

/// The sidecar key file's name, `xor.dat`, as bytes.
pub open spec fn spec_sidecar_name() -> Seq<u8> {
    seq![120u8, 111u8, 114u8, 46u8, 100u8, 97u8, 116u8]
}

/// The sidecar key file's name as bytes.
pub fn sidecar_name() -> (s: Vec<u8>)
    ensures
        s@ == spec_sidecar_name(),
{
    let mut s: Vec<u8> = Vec::new();
    s.push(120);
    s.push(111);
    s.push(114);
    s.push(46);
    s.push(100);
    s.push(97);
    s.push(116);
    proof {
        assert(s@ =~= spec_sidecar_name());
    }
    s
}

/// A name carries the data-file extension when it ends in `.dat` with at
/// least one character before the dot (a bare `.dat` has no extension).
pub open spec fn has_data_extension(name: Seq<u8>) -> bool {
    name.len() >= 5 && name.subrange(name.len() - 4, name.len() as int) == seq![
        46u8,
        100u8,
        97u8,
        116u8,
    ]
}

/// A candidate for classification: a data file that is not the sidecar file
/// itself.
pub open spec fn is_candidate_name(name: Seq<u8>) -> bool {
    has_data_extension(name) && name != spec_sidecar_name()
}

/// Decides whether `name` names a candidate data file.
pub fn check_candidate_name(name: &Vec<u8>) -> (r: bool)
    ensures
        r == is_candidate_name(name@),
{
    let n = name.len();
    if n < 5 {
        proof {
            assert(!has_data_extension(name@));
        }
        return false;
    }
    let ext_ok = name[n - 4] == 46 && name[n - 3] == 100 && name[n - 2] == 97 && name[n - 1]
        == 116;
    proof {
        let tail = name@.subrange(n - 4, n as int);
        let dat = seq![46u8, 100u8, 97u8, 116u8];
        if ext_ok {
            assert(tail =~= dat);
        } else {
            if tail == dat {
                assert(name@[n - 4] == tail[0]);
                assert(name@[n - 3] == tail[1]);
                assert(name@[n - 2] == tail[2]);
                assert(name@[n - 1] == tail[3]);
            }
        }
        assert(ext_ok == has_data_extension(name@));
    }
    if !ext_ok {
        return false;
    }
    let is_sidecar = n == 7 && name[0] == 120 && name[1] == 111 && name[2] == 114 && name[3] == 46
        && name[4] == 100 && name[5] == 97 && name[6] == 116;
    proof {
        if is_sidecar {
            assert(name@ =~= spec_sidecar_name());
        } else {
            if name@ == spec_sidecar_name() {
                assert(name@.len() == 7);
                assert(name@[0] == 120 && name@[1] == 111 && name@[2] == 114 && name@[3] == 46
                    && name@[4] == 100 && name@[5] == 97 && name@[6] == 116);
            }
        }
    }
    !is_sidecar
}

/// The per-file decision: skip the file, or transform it.
#[derive(Clone, Copy, Debug, PartialEq, Eq, Structural)]
pub enum Classification {
    Skip,
    Transform,
}

/// Classification of one file from its name and its first 4 bytes (`None`
/// when fewer than 4 bytes could be read). A file is transformed exactly when
/// it is a candidate data file whose header is the plain signature; every
/// other file — wrong name, the sidecar, too short, or already obfuscated —
/// is skipped.
pub open spec fn spec_classify(name: Seq<u8>, header: Option<Seq<u8>>) -> Classification {
    if is_candidate_name(name) && (header matches Some(h) && h == spec_signature()) {
        Classification::Transform
    } else {
        Classification::Skip
    }
}

/// The header bytes as a mathematical value.
pub open spec fn header_view(header: Option<Vec<u8>>) -> Option<Seq<u8>> {
    match header {
        Option::Some(h) => Option::Some(h@),
        Option::None => Option::None,
    }
}

/// Classifies one file from its name and its first 4 bytes.
pub fn classify(name: &Vec<u8>, header: &Option<Vec<u8>>) -> (c: Classification)
    ensures
        c == spec_classify(name@, header_view(*header)),
{
    if !check_candidate_name(name) {
        return Classification::Skip;
    }
    match header {
        Option::None => Classification::Skip,
        Option::Some(h) => {
            let raw = h.len() == 4 && h[0] == 0xf9 && h[1] == 0xbe && h[2] == 0xb4 && h[3] == 0xd9;
            proof {
                if raw {
                    assert(h@ =~= spec_signature());
                } else {
                    if h@ == spec_signature() {
                        assert(h@.len() == 4);
                        assert(h@[0] == 0xf9 && h@[1] == 0xbe && h@[2] == 0xb4 && h@[3] == 0xd9);
                    }
                }
            }
            if raw {
                Classification::Transform
            } else {
                Classification::Skip
            }
        },
    }
}

/// For a live key, a header that is the obfuscated form of the signature
/// (the signature XOR-ed with the key's first 4 bytes) never matches the
/// signature, so such a file is always skipped.
pub proof fn lemma_obfuscated_header_skipped(name: Seq<u8>, key: Seq<u8>)
    requires
        is_live(key),
    ensures
        spec_classify(name, Some(xor_with_key(spec_signature(), key, 0)))
            == Classification::Skip,
{
    let header = xor_with_key(spec_signature(), key, 0);
    assert(exists|i: int| 0 <= i < 4 && key[i] != 0);
    let i = choose|i: int| 0 <= i < 4 && key[i] != 0;
    assert(header[i] == spec_signature()[i] ^ key[i]);
    let b = spec_signature()[i];
    let k = key[i];
    assert(k != 0 ==> b ^ k != b) by (bit_vector);
    assert(header != spec_signature());
}

} // verus!
