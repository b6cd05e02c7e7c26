//! Deterministic identity fingerprints and proofs.
//!
//! Not cryptographically secure: fingerprints and proofs are deterministic
//! hashes over stable interfaces, so the scheme can be swapped for real
//! signatures later with no API break.

use vstd::prelude::*;

verus! {

use crate::codec::{append_bytes, hash_bytes, spec_hash_hex, string_eq};
use vstd::string::{StrSliceExecFns, StringSliceAdditionalSpecFns};
use vstd::utf8::encode_utf8;

/// Why an identity could not be built or a proof was rejected.
#[derive(Debug, Clone, Copy, PartialEq, Eq, Structural)]
pub enum IdentityError {
    InvalidSubjectId,
    InvalidPublicKey,
    VerificationFailed,
}

/// A minimal identity record. The fingerprint is SHA-256 of the public key
/// bytes, as lowercase hex.
#[derive(Debug, Clone, PartialEq, Eq)]
pub struct Identity {
    pub subject_id: String,
    pub pubkey_fingerprint: String,
}

/// A deterministic proof that an identity authorized a message.
#[derive(Debug, Clone, PartialEq, Eq)]
pub struct IdentityProof {
    pub subject_id: String,
    pub pubkey_fingerprint: String,
    pub message_hash: String,
    pub proof_hash: String,
}

/// The whitespace characters stripped from the ends of a subject id.
pub open spec fn is_ws(c: char) -> bool {
    c == ' ' || c == '\t' || c == '\n' || c == '\r'
}

/// A string with its leading whitespace removed.
pub open spec fn spec_trim_front(s: Seq<char>) -> Seq<char>
    decreases s.len(),
{
    if s.len() > 0 && is_ws(s[0]) {
        spec_trim_front(s.drop_first())
    } else {
        s
    }
}

/// A string with its trailing whitespace removed.
pub open spec fn spec_trim_back(s: Seq<char>) -> Seq<char>
    decreases s.len(),
{
    if s.len() > 0 && is_ws(s.last()) {
        spec_trim_back(s.drop_last())
    } else {
        s
    }
}

/// A string with whitespace removed from both ends.
pub open spec fn spec_trim(s: Seq<char>) -> Seq<char> {
    spec_trim_back(spec_trim_front(s))
}

/// Removes whitespace from both ends.
pub fn trim_str(s: &str) -> (r: String)
    ensures
        r@ == spec_trim(s@),
{
    let len = s.unicode_len();
    proof {
        assert(s@.skip(0) =~= s@);
    }
    let mut a: usize = 0;
    loop
        invariant_except_break
            a <= len,
            len == s@.len(),
            spec_trim_front(s@) == spec_trim_front(s@.skip(a as int)),
        ensures
            a <= len,
            len == s@.len(),
            spec_trim_front(s@) == s@.skip(a as int),
        decreases len - a,
    {
        if a >= len {
            proof {
                assert(s@.skip(a as int) =~= Seq::<char>::empty());
            }
            break ;
        }
        let c = s.get_char(a);
        if !(c == ' ' || c == '\t' || c == '\n' || c == '\r') {
            proof {
                assert(s@.skip(a as int)[0] == s@[a as int]);
            }
            break ;
        }
        proof {
            assert(s@.skip(a as int)[0] == s@[a as int]);
            assert(s@.skip(a as int).drop_first() =~= s@.skip(a + 1));
        }
        a = a + 1;
    }
    let mut b: usize = len;
    proof {
        assert(s@.skip(a as int) =~= s@.subrange(a as int, len as int));
    }
    loop
        invariant_except_break
            a <= b <= len,
            len == s@.len(),
            spec_trim_front(s@) == s@.skip(a as int),
            spec_trim_back(s@.subrange(a as int, len as int)) == spec_trim_back(
                s@.subrange(a as int, b as int),
            ),
        ensures
            a <= b <= len,
            len == s@.len(),
            spec_trim_front(s@) == s@.skip(a as int),
            spec_trim_back(s@.subrange(a as int, len as int)) == s@.subrange(a as int, b as int),
        decreases b,
    {
        if b <= a {
            proof {
                assert(s@.subrange(a as int, b as int) =~= Seq::<char>::empty());
            }
            break ;
        }
        let c = s.get_char(b - 1);
        if !(c == ' ' || c == '\t' || c == '\n' || c == '\r') {
            proof {
                assert(s@.subrange(a as int, b as int).last() == s@[b - 1]);
            }
            break ;
        }
        proof {
            assert(s@.subrange(a as int, b as int).last() == s@[b - 1]);
            assert(s@.subrange(a as int, b as int).drop_last() =~= s@.subrange(a as int, b - 1));
        }
        b = b - 1;
    }
    proof {
        assert(s@.skip(a as int) =~= s@.subrange(a as int, len as int));
        assert(spec_trim(s@) == s@.subrange(a as int, b as int));
    }
    s.substring_char(a, b).to_owned()
}

/// The bytes an identity proof hashes: `fingerprint : message_hash`.
pub open spec fn proof_preimage(fp: Seq<char>, msg: Seq<char>) -> Seq<u8> {
    encode_utf8(fp) + seq![58u8] + encode_utf8(msg)
}

impl Identity {
    /// Builds an identity from a subject id and raw public key bytes. The
    /// subject id is trimmed; an id that is empty after trimming, or an
    /// empty key, is rejected.
    pub fn new(subject_id: &str, pubkey_bytes: &[u8]) -> (r: Result<Identity, IdentityError>)
        ensures
            spec_trim(subject_id@).len() == 0 ==> r == Result::<Identity, IdentityError>::Err(
                IdentityError::InvalidSubjectId,
            ),
            spec_trim(subject_id@).len() > 0 && pubkey_bytes@.len() == 0 ==> r == Result::<
                Identity,
                IdentityError,
            >::Err(IdentityError::InvalidPublicKey),
            spec_trim(subject_id@).len() > 0 && pubkey_bytes@.len() > 0 ==> (r matches Ok(id)
                && id.subject_id@ == spec_trim(subject_id@) && id.pubkey_fingerprint@
                == spec_hash_hex(pubkey_bytes@)),
            r is Ok <==> spec_trim(subject_id@).len() > 0 && pubkey_bytes@.len() > 0,
    {
        let trimmed = trim_str(subject_id);
        if trimmed.as_str().unicode_len() == 0 {
            return Err(IdentityError::InvalidSubjectId);
        }
        if pubkey_bytes.len() == 0 {
            return Err(IdentityError::InvalidPublicKey);
        }
        let pubkey_fingerprint = hash_bytes(pubkey_bytes);
        Ok(Identity { subject_id: trimmed, pubkey_fingerprint })
    }

    /// Produces the deterministic proof for a message hash:
    /// SHA-256 over `fingerprint : message_hash`.
    pub fn prove(&self, message_hash: &str) -> (p: IdentityProof)
        ensures
            p.subject_id@ == self.subject_id@,
            p.pubkey_fingerprint@ == self.pubkey_fingerprint@,
            p.message_hash@ == message_hash@,
            p.proof_hash@ == spec_hash_hex(
                proof_preimage(self.pubkey_fingerprint@, message_hash@),
            ),
    {
        let mut preimage: Vec<u8> = Vec::new();
        append_bytes(&mut preimage, self.pubkey_fingerprint.as_str().as_bytes());
        preimage.push(58u8);
        append_bytes(&mut preimage, message_hash.as_bytes());
        proof {
            assert(preimage@ =~= proof_preimage(self.pubkey_fingerprint@, message_hash@));
        }
        let proof_hash = hash_bytes(preimage.as_slice());
        IdentityProof {
            subject_id: self.subject_id.clone(),
            pubkey_fingerprint: self.pubkey_fingerprint.clone(),
            message_hash: message_hash.to_owned(),
            proof_hash,
        }
    }

    /// Verifies a proof against this identity: the subject, the fingerprint
    /// and the recomputed proof hash must all match.
    pub fn verify(&self, p: &IdentityProof) -> (r: Result<(), IdentityError>)
        ensures
            r is Ok <==> (p.subject_id@ == self.subject_id@ && p.pubkey_fingerprint@
                == self.pubkey_fingerprint@ && p.proof_hash@ == spec_hash_hex(
                proof_preimage(self.pubkey_fingerprint@, p.message_hash@),
            )),
            r matches Err(e) ==> e == IdentityError::VerificationFailed,
    {
        if !string_eq(&p.subject_id, &self.subject_id) {
            return Err(IdentityError::VerificationFailed);
        }
        if !string_eq(&p.pubkey_fingerprint, &self.pubkey_fingerprint) {
            return Err(IdentityError::VerificationFailed);
        }
        let mut preimage: Vec<u8> = Vec::new();
        append_bytes(&mut preimage, self.pubkey_fingerprint.as_str().as_bytes());
        preimage.push(58u8);
        append_bytes(&mut preimage, p.message_hash.as_str().as_bytes());
        proof {
            assert(preimage@ =~= proof_preimage(self.pubkey_fingerprint@, p.message_hash@));
        }
        let expected = hash_bytes(preimage.as_slice());
        if !string_eq(&expected, &p.proof_hash) {
            return Err(IdentityError::VerificationFailed);
        }
        Ok(())
    }
}

/// SHA-256 of arbitrary bytes, as a lowercase hex string.
pub fn sha256_hex(bytes: &[u8]) -> (r: String)
    ensures
        r@ == spec_hash_hex(bytes@),
        r@.len() == 64,
{
    hash_bytes(bytes)
}

} // verus!
