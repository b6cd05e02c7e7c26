//! Parsing of identity blobs into principals.
//!
//! A blob is UTF-8 text of `;`-separated parts, such as
//! `id:acme-user-01;role:Operator`. An `id:` part with a non-empty value
//! sets the id, a `role:` part sets the role, later parts win, an unknown
//! role is malformed, and a missing id is malformed. The role defaults to
//! `Guest`.

use vstd::prelude::*;

verus! {

use crate::codec::string_eq;
use crate::identity::spec_trim;
use crate::identity::trim_str;
use vstd::string::{StrSliceExecFns, StringSliceAdditionalSpecFns};
use vstd::utf8::{decode_utf8, encode_utf8_decode_utf8, valid_utf8};

/// Who a verified blob speaks for.
#[derive(Debug, Clone, Copy, PartialEq, Eq, Structural)]
pub enum PrincipalRole {
    Root,
    Operator,
    Cartridge,
    Guest,
}

/// A verified principal: an id and a role.
#[derive(Debug, Clone, PartialEq, Eq)]
pub struct Principal {
    pub id: String,
    pub role: PrincipalRole,
}

/// Why a blob was rejected.
#[derive(Debug, Clone, Copy, PartialEq, Eq, Structural)]
pub enum IdentityError {
    EmptyBlob,
    InvalidUtf8,
    Malformed,
}

/// The verifier itself carries no state.
#[derive(Debug, Clone)]
pub struct IdentityVerifier;

/// Relies on core::str::from_utf8: succeeds exactly on valid UTF-8, and
/// then views the same bytes as text.
#[verifier::external_body]
fn bytes_to_str<'a>(v: &'a [u8]) -> (r: Option<&'a str>)
    ensures
        r is Some <==> valid_utf8(v@),
        r matches Some(s) ==> s.spec_bytes() == v@,
{
    match core::str::from_utf8(v) {
        Ok(s) => Some(s),
        Err(_) => None,
    }
}

/// The index of the first `;`, or the length when there is none.
pub open spec fn first_semi(s: Seq<char>) -> int
    decreases s.len(),
{
    if s.len() == 0 {
        0
    } else if s[0] == ';' {
        0
    } else {
        1 + first_semi(s.drop_first())
    }
}

pub proof fn lemma_first_semi_bounds(s: Seq<char>)
    ensures
        0 <= first_semi(s) <= s.len(),
        first_semi(s) < s.len() ==> s[first_semi(s)] == ';',
    decreases s.len(),
{
    if s.len() > 0 && s[0] != ';' {
        lemma_first_semi_bounds(s.drop_first());
    }
}

/// When the first `j` characters are not `;` and position `j` is the end or
/// a `;`, the first `;` is at `j`.
pub proof fn lemma_first_semi_at(s: Seq<char>, j: int)
    requires
        0 <= j <= s.len(),
        forall|i: int| 0 <= i < j ==> s[i] != ';',
        j == s.len() || s[j] == ';',
    ensures
        first_semi(s) == j,
    decreases j,
{
    if j > 0 {
        assert(s[0] != ';');
        lemma_first_semi_at(s.drop_first(), j - 1);
    }
}

/// What one trimmed part does to the scan state; `None` is a malformed
/// role.
pub open spec fn part_step(
    p: Seq<char>,
    id: Option<Seq<char>>,
    role: Option<PrincipalRole>,
) -> Option<(Option<Seq<char>>, Option<PrincipalRole>)> {
    if p.len() >= 3 && p.subrange(0, 3) == "id:"@ {
        let v = spec_trim(p.subrange(3, p.len() as int));
        if v.len() > 0 {
            Option::Some((Option::Some(v), role))
        } else {
            Option::Some((id, role))
        }
    } else if p.len() >= 5 && p.subrange(0, 5) == "role:"@ {
        match spec_role(spec_trim(p.subrange(5, p.len() as int))) {
            Option::Some(rl) => Option::Some((id, Option::Some(rl))),
            Option::None => Option::None,
        }
    } else {
        Option::Some((id, role))
    }
}

/// The role a value names, if any.
pub open spec fn spec_role(v: Seq<char>) -> Option<PrincipalRole> {
    if v == "Root"@ {
        Option::Some(PrincipalRole::Root)
    } else if v == "Operator"@ {
        Option::Some(PrincipalRole::Operator)
    } else if v == "Cartridge"@ {
        Option::Some(PrincipalRole::Cartridge)
    } else if v == "Guest"@ {
        Option::Some(PrincipalRole::Guest)
    } else {
        Option::None
    }
}

/// The whole scan: part by part, left to right, later parts winning.
pub open spec fn scan_str(
    s: Seq<char>,
    id: Option<Seq<char>>,
    role: Option<PrincipalRole>,
) -> Option<(Option<Seq<char>>, Option<PrincipalRole>)>
    decreases s.len(),
    via scan_str_decreases
{
    let k = first_semi(s);
    match part_step(spec_trim(s.subrange(0, k)), id, role) {
        Option::None => Option::None,
        Option::Some((id2, role2)) => {
            if k >= s.len() {
                Option::Some((id2, role2))
            } else {
                scan_str(s.skip(k + 1), id2, role2)
            }
        },
    }
}

#[via_fn]
proof fn scan_str_decreases(s: Seq<char>, id: Option<Seq<char>>, role: Option<PrincipalRole>) {
    lemma_first_semi_bounds(s);
}

/// The view of an optional owned string.
pub open spec fn opt_id_view(o: Option<String>) -> Option<Seq<char>> {
    match o {
        Option::None => Option::None,
        Option::Some(s) => Option::Some(s@),
    }
}

/// The role a scan yields, with `Guest` as the default.
pub open spec fn role_or_guest(role: Option<PrincipalRole>) -> PrincipalRole {
    match role {
        Option::None => PrincipalRole::Guest,
        Option::Some(rl) => rl,
    }
}

/// The full outcome of verifying a blob's decoded text.
pub open spec fn verify_post(chars: Seq<char>, r: Result<Principal, IdentityError>) -> bool {
    match scan_str(chars, Option::None, Option::None) {
        Option::None => r == Result::<Principal, IdentityError>::Err(IdentityError::Malformed),
        Option::Some((id, role)) => match id {
            Option::None => r == Result::<Principal, IdentityError>::Err(
                IdentityError::Malformed,
            ),
            Option::Some(idv) => (r matches Ok(p) && p.id@ == idv && p.role == role_or_guest(
                role,
            )),
        },
    }
}

impl IdentityVerifier {
    /// A stateless verifier.
    pub fn new() -> (v: Self) {
        IdentityVerifier
    }

    /// Parses an identity blob. An empty blob and invalid UTF-8 are
    /// rejected as such; otherwise the text is scanned part by part as the
    /// module header describes.
    pub fn verify(&self, identity_blob: &[u8]) -> (r: Result<Principal, IdentityError>)
        ensures
            identity_blob@.len() == 0 ==> r == Result::<Principal, IdentityError>::Err(
                IdentityError::EmptyBlob,
            ),
            identity_blob@.len() > 0 && !valid_utf8(identity_blob@) ==> r == Result::<
                Principal,
                IdentityError,
            >::Err(IdentityError::InvalidUtf8),
            identity_blob@.len() > 0 && valid_utf8(identity_blob@) ==> verify_post(
                decode_utf8(identity_blob@),
                r,
            ),
    {
        if identity_blob.len() == 0 {
            return Err(IdentityError::EmptyBlob);
        }
        let s = match bytes_to_str(identity_blob) {
            None => {
                return Err(IdentityError::InvalidUtf8);
            },
            Some(s) => s,
        };
        proof {
            encode_utf8_decode_utf8(s@);
            assert(decode_utf8(identity_blob@) == s@);
        }
        let len = s.unicode_len();
        let mut start: usize = 0;
        let mut id: Option<String> = None;
        let mut role: Option<PrincipalRole> = None;
        proof {
            assert(s@.skip(0) =~= s@);
        }
        loop
            invariant_except_break
                start <= len,
                len == s@.len(),
                identity_blob@.len() > 0,
                valid_utf8(identity_blob@),
                decode_utf8(identity_blob@) == s@,
                scan_str(s@, Option::None, Option::None) == scan_str(
                    s@.skip(start as int),
                    opt_id_view(id),
                    role,
                ),
            ensures
                scan_str(s@, Option::None, Option::None) == Option::Some(
                    (opt_id_view(id), role),
                ),
            decreases len - start,
        {
            let ghost suffix = s@.skip(start as int);
            let mut j: usize = start;
            while j < len && !(s.get_char(j) == ';')
                invariant
                    start <= j <= len,
                    len == s@.len(),
                    forall|i: int| start <= i < j ==> s@[i] != ';',
                decreases len - j,
            {
                j = j + 1;
            }
            proof {
                assert forall|i: int| 0 <= i < j - start implies suffix[i] != ';' by {
                    assert(suffix[i] == s@[start + i]);
                }
                if j < len {
                    assert(suffix[j - start] == s@[j as int]);
                }
                lemma_first_semi_at(suffix, j - start);
                assert(suffix.subrange(0, j - start) =~= s@.subrange(start as int, j as int));
            }
            let part_raw = s.substring_char(start, j);
            let p = trim_str(part_raw);
            let p_len = p.as_str().unicode_len();
            let ghost old_id = opt_id_view(id);
            let ghost old_role = role;
            if p_len >= 3 && string_eq(&p.as_str().substring_char(0, 3).to_owned(), &"id:".to_owned()) {
                let v = trim_str(p.as_str().substring_char(3, p_len));
                if v.as_str().unicode_len() > 0 {
                    id = Some(v);
                }
            } else if p_len >= 5 && string_eq(
                &p.as_str().substring_char(0, 5).to_owned(),
                &"role:".to_owned(),
            ) {
                let v = trim_str(p.as_str().substring_char(5, p_len));
                if string_eq(&v, &"Root".to_owned()) {
                    role = Some(PrincipalRole::Root);
                } else if string_eq(&v, &"Operator".to_owned()) {
                    role = Some(PrincipalRole::Operator);
                } else if string_eq(&v, &"Cartridge".to_owned()) {
                    role = Some(PrincipalRole::Cartridge);
                } else if string_eq(&v, &"Guest".to_owned()) {
                    role = Some(PrincipalRole::Guest);
                } else {
                    proof {
                        assert(part_step(p@, old_id, old_role) is None);
                        assert(scan_str(s@, Option::None, Option::None) is None);
                    }
                    return Err(IdentityError::Malformed);
                }
            }
            proof {
                assert(p@ == spec_trim(suffix.subrange(0, first_semi(suffix))));
                assert(part_step(p@, old_id, old_role) == Option::Some(
                    (opt_id_view(id), role),
                ));
                if j < len {
                    assert(suffix.skip(j - start + 1) =~= s@.skip(j + 1));
                }
            }
            if j >= len {
                break ;
            }
            start = j + 1;
        }
        match id {
            None => Err(IdentityError::Malformed),
            Some(idv) => Ok(
                Principal {
                    id: idv,
                    role: match role {
                        None => PrincipalRole::Guest,
                        Some(rl) => rl,
                    },
                },
            ),
        }
    }
}

} // verus!
