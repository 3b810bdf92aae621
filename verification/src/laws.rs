//! Cross-cutting laws of the codec, stated over the specification functions
//! that the executable contracts use.

use vstd::prelude::*;

use crate::claims::{lemma_parse_ser_claims, spec_parse_claims, spec_ser_claims};
use crate::principal::{lemma_parse_ser_user, spec_parse_user, spec_ser_user};
use crate::token::VALIDITY_SECONDS;

verus! {

/// The round trip: what issuance writes for a principal — the serialized
/// principal, framed into a claims object with `iat = now` and
/// `exp = now + 24h` — is read back unchanged, layer by layer.  Together with
/// `validate_token`'s contract, which returns exactly the claims of the one
/// token issuance produces, deserializing a validated fresh token always
/// yields the principal that was issued.
pub proof fn lemma_principal_round_trip(uid: Seq<u8>, now: u64, secret: Seq<u8>)
    requires
        now + VALIDITY_SECONDS <= u64::MAX,
    ensures
        spec_parse_claims(
            spec_ser_claims(spec_ser_user(uid), (now + VALIDITY_SECONDS) as u64, now),
        ) == Some((spec_ser_user(uid), (now + VALIDITY_SECONDS) as u64, now)),
        spec_parse_user(spec_ser_user(uid)) == Some(uid),
{
    lemma_parse_ser_claims(spec_ser_user(uid), (now + VALIDITY_SECONDS) as u64, now);
    lemma_parse_ser_user(uid);
}

} // verus!
