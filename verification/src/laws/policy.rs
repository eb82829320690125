//! What a signature policy answers.
use vstd::prelude::*;

use crate::message::{MAVLinkMessageRaw, MAVLinkV2MessageRaw, MavlinkVersion, ReadVersion};
use crate::reader::decode::signature_is_valid;
use crate::signing::{SignatureVerifier, SigningData};

verus! {

/// The answer for a MAVLink 2 message is the verifier's, whatever version is asked for.
pub proof fn law_verifier_answers_for_the_second_version<V: SignatureVerifier>(
    message: MAVLinkV2MessageRaw,
    version: ReadVersion,
    signing_data: &SigningData<V>,
    valid: bool,
)
    requires
        call_ensures(
            signature_is_valid::<V>,
            (&MAVLinkMessageRaw::V2(message), version, signing_data),
            valid,
        ) || call_ensures(
            SigningData::<V>::verify_signature,
            (signing_data, &message),
            valid,
        ),
    ensures
        call_ensures(V::verify_signature, (&signing_data.verifier, &message), valid),
{
}

/// A MAVLink 1 message cannot be signed: it is accepted where unsigned messages are, or
/// where MAVLink 1 alone is asked for.
pub proof fn law_first_version_is_unsigned<V: SignatureVerifier>(
    raw: MAVLinkMessageRaw,
    version: ReadVersion,
    signing_data: &SigningData<V>,
    valid: bool,
)
    requires
        raw is V1,
        call_ensures(signature_is_valid::<V>, (&raw, version, signing_data), valid),
    ensures
        version == ReadVersion::Single(MavlinkVersion::V1) ==> valid,
        version != ReadVersion::Single(MavlinkVersion::V1) ==> valid
            == signing_data.config.allow_unsigned,
{
}

/// Asking for one version asks for that version.
pub proof fn law_single_version_is_asked_for(version: MavlinkVersion, asked: ReadVersion)
    requires
        call_ensures(<ReadVersion as From<MavlinkVersion>>::from, (version,), asked),
    ensures
        asked == ReadVersion::Single(version),
{
}

} // verus!
