//! Outside types that the library carries without looking inside.
use vstd::prelude::*;

verus! {

/// Makes `std::io::Error` known to Verus as an opaque type, so that the
/// library's error can carry it.
#[verifier::external_type_specification]
#[verifier::external_body]
pub struct ExIoError(std::io::Error);

/// Makes `serde_json::Error` known to Verus as an opaque type.
#[verifier::external_type_specification]
#[verifier::external_body]
pub struct ExJsonError(serde_json::Error);

/// Makes `mdns_sd::Error` known to Verus as an opaque type.
#[verifier::external_type_specification]
#[verifier::external_body]
pub struct ExMdnsError(mdns_sd::Error);

/// Makes `flume::RecvError` known to Verus as an opaque type.
#[verifier::external_type_specification]
#[verifier::external_body]
pub struct ExFlumeRecvError(flume::RecvError);

/// Makes `serde_json::Value` known to Verus as an opaque type, so that a
/// parsed JSON text can be handed on to the library's model.
#[verifier::external_type_specification]
#[verifier::external_body]
pub struct ExJsonValue(serde_json::Value);

} // verus!
