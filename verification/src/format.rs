use vstd::prelude::*;

verus! {

// ---------------------------------------------------------------------------
// Pluggable deserialization formats.
// ---------------------------------------------------------------------------

/// Names the outcome of `serde_json::from_slice::<serde_json::Value>` on
/// given bytes: whether they parse as one JSON document. The outcome is a
/// function of the bytes alone.
pub uninterp spec fn json_parses(bytes: Seq<u8>) -> bool;

/// The declaration of `serde_json::Value`, so that parsed documents may
/// pass through signatures; the library never looks inside one.
#[verifier::external_type_specification]
#[verifier::external_body]
pub struct ExJsonValue(serde_json::Value);

/// Relies on `serde_json::from_slice`: parses the bytes as one JSON
/// document into a `serde_json::Value`, succeeding exactly when the bytes
/// are valid JSON; the error case carries serde_json's own description of
/// the cause.
#[verifier::external_body]
fn json_from_bytes(bytes: &Vec<u8>) -> (r: Result<serde_json::Value, String>)
    ensures
        r is Ok <==> json_parses(bytes@),
{
    serde_json::from_slice::<serde_json::Value>(bytes.as_slice()).map_err(|e| e.to_string())
}

/// A pluggable strategy for turning a secret file's bytes into a typed
/// value, bound to one file extension. Further formats plug in by
/// implementing these two methods; the accessor itself never changes.
pub trait Format: Sized {
    /// The typed value this format produces.
    type Value;

    /// The file extension this format expects, at the specification level.
    spec fn spec_extension(&self) -> Seq<char>;

    /// Whether the given bytes deserialize successfully under this format.
    spec fn spec_parses(&self, bytes: Seq<u8>) -> bool;

    /// The file extension expected of a source file read in this format.
    fn extension(&self) -> (r: &str)
        ensures
            r@ == self.spec_extension(),
    ;

    /// Deserializes `bytes` into a value, or reports the underlying
    /// cause's description.
    fn deserialize(&self, bytes: &Vec<u8>) -> (r: Result<Self::Value, String>)
        ensures
            r is Ok <==> self.spec_parses(bytes@),
    ;
}

/// The JSON file format: deserializes a secret file's bytes as one JSON
/// document.
#[derive(Debug)]
pub struct JsonFormat;

impl Format for JsonFormat {
    type Value = serde_json::Value;

    open spec fn spec_extension(&self) -> Seq<char> {
        "json"@
    }

    open spec fn spec_parses(&self, bytes: Seq<u8>) -> bool {
        json_parses(bytes)
    }

    fn extension(&self) -> (r: &str) {
        "json"
    }

    fn deserialize(&self, bytes: &Vec<u8>) -> (r: Result<serde_json::Value, String>) {
        json_from_bytes(bytes)
    }
}

} // verus!
