//! Encoding an operation outcome as a structured response body, and the
//! whole per-request pipeline: parse, execute, encode.
use vstd::prelude::*;

verus! {

use crate::execute::{board_op_rel, perform_board_operation, OperationResult, OperationStatus};
use crate::pins::Level;
use crate::registry::PinRegistry;
use crate::request::{
    message_text, process_uri_into_operation, spec_uri_outcome, ParseOutcome, RequestError,
};
use crate::text::dec_str;

pub open spec fn level_text(l: Level) -> Seq<char> {
    match l {
        Level::High => "high"@,
        Level::Low => "low"@,
    }
}

pub open spec fn status_text(st: OperationStatus) -> Seq<char> {
    match st {
        OperationStatus::Succeeded => "success"@,
        OperationStatus::Failed(m) => m@,
    }
}

/// The key/value pairs of a response body, in lexicographic key order.
pub open spec fn response_pairs(r: OperationResult) -> Seq<(Seq<char>, Seq<char>)> {
    match r {
        OperationResult::Get(st, lv, pin) => seq![
            ("level"@, level_text(lv)),
            ("operation"@, "get"@),
            ("pin"@, dec_str(pin as nat)),
            ("status"@, status_text(st)),
        ],
        OperationResult::SetTo(st, pin) => seq![
            ("operation"@, "set"@),
            ("pin"@, dec_str(pin as nat)),
            ("status"@, status_text(st)),
        ],
        OperationResult::Error(e) => seq![("error"@, e@)],
    }
}

/// The text a pin level is reported as.
pub fn level_to_str(level: &Level) -> (r: String)
    ensures
        r@ == level_text(*level),
{
    match level {
        Level::High => String::from_str("high"),
        Level::Low => String::from_str("low"),
    }
}

/// The text an operation status is reported as.
pub fn status_to_str(status: &OperationStatus) -> (r: String)
    ensures
        r@ == status_text(*status),
{
    match status {
        OperationStatus::Succeeded => String::from_str("success"),
        OperationStatus::Failed(message) => message.clone(),
    }
}

pub uninterp spec fn json_of(pairs: Seq<(Seq<char>, Seq<char>)>) -> Seq<char>;

/// Relies on serde_json::to_string over a BTreeMap<String, String>:
/// renders the given key/value pairs as one JSON object, a function of the
/// pairs alone. Per serde_json's documentation, serialization fails only
/// for a failing Serialize impl or a map with non-string keys, neither of
/// which a string-to-string map has, so the call returns Ok.
#[verifier::external_body]
fn json_object_string(pairs: &Vec<(String, String)>) -> (r: Result<String, String>)
    ensures
        r is Ok,
        r matches Ok(s) ==> s@ == json_of(pairs.deep_view()),
{
    let map: std::collections::BTreeMap<String, String> = pairs.iter().cloned().collect();
    match serde_json::to_string(&map) {
        Ok(s) => Ok(s),
        Err(e) => Err(e.to_string()),
    }
}

/// Encodes an outcome as a JSON object over the pairs `response_pairs`
/// gives: sorted keys, every field of the variant present.
pub fn generate_json_response(op_result: &OperationResult) -> (r: Result<String, String>)
    ensures
        r matches Ok(s) && s@ == json_of(response_pairs(*op_result)),
{
    let mut pairs: Vec<(String, String)> = Vec::new();
    match op_result {
        OperationResult::Get(status, level, pin) => {
            pairs.push((String::from_str("level"), level_to_str(level)));
            pairs.push((String::from_str("operation"), String::from_str("get")));
            pairs.push((String::from_str("pin"), crate::text::u8_to_string(*pin)));
            pairs.push((String::from_str("status"), status_to_str(status)));
            proof {
                assert(pairs.deep_view() =~= response_pairs(*op_result));
            }
        },
        OperationResult::SetTo(status, pin) => {
            pairs.push((String::from_str("operation"), String::from_str("set")));
            pairs.push((String::from_str("pin"), crate::text::u8_to_string(*pin)));
            pairs.push((String::from_str("status"), status_to_str(status)));
            proof {
                assert(pairs.deep_view() =~= response_pairs(*op_result));
            }
        },
        OperationResult::Error(e) => {
            pairs.push((String::from_str("error"), e.clone()));
            proof {
                assert(pairs.deep_view() =~= response_pairs(*op_result));
            }
        },
    }
    json_object_string(&pairs)
}

/// The reason text a failed board operation is wrapped in.
pub open spec fn board_error_text(msg: Seq<char>) -> Seq<char> {
    "Failed to perform board operation: \""@ + msg + "\""@
}

/// One whole request: parse the URI, execute the operation against the
/// registry, encode the outcome. Every request, well-formed or not, yields
/// exactly one response body; a refused request leaves the registry as it
/// was and reports the reason under the `error` key.
pub fn handle(registry: &mut PinRegistry, uri: &str) -> (r: String)
    requires
        old(registry).wf(),
    ensures
        final(registry).wf(),
        match spec_uri_outcome(uri@) {
            ParseOutcome::Rejected(k, t) => *final(registry) == *old(registry) && r@ == json_of(
                seq![("error"@, message_text(k, t, 0))],
            ),
            ParseOutcome::Parsed(op) => exists|res: Result<OperationResult, RequestError>|
                #![auto]
                board_op_rel(op, *old(registry), *final(registry), res) && r@ == (match res {
                    Ok(o) => json_of(response_pairs(o)),
                    Err(e) => json_of(seq![("error"@, board_error_text(e.spec_message()))]),
                }),
        },
{
    match process_uri_into_operation(uri) {
        Ok(op_args) => {
            let res = perform_board_operation(&op_args, registry);
            let ghost gres = res;
            let operation_result = match res {
                Ok(op_result) => op_result,
                Err(e) => {
                    let mut m = String::from_str("Failed to perform board operation: \"");
                    m.append(e.message().as_str());
                    m.append("\"");
                    OperationResult::Error(m)
                },
            };
            let json = match generate_json_response(&operation_result) {
                Ok(s) => s,
                Err(_) => {
                    proof {
                        assert(false);
                    }
                    String::new()
                },
            };
            proof {
                assert(board_op_rel(op_args, *old(registry), *registry, gres));
            }
            json
        },
        Err(e) => {
            let operation_result = OperationResult::Error(e.message());
            match generate_json_response(&operation_result) {
                Ok(s) => s,
                Err(_) => {
                    proof {
                        assert(false);
                    }
                    String::new()
                },
            }
        },
    }
}

} // verus!
