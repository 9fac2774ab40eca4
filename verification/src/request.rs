//! Decoding a request URI into a typed operation, and the typed reasons a
//! request can be refused.
use vstd::prelude::*;

verus! {

broadcast use vstd::string::group_string_axioms;

use crate::pins::{GpioIndex, Level};
use crate::text::{dec_str, find_char_from, find_char_str, parse_u8_str, spec_parse_u8};

/// What a request asks for: read the pin, or write the given level.
#[derive(PartialEq, Eq, Structural, Debug)]
pub enum Operation {
    Get(),
    SetTo(Level),
}

/// A parsed request: the pin index it names and the operation to perform.
#[derive(PartialEq, Eq, Structural, Debug)]
pub struct OperationArgs {
    pub gpio_index: GpioIndex,
    pub operation: Operation,
}

/// The kinds of reason a request is refused.
#[derive(Clone, Copy, PartialEq, Eq, Structural, Debug)]
pub enum ErrKind {
    MissingQuery,
    UnrecognizedParameter,
    MissingOrInvalidPin,
    UnrecognizedOperation,
    MissingOrInvalidLevel,
    PinNotFound,
    NotWhitelistedForGet,
    NotWhitelistedForSet,
}

/// A refused request, with the offending parameter value or pin index where
/// one exists. Request-shape reasons carry the text they object to;
/// resolution and authorization reasons carry the pin index.
#[derive(Debug)]
pub enum RequestError {
    MissingQuery,
    UnrecognizedParameter(String),
    MissingOrInvalidPin(Option<String>),
    UnrecognizedOperation(Option<String>),
    MissingOrInvalidLevel(Option<String>),
    PinNotFound(GpioIndex),
    NotWhitelistedForGet(GpioIndex),
    NotWhitelistedForSet(GpioIndex),
}

impl RequestError {
    pub open spec fn kind(&self) -> ErrKind {
        match self {
            RequestError::MissingQuery => ErrKind::MissingQuery,
            RequestError::UnrecognizedParameter(_) => ErrKind::UnrecognizedParameter,
            RequestError::MissingOrInvalidPin(_) => ErrKind::MissingOrInvalidPin,
            RequestError::UnrecognizedOperation(_) => ErrKind::UnrecognizedOperation,
            RequestError::MissingOrInvalidLevel(_) => ErrKind::MissingOrInvalidLevel,
            RequestError::PinNotFound(_) => ErrKind::PinNotFound,
            RequestError::NotWhitelistedForGet(_) => ErrKind::NotWhitelistedForGet,
            RequestError::NotWhitelistedForSet(_) => ErrKind::NotWhitelistedForSet,
        }
    }

    /// The parameter text this reason objects to, where it carries one.
    pub open spec fn text(&self) -> Option<Seq<char>> {
        match self {
            RequestError::UnrecognizedParameter(s) => Some(s@),
            RequestError::MissingOrInvalidPin(o) => match o {
                Some(s) => Some(s@),
                None => None,
            },
            RequestError::UnrecognizedOperation(o) => match o {
                Some(s) => Some(s@),
                None => None,
            },
            RequestError::MissingOrInvalidLevel(o) => match o {
                Some(s) => Some(s@),
                None => None,
            },
            _ => None,
        }
    }

    /// The pin index this reason names, where it carries one.
    pub open spec fn err_idx(&self) -> GpioIndex {
        match self {
            RequestError::PinNotFound(i) => *i,
            RequestError::NotWhitelistedForGet(i) => *i,
            RequestError::NotWhitelistedForSet(i) => *i,
            _ => 0,
        }
    }

    pub open spec fn spec_message(&self) -> Seq<char> {
        message_text(self.kind(), self.text(), self.err_idx())
    }

    /// The human-readable reason string surfaced in the response body.
    pub fn message(&self) -> (r: String)
        ensures
            r@ == self.spec_message(),
    {
        match self {
            RequestError::MissingQuery => String::from_str("No arguments in URL."),
            RequestError::UnrecognizedParameter(s) => {
                let mut m = String::from_str("Unrecognized query parameter: \"");
                m.append(s.as_str());
                m.append("\"");
                m
            },
            RequestError::MissingOrInvalidPin(o) => match o {
                Some(s) => {
                    let mut m = String::from_str("Could not parse GPIO index: \"");
                    m.append(s.as_str());
                    m.append("\"");
                    m
                },
                None => String::from_str("Did not get required GPIO index argument."),
            },
            RequestError::UnrecognizedOperation(o) => match o {
                Some(s) => {
                    let mut m = String::from_str("Unrecognized operation parameter: \"");
                    m.append(s.as_str());
                    m.append("\"");
                    m
                },
                None => String::from_str("Did not get required operation argument."),
            },
            RequestError::MissingOrInvalidLevel(o) => match o {
                Some(s) => {
                    let mut m = String::from_str("Unrecognized level parameter: \"");
                    m.append(s.as_str());
                    m.append("\"");
                    m
                },
                None => String::from_str("Did not get level argument required for set."),
            },
            RequestError::PinNotFound(i) => {
                let mut m = String::from_str("Could not find pin ");
                m.append(crate::text::u8_to_string(*i).as_str());
                m.append(" in either map.");
                m
            },
            RequestError::NotWhitelistedForGet(i) => {
                let mut m = String::from_str("Pin, ");
                m.append(crate::text::u8_to_string(*i).as_str());
                m.append(", is not in the get whitelist for this pin type!");
                m
            },
            RequestError::NotWhitelistedForSet(i) => {
                let mut m = String::from_str("Pin, ");
                m.append(crate::text::u8_to_string(*i).as_str());
                m.append(", is not in the set whitelist for this pin type!");
                m
            },
        }
    }
}

/// The reason text for each kind of refusal.
pub open spec fn message_text(k: ErrKind, t: Option<Seq<char>>, idx: GpioIndex) -> Seq<char> {
    match k {
        ErrKind::MissingQuery => "No arguments in URL."@,
        ErrKind::UnrecognizedParameter => match t {
            Some(s) => "Unrecognized query parameter: \""@ + s + "\""@,
            None => "Unrecognized query parameter: \""@,
        },
        ErrKind::MissingOrInvalidPin => match t {
            Some(s) => "Could not parse GPIO index: \""@ + s + "\""@,
            None => "Did not get required GPIO index argument."@,
        },
        ErrKind::UnrecognizedOperation => match t {
            Some(s) => "Unrecognized operation parameter: \""@ + s + "\""@,
            None => "Did not get required operation argument."@,
        },
        ErrKind::MissingOrInvalidLevel => match t {
            Some(s) => "Unrecognized level parameter: \""@ + s + "\""@,
            None => "Did not get level argument required for set."@,
        },
        ErrKind::PinNotFound => "Could not find pin "@ + dec_str(idx as nat) + " in either map."@,
        ErrKind::NotWhitelistedForGet => "Pin, "@ + dec_str(idx as nat)
            + ", is not in the get whitelist for this pin type!"@,
        ErrKind::NotWhitelistedForSet => "Pin, "@ + dec_str(idx as nat)
            + ", is not in the set whitelist for this pin type!"@,
    }
}

/// What the parser decides for a request: a typed operation, or a refusal
/// with the text it objects to.
pub enum ParseOutcome {
    Parsed(OperationArgs),
    Rejected(ErrKind, Option<Seq<char>>),
}

/// Whether a typed result agrees with a parser decision.
pub open spec fn outcome_matches(
    r: Result<OperationArgs, RequestError>,
    o: ParseOutcome,
) -> bool {
    match o {
        ParseOutcome::Parsed(args) => r matches Ok(a) && a == args,
        ParseOutcome::Rejected(k, t) => r matches Err(e) && e.kind() == k && e.text() == t,
    }
}

/// The query keys the service recognizes.
pub open spec fn known_key(k: Seq<char>) -> bool {
    k == "pin"@ || k == "op"@ || k == "level"@
}

/// The position of the first pair with an unrecognized key, at or after `p`,
/// or -1 when there is none.
pub open spec fn first_unknown_from(pv: Seq<(Seq<char>, Seq<char>)>, p: int) -> int
    decreases pv.len() - p,
{
    if p < 0 || p >= pv.len() {
        -1
    } else if !known_key(pv[p].0) {
        p
    } else {
        first_unknown_from(pv, p + 1)
    }
}

pub proof fn lemma_first_unknown_from(pv: Seq<(Seq<char>, Seq<char>)>, p: int)
    requires
        0 <= p <= pv.len(),
    ensures
        first_unknown_from(pv, p) == -1 || p <= first_unknown_from(pv, p) < pv.len(),
        first_unknown_from(pv, p) == -1 ==> forall|k: int|
            p <= k < pv.len() ==> known_key(#[trigger] pv[k].0),
        first_unknown_from(pv, p) >= 0 ==> !known_key(pv[first_unknown_from(pv, p)].0)
            && forall|k: int| p <= k < first_unknown_from(pv, p) ==> known_key(#[trigger] pv[k].0),
    decreases pv.len() - p,
{
    if p < pv.len() && known_key(pv[p].0) {
        lemma_first_unknown_from(pv, p + 1);
    }
}

/// The value of the last pair carrying the given key, if any: a repeated
/// key's last occurrence wins.
pub open spec fn last_val(pv: Seq<(Seq<char>, Seq<char>)>, key: Seq<char>) -> Option<Seq<char>>
    decreases pv.len(),
{
    if pv.len() == 0 {
        None
    } else if pv.last().0 == key {
        Some(pv.last().1)
    } else {
        last_val(pv.drop_last(), key)
    }
}

/// What the parser decides for a sequence of decoded key/value pairs:
/// an unrecognized key refuses the whole request; then the pin index must
/// parse; then the operation must be `get`, or `set` with a `level` of
/// `high` or `low`. A `level` supplied with `get` is ignored.
pub open spec fn spec_parse_pairs(pv: Seq<(Seq<char>, Seq<char>)>) -> ParseOutcome {
    let fu = first_unknown_from(pv, 0);
    if fu >= 0 {
        ParseOutcome::Rejected(ErrKind::UnrecognizedParameter, Some(pv[fu].0))
    } else {
        match last_val(pv, "pin"@) {
            None => ParseOutcome::Rejected(ErrKind::MissingOrInvalidPin, None),
            Some(pin_text) => match spec_parse_u8(pin_text) {
                None => ParseOutcome::Rejected(ErrKind::MissingOrInvalidPin, Some(pin_text)),
                Some(n) => match last_val(pv, "op"@) {
                    None => ParseOutcome::Rejected(ErrKind::UnrecognizedOperation, None),
                    Some(op_text) => if op_text == "get"@ {
                        ParseOutcome::Parsed(
                            OperationArgs { gpio_index: n, operation: Operation::Get() },
                        )
                    } else if op_text == "set"@ {
                        match last_val(pv, "level"@) {
                            None => ParseOutcome::Rejected(ErrKind::MissingOrInvalidLevel, None),
                            Some(level_text) => if level_text == "high"@ {
                                ParseOutcome::Parsed(
                                    OperationArgs {
                                        gpio_index: n,
                                        operation: Operation::SetTo(Level::High),
                                    },
                                )
                            } else if level_text == "low"@ {
                                ParseOutcome::Parsed(
                                    OperationArgs {
                                        gpio_index: n,
                                        operation: Operation::SetTo(Level::Low),
                                    },
                                )
                            } else {
                                ParseOutcome::Rejected(
                                    ErrKind::MissingOrInvalidLevel,
                                    Some(level_text),
                                )
                            },
                        }
                    } else {
                        ParseOutcome::Rejected(ErrKind::UnrecognizedOperation, Some(op_text))
                    },
                },
            },
        }
    }
}

pub uninterp spec fn query_pairs_of(q: Seq<char>) -> Seq<(Seq<char>, Seq<char>)>;

/// Relies on form_urlencoded::parse: splits a query string on `&` and `=`
/// and percent-decodes each key and value. The resulting pairs depend on
/// the query text alone.
#[verifier::external_body]
fn parse_query_pairs(query: &str) -> (r: Vec<(String, String)>)
    ensures
        r.deep_view() == query_pairs_of(query@),
{
    form_urlencoded::parse(query.as_bytes()).into_owned().collect()
}

/// Turns decoded key/value pairs into a typed operation, exactly as
/// `spec_parse_pairs` decides.
#[verifier::loop_isolation(false)]
pub fn pairs_to_operation(pairs: &Vec<(String, String)>) -> (r: Result<
    OperationArgs,
    RequestError,
>)
    ensures
        outcome_matches(r, spec_parse_pairs(pairs.deep_view())),
{
    proof {
        reveal_strlit("pin");
        reveal_strlit("op");
        reveal_strlit("level");
        reveal_strlit("get");
        reveal_strlit("set");
        reveal_strlit("high");
        reveal_strlit("low");
        assert("pin"@.len() == 3);
        assert("op"@.len() == 2);
        assert("level"@.len() == 5);
    }
    let ghost pv = pairs.deep_view();
    let pin_key = String::from_str("pin");
    let op_key = String::from_str("op");
    let level_key = String::from_str("level");
    let mut pin_s: Option<String> = None;
    let mut op_s: Option<String> = None;
    let mut level_s: Option<String> = None;
    let mut i: usize = 0;
    while i < pairs.len()
        invariant
            pv == pairs.deep_view(),
            pv.len() == pairs@.len(),
            i <= pairs@.len(),
            pin_key@ == "pin"@ && op_key@ == "op"@ && level_key@ == "level"@,
            forall|k: int| 0 <= k < i ==> known_key(#[trigger] pv[k].0),
            match pin_s {
                Some(ss) => last_val(pv.take(i as int), "pin"@) == Some(ss@),
                None => last_val(pv.take(i as int), "pin"@) is None,
            },
            match op_s {
                Some(ss) => last_val(pv.take(i as int), "op"@) == Some(ss@),
                None => last_val(pv.take(i as int), "op"@) is None,
            },
            match level_s {
                Some(ss) => last_val(pv.take(i as int), "level"@) == Some(ss@),
                None => last_val(pv.take(i as int), "level"@) is None,
            },
        decreases pairs@.len() - i,
    {
        let pr = &pairs[i];
        proof {
            assert(pv[i as int] == (pairs@[i as int].0@, pairs@[i as int].1@));
        }
        if pr.0 == pin_key {
            pin_s = Some(pr.1.clone());
        } else if pr.0 == op_key {
            op_s = Some(pr.1.clone());
        } else if pr.0 == level_key {
            level_s = Some(pr.1.clone());
        } else {
            proof {
                lemma_first_unknown_from(pv, 0);
                let fu = first_unknown_from(pv, 0);
                assert(!known_key(pv[i as int].0));
                if fu == -1 {
                    assert(known_key(pv[i as int].0));
                    assert(false);
                } else if fu < i {
                    assert(known_key(pv[fu].0));
                    assert(false);
                } else if fu > i {
                    assert(known_key(pv[i as int].0));
                    assert(false);
                }
            }
            return Err(RequestError::UnrecognizedParameter(pr.0.clone()));
        }
        proof {
            let t1 = pv.take(i + 1);
            assert(t1.drop_last() =~= pv.take(i as int));
            assert(t1.last() == pv[i as int]);
            assert(last_val(t1, "pin"@) == (if pv[i as int].0 == "pin"@ {
                Some(pv[i as int].1)
            } else {
                last_val(pv.take(i as int), "pin"@)
            }));
            assert(last_val(t1, "op"@) == (if pv[i as int].0 == "op"@ {
                Some(pv[i as int].1)
            } else {
                last_val(pv.take(i as int), "op"@)
            }));
            assert(last_val(t1, "level"@) == (if pv[i as int].0 == "level"@ {
                Some(pv[i as int].1)
            } else {
                last_val(pv.take(i as int), "level"@)
            }));
        }
        i = i + 1;
    }
    proof {
        assert(pv.take(pv.len() as int) =~= pv);
        lemma_first_unknown_from(pv, 0);
        let fu = first_unknown_from(pv, 0);
        if fu >= 0 {
            assert(known_key(pv[fu].0));
            assert(false);
        }
    }
    let pin_text = match pin_s {
        Some(s) => s,
        None => {
            return Err(RequestError::MissingOrInvalidPin(None));
        },
    };
    let n = match parse_u8_str(pin_text.as_str()) {
        Some(n) => n,
        None => {
            return Err(RequestError::MissingOrInvalidPin(Some(pin_text)));
        },
    };
    let op_text = match op_s {
        Some(s) => s,
        None => {
            return Err(RequestError::UnrecognizedOperation(None));
        },
    };
    if op_text == String::from_str("get") {
        Ok(OperationArgs { gpio_index: n, operation: Operation::Get() })
    } else if op_text == String::from_str("set") {
        let level_text = match level_s {
            Some(s) => s,
            None => {
                return Err(RequestError::MissingOrInvalidLevel(None));
            },
        };
        if level_text == String::from_str("high") {
            Ok(OperationArgs { gpio_index: n, operation: Operation::SetTo(Level::High) })
        } else if level_text == String::from_str("low") {
            Ok(OperationArgs { gpio_index: n, operation: Operation::SetTo(Level::Low) })
        } else {
            Err(RequestError::MissingOrInvalidLevel(Some(level_text)))
        }
    } else {
        Err(RequestError::UnrecognizedOperation(Some(op_text)))
    }
}

/// What the whole pipeline decides for a request URI: without a query
/// component (no `?`) the request is refused; otherwise the decoded query
/// pairs decide.
pub open spec fn spec_uri_outcome(u: Seq<char>) -> ParseOutcome {
    let q = find_char_from(u, '?', 0);
    if q < 0 || q >= u.len() {
        ParseOutcome::Rejected(ErrKind::MissingQuery, None)
    } else {
        spec_parse_pairs(query_pairs_of(u.subrange(q + 1, u.len() as int)))
    }
}

/// Parses a request URI's query component into a typed operation. The query
/// component is what follows the first `?` of the URI text.
pub fn process_uri_into_operation(uri: &str) -> (r: Result<OperationArgs, RequestError>)
    ensures
        outcome_matches(r, spec_uri_outcome(uri@)),
{
    match find_char_str(uri, 0, '?') {
        None => Err(RequestError::MissingQuery),
        Some(q) => {
            let len = uri.unicode_len();
            let query = uri.substring_char(q + 1, len);
            let pairs = parse_query_pairs(query);
            pairs_to_operation(&pairs)
        },
    }
}

/// A valid `get` query parses to a Get operation on the pin it names: for
/// any pairs `pin=<n>, op=get`, the parser yields exactly
/// `Operation::Get()` on index `n`.
pub proof fn lemma_get_query_parses(pv: Seq<(Seq<char>, Seq<char>)>, n: GpioIndex)
    requires
        pv.len() == 2,
        pv[0].0 == "pin"@,
        spec_parse_u8(pv[0].1) == Some(n),
        pv[1] == ("op"@, "get"@),
    ensures
        spec_parse_pairs(pv) == ParseOutcome::Parsed(
            OperationArgs { gpio_index: n, operation: Operation::Get() },
        ),
{
    reveal_strlit("pin");
    reveal_strlit("op");
    reveal_strlit("level");
    reveal_strlit("get");
    reveal_with_fuel(first_unknown_from, 4);
    reveal_with_fuel(last_val, 4);
    assert("pin"@.len() == 3);
    assert("op"@.len() == 2);
    assert("pin"@ != "op"@);
    assert(pv.last() == pv[1]);
    assert(pv.last().0 != "pin"@);
    assert(last_val(pv, "pin"@) == last_val(pv.drop_last(), "pin"@));
    assert(last_val(seq![pv[0]], "pin"@) == Some(pv[0].1));
    assert(first_unknown_from(pv, 0) == -1);
    assert(pv.drop_last() =~= seq![pv[0]]);
    assert(seq![pv[0]].drop_last() =~= Seq::<(Seq<char>, Seq<char>)>::empty());
    assert(last_val(pv, "pin"@) == Some(pv[0].1));
    assert(last_val(pv, "op"@) == Some("get"@));
}

/// A valid `set` query parses to a Set operation with the level it names:
/// for any pairs `pin=<n>, op=set, level=high` the parser yields
/// `Operation::SetTo(High)` on index `n`, and analogously for `low`.
pub proof fn lemma_set_query_parses(pv: Seq<(Seq<char>, Seq<char>)>, n: GpioIndex, high: bool)
    requires
        pv.len() == 3,
        pv[0].0 == "pin"@,
        spec_parse_u8(pv[0].1) == Some(n),
        pv[1] == ("op"@, "set"@),
        pv[2].0 == "level"@,
        pv[2].1 == if high {
            "high"@
        } else {
            "low"@
        },
    ensures
        spec_parse_pairs(pv) == ParseOutcome::Parsed(
            OperationArgs {
                gpio_index: n,
                operation: Operation::SetTo(
                    if high {
                        Level::High
                    } else {
                        Level::Low
                    },
                ),
            },
        ),
{
    reveal_strlit("pin");
    reveal_strlit("op");
    reveal_strlit("level");
    reveal_strlit("get");
    reveal_strlit("set");
    reveal_strlit("high");
    reveal_strlit("low");
    reveal_with_fuel(first_unknown_from, 5);
    reveal_with_fuel(last_val, 5);
    assert("pin"@.len() == 3);
    assert("op"@.len() == 2);
    assert("level"@.len() == 5);
    assert("get"@[0] == 'g');
    assert("set"@[0] == 's');
    assert("high"@.len() == 4);
    assert("low"@.len() == 3);
    assert(first_unknown_from(pv, 0) == -1);
    assert(pv.drop_last() =~= seq![pv[0], pv[1]]);
    assert(seq![pv[0], pv[1]].drop_last() =~= seq![pv[0]]);
    assert(seq![pv[0]].drop_last() =~= Seq::<(Seq<char>, Seq<char>)>::empty());
    assert(pv.last() == pv[2]);
    assert(pv.last().0 != "pin"@ && pv.last().0 != "op"@);
    assert(last_val(pv, "pin"@) == last_val(seq![pv[0], pv[1]], "pin"@));
    assert(last_val(pv, "op"@) == last_val(seq![pv[0], pv[1]], "op"@));
    assert(seq![pv[0], pv[1]].last() == pv[1]);
    assert(last_val(seq![pv[0], pv[1]], "op"@) == Some("set"@));
    assert(last_val(seq![pv[0], pv[1]], "pin"@) == last_val(seq![pv[0]], "pin"@));
    assert(seq![pv[0]].last() == pv[0]);
    assert(last_val(seq![pv[0]], "pin"@) == Some(pv[0].1));
    assert(last_val(pv, "pin"@) == Some(pv[0].1));
    assert(last_val(pv, "op"@) == Some("set"@));
    assert(last_val(pv, "level"@) == Some(pv[2].1));
}

} // verus!
