use std::collections::HashSet;

use hypibole::{
    handle, parse_gpio_list, perform_board_operation, process_uri_into_operation, Level,
    Operation, OperationArgs, OperationResult, PinRegistry, PinSet, RequestError, SimulatedPin,
};
use hypibole::pins::{level_from_bool, DiscreteIO};

fn registry_of(
    gets: &str,
    sets: &str,
    simgets: &str,
    simsets: &str,
) -> PinRegistry {
    let pin_set = PinSet {
        get_whitelist: parse_gpio_list(gets).expect("gets"),
        set_whitelist: parse_gpio_list(sets).expect("sets"),
        get_simulated: parse_gpio_list(simgets).expect("simgets"),
        set_simulated: parse_gpio_list(simsets).expect("simsets"),
    };
    PinRegistry::build(pin_set).expect("registry construction")
}

#[test]
fn test_parse_gpio_list() {
    let expected_set: HashSet<u8> = HashSet::from([1, 2, 3, 4, 5, 6, 7, 8, 9, 10]);
    let test_str = "1,2,3,4,5,6,7,8,9,10";

    let result_set: HashSet<u8> = parse_gpio_list(test_str)
        .expect("parse_gpio_list function failed!")
        .into_iter()
        .collect();

    assert_eq!(expected_set, result_set);
}

#[test]
fn test_process_uri_into_operation() {
    let cases = vec![
        (
            "http://hypibole.fun/?pin=1&op=get",
            OperationArgs { gpio_index: 1, operation: Operation::Get() },
        ),
        (
            "http://hypibole.fun/?pin=2&op=get",
            OperationArgs { gpio_index: 2, operation: Operation::Get() },
        ),
        (
            "http://hypibole.fun/?pin=3&op=set&level=high",
            OperationArgs { gpio_index: 3, operation: Operation::SetTo(Level::High) },
        ),
        (
            "http://hypibole.fun/?pin=4&op=set&level=low",
            OperationArgs { gpio_index: 4, operation: Operation::SetTo(Level::Low) },
        ),
    ];

    for (uri, expected) in &cases {
        let result = process_uri_into_operation(uri).expect("process_uri_into_operation failure!");
        assert_eq!(result, *expected);
    }

    let bad_uris = vec![
        "http://hypibole.fun/?pin=1&op=set",
        "http://hypibole.fun/?pin=string&op=set",
        "http://hypibole.fun/?pin=1&op=bigyawn",
        "http://hypibole.fun/?pin=1&op=set&level=somewhereinthemiddle",
        "This is not even close to a valid URI.",
    ];

    for bad_uri in bad_uris {
        match process_uri_into_operation(bad_uri) {
            Ok(_) => panic!("These calls should never succeed!"),
            Err(e) => println!("Got expected error: \"{}\"", e.message()),
        }
    }
}

#[test]
fn test_simulated_pin() {
    let mut simulated_pin = SimulatedPin::new();
    for i in 0..100 {
        println!(".");
        let level = if i % 2 == 0 { Level::High } else { Level::Low };

        simulated_pin.set_state(&level);
        assert_eq!(level, simulated_pin.get_state());
    }
}

#[test]
fn level_from_bool_maps_exactly() {
    assert_eq!(level_from_bool(true), Level::High);
    assert_eq!(level_from_bool(false), Level::Low);
}

#[test]
fn parse_gpio_list_empty_string_is_empty_set() {
    let result = parse_gpio_list("").expect("empty list");
    assert!(result.is_empty());
}

#[test]
fn parse_gpio_list_skips_empty_entries_and_dedups() {
    let result: HashSet<u8> = parse_gpio_list("5,,7,5,").expect("list").into_iter().collect();
    assert_eq!(result, HashSet::from([5, 7]));
}

#[test]
fn parse_gpio_list_rejects_bad_entries() {
    assert!(parse_gpio_list("foo").is_err());
    assert!(parse_gpio_list("1,2,abc").is_err());
    assert!(parse_gpio_list("300").is_err());
    assert!(parse_gpio_list("-1").is_err());
}

#[test]
fn parser_rejects_unknown_parameter() {
    match process_uri_into_operation("http://host/?pin=1&op=get&color=red") {
        Err(RequestError::UnrecognizedParameter(k)) => assert_eq!(k, "color"),
        other => panic!("expected UnrecognizedParameter, got {:?}", other),
    }
}

#[test]
fn parser_rejects_missing_pin() {
    match process_uri_into_operation("http://host/?op=get") {
        Err(RequestError::MissingOrInvalidPin(None)) => {}
        other => panic!("expected MissingOrInvalidPin, got {:?}", other),
    }
}

#[test]
fn parser_rejects_bad_pin_value() {
    match process_uri_into_operation("http://host/?pin=999&op=get") {
        Err(RequestError::MissingOrInvalidPin(Some(v))) => assert_eq!(v, "999"),
        other => panic!("expected MissingOrInvalidPin, got {:?}", other),
    }
}

#[test]
fn parser_rejects_missing_op() {
    match process_uri_into_operation("http://host/?pin=1") {
        Err(RequestError::UnrecognizedOperation(None)) => {}
        other => panic!("expected UnrecognizedOperation, got {:?}", other),
    }
}

#[test]
fn parser_rejects_missing_level_on_set() {
    match process_uri_into_operation("http://host/?pin=1&op=set") {
        Err(RequestError::MissingOrInvalidLevel(None)) => {}
        other => panic!("expected MissingOrInvalidLevel, got {:?}", other),
    }
}

#[test]
fn parser_rejects_bad_level_value() {
    match process_uri_into_operation("http://host/?pin=1&op=set&level=medium") {
        Err(RequestError::MissingOrInvalidLevel(Some(v))) => assert_eq!(v, "medium"),
        other => panic!("expected MissingOrInvalidLevel, got {:?}", other),
    }
}

#[test]
fn parser_ignores_level_on_get() {
    let result = process_uri_into_operation("http://host/?pin=1&op=get&level=garbage")
        .expect("get with stray level is accepted");
    assert_eq!(result, OperationArgs { gpio_index: 1, operation: Operation::Get() });
}

#[test]
fn parser_last_repeated_key_wins() {
    let result = process_uri_into_operation("http://host/?pin=1&pin=2&op=get").expect("parse");
    assert_eq!(result, OperationArgs { gpio_index: 2, operation: Operation::Get() });
}

#[test]
fn parser_percent_decodes_query() {
    let result = process_uri_into_operation("http://host/?pin=1&op=%67et").expect("decoded get");
    assert_eq!(result, OperationArgs { gpio_index: 1, operation: Operation::Get() });
}

#[test]
fn not_found_wins_over_whitelist() {
    // Index 7 is get-whitelisted, but no physical map was built (the
    // set-whitelist is empty) and nothing is simulated: not found, not a
    // whitelist refusal.
    let mut registry = registry_of("7", "", "", "");
    let op = OperationArgs { gpio_index: 7, operation: Operation::Get() };
    match perform_board_operation(&op, &mut registry) {
        Err(RequestError::PinNotFound(7)) => {}
        other => panic!("expected PinNotFound, got {:?}", other),
    }
}

#[test]
fn error_messages_are_exact() {
    assert_eq!(RequestError::MissingQuery.message(), "No arguments in URL.");
    assert_eq!(
        RequestError::UnrecognizedParameter("color".to_string()).message(),
        "Unrecognized query parameter: \"color\""
    );
    assert_eq!(
        RequestError::PinNotFound(7).message(),
        "Could not find pin 7 in either map."
    );
    assert_eq!(
        RequestError::NotWhitelistedForGet(250).message(),
        "Pin, 250, is not in the get whitelist for this pin type!"
    );
    assert_eq!(
        RequestError::NotWhitelistedForSet(0).message(),
        "Pin, 0, is not in the set whitelist for this pin type!"
    );
}

#[test]
fn scenario_simulated_round_trip() {
    // Simulated pins 1 and 2 are gettable, only 2 is settable.
    let mut registry = registry_of("", "", "1,2", "2");

    // A fresh simulated pin reads Low.
    let body = handle(&mut registry, "http://host/?pin=1&op=get");
    assert_eq!(
        body,
        "{\"level\":\"low\",\"operation\":\"get\",\"pin\":\"1\",\"status\":\"success\"}"
    );

    // Pin 1 is not settable.
    let body = handle(&mut registry, "http://host/?pin=1&op=set&level=high");
    assert_eq!(
        body,
        "{\"error\":\"Failed to perform board operation: \\\"Pin, 1, is not in the set whitelist for this pin type!\\\"\"}"
    );

    // Writing pin 2 high, then reading it back, reports High.
    let body = handle(&mut registry, "http://host/?pin=2&op=set&level=high");
    assert_eq!(body, "{\"operation\":\"set\",\"pin\":\"2\",\"status\":\"success\"}");
    let body = handle(&mut registry, "http://host/?pin=2&op=get");
    assert_eq!(
        body,
        "{\"level\":\"high\",\"operation\":\"get\",\"pin\":\"2\",\"status\":\"success\"}"
    );
}

#[test]
fn no_query_string_yields_error_body() {
    let mut registry = registry_of("", "", "", "");
    let body = handle(&mut registry, "This is not even close to a valid URI.");
    assert_eq!(body, "{\"error\":\"No arguments in URL.\"}");
}

#[test]
fn unrecognized_operation_names_the_value() {
    let mut registry = registry_of("", "", "", "");
    let body = handle(&mut registry, "http://host/?pin=5&op=jump");
    assert_eq!(
        body,
        "{\"error\":\"Unrecognized operation parameter: \\\"jump\\\"\"}"
    );
}

#[test]
fn get_simulated_precedence_is_against_physical_set_whitelist() {
    // Pin 3 is simulated-settable but not simulated-gettable; it still gets
    // a simulated entry and refuses a get with a whitelist reason.
    let mut registry = registry_of("", "", "", "3");
    let op = OperationArgs { gpio_index: 3, operation: Operation::Get() };
    match perform_board_operation(&op, &mut registry) {
        Err(RequestError::NotWhitelistedForGet(3)) => {}
        other => panic!("expected NotWhitelistedForGet, got {:?}", other),
    }
    let op = OperationArgs { gpio_index: 3, operation: Operation::SetTo(Level::High) };
    match perform_board_operation(&op, &mut registry) {
        Ok(OperationResult::SetTo(_, 3)) => {}
        _ => panic!("expected set success on pin 3"),
    }
}
