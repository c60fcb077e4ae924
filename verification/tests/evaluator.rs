use riskytrees::evalexpr_bridge::MAX_EXPRESSION_LEN;
use riskytrees::expression_evaluator::{de_json_condition, evaluate, get_key_vals};
use riskytrees::models::{ApiProjectConfigResponseResult, ConfigValue};

fn demo_config() -> ApiProjectConfigResponseResult {
    ApiProjectConfigResponseResult {
        id: "test".to_owned(),
        name: Some("Hello".to_owned()),
        attributes: ConfigValue::Object(vec![
            ("hello".to_owned(), ConfigValue::Text("world".to_owned())),
            ("other".to_owned(), ConfigValue::Truth(false)),
        ]),
    }
}

#[test]
fn test_test_runner() {
    assert_eq!(1 + 2, 3);
}

#[test]
fn test_de_json_condition() {
    let res = de_json_condition("config[\"hello\"] == \"world\"");
    assert_eq!(res, "config_hello == \"world\"");

    let res2 = de_json_condition("config[\"hello\"] == config[\"hello\"]");
    assert_eq!(res2, "config_hello == config_hello");
}

#[test]
fn test_expression_evaluation() {
    let config = demo_config();

    assert_eq!(evaluate("1 == 1", &config), true);
    assert_eq!(evaluate("\"test\" == \"test\"", &config), true);
    assert_eq!(evaluate("config[\"hello\"] == \"world\"", &config), true);
    assert_eq!(evaluate("config[\"hello\"] == \"test\"", &config), false);
    assert_eq!(evaluate("config[\"other\"] == false", &config), true);
}

#[test]
fn test_empty_condition_always_true() {
    assert_eq!(evaluate("", &demo_config()), true);

    // Holds whatever shape the attributes take, even one that yields
    // no bindings at all.
    let odd = ApiProjectConfigResponseResult {
        id: "odd".to_owned(),
        name: None,
        attributes: ConfigValue::Other,
    };
    assert_eq!(evaluate("", &odd), true);
}

#[test]
fn test_fail_closed_on_evaluation_failure() {
    let config = demo_config();

    // Unknown variable: resolves to false, not true and not an error.
    assert_eq!(evaluate("config[\"missing\"] == 1", &config), false);
    // Unparsable expression: same fail-closed policy.
    assert_eq!(evaluate("((", &config), false);
    // Type mismatch between a string binding and an integer literal.
    assert_eq!(evaluate("config[\"hello\"] == 1", &config), false);
}

#[test]
fn test_function_calls_fail_closed() {
    let config = demo_config();

    // Function calls are not part of the condition language: the
    // backend's builtin functions are switched off, so a call is an
    // evaluation failure and resolves to false rather than running
    // backend code with unchecked arithmetic.
    assert_eq!(evaluate("shl(1, 64) == 1", &config), false);
    assert_eq!(evaluate("min(1, 2) == 1", &config), false);
}

#[test]
fn test_overlong_condition_fails_closed() {
    let config = demo_config();

    // A condition beyond the expression-length bound is refused
    // before parsing and resolves to false.
    let mut long = String::from("1");
    while long.len() <= MAX_EXPRESSION_LEN {
        long.push_str("+1");
    }
    assert_eq!(evaluate(&long, &config), false);

    // A long condition within the bound still evaluates normally.
    let mut fine = String::from("1");
    for _ in 0..499 {
        fine.push_str("+1");
    }
    fine.push_str(" == 500");
    assert_eq!(evaluate(&fine, &config), true);
}

#[test]
fn test_unmatched_bracket_is_literal() {
    // A `]` outside any lookup key is kept as an ordinary character.
    assert_eq!(de_json_condition("a]b"), "a]b");
    // Quotes outside a lookup key are kept too.
    assert_eq!(de_json_condition("\"a\" == \"a\""), "\"a\" == \"a\"");
}

#[test]
fn test_flatten_nested_key() {
    let nested = vec![(
        "a".to_owned(),
        ConfigValue::Object(vec![("b".to_owned(), ConfigValue::Integer(5))]),
    )];
    let flat = get_key_vals(&nested);
    assert_eq!(flat.len(), 1);
    assert_eq!(flat[0].0, "a_b");
    assert!(matches!(flat[0].1, ConfigValue::Integer(5)));
}

#[test]
fn test_flatten_keeps_scalars_drops_the_rest() {
    let entries = vec![
        ("s".to_owned(), ConfigValue::Text("x".to_owned())),
        ("n".to_owned(), ConfigValue::Integer(7)),
        ("f".to_owned(), ConfigValue::Decimal(4608308318706860032u64)),
        ("b".to_owned(), ConfigValue::Truth(true)),
        ("z".to_owned(), ConfigValue::Other),
        (
            "o".to_owned(),
            ConfigValue::Object(vec![("inner".to_owned(), ConfigValue::Integer(1))]),
        ),
    ];
    let flat = get_key_vals(&entries);
    let names: Vec<&str> = flat.iter().map(|p| p.0.as_str()).collect();
    assert_eq!(names, vec!["s", "n", "f", "b", "o_inner"]);
}

#[test]
fn test_nested_lookup_evaluation() {
    let config = ApiProjectConfigResponseResult {
        id: "nested".to_owned(),
        name: None,
        attributes: ConfigValue::Object(vec![(
            "a".to_owned(),
            ConfigValue::Object(vec![("b".to_owned(), ConfigValue::Integer(5))]),
        )]),
    };
    assert_eq!(evaluate("config[\"a\"][\"b\"] == 5", &config), true);
    assert_eq!(evaluate("config[\"a\"][\"b\"] == 6", &config), false);
}
