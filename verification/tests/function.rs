use rule_engine::error::{EngineError, FunctionName, Operand};
use rule_engine::function::SingleInputFunction;
use rule_engine::number::Number;
use rule_engine::value::{Datum, Text};

fn text(s: &str) -> Datum {
    let reading = s.parse::<f64>().ok().map(|x| Number::from_bits(x.to_bits()));
    Datum::String(Text::new(s.to_string(), reading))
}

fn number(x: f64) -> Datum {
    Datum::Number(Number::from_bits(x.to_bits()))
}

fn texts(items: &[&str]) -> Vec<Datum> {
    items.iter().map(|s| text(s)).collect()
}

fn apply(function: SingleInputFunction, input: &str, args: &[&str]) -> Result<bool, EngineError> {
    rule_engine::function::default(function, &text(input), &texts(args))
}

fn all_functions() -> Vec<SingleInputFunction> {
    vec![
        SingleInputFunction::Empty,
        SingleInputFunction::NonEmpty,
        SingleInputFunction::Equal,
        SingleInputFunction::Greater,
        SingleInputFunction::GreaterEq,
        SingleInputFunction::Lower,
        SingleInputFunction::LowerEq,
        SingleInputFunction::Between,
        SingleInputFunction::BetweenEq,
        SingleInputFunction::NotBetween,
        SingleInputFunction::NotBetweenEq,
        SingleInputFunction::EqualIgnoreCase,
        SingleInputFunction::EqualAny,
        SingleInputFunction::EqualAnyIgnoreCase,
        SingleInputFunction::NotEqualAny,
        SingleInputFunction::StartsWith,
        SingleInputFunction::StartsWithIgnoreCase,
        SingleInputFunction::EndsWith,
        SingleInputFunction::EndsWithIgnoreCase,
        SingleInputFunction::Contains,
        SingleInputFunction::ContainsIgnoreCase,
    ]
}

#[test]
fn test_default_single_input_functions() {
    let default_functions = rule_engine::function::default;

    let result = default_functions(SingleInputFunction::Empty, &text(""), &vec![]);
    assert!(result.is_ok_and(|x| x == true));

    let result = default_functions(SingleInputFunction::NonEmpty, &text("ankit"), &vec![]);
    assert!(result.is_ok_and(|x| x == true));

    let result = default_functions(SingleInputFunction::Equal, &text("ankit"), &vec![text("ankit")]);
    assert!(result.is_ok_and(|x| x == true));

    let result = default_functions(SingleInputFunction::Equal, &text("ankit"), &vec![text("anki")]);
    assert!(result.is_ok_and(|x| x == false));

    let result = default_functions(SingleInputFunction::Greater, &text("1"), &vec![text("0")]);
    assert!(result.is_ok_and(|x| x == true));

    let result = default_functions(SingleInputFunction::GreaterEq, &text("1"), &vec![text("1")]);
    assert!(result.is_ok_and(|x| x == true));

    let result = default_functions(SingleInputFunction::Lower, &text("0"), &vec![text("1")]);
    assert!(result.is_ok_and(|x| x == true));

    let result = default_functions(SingleInputFunction::Lower, &text("0"), &vec![text("1")]);
    assert!(result.is_ok_and(|x| x == true));

    let result = default_functions(SingleInputFunction::LowerEq, &text("0"), &vec![text("1")]);
    assert!(result.is_ok_and(|x| x == true));

    let result =
        default_functions(SingleInputFunction::Between, &text("2"), &vec![text("1"), text("3")]);
    assert!(result.is_ok_and(|x| x == true));

    let result =
        default_functions(SingleInputFunction::BetweenEq, &text("1"), &vec![text("1"), text("3")]);
    assert!(result.is_ok_and(|x| x == true));

    // 2 lies strictly between 1 and 3, so it is not outside of them.
    let result =
        default_functions(SingleInputFunction::NotBetween, &text("2"), &vec![text("1"), text("3")]);
    assert!(result.is_ok_and(|x| x == false));

    let result = default_functions(
        SingleInputFunction::NotBetweenEq,
        &text("1"),
        &vec![text("1"), text("3")],
    );
    assert!(result.is_ok_and(|x| x == false));

    let result =
        default_functions(SingleInputFunction::EqualIgnoreCase, &text("Ankit"), &vec![text("ANKIT")]);
    assert!(result.is_ok_and(|x| x == true));

    let result = default_functions(
        SingleInputFunction::EqualAnyIgnoreCase,
        &text("Ankit"),
        &vec![text("SHEORAN"), text("ANKIT")],
    );
    assert!(result.is_ok_and(|x| x == true));

    let result = default_functions(
        SingleInputFunction::EqualAny,
        &text("Ankit"),
        &vec![text("SHEORAN"), text("Ankit")],
    );
    assert!(result.is_ok_and(|x| x == true));

    let result = default_functions(
        SingleInputFunction::NotEqualAny,
        &text("Ankit"),
        &vec![text("SHEORAN"), text("ANKIT")],
    );
    assert!(result.is_ok_and(|x| x == true));

    let result =
        default_functions(SingleInputFunction::StartsWith, &text("AnkitSheoran"), &vec![text("Ankit")]);
    assert!(result.is_ok_and(|x| x == true));

    let result = default_functions(
        SingleInputFunction::StartsWithIgnoreCase,
        &text("AnkitSheoran"),
        &vec![text("ANKIT")],
    );
    assert!(result.is_ok_and(|x| x == true));

    let result =
        default_functions(SingleInputFunction::EndsWith, &text("AnkitSheoran"), &vec![text("Sheoran")]);
    assert!(result.is_ok_and(|x| x == true));

    let result = default_functions(
        SingleInputFunction::EndsWithIgnoreCase,
        &text("AnkitSheoran"),
        &vec![text("SHEORAN")],
    );
    assert!(result.is_ok_and(|x| x == true));

    let result =
        default_functions(SingleInputFunction::Contains, &text("AnkitSheoran"), &vec![text("Sheoran")]);
    assert!(result.is_ok_and(|x| x == true));

    let result = default_functions(
        SingleInputFunction::ContainsIgnoreCase,
        &text("AnkitSheoran"),
        &vec![text("SHEORAN")],
    );
    assert!(result.is_ok_and(|x| x == true));
}

#[test]
fn empty_and_non_empty_test_the_length() {
    assert_eq!(apply(SingleInputFunction::Empty, "", &[]), Ok(true));
    assert_eq!(apply(SingleInputFunction::Empty, "a", &[]), Ok(false));
    assert_eq!(apply(SingleInputFunction::NonEmpty, "", &[]), Ok(false));
    assert_eq!(apply(SingleInputFunction::NonEmpty, " ", &[]), Ok(true));
}

#[test]
fn between_excludes_its_bounds() {
    assert_eq!(apply(SingleInputFunction::Between, "2", &["1", "3"]), Ok(true));
    assert_eq!(apply(SingleInputFunction::Between, "3", &["1", "3"]), Ok(false));
    assert_eq!(apply(SingleInputFunction::Between, "1", &["1", "3"]), Ok(false));
    assert_eq!(apply(SingleInputFunction::Between, "0.5", &["1", "3"]), Ok(false));
}

#[test]
fn between_eq_includes_its_bounds() {
    assert_eq!(apply(SingleInputFunction::BetweenEq, "3", &["1", "3"]), Ok(true));
    assert_eq!(apply(SingleInputFunction::BetweenEq, "1", &["1", "3"]), Ok(true));
    assert_eq!(apply(SingleInputFunction::BetweenEq, "2", &["1", "3"]), Ok(true));
    assert_eq!(apply(SingleInputFunction::BetweenEq, "3.5", &["1", "3"]), Ok(false));
    assert_eq!(apply(SingleInputFunction::BetweenEq, "-1", &["1", "3"]), Ok(false));
}

#[test]
fn not_between_is_the_complement_of_between() {
    for v in ["0", "1", "2", "3", "4", "-7.25", "1e3"] {
        let inside = apply(SingleInputFunction::Between, v, &["1", "3"]).unwrap();
        let outside = apply(SingleInputFunction::NotBetween, v, &["1", "3"]).unwrap();
        assert_eq!(outside, !inside);
    }
    assert_eq!(apply(SingleInputFunction::NotBetween, "1", &["1", "3"]), Ok(true));
    assert_eq!(apply(SingleInputFunction::NotBetween, "3", &["1", "3"]), Ok(true));
    assert_eq!(apply(SingleInputFunction::NotBetween, "5", &["1", "3"]), Ok(true));
}

#[test]
fn not_between_eq_is_the_complement_of_between_eq() {
    for v in ["0", "1", "2", "3", "4", "-7.25", "1e3"] {
        let inside = apply(SingleInputFunction::BetweenEq, v, &["1", "3"]).unwrap();
        let outside = apply(SingleInputFunction::NotBetweenEq, v, &["1", "3"]).unwrap();
        assert_eq!(outside, !inside);
    }
    assert_eq!(apply(SingleInputFunction::NotBetweenEq, "3", &["1", "3"]), Ok(false));
    assert_eq!(apply(SingleInputFunction::NotBetweenEq, "0", &["1", "3"]), Ok(true));
    assert_eq!(apply(SingleInputFunction::NotBetweenEq, "4", &["1", "3"]), Ok(true));
}

#[test]
fn comparisons_are_numeric_not_textual() {
    assert_eq!(apply(SingleInputFunction::Greater, "10", &["9"]), Ok(true));
    assert_eq!(apply(SingleInputFunction::Lower, "-10", &["-9"]), Ok(true));
    assert_eq!(apply(SingleInputFunction::GreaterEq, "1.0", &["1"]), Ok(true));
    assert_eq!(apply(SingleInputFunction::LowerEq, "1e1", &["10"]), Ok(true));
    assert_eq!(apply(SingleInputFunction::Greater, "1", &["1"]), Ok(false));
    assert_eq!(apply(SingleInputFunction::Lower, "1", &["1"]), Ok(false));
    assert_eq!(apply(SingleInputFunction::GreaterEq, "0", &["1"]), Ok(false));
    assert_eq!(apply(SingleInputFunction::LowerEq, "2", &["1"]), Ok(false));
    assert_eq!(apply(SingleInputFunction::LowerEq, "-0", &["0"]), Ok(true));
    assert_eq!(apply(SingleInputFunction::Lower, "-0", &["0"]), Ok(false));
}

#[test]
fn a_nan_compares_false_with_everything() {
    assert_eq!(apply(SingleInputFunction::Greater, "NaN", &["1"]), Ok(false));
    assert_eq!(apply(SingleInputFunction::LowerEq, "NaN", &["1"]), Ok(false));
    assert_eq!(apply(SingleInputFunction::Between, "2", &["NaN", "3"]), Ok(false));
    assert_eq!(apply(SingleInputFunction::NotBetween, "2", &["NaN", "3"]), Ok(false));
    assert_eq!(apply(SingleInputFunction::Lower, "1", &["inf"]), Ok(true));
}

#[test]
fn equal_any_is_true_for_any_equal_argument() {
    assert_eq!(apply(SingleInputFunction::EqualAny, "Ankit", &["SHEORAN", "Ankit"]), Ok(true));
    assert_eq!(apply(SingleInputFunction::NotEqualAny, "Ankit", &["SHEORAN", "Ankit"]), Ok(false));
    assert_eq!(apply(SingleInputFunction::EqualAny, "Ankit", &["SHEORAN", "ANKIT"]), Ok(false));
    assert_eq!(apply(SingleInputFunction::EqualAny, "Ankit", &[]), Ok(false));
    assert_eq!(apply(SingleInputFunction::NotEqualAny, "Ankit", &[]), Ok(true));
    assert_eq!(apply(SingleInputFunction::EqualAnyIgnoreCase, "Ankit", &["x", "y"]), Ok(false));
}

#[test]
fn not_equal_any_is_false_when_one_argument_is_equal_and_another_differs() {
    assert_eq!(apply(SingleInputFunction::NotEqualAny, "b", &["a", "b", "c"]), Ok(false));
}

#[test]
fn equal_any_passes_over_arguments_that_are_no_text() {
    let args = vec![number(1.0), Datum::Bool(true), text("Ankit")];
    assert_eq!(
        rule_engine::function::default(SingleInputFunction::EqualAny, &text("Ankit"), &args),
        Ok(true)
    );
    let none = vec![number(1.0), Datum::List(vec![text("Ankit")])];
    assert_eq!(
        rule_engine::function::default(SingleInputFunction::EqualAny, &text("Ankit"), &none),
        Ok(false)
    );
    assert_eq!(
        rule_engine::function::default(SingleInputFunction::NotEqualAny, &text("Ankit"), &none),
        Ok(true)
    );
}

#[test]
fn exact_tests_mind_the_case() {
    assert_eq!(apply(SingleInputFunction::Equal, "Ankit", &["ANKIT"]), Ok(false));
    assert_eq!(apply(SingleInputFunction::StartsWith, "AnkitSheoran", &["ANKIT"]), Ok(false));
    assert_eq!(apply(SingleInputFunction::EndsWith, "AnkitSheoran", &["SHEORAN"]), Ok(false));
    assert_eq!(apply(SingleInputFunction::Contains, "AnkitSheoran", &["KITSHE"]), Ok(false));
    assert_eq!(apply(SingleInputFunction::Contains, "AnkitSheoran", &["kitShe"]), Ok(true));
    assert_eq!(apply(SingleInputFunction::StartsWith, "AnkitSheoran", &["Sheoran"]), Ok(false));
    assert_eq!(apply(SingleInputFunction::EndsWith, "AnkitSheoran", &["Ankit"]), Ok(false));
}

#[test]
fn tests_that_ignore_case_fold_both_sides() {
    assert_eq!(apply(SingleInputFunction::ContainsIgnoreCase, "AnkitSheoran", &["KITSHE"]), Ok(true));
    assert_eq!(apply(SingleInputFunction::ContainsIgnoreCase, "ANKIT", &["nki"]), Ok(true));
    assert_eq!(apply(SingleInputFunction::StartsWithIgnoreCase, "ANKIT", &["ank"]), Ok(true));
    assert_eq!(apply(SingleInputFunction::EndsWithIgnoreCase, "ANKIT", &["kit"]), Ok(true));
    assert_eq!(apply(SingleInputFunction::EndsWithIgnoreCase, "ANKIT", &["ank"]), Ok(false));
    assert_eq!(apply(SingleInputFunction::EqualIgnoreCase, "Ankit", &["ankiT"]), Ok(true));
    assert_eq!(apply(SingleInputFunction::EqualIgnoreCase, "Ankit", &["Ankita"]), Ok(false));
}

#[test]
fn equality_ignores_the_case_of_ascii_letters_only() {
    // The capital of "é" is no ASCII letter.
    assert_eq!(apply(SingleInputFunction::EqualIgnoreCase, "\u{e9}", &["\u{c9}"]), Ok(false));
    assert_eq!(apply(SingleInputFunction::EqualAnyIgnoreCase, "\u{e9}", &["\u{c9}"]), Ok(false));
    assert_eq!(apply(SingleInputFunction::StartsWithIgnoreCase, "\u{c9}t\u{e9}", &["\u{e9}T"]), Ok(true));
    assert_eq!(apply(SingleInputFunction::ContainsIgnoreCase, "\u{c9}t\u{e9}", &["\u{e9}T\u{c9}"]), Ok(true));
}

#[test]
fn the_empty_text_is_a_prefix_a_suffix_and_a_part_of_every_text() {
    assert_eq!(apply(SingleInputFunction::StartsWith, "abc", &[""]), Ok(true));
    assert_eq!(apply(SingleInputFunction::EndsWith, "abc", &[""]), Ok(true));
    assert_eq!(apply(SingleInputFunction::Contains, "", &[""]), Ok(true));
    assert_eq!(apply(SingleInputFunction::Contains, "", &["a"]), Ok(false));
}

#[test]
fn wrong_argument_count_is_an_arity_error() {
    for function in all_functions() {
        let name = FunctionName::Single(function);
        match function.required_argument_count() {
            Some(expected) => {
                let mut args: Vec<Datum> = Vec::new();
                for _ in 0..expected + 1 {
                    args.push(text("1"));
                }
                assert_eq!(
                    rule_engine::function::default(function, &text("1"), &args),
                    Err(EngineError::Arity { function: name, expected, found: expected + 1 })
                );
                if expected > 0 {
                    assert_eq!(
                        rule_engine::function::default(function, &text("1"), &vec![]),
                        Err(EngineError::Arity { function: name, expected, found: 0 })
                    );
                }
            }
            None => {
                assert!(rule_engine::function::default(function, &text("1"), &vec![]).is_ok());
            }
        }
    }
}

#[test]
fn required_argument_counts() {
    assert_eq!(SingleInputFunction::Empty.required_argument_count(), Some(0));
    assert_eq!(SingleInputFunction::NonEmpty.required_argument_count(), Some(0));
    assert_eq!(SingleInputFunction::Equal.required_argument_count(), Some(1));
    assert_eq!(SingleInputFunction::Greater.required_argument_count(), Some(1));
    assert_eq!(SingleInputFunction::LowerEq.required_argument_count(), Some(1));
    assert_eq!(SingleInputFunction::Between.required_argument_count(), Some(2));
    assert_eq!(SingleInputFunction::NotBetweenEq.required_argument_count(), Some(2));
    assert_eq!(SingleInputFunction::EqualAny.required_argument_count(), None);
    assert_eq!(SingleInputFunction::NotEqualAny.required_argument_count(), None);
    assert_eq!(SingleInputFunction::ContainsIgnoreCase.required_argument_count(), Some(1));
}

#[test]
fn an_input_that_is_no_text_is_a_type_mismatch() {
    for function in all_functions() {
        let args = match function.required_argument_count() {
            Some(n) => texts(&vec!["1"; n]),
            None => texts(&["1"]),
        };
        assert_eq!(
            rule_engine::function::default(function, &number(1.0), &args),
            Err(EngineError::TypeMismatch {
                function: FunctionName::Single(function),
                operand: Operand::Input
            })
        );
    }
}

#[test]
fn an_argument_that_is_no_text_is_a_type_mismatch() {
    assert_eq!(
        rule_engine::function::default(SingleInputFunction::Equal, &text("a"), &vec![Datum::Bool(true)]),
        Err(EngineError::TypeMismatch {
            function: FunctionName::Single(SingleInputFunction::Equal),
            operand: Operand::Argument(0)
        })
    );
    assert_eq!(
        rule_engine::function::default(
            SingleInputFunction::Between,
            &text("2"),
            &vec![text("1"), number(3.0)]
        ),
        Err(EngineError::TypeMismatch {
            function: FunctionName::Single(SingleInputFunction::Between),
            operand: Operand::Argument(1)
        })
    );
}

#[test]
fn a_text_that_is_no_number_is_a_coercion_error() {
    assert_eq!(
        apply(SingleInputFunction::Greater, "abc", &["1"]),
        Err(EngineError::Coercion {
            function: FunctionName::Single(SingleInputFunction::Greater),
            operand: Operand::Input,
            text: "abc".to_string()
        })
    );
    assert_eq!(
        apply(SingleInputFunction::Between, "2", &["1", "three"]),
        Err(EngineError::Coercion {
            function: FunctionName::Single(SingleInputFunction::Between),
            operand: Operand::Argument(1),
            text: "three".to_string()
        })
    );
}

#[test]
fn a_numeric_predicate_reads_its_input_before_it_counts_its_arguments() {
    assert_eq!(
        apply(SingleInputFunction::Greater, "abc", &[]),
        Err(EngineError::Coercion {
            function: FunctionName::Single(SingleInputFunction::Greater),
            operand: Operand::Input,
            text: "abc".to_string()
        })
    );
    assert_eq!(
        apply(SingleInputFunction::Greater, "1", &["x", "y"]),
        Err(EngineError::Arity {
            function: FunctionName::Single(SingleInputFunction::Greater),
            expected: 1,
            found: 2
        })
    );
    assert_eq!(
        apply(SingleInputFunction::Between, "2", &["x", "y"]),
        Err(EngineError::Coercion {
            function: FunctionName::Single(SingleInputFunction::Between),
            operand: Operand::Argument(0),
            text: "x".to_string()
        })
    );
}

#[test]
fn a_text_predicate_counts_its_arguments_before_it_reads_its_input() {
    assert_eq!(
        rule_engine::function::default(SingleInputFunction::Equal, &number(1.0), &vec![]),
        Err(EngineError::Arity {
            function: FunctionName::Single(SingleInputFunction::Equal),
            expected: 1,
            found: 0
        })
    );
    assert_eq!(
        rule_engine::function::default(SingleInputFunction::Empty, &number(1.0), &vec![text("a")]),
        Err(EngineError::Arity {
            function: FunctionName::Single(SingleInputFunction::Empty),
            expected: 0,
            found: 1
        })
    );
}

#[test]
fn parse_numeric_gives_the_numbers_in_order() {
    let (input, bounds) = rule_engine::function::parse_numeric(
        SingleInputFunction::Between,
        &text("2.5"),
        &texts(&["1", "-3e2"]),
        2,
    )
    .unwrap();
    assert_eq!(f64::from_bits(input.to_bits()), 2.5);
    let bounds: Vec<f64> = bounds.iter().map(|n| f64::from_bits(n.to_bits())).collect();
    assert_eq!(bounds, vec![1.0, -300.0]);
}

#[test]
fn the_family_functions_agree_with_the_dispatch() {
    assert_eq!(
        rule_engine::function::default_general_functions(
            SingleInputFunction::Equal,
            &text("a"),
            &texts(&["a"])
        ),
        Ok(true)
    );
    assert_eq!(
        rule_engine::function::default_numeric_function(
            SingleInputFunction::Lower,
            &text("1"),
            &texts(&["2"])
        ),
        Ok(true)
    );
    assert_eq!(
        rule_engine::function::default_string_function(
            SingleInputFunction::EndsWith,
            &text("abc"),
            &texts(&["bc"])
        ),
        Ok(true)
    );
    assert!(rule_engine::function::test_text_pair(SingleInputFunction::ContainsIgnoreCase, "aBc", "B"));
    assert!(!rule_engine::function::compare_texts(SingleInputFunction::Contains, "abc", "B"));
    assert!(rule_engine::function::equal_to_any("b", &texts(&["a", "B"]), true));
    assert!(!rule_engine::function::equal_to_any("b", &texts(&["a", "B"]), false));
}

#[test]
fn every_name_resolves_to_its_function() {
    for function in all_functions() {
        assert_eq!(SingleInputFunction::from_name(function.name()), Ok(function));
    }
    assert_eq!(SingleInputFunction::from_name("Between"), Ok(SingleInputFunction::Between));
    assert_eq!(SingleInputFunction::Contains.name(), "Contains");
}

#[test]
fn an_unregistered_name_is_an_unknown_function() {
    for name in ["", "between", "Between ", "Matches", "EqualAnyIgnorecase"] {
        assert_eq!(
            SingleInputFunction::from_name(name),
            Err(EngineError::UnknownFunction { name: name.to_string() })
        );
    }
}

#[test]
fn errors_describe_themselves() {
    let e = EngineError::Coercion {
        function: FunctionName::Single(SingleInputFunction::Greater),
        operand: Operand::Input,
        text: "abc".to_string(),
    };
    assert_eq!(e.describe(), "could not convert to number: abc");
    let e = EngineError::UnknownFunction { name: "Matches".to_string() };
    assert_eq!(e.describe(), "unknown function: Matches");
}

#[test]
fn texts_of_wide_characters_are_tested_character_by_character() {
    assert_eq!(apply(SingleInputFunction::Contains, "a\u{4e16}\u{754c}b", &["\u{754c}b"]), Ok(true));
    assert_eq!(apply(SingleInputFunction::StartsWith, "\u{4e16}\u{754c}", &["\u{4e16}"]), Ok(true));
    assert_eq!(apply(SingleInputFunction::EndsWith, "\u{4e16}\u{754c}", &["\u{4e16}"]), Ok(false));
    assert_eq!(apply(SingleInputFunction::Equal, "\u{4e16}", &["\u{754c}"]), Ok(false));
    assert_eq!(apply(SingleInputFunction::Empty, "\u{4e16}", &[]), Ok(false));
}
