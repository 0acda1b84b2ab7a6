use rule_engine::condition::Condition;
use rule_engine::error::{EngineError, FunctionName};
use rule_engine::function::list_function::{
    default_list_function, evaluate_list_function, list_function_constraints_argument_number,
    Fraction, ListFunction, Quantified,
};
use rule_engine::number::Number;
use rule_engine::value::{Datum, Record};

type Predicate = fn(&Record) -> Result<bool, EngineError>;

fn all_functions() -> Vec<ListFunction> {
    vec![
        ListFunction::All,
        ListFunction::AtLeast,
        ListFunction::AtMost,
        ListFunction::Exactly,
        ListFunction::NoneElement,
        ListFunction::AtLeastFraction,
        ListFunction::AtMostFraction,
    ]
}

/// Whether the quantifier holds: a fraction is compared in floats.
fn decide(quantified: Quantified) -> bool {
    match quantified {
        Quantified::Decided(holds) => holds,
        Quantified::AtLeast(f) => {
            f.passed_total as f64 >= (f.list_total as f64 / f.den as f64) * f.num as f64
        }
        Quantified::AtMost(f) => {
            f.passed_total as f64 <= (f.list_total as f64 / f.den as f64) * f.num as f64
        }
    }
}

fn verdict(
    function: ListFunction,
    list_total: usize,
    passed_total: usize,
    args: &[i32],
) -> Result<bool, EngineError> {
    default_list_function(function, list_total, passed_total, args).map(decide)
}

fn element(score: f64) -> Record {
    let mut r = Record::new();
    r.insert("score".to_string(), Datum::Number(Number::from_bits(score.to_bits())));
    r
}

fn positive(input: &Record) -> Result<bool, EngineError> {
    match input.get("score") {
        Some(Datum::Number(n)) => Ok(f64::from_bits(n.to_bits()) > 0.0),
        _ => Err(EngineError::UnknownFunction { name: "score".to_string() }),
    }
}

#[test]
fn argument_numbers() {
    let counts: Vec<usize> =
        all_functions().into_iter().map(list_function_constraints_argument_number).collect();
    assert_eq!(counts, vec![0, 1, 1, 1, 0, 2, 2]);
}

#[test]
fn at_least_fraction_of_a_half() {
    assert_eq!(verdict(ListFunction::AtLeastFraction, 4, 2, &[1, 2]), Ok(true));
    assert_eq!(verdict(ListFunction::AtLeastFraction, 4, 1, &[1, 2]), Ok(false));
    assert_eq!(verdict(ListFunction::AtLeastFraction, 4, 3, &[1, 2]), Ok(true));
}

#[test]
fn at_most_fraction_of_a_half() {
    assert_eq!(verdict(ListFunction::AtMostFraction, 4, 2, &[1, 2]), Ok(true));
    assert_eq!(verdict(ListFunction::AtMostFraction, 4, 3, &[1, 2]), Ok(false));
    assert_eq!(verdict(ListFunction::AtMostFraction, 4, 0, &[1, 2]), Ok(true));
}

#[test]
fn a_fraction_quantifier_names_its_comparison() {
    assert_eq!(
        default_list_function(ListFunction::AtLeastFraction, 4, 2, &[1, 2]),
        Ok(Quantified::AtLeast(Fraction { list_total: 4, passed_total: 2, num: 1, den: 2 }))
    );
    assert_eq!(
        default_list_function(ListFunction::AtMostFraction, 7, 3, &[-5, 0]),
        Ok(Quantified::AtMost(Fraction { list_total: 7, passed_total: 3, num: -5, den: 0 }))
    );
    assert_eq!(
        default_list_function(ListFunction::AtLeastFraction, usize::MAX, 0, &[i32::MIN, i32::MAX]),
        Ok(Quantified::AtLeast(Fraction {
            list_total: usize::MAX,
            passed_total: 0,
            num: i32::MIN,
            den: i32::MAX
        }))
    );
}

#[test]
fn fractions_are_compared_in_floats_with_no_tolerance() {
    // One 49th, forty-nine times, falls short of one in floats.
    assert_eq!((1.0f64 / 49.0) * 49.0, 0.9999999999999999);
    assert_eq!(verdict(ListFunction::AtMostFraction, 1, 1, &[49, 49]), Ok(false));
    assert_eq!(verdict(ListFunction::AtLeastFraction, 1, 1, &[49, 49]), Ok(true));
    assert_eq!(verdict(ListFunction::AtMostFraction, 1, 1, &[3, 3]), Ok(true));
}

#[test]
fn a_zero_denominator_makes_the_threshold_infinite_or_undefined() {
    assert_eq!(verdict(ListFunction::AtLeastFraction, 4, 2, &[1, 0]), Ok(false));
    assert_eq!(verdict(ListFunction::AtMostFraction, 4, 2, &[1, 0]), Ok(true));
    assert_eq!(verdict(ListFunction::AtLeastFraction, 4, 2, &[-1, 0]), Ok(true));
    assert_eq!(verdict(ListFunction::AtMostFraction, 4, 2, &[-1, 0]), Ok(false));
    assert_eq!(verdict(ListFunction::AtLeastFraction, 0, 0, &[1, 0]), Ok(false));
    assert_eq!(verdict(ListFunction::AtMostFraction, 0, 0, &[1, 0]), Ok(false));
    assert_eq!(verdict(ListFunction::AtLeastFraction, 4, 2, &[0, 0]), Ok(false));
    assert_eq!(verdict(ListFunction::AtMostFraction, 4, 2, &[0, 0]), Ok(false));
}

#[test]
fn counting_quantifiers() {
    assert_eq!(verdict(ListFunction::All, 3, 3, &[]), Ok(true));
    assert_eq!(verdict(ListFunction::All, 3, 2, &[]), Ok(false));
    assert_eq!(verdict(ListFunction::All, 0, 0, &[]), Ok(true));
    assert_eq!(verdict(ListFunction::NoneElement, 3, 0, &[]), Ok(true));
    assert_eq!(verdict(ListFunction::NoneElement, 3, 1, &[]), Ok(false));
    assert_eq!(verdict(ListFunction::AtLeast, 3, 2, &[2]), Ok(true));
    assert_eq!(verdict(ListFunction::AtLeast, 3, 1, &[2]), Ok(false));
    assert_eq!(verdict(ListFunction::AtMost, 3, 2, &[2]), Ok(true));
    assert_eq!(verdict(ListFunction::AtMost, 3, 3, &[2]), Ok(false));
    assert_eq!(verdict(ListFunction::Exactly, 3, 2, &[2]), Ok(true));
    assert_eq!(verdict(ListFunction::Exactly, 3, 3, &[2]), Ok(false));
}

#[test]
fn a_negative_bound_is_below_every_count() {
    assert_eq!(verdict(ListFunction::AtLeast, 3, 0, &[-1]), Ok(true));
    assert_eq!(verdict(ListFunction::AtMost, 3, 0, &[-1]), Ok(false));
    assert_eq!(verdict(ListFunction::Exactly, 3, 0, &[-1]), Ok(false));
}

#[test]
fn a_quantifier_with_a_wrong_argument_count_is_an_arity_error() {
    for function in all_functions() {
        let expected = list_function_constraints_argument_number(function);
        let args = vec![1i32; expected + 1];
        assert_eq!(
            default_list_function(function, 4, 2, &args),
            Err(EngineError::Arity {
                function: FunctionName::List(function),
                expected,
                found: expected + 1
            })
        );
        if expected > 0 {
            assert_eq!(
                default_list_function(function, 4, 2, &[]),
                Err(EngineError::Arity {
                    function: FunctionName::List(function),
                    expected,
                    found: 0
                })
            );
        }
    }
}

#[test]
fn a_quantifier_counts_the_elements_that_pass() {
    let elements = vec![element(1.0), element(-1.0), element(2.0), element(0.0)];
    let condition = Condition::new("score".to_string(), vec![positive as Predicate]);
    assert_eq!(
        evaluate_list_function(ListFunction::AtLeastFraction, &[1, 2], &elements, &condition),
        Ok(Quantified::AtLeast(Fraction { list_total: 4, passed_total: 2, num: 1, den: 2 }))
    );
    assert_eq!(
        evaluate_list_function(ListFunction::AtLeastFraction, &[1, 2], &elements, &condition)
            .map(decide),
        Ok(true)
    );
    assert_eq!(
        evaluate_list_function(ListFunction::Exactly, &[2], &elements, &condition),
        Ok(Quantified::Decided(true))
    );
    assert_eq!(
        evaluate_list_function(ListFunction::All, &[], &elements, &condition),
        Ok(Quantified::Decided(false))
    );
    assert_eq!(
        evaluate_list_function(ListFunction::AtMost, &[1], &elements, &condition),
        Ok(Quantified::Decided(false))
    );
    assert_eq!(
        evaluate_list_function(ListFunction::NoneElement, &[], &Vec::new(), &condition),
        Ok(Quantified::Decided(true))
    );
}

#[test]
fn a_failing_element_aborts_the_quantifier() {
    let elements = vec![element(1.0), Record::new(), element(2.0)];
    let condition = Condition::new("score".to_string(), vec![positive as Predicate]);
    assert_eq!(
        evaluate_list_function(ListFunction::AtLeast, &[1], &elements, &condition),
        Err(EngineError::UnknownFunction { name: "score".to_string() })
    );
}

#[test]
fn a_quantifier_with_the_wrong_arguments_looks_at_no_element() {
    let elements = vec![Record::new()];
    let condition = Condition::new("score".to_string(), vec![positive as Predicate]);
    assert_eq!(
        evaluate_list_function(ListFunction::AtLeast, &[], &elements, &condition),
        Err(EngineError::Arity {
            function: FunctionName::List(ListFunction::AtLeast),
            expected: 1,
            found: 0
        })
    );
}

#[test]
fn every_quantifier_name_resolves_to_its_quantifier() {
    for function in all_functions() {
        assert_eq!(ListFunction::from_name(function.name()), Ok(function));
    }
    assert_eq!(ListFunction::NoneElement.name(), "NoneElement");
    assert_eq!(
        ListFunction::from_name("None"),
        Err(EngineError::UnknownFunction { name: "None".to_string() })
    );
}
