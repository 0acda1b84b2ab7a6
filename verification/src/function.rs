//! The predicates: named tests of one value against literal arguments.

use vstd::prelude::*;
use crate::error::{EngineError, Failure, FunctionName, Operand, outcome};
use crate::number::Number;
use crate::text::{
    ascii_lowercase,
    contains,
    ends_with,
    eq_ignore_ascii_case,
    lowercase,
    occurs_in,
    starts_with,
    str_eq,
    to_lowercase,
};
use crate::value::Datum;

pub mod aggregator;
pub mod list_function;

verus! {

/// The predicates by name.
#[derive(Clone, Copy, Debug, PartialEq, Eq, Hash, Structural)]
pub enum SingleInputFunction {
    Empty,
    NonEmpty,
    Equal,
    Greater,
    GreaterEq,
    Lower,
    LowerEq,
    Between,
    BetweenEq,
    NotBetween,
    NotBetweenEq,
    EqualIgnoreCase,
    EqualAny,
    EqualAnyIgnoreCase,
    NotEqualAny,
    StartsWith,
    StartsWithIgnoreCase,
    EndsWith,
    EndsWithIgnoreCase,
    Contains,
    ContainsIgnoreCase,
}

impl SingleInputFunction {
    /// The predicates on the length or the exact content of a text.
    pub open spec fn is_general(self) -> bool {
        self is Empty || self is NonEmpty || self is Equal
    }

    /// The predicates that compare numbers.
    pub open spec fn is_numeric(self) -> bool {
        self is Greater || self is GreaterEq || self is Lower || self is LowerEq || self is Between
            || self is BetweenEq || self is NotBetween || self is NotBetweenEq
    }

    /// The remaining predicates on texts.
    pub open spec fn is_string(self) -> bool {
        !self.is_general() && !self.is_numeric()
    }

    /// The predicates that test the text against one text argument.
    pub open spec fn is_text_pair(self) -> bool {
        self is Equal || self is EqualIgnoreCase || self is StartsWith
            || self is StartsWithIgnoreCase || self is EndsWith || self is EndsWithIgnoreCase
            || self is Contains || self is ContainsIgnoreCase
    }

    /// The number of arguments a predicate takes; `None` where it takes any
    /// number of them.
    pub open spec fn arity(self) -> Option<usize> {
        match self {
            SingleInputFunction::Empty | SingleInputFunction::NonEmpty => Some(0),
            SingleInputFunction::EqualAny
            | SingleInputFunction::EqualAnyIgnoreCase
            | SingleInputFunction::NotEqualAny => None,
            SingleInputFunction::Between
            | SingleInputFunction::BetweenEq
            | SingleInputFunction::NotBetween
            | SingleInputFunction::NotBetweenEq => Some(2),
            _ => Some(1),
        }
    }

    /// The number of arguments a predicate takes; `None` where it takes any
    /// number of them.
    pub fn required_argument_count(self) -> (n: Option<usize>)
        ensures
            n == self.arity(),
    {
        match self {
            SingleInputFunction::Empty | SingleInputFunction::NonEmpty => Some(0),
            SingleInputFunction::EqualAny
            | SingleInputFunction::EqualAnyIgnoreCase
            | SingleInputFunction::NotEqualAny => None,
            SingleInputFunction::Between
            | SingleInputFunction::BetweenEq
            | SingleInputFunction::NotBetween
            | SingleInputFunction::NotBetweenEq => Some(2),
            _ => Some(1),
        }
    }
}

impl SingleInputFunction {
    /// The name under which a predicate is registered.
    pub open spec fn label(self) -> Seq<char> {
        match self {
            SingleInputFunction::Empty => "Empty"@,
            SingleInputFunction::NonEmpty => "NonEmpty"@,
            SingleInputFunction::Equal => "Equal"@,
            SingleInputFunction::Greater => "Greater"@,
            SingleInputFunction::GreaterEq => "GreaterEq"@,
            SingleInputFunction::Lower => "Lower"@,
            SingleInputFunction::LowerEq => "LowerEq"@,
            SingleInputFunction::Between => "Between"@,
            SingleInputFunction::BetweenEq => "BetweenEq"@,
            SingleInputFunction::NotBetween => "NotBetween"@,
            SingleInputFunction::NotBetweenEq => "NotBetweenEq"@,
            SingleInputFunction::EqualIgnoreCase => "EqualIgnoreCase"@,
            SingleInputFunction::EqualAny => "EqualAny"@,
            SingleInputFunction::EqualAnyIgnoreCase => "EqualAnyIgnoreCase"@,
            SingleInputFunction::NotEqualAny => "NotEqualAny"@,
            SingleInputFunction::StartsWith => "StartsWith"@,
            SingleInputFunction::StartsWithIgnoreCase => "StartsWithIgnoreCase"@,
            SingleInputFunction::EndsWith => "EndsWith"@,
            SingleInputFunction::EndsWithIgnoreCase => "EndsWithIgnoreCase"@,
            SingleInputFunction::Contains => "Contains"@,
            SingleInputFunction::ContainsIgnoreCase => "ContainsIgnoreCase"@,
        }
    }

    /// The name under which a predicate is registered.
    pub fn name(self) -> (s: &'static str)
        ensures
            s@ == self.label(),
    {
        match self {
            SingleInputFunction::Empty => "Empty",
            SingleInputFunction::NonEmpty => "NonEmpty",
            SingleInputFunction::Equal => "Equal",
            SingleInputFunction::Greater => "Greater",
            SingleInputFunction::GreaterEq => "GreaterEq",
            SingleInputFunction::Lower => "Lower",
            SingleInputFunction::LowerEq => "LowerEq",
            SingleInputFunction::Between => "Between",
            SingleInputFunction::BetweenEq => "BetweenEq",
            SingleInputFunction::NotBetween => "NotBetween",
            SingleInputFunction::NotBetweenEq => "NotBetweenEq",
            SingleInputFunction::EqualIgnoreCase => "EqualIgnoreCase",
            SingleInputFunction::EqualAny => "EqualAny",
            SingleInputFunction::EqualAnyIgnoreCase => "EqualAnyIgnoreCase",
            SingleInputFunction::NotEqualAny => "NotEqualAny",
            SingleInputFunction::StartsWith => "StartsWith",
            SingleInputFunction::StartsWithIgnoreCase => "StartsWithIgnoreCase",
            SingleInputFunction::EndsWith => "EndsWith",
            SingleInputFunction::EndsWithIgnoreCase => "EndsWithIgnoreCase",
            SingleInputFunction::Contains => "Contains",
            SingleInputFunction::ContainsIgnoreCase => "ContainsIgnoreCase",
        }
    }

    /// The predicate registered under a name, which is matched exactly.
    pub fn from_name(name: &str) -> (r: Result<SingleInputFunction, EngineError>)
        ensures
            match r {
                Ok(function) => function.label() == name@,
                Err(e) => e@ == (Failure::UnknownFunction { name: name@ })
                    && forall|function: SingleInputFunction| function.label() != name@,
            },
    {
        if str_eq(name, "Empty") {
            Ok(SingleInputFunction::Empty)
        } else if str_eq(name, "NonEmpty") {
            Ok(SingleInputFunction::NonEmpty)
        } else if str_eq(name, "Equal") {
            Ok(SingleInputFunction::Equal)
        } else if str_eq(name, "Greater") {
            Ok(SingleInputFunction::Greater)
        } else if str_eq(name, "GreaterEq") {
            Ok(SingleInputFunction::GreaterEq)
        } else if str_eq(name, "Lower") {
            Ok(SingleInputFunction::Lower)
        } else if str_eq(name, "LowerEq") {
            Ok(SingleInputFunction::LowerEq)
        } else if str_eq(name, "Between") {
            Ok(SingleInputFunction::Between)
        } else if str_eq(name, "BetweenEq") {
            Ok(SingleInputFunction::BetweenEq)
        } else if str_eq(name, "NotBetween") {
            Ok(SingleInputFunction::NotBetween)
        } else if str_eq(name, "NotBetweenEq") {
            Ok(SingleInputFunction::NotBetweenEq)
        } else if str_eq(name, "EqualIgnoreCase") {
            Ok(SingleInputFunction::EqualIgnoreCase)
        } else if str_eq(name, "EqualAny") {
            Ok(SingleInputFunction::EqualAny)
        } else if str_eq(name, "EqualAnyIgnoreCase") {
            Ok(SingleInputFunction::EqualAnyIgnoreCase)
        } else if str_eq(name, "NotEqualAny") {
            Ok(SingleInputFunction::NotEqualAny)
        } else if str_eq(name, "StartsWith") {
            Ok(SingleInputFunction::StartsWith)
        } else if str_eq(name, "StartsWithIgnoreCase") {
            Ok(SingleInputFunction::StartsWithIgnoreCase)
        } else if str_eq(name, "EndsWith") {
            Ok(SingleInputFunction::EndsWith)
        } else if str_eq(name, "EndsWithIgnoreCase") {
            Ok(SingleInputFunction::EndsWithIgnoreCase)
        } else if str_eq(name, "Contains") {
            Ok(SingleInputFunction::Contains)
        } else if str_eq(name, "ContainsIgnoreCase") {
            Ok(SingleInputFunction::ContainsIgnoreCase)
        } else {
            Err(EngineError::UnknownFunction { name: name.to_owned() })
        }
    }
}

/// No two predicates are registered under one name, so that the name of a
/// predicate resolves to that predicate and to no other.
pub proof fn lemma_labels_differ(f: SingleInputFunction, g: SingleInputFunction)
    ensures
        f.label() == g.label() ==> f == g,
{
    reveal_strlit("Empty");
    reveal_strlit("NonEmpty");
    reveal_strlit("Equal");
    reveal_strlit("Greater");
    reveal_strlit("GreaterEq");
    reveal_strlit("Lower");
    reveal_strlit("LowerEq");
    reveal_strlit("Between");
    reveal_strlit("BetweenEq");
    reveal_strlit("NotBetween");
    reveal_strlit("NotBetweenEq");
    reveal_strlit("EqualIgnoreCase");
    reveal_strlit("EqualAny");
    reveal_strlit("EqualAnyIgnoreCase");
    reveal_strlit("NotEqualAny");
    reveal_strlit("StartsWith");
    reveal_strlit("StartsWithIgnoreCase");
    reveal_strlit("EndsWith");
    reveal_strlit("EndsWithIgnoreCase");
    reveal_strlit("Contains");
    reveal_strlit("ContainsIgnoreCase");
    if f.label() == g.label() {
        assert(f.label().len() == g.label().len());
        assert(f.label()[0] == g.label()[0]);
        assert(f.label()[1] == g.label()[1]);
        assert(f.label()[2] == g.label()[2]);
        assert(f.label()[3] == g.label()[3]);
    }
}

/// The failure of a predicate that was given `found` arguments and takes
/// `expected`.
pub open spec fn wrong_arity(function: SingleInputFunction, expected: usize, found: nat) -> Failure {
    Failure::Arity { function: FunctionName::Single(function), expected, found: found as usize }
}

/// The failure of a predicate one of whose operands does not hold a text.
pub open spec fn not_a_text(function: SingleInputFunction, operand: Operand) -> Failure {
    Failure::TypeMismatch { function: FunctionName::Single(function), operand }
}

/// What `Empty` and `NonEmpty` say of a value: they take no argument and test
/// the length of a text.
pub open spec fn length_verdict(function: SingleInputFunction, input: Datum, args: Seq<Datum>) -> Result<
    bool,
    Failure,
> {
    if args.len() != 0 {
        Err(wrong_arity(function, 0, args.len()))
    } else {
        match input {
            Datum::String(t) => Ok((t.chars@.len() == 0) == (function is Empty)),
            _ => Err(not_a_text(function, Operand::Input)),
        }
    }
}

/// The test that a predicate with one text argument makes of two texts.
pub open spec fn text_pair_test(function: SingleInputFunction, input: Seq<char>, arg: Seq<char>) -> bool {
    match function {
        SingleInputFunction::Equal => input == arg,
        SingleInputFunction::EqualIgnoreCase => ascii_lowercase(input) == ascii_lowercase(arg),
        SingleInputFunction::StartsWith => arg.is_prefix_of(input),
        SingleInputFunction::StartsWithIgnoreCase => lowercase(arg).is_prefix_of(lowercase(input)),
        SingleInputFunction::EndsWith => arg.is_suffix_of(input),
        SingleInputFunction::EndsWithIgnoreCase => lowercase(arg).is_suffix_of(lowercase(input)),
        SingleInputFunction::Contains => occurs_in(arg, input),
        SingleInputFunction::ContainsIgnoreCase => occurs_in(lowercase(arg), lowercase(input)),
        _ => false,
    }
}

/// What a predicate with one text argument says of a value: the count of
/// arguments is looked at first, then the value, then the argument.
pub open spec fn text_pair_verdict(
    function: SingleInputFunction,
    input: Datum,
    args: Seq<Datum>,
) -> Result<bool, Failure> {
    if args.len() != 1 {
        Err(wrong_arity(function, 1, args.len()))
    } else {
        match input {
            Datum::String(t) => match args[0] {
                Datum::String(a) => Ok(text_pair_test(function, t.chars@, a.chars@)),
                _ => Err(not_a_text(function, Operand::Argument(0))),
            },
            _ => Err(not_a_text(function, Operand::Input)),
        }
    }
}

/// Whether two texts are equal, with or without the ASCII capitals folded.
pub open spec fn same_text(a: Seq<char>, b: Seq<char>, fold_case: bool) -> bool {
    if fold_case {
        ascii_lowercase(a) == ascii_lowercase(b)
    } else {
        a == b
    }
}

/// Whether the argument at `i` is a text equal to `input`.
pub open spec fn matches_at(input: Seq<char>, args: Seq<Datum>, fold_case: bool, i: int) -> bool {
    args[i] matches Datum::String(a) && same_text(input, a.chars@, fold_case)
}

/// Whether some argument is a text equal to `input`. An argument that is no
/// text equals none.
pub open spec fn equals_any(input: Seq<char>, args: Seq<Datum>, fold_case: bool) -> bool {
    exists|i: int| 0 <= i < args.len() && #[trigger] matches_at(input, args, fold_case, i)
}

/// What `EqualAny`, `EqualAnyIgnoreCase` and `NotEqualAny` say of a value:
/// they take any number of arguments.
pub open spec fn any_of_verdict(function: SingleInputFunction, input: Datum, args: Seq<Datum>) -> Result<
    bool,
    Failure,
> {
    match input {
        Datum::String(t) => Ok(
            equals_any(t.chars@, args, function is EqualAnyIgnoreCase) != (function is NotEqualAny),
        ),
        _ => Err(not_a_text(function, Operand::Input)),
    }
}

/// The readings as numbers of the first `upto` arguments, or the failure of
/// the first among them that has none.
pub open spec fn argument_numbers(function: SingleInputFunction, args: Seq<Datum>, upto: int) -> Result<
    Seq<Number>,
    Failure,
>
    decreases upto,
{
    if upto <= 0 {
        Ok(Seq::empty())
    } else {
        match argument_numbers(function, args, upto - 1) {
            Err(e) => Err(e),
            Ok(numbers) => match args[upto - 1].number_reading(
                FunctionName::Single(function),
                Operand::Argument((upto - 1) as usize),
            ) {
                Err(e) => Err(e),
                Ok(n) => Ok(numbers.push(n)),
            },
        }
    }
}

/// The operands of a numeric predicate as numbers: the value is read first,
/// then the count of arguments is looked at, then each argument is read in
/// turn.
pub open spec fn numeric_operands(
    function: SingleInputFunction,
    input: Datum,
    args: Seq<Datum>,
    required_args_count: usize,
) -> Result<(Number, Seq<Number>), Failure> {
    match input.number_reading(FunctionName::Single(function), Operand::Input) {
        Err(e) => Err(e),
        Ok(n) => if args.len() != required_args_count {
            Err(wrong_arity(function, required_args_count, args.len()))
        } else {
            match argument_numbers(function, args, args.len() as int) {
                Err(e) => Err(e),
                Ok(numbers) => Ok((n, numbers)),
            }
        },
    }
}

/// The comparison that a numeric predicate makes of a number `v` and its
/// bounds.
pub open spec fn numeric_test(function: SingleInputFunction, v: Number, bounds: Seq<Number>) -> bool {
    match function {
        SingleInputFunction::Greater => bounds[0].less(v),
        SingleInputFunction::GreaterEq => bounds[0].at_most(v),
        SingleInputFunction::Lower => v.less(bounds[0]),
        SingleInputFunction::LowerEq => v.at_most(bounds[0]),
        SingleInputFunction::Between => bounds[0].less(v) && v.less(bounds[1]),
        SingleInputFunction::BetweenEq => bounds[0].at_most(v) && v.at_most(bounds[1]),
        SingleInputFunction::NotBetween => v.at_most(bounds[0]) || bounds[1].at_most(v),
        SingleInputFunction::NotBetweenEq => v.less(bounds[0]) || bounds[1].less(v),
        _ => false,
    }
}

/// What a numeric predicate says of a value.
pub open spec fn numeric_verdict(function: SingleInputFunction, input: Datum, args: Seq<Datum>) -> Result<
    bool,
    Failure,
> {
    match numeric_operands(function, input, args, function.arity().unwrap()) {
        Err(e) => Err(e),
        Ok((v, bounds)) => Ok(numeric_test(function, v, bounds)),
    }
}

/// What each predicate says of a value and its arguments.
pub open spec fn verdict(function: SingleInputFunction, input: Datum, args: Seq<Datum>) -> Result<
    bool,
    Failure,
> {
    if function is Empty || function is NonEmpty {
        length_verdict(function, input, args)
    } else if function.is_numeric() {
        numeric_verdict(function, input, args)
    } else if function.is_text_pair() {
        text_pair_verdict(function, input, args)
    } else {
        any_of_verdict(function, input, args)
    }
}

/// The test of a predicate that takes one text argument and reads the texts
/// as they stand, made of two texts.
pub fn compare_texts(function: SingleInputFunction, input: &str, arg: &str) -> (r: bool)
    requires
        function is Equal || function is EqualIgnoreCase || function is StartsWith
            || function is EndsWith || function is Contains,
    ensures
        r == text_pair_test(function, input@, arg@),
{
    match function {
        SingleInputFunction::Equal => str_eq(input, arg),
        SingleInputFunction::EqualIgnoreCase => eq_ignore_ascii_case(input, arg),
        SingleInputFunction::StartsWith => starts_with(input, arg),
        SingleInputFunction::EndsWith => ends_with(input, arg),
        _ => contains(input, arg),
    }
}

/// The test of any predicate that takes one text argument, made of two texts.
/// The predicates that ignore case in a prefix, a suffix or an occurrence
/// make the test of their exact counterpart on the lower-case forms.
pub fn test_text_pair(function: SingleInputFunction, input: &str, arg: &str) -> (r: bool)
    requires
        function.is_text_pair(),
    ensures
        r == text_pair_test(function, input@, arg@),
{
    match function {
        SingleInputFunction::StartsWithIgnoreCase => {
            let input_lower = to_lowercase(input);
            let arg_lower = to_lowercase(arg);
            compare_texts(SingleInputFunction::StartsWith, input_lower.as_str(), arg_lower.as_str())
        },
        SingleInputFunction::EndsWithIgnoreCase => {
            let input_lower = to_lowercase(input);
            let arg_lower = to_lowercase(arg);
            compare_texts(SingleInputFunction::EndsWith, input_lower.as_str(), arg_lower.as_str())
        },
        SingleInputFunction::ContainsIgnoreCase => {
            let input_lower = to_lowercase(input);
            let arg_lower = to_lowercase(arg);
            compare_texts(SingleInputFunction::Contains, input_lower.as_str(), arg_lower.as_str())
        },
        _ => compare_texts(function, input, arg),
    }
}

/// Applies a predicate that takes one text argument.
fn apply_text_pair(function: SingleInputFunction, input: &Datum, args: &Vec<Datum>) -> (r: Result<
    bool,
    EngineError,
>)
    requires
        function.is_text_pair(),
    ensures
        outcome(r) == text_pair_verdict(function, *input, args@),
{
    let name = FunctionName::Single(function);
    if args.len() != 1 {
        return Err(EngineError::Arity { function: name, expected: 1, found: args.len() });
    }
    match input {
        Datum::String(t) => match &args[0] {
            Datum::String(a) => Ok(test_text_pair(function, t.chars.as_str(), a.chars.as_str())),
            _ => Err(EngineError::TypeMismatch { function: name, operand: Operand::Argument(0) }),
        },
        _ => Err(EngineError::TypeMismatch { function: name, operand: Operand::Input }),
    }
}

/// Whether some argument is a text equal to `input`.
pub fn equal_to_any(input: &str, args: &Vec<Datum>, fold_case: bool) -> (r: bool)
    ensures
        r == equals_any(input@, args@, fold_case),
{
    let mut i: usize = 0;
    while i < args.len()
        invariant
            i <= args.len(),
            forall|j: int| 0 <= j < i ==> !#[trigger] matches_at(input@, args@, fold_case, j),
        decreases args.len() - i,
    {
        match &args[i] {
            Datum::String(a) => {
                let same = if fold_case {
                    eq_ignore_ascii_case(input, a.chars.as_str())
                } else {
                    str_eq(input, a.chars.as_str())
                };
                if same {
                    assert(matches_at(input@, args@, fold_case, i as int));
                    return true;
                }
            },
            _ => {},
        }
        i += 1;
    }
    false
}

/// The general predicates: `Empty`, `NonEmpty` and `Equal`.
pub fn default_general_functions(function: SingleInputFunction, input: &Datum, args: &Vec<Datum>) -> (r:
    Result<bool, EngineError>)
    requires
        function.is_general(),
    ensures
        outcome(r) == verdict(function, *input, args@),
{
    let name = FunctionName::Single(function);
    match function {
        SingleInputFunction::Equal => apply_text_pair(function, input, args),
        _ => {
            if args.len() != 0 {
                return Err(EngineError::Arity { function: name, expected: 0, found: args.len() });
            }
            match input {
                Datum::String(t) => {
                    let empty = t.chars.as_str().is_empty();
                    match function {
                        SingleInputFunction::Empty => Ok(empty),
                        _ => Ok(!empty),
                    }
                },
                _ => Err(EngineError::TypeMismatch { function: name, operand: Operand::Input }),
            }
        },
    }
}

/// Reads the operands of a numeric predicate as numbers.
pub fn parse_numeric(
    function_name: SingleInputFunction,
    input: &Datum,
    args: &Vec<Datum>,
    required_args_count: usize,
) -> (r: Result<(Number, Vec<Number>), EngineError>)
    ensures
        match r {
            Ok((n, numbers)) => numeric_operands(function_name, *input, args@, required_args_count)
                == Ok::<(Number, Seq<Number>), Failure>((n, numbers@)),
            Err(e) => numeric_operands(function_name, *input, args@, required_args_count) == Err::<
                (Number, Seq<Number>),
                Failure,
            >(e@),
        },
{
    let name = FunctionName::Single(function_name);
    let input_no = match input.as_number(name, Operand::Input) {
        Ok(n) => n,
        Err(e) => { return Err(e); },
    };
    if args.len() != required_args_count {
        return Err(
            EngineError::Arity { function: name, expected: required_args_count, found: args.len() },
        );
    }
    let mut args_nr: Vec<Number> = Vec::with_capacity(required_args_count);
    let mut i: usize = 0;
    while i < args.len()
        invariant
            i <= args.len(),
            name == FunctionName::Single(function_name),
            args.len() == required_args_count,
            input.number_reading(name, Operand::Input) == Ok::<Number, Failure>(input_no),
            argument_numbers(function_name, args@, i as int) == Ok::<Seq<Number>, Failure>(
                args_nr@,
            ),
        decreases args.len() - i,
    {
        match args[i].as_number(name, Operand::Argument(i)) {
            Ok(n) => {
                args_nr.push(n);
            },
            Err(e) => {
                proof {
                    assert(argument_numbers(function_name, args@, i as int + 1) == Err::<
                        Seq<Number>,
                        Failure,
                    >(e@));
                    lemma_argument_numbers_failure(
                        function_name,
                        args@,
                        i as int + 1,
                        args@.len() as int,
                    );
                }
                return Err(e);
            },
        }
        i += 1;
    }
    Ok((input_no, args_nr))
}

/// Once the reading of the arguments has failed, it fails in the same way
/// however many more arguments are read.
pub proof fn lemma_argument_numbers_failure(
    function: SingleInputFunction,
    args: Seq<Datum>,
    upto: int,
    more: int,
)
    requires
        upto <= more,
        argument_numbers(function, args, upto) is Err,
    ensures
        argument_numbers(function, args, more) == argument_numbers(function, args, upto),
    decreases more - upto,
{
    if upto < more {
        lemma_argument_numbers_failure(function, args, upto, more - 1);
    }
}

/// The numeric predicates: comparisons of the value with one bound, and
/// tests of the value against a range.
pub fn default_numeric_function(function: SingleInputFunction, input: &Datum, args: &Vec<Datum>) -> (r:
    Result<bool, EngineError>)
    requires
        function.is_numeric(),
    ensures
        outcome(r) == verdict(function, *input, args@),
{
    let required: usize = match function {
        SingleInputFunction::Between
        | SingleInputFunction::BetweenEq
        | SingleInputFunction::NotBetween
        | SingleInputFunction::NotBetweenEq => 2,
        _ => 1,
    };
    match parse_numeric(function, input, args, required) {
        Ok((num, args_no)) => {
            let verdict = match function {
                SingleInputFunction::Greater => num.gt(&args_no[0]),
                SingleInputFunction::GreaterEq => num.ge(&args_no[0]),
                SingleInputFunction::Lower => num.lt(&args_no[0]),
                SingleInputFunction::LowerEq => num.le(&args_no[0]),
                SingleInputFunction::Between => num.gt(&args_no[0]) && num.lt(&args_no[1]),
                SingleInputFunction::BetweenEq => num.ge(&args_no[0]) && num.le(&args_no[1]),
                SingleInputFunction::NotBetween => num.le(&args_no[0]) || num.ge(&args_no[1]),
                _ => num.lt(&args_no[0]) || num.gt(&args_no[1]),
            };
            Ok(verdict)
        },
        Err(e) => Err(e),
    }
}

/// The predicates on texts: equality and the tests of prefix, suffix and
/// occurrence, each with and without regard to case, and membership.
pub fn default_string_function(function: SingleInputFunction, input: &Datum, args: &Vec<Datum>) -> (r:
    Result<bool, EngineError>)
    requires
        function.is_string(),
    ensures
        outcome(r) == verdict(function, *input, args@),
{
    let name = FunctionName::Single(function);
    match function {
        SingleInputFunction::EqualAny
        | SingleInputFunction::EqualAnyIgnoreCase
        | SingleInputFunction::NotEqualAny => {
            match input {
                Datum::String(t) => {
                    let fold_case = match function {
                        SingleInputFunction::EqualAnyIgnoreCase => true,
                        _ => false,
                    };
                    let found = equal_to_any(t.chars.as_str(), args, fold_case);
                    match function {
                        SingleInputFunction::NotEqualAny => Ok(!found),
                        _ => Ok(found),
                    }
                },
                _ => Err(EngineError::TypeMismatch { function: name, operand: Operand::Input }),
            }
        },
        _ => apply_text_pair(function, input, args),
    }
}

/// Applies a predicate to a value and its arguments.
pub fn default(function: SingleInputFunction, input: &Datum, args: &Vec<Datum>) -> (r: Result<
    bool,
    EngineError,
>)
    ensures
        outcome(r) == verdict(function, *input, args@),
{
    match function {
        SingleInputFunction::Empty | SingleInputFunction::NonEmpty | SingleInputFunction::Equal => {
            default_general_functions(function, input, args)
        },
        SingleInputFunction::Greater
        | SingleInputFunction::GreaterEq
        | SingleInputFunction::Lower
        | SingleInputFunction::LowerEq
        | SingleInputFunction::Between
        | SingleInputFunction::BetweenEq
        | SingleInputFunction::NotBetween
        | SingleInputFunction::NotBetweenEq => default_numeric_function(function, input, args),
        _ => default_string_function(function, input, args),
    }
}

/// Of numbers none of which is a NaN, `NotBetween` holds exactly where
/// `Between` does not, and `NotBetweenEq` exactly where `BetweenEq` does not.
pub proof fn lemma_not_between_is_the_complement(v: Number, low: Number, high: Number)
    requires
        !v.is_nan(),
        !low.is_nan(),
        !high.is_nan(),
    ensures
        numeric_test(SingleInputFunction::NotBetween, v, seq![low, high]) == !numeric_test(
            SingleInputFunction::Between,
            v,
            seq![low, high],
        ),
        numeric_test(SingleInputFunction::NotBetweenEq, v, seq![low, high]) == !numeric_test(
            SingleInputFunction::BetweenEq,
            v,
            seq![low, high],
        ),
{
}

/// `NotEqualAny` says `true` exactly where `EqualAny` says `false`, and
/// fails exactly where `EqualAny` fails.
pub proof fn lemma_not_equal_any_is_the_complement(input: Datum, args: Seq<Datum>)
    ensures
        match verdict(SingleInputFunction::EqualAny, input, args) {
            Ok(found) => verdict(SingleInputFunction::NotEqualAny, input, args) == Ok::<
                bool,
                Failure,
            >(!found),
            Err(_) => verdict(SingleInputFunction::NotEqualAny, input, args) == Err::<
                bool,
                Failure,
            >(not_a_text(SingleInputFunction::NotEqualAny, Operand::Input)),
        },
{
}

/// A predicate that reads its operands as texts fails with `Arity` whenever
/// it is given another number of arguments than it takes, whatever its
/// operands are. A numeric predicate does so once its input reads as a
/// number.
pub proof fn lemma_wrong_count_is_arity(function: SingleInputFunction, input: Datum, args: Seq<Datum>)
    requires
        function.arity() matches Some(n) && args.len() != n,
        function.is_numeric() ==> input.number_reading(
            FunctionName::Single(function),
            Operand::Input,
        ) is Ok,
    ensures
        verdict(function, input, args) == Err::<bool, Failure>(
            wrong_arity(function, function.arity().unwrap(), args.len()),
        ),
{
}

} // verus!
