//! Numeric reductions over a list of text-encoded numbers.

use vstd::prelude::*;
use crate::error::{EngineError, Failure, FunctionName, Operand, outcome};
use crate::number::{INFINITY_BITS, NEG_INFINITY_BITS, Number};
use crate::text::str_eq;
use crate::value::Datum;

verus! {

/// The reductions.
#[derive(Clone, Copy, Debug, PartialEq, Eq, Hash, Structural)]
pub enum Aggregator {
    Sum,
    Min,
    Max,
    Avg,
    Count,
}

impl Aggregator {
    /// The name under which a reduction is registered.
    pub open spec fn label(self) -> Seq<char> {
        match self {
            Aggregator::Sum => "Sum"@,
            Aggregator::Min => "Min"@,
            Aggregator::Max => "Max"@,
            Aggregator::Avg => "Avg"@,
            Aggregator::Count => "Count"@,
        }
    }

    /// The name under which a reduction is registered.
    pub fn name(self) -> (s: &'static str)
        ensures
            s@ == self.label(),
    {
        match self {
            Aggregator::Sum => "Sum",
            Aggregator::Min => "Min",
            Aggregator::Max => "Max",
            Aggregator::Avg => "Avg",
            Aggregator::Count => "Count",
        }
    }

    /// The reduction registered under a name, which is matched exactly.
    pub fn from_name(name: &str) -> (r: Result<Aggregator, EngineError>)
        ensures
            match r {
                Ok(function) => function.label() == name@,
                Err(e) => e@ == (Failure::UnknownFunction { name: name@ })
                    && forall|function: Aggregator| function.label() != name@,
            },
    {
        if str_eq(name, "Sum") {
            Ok(Aggregator::Sum)
        } else if str_eq(name, "Min") {
            Ok(Aggregator::Min)
        } else if str_eq(name, "Max") {
            Ok(Aggregator::Max)
        } else if str_eq(name, "Avg") {
            Ok(Aggregator::Avg)
        } else if str_eq(name, "Count") {
            Ok(Aggregator::Count)
        } else {
            Err(EngineError::UnknownFunction { name: name.to_owned() })
        }
    }
}

/// What a reduction comes to. The library adds and divides no numbers: where
/// the result is a sum or a mean, it names the numbers to add.
#[derive(Clone, Debug, PartialEq, Eq)]
pub enum Aggregate {
    /// The result is this number.
    Number(Number),
    /// The result is this count.
    Count(usize),
    /// The result is the sum of these numbers, added from the first on.
    SumOf(Vec<Number>),
    /// The result is the sum of these numbers divided by their count, which
    /// is not zero.
    MeanOf(Vec<Number>),
}

/// An `Aggregate` with its numbers as a sequence.
pub enum Reduced {
    Number(Number),
    Count(usize),
    SumOf(Seq<Number>),
    MeanOf(Seq<Number>),
}

impl View for Aggregate {
    type V = Reduced;

    open spec fn view(&self) -> Reduced {
        match *self {
            Aggregate::Number(n) => Reduced::Number(n),
            Aggregate::Count(n) => Reduced::Count(n),
            Aggregate::SumOf(numbers) => Reduced::SumOf(numbers@),
            Aggregate::MeanOf(numbers) => Reduced::MeanOf(numbers@),
        }
    }
}

/// The readings as numbers of the first `upto` inputs, or the failure of the
/// first among them that has none.
pub open spec fn input_numbers(function: Aggregator, inputs: Seq<Datum>, upto: int) -> Result<
    Seq<Number>,
    Failure,
>
    decreases upto,
{
    if upto <= 0 {
        Ok(Seq::empty())
    } else {
        match input_numbers(function, inputs, upto - 1) {
            Err(e) => Err(e),
            Ok(numbers) => match inputs[upto - 1].number_reading(
                FunctionName::Aggregate(function),
                Operand::Argument((upto - 1) as usize),
            ) {
                Err(e) => Err(e),
                Ok(n) => Ok(numbers.push(n)),
            },
        }
    }
}

/// The inputs of a reduction as numbers: `EmptyInput` where there is none,
/// else the reading of each in turn.
pub open spec fn parsed_inputs(function: Aggregator, inputs: Seq<Datum>) -> Result<
    Seq<Number>,
    Failure,
> {
    if inputs.len() == 0 {
        Err(Failure::EmptyInput { function: FunctionName::Aggregate(function) })
    } else {
        input_numbers(function, inputs, inputs.len() as int)
    }
}

/// The greatest of some numbers: negative infinity, raised by each number in
/// turn. A NaN among them raises nothing.
pub open spec fn maximum(numbers: Seq<Number>) -> Number
    decreases numbers.len(),
{
    if numbers.len() == 0 {
        Number { bits: NEG_INFINITY_BITS }
    } else {
        maximum(numbers.drop_last()).greater_of(numbers.last())
    }
}

/// The least of some numbers: positive infinity, lowered by each number in
/// turn. A NaN among them lowers nothing.
pub open spec fn minimum(numbers: Seq<Number>) -> Number
    decreases numbers.len(),
{
    if numbers.len() == 0 {
        Number { bits: INFINITY_BITS }
    } else {
        minimum(numbers.drop_last()).lesser_of(numbers.last())
    }
}

/// What a reduction comes to on given inputs. `Count` takes any inputs, and
/// reads none as a number; every other reduction wants an input and reads
/// them all first.
pub open spec fn aggregate(function: Aggregator, inputs: Seq<Datum>) -> Result<Reduced, Failure> {
    if function is Count {
        Ok(Reduced::Count(inputs.len() as usize))
    } else {
        match parsed_inputs(function, inputs) {
            Err(e) => Err(e),
            Ok(numbers) => Ok(
                match function {
                    Aggregator::Sum => Reduced::SumOf(numbers),
                    Aggregator::Avg => Reduced::MeanOf(numbers),
                    Aggregator::Max => Reduced::Number(maximum(numbers)),
                    _ => Reduced::Number(minimum(numbers)),
                },
            ),
        }
    }
}

/// Once the reading of the inputs has failed, it fails in the same way
/// however many more inputs are read.
pub proof fn lemma_input_numbers_failure(function: Aggregator, inputs: Seq<Datum>, upto: int, more: int)
    requires
        upto <= more,
        input_numbers(function, inputs, upto) is Err,
    ensures
        input_numbers(function, inputs, more) == input_numbers(function, inputs, upto),
    decreases more - upto,
{
    if upto < more {
        lemma_input_numbers_failure(function, inputs, upto, more - 1);
    }
}

/// Reads the inputs of a reduction as numbers.
pub fn parse_inputs_to_numbers(function: Aggregator, inputs: &Vec<Datum>) -> (r: Result<
    Vec<Number>,
    EngineError,
>)
    ensures
        match r {
            Ok(numbers) => parsed_inputs(function, inputs@) == Ok::<Seq<Number>, Failure>(numbers@),
            Err(e) => parsed_inputs(function, inputs@) == Err::<Seq<Number>, Failure>(e@),
        },
{
    let name = FunctionName::Aggregate(function);
    if inputs.len() == 0 {
        return Err(EngineError::EmptyInput { function: name });
    }
    let mut inputs_nr: Vec<Number> = Vec::new();
    let mut i: usize = 0;
    while i < inputs.len()
        invariant
            i <= inputs.len(),
            inputs.len() != 0,
            name == FunctionName::Aggregate(function),
            input_numbers(function, inputs@, i as int) == Ok::<Seq<Number>, Failure>(inputs_nr@),
        decreases inputs.len() - i,
    {
        match inputs[i].as_number(name, Operand::Argument(i)) {
            Ok(n) => {
                inputs_nr.push(n);
            },
            Err(e) => {
                proof {
                    assert(input_numbers(function, inputs@, i as int + 1) == Err::<
                        Seq<Number>,
                        Failure,
                    >(e@));
                    lemma_input_numbers_failure(
                        function,
                        inputs@,
                        i as int + 1,
                        inputs@.len() as int,
                    );
                }
                return Err(e);
            },
        }
        i += 1;
    }
    Ok(inputs_nr)
}

/// The greatest of some numbers.
pub fn max_of(numbers: &Vec<Number>) -> (r: Number)
    ensures
        r == maximum(numbers@),
{
    let mut mx = Number::neg_infinity();
    let mut i: usize = 0;
    while i < numbers.len()
        invariant
            i <= numbers.len(),
            mx == maximum(numbers@.take(i as int)),
        decreases numbers.len() - i,
    {
        assert(numbers@.take(i as int + 1).drop_last() == numbers@.take(i as int));
        mx = mx.max(numbers[i]);
        i += 1;
    }
    assert(numbers@.take(numbers@.len() as int) == numbers@);
    mx
}

/// The least of some numbers.
pub fn min_of(numbers: &Vec<Number>) -> (r: Number)
    ensures
        r == minimum(numbers@),
{
    let mut mn = Number::infinity();
    let mut i: usize = 0;
    while i < numbers.len()
        invariant
            i <= numbers.len(),
            mn == minimum(numbers@.take(i as int)),
        decreases numbers.len() - i,
    {
        assert(numbers@.take(i as int + 1).drop_last() == numbers@.take(i as int));
        mn = mn.min(numbers[i]);
        i += 1;
    }
    assert(numbers@.take(numbers@.len() as int) == numbers@);
    mn
}

/// Reduces a list of text-encoded numbers.
pub fn default_aggregate_function(function: Aggregator, input: &Vec<Datum>) -> (r: Result<
    Aggregate,
    EngineError,
>)
    ensures
        match r {
            Ok(a) => aggregate(function, input@) == Ok::<Reduced, Failure>(a@),
            Err(e) => aggregate(function, input@) == Err::<Reduced, Failure>(e@),
        },
{
    match function {
        Aggregator::Count => Ok(Aggregate::Count(input.len())),
        _ => {
            let inputs_as_numbers = match parse_inputs_to_numbers(function, input) {
                Ok(numbers) => numbers,
                Err(e) => { return Err(e); },
            };
            match function {
                Aggregator::Sum => Ok(Aggregate::SumOf(inputs_as_numbers)),
                Aggregator::Avg => Ok(Aggregate::MeanOf(inputs_as_numbers)),
                Aggregator::Max => Ok(Aggregate::Number(max_of(&inputs_as_numbers))),
                _ => Ok(Aggregate::Number(min_of(&inputs_as_numbers))),
            }
        },
    }
}

/// The greatest of some numbers is none of their NaNs unless all are, is at
/// least each of them that is no NaN, and is one of them or negative
/// infinity.
pub proof fn lemma_maximum_is_greatest(numbers: Seq<Number>)
    ensures
        !maximum(numbers).is_nan() || (numbers.len() > 0 && forall|i: int|
            0 <= i < numbers.len() ==> (#[trigger] numbers[i]).is_nan()),
        forall|i: int|
            0 <= i < numbers.len() && !(#[trigger] numbers[i]).is_nan() ==> numbers[i].at_most(
                maximum(numbers),
            ),
        maximum(numbers).bits == NEG_INFINITY_BITS || exists|i: int|
            0 <= i < numbers.len() && #[trigger] numbers[i] == maximum(numbers),
    decreases numbers.len(),
{
    if numbers.len() > 0 {
        let front = numbers.drop_last();
        lemma_maximum_is_greatest(front);
        assert(forall|i: int| 0 <= i < front.len() ==> front[i] == numbers[i]);
        let m = maximum(front);
        if m.bits != NEG_INFINITY_BITS && maximum(numbers) == m {
            let w = choose|i: int| 0 <= i < front.len() && #[trigger] front[i] == m;
            assert(numbers[w] == maximum(numbers));
        } else if maximum(numbers) == numbers.last() {
            assert(numbers[numbers.len() - 1] == maximum(numbers));
        }
    }
}

/// The least of some numbers is none of their NaNs unless all are, is at most
/// each of them that is no NaN, and is one of them or positive infinity.
pub proof fn lemma_minimum_is_least(numbers: Seq<Number>)
    ensures
        !minimum(numbers).is_nan() || (numbers.len() > 0 && forall|i: int|
            0 <= i < numbers.len() ==> (#[trigger] numbers[i]).is_nan()),
        forall|i: int|
            0 <= i < numbers.len() && !(#[trigger] numbers[i]).is_nan() ==> minimum(
                numbers,
            ).at_most(numbers[i]),
        minimum(numbers).bits == INFINITY_BITS || exists|i: int|
            0 <= i < numbers.len() && #[trigger] numbers[i] == minimum(numbers),
    decreases numbers.len(),
{
    if numbers.len() > 0 {
        let front = numbers.drop_last();
        lemma_minimum_is_least(front);
        assert(forall|i: int| 0 <= i < front.len() ==> front[i] == numbers[i]);
        let m = minimum(front);
        if m.bits != INFINITY_BITS && minimum(numbers) == m {
            let w = choose|i: int| 0 <= i < front.len() && #[trigger] front[i] == m;
            assert(numbers[w] == minimum(numbers));
        } else if minimum(numbers) == numbers.last() {
            assert(numbers[numbers.len() - 1] == minimum(numbers));
        }
    }
}

/// No two reductions are registered under one name.
pub proof fn lemma_labels_differ(f: Aggregator, g: Aggregator)
    ensures
        f.label() == g.label() ==> f == g,
{
    reveal_strlit("Sum");
    reveal_strlit("Min");
    reveal_strlit("Max");
    reveal_strlit("Avg");
    reveal_strlit("Count");
    if f.label() == g.label() {
        assert(f.label().len() == g.label().len());
        assert(f.label()[0] == g.label()[0]);
        assert(f.label()[1] == g.label()[1]);
    }
}

} // verus!
