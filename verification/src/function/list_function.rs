//! Quantified constraints over the elements of a list.

use vstd::prelude::*;
use crate::condition::Condition;
use crate::error::{EngineError, Failure, FunctionName, outcome};
use crate::text::str_eq;
use crate::value::Record;

verus! {

/// The quantifiers.
#[derive(Clone, Copy, Debug, PartialEq, Eq, Hash, Structural)]
pub enum ListFunction {
    All,
    AtLeast,
    AtMost,
    Exactly,
    NoneElement,
    AtLeastFraction,
    AtMostFraction,
}

impl ListFunction {
    /// The name under which a quantifier is registered.
    pub open spec fn label(self) -> Seq<char> {
        match self {
            ListFunction::All => "All"@,
            ListFunction::AtLeast => "AtLeast"@,
            ListFunction::AtMost => "AtMost"@,
            ListFunction::Exactly => "Exactly"@,
            ListFunction::NoneElement => "NoneElement"@,
            ListFunction::AtLeastFraction => "AtLeastFraction"@,
            ListFunction::AtMostFraction => "AtMostFraction"@,
        }
    }

    /// The name under which a quantifier is registered.
    pub fn name(self) -> (s: &'static str)
        ensures
            s@ == self.label(),
    {
        match self {
            ListFunction::All => "All",
            ListFunction::AtLeast => "AtLeast",
            ListFunction::AtMost => "AtMost",
            ListFunction::Exactly => "Exactly",
            ListFunction::NoneElement => "NoneElement",
            ListFunction::AtLeastFraction => "AtLeastFraction",
            ListFunction::AtMostFraction => "AtMostFraction",
        }
    }

    /// The quantifier registered under a name, which is matched exactly.
    pub fn from_name(name: &str) -> (r: Result<ListFunction, EngineError>)
        ensures
            match r {
                Ok(function) => function.label() == name@,
                Err(e) => e@ == (Failure::UnknownFunction { name: name@ })
                    && forall|function: ListFunction| function.label() != name@,
            },
    {
        if str_eq(name, "All") {
            Ok(ListFunction::All)
        } else if str_eq(name, "AtLeast") {
            Ok(ListFunction::AtLeast)
        } else if str_eq(name, "AtMost") {
            Ok(ListFunction::AtMost)
        } else if str_eq(name, "Exactly") {
            Ok(ListFunction::Exactly)
        } else if str_eq(name, "NoneElement") {
            Ok(ListFunction::NoneElement)
        } else if str_eq(name, "AtLeastFraction") {
            Ok(ListFunction::AtLeastFraction)
        } else if str_eq(name, "AtMostFraction") {
            Ok(ListFunction::AtMostFraction)
        } else {
            Err(EngineError::UnknownFunction { name: name.to_owned() })
        }
    }
}

/// The number of arguments that a quantifier takes.
pub open spec fn argument_number(function: ListFunction) -> usize {
    match function {
        ListFunction::All | ListFunction::NoneElement => 0,
        ListFunction::AtLeast | ListFunction::AtMost | ListFunction::Exactly => 1,
        ListFunction::AtLeastFraction | ListFunction::AtMostFraction => 2,
    }
}

/// The comparison that a fraction quantifier asks for: of the elements that
/// pass with the fraction `num / den` of all elements.
#[derive(Clone, Copy, Debug, PartialEq, Eq, Hash, Structural)]
pub struct Fraction {
    pub list_total: usize,
    pub passed_total: usize,
    pub num: i32,
    pub den: i32,
}

/// What a quantifier comes to. The library computes with no floats: where
/// the quantifier asks for a fraction, it names the comparison to make.
#[derive(Clone, Copy, Debug, PartialEq, Eq, Hash, Structural)]
pub enum Quantified {
    /// The quantifier holds, or does not.
    Decided(bool),
    /// The quantifier holds where `passed_total >= (list_total / den) * num`,
    /// with each count and argument taken as a 64-bit float, and the
    /// division, the product and the comparison made on such floats, with no
    /// tolerance.
    AtLeast(Fraction),
    /// The quantifier holds where `passed_total <= (list_total / den) * num`,
    /// computed in the same way.
    AtMost(Fraction),
}

/// Whether a quantifier that counts holds of a list of `list_total` elements
/// of which `passed_total` pass. The counts and the argument are compared as
/// integers, so that a negative argument is below every count.
pub open spec fn holds(function: ListFunction, list_total: int, passed_total: int, args: Seq<i32>) -> bool {
    match function {
        ListFunction::All => passed_total == list_total,
        ListFunction::AtLeast => passed_total >= args[0],
        ListFunction::AtMost => passed_total <= args[0],
        ListFunction::Exactly => passed_total == args[0],
        _ => passed_total == 0,
    }
}

/// What a quantifier that is given the number of arguments it takes comes to:
/// a quantifier that counts is decided, and a fraction quantifier names its
/// comparison, with the first argument as `num` and the second as `den`.
pub open spec fn quantified(
    function: ListFunction,
    list_total: usize,
    passed_total: usize,
    args: Seq<i32>,
) -> Quantified {
    match function {
        ListFunction::AtLeastFraction => Quantified::AtLeast(
            Fraction { list_total, passed_total, num: args[0], den: args[1] },
        ),
        ListFunction::AtMostFraction => Quantified::AtMost(
            Fraction { list_total, passed_total, num: args[0], den: args[1] },
        ),
        _ => Quantified::Decided(holds(function, list_total as int, passed_total as int, args)),
    }
}

/// What a quantifier says of the two counts: `Arity` unless it is given the
/// number of arguments it takes.
pub open spec fn list_verdict(
    function: ListFunction,
    list_total: usize,
    passed_total: usize,
    args: Seq<i32>,
) -> Result<Quantified, Failure> {
    if args.len() != argument_number(function) {
        Err(
            Failure::Arity {
                function: FunctionName::List(function),
                expected: argument_number(function),
                found: args.len() as usize,
            },
        )
    } else {
        Ok(quantified(function, list_total, passed_total, args))
    }
}

/// The number of arguments that a quantifier takes.
pub fn list_function_constraints_argument_number(constraint_name: ListFunction) -> (n: usize)
    ensures
        n == argument_number(constraint_name),
{
    match constraint_name {
        ListFunction::All => 0,
        ListFunction::AtLeast => 1,
        ListFunction::AtMost => 1,
        ListFunction::Exactly => 1,
        ListFunction::NoneElement => 0,
        ListFunction::AtLeastFraction => 2,
        ListFunction::AtMostFraction => 2,
    }
}

/// Decides a quantifier from the number of elements of a list and the number
/// of those that pass, as far as integers decide it.
pub fn default_list_function(
    function: ListFunction,
    list_total: usize,
    passed_total: usize,
    args: &[i32],
) -> (r: Result<Quantified, EngineError>)
    ensures
        outcome(r) == list_verdict(function, list_total, passed_total, args@),
{
    let expected = list_function_constraints_argument_number(function);
    if args.len() != expected {
        return Err(
            EngineError::Arity {
                function: FunctionName::List(function),
                expected,
                found: args.len(),
            },
        );
    }
    let verdict = match function {
        ListFunction::All => passed_total == list_total,
        ListFunction::AtLeast => args[0] < 0 || passed_total as i128 >= args[0] as i128,
        ListFunction::AtMost => args[0] >= 0 && passed_total as i128 <= args[0] as i128,
        ListFunction::Exactly => args[0] >= 0 && passed_total as i128 == args[0] as i128,
        ListFunction::NoneElement => passed_total == 0,
        ListFunction::AtLeastFraction => {
            return Ok(
                Quantified::AtLeast(
                    Fraction { list_total, passed_total, num: args[0], den: args[1] },
                ),
            );
        },
        ListFunction::AtMostFraction => {
            return Ok(
                Quantified::AtMost(
                    Fraction { list_total, passed_total, num: args[0], den: args[1] },
                ),
            );
        },
    };
    Ok(Quantified::Decided(verdict))
}

/// The number of `true` among some verdicts.
pub open spec fn tally(verdicts: Seq<bool>) -> nat
    decreases verdicts.len(),
{
    if verdicts.len() == 0 {
        0
    } else {
        tally(verdicts.drop_last()) + if verdicts.last() {
            1nat
        } else {
            0nat
        }
    }
}

/// Whether the condition may be called on every element.
pub open spec fn callable_on_all<F: Fn(&Record) -> Result<bool, EngineError>>(
    condition: &Condition<F>,
    elements: Seq<Record>,
) -> bool {
    forall|i: int| 0 <= i < elements.len() ==> condition.callable(#[trigger] &elements[i])
}

/// Whether the condition may give these verdicts of the first elements, one
/// verdict for each element.
pub open spec fn may_judge<F: Fn(&Record) -> Result<bool, EngineError>>(
    condition: &Condition<F>,
    elements: Seq<Record>,
    verdicts: Seq<bool>,
) -> bool {
    &&& verdicts.len() <= elements.len()
    &&& forall|i: int|
        0 <= i < verdicts.len() ==> condition.may_yield(
            &elements[i],
            Ok::<bool, EngineError>(#[trigger] verdicts[i]),
        )
}

/// Whether the evaluation of a quantifier over the elements may end in
/// `out`. A quantifier that is not given the number of arguments it takes
/// fails with `Arity` before any element is looked at. Else the condition
/// judges the elements in order: its first failure is the failure of the
/// whole, and where it fails on none, the quantifier decides from the number
/// of elements and the number of those that pass.
pub open spec fn quantifier_may_yield<F: Fn(&Record) -> Result<bool, EngineError>>(
    function: ListFunction,
    args: Seq<i32>,
    elements: Seq<Record>,
    condition: &Condition<F>,
    out: Result<Quantified, EngineError>,
) -> bool {
    if args.len() != argument_number(function) {
        outcome(out) == list_verdict(function, 0, 0, args)
    } else {
        match out {
            Ok(q) => exists|verdicts: Seq<bool>|
                #![trigger may_judge(condition, elements, verdicts)]
                may_judge(condition, elements, verdicts) && verdicts.len() == elements.len() && q
                    == quantified(
                    function,
                    elements.len() as usize,
                    tally(verdicts) as usize,
                    args,
                ),
            Err(e) => exists|verdicts: Seq<bool>|
                #![trigger may_judge(condition, elements, verdicts)]
                may_judge(condition, elements, verdicts) && verdicts.len() < elements.len()
                    && condition.may_yield(
                    &elements[verdicts.len() as int],
                    Err::<bool, EngineError>(e),
                ),
        }
    }
}

/// Evaluates a quantifier over the elements of a list: the condition is
/// applied to each element, and the quantifier to the counts.
pub fn evaluate_list_function<F: Fn(&Record) -> Result<bool, EngineError>>(
    function: ListFunction,
    args: &[i32],
    elements: &Vec<Record>,
    condition: &Condition<F>,
) -> (out: Result<Quantified, EngineError>)
    requires
        callable_on_all(condition, elements@),
    ensures
        quantifier_may_yield(function, args@, elements@, condition, out),
{
    if args.len() != list_function_constraints_argument_number(function) {
        return default_list_function(function, 0, 0, args);
    }
    let list_total = elements.len();
    let mut passed_total: usize = 0;
    let ghost mut verdicts: Seq<bool> = Seq::empty();
    let mut i: usize = 0;
    while i < list_total
        invariant
            i <= list_total,
            list_total == elements.len(),
            args.len() == argument_number(function),
            callable_on_all(condition, elements@),
            verdicts.len() == i,
            may_judge(condition, elements@, verdicts),
            passed_total == tally(verdicts),
            passed_total <= i,
        decreases list_total - i,
    {
        assert(condition.callable(&elements@[i as int]));
        match condition.eval(&elements[i]) {
            Ok(passed) => {
                proof {
                    let before = verdicts;
                    verdicts = verdicts.push(passed);
                    assert(verdicts.drop_last() == before);
                }
                if passed {
                    passed_total += 1;
                }
            },
            Err(e) => {
                return Err(e);
            },
        }
        i += 1;
    }
    let out = default_list_function(function, list_total, passed_total, args);
    assert(may_judge(condition, elements@, verdicts));
    out
}

/// The verdicts in the first `upto` answers, or the first failure among
/// them.
pub open spec fn judged(answers: Seq<Result<bool, EngineError>>, upto: int) -> Result<
    Seq<bool>,
    EngineError,
>
    decreases upto,
{
    if upto <= 0 {
        Ok(Seq::empty())
    } else {
        match judged(answers, upto - 1) {
            Err(e) => Err(e),
            Ok(verdicts) => match answers[upto - 1] {
                Ok(b) => Ok(verdicts.push(b)),
                Err(e) => Err(e),
            },
        }
    }
}

/// Answers that are all verdicts are judged to be these verdicts.
pub proof fn lemma_judged_verdicts(
    answers: Seq<Result<bool, EngineError>>,
    verdicts: Seq<bool>,
    upto: int,
)
    requires
        0 <= upto <= verdicts.len() <= answers.len(),
        forall|i: int|
            0 <= i < verdicts.len() ==> answers[i] == Ok::<bool, EngineError>(#[trigger] verdicts[i]),
    ensures
        judged(answers, upto) == Ok::<Seq<bool>, EngineError>(verdicts.take(upto)),
    decreases upto,
{
    if upto > 0 {
        lemma_judged_verdicts(answers, verdicts, upto - 1);
        assert(verdicts.take(upto - 1).push(verdicts[upto - 1]) =~= verdicts.take(upto));
    } else {
        assert(verdicts.take(0) =~= Seq::<bool>::empty());
    }
}

/// Once the judging has met a failure, it ends in that failure however many
/// more answers are judged.
pub proof fn lemma_judged_failure(answers: Seq<Result<bool, EngineError>>, upto: int, more: int)
    requires
        upto <= more,
        judged(answers, upto) is Err,
    ensures
        judged(answers, more) == judged(answers, upto),
    decreases more - upto,
{
    if upto < more {
        lemma_judged_failure(answers, upto, more - 1);
    }
}

/// Where the condition has one answer on each element, a quantifier that is
/// given the number of arguments it takes ends in the first failure among
/// the answers, and where there is none, in what it says of the number of
/// elements and the number of `true` among the answers.
pub proof fn lemma_quantifier_is_determined<F: Fn(&Record) -> Result<bool, EngineError>>(
    function: ListFunction,
    args: Seq<i32>,
    elements: Seq<Record>,
    condition: &Condition<F>,
    answers: Seq<Result<bool, EngineError>>,
    out: Result<Quantified, EngineError>,
)
    requires
        args.len() == argument_number(function),
        answers.len() == elements.len(),
        forall|i: int, r: Result<bool, EngineError>|
            0 <= i < elements.len() && #[trigger] condition.may_yield(&elements[i], r) ==> r
                == answers[i],
        quantifier_may_yield(function, args, elements, condition, out),
    ensures
        out == match judged(answers, answers.len() as int) {
            Ok(verdicts) => Ok::<Quantified, EngineError>(
                quantified(function, elements.len() as usize, tally(verdicts) as usize, args),
            ),
            Err(e) => Err::<Quantified, EngineError>(e),
        },
{
    match out {
        Ok(q) => {
            let verdicts = choose|verdicts: Seq<bool>|
                #![trigger may_judge(condition, elements, verdicts)]
                may_judge(condition, elements, verdicts) && verdicts.len() == elements.len() && q
                    == quantified(
                    function,
                    elements.len() as usize,
                    tally(verdicts) as usize,
                    args,
                );
            assert forall|i: int| 0 <= i < verdicts.len() implies answers[i] == Ok::<
                bool,
                EngineError,
            >(#[trigger] verdicts[i]) by {
                assert(condition.may_yield(&elements[i], Ok::<bool, EngineError>(verdicts[i])));
            }
            lemma_judged_verdicts(answers, verdicts, verdicts.len() as int);
            assert(verdicts.take(verdicts.len() as int) =~= verdicts);
        },
        Err(e) => {
            let verdicts = choose|verdicts: Seq<bool>|
                #![trigger may_judge(condition, elements, verdicts)]
                may_judge(condition, elements, verdicts) && verdicts.len() < elements.len()
                    && condition.may_yield(
                    &elements[verdicts.len() as int],
                    Err::<bool, EngineError>(e),
                );
            let at = verdicts.len() as int;
            assert forall|i: int| 0 <= i < verdicts.len() implies answers[i] == Ok::<
                bool,
                EngineError,
            >(#[trigger] verdicts[i]) by {
                assert(condition.may_yield(&elements[i], Ok::<bool, EngineError>(verdicts[i])));
            }
            lemma_judged_verdicts(answers, verdicts, at);
            assert(answers[at] == Err::<bool, EngineError>(e));
            assert(judged(answers, at + 1) == Err::<Seq<bool>, EngineError>(e));
            lemma_judged_failure(answers, at + 1, answers.len() as int);
        },
    }
}

/// No two quantifiers are registered under one name.
pub proof fn lemma_labels_differ(f: ListFunction, g: ListFunction)
    ensures
        f.label() == g.label() ==> f == g,
{
    reveal_strlit("All");
    reveal_strlit("AtLeast");
    reveal_strlit("AtMost");
    reveal_strlit("Exactly");
    reveal_strlit("NoneElement");
    reveal_strlit("AtLeastFraction");
    reveal_strlit("AtMostFraction");
    if f.label() == g.label() {
        assert(f.label().len() == g.label().len());
        assert(f.label()[0] == g.label()[0]);
        assert(f.label()[2] == g.label()[2]);
        assert(f.label()[3] == g.label()[3]);
    }
}

} // verus!
