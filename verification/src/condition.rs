//! Conditions, which chain predicates over a record, and their combination
//! by a logical operator.

use vstd::prelude::*;
use crate::error::EngineError;
use crate::value::Record;

verus! {

/// A chain of predicates over a record, all of which must pass.
///
/// The label names the condition in messages and results. It does not select
/// what the predicates see: each is handed the whole record.
pub struct Condition<F> {
    input_path: String,
    functions: Vec<F>,
}

/// The first of some results that is not `Ok(pass)`, and `Ok(pass)` where
/// there is none.
pub open spec fn first_other_than(results: Seq<Result<bool, EngineError>>, pass: bool) -> Result<
    bool,
    EngineError,
>
    decreases results.len(),
{
    if results.len() == 0 {
        Ok(pass)
    } else if results[0] == Ok::<bool, EngineError>(pass) {
        first_other_than(results.skip(1), pass)
    } else {
        results[0]
    }
}

impl<F: Fn(&Record) -> Result<bool, EngineError>> Condition<F> {
    /// The label of the condition.
    pub closed spec fn label(&self) -> Seq<char> {
        self.input_path@
    }

    /// The predicates, in the order in which they are applied.
    pub closed spec fn predicates(&self) -> Seq<F> {
        self.functions@
    }

    /// Whether every predicate may be called on `input`.
    pub open spec fn callable(&self, input: &Record) -> bool {
        forall|i: int|
            0 <= i < self.predicates().len() ==> call_requires(
                #[trigger] self.predicates()[i],
                (input,),
            )
    }

    /// Whether each of the first `upto` predicates may say `true` of `input`.
    pub open spec fn passes(&self, input: &Record, upto: int) -> bool {
        forall|i: int|
            0 <= i < upto ==> call_ensures(
                #[trigger] self.predicates()[i],
                (input,),
                Ok::<bool, EngineError>(true),
            )
    }

    /// Whether the predicate at `at` may answer `out` after all before it
    /// have said `true`.
    pub open spec fn stops_at(&self, input: &Record, at: int, out: Result<bool, EngineError>) -> bool {
        &&& 0 <= at < self.predicates().len()
        &&& self.passes(input, at)
        &&& call_ensures(self.predicates()[at], (input,), out)
    }

    /// Whether the evaluation of `input` may end in `out`: in `true` where
    /// every predicate says so, and else in the answer of the first
    /// predicate that says `false` or fails.
    pub open spec fn may_yield(&self, input: &Record, out: Result<bool, EngineError>) -> bool {
        if out == Ok::<bool, EngineError>(true) {
            self.passes(input, self.predicates().len() as int)
        } else {
            exists|at: int| #[trigger] self.stops_at(input, at, out)
        }
    }

    /// A condition with a label and its predicates, in the order in which
    /// they are to be applied.
    pub fn new(input_path: String, functions: Vec<F>) -> (c: Self)
        ensures
            c.label() == input_path@,
            c.predicates() == functions@,
    {
        Condition { input_path, functions }
    }

    /// The label of the condition.
    pub fn input_path(&self) -> (s: &str)
        ensures
            s@ == self.label(),
    {
        self.input_path.as_str()
    }

    /// Applies the predicates to `input` in order, up to the first that says
    /// `false` or fails.
    pub fn eval(&self, input: &Record) -> (out: Result<bool, EngineError>)
        requires
            self.callable(input),
        ensures
            self.may_yield(input, out),
    {
        let mut i: usize = 0;
        while i < self.functions.len()
            invariant
                i <= self.functions.len(),
                self.callable(input),
                self.passes(input, i as int),
            decreases self.functions.len() - i,
        {
            let function = &self.functions[i];
            assert(call_requires(self.predicates()[i as int], (input,)));
            match function(input) {
                Ok(result) => {
                    if !result {
                        assert(self.stops_at(input, i as int, Ok::<bool, EngineError>(false)));
                        return Ok(false);
                    }
                },
                Err(e) => {
                    assert(self.stops_at(input, i as int, Err::<bool, EngineError>(e)));
                    return Err(e);
                },
            }
            i += 1;
        }
        Ok(true)
    }
}

/// Where each predicate has one answer on `input`, the evaluation ends in the
/// first answer that is not `true`, and in `true` where there is none.
pub proof fn lemma_eval_is_determined<F: Fn(&Record) -> Result<bool, EngineError>>(
    condition: Condition<F>,
    input: &Record,
    answers: Seq<Result<bool, EngineError>>,
    out: Result<bool, EngineError>,
)
    requires
        answers.len() == condition.predicates().len(),
        forall|i: int, r: Result<bool, EngineError>|
            0 <= i < answers.len() && #[trigger] call_ensures(
                condition.predicates()[i],
                (input,),
                r,
            ) ==> r == answers[i],
        condition.may_yield(input, out),
    ensures
        out == first_other_than(answers, true),
{
    if out == Ok::<bool, EngineError>(true) {
        assert forall|i: int| 0 <= i < answers.len() implies answers[i] == Ok::<bool, EngineError>(
            true,
        ) by {
            assert(call_ensures(condition.predicates()[i], (input,), Ok::<bool, EngineError>(true)));
        }
        lemma_first_other_than_none(answers, true);
    } else {
        let at = choose|at: int| #[trigger] condition.stops_at(input, at, out);
        assert forall|i: int| 0 <= i < at implies answers[i] == Ok::<bool, EngineError>(true) by {
            assert(call_ensures(condition.predicates()[i], (input,), Ok::<bool, EngineError>(true)));
        }
        assert(answers[at] == out);
        lemma_first_other_than_at(answers, true, at);
    }
}

/// Where every result is `Ok(pass)`, so is the first other than it.
pub proof fn lemma_first_other_than_none(results: Seq<Result<bool, EngineError>>, pass: bool)
    requires
        forall|i: int| 0 <= i < results.len() ==> results[i] == Ok::<bool, EngineError>(pass),
    ensures
        first_other_than(results, pass) == Ok::<bool, EngineError>(pass),
    decreases results.len(),
{
    if results.len() > 0 {
        lemma_first_other_than_none(results.skip(1), pass);
    }
}

/// Where the result at `at` is the first that is not `Ok(pass)`, it is the
/// first other than `Ok(pass)`.
pub proof fn lemma_first_other_than_at(results: Seq<Result<bool, EngineError>>, pass: bool, at: int)
    requires
        0 <= at < results.len(),
        forall|i: int| 0 <= i < at ==> results[i] == Ok::<bool, EngineError>(pass),
        results[at] != Ok::<bool, EngineError>(pass),
    ensures
        first_other_than(results, pass) == results[at],
    decreases results.len(),
{
    if at > 0 {
        lemma_first_other_than_at(results.skip(1), pass, at - 1);
    }
}

/// The logical operators that combine conditions.
#[derive(Clone, Copy, Debug, PartialEq, Eq, Hash, Structural)]
pub enum LogicalOperator {
    OR,
    AND,
}

impl LogicalOperator {
    /// The answer of a member after which the next member is asked: `false`
    /// under `OR`, `true` under `AND`. It is also the answer of the group
    /// where every member gives it.
    pub open spec fn passing(self) -> bool {
        self is AND
    }
}

/// The combination of conditions by one logical operator.
pub struct ConditionType {
    chain_type: LogicalOperator,
}

/// Whether every predicate of every condition may be called on `input`.
pub open spec fn all_callable<F: Fn(&Record) -> Result<bool, EngineError>>(
    conditions: Seq<Condition<F>>,
    input: &Record,
) -> bool {
    forall|i: int| 0 <= i < conditions.len() ==> (#[trigger] conditions[i]).callable(input)
}

/// Whether each of the first `upto` conditions may answer `pass`.
pub open spec fn members_pass<F: Fn(&Record) -> Result<bool, EngineError>>(
    conditions: Seq<Condition<F>>,
    input: &Record,
    upto: int,
    pass: bool,
) -> bool {
    forall|i: int|
        0 <= i < upto ==> (#[trigger] conditions[i]).may_yield(input, Ok::<bool, EngineError>(pass))
}

/// Whether the condition at `at` may answer `out` after all before it have
/// answered `pass`.
pub open spec fn member_stops<F: Fn(&Record) -> Result<bool, EngineError>>(
    conditions: Seq<Condition<F>>,
    input: &Record,
    at: int,
    pass: bool,
    out: Result<bool, EngineError>,
) -> bool {
    &&& 0 <= at < conditions.len()
    &&& members_pass(conditions, input, at, pass)
    &&& conditions[at].may_yield(input, out)
}

/// Whether a group may answer `out`: `Ok(pass)` where every member does, and
/// else what the first member answers that answers otherwise.
pub open spec fn group_may_yield<F: Fn(&Record) -> Result<bool, EngineError>>(
    conditions: Seq<Condition<F>>,
    input: &Record,
    pass: bool,
    out: Result<bool, EngineError>,
) -> bool {
    if out == Ok::<bool, EngineError>(pass) {
        members_pass(conditions, input, conditions.len() as int, pass)
    } else {
        exists|at: int| #[trigger] member_stops(conditions, input, at, pass, out)
    }
}

/// Evaluates the members in order, up to the first that does not answer
/// `pass`.
fn evaluate_chain<F: Fn(&Record) -> Result<bool, EngineError>>(
    input: &Record,
    conditions: Vec<Condition<F>>,
    pass: bool,
) -> (out: Result<bool, EngineError>)
    requires
        all_callable(conditions@, input),
    ensures
        group_may_yield(conditions@, input, pass, out),
{
    let mut i: usize = 0;
    while i < conditions.len()
        invariant
            i <= conditions.len(),
            all_callable(conditions@, input),
            members_pass(conditions@, input, i as int, pass),
        decreases conditions.len() - i,
    {
        assert(conditions@[i as int].callable(input));
        match conditions[i].eval(input) {
            Ok(result) => {
                if result != pass {
                    assert(member_stops(
                        conditions@,
                        input,
                        i as int,
                        pass,
                        Ok::<bool, EngineError>(result),
                    ));
                    return Ok(result);
                }
            },
            Err(e) => {
                assert(member_stops(conditions@, input, i as int, pass, Err::<bool, EngineError>(e)));
                return Err(e);
            },
        }
        i += 1;
    }
    Ok(pass)
}

impl ConditionType {
    /// The operator of the group.
    pub closed spec fn operator(&self) -> LogicalOperator {
        self.chain_type
    }

    /// The combination by an operator.
    pub fn new(chain_type: LogicalOperator) -> (c: Self)
        ensures
            c.operator() == chain_type,
    {
        ConditionType { chain_type }
    }

    /// Evaluates a group of conditions under the operator.
    pub fn evaluate<F: Fn(&Record) -> Result<bool, EngineError>>(
        &self,
        input: &Record,
        condition: Vec<Condition<F>>,
    ) -> (out: Result<bool, EngineError>)
        requires
            all_callable(condition@, input),
        ensures
            group_may_yield(condition@, input, self.operator().passing(), out),
    {
        match self.chain_type {
            LogicalOperator::OR => self.evaluate_or(input, condition),
            LogicalOperator::AND => self.evaluate_and(input, condition),
        }
    }

    /// `true` at the first member that says so, with no later member
    /// evaluated; the failure of the first member that fails before one says
    /// `true`; `false` where every member says `false`.
    pub fn evaluate_or<F: Fn(&Record) -> Result<bool, EngineError>>(
        &self,
        input: &Record,
        conditions: Vec<Condition<F>>,
    ) -> (out: Result<bool, EngineError>)
        requires
            all_callable(conditions@, input),
        ensures
            group_may_yield(conditions@, input, false, out),
    {
        evaluate_chain(input, conditions, false)
    }

    /// `false` at the first member that says so, with no later member
    /// evaluated; the failure of the first member that fails before one says
    /// `false`; `true` where every member says `true`.
    pub fn evaluate_and<F: Fn(&Record) -> Result<bool, EngineError>>(
        &self,
        input: &Record,
        conditions: Vec<Condition<F>>,
    ) -> (out: Result<bool, EngineError>)
        requires
            all_callable(conditions@, input),
        ensures
            group_may_yield(conditions@, input, true, out),
    {
        evaluate_chain(input, conditions, true)
    }
}

/// Where each member has one answer on `input`, the group answers with the
/// first of them that is not `Ok(pass)`, and with `Ok(pass)` where there is
/// none.
pub proof fn lemma_group_is_determined<F: Fn(&Record) -> Result<bool, EngineError>>(
    conditions: Seq<Condition<F>>,
    input: &Record,
    pass: bool,
    answers: Seq<Result<bool, EngineError>>,
    out: Result<bool, EngineError>,
)
    requires
        answers.len() == conditions.len(),
        forall|i: int, r: Result<bool, EngineError>|
            0 <= i < answers.len() && #[trigger] conditions[i].may_yield(input, r) ==> r
                == answers[i],
        group_may_yield(conditions, input, pass, out),
    ensures
        out == first_other_than(answers, pass),
{
    if out == Ok::<bool, EngineError>(pass) {
        assert forall|i: int| 0 <= i < answers.len() implies answers[i] == Ok::<bool, EngineError>(
            pass,
        ) by {
            assert(conditions[i].may_yield(input, Ok::<bool, EngineError>(pass)));
        }
        lemma_first_other_than_none(answers, pass);
    } else {
        let at = choose|at: int| #[trigger] member_stops(conditions, input, at, pass, out);
        assert forall|i: int| 0 <= i < at implies answers[i] == Ok::<bool, EngineError>(pass) by {
            assert(conditions[i].may_yield(input, Ok::<bool, EngineError>(pass)));
        }
        assert(answers[at] == out);
        lemma_first_other_than_at(answers, pass, at);
    }
}

} // verus!
