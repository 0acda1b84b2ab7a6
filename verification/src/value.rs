//! The values that flow through the engine, and records of them.

use vstd::prelude::*;
use crate::error::{EngineError, Failure, FunctionName, Operand, outcome};
use crate::number::Number;
use crate::text::str_eq;

verus! {

/// A text together with its reading as a number.
///
/// The reading is made where the value is built, by whoever reads the text as
/// a 64-bit float; `None` says that the text is no number. The engine takes
/// the reading as given.
#[derive(Clone, Debug, PartialEq, Eq)]
pub struct Text {
    pub chars: String,
    pub number: Option<Number>,
}

/// A dynamically typed value.
#[derive(Debug, PartialEq, Eq)]
pub enum Datum {
    String(Text),
    Number(Number),
    Bool(bool),
    List(Vec<Datum>),
    Object(Vec<Field>),
}

/// A named value: a member of an object or a field of a record.
#[derive(Debug, PartialEq, Eq)]
pub struct Field {
    pub name: String,
    pub value: Datum,
}

impl Text {
    /// A text with the reading that was made of it.
    pub fn new(chars: String, number: Option<Number>) -> (t: Text)
        ensures
            t.chars == chars,
            t.number == number,
    {
        Text { chars, number }
    }
}

impl Datum {
    /// What `as_string` gives: the text of a `String` value, and
    /// `TypeMismatch` for any other.
    pub open spec fn string_reading(self, function: FunctionName, operand: Operand) -> Result<
        Text,
        Failure,
    > {
        match self {
            Datum::String(t) => Ok(t),
            _ => Err(Failure::TypeMismatch { function, operand }),
        }
    }

    /// What `as_number` gives: the number that a `String` value reads as,
    /// `Coercion` with its text where it reads as none, and `TypeMismatch` for
    /// any other value.
    pub open spec fn number_reading(self, function: FunctionName, operand: Operand) -> Result<
        Number,
        Failure,
    > {
        match self {
            Datum::String(t) => match t.number {
                Some(n) => Ok(n),
                None => Err(Failure::Coercion { function, operand, text: t.chars@ }),
            },
            _ => Err(Failure::TypeMismatch { function, operand }),
        }
    }

    /// What `as_list` gives: the elements of a `List` value, and
    /// `TypeMismatch` for any other.
    pub open spec fn list_reading(self, function: FunctionName, operand: Operand) -> Result<
        Seq<Datum>,
        Failure,
    > {
        match self {
            Datum::List(items) => Ok(items@),
            _ => Err(Failure::TypeMismatch { function, operand }),
        }
    }

    /// The text of a `String` value, read on behalf of `function`.
    pub fn as_string(&self, function: FunctionName, operand: Operand) -> (r: Result<
        &Text,
        EngineError,
    >)
        ensures
            match r {
                Ok(t) => self.string_reading(function, operand) == Ok::<Text, Failure>(*t),
                Err(e) => self.string_reading(function, operand) == Err::<Text, Failure>(e@),
            },
    {
        match self {
            Datum::String(t) => Ok(t),
            _ => Err(EngineError::TypeMismatch { function, operand }),
        }
    }

    /// The number that a `String` value reads as, on behalf of `function`.
    pub fn as_number(&self, function: FunctionName, operand: Operand) -> (r: Result<
        Number,
        EngineError,
    >)
        ensures
            outcome(r) == self.number_reading(function, operand),
    {
        match self {
            Datum::String(t) => match t.number {
                Some(n) => Ok(n),
                None => Err(EngineError::Coercion { function, operand, text: t.chars.clone() }),
            },
            _ => Err(EngineError::TypeMismatch { function, operand }),
        }
    }

    /// The elements of a `List` value, read on behalf of `function`.
    pub fn as_list(&self, function: FunctionName, operand: Operand) -> (r: Result<
        &Vec<Datum>,
        EngineError,
    >)
        ensures
            match r {
                Ok(items) => self.list_reading(function, operand) == Ok::<Seq<Datum>, Failure>(
                    items@,
                ),
                Err(e) => self.list_reading(function, operand) == Err::<Seq<Datum>, Failure>(e@),
            },
    {
        match self {
            Datum::List(items) => Ok(items),
            _ => Err(EngineError::TypeMismatch { function, operand }),
        }
    }
}

/// The fields of one evaluation: a mapping from names to values.
///
/// A name occurs once. The fields keep the order in which their names were
/// first inserted.
#[derive(Debug, PartialEq, Eq)]
pub struct Record {
    fields: Vec<Field>,
}

/// Whether no two of the fields have one name.
pub open spec fn distinct_names(fields: Seq<Field>) -> bool {
    forall|i: int, j: int|
        0 <= i < j < fields.len() ==> (#[trigger] fields[i]).name@ != (#[trigger] fields[j]).name@
}

/// Whether one of the fields has the name.
pub open spec fn has_name(fields: Seq<Field>, name: Seq<char>) -> bool {
    exists|i: int| 0 <= i < fields.len() && (#[trigger] fields[i]).name@ == name
}

/// The place of a field with the name.
pub open spec fn place_of(fields: Seq<Field>, name: Seq<char>) -> int {
    choose|i: int| 0 <= i < fields.len() && (#[trigger] fields[i]).name@ == name
}

impl Record {
    #[verifier::type_invariant]
    spec fn well_formed(self) -> bool {
        distinct_names(self.fields@)
    }

    /// The fields, in the order in which their names were first inserted.
    pub closed spec fn fields(self) -> Seq<Field> {
        self.fields@
    }

    /// A record without fields.
    pub fn new() -> (r: Record)
        ensures
            r.fields() == Seq::<Field>::empty(),
            r@ == Map::<Seq<char>, Datum>::empty(),
    {
        let r = Record { fields: Vec::new() };
        assert(r@ =~= Map::<Seq<char>, Datum>::empty());
        r
    }

    /// The number of fields.
    pub fn len(&self) -> (n: usize)
        ensures
            n == self.fields().len(),
            distinct_names(self.fields()),
    {
        proof {
            use_type_invariant(self);
        }
        self.fields.len()
    }

    /// The field at a place.
    pub fn field_at(&self, i: usize) -> (f: &Field)
        requires
            i < self.fields().len(),
        ensures
            *f == self.fields()[i as int],
            self@.contains_key(f.name@),
            self@[f.name@] == f.value,
    {
        proof {
            use_type_invariant(self);
            let w = place_of(self.fields@, self.fields@[i as int].name@);
            assert(w == i);
        }
        &self.fields[i]
    }

    fn find(&self, name: &str) -> (r: Option<usize>)
        ensures
            match r {
                Some(i) => i < self.fields().len() && self.fields()[i as int].name@ == name@
                    && place_of(self.fields(), name@) == i,
                None => !has_name(self.fields(), name@),
            },
    {
        proof {
            use_type_invariant(self);
        }
        let mut i: usize = 0;
        while i < self.fields.len()
            invariant
                i <= self.fields.len(),
                distinct_names(self.fields@),
                forall|j: int| 0 <= j < i ==> (#[trigger] self.fields@[j]).name@ != name@,
            decreases self.fields.len() - i,
        {
            if str_eq(self.fields[i].name.as_str(), name) {
                assert(self.fields@[i as int].name@ == name@);
                return Some(i);
            }
            i += 1;
        }
        None
    }

    /// The value of the field with a name.
    pub fn get(&self, name: &str) -> (r: Option<&Datum>)
        ensures
            match r {
                Some(v) => self@.contains_key(name@) && self@[name@] == *v,
                None => !self@.contains_key(name@),
            },
    {
        match self.find(name) {
            Some(i) => Some(&self.fields[i].value),
            None => None,
        }
    }

    /// Whether a field has the name.
    pub fn contains_key(&self, name: &str) -> (r: bool)
        ensures
            r == self@.contains_key(name@),
    {
        self.find(name).is_some()
    }

    /// Gives the field with the name a value. A field that is there keeps its
    /// place; a new one comes last.
    pub fn insert(&mut self, name: String, value: Datum)
        ensures
            final(self)@ == old(self)@.insert(name@, value),
            has_name(old(self).fields(), name@) ==> final(self).fields() == old(self).fields().update(
                place_of(old(self).fields(), name@),
                Field { name, value },
            ),
            !has_name(old(self).fields(), name@) ==> final(self).fields() == old(self).fields().push(
                Field { name, value },
            ),
    {
        proof {
            use_type_invariant(&*self);
        }
        let ghost before = self.fields@;
        let ghost key = name@;
        let place = self.find(name.as_str());
        let mut taken = Record { fields: Vec::new() };
        core::mem::swap(self, &mut taken);
        let mut fields = taken.fields;
        match place {
            Some(i) => {
                fields.set(i, Field { name, value });
                proof {
                    let after = fields@;
                    assert forall|k: Seq<char>| has_name(after, k) == has_name(before, k) by {
                        if has_name(before, k) {
                            let w = place_of(before, k);
                            assert(after[w].name@ == k);
                        }
                        if has_name(after, k) {
                            let w = place_of(after, k);
                            assert(before[w].name@ == k);
                        }
                    }
                    assert forall|k: Seq<char>| has_name(after, k) implies after[place_of(
                        after,
                        k,
                    )].value == (if k == key {
                        value
                    } else {
                        before[place_of(before, k)].value
                    }) by {
                        let w = place_of(after, k);
                        assert(before[w].name@ == k);
                        let v = place_of(before, k);
                        assert(w == v);
                    }
                }
            },
            None => {
                fields.push(Field { name, value });
                proof {
                    let after = fields@;
                    assert forall|k: Seq<char>| has_name(after, k) == (k == key || has_name(
                        before,
                        k,
                    )) by {
                        if has_name(before, k) {
                            let w = place_of(before, k);
                            assert(after[w].name@ == k);
                        }
                        if k == key {
                            assert(after[before.len() as int].name@ == k);
                        }
                        if has_name(after, k) {
                            let w = place_of(after, k);
                            if w < before.len() {
                                assert(before[w].name@ == k);
                            }
                        }
                    }
                    assert forall|k: Seq<char>| has_name(after, k) implies after[place_of(
                        after,
                        k,
                    )].value == (if k == key {
                        value
                    } else {
                        before[place_of(before, k)].value
                    }) by {
                        let w = place_of(after, k);
                        if k != key {
                            assert(before[w].name@ == k);
                            let v = place_of(before, k);
                            assert(after[v].name@ == k);
                            assert(w == v);
                        } else {
                            assert(after[before.len() as int].name@ == k);
                            assert(w == before.len());
                        }
                    }
                }
            },
        }
        *self = Record { fields };
        assert(self@ =~= old(self)@.insert(key, value));
    }
}

impl View for Record {
    type V = Map<Seq<char>, Datum>;

    /// The record as a mapping: each name with the value of its field.
    closed spec fn view(&self) -> Map<Seq<char>, Datum> {
        Map::new(
            |k: Seq<char>| has_name(self.fields@, k),
            |k: Seq<char>| self.fields@[place_of(self.fields@, k)].value,
        )
    }
}

} // verus!
