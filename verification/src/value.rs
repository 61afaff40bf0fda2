//! The TOML value tree: a closed variant over strings, integers, floats,
//! booleans, arrays, tables and datetimes, together with its mathematical
//! model.
use vstd::prelude::*;

use crate::array::Array;
use crate::datetime::Datetime;
use crate::scan::str_lt;
use crate::table::Table;

verus! {

/// A parsed floating-point literal.
///
/// The library keeps the number in its exact decimal form: the grammar and
/// the overflow check are part of the parser, while binding the value to a
/// machine float format is left to the caller.
#[derive(Debug)]
pub enum FloatValue {
    /// A finite decimal literal: optional sign, integer part, optional
    /// fraction and exponent, with all underscores stripped.
    Finite {
        /// The cleaned literal text.
        text: String,
    },
    /// An infinity from the explicit `inf` special literal.
    Infinite {
        /// Whether the literal carried a minus sign.
        negative: bool,
    },
    /// A not-a-number from the `nan` special literal; its sign is ignored.
    NotANumber,
}

/// The mathematical model of a float literal.
pub enum FloatModel {
    /// A finite decimal literal as its cleaned character sequence.
    Finite(Seq<char>),
    /// An infinity and its sign.
    Infinite(bool),
    /// Not a number.
    NotANumber,
}

/// The model of a float value.
pub open spec fn float_model(f: FloatValue) -> FloatModel {
    match f {
        FloatValue::Finite { text } => FloatModel::Finite(text@),
        FloatValue::Infinite { negative } => FloatModel::Infinite(negative),
        FloatValue::NotANumber => FloatModel::NotANumber,
    }
}

/// A TOML value.
#[derive(Debug)]
pub enum Value {
    /// A string.
    String(String),
    /// An integer.
    Integer(i64),
    /// A floating-point number, kept in its decimal form.
    Float(FloatValue),
    /// A boolean.
    Boolean(bool),
    /// An array.
    Array(Array),
    /// A table.
    Table(Table),
    /// A date and time.
    Datetime(Datetime),
}

/// The mathematical model of a TOML value: strings as character sequences,
/// arrays as sequences, tables as maps from key to value.
pub enum Toml {
    /// A string.
    String(Seq<char>),
    /// An integer.
    Integer(i64),
    /// A float literal.
    Float(FloatModel),
    /// A boolean.
    Boolean(bool),
    /// An array.
    Array(Seq<Toml>),
    /// A table.
    Table(Map<Seq<char>, Toml>),
    /// A date and time.
    Datetime(Datetime),
}

/// The model of a value.
pub open spec fn value_model(v: Value) -> Toml
    decreases v,
{
    match v {
        Value::String(s) => Toml::String(s@),
        Value::Integer(i) => Toml::Integer(i),
        Value::Float(f) => Toml::Float(float_model(f)),
        Value::Boolean(b) => Toml::Boolean(b),
        Value::Array(a) => Toml::Array(array_model(a.items@)),
        Value::Table(t) => Toml::Table(entries_model(t.entries@)),
        Value::Datetime(dt) => Toml::Datetime(dt),
    }
}

/// The model of an array's element list, in order.
pub open spec fn array_model(s: Seq<Value>) -> Seq<Toml>
    decreases s,
{
    if s.len() == 0 {
        Seq::empty()
    } else {
        array_model(s.drop_last()).push(value_model(s.last()))
    }
}

/// The array model holds the model of each element, in order.
pub proof fn lemma_array_model(s: Seq<Value>)
    ensures
        array_model(s).len() == s.len(),
        forall|i: int| 0 <= i < s.len() ==> array_model(s)[i] == value_model(#[trigger] s[i]),
    decreases s.len(),
{
    if s.len() > 0 {
        lemma_array_model(s.drop_last());
        assert forall|i: int| 0 <= i < s.len() implies array_model(s)[i] == value_model(
            #[trigger] s[i],
        ) by {
            if i < s.len() - 1 {
                assert(s.drop_last()[i] == s[i]);
            } else {
                assert(s.last() == s[i]);
            }
        }
    }
}

/// Updating one element of an array updates its model pointwise.
pub proof fn lemma_array_model_update(s: Seq<Value>, i: int, v: Value)
    requires
        0 <= i < s.len(),
    ensures
        array_model(s.update(i, v)) == array_model(s).update(i, value_model(v)),
{
    lemma_array_model(s);
    lemma_array_model(s.update(i, v));
    let t = s.update(i, v);
    assert forall|j: int| 0 <= j < t.len() implies array_model(t)[j] == array_model(s).update(
        i,
        value_model(v),
    )[j] by {
        assert(array_model(t)[j] == value_model(t[j]));
        assert(array_model(s)[j] == value_model(s[j]));
    }
    assert(array_model(t) =~= array_model(s).update(i, value_model(v)));
}

/// The model of a table's entry list: the map holding each key, built left
/// to right so that on duplicate keys the later entry wins.
pub open spec fn entries_model(s: Seq<(String, Value)>) -> Map<Seq<char>, Toml>
    decreases s,
{
    if s.len() == 0 {
        Map::empty()
    } else {
        entries_model(s.drop_last()).insert(s.last().0@, value_model(s.last().1))
    }
}

impl View for Value {
    type V = Toml;

    open spec fn view(&self) -> Toml {
        value_model(*self)
    }
}

impl View for Array {
    type V = Seq<Toml>;

    open spec fn view(&self) -> Seq<Toml> {
        array_model(self.items@)
    }
}

impl View for Table {
    type V = Map<Seq<char>, Toml>;

    open spec fn view(&self) -> Map<Seq<char>, Toml> {
        entries_model(self.entries@)
    }
}

/// Whether the keys of a table's entry list are strictly ascending in
/// lexicographic order (and hence unique).
pub open spec fn entries_sorted(s: Seq<(String, Value)>) -> bool {
    forall|i: int, j: int|
        0 <= i < j < s.len() ==> str_lt(#[trigger] s[i].0@, #[trigger] s[j].0@)
}

/// A well-formed value: every table anywhere in it keeps its entries
/// strictly sorted by key.
pub open spec fn value_wf(v: Value) -> bool
    decreases v,
{
    match v {
        Value::Array(a) => forall|i: int|
            0 <= i < a.items@.len() ==> value_wf(#[trigger] a.items@[i]),
        Value::Table(t) => table_entries_wf(t.entries@),
        _ => true,
    }
}

/// A well-formed entry list: sorted keys, well-formed values.
pub open spec fn table_entries_wf(s: Seq<(String, Value)>) -> bool
    decreases s,
{
    &&& entries_sorted(s)
    &&& forall|i: int| 0 <= i < s.len() ==> value_wf(#[trigger] s[i].1)
}

/// A well-formed table.
pub open spec fn table_wf(t: Table) -> bool {
    table_entries_wf(t.entries@)
}

/// A well-formed array.
pub open spec fn array_wf(a: Array) -> bool {
    forall|i: int| 0 <= i < a.items@.len() ==> value_wf(#[trigger] a.items@[i])
}

/// Structural equality of two values: strings by their characters, arrays
/// and tables element by element — and a float `nan` compares unequal to
/// everything, itself included, as IEEE-754 asks.
pub open spec fn spec_value_eq(a: Value, b: Value) -> bool
    decreases a,
{
    match (a, b) {
        (Value::String(x), Value::String(y)) => x@ == y@,
        (Value::Integer(x), Value::Integer(y)) => x == y,
        (Value::Float(x), Value::Float(y)) => spec_float_eq(x, y),
        (Value::Boolean(x), Value::Boolean(y)) => x == y,
        (Value::Array(x), Value::Array(y)) => spec_values_eq(x.items@, y.items@),
        (Value::Table(x), Value::Table(y)) => spec_entries_eq(x.entries@, y.entries@),
        (Value::Datetime(x), Value::Datetime(y)) => x == y,
        _ => false,
    }
}

/// Equality of float literals: finite literals by their text, infinities
/// by their sign; `nan` is unequal even to itself.
pub open spec fn spec_float_eq(a: FloatValue, b: FloatValue) -> bool {
    match (a, b) {
        (FloatValue::Finite { text: x }, FloatValue::Finite { text: y }) => x@ == y@,
        (FloatValue::Infinite { negative: x }, FloatValue::Infinite { negative: y }) => x == y,
        _ => false,
    }
}

/// Pairwise structural equality of two element lists.
pub open spec fn spec_values_eq(x: Seq<Value>, y: Seq<Value>) -> bool
    decreases x,
{
    if x.len() != y.len() {
        false
    } else if x.len() == 0 {
        true
    } else {
        spec_values_eq(x.drop_last(), y.drop_last()) && spec_value_eq(x.last(), y.last())
    }
}

/// Pairwise structural equality of two entry lists, keys by their
/// characters.
pub open spec fn spec_entries_eq(x: Seq<(String, Value)>, y: Seq<(String, Value)>) -> bool
    decreases x,
{
    if x.len() != y.len() {
        false
    } else if x.len() == 0 {
        true
    } else {
        spec_entries_eq(x.drop_last(), y.drop_last()) && x.last().0@ == y.last().0@
            && spec_value_eq(x.last().1, y.last().1)
    }
}

/// List equality holds exactly of equal lengths and pairwise equal
/// elements.
pub proof fn lemma_values_eq(x: Seq<Value>, y: Seq<Value>)
    ensures
        spec_values_eq(x, y) <==> (x.len() == y.len() && forall|i: int|
            0 <= i < x.len() ==> spec_value_eq(#[trigger] x[i], y[i])),
    decreases x.len(),
{
    if x.len() == y.len() && x.len() > 0 {
        lemma_values_eq(x.drop_last(), y.drop_last());
        if spec_values_eq(x, y) {
            assert forall|i: int| 0 <= i < x.len() implies spec_value_eq(
                #[trigger] x[i],
                y[i],
            ) by {
                if i < x.len() - 1 {
                    assert(x.drop_last()[i] == x[i] && y.drop_last()[i] == y[i]);
                } else {
                    assert(x.last() == x[i] && y.last() == y[i]);
                }
            }
        }
        if x.len() == y.len() && (forall|i: int|
            0 <= i < x.len() ==> spec_value_eq(#[trigger] x[i], y[i])) {
            assert forall|i: int| 0 <= i < x.len() - 1 implies spec_value_eq(
                #[trigger] x.drop_last()[i],
                y.drop_last()[i],
            ) by {
                assert(x.drop_last()[i] == x[i] && y.drop_last()[i] == y[i]);
            }
            assert(spec_value_eq(x.last(), y.last()));
        }
    }
}

/// Entry-list equality holds exactly of equal lengths and pairwise equal
/// keys and values.
pub proof fn lemma_entries_eq(x: Seq<(String, Value)>, y: Seq<(String, Value)>)
    ensures
        spec_entries_eq(x, y) <==> (x.len() == y.len() && forall|i: int|
            0 <= i < x.len() ==> ((#[trigger] x[i]).0@ == y[i].0@ && spec_value_eq(
                x[i].1,
                y[i].1,
            ))),
    decreases x.len(),
{
    if x.len() == y.len() && x.len() > 0 {
        lemma_entries_eq(x.drop_last(), y.drop_last());
        if spec_entries_eq(x, y) {
            assert forall|i: int| 0 <= i < x.len() implies ((#[trigger] x[i]).0@ == y[i].0@
                && spec_value_eq(x[i].1, y[i].1)) by {
                if i < x.len() - 1 {
                    assert(x.drop_last()[i] == x[i] && y.drop_last()[i] == y[i]);
                } else {
                    assert(x.last() == x[i] && y.last() == y[i]);
                }
            }
        }
        if x.len() == y.len() && (forall|i: int|
            0 <= i < x.len() ==> ((#[trigger] x[i]).0@ == y[i].0@ && spec_value_eq(
                x[i].1,
                y[i].1,
            ))) {
            assert forall|i: int|
                0 <= i < x.len() - 1 implies ((#[trigger] x.drop_last()[i]).0@
                == y.drop_last()[i].0@ && spec_value_eq(
                x.drop_last()[i].1,
                y.drop_last()[i].1,
            )) by {
                assert(x.drop_last()[i] == x[i] && y.drop_last()[i] == y[i]);
            }
            assert(x.last() == x[x.len() - 1] && y.last() == y[x.len() - 1]);
        }
    }
}

/// Decide structural equality of two values.
pub fn value_eq(a: &Value, b: &Value) -> (r: bool)
    ensures
        r == spec_value_eq(*a, *b),
    decreases *a,
{
    match (a, b) {
        (Value::String(x), Value::String(y)) => crate::scan::str_eq(x.as_str(), y.as_str()),
        (Value::Integer(x), Value::Integer(y)) => *x == *y,
        (Value::Float(x), Value::Float(y)) => float_eq(x, y),
        (Value::Boolean(x), Value::Boolean(y)) => *x == *y,
        (Value::Array(x), Value::Array(y)) => {
            let n = x.items.len();
            if n != y.items.len() {
                proof {
                    lemma_values_eq(x.items@, y.items@);
                }
                return false;
            }
            let mut i: usize = 0;
            while i < n
                invariant
                    i <= n,
                    n == x.items@.len(),
                    n == y.items@.len(),
                    *a == Value::Array(*x),
                    *b == Value::Array(*y),
                    forall|k: int| 0 <= k < i ==> spec_value_eq(#[trigger] x.items@[k], y.items@[k]),
                decreases n - i,
            {
                proof {
                    assert(decreases_to!(*a => a->Array_0));
                    assert(a->Array_0 == *x);
                    assert(decreases_to!(*x => x.items));
                    assert(decreases_to!(x.items => x.items@));
                    assert(decreases_to!(x.items@ => x.items@[i as int]));
                    assert(decreases_to!(*a => x.items@[i as int]));
                }
                if !value_eq(&x.items[i], &y.items[i]) {
                    proof {
                        lemma_values_eq(x.items@, y.items@);
                        assert(!spec_value_eq(x.items@[i as int], y.items@[i as int]));
                    }
                    return false;
                }
                i = i + 1;
            }
            proof {
                lemma_values_eq(x.items@, y.items@);
            }
            true
        },
        (Value::Table(x), Value::Table(y)) => {
            let n = x.entries.len();
            if n != y.entries.len() {
                proof {
                    lemma_entries_eq(x.entries@, y.entries@);
                }
                return false;
            }
            let mut i: usize = 0;
            while i < n
                invariant
                    i <= n,
                    n == x.entries@.len(),
                    n == y.entries@.len(),
                    *a == Value::Table(*x),
                    *b == Value::Table(*y),
                    forall|k: int|
                        0 <= k < i ==> ((#[trigger] x.entries@[k]).0@ == y.entries@[k].0@
                            && spec_value_eq(x.entries@[k].1, y.entries@[k].1)),
                decreases n - i,
            {
                if !crate::scan::str_eq(x.entries[i].0.as_str(), y.entries[i].0.as_str()) {
                    proof {
                        lemma_entries_eq(x.entries@, y.entries@);
                        assert((x.entries@[i as int]).0@ != (y.entries@[i as int]).0@);
                    }
                    return false;
                }
                proof {
                    assert(decreases_to!(*a => a->Table_0));
                    assert(a->Table_0 == *x);
                    assert(decreases_to!(*x => x.entries));
                    assert(decreases_to!(x.entries => x.entries@));
                    assert(decreases_to!(x.entries@ => x.entries@[i as int]));
                    assert(decreases_to!(x.entries@[i as int] => x.entries@[i as int].1));
                    assert(decreases_to!(*a => x.entries@[i as int].1));
                }
                if !value_eq(&x.entries[i].1, &y.entries[i].1) {
                    proof {
                        lemma_entries_eq(x.entries@, y.entries@);
                        assert(!spec_value_eq(x.entries@[i as int].1, y.entries@[i as int].1));
                    }
                    return false;
                }
                i = i + 1;
            }
            proof {
                lemma_entries_eq(x.entries@, y.entries@);
            }
            true
        },
        (Value::Datetime(x), Value::Datetime(y)) => datetime_eq(x, y),
        _ => false,
    }
}

/// Decide equality of two float literals; `nan` is unequal to itself.
pub fn float_eq(a: &FloatValue, b: &FloatValue) -> (r: bool)
    ensures
        r == spec_float_eq(*a, *b),
{
    match (a, b) {
        (FloatValue::Finite { text: x }, FloatValue::Finite { text: y }) => crate::scan::str_eq(
            x.as_str(),
            y.as_str(),
        ),
        (FloatValue::Infinite { negative: x }, FloatValue::Infinite { negative: y }) => *x == *y,
        _ => false,
    }
}

/// Decide equality of two datetimes.
pub fn datetime_eq(a: &Datetime, b: &Datetime) -> (r: bool)
    ensures
        r == (*a == *b),
{
    let date_eq = match (a.date, b.date) {
        (None, None) => true,
        (Some(x), Some(y)) => x == y,
        _ => false,
    };
    let time_eq = match (a.time, b.time) {
        (None, None) => true,
        (Some(x), Some(y)) => x == y,
        _ => false,
    };
    let offset_eq = match (a.offset, b.offset) {
        (None, None) => true,
        (Some(x), Some(y)) => x == y,
        _ => false,
    };
    date_eq && time_eq && offset_eq
}

/// Two entry lists with identical keys and model-equal values have equal
/// model maps.
proof fn lemma_entries_model_congruence(x: Seq<(String, Value)>, y: Seq<(String, Value)>)
    requires
        x.len() == y.len(),
        forall|i: int|
            0 <= i < x.len() ==> ((#[trigger] x[i]).0 == y[i].0 && value_model(x[i].1)
                == value_model(y[i].1)),
    ensures
        entries_model(x) == entries_model(y),
    decreases x.len(),
{
    if x.len() > 0 {
        assert forall|i: int|
            0 <= i < x.len() - 1 implies ((#[trigger] x.drop_last()[i]).0 == y.drop_last()[i].0
            && value_model(x.drop_last()[i].1) == value_model(y.drop_last()[i].1)) by {
            assert(x.drop_last()[i] == x[i] && y.drop_last()[i] == y[i]);
        }
        lemma_entries_model_congruence(x.drop_last(), y.drop_last());
        assert(x.last() == x[x.len() - 1] && y.last() == y[x.len() - 1]);
    }
}

/// A copy of a float literal with the same model.
pub fn clone_float(f: &FloatValue) -> (r: FloatValue)
    ensures
        float_model(r) == float_model(*f),
{
    match f {
        FloatValue::Finite { text } => FloatValue::Finite { text: text.clone() },
        FloatValue::Infinite { negative } => FloatValue::Infinite { negative: *negative },
        FloatValue::NotANumber => FloatValue::NotANumber,
    }
}

impl Clone for FloatValue {
    /// A copy with the same model.
    fn clone(&self) -> (r: FloatValue) {
        clone_float(self)
    }
}

/// A deep copy of a value: same model, well-formedness kept.
pub fn clone_value(a: &Value) -> (r: Value)
    ensures
        value_model(r) == value_model(*a),
        value_wf(*a) ==> value_wf(r),
    decreases *a,
{
    match a {
        Value::String(s) => Value::String(s.clone()),
        Value::Integer(i) => Value::Integer(*i),
        Value::Float(f) => Value::Float(clone_float(f)),
        Value::Boolean(b) => Value::Boolean(*b),
        Value::Datetime(dt) => Value::Datetime(*dt),
        Value::Array(x) => {
            let n = x.items.len();
            let mut items: Vec<Value> = Vec::new();
            let mut i: usize = 0;
            while i < n
                invariant
                    i <= n,
                    n == x.items@.len(),
                    *a == Value::Array(*x),
                    items@.len() == i,
                    forall|k: int|
                        0 <= k < i ==> value_model(#[trigger] items@[k]) == value_model(
                            x.items@[k],
                        ),
                    forall|k: int|
                        0 <= k < i ==> (value_wf(x.items@[k]) ==> value_wf(
                            #[trigger] items@[k],
                        )),
                decreases n - i,
            {
                proof {
                    assert(decreases_to!(*a => a->Array_0));
                    assert(a->Array_0 == *x);
                    assert(decreases_to!(*x => x.items));
                    assert(decreases_to!(x.items => x.items@));
                    assert(decreases_to!(x.items@ => x.items@[i as int]));
                    assert(decreases_to!(*a => x.items@[i as int]));
                }
                let c = clone_value(&x.items[i]);
                items.push(c);
                i = i + 1;
            }
            let arr = Array { items };
            proof {
                lemma_array_model(arr.items@);
                lemma_array_model(x.items@);
                assert forall|j: int| 0 <= j < n implies array_model(arr.items@)[j] == array_model(
                    x.items@,
                )[j] by {
                    assert(array_model(arr.items@)[j] == value_model(arr.items@[j]));
                    assert(array_model(x.items@)[j] == value_model(x.items@[j]));
                }
                assert(array_model(arr.items@) =~= array_model(x.items@));
                if value_wf(*a) {
                    assert forall|j: int| 0 <= j < arr.items@.len() implies value_wf(
                        #[trigger] arr.items@[j],
                    ) by {
                        assert(value_wf(x.items@[j]));
                    }
                    assert(value_wf(Value::Array(arr)));
                }
            }
            Value::Array(arr)
        },
        Value::Table(x) => {
            let n = x.entries.len();
            let mut entries: Vec<(String, Value)> = Vec::new();
            let mut i: usize = 0;
            while i < n
                invariant
                    i <= n,
                    n == x.entries@.len(),
                    *a == Value::Table(*x),
                    entries@.len() == i,
                    forall|k: int|
                        0 <= k < i ==> ((#[trigger] entries@[k]).0 == x.entries@[k].0
                            && value_model(entries@[k].1) == value_model(x.entries@[k].1)),
                    forall|k: int|
                        0 <= k < i ==> (value_wf(x.entries@[k].1) ==> value_wf(
                            (#[trigger] entries@[k]).1,
                        )),
                decreases n - i,
            {
                proof {
                    assert(decreases_to!(*a => a->Table_0));
                    assert(a->Table_0 == *x);
                    assert(decreases_to!(*x => x.entries));
                    assert(decreases_to!(x.entries => x.entries@));
                    assert(decreases_to!(x.entries@ => x.entries@[i as int]));
                    assert(decreases_to!(x.entries@[i as int] => x.entries@[i as int].1));
                    assert(decreases_to!(*a => x.entries@[i as int].1));
                }
                let key = x.entries[i].0.clone();
                let c = clone_value(&x.entries[i].1);
                entries.push((key, c));
                i = i + 1;
            }
            let t = Table { entries };
            proof {
                lemma_entries_model_congruence(t.entries@, x.entries@);
                if value_wf(*a) {
                    assert(table_entries_wf(x.entries@));
                    assert forall|p: int, q: int|
                        0 <= p < q < t.entries@.len() implies crate::scan::str_lt(
                        (#[trigger] t.entries@[p].0)@,
                        (#[trigger] t.entries@[q].0)@,
                    ) by {
                        assert(t.entries@[p].0 == x.entries@[p].0);
                        assert(t.entries@[q].0 == x.entries@[q].0);
                        assert(crate::scan::str_lt(x.entries@[p].0@, x.entries@[q].0@));
                    }
                    assert forall|p: int| 0 <= p < t.entries@.len() implies value_wf(
                        (#[trigger] t.entries@[p]).1,
                    ) by {
                        assert(value_wf(x.entries@[p].1));
                    }
                    assert(entries_sorted(t.entries@));
                    assert(table_entries_wf(t.entries@));
                    assert(value_wf(Value::Table(t)));
                }
            }
            Value::Table(t)
        },
    }
}

impl Clone for Value {
    /// A deep copy with the same model.
    fn clone(&self) -> (r: Value) {
        clone_value(self)
    }
}

impl Clone for Table {
    /// A deep copy with the same model.
    fn clone(&self) -> (r: Table) {
        clone_table(self)
    }
}

/// A deep copy of a table: same model map, well-formedness kept.
pub fn clone_table(t: &Table) -> (r: Table)
    ensures
        r@ == t@,
        table_wf(*t) ==> table_wf(r),
{
    let n = t.entries.len();
    let mut entries: Vec<(String, Value)> = Vec::new();
    let mut i: usize = 0;
    while i < n
        invariant
            i <= n,
            n == t.entries@.len(),
            entries@.len() == i,
            forall|k: int|
                0 <= k < i ==> ((#[trigger] entries@[k]).0 == t.entries@[k].0 && value_model(
                    entries@[k].1,
                ) == value_model(t.entries@[k].1)),
            forall|k: int|
                0 <= k < i ==> (value_wf(t.entries@[k].1) ==> value_wf(
                    (#[trigger] entries@[k]).1,
                )),
        decreases n - i,
    {
        let key = t.entries[i].0.clone();
        let c = clone_value(&t.entries[i].1);
        entries.push((key, c));
        i = i + 1;
    }
    let r = Table { entries };
    proof {
        lemma_entries_model_congruence(r.entries@, t.entries@);
        if table_wf(*t) {
            assert forall|p: int, q: int|
                0 <= p < q < r.entries@.len() implies crate::scan::str_lt(
                (#[trigger] r.entries@[p].0)@,
                (#[trigger] r.entries@[q].0)@,
            ) by {
                assert(r.entries@[p].0 == t.entries@[p].0);
                assert(r.entries@[q].0 == t.entries@[q].0);
            }
        }
    }
    r
}

impl PartialEq for Value {
    /// Structural equality; a float `nan` is unequal even to itself.
    fn eq(&self, other: &Value) -> (r: bool) {
        value_eq(self, other)
    }
}

impl vstd::std_specs::cmp::PartialEqSpecImpl for Value {
    open spec fn obeys_eq_spec() -> bool {
        true
    }

    open spec fn eq_spec(&self, other: &Value) -> bool {
        spec_value_eq(*self, *other)
    }
}

/// Decide pairwise structural equality of two element lists.
pub fn values_eq(x: &Vec<Value>, y: &Vec<Value>) -> (r: bool)
    ensures
        r == spec_values_eq(x@, y@),
{
    let n = x.len();
    if n != y.len() {
        proof {
            lemma_values_eq(x@, y@);
        }
        return false;
    }
    let mut i: usize = 0;
    while i < n
        invariant
            i <= n,
            n == x@.len(),
            n == y@.len(),
            forall|k: int| 0 <= k < i ==> spec_value_eq(#[trigger] x@[k], y@[k]),
        decreases n - i,
    {
        if !value_eq(&x[i], &y[i]) {
            proof {
                lemma_values_eq(x@, y@);
            }
            return false;
        }
        i = i + 1;
    }
    proof {
        lemma_values_eq(x@, y@);
    }
    true
}

/// Decide pairwise structural equality of two entry lists.
pub fn entries_eq(x: &Vec<(String, Value)>, y: &Vec<(String, Value)>) -> (r: bool)
    ensures
        r == spec_entries_eq(x@, y@),
{
    let n = x.len();
    if n != y.len() {
        proof {
            lemma_entries_eq(x@, y@);
        }
        return false;
    }
    let mut i: usize = 0;
    while i < n
        invariant
            i <= n,
            n == x@.len(),
            n == y@.len(),
            forall|k: int|
                0 <= k < i ==> ((#[trigger] x@[k]).0@ == y@[k].0@ && spec_value_eq(
                    x@[k].1,
                    y@[k].1,
                )),
        decreases n - i,
    {
        if !crate::scan::str_eq(x[i].0.as_str(), y[i].0.as_str()) {
            proof {
                lemma_entries_eq(x@, y@);
            }
            return false;
        }
        if !value_eq(&x[i].1, &y[i].1) {
            proof {
                lemma_entries_eq(x@, y@);
            }
            return false;
        }
        i = i + 1;
    }
    proof {
        lemma_entries_eq(x@, y@);
    }
    true
}

impl PartialEq for Array {
    /// Element-by-element structural equality.
    fn eq(&self, other: &Array) -> (r: bool) {
        values_eq(&self.items, &other.items)
    }
}

impl vstd::std_specs::cmp::PartialEqSpecImpl for Array {
    open spec fn obeys_eq_spec() -> bool {
        true
    }

    open spec fn eq_spec(&self, other: &Array) -> bool {
        spec_values_eq(self.items@, other.items@)
    }
}

impl PartialEq for Table {
    /// Entry-by-entry structural equality.
    fn eq(&self, other: &Table) -> (r: bool) {
        entries_eq(&self.entries, &other.entries)
    }
}

impl vstd::std_specs::cmp::PartialEqSpecImpl for Table {
    open spec fn obeys_eq_spec() -> bool {
        true
    }

    open spec fn eq_spec(&self, other: &Table) -> bool {
        spec_entries_eq(self.entries@, other.entries@)
    }
}

impl Value {
    /// The string inside, if the value is a string.
    pub fn as_str(&self) -> (r: Option<&str>)
        ensures
            match r {
                Some(s) => self@ matches Toml::String(m) && m == s@,
                None => !(self@ is String),
            },
    {
        match self {
            Value::String(s) => Some(s.as_str()),
            _ => None,
        }
    }

    /// The integer inside, if the value is an integer.
    pub fn as_i64(&self) -> (r: Option<i64>)
        ensures
            match r {
                Some(i) => self@ == Toml::Integer(i),
                None => !(self@ is Integer),
            },
    {
        match self {
            Value::Integer(i) => Some(*i),
            _ => None,
        }
    }

    /// The float literal inside, if the value is a float.
    pub fn as_float(&self) -> (r: Option<&FloatValue>)
        ensures
            match r {
                Some(f) => self@ == Toml::Float(float_model(*f)),
                None => !(self@ is Float),
            },
    {
        match self {
            Value::Float(f) => Some(f),
            _ => None,
        }
    }

    /// The boolean inside, if the value is a boolean.
    pub fn as_bool(&self) -> (r: Option<bool>)
        ensures
            match r {
                Some(b) => self@ == Toml::Boolean(b),
                None => !(self@ is Boolean),
            },
    {
        match self {
            Value::Boolean(b) => Some(*b),
            _ => None,
        }
    }

    /// The array inside, if the value is an array.
    pub fn as_array(&self) -> (r: Option<&Array>)
        ensures
            match r {
                Some(a) => self@ == Toml::Array(a@) && (value_wf(*self) ==> array_wf(*a)),
                None => !(self@ is Array),
            },
    {
        match self {
            Value::Array(a) => Some(a),
            _ => None,
        }
    }

    /// The table inside, if the value is a table.
    pub fn as_table(&self) -> (r: Option<&Table>)
        ensures
            match r {
                Some(t) => self@ == Toml::Table(t@) && (value_wf(*self) ==> table_wf(*t)),
                None => !(self@ is Table),
            },
    {
        match self {
            Value::Table(t) => Some(t),
            _ => None,
        }
    }

    /// The datetime inside, if the value is a datetime.
    pub fn as_datetime(&self) -> (r: Option<Datetime>)
        ensures
            match r {
                Some(dt) => self@ == Toml::Datetime(dt),
                None => !(self@ is Datetime),
            },
    {
        match self {
            Value::Datetime(dt) => Some(*dt),
            _ => None,
        }
    }
}

} // verus!
