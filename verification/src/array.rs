//! A TOML array: an ordered sequence of values, insertion order preserved,
//! heterogeneous element types permitted.
use vstd::prelude::*;

use crate::value::{array_wf, lemma_array_model, value_model, value_wf, Value};

verus! {

/// A TOML array.
#[derive(Debug)]
pub struct Array {
    /// The elements, in insertion order.
    pub items: Vec<Value>,
}

impl Array {
    /// Create a new, empty array.
    pub fn new() -> (a: Array)
        ensures
            a@ == Seq::<crate::value::Toml>::empty(),
            a.items@.len() == 0,
            array_wf(a),
    {
        let a = Array { items: Vec::new() };
        proof {
            assert(a@ =~= Seq::<crate::value::Toml>::empty());
        }
        a
    }

    /// Append a value at the end of the array.
    pub fn push(&mut self, value: Value)
        ensures
            final (self)@ == old(self)@.push(value_model(value)),
            final (self).items@ == old(self).items@.push(value),
            array_wf(*old(self)) && value_wf(value) ==> array_wf(*final (self)),
    {
        self.items.push(value);
        proof {
            assert(self.items@.drop_last() =~= old(self).items@);
            assert(self@ =~= old(self)@.push(value_model(value)));
        }
    }

    /// The value at the given index, if any.
    pub fn get(&self, index: usize) -> (r: Option<&Value>)
        ensures
            match r {
                Some(v) => index < self@.len() && value_model(*v) == self@[index as int] && *v
                    == self.items@[index as int],
                None => index >= self@.len(),
            },
    {
        proof {
            lemma_array_model(self.items@);
        }
        if index < self.items.len() {
            Some(&self.items[index])
        } else {
            None
        }
    }

    /// The number of elements.
    pub fn len(&self) -> (n: usize)
        ensures
            n == self@.len(),
            n == self.items@.len(),
    {
        proof {
            lemma_array_model(self.items@);
        }
        self.items.len()
    }

    /// Whether the array holds no element.
    pub fn is_empty(&self) -> (r: bool)
        ensures
            r == (self@.len() == 0),
    {
        proof {
            lemma_array_model(self.items@);
        }
        self.items.len() == 0
    }

    /// The array content as a slice.
    pub fn as_slice(&self) -> (s: &[Value])
        ensures
            s@ == self.items@,
    {
        self.items.as_slice()
    }
}

} // verus!
