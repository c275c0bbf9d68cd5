//! A total order on field values and on record instances, for the
//! ordering capability: values of different declared types are ranked by
//! type; values of one type, and whole instances, compare shortlex —
//! by length first, then by the first differing position.

use vstd::prelude::*;
use crate::schema::{Value, ValueModel};
use crate::record::RecordInstance;

verus! {

/// The outcome of comparing two values or two instances.
#[derive(Clone, Copy, PartialEq, Eq, Structural, Debug)]
pub enum Comparison {
    Less,
    Equal,
    Greater,
}

/// How two machine integers compare.
pub open spec fn cmp_i64(a: i64, b: i64) -> Comparison {
    if a < b {
        Comparison::Less
    } else if a > b {
        Comparison::Greater
    } else {
        Comparison::Equal
    }
}

/// How two truth values compare: false before true.
pub open spec fn cmp_bool(a: bool, b: bool) -> Comparison {
    if a == b {
        Comparison::Equal
    } else if !a {
        Comparison::Less
    } else {
        Comparison::Greater
    }
}

/// The first differing character decides, scanning from `i` on; equal
/// prefixes of equal length compare equal.
pub open spec fn cmp_chars_from(a: Seq<char>, b: Seq<char>, i: int) -> Comparison
    decreases a.len() - i,
{
    if i < 0 || i >= a.len() || i >= b.len() {
        Comparison::Equal
    } else if (a[i] as u32) < (b[i] as u32) {
        Comparison::Less
    } else if (a[i] as u32) > (b[i] as u32) {
        Comparison::Greater
    } else {
        cmp_chars_from(a, b, i + 1)
    }
}

/// Shortlex on text: length decides first, then the first differing
/// character.
pub open spec fn cmp_text(a: Seq<char>, b: Seq<char>) -> Comparison {
    if a.len() < b.len() {
        Comparison::Less
    } else if a.len() > b.len() {
        Comparison::Greater
    } else {
        cmp_chars_from(a, b, 0)
    }
}

/// The first differing element decides, scanning from `i` on.
pub open spec fn cmp_ints_from(a: Seq<i64>, b: Seq<i64>, i: int) -> Comparison
    decreases a.len() - i,
{
    if i < 0 || i >= a.len() || i >= b.len() {
        Comparison::Equal
    } else if cmp_i64(a[i], b[i]) != Comparison::Equal {
        cmp_i64(a[i], b[i])
    } else {
        cmp_ints_from(a, b, i + 1)
    }
}

/// Shortlex on lists: length decides first, then the first differing
/// element.
pub open spec fn cmp_list(a: Seq<i64>, b: Seq<i64>) -> Comparison {
    if a.len() < b.len() {
        Comparison::Less
    } else if a.len() > b.len() {
        Comparison::Greater
    } else {
        cmp_ints_from(a, b, 0)
    }
}

/// The rank of a value's declared type, for comparisons across types.
pub open spec fn value_rank(v: ValueModel) -> int {
    match v {
        ValueModel::Int(_) => 0,
        ValueModel::Bool(_) => 1,
        ValueModel::Text(_) => 2,
        ValueModel::List(_) => 3,
    }
}

/// How two field values compare: values of one declared type compare
/// within it; values of different types compare by type rank.
pub open spec fn cmp_value(a: ValueModel, b: ValueModel) -> Comparison {
    match (a, b) {
        (ValueModel::Int(x), ValueModel::Int(y)) => cmp_i64(x, y),
        (ValueModel::Bool(x), ValueModel::Bool(y)) => cmp_bool(x, y),
        (ValueModel::Text(x), ValueModel::Text(y)) => cmp_text(x, y),
        (ValueModel::List(x), ValueModel::List(y)) => cmp_list(x, y),
        _ => if value_rank(a) < value_rank(b) {
            Comparison::Less
        } else {
            Comparison::Greater
        },
    }
}

/// The first differing field decides, scanning from `i` on.
pub open spec fn cmp_fields_from(a: Seq<ValueModel>, b: Seq<ValueModel>, i: int) -> Comparison
    decreases a.len() - i,
{
    if i < 0 || i >= a.len() || i >= b.len() {
        Comparison::Equal
    } else if cmp_value(a[i], b[i]) != Comparison::Equal {
        cmp_value(a[i], b[i])
    } else {
        cmp_fields_from(a, b, i + 1)
    }
}

/// Shortlex on whole instances: field count decides first, then the first
/// differing field in declaration order.
pub open spec fn cmp_instances(a: Seq<ValueModel>, b: Seq<ValueModel>) -> Comparison {
    if a.len() < b.len() {
        Comparison::Less
    } else if a.len() > b.len() {
        Comparison::Greater
    } else {
        cmp_fields_from(a, b, 0)
    }
}

/// Compares two texts shortlex.
#[verifier::loop_isolation(false)]
fn cmp_text_exec(a: &String, b: &String) -> (r: Comparison)
    ensures
        r == cmp_text(a@, b@),
{
    let la = a.as_str().unicode_len();
    let lb = b.as_str().unicode_len();
    if la < lb {
        return Comparison::Less;
    }
    if la > lb {
        return Comparison::Greater;
    }
    let mut i: usize = 0;
    while i < la
        invariant
            la as nat == a@.len(),
            la == lb,
            lb as nat == b@.len(),
            i <= la,
            cmp_chars_from(a@, b@, 0) == cmp_chars_from(a@, b@, i as int),
        decreases la - i,
    {
        let ca = a.as_str().get_char(i);
        let cb = b.as_str().get_char(i);
        if (ca as u32) < (cb as u32) {
            return Comparison::Less;
        }
        if (ca as u32) > (cb as u32) {
            return Comparison::Greater;
        }
        i = i + 1;
    }
    Comparison::Equal
}

/// Compares two integer lists shortlex.
#[verifier::loop_isolation(false)]
fn cmp_ints_exec(a: &Vec<i64>, b: &Vec<i64>) -> (r: Comparison)
    ensures
        r == cmp_list(a@, b@),
{
    if a.len() < b.len() {
        return Comparison::Less;
    }
    if a.len() > b.len() {
        return Comparison::Greater;
    }
    let mut i: usize = 0;
    while i < a.len()
        invariant
            a.len() == b.len(),
            i <= a.len(),
            cmp_ints_from(a@, b@, 0) == cmp_ints_from(a@, b@, i as int),
        decreases a.len() - i,
    {
        if a[i] < b[i] {
            return Comparison::Less;
        }
        if a[i] > b[i] {
            return Comparison::Greater;
        }
        i = i + 1;
    }
    Comparison::Equal
}

impl Value {
    /// Compares two values in the total order of the ordering capability.
    pub fn compare(&self, other: &Value) -> (r: Comparison)
        ensures
            r == cmp_value(self@, other@),
    {
        match (self, other) {
            (Value::Int(x), Value::Int(y)) => {
                if *x < *y {
                    Comparison::Less
                } else if *x > *y {
                    Comparison::Greater
                } else {
                    Comparison::Equal
                }
            },
            (Value::Bool(x), Value::Bool(y)) => {
                if *x == *y {
                    Comparison::Equal
                } else if !*x {
                    Comparison::Less
                } else {
                    Comparison::Greater
                }
            },
            (Value::Text(x), Value::Text(y)) => cmp_text_exec(x, y),
            (Value::List(x), Value::List(y)) => cmp_ints_exec(x, y),
            _ => {
                let ra = self.rank();
                let rb = other.rank();
                if ra < rb {
                    Comparison::Less
                } else {
                    Comparison::Greater
                }
            },
        }
    }

    /// The rank of this value's declared type.
    fn rank(&self) -> (r: u8)
        ensures
            r as int == value_rank(self@),
    {
        match self {
            Value::Int(_) => 0,
            Value::Bool(_) => 1,
            Value::Text(_) => 2,
            Value::List(_) => 3,
        }
    }
}

impl RecordInstance {
    /// Compares two instances shortlex, field for field.
    #[verifier::loop_isolation(false)]
    pub(crate) fn compare(&self, other: &RecordInstance) -> (r: Comparison)
        ensures
            r == cmp_instances(self@, other@),
    {
        if self.values.len() < other.values.len() {
            return Comparison::Less;
        }
        if self.values.len() > other.values.len() {
            return Comparison::Greater;
        }
        let mut i: usize = 0;
        while i < self.values.len()
            invariant
                self.values.len() == other.values.len(),
                i <= self.values.len(),
                cmp_fields_from(self@, other@, 0) == cmp_fields_from(self@, other@, i as int),
            decreases self.values.len() - i,
        {
            let c = self.values[i].compare(&other.values[i]);
            if c != Comparison::Equal {
                proof {
                    assert(self@[i as int] == self.values@[i as int]@);
                    assert(other@[i as int] == other.values@[i as int]@);
                }
                return c;
            }
            i = i + 1;
        }
        Comparison::Equal
    }
}

} // verus!
