//! Record instances: the all-defaults constructor and the standalone
//! per-field default providers of a schema.

use vstd::prelude::*;
use crate::schema::{FieldModel, Schema, Value, ValueModel, has_ty, names_unique};

verus! {

/// The field values a freshly default-constructed instance of `fields` holds.
pub open spec fn default_models(fields: Seq<FieldModel>) -> Seq<ValueModel> {
    Seq::new(fields.len(), |i: int| fields[i].default)
}

/// A concrete value of a record type: one value per field, in field order.
pub struct RecordInstance {
    pub values: Vec<Value>,
}

impl View for RecordInstance {
    type V = Seq<ValueModel>;

    open spec fn view(&self) -> Seq<ValueModel> {
        self.values@.map_values(|v: Value| v@)
    }
}

impl RecordInstance {
    /// The instance fits the schema: one value per field, each inhabiting
    /// the field's declared type.
    pub open spec fn conforms_to(&self, fields: Seq<FieldModel>) -> bool {
        self@.len() == fields.len()
            && forall|i: int| 0 <= i < fields.len() ==> has_ty(#[trigger] self@[i], fields[i].ty)
    }

    /// Whether two instances hold the same values, field for field.
    #[verifier::loop_isolation(false)]
    pub(crate) fn equals(&self, other: &RecordInstance) -> (r: bool)
        ensures
            r == (self@ == other@),
    {
        if self.values.len() != other.values.len() {
            proof {
                assert(self@.len() == self.values@.len());
                assert(other@.len() == other.values@.len());
            }
            return false;
        }
        let mut i: usize = 0;
        while i < self.values.len()
            invariant
                self.values.len() == other.values.len(),
                i <= self.values.len(),
                forall|k: int| 0 <= k < i ==> self@[k] == other@[k],
            decreases self.values.len() - i,
        {
            if !self.values[i].equals(&other.values[i]) {
                proof {
                    assert(self@[i as int] == self.values@[i as int]@);
                    assert(other@[i as int] == other.values@[i as int]@);
                }
                return false;
            }
            i = i + 1;
        }
        proof {
            assert(self@ =~= other@);
        }
        true
    }

    /// An independent copy of this instance, field values copied in full.
    pub(crate) fn deep_copy(&self) -> (r: RecordInstance)
        ensures
            r@ == self@,
    {
        let mut values: Vec<Value> = Vec::new();
        let mut i: usize = 0;
        while i < self.values.len()
            invariant
                i <= self.values.len(),
                values@.len() == i,
                forall|k: int| 0 <= k < i ==> (#[trigger] values@[k])@ == self@[k],
            decreases self.values.len() - i,
        {
            values.push(self.values[i].dup());
            i = i + 1;
        }
        let r = RecordInstance { values };
        proof {
            assert(r@ =~= self@);
        }
        r
    }

    /// Overwrites the value at `index`, leaving every other field unchanged.
    pub fn set_value(&mut self, index: usize, value: Value)
        requires
            index < old(self)@.len(),
        ensures
            final(self)@ == old(self)@.update(index as int, value@),
    {
        self.values.set(index, value);
        proof {
            assert(self@ =~= old(self)@.update(index as int, value@));
        }
    }
}

/// Where the field called `name` stands, scanning from position `i` on.
pub open spec fn find_field_from(fields: Seq<FieldModel>, name: Seq<char>, i: int) -> Option<int>
    decreases fields.len() - i,
{
    if i < 0 || i >= fields.len() {
        Option::None
    } else if fields[i].name == name {
        Option::Some(i)
    } else {
        find_field_from(fields, name, i + 1)
    }
}

/// What the standalone default provider hands out for `name`: the default
/// value of the first field of that name, if the schema has one.
pub open spec fn provider_model(fields: Seq<FieldModel>, name: Seq<char>) -> Option<ValueModel> {
    match find_field_from(fields, name, 0) {
        Option::Some(i) => Option::Some(fields[i].default),
        Option::None => Option::None,
    }
}

/// A scan from `k` lands on `t` when `t` bears the name and no position
/// between `k` and `t` does.
pub proof fn lemma_find_field_hit(fields: Seq<FieldModel>, name: Seq<char>, k: int, t: int)
    requires
        0 <= k <= t < fields.len(),
        fields[t].name == name,
        forall|j: int| k <= j < t ==> (#[trigger] fields[j]).name != name,
    ensures
        find_field_from(fields, name, k) == Option::Some(t),
    decreases t - k,
{
    if k < t {
        lemma_find_field_hit(fields, name, k + 1, t);
    }
}

impl Schema {
    /// The all-defaults constructor: a fresh instance in which every field
    /// holds its schema default. Each call evaluates the defaults anew, so
    /// no two instances share list storage.
    pub fn default_instance(&self) -> (r: RecordInstance)
        ensures
            r@ == default_models(self@),
            self.wf() ==> r.conforms_to(self@),
    {
        let mut values: Vec<Value> = Vec::new();
        let n = self.fields.len();
        let mut i: usize = 0;
        while i < n
            invariant
                n == self.fields.len(),
                i <= n,
                values@.len() == i,
                forall|k: int| 0 <= k < i ==> (#[trigger] values@[k])@ == self@[k].default,
            decreases n - i,
        {
            values.push(self.fields[i].default.dup());
            i = i + 1;
        }
        let r = RecordInstance { values };
        proof {
            assert(r@ =~= default_models(self@));
        }
        r
    }

    /// The standalone default provider: the default value of the field
    /// called `name`, independent of any instance. Returns a value exactly
    /// when the schema has a field of that name.
    pub fn default_provider(&self, name: &String) -> (r: Option<Value>)
        ensures
            match r {
                Option::Some(v) => provider_model(self@, name@) == Option::Some(v@),
                Option::None => provider_model(self@, name@) is None,
            },
            (r is Some) <==> exists|i: int|
                0 <= i < self@.len() && (#[trigger] self@[i]).name == name@,
    {
        let n = self.fields.len();
        let mut i: usize = 0;
        while i < n
            invariant
                n == self.fields.len(),
                i <= n,
                find_field_from(self@, name@, 0) == find_field_from(self@, name@, i as int),
                forall|k: int| 0 <= k < i ==> (#[trigger] self@[k]).name != name@,
            decreases n - i,
        {
            if self.fields[i].name == *name {
                proof {
                    assert(find_field_from(self@, name@, i as int)
                        == Option::Some(i as int));
                }
                return Option::Some(self.fields[i].default.dup());
            }
            i = i + 1;
        }
        proof {
            assert(find_field_from(self@, name@, n as int) is None);
        }
        Option::None
    }
}

/// Law: for every field, the standalone default provider returns exactly
/// the value that the field holds in a freshly default-constructed
/// instance.
pub proof fn lemma_provider_matches_default_instance(s: Schema, i: int)
    requires
        s.wf(),
        0 <= i < s@.len(),
    ensures
        provider_model(s@, s@[i].name) == Option::Some(default_models(s@)[i]),
{
    assert forall|j: int| 0 <= j < i implies (#[trigger] s@[j]).name != s@[i].name by {
        assert(names_unique(s@));
    }
    lemma_find_field_hit(s@, s@[i].name, 0, i);
}

/// Law: default construction shares no state between instances. Two
/// freshly default-constructed instances both equal the schema defaults,
/// and overwriting any one field of the first changes that field alone —
/// the second still equals the defaults everywhere.
pub proof fn lemma_default_instances_independent(
    s: Schema,
    a: Seq<ValueModel>,
    b: Seq<ValueModel>,
    i: int,
    v: ValueModel,
)
    requires
        a == default_models(s@),
        b == default_models(s@),
        0 <= i < a.len(),
    ensures
        a.update(i, v)[i] == v,
        forall|j: int| 0 <= j < a.len() && j != i ==> a.update(i, v)[j] == default_models(s@)[j],
        b == default_models(s@),
{
}

} // verus!
