//! Serialization support: the entry form instances are stored in, and
//! deserialization that fills fields absent from the stored input from
//! their default providers — the forward-compatibility fallback the
//! schema facility exists for.

use vstd::prelude::*;
use crate::schema::{FieldModel, Schema, Value, ValueModel, has_ty, ty_matches};
use crate::record::{RecordInstance, default_models, lemma_find_field_hit, provider_model};

verus! {

/// One field of a serialized record: the field's name with its stored
/// value.
pub struct SerializedField {
    pub name: String,
    pub value: Value,
}

/// The mathematical content of a [`SerializedField`].
pub struct EntryModel {
    pub name: Seq<char>,
    pub value: ValueModel,
}

impl View for SerializedField {
    type V = EntryModel;

    open spec fn view(&self) -> EntryModel {
        EntryModel { name: self.name@, value: self.value@ }
    }
}

/// The contents of a sequence of serialized fields.
pub open spec fn entry_models(entries: Seq<SerializedField>) -> Seq<EntryModel> {
    entries.map_values(|e: SerializedField| e@)
}

/// Position of the first stored entry bearing `name`, scanning from `i` on.
pub open spec fn find_entry_from(entries: Seq<EntryModel>, name: Seq<char>, i: int) -> Option<int>
    decreases entries.len() - i,
{
    if i < 0 || i >= entries.len() {
        Option::None
    } else if entries[i].name == name {
        Option::Some(i)
    } else {
        find_entry_from(entries, name, i + 1)
    }
}

/// A scan from `k` finds nothing when no entry from `k` on bears the name.
pub proof fn lemma_find_entry_miss(entries: Seq<EntryModel>, name: Seq<char>, k: int)
    requires
        0 <= k <= entries.len(),
        forall|i: int| k <= i < entries.len() ==> (#[trigger] entries[i]).name != name,
    ensures
        find_entry_from(entries, name, k) is None,
    decreases entries.len() - k,
{
    if k < entries.len() {
        lemma_find_entry_miss(entries, name, k + 1);
    }
}

/// A scan from `k` lands on `t` when `t` bears the name and no position
/// between `k` and `t` does.
pub proof fn lemma_find_entry_hit(entries: Seq<EntryModel>, name: Seq<char>, k: int, t: int)
    requires
        0 <= k <= t < entries.len(),
        entries[t].name == name,
        forall|j: int| k <= j < t ==> (#[trigger] entries[j]).name != name,
    ensures
        find_entry_from(entries, name, k) == Option::Some(t),
    decreases t - k,
{
    if k < t {
        lemma_find_entry_hit(entries, name, k + 1, t);
    }
}

/// The value a field receives on deserialization: the first stored entry
/// of the field's name when that entry is well-typed; the field's default
/// when the entry is absent or ill-typed.
pub open spec fn revived_value(entries: Seq<EntryModel>, field: FieldModel) -> ValueModel {
    match find_entry_from(entries, field.name, 0) {
        Option::Some(k) => if has_ty(entries[k].value, field.ty) {
            entries[k].value
        } else {
            field.default
        },
        Option::None => field.default,
    }
}

/// The field values deserialization reconstructs from stored input.
pub open spec fn revived_models(entries: Seq<EntryModel>, fields: Seq<FieldModel>) -> Seq<
    ValueModel,
> {
    Seq::new(fields.len(), |i: int| revived_value(entries, fields[i]))
}

impl Schema {
    /// Serializes an instance: one entry per field, in field order, each
    /// bearing its field's name and the instance's value for it.
    #[verifier::loop_isolation(false)]
    pub fn serialize(&self, inst: &RecordInstance) -> (r: Vec<SerializedField>)
        requires
            inst@.len() == self@.len(),
        ensures
            r@.len() == self@.len(),
            forall|i: int| 0 <= i < r@.len() ==> (#[trigger] r@[i])@.name == self@[i].name
                && r@[i]@.value == inst@[i],
    {
        let mut out: Vec<SerializedField> = Vec::new();
        let n = self.fields.len();
        let mut i: usize = 0;
        while i < n
            invariant
                i <= n,
                out@.len() == i,
                forall|k: int| 0 <= k < i ==> (#[trigger] out@[k])@.name == self@[k].name
                    && out@[k]@.value == inst@[k],
            decreases n - i,
        {
            proof {
                assert(inst@[i as int] == inst.values@[i as int]@);
            }
            out.push(SerializedField {
                name: self.fields[i].name.clone(),
                value: inst.values[i].dup(),
            });
            i = i + 1;
        }
        out
    }

    /// Deserializes stored input against this schema: every field takes
    /// the first stored entry of its name when that entry is well-typed,
    /// and its default value otherwise; stored entries the schema lacks
    /// are ignored. Deserialization cannot fail.
    #[verifier::loop_isolation(false)]
    pub fn deserialize(&self, entries: &Vec<SerializedField>) -> (r: RecordInstance)
        ensures
            r@ == revived_models(entry_models(entries@), self@),
            self.wf() ==> r.conforms_to(self@),
    {
        let ghost em = entry_models(entries@);
        let mut values: Vec<Value> = Vec::new();
        let n = self.fields.len();
        let mut i: usize = 0;
        while i < n
            invariant
                i <= n,
                values@.len() == i,
                forall|k: int| 0 <= k < i ==> (#[trigger] values@[k])@
                    == revived_value(em, self@[k]),
            decreases n - i,
        {
            let ghost fname = self@[i as int].name;
            let m = entries.len();
            let mut hit: usize = m;
            let mut j: usize = 0;
            while j < m && hit == m
                invariant
                    j <= m,
                    hit == m || (hit < j && find_entry_from(em, fname, 0)
                        == Option::Some(hit as int)),
                    hit == m ==> find_entry_from(em, fname, 0)
                        == find_entry_from(em, fname, j as int),
                decreases m - j,
            {
                if entries[j].name == self.fields[i].name {
                    proof {
                        assert(em[j as int].name == fname);
                        assert(find_entry_from(em, fname, j as int) == Option::Some(j as int));
                    }
                    hit = j;
                }
                j = j + 1;
            }
            let v: Value = if hit < m {
                if ty_matches(&entries[hit].value, self.fields[i].ty) {
                    entries[hit].value.dup()
                } else {
                    self.fields[i].default.dup()
                }
            } else {
                proof {
                    assert(find_entry_from(em, fname, m as int) is None);
                }
                self.fields[i].default.dup()
            };
            values.push(v);
            i = i + 1;
        }
        let r = RecordInstance { values };
        proof {
            assert(r@ =~= revived_models(em, self@));
            if self.wf() {
                assert forall|k: int| 0 <= k < self@.len() implies
                    has_ty(#[trigger] r@[k], self@[k].ty) by {
                    assert(r@[k] == revived_value(em, self@[k]));
                }
            }
        }
        r
    }
}

/// Law: deserializing a full serialization of a conforming instance
/// reproduces the instance, field for field.
pub proof fn lemma_roundtrip(s: Schema, inst: Seq<ValueModel>, entries: Seq<EntryModel>)
    requires
        s.wf(),
        inst.len() == s@.len(),
        forall|i: int| 0 <= i < s@.len() ==> has_ty(#[trigger] inst[i], s@[i].ty),
        entries.len() == s@.len(),
        forall|i: int| 0 <= i < entries.len() ==> (#[trigger] entries[i]).name == s@[i].name
            && entries[i].value == inst[i],
    ensures
        revived_models(entries, s@) == inst,
{
    assert forall|i: int| 0 <= i < s@.len() implies
        revived_models(entries, s@)[i] == inst[i] by {
        assert forall|j: int| 0 <= j < i implies
            (#[trigger] entries[j]).name != s@[i].name by {
            assert(s@[j].name != s@[i].name);
        }
        lemma_find_entry_hit(entries, s@[i].name, 0, i);
    }
    assert(revived_models(entries, s@) =~= inst);
}

/// Law: dropping one stored field and deserializing reconstructs exactly
/// that field from its default provider — the value the provider returns —
/// and every other field from its stored value.
pub proof fn lemma_roundtrip_with_field_removed(
    s: Schema,
    inst: Seq<ValueModel>,
    entries: Seq<EntryModel>,
    k: int,
)
    requires
        s.wf(),
        inst.len() == s@.len(),
        forall|i: int| 0 <= i < s@.len() ==> has_ty(#[trigger] inst[i], s@[i].ty),
        entries.len() == s@.len(),
        forall|i: int| 0 <= i < entries.len() ==> (#[trigger] entries[i]).name == s@[i].name
            && entries[i].value == inst[i],
        0 <= k < entries.len(),
    ensures
        forall|i: int| 0 <= i < s@.len() && i != k
            ==> #[trigger] revived_models(entries.remove(k), s@)[i] == inst[i],
        revived_models(entries.remove(k), s@)[k] == default_models(s@)[k],
        provider_model(s@, s@[k].name) == Option::Some(default_models(s@)[k]),
{
    let rest = entries.remove(k);
    assert forall|i: int| 0 <= i < s@.len() && i != k implies
        #[trigger] revived_models(rest, s@)[i] == inst[i] by {
        if i < k {
            assert forall|j: int| 0 <= j < i implies
                (#[trigger] rest[j]).name != s@[i].name by {
                assert(rest[j] == entries[j]);
                assert(s@[j].name != s@[i].name);
            }
            assert(rest[i] == entries[i]);
            lemma_find_entry_hit(rest, s@[i].name, 0, i);
        } else {
            assert forall|j: int| 0 <= j < i - 1 implies
                (#[trigger] rest[j]).name != s@[i].name by {
                if j < k {
                    assert(rest[j] == entries[j]);
                    assert(s@[j].name != s@[i].name);
                } else {
                    assert(rest[j] == entries[j + 1]);
                    assert(s@[j + 1].name != s@[i].name);
                }
            }
            assert(rest[i - 1] == entries[i]);
            lemma_find_entry_hit(rest, s@[i].name, 0, i - 1);
        }
    }
    assert forall|j: int| 0 <= j < rest.len() implies
        (#[trigger] rest[j]).name != s@[k].name by {
        if j < k {
            assert(rest[j] == entries[j]);
            assert(s@[j].name != s@[k].name);
        } else {
            assert(rest[j] == entries[j + 1]);
            assert(s@[j + 1].name != s@[k].name);
        }
    }
    lemma_find_entry_miss(rest, s@[k].name, 0);
    assert forall|j: int| 0 <= j < k implies
        (#[trigger] s@[j]).name != s@[k].name by {}
    lemma_find_field_hit(s@, s@[k].name, 0, k);
}

/// Law: a default-constructed instance, serialized and then deserialized
/// with any one stored field dropped, comes back equal to the original —
/// the dropped field is refilled by its default provider.
pub proof fn lemma_default_roundtrip_with_field_removed(
    s: Schema,
    entries: Seq<EntryModel>,
    k: int,
)
    requires
        s.wf(),
        entries.len() == s@.len(),
        forall|i: int| 0 <= i < entries.len() ==> (#[trigger] entries[i]).name == s@[i].name
            && entries[i].value == default_models(s@)[i],
        0 <= k < entries.len(),
    ensures
        revived_models(entries.remove(k), s@) == default_models(s@),
{
    let d = default_models(s@);
    assert forall|i: int| 0 <= i < s@.len() implies has_ty(#[trigger] d[i], s@[i].ty) by {
        assert(d[i] == s@[i].default);
    }
    lemma_roundtrip_with_field_removed(s, d, entries, k);
    assert(revived_models(entries.remove(k), s@) =~= d);
}

} // verus!
