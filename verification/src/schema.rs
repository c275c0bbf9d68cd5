//! Record schemas: field descriptors, the value domain fields range over,
//! and definition-time validation of a declared schema.

use vstd::prelude::*;

verus! {

/// The type a field of a record may declare.
#[derive(Clone, Copy, PartialEq, Eq, Structural, Debug)]
pub enum Ty {
    Integer,
    Boolean,
    Text,
    List,
}

/// A concrete value a field of a record may hold.
pub enum Value {
    Int(i64),
    Bool(bool),
    Text(String),
    List(Vec<i64>),
}

/// The mathematical content of a [`Value`]: owned text and lists are read as
/// sequences, so that two values are equal exactly when their contents are.
pub enum ValueModel {
    Int(i64),
    Bool(bool),
    Text(Seq<char>),
    List(Seq<i64>),
}

impl View for Value {
    type V = ValueModel;

    open spec fn view(&self) -> ValueModel {
        match self {
            Value::Int(n) => ValueModel::Int(*n),
            Value::Bool(b) => ValueModel::Bool(*b),
            Value::Text(s) => ValueModel::Text(s@),
            Value::List(v) => ValueModel::List(v@),
        }
    }
}

/// Whether value `v` inhabits declared type `t`.
pub open spec fn has_ty(v: ValueModel, t: Ty) -> bool {
    match v {
        ValueModel::Int(_) => t == Ty::Integer,
        ValueModel::Bool(_) => t == Ty::Boolean,
        ValueModel::Text(_) => t == Ty::Text,
        ValueModel::List(_) => t == Ty::List,
    }
}

impl Value {
    /// The declared type this value inhabits.
    pub fn ty(&self) -> (t: Ty)
        ensures
            has_ty(self@, t),
            forall|u: Ty| has_ty(self@, u) ==> u == t,
    {
        match self {
            Value::Int(_) => Ty::Integer,
            Value::Bool(_) => Ty::Boolean,
            Value::Text(_) => Ty::Text,
            Value::List(_) => Ty::List,
        }
    }

    /// Whether two values have the same content.
    pub fn equals(&self, other: &Value) -> (r: bool)
        ensures
            r == (self@ == other@),
    {
        match (self, other) {
            (Value::Int(x), Value::Int(y)) => *x == *y,
            (Value::Bool(x), Value::Bool(y)) => *x == *y,
            (Value::Text(x), Value::Text(y)) => *x == *y,
            (Value::List(x), Value::List(y)) => ints_equal(x, y),
            _ => false,
        }
    }

    /// An independent copy of this value with the same content; a copied
    /// list shares no storage with the original.
    pub fn dup(&self) -> (r: Value)
        ensures
            r@ == self@,
    {
        match self {
            Value::Int(n) => Value::Int(*n),
            Value::Bool(b) => Value::Bool(*b),
            Value::Text(s) => Value::Text(s.clone()),
            Value::List(v) => Value::List(copy_ints(v)),
        }
    }
}

/// Whether `v`'s declared type is exactly `t`.
pub fn ty_matches(v: &Value, t: Ty) -> (r: bool)
    ensures
        r == has_ty(v@, t),
{
    let vt = v.ty();
    vt == t
}

/// Whether two lists of integers hold the same elements in the same order.
fn ints_equal(a: &Vec<i64>, b: &Vec<i64>) -> (r: bool)
    ensures
        r == (a@ == b@),
{
    if a.len() != b.len() {
        return false;
    }
    let mut i: usize = 0;
    while i < a.len()
        invariant
            a.len() == b.len(),
            i <= a.len(),
            forall|k: int| 0 <= k < i ==> a@[k] == b@[k],
        decreases a.len() - i,
    {
        if a[i] != b[i] {
            return false;
        }
        i = i + 1;
    }
    proof {
        assert(a@ =~= b@);
    }
    true
}

/// An element-by-element copy of a list of integers.
fn copy_ints(v: &Vec<i64>) -> (r: Vec<i64>)
    ensures
        r@ == v@,
{
    let mut r: Vec<i64> = Vec::new();
    let mut i: usize = 0;
    while i < v.len()
        invariant
            i <= v.len(),
            r@ == v@.subrange(0, i as int),
        decreases v.len() - i,
    {
        r.push(v[i]);
        assert(r@ =~= v@.subrange(0, i as int + 1));
        i = i + 1;
    }
    assert(r@ =~= v@);
    r
}

/// The access marker a field of a record declares.
#[derive(Clone, Copy, PartialEq, Eq, Structural, Debug)]
pub enum Visibility {
    Public,
    Private,
}

/// One field of a record schema: an access marker, a name, a declared type,
/// the field's default value, and an optional documentation note.
pub struct FieldDescriptor {
    pub visibility: Visibility,
    pub name: String,
    pub ty: Ty,
    pub default: Value,
    pub doc: Option<String>,
}

/// The mathematical content of a [`FieldDescriptor`].
pub struct FieldModel {
    pub visibility: Visibility,
    pub name: Seq<char>,
    pub ty: Ty,
    pub default: ValueModel,
    pub doc: Option<Seq<char>>,
}

impl View for FieldDescriptor {
    type V = FieldModel;

    open spec fn view(&self) -> FieldModel {
        FieldModel {
            visibility: self.visibility,
            name: self.name@,
            ty: self.ty,
            default: self.default@,
            doc: match self.doc {
                Option::Some(s) => Option::Some(s@),
                Option::None => Option::None,
            },
        }
    }
}

/// The contents of a sequence of field descriptors.
pub open spec fn field_models(fields: Seq<FieldDescriptor>) -> Seq<FieldModel> {
    fields.map_values(|f: FieldDescriptor| f@)
}

/// Why a declared schema was rejected at definition time. Each variant
/// carries the position of the offending entry in the declaration.
#[derive(Clone, Copy, PartialEq, Eq, Structural, Debug)]
pub enum SchemaError {
    /// The field at `index` has the same name as an earlier field.
    DuplicateFieldName { index: usize },
    /// The default value of the field at `index` does not inhabit the
    /// field's declared type.
    DefaultTypeMismatch { index: usize },
    /// The requested capability at `index` names no known capability.
    UnknownCapability { index: usize },
}

/// No two fields share a name.
pub open spec fn names_unique(fields: Seq<FieldModel>) -> bool {
    forall|i: int, j: int|
        0 <= i < j < fields.len() ==> (#[trigger] fields[i]).name != (#[trigger] fields[j]).name
}

/// Every field's default value inhabits the field's declared type.
pub open spec fn defaults_well_typed(fields: Seq<FieldModel>) -> bool {
    forall|i: int| 0 <= i < fields.len() ==> has_ty((#[trigger] fields[i]).default, fields[i].ty)
}

/// The defect of the field at position `i`, if it has one: a duplicated
/// name takes precedence over an ill-typed default.
pub open spec fn field_error_at(fields: Seq<FieldModel>, i: int) -> Option<SchemaError> {
    if exists|j: int| 0 <= j < i && (#[trigger] fields[j]).name == fields[i].name {
        Option::Some(SchemaError::DuplicateFieldName { index: i as usize })
    } else if !has_ty(fields[i].default, fields[i].ty) {
        Option::Some(SchemaError::DefaultTypeMismatch { index: i as usize })
    } else {
        Option::None
    }
}

/// The first defect at position `i` or later, scanning in declaration order.
pub open spec fn first_field_error_from(fields: Seq<FieldModel>, i: int) -> Option<SchemaError>
    decreases fields.len() - i,
{
    if i < 0 || i >= fields.len() {
        Option::None
    } else if field_error_at(fields, i) is Some {
        field_error_at(fields, i)
    } else {
        first_field_error_from(fields, i + 1)
    }
}

/// The verdict of definition-time validation: the first defect of the
/// declared field list, if any.
pub open spec fn schema_error(fields: Seq<FieldModel>) -> Option<SchemaError> {
    first_field_error_from(fields, 0)
}

/// Scanning finds no defect from `k` on exactly when no position from `k`
/// on has one.
proof fn lemma_no_field_error_from(fields: Seq<FieldModel>, k: int)
    requires
        0 <= k <= fields.len(),
    ensures
        first_field_error_from(fields, k) is None <==> forall|i: int|
            k <= i < fields.len() ==> field_error_at(fields, i) is None,
    decreases fields.len() - k,
{
    if k < fields.len() {
        lemma_no_field_error_from(fields, k + 1);
    }
}

/// Law: definition-time validation accepts a field list exactly when it is
/// well-formed — names pairwise distinct and every default well-typed.
pub proof fn lemma_schema_error_none_iff_wf(fields: Seq<FieldModel>)
    ensures
        schema_error(fields) is None <==> (names_unique(fields) && defaults_well_typed(fields)),
{
    lemma_no_field_error_from(fields, 0);
    if forall|i: int| 0 <= i < fields.len() ==> field_error_at(fields, i) is None {
        assert forall|p: int, q: int| 0 <= p < q < fields.len() implies
            (#[trigger] fields[p]).name != (#[trigger] fields[q]).name by {
            if fields[p].name == fields[q].name {
                assert(0 <= p < q && fields[p].name == fields[q].name);
                assert(field_error_at(fields, q) is Some);
            }
        }
        assert forall|i: int| 0 <= i < fields.len() implies
            has_ty((#[trigger] fields[i]).default, fields[i].ty) by {
            assert(field_error_at(fields, i) is None);
        }
    }
    if names_unique(fields) && defaults_well_typed(fields) {
        assert forall|i: int| 0 <= i < fields.len() implies
            field_error_at(fields, i) is None by {
            assert(has_ty(fields[i].default, fields[i].ty));
            if exists|j: int| 0 <= j < i && (#[trigger] fields[j]).name == fields[i].name {
                let j = choose|j: int| 0 <= j < i && (#[trigger] fields[j]).name
                    == fields[i].name;
                assert(fields[j].name != fields[i].name);
            }
        }
    }
}

/// A validated record schema: an ordered sequence of field descriptors with
/// pairwise distinct names and well-typed defaults. [`Schema::define`] is
/// the checked constructor; every schema it returns is well-formed.
pub struct Schema {
    pub fields: Vec<FieldDescriptor>,
}

impl View for Schema {
    type V = Seq<FieldModel>;

    open spec fn view(&self) -> Seq<FieldModel> {
        field_models(self.fields@)
    }
}

impl Schema {
    /// Well-formedness: distinct field names, well-typed defaults.
    pub open spec fn wf(&self) -> bool {
        names_unique(self@) && defaults_well_typed(self@)
    }

    /// Validates a declared field list and fixes it as a schema. Succeeds
    /// exactly when validation finds no defect; otherwise reports the first
    /// defect in declaration order. Once a schema is defined, no later
    /// operation on it can fail.
    pub fn define(fields: Vec<FieldDescriptor>) -> (r: Result<Schema, SchemaError>)
        ensures
            match r {
                Result::Ok(s) => schema_error(field_models(fields@)) is None
                    && s@ == field_models(fields@) && s.wf(),
                Result::Err(e) => schema_error(field_models(fields@)) == Option::Some(e),
            },
    {
        let ghost m = field_models(fields@);
        let n = fields.len();
        let mut i: usize = 0;
        while i < n
            invariant
                n == fields.len(),
                i <= n,
                m == field_models(fields@),
                forall|k: int| 0 <= k < i ==> field_error_at(m, k) is None,
                first_field_error_from(m, 0) == first_field_error_from(m, i as int),
            decreases n - i,
        {
            let mut j: usize = 0;
            while j < i
                invariant
                    j <= i,
                    i < n,
                    n == fields.len(),
                    m == field_models(fields@),
                    first_field_error_from(m, 0) == first_field_error_from(m, i as int),
                    forall|k: int| 0 <= k < j ==> (#[trigger] m[k]).name != m[i as int].name,
                decreases i - j,
            {
                if fields[j].name == fields[i].name {
                    proof {
                        assert(m[j as int].name == m[i as int].name);
                        assert(field_error_at(m, i as int)
                            == Option::Some(SchemaError::DuplicateFieldName { index: i }));
                        assert(first_field_error_from(m, i as int)
                            == Option::Some(SchemaError::DuplicateFieldName { index: i }));
                    }
                    return Result::Err(SchemaError::DuplicateFieldName { index: i });
                }
                j = j + 1;
            }
            if !ty_matches(&fields[i].default, fields[i].ty) {
                proof {
                    assert(!(exists|k: int|
                        0 <= k < i && (#[trigger] m[k]).name == m[i as int].name));
                    assert(field_error_at(m, i as int)
                        == Option::Some(SchemaError::DefaultTypeMismatch { index: i }));
                    assert(first_field_error_from(m, i as int)
                        == Option::Some(SchemaError::DefaultTypeMismatch { index: i }));
                }
                return Result::Err(SchemaError::DefaultTypeMismatch { index: i });
            }
            proof {
                assert(!(exists|k: int|
                    0 <= k < i && (#[trigger] m[k]).name == m[i as int].name));
                assert(field_error_at(m, i as int) is None);
                assert(first_field_error_from(m, i as int)
                    == first_field_error_from(m, i as int + 1));
            }
            i = i + 1;
        }
        let s = Schema { fields };
        proof {
            assert(first_field_error_from(m, n as int) is None);
            assert(s@ == m);
            assert forall|p: int, q: int| 0 <= p < q < m.len() implies
                (#[trigger] m[p]).name != (#[trigger] m[q]).name by {
                if m[p].name == m[q].name {
                    assert(0 <= p < q && m[p].name == m[q].name);
                    assert(field_error_at(m, q) is Some);
                }
            }
            assert forall|k: int| 0 <= k < m.len() implies
                has_ty((#[trigger] m[k]).default, m[k].ty) by {
                assert(field_error_at(m, k) is None);
            }
        }
        Result::Ok(s)
    }
}

} // verus!
