//! Generated record types: a validated schema together with the set of
//! structural capabilities the definer requested, and the operations each
//! capability makes available.

use vstd::prelude::*;
use crate::schema::{
    FieldDescriptor, FieldModel, Schema, SchemaError, ValueModel, field_models, schema_error,
};
use crate::record::{RecordInstance, default_models, provider_model};
use crate::schema::Value;
use crate::order::{Comparison, cmp_instances};
use crate::render::{render_instance, render_record};

verus! {

/// One structural capability a definer may attach to a generated record
/// type.
#[derive(Clone, Copy, PartialEq, Eq, Structural, Debug)]
pub enum Capability {
    Equality,
    Duplication,
    Ordering,
    Formatting,
}

/// The capability a requested name stands for, if any.
pub open spec fn capability_of_name(name: Seq<char>) -> Option<Capability> {
    if name == "equality"@ {
        Option::Some(Capability::Equality)
    } else if name == "duplication"@ {
        Option::Some(Capability::Duplication)
    } else if name == "ordering"@ {
        Option::Some(Capability::Ordering)
    } else if name == "formatting"@ {
        Option::Some(Capability::Formatting)
    } else {
        Option::None
    }
}

/// Resolves one requested capability name.
pub fn parse_capability(name: &String) -> (r: Option<Capability>)
    ensures
        r == capability_of_name(name@),
{
    if *name == "equality".to_owned() {
        Option::Some(Capability::Equality)
    } else if *name == "duplication".to_owned() {
        Option::Some(Capability::Duplication)
    } else if *name == "ordering".to_owned() {
        Option::Some(Capability::Ordering)
    } else if *name == "formatting".to_owned() {
        Option::Some(Capability::Formatting)
    } else {
        Option::None
    }
}

/// Which capabilities a generated type carries.
#[derive(Clone, Copy, PartialEq, Eq, Structural, Debug)]
pub struct CapabilitySet {
    pub equality: bool,
    pub duplication: bool,
    pub ordering: bool,
    pub formatting: bool,
}

/// The contents of a list of requested capability names.
pub open spec fn name_views(names: Seq<String>) -> Seq<Seq<char>> {
    names.map_values(|s: String| s@)
}

/// Whether the request list names capability `c`.
pub open spec fn requested(names: Seq<Seq<char>>, c: Capability) -> bool {
    exists|i: int|
        0 <= i < names.len() && capability_of_name(#[trigger] names[i]) == Option::Some(c)
}

/// The set of capabilities a request list asks for — exactly those, no
/// more, no fewer.
pub open spec fn capability_set_of(names: Seq<Seq<char>>) -> CapabilitySet {
    CapabilitySet {
        equality: requested(names, Capability::Equality),
        duplication: requested(names, Capability::Duplication),
        ordering: requested(names, Capability::Ordering),
        formatting: requested(names, Capability::Formatting),
    }
}

/// The first unknown name in the request list, scanning from `i` on.
pub open spec fn first_capability_error_from(names: Seq<Seq<char>>, i: int) -> Option<SchemaError>
    decreases names.len() - i,
{
    if i < 0 || i >= names.len() {
        Option::None
    } else if capability_of_name(names[i]) is None {
        Option::Some(SchemaError::UnknownCapability { index: i as usize })
    } else {
        first_capability_error_from(names, i + 1)
    }
}

/// The verdict of definition-time validation of a whole declaration:
/// field defects are reported first, then unknown capability names.
pub open spec fn generate_error(fields: Seq<FieldModel>, names: Seq<Seq<char>>) -> Option<
    SchemaError,
> {
    if schema_error(fields) is Some {
        schema_error(fields)
    } else {
        first_capability_error_from(names, 0)
    }
}

/// A generated record type: a validated schema with exactly the requested
/// structural capabilities attached.
pub struct RecordType {
    pub schema: Schema,
    pub capabilities: CapabilitySet,
}

impl RecordType {
    /// The generator: validates the declared fields and the requested
    /// capability names, and fixes both as a record type. Succeeds exactly
    /// when the declaration has no defect; otherwise reports the first
    /// defect. The generated type carries exactly the requested
    /// capabilities.
    #[verifier::loop_isolation(false)]
    pub fn generate(fields: Vec<FieldDescriptor>, capability_names: Vec<String>) -> (r: Result<
        RecordType,
        SchemaError,
    >)
        ensures
            match r {
                Result::Ok(rt) => {
                    &&& generate_error(field_models(fields@), name_views(capability_names@))
                        is None
                    &&& rt.schema@ == field_models(fields@)
                    &&& rt.schema.wf()
                    &&& rt.capabilities == capability_set_of(name_views(capability_names@))
                },
                Result::Err(e) => generate_error(
                    field_models(fields@),
                    name_views(capability_names@),
                ) == Option::Some(e),
            },
    {
        let schema = match Schema::define(fields) {
            Result::Ok(s) => s,
            Result::Err(e) => {
                return Result::Err(e);
            },
        };
        let ghost nm = name_views(capability_names@);
        let mut caps = CapabilitySet {
            equality: false,
            duplication: false,
            ordering: false,
            formatting: false,
        };
        let n = capability_names.len();
        let mut i: usize = 0;
        while i < n
            invariant
                n == capability_names.len(),
                i <= n,
                nm == name_views(capability_names@),
                first_capability_error_from(nm, 0) == first_capability_error_from(nm, i as int),
                caps.equality == (exists|k: int|
                    0 <= k < i && capability_of_name(#[trigger] nm[k])
                        == Option::Some(Capability::Equality)),
                caps.duplication == (exists|k: int|
                    0 <= k < i && capability_of_name(#[trigger] nm[k])
                        == Option::Some(Capability::Duplication)),
                caps.ordering == (exists|k: int|
                    0 <= k < i && capability_of_name(#[trigger] nm[k])
                        == Option::Some(Capability::Ordering)),
                caps.formatting == (exists|k: int|
                    0 <= k < i && capability_of_name(#[trigger] nm[k])
                        == Option::Some(Capability::Formatting)),
            decreases n - i,
        {
            match parse_capability(&capability_names[i]) {
                Option::Some(c) => {
                    match c {
                        Capability::Equality => {
                            caps.equality = true;
                        },
                        Capability::Duplication => {
                            caps.duplication = true;
                        },
                        Capability::Ordering => {
                            caps.ordering = true;
                        },
                        Capability::Formatting => {
                            caps.formatting = true;
                        },
                    }
                },
                Option::None => {
                    proof {
                        assert(first_capability_error_from(nm, i as int)
                            == Option::Some(SchemaError::UnknownCapability { index: i }));
                    }
                    return Result::Err(SchemaError::UnknownCapability { index: i });
                },
            }
            i = i + 1;
        }
        proof {
            assert(first_capability_error_from(nm, n as int) is None);
            assert(caps == capability_set_of(nm));
        }
        Result::Ok(RecordType { schema, capabilities: caps })
    }

    /// The all-defaults constructor of this record type: a fresh instance
    /// in which every field holds its schema default.
    pub fn default_instance(&self) -> (r: RecordInstance)
        ensures
            r@ == default_models(self.schema@),
            self.schema.wf() ==> r.conforms_to(self.schema@),
    {
        self.schema.default_instance()
    }

    /// The standalone default provider of this record type: the default
    /// value of the field called `name`, if the schema has one.
    pub fn default_provider(&self, name: &String) -> (r: Option<Value>)
        ensures
            match r {
                Option::Some(v) => provider_model(self.schema@, name@) == Option::Some(v@),
                Option::None => provider_model(self.schema@, name@) is None,
            },
            (r is Some) <==> exists|i: int|
                0 <= i < self.schema@.len() && (#[trigger] self.schema@[i]).name == name@,
    {
        self.schema.default_provider(name)
    }

    /// Equality between instances of this type, available exactly when the
    /// equality capability was requested: the instances are equal when
    /// they hold the same values, field for field.
    pub fn instances_equal(&self, a: &RecordInstance, b: &RecordInstance) -> (r: Option<bool>)
        ensures
            (r is Some) == self.capabilities.equality,
            self.capabilities.equality ==> r == Option::Some(a@ == b@),
    {
        if self.capabilities.equality {
            Option::Some(a.equals(b))
        } else {
            Option::None
        }
    }

    /// Ordering between instances of this type, available exactly when the
    /// ordering capability was requested: instances compare shortlex,
    /// field for field, in the total order of [`cmp_instances`].
    pub fn compare_instances(&self, a: &RecordInstance, b: &RecordInstance) -> (r: Option<
        Comparison,
    >)
        ensures
            (r is Some) == self.capabilities.ordering,
            self.capabilities.ordering ==> r == Option::Some(cmp_instances(a@, b@)),
    {
        if self.capabilities.ordering {
            Option::Some(a.compare(b))
        } else {
            Option::None
        }
    }

    /// The text rendering of an instance of this type, available exactly
    /// when the formatting capability was requested: braced `name: value`
    /// pairs in declaration order.
    pub fn format_instance(&self, a: &RecordInstance) -> (r: Option<Vec<char>>)
        ensures
            (r is Some) == self.capabilities.formatting,
            match r {
                Option::Some(cs) => cs@ == render_instance(self.schema@, a@),
                Option::None => !self.capabilities.formatting,
            },
    {
        if self.capabilities.formatting {
            Option::Some(render_record(&self.schema, a))
        } else {
            Option::None
        }
    }

    /// An independent copy of an instance of this type, available exactly
    /// when the duplication capability was requested.
    pub fn duplicate(&self, a: &RecordInstance) -> (r: Option<RecordInstance>)
        ensures
            (r is Some) == self.capabilities.duplication,
            match r {
                Option::Some(d) => d@ == a@,
                Option::None => !self.capabilities.duplication,
            },
    {
        if self.capabilities.duplication {
            Option::Some(a.deep_copy())
        } else {
            Option::None
        }
    }
}

/// Law: when the request list names the equality capability, the
/// generated type carries it — so the gated comparison answers — and two
/// default-constructed instances of the type are equal, so it answers
/// "equal".
pub proof fn lemma_default_instances_compare_equal(
    names: Seq<Seq<char>>,
    s: Schema,
    a: Seq<ValueModel>,
    b: Seq<ValueModel>,
)
    requires
        requested(names, Capability::Equality),
        a == default_models(s@),
        b == default_models(s@),
    ensures
        capability_set_of(names).equality,
        a == b,
{
}

/// Law: when nothing in the request list names the equality capability —
/// in particular when nothing at all is requested — the generated type
/// does not carry it, and the gated comparison is not available.
pub proof fn lemma_equality_unavailable_without_request(names: Seq<Seq<char>>)
    requires
        forall|i: int| 0 <= i < names.len()
            ==> capability_of_name(#[trigger] names[i]) != Option::Some(Capability::Equality),
    ensures
        !capability_set_of(names).equality,
{
}

} // verus!
