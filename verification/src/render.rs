//! Rendering instances as text, for the formatting capability: a
//! specification of the exact character sequence, and a renderer proved
//! to produce it.

use vstd::prelude::*;
use crate::schema::{FieldModel, Schema, SchemaError, Value, ValueModel};
use crate::record::RecordInstance;

verus! {

/// The character of one decimal digit.
pub open spec fn digit_char(d: nat) -> char {
    if d == 0 {
        '0'
    } else if d == 1 {
        '1'
    } else if d == 2 {
        '2'
    } else if d == 3 {
        '3'
    } else if d == 4 {
        '4'
    } else if d == 5 {
        '5'
    } else if d == 6 {
        '6'
    } else if d == 7 {
        '7'
    } else if d == 8 {
        '8'
    } else {
        '9'
    }
}

/// The decimal digits of `n`, most significant first.
pub open spec fn decimal_digits(n: nat) -> Seq<char>
    decreases n,
{
    if n < 10 {
        seq![digit_char(n)]
    } else {
        decimal_digits(n / 10).push(digit_char(n % 10))
    }
}

/// The rendering of an integer: a minus sign for a negative one, then
/// the decimal digits of the magnitude.
pub open spec fn render_int(n: i64) -> Seq<char> {
    if n < 0 {
        seq!['-'] + decimal_digits((-(n as int)) as nat)
    } else {
        decimal_digits(n as nat)
    }
}

/// The rendering of a truth value.
pub open spec fn render_bool(b: bool) -> Seq<char> {
    if b {
        "true"@
    } else {
        "false"@
    }
}

/// The rendering of list elements from position `i` on, comma-separated.
pub open spec fn render_items_from(items: Seq<i64>, i: int) -> Seq<char>
    decreases items.len() - i,
{
    if i < 0 || i >= items.len() {
        Seq::empty()
    } else {
        (if i == 0 {
            Seq::<char>::empty()
        } else {
            ", "@
        }) + render_int(items[i]) + render_items_from(items, i + 1)
    }
}

/// The rendering of one value: integers in decimal, truth values as
/// words, text in double quotes, lists bracketed and comma-separated.
pub open spec fn render_value(v: ValueModel) -> Seq<char> {
    match v {
        ValueModel::Int(n) => render_int(n),
        ValueModel::Bool(b) => render_bool(b),
        ValueModel::Text(s) => seq!['"'] + s + seq!['"'],
        ValueModel::List(xs) => seq!['['] + render_items_from(xs, 0) + seq![']'],
    }
}

/// The rendering of fields from position `i` on: `name: value` pairs,
/// comma-separated, in declaration order.
pub open spec fn render_fields_from(
    fields: Seq<FieldModel>,
    vals: Seq<ValueModel>,
    i: int,
) -> Seq<char>
    decreases fields.len() - i,
{
    if i < 0 || i >= fields.len() || i >= vals.len() {
        Seq::empty()
    } else {
        (if i == 0 {
            Seq::<char>::empty()
        } else {
            ", "@
        }) + fields[i].name + ": "@ + render_value(vals[i]) + render_fields_from(
            fields,
            vals,
            i + 1,
        )
    }
}

/// The rendering of a whole instance against its schema: braced
/// `name: value` pairs in declaration order.
pub open spec fn render_instance(fields: Seq<FieldModel>, vals: Seq<ValueModel>) -> Seq<char> {
    seq!['{'] + render_fields_from(fields, vals, 0) + seq!['}']
}

/// The character of one decimal digit.
fn digit_char_exec(d: u64) -> (c: char)
    requires
        d < 10,
    ensures
        c == digit_char(d as nat),
{
    if d == 0 {
        '0'
    } else if d == 1 {
        '1'
    } else if d == 2 {
        '2'
    } else if d == 3 {
        '3'
    } else if d == 4 {
        '4'
    } else if d == 5 {
        '5'
    } else if d == 6 {
        '6'
    } else if d == 7 {
        '7'
    } else if d == 8 {
        '8'
    } else {
        '9'
    }
}

/// Appends the characters of `s`.
#[verifier::loop_isolation(false)]
fn push_chars(out: &mut Vec<char>, s: &str)
    ensures
        final(out)@ == old(out)@ + s@,
{
    let n = s.unicode_len();
    let mut i: usize = 0;
    while i < n
        invariant
            n as nat == s@.len(),
            i <= n,
            out@ == old(out)@ + s@.subrange(0, i as int),
        decreases n - i,
    {
        out.push(s.get_char(i));
        proof {
            assert(out@ =~= old(out)@ + s@.subrange(0, i as int + 1));
        }
        i = i + 1;
    }
    proof {
        assert(old(out)@ + s@.subrange(0, n as int) =~= old(out)@ + s@);
    }
}

/// Appends the decimal digits of `n`.
#[verifier::loop_isolation(false)]
fn push_decimal(out: &mut Vec<char>, n: u64)
    ensures
        final(out)@ == old(out)@ + decimal_digits(n as nat),
{
    if n < 10 {
        out.push(digit_char_exec(n));
        proof {
            assert(out@ =~= old(out)@ + decimal_digits(n as nat));
        }
        return;
    }
    let mut tmp: Vec<char> = Vec::new();
    let mut x: u64 = n;
    proof {
        assert(tmp@.reverse() =~= Seq::<char>::empty());
        assert(decimal_digits(n as nat) =~= decimal_digits(n as nat) + tmp@.reverse());
    }
    while x > 0
        invariant
            decimal_digits(n as nat) == (if x > 0 {
                decimal_digits(x as nat)
            } else {
                Seq::<char>::empty()
            }) + tmp@.reverse(),
        decreases x,
    {
        let d = x % 10;
        let ghost xo = x;
        let ghost tmpo = tmp@;
        tmp.push(digit_char_exec(d));
        x = x / 10;
        proof {
            assert(tmp@.reverse() =~= seq![digit_char(d as nat)] + tmpo.reverse());
            if x > 0 {
                assert(xo >= 10);
                assert(decimal_digits(xo as nat) == decimal_digits((xo / 10) as nat).push(
                    digit_char((xo % 10) as nat),
                ));
                assert(decimal_digits(xo as nat) =~= decimal_digits(x as nat) + seq![
                    digit_char(d as nat),
                ]);
                assert(decimal_digits(n as nat) =~= decimal_digits(x as nat) + tmp@.reverse());
            } else {
                assert(xo < 10);
                assert(decimal_digits(xo as nat) =~= seq![digit_char(d as nat)]);
                assert(decimal_digits(n as nat) =~= Seq::<char>::empty() + tmp@.reverse());
            }
        }
    }
    let mut j: usize = tmp.len();
    proof {
        assert(out@ =~= old(out)@ + tmp@.reverse().subrange(0, (tmp@.len() - j) as int));
    }
    while j > 0
        invariant
            j <= tmp.len(),
            out@ == old(out)@ + tmp@.reverse().subrange(0, (tmp@.len() - j) as int),
        decreases j,
    {
        j = j - 1;
        out.push(tmp[j]);
        proof {
            assert(tmp@.reverse()[(tmp@.len() - 1 - j) as int] == tmp@[j as int]);
            assert(out@ =~= old(out)@ + tmp@.reverse().subrange(0, (tmp@.len() - j) as int));
        }
    }
    proof {
        assert(tmp@.reverse().subrange(0, tmp@.len() as int) =~= tmp@.reverse());
    }
}

/// Appends the rendering of one integer.
fn push_int(out: &mut Vec<char>, n: i64)
    ensures
        final(out)@ == old(out)@ + render_int(n),
{
    if n < 0 {
        out.push('-');
        let m: u64 = if n == i64::MIN {
            9223372036854775808u64
        } else {
            (-n) as u64
        };
        proof {
            assert(m as nat == (-(n as int)) as nat);
        }
        push_decimal(out, m);
        proof {
            assert(out@ =~= old(out)@ + render_int(n));
        }
    } else {
        push_decimal(out, n as u64);
    }
}

/// Appends the rendering of one value.
#[verifier::loop_isolation(false)]
fn push_value(out: &mut Vec<char>, v: &Value)
    ensures
        final(out)@ == old(out)@ + render_value(v@),
{
    match v {
        Value::Int(n) => {
            push_int(out, *n);
        },
        Value::Bool(b) => {
            if *b {
                push_chars(out, "true");
            } else {
                push_chars(out, "false");
            }
        },
        Value::Text(s) => {
            out.push('"');
            push_chars(out, s.as_str());
            out.push('"');
            proof {
                assert(out@ =~= old(out)@ + render_value(v@));
            }
        },
        Value::List(xs) => {
            out.push('[');
            let ghost whole = render_items_from(xs@, 0);
            let mut i: usize = 0;
            proof {
                assert(out@ + render_items_from(xs@, 0) =~= old(out)@ + seq!['['] + whole);
            }
            while i < xs.len()
                invariant
                    i <= xs.len(),
                    out@ + render_items_from(xs@, i as int) == old(out)@ + seq!['['] + whole,
                decreases xs.len() - i,
            {
                let ghost before = out@;
                if i > 0 {
                    push_chars(out, ", ");
                }
                push_int(out, xs[i]);
                proof {
                    if i > 0 {
                        assert(out@ =~= before + ", "@ + render_int(xs@[i as int]));
                    } else {
                        assert(out@ =~= before + Seq::<char>::empty() + render_int(
                            xs@[i as int],
                        ));
                    }
                    assert(out@ + render_items_from(xs@, i as int + 1) =~= before
                        + render_items_from(xs@, i as int));
                }
                i = i + 1;
            }
            out.push(']');
            proof {
                assert(render_items_from(xs@, xs@.len() as int) =~= Seq::<char>::empty());
                assert(out@ =~= old(out)@ + render_value(v@));
            }
        },
    }
}

/// Renders an instance against a schema: braced `name: value` pairs in
/// declaration order, fields beyond the shorter of the two left out.
#[verifier::loop_isolation(false)]
pub fn render_record(schema: &Schema, inst: &RecordInstance) -> (r: Vec<char>)
    ensures
        r@ == render_instance(schema@, inst@),
{
    let mut out: Vec<char> = Vec::new();
    out.push('{');
    let ghost whole = render_fields_from(schema@, inst@, 0);
    let nf = schema.fields.len();
    let nv = inst.values.len();
    let mut i: usize = 0;
    proof {
        assert(out@ + render_fields_from(schema@, inst@, 0) =~= seq!['{'] + whole);
    }
    while i < nf && i < nv
        invariant
            i <= nf,
            i <= nv,
            out@ + render_fields_from(schema@, inst@, i as int) == seq!['{'] + whole,
        decreases nf - i,
    {
        let ghost before = out@;
        if i > 0 {
            push_chars(&mut out, ", ");
        }
        push_chars(&mut out, field_name(schema, i));
        push_chars(&mut out, ": ");
        push_value(&mut out, &inst.values[i]);
        proof {
            assert(inst@[i as int] == inst.values@[i as int]@);
            if i > 0 {
                assert(out@ =~= before + ", "@ + schema@[i as int].name + ": "@ + render_value(
                    inst@[i as int],
                ));
            } else {
                assert(out@ =~= before + Seq::<char>::empty() + schema@[i as int].name + ": "@
                    + render_value(inst@[i as int]));
            }
            assert(out@ + render_fields_from(schema@, inst@, i as int + 1) =~= before
                + render_fields_from(schema@, inst@, i as int));
        }
        i = i + 1;
    }
    out.push('}');
    proof {
        assert(render_fields_from(schema@, inst@, i as int) =~= Seq::<char>::empty());
        assert(out@ =~= render_instance(schema@, inst@));
    }
    out
}

/// The description of a schema defect: its kind, and the position of the
/// offending entry in the declaration.
pub open spec fn describe_error(e: SchemaError) -> Seq<char> {
    match e {
        SchemaError::DuplicateFieldName { index } => "duplicate field name at position "@
            + decimal_digits(index as nat),
        SchemaError::DefaultTypeMismatch { index } =>
            "default value does not fit the declared type at position "@ + decimal_digits(
            index as nat,
        ),
        SchemaError::UnknownCapability { index } => "unknown capability at position "@
            + decimal_digits(index as nat),
    }
}

impl SchemaError {
    /// A readable account of this defect, for the definer.
    pub fn describe(&self) -> (r: Vec<char>)
        ensures
            r@ == describe_error(*self),
    {
        let mut out: Vec<char> = Vec::new();
        let index: usize = match self {
            SchemaError::DuplicateFieldName { index } => {
                push_chars(&mut out, "duplicate field name at position ");
                *index
            },
            SchemaError::DefaultTypeMismatch { index } => {
                push_chars(&mut out, "default value does not fit the declared type at position ");
                *index
            },
            SchemaError::UnknownCapability { index } => {
                push_chars(&mut out, "unknown capability at position ");
                *index
            },
        };
        push_decimal(&mut out, index as u64);
        out
    }
}

/// The name of the field at `i`, for rendering.
fn field_name(schema: &Schema, i: usize) -> (r: &str)
    requires
        i < schema.fields@.len(),
    ensures
        r@ == schema@[i as int].name,
{
    schema.fields[i].name.as_str()
}

} // verus!
