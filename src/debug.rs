//! Planning the structural printer: each field's template, the bounds the
//! printer needs, and the rendering of a record from its field texts.

use vstd::prelude::*;
use vstd::string::*;
use crate::attr::{parse, parse_spec, AttrKind};
use crate::error::{DerivationError, ShapeError};
use crate::model::{DeclKind, Field, TypeDescriptor};
use crate::template::{find_brace, next_brace};

verus! {

#[derive(Clone, Debug, PartialEq, Eq)]
pub struct DebugField {
    pub name: String,
    /// The field's override template; `None` prints the value's own
    /// structural form.
    pub template: Option<String>,
}

#[derive(Clone, Debug, PartialEq, Eq)]
pub struct DebugPlan {
    pub record_name: String,
    pub fields: Vec<DebugField>,
    /// Handles of the types that must be printable for the printer to exist:
    /// every field's type when the record is generic, none otherwise.
    pub bounded_types: Vec<usize>,
}

/// The first annotation error over the fields in declaration order.
pub open spec fn debug_first_error(fields: Seq<Field>) -> Option<DerivationError>
    decreases fields.len(),
{
    if fields.len() == 0 {
        None
    } else {
        match debug_first_error(fields.drop_last()) {
            Some(e) => Some(e),
            None => match parse_spec(
                fields.last().attrs@,
                AttrKind::Debug,
                (fields.len() - 1) as usize,
            ) {
                Err(e) => Some(DerivationError::Attribute(e)),
                Ok(_) => None,
            },
        }
    }
}

pub open spec fn template_view(t: Option<String>) -> Option<Seq<char>> {
    match t {
        Some(s) => Some(s@),
        None => None,
    }
}

/// The printer plan of a record type whose fields raise no error.
pub open spec fn debug_plan_ok(d: TypeDescriptor, p: DebugPlan) -> bool {
    &&& p.record_name@ == d.name@
    &&& p.fields@.len() == d.fields@.len()
    &&& forall|i: int|
        0 <= i < d.fields@.len() ==> {
            &&& (#[trigger] p.fields@[i]).name@ == d.fields@[i].name@
            &&& parse_spec(d.fields@[i].attrs@, AttrKind::Debug, i as usize) == Ok::<
                Option<Seq<char>>,
                crate::attr::AttributeError,
            >(template_view(p.fields@[i].template))
        }
    &&& if d.generics@.len() == 0 {
        p.bounded_types@.len() == 0
    } else {
        &&& p.bounded_types@.len() == d.fields@.len()
        &&& forall|i: int| 0 <= i < d.fields@.len() ==> #[trigger] p.bounded_types@[i] == d.fields@[i].ty.id
    }
}

proof fn lemma_debug_error_persists(fields: Seq<Field>, n: int)
    requires
        0 <= n <= fields.len(),
        debug_first_error(fields.subrange(0, n)) is Some,
    ensures
        debug_first_error(fields) == debug_first_error(fields.subrange(0, n)),
    decreases fields.len(),
{
    if n == fields.len() {
        assert(fields.subrange(0, n) == fields);
    } else {
        assert(fields.drop_last().subrange(0, n) == fields.subrange(0, n));
        lemma_debug_error_persists(fields.drop_last(), n);
    }
}

/// Plans the printer of a record type. Every field's annotations are checked,
/// in declaration order, before a plan is returned.
pub fn derive(d: &TypeDescriptor) -> (r: Result<DebugPlan, DerivationError>)
    ensures
        d.kind != DeclKind::Record ==> r == Err::<DebugPlan, DerivationError>(
            DerivationError::Shape(ShapeError::UnsupportedInputKind),
        ),
        d.kind == DeclKind::Record ==> match debug_first_error(d.fields@) {
            Some(e) => r == Err::<DebugPlan, DerivationError>(e),
            None => r matches Ok(p) && debug_plan_ok(*d, p),
        },
{
    if let DeclKind::Other = d.kind {
        return Err(DerivationError::Shape(ShapeError::UnsupportedInputKind));
    }
    let generic = d.generics.len() > 0;
    let mut fields: Vec<DebugField> = Vec::new();
    let mut bounded_types: Vec<usize> = Vec::new();
    let mut i: usize = 0;
    while i < d.fields.len()
        invariant
            d.kind == DeclKind::Record,
            generic == (d.generics@.len() > 0),
            i <= d.fields@.len(),
            debug_first_error(d.fields@.subrange(0, i as int)) is None,
            fields@.len() == i,
            forall|j: int|
                0 <= j < i ==> {
                    &&& (#[trigger] fields@[j]).name@ == d.fields@[j].name@
                    &&& parse_spec(d.fields@[j].attrs@, AttrKind::Debug, j as usize) == Ok::<
                        Option<Seq<char>>,
                        crate::attr::AttributeError,
                    >(template_view(fields@[j].template))
                },
            generic ==> bounded_types@.len() == i,
            !generic ==> bounded_types@.len() == 0,
            forall|j: int| 0 <= j < bounded_types@.len() ==> #[trigger] bounded_types@[j] == d.fields@[j].ty.id,
        decreases d.fields@.len() - i,
    {
        assert(d.fields@.subrange(0, i + 1).drop_last() == d.fields@.subrange(0, i as int));
        let f = &d.fields[i];
        match parse(&f.attrs, AttrKind::Debug, i) {
            Err(e) => {
                proof {
                    lemma_debug_error_persists(d.fields@, i + 1);
                }
                return Err(DerivationError::Attribute(e));
            },
            Ok(template) => {
                fields.push(DebugField { name: f.name.clone(), template });
            },
        }
        if generic {
            bounded_types.push(f.ty.id);
        }
        i = i + 1;
    }
    assert(d.fields@.subrange(0, d.fields@.len() as int) == d.fields@);
    Ok(DebugPlan { record_name: d.name.clone(), fields, bounded_types })
}

/// `name: value`
pub open spec fn entry(name: Seq<char>, value: Seq<char>) -> Seq<char> {
    name + ": "@ + value
}

/// The entries separated by `, `.
pub open spec fn joined(entries: Seq<Seq<char>>) -> Seq<char>
    decreases entries.len(),
{
    if entries.len() == 0 {
        Seq::empty()
    } else if entries.len() == 1 {
        entries[0]
    } else {
        joined(entries.drop_last()) + ", "@ + entries.last()
    }
}

pub open spec fn entries_of(fields: Seq<DebugField>, values: Seq<String>) -> Seq<Seq<char>> {
    Seq::new(fields.len(), |i: int| entry(fields[i].name@, values[i]@))
}

/// `Name { a: 1, b: 2 }`
pub open spec fn record_text(name: Seq<char>, entries: Seq<Seq<char>>) -> Seq<char> {
    name + " { "@ + joined(entries) + " }"@
}

/// The template with its substitution sites replaced by `v` and its escaped
/// braces resolved, from index `i` on.
pub open spec fn fill_from(t: Seq<char>, i: int, v: Seq<char>) -> Seq<char>
    decreases t.len() - i,
{
    if i < 0 || i >= t.len() {
        Seq::empty()
    } else if t[i] == '{' && i + 1 < t.len() && t[i + 1] == '{' {
        seq!['{'] + fill_from(t, i + 2, v)
    } else if t[i] == '}' && i + 1 < t.len() && t[i + 1] == '}' {
        seq!['}'] + fill_from(t, i + 2, v)
    } else if t[i] == '{' {
        let j = next_brace(t, i + 1);
        if i < j < t.len() {
            v + fill_from(t, j + 1, v)
        } else {
            v
        }
    } else {
        seq![t[i]] + fill_from(t, i + 1, v)
    }
}

pub open spec fn fill(t: Seq<char>, v: Seq<char>) -> Seq<char> {
    fill_from(t, 0, v)
}

/// Puts a field's formatted value into its template: the substitution site
/// gives way to `value`, and `{{` and `}}` become single braces.
pub fn apply_template(template: &str, value: &str) -> (r: String)
    ensures
        r@ == fill(template@, value@),
{
    let len = template.unicode_len();
    let mut out = String::new();
    let mut i: usize = 0;
    while i < len
        invariant
            len == template@.len(),
            i <= len,
            fill(template@, value@) == out@ + fill_from(template@, i as int, value@),
        decreases len - i,
    {
        let c = template.get_char(i);
        proof {
            reveal_strlit("{");
            reveal_strlit("}");
        }
        if c == '{' && i + 1 < len && template.get_char(i + 1) == '{' {
            out.append("{");
            i = i + 2;
        } else if c == '}' && i + 1 < len && template.get_char(i + 1) == '}' {
            out.append("}");
            i = i + 2;
        } else if c == '{' {
            let j = find_brace(template, len, i + 1);
            out.append(value);
            if j >= len {
                return out;
            }
            i = j + 1;
        } else {
            out.append(template.substring_char(i, i + 1));
            assert(template@.subrange(i as int, i + 1) == seq![c]);
            i = i + 1;
        }
    }
    assert(out@ + Seq::<char>::empty() == out@);
    out
}

impl DebugPlan {
    /// Renders a record from the text of each field's value (its template
    /// already applied), in declaration order.
    pub fn render(&self, values: &Vec<String>) -> (r: String)
        requires
            values@.len() == self.fields@.len(),
        ensures
            r@ == record_text(self.record_name@, entries_of(self.fields@, values@)),
    {
        let mut out = self.record_name.clone();
        out.append(" { ");
        let ghost start = out@;
        let mut i: usize = 0;
        while i < self.fields.len()
            invariant
                values@.len() == self.fields@.len(),
                i <= self.fields@.len(),
                out@ == start + joined(entries_of(self.fields@, values@).subrange(0, i as int)),
                start == self.record_name@ + " { "@,
            decreases self.fields@.len() - i,
        {
            let ghost es = entries_of(self.fields@, values@).subrange(0, i + 1);
            assert(es.drop_last() == entries_of(self.fields@, values@).subrange(0, i as int));
            if i > 0 {
                out.append(", ");
            }
            out.append(self.fields[i].name.as_str());
            out.append(": ");
            out.append(values[i].as_str());
            assert(out@ == start + joined(es));
            i = i + 1;
        }
        assert(entries_of(self.fields@, values@).subrange(0, self.fields@.len() as int)
            == entries_of(self.fields@, values@));
        out.append(" }");
        out
    }
}

} // verus!
