//! Renders the description of a plugin's configuration into the schema
//! document the host validates configurations against.
//!
//! Each field becomes a record of its type name, whether it is required, its
//! default, the closed set of strings it admits (enumerations), the
//! description of its elements (arrays) and of its fields (records).

use vstd::prelude::*;

verus! {

/// A value a configuration field can hold, as a default.
#[derive(Debug)]
pub enum ConfigValue {
    Null,
    Bool(bool),
    Int(i64),
    Str(String),
    List(Vec<ConfigValue>),
    Record(Vec<(String, ConfigValue)>),
}

/// The declared type of a configuration field.
#[derive(Debug)]
pub enum FieldType {
    Str,
    Bool,
    Int,
    /// May be left out.
    Optional(Box<FieldType>),
    /// A list of values of one type; that type may not itself be a list.
    Array(Box<FieldType>),
    /// A nested record with these fields, in this order.
    Record(Vec<FieldDecl>),
    /// A string out of these variant names, in declaration order.
    Enumeration(Vec<String>),
}

/// A named field of a record, with its literal default if it has one.
#[derive(Debug)]
pub struct FieldDecl {
    pub name: String,
    pub ty: FieldType,
    pub default: Option<ConfigValue>,
}

/// The rendered description of one field.
#[derive(Debug)]
pub struct RenderedConfigFieldVariant {
    pub ty: String,
    pub required: Option<bool>,
    pub default: Option<ConfigValue>,
    pub one_of: Option<Vec<String>>,
    pub elements: Option<Box<RenderedConfigFieldVariant>>,
    pub fields: Option<Vec<(String, RenderedConfigFieldVariant)>>,
}

/// Why a configuration description cannot be rendered.
#[derive(Debug, Clone, Copy, PartialEq, Eq, Structural)]
pub enum SchemaError {
    /// An array's elements are themselves arrays.
    NestedArray,
}

/// A rendered description, as the contracts see it.
pub ghost struct Rendered {
    pub ty: Seq<char>,
    pub required: Option<bool>,
    pub default: Option<ConfigValue>,
    pub one_of: Option<Seq<Seq<char>>>,
    pub elements: Option<Box<Rendered>>,
    pub fields: Option<Seq<(Seq<char>, Rendered)>>,
}

/// What a rendered description reads as.
pub open spec fn rendered_view(r: RenderedConfigFieldVariant) -> Rendered
    decreases r, 0nat,
{
    Rendered {
        ty: r.ty@,
        required: r.required,
        default: r.default,
        one_of: match r.one_of {
            Some(vs) => Some(vs@.map_values(|s: String| s@)),
            None => None,
        },
        elements: match r.elements {
            Some(e) => Some(Box::new(rendered_view(*e))),
            None => None,
        },
        fields: match r.fields {
            Some(fs) => Some(pairs_view(fs@, fs@.len())),
            None => None,
        },
    }
}

/// The first `n` rendered fields of a record, with their names.
pub open spec fn pairs_view(fs: Seq<(String, RenderedConfigFieldVariant)>, n: nat) -> Seq<
    (Seq<char>, Rendered),
>
    decreases fs, n,
{
    if n == 0 || n > fs.len() {
        Seq::empty()
    } else {
        pairs_view(fs, (n - 1) as nat).push((fs[n - 1].0@, rendered_view(fs[n - 1].1)))
    }
}

/// Whether a field is required: a default, or a place as an array's
/// elements, leaves the flag out; otherwise it is false for an optional
/// field and true for any other.
pub open spec fn required_flag(default: Option<ConfigValue>, skip_required: bool, optional: bool) -> Option<bool> {
    if skip_required || default is Some {
        None
    } else {
        Some(!optional)
    }
}

/// Whether a type is a list, once its optional modifiers are taken off.
pub open spec fn is_list(t: FieldType) -> bool
    decreases t,
{
    match t {
        FieldType::Array(_) => true,
        FieldType::Optional(inner) => is_list(*inner),
        _ => false,
    }
}

/// The description of a field of type `t`, or `None` when `t` holds an array
/// of arrays. `optional` says that an optional modifier was taken off `t`.
pub open spec fn spec_render(t: FieldType, default: Option<ConfigValue>, skip_required: bool, optional: bool) -> Option<Rendered>
    decreases t, 0nat,
{
    let plain = |name: Seq<char>|
        Rendered {
            ty: name,
            required: required_flag(default, skip_required, optional),
            default,
            one_of: None,
            elements: None,
            fields: None,
        };
    match t {
        FieldType::Str => Some(plain("string"@)),
        FieldType::Bool => Some(plain("boolean"@)),
        FieldType::Int => Some(plain("integer"@)),
        FieldType::Enumeration(vs) => Some(
            Rendered { one_of: Some(vs@.map_values(|s: String| s@)), ..plain("string"@) },
        ),
        FieldType::Optional(inner) => spec_render(*inner, default, skip_required, true),
        FieldType::Array(elem) => if is_list(*elem) {
            None
        } else {
            match spec_render(*elem, None, true, false) {
                Some(e) => Some(
                    Rendered {
                        ty: "array"@,
                        required: Some(!(optional && default is None)),
                        default,
                        one_of: None,
                        elements: Some(Box::new(e)),
                        fields: None,
                    },
                ),
                None => None,
            }
        },
        FieldType::Record(decls) => match render_decls(decls@, decls@.len()) {
            Some(fields) => Some(Rendered { fields: Some(fields), ..plain("record"@) }),
            None => None,
        },
    }
}

/// The descriptions of the first `n` fields of a record, with their names,
/// or `None` when one of them cannot be rendered.
pub open spec fn render_decls(ds: Seq<FieldDecl>, n: nat) -> Option<Seq<(Seq<char>, Rendered)>>
    decreases ds, n,
{
    if n == 0 || n > ds.len() {
        Some(Seq::empty())
    } else {
        match (render_decls(ds, (n - 1) as nat), spec_render(ds[n - 1].ty, ds[n - 1].default, false, false)) {
            (Some(prev), Some(r)) => Some(prev.push((ds[n - 1].name@, r))),
            _ => None,
        }
    }
}

proof fn lemma_pairs_view_prefix(
    a: Seq<(String, RenderedConfigFieldVariant)>,
    b: Seq<(String, RenderedConfigFieldVariant)>,
    n: nat,
)
    requires
        n <= a.len(),
        n <= b.len(),
        forall|k: int| 0 <= k < n ==> a[k] == b[k],
    ensures
        pairs_view(a, n) == pairs_view(b, n),
    decreases n,
{
    if n > 0 {
        lemma_pairs_view_prefix(a, b, (n - 1) as nat);
    }
}

proof fn lemma_decls_stay_failed(ds: Seq<FieldDecl>, n: nat, m: nat)
    requires
        0 < n <= m <= ds.len(),
        render_decls(ds, n) is None,
    ensures
        render_decls(ds, m) is None,
    decreases m - n,
{
    if n < m {
        lemma_decls_stay_failed(ds, n, (m - 1) as nat);
    }
}

/// Whether a type is a list, once its optional modifiers are taken off.
pub fn is_list_type(t: &FieldType) -> (r: bool)
    ensures
        r == is_list(*t),
    decreases t,
{
    match t {
        FieldType::Array(_) => true,
        FieldType::Optional(inner) => is_list_type(inner),
        _ => false,
    }
}

fn plain_field(name: &str, default: Option<ConfigValue>, skip_required: bool, optional: bool) -> (r:
    RenderedConfigFieldVariant)
    ensures
        rendered_view(r) == (Rendered {
            ty: name@,
            required: required_flag(default, skip_required, optional),
            default,
            one_of: None,
            elements: None,
            fields: None,
        }),
{
    let required = if skip_required || default.is_some() {
        None
    } else {
        Some(!optional)
    };
    RenderedConfigFieldVariant {
        ty: name.to_owned(),
        required,
        default,
        one_of: None,
        elements: None,
        fields: None,
    }
}

#[verifier::loop_isolation(false)]
fn render_with(t: FieldType, default: Option<ConfigValue>, skip_required: bool, optional: bool) -> (r:
    Result<RenderedConfigFieldVariant, SchemaError>)
    ensures
        spec_render(t, default, skip_required, optional) is Some <==> r is Ok,
        r matches Ok(x) ==> spec_render(t, default, skip_required, optional) == Some(
            rendered_view(x),
        ),
        r matches Err(e) ==> e == SchemaError::NestedArray,
    decreases t,
{
    let ghost t0 = t;
    match t {
        FieldType::Str => Ok(plain_field("string", default, skip_required, optional)),
        FieldType::Bool => Ok(plain_field("boolean", default, skip_required, optional)),
        FieldType::Int => Ok(plain_field("integer", default, skip_required, optional)),
        FieldType::Enumeration(vs) => {
            let mut r = plain_field("string", default, skip_required, optional);
            r.one_of = Some(vs);
            Ok(r)
        },
        FieldType::Optional(inner) => render_with(*inner, default, skip_required, true),
        FieldType::Array(elem) => {
            if is_list_type(&elem) {
                return Err(SchemaError::NestedArray);
            }
            let e = render_with(*elem, None, true, false)?;
            let required = Some(!(optional && default.is_none()));
            Ok(
                RenderedConfigFieldVariant {
                    ty: "array".to_owned(),
                    required,
                    default,
                    one_of: None,
                    elements: Some(Box::new(e)),
                    fields: None,
                },
            )
        },
        FieldType::Record(decls) => {
            let ghost orig = decls@;
            let mut rest = decls;
            let total = rest.len();
            let mut out: Vec<(String, RenderedConfigFieldVariant)> = Vec::new();
            let mut i: usize = 0;
            while rest.len() > 0
                invariant
                    t0 == FieldType::Record(decls),
                    total == orig.len(),
                    orig == decls@,
                    i + rest@.len() == orig.len(),
                    rest@ == orig.subrange(i as int, orig.len() as int),
                    out@.len() == i,
                    render_decls(orig, i as nat) == Some(pairs_view(out@, i as nat)),
                decreases rest@.len(),
            {
                let d = rest.remove(0);
                assert(d == orig[i as int]);
                assert(decreases_to!(t0 => t0->Record_0));
                assert(decreases_to!(decls => decls[i as int]));
                assert(decreases_to!(d => d.ty));
                assert(decreases_to!(t0 => d.ty));
                let ghost before = out@;
                match render_with(d.ty, d.default, false, false) {
                    Ok(x) => {
                        out.push((d.name, x));
                        proof {
                            lemma_pairs_view_prefix(before, out@, i as nat);
                        }
                    },
                    Err(e) => {
                        proof {
                            lemma_decls_stay_failed(orig, (i + 1) as nat, orig.len());
                        }
                        return Err(e);
                    },
                }
                i = i + 1;
                assert(rest@ =~= orig.subrange(i as int, orig.len() as int));
            }
            let mut r = plain_field("record", default, skip_required, optional);
            r.fields = Some(out);
            Ok(r)
        },
    }
}

/// The description of a field of type `t` with the literal default
/// `default`; `skip_required` leaves the required flag out, as for the
/// elements of an array. Fails when `t` holds an array of arrays.
pub fn render(t: FieldType, default: Option<ConfigValue>, skip_required: bool) -> (r: Result<
    RenderedConfigFieldVariant,
    SchemaError,
>)
    ensures
        spec_render(t, default, skip_required, false) is Some <==> r is Ok,
        r matches Ok(x) ==> spec_render(t, default, skip_required, false) == Some(rendered_view(x)),
        r matches Err(e) ==> e == SchemaError::NestedArray,
{
    render_with(t, default, skip_required, false)
}

/// The schema of a configuration record with these fields: a required
/// record without a default.
pub fn render_config(fields: Vec<FieldDecl>) -> (r: Result<RenderedConfigFieldVariant, SchemaError>)
    ensures
        spec_render(FieldType::Record(fields), None, false, false) is Some <==> r is Ok,
        r matches Ok(x) ==> spec_render(FieldType::Record(fields), None, false, false) == Some(
            rendered_view(x),
        ),
        r matches Err(e) ==> e == SchemaError::NestedArray,
{
    render(FieldType::Record(fields), None, false)
}

/// A type rendered as one value: a string, a boolean, an integer or an
/// enumeration.
pub open spec fn is_scalar(t: FieldType) -> bool {
    t is Str || t is Bool || t is Int || t is Enumeration
}

/// The required flag and the default of a scalar field: with a literal
/// default the flag is left out and the default is given; without one the
/// field is required, unless it is optional, and then it has no default.
pub proof fn lemma_required_and_default(t: FieldType, v: ConfigValue)
    requires
        is_scalar(t),
    ensures
        spec_render(t, Some(v), false, false) matches Some(x) && x.required is None && x.default
            == Some(v),
        spec_render(t, None, false, false) matches Some(x) && x.required == Some(true)
            && x.default is None,
        spec_render(FieldType::Optional(Box::new(t)), None, false, false) matches Some(x)
            && x.required == Some(false) && x.default is None,
{
    reveal_with_fuel(spec_render, 2);
}

/// An enumeration renders as a string whose admitted values are the variant
/// names in declaration order, with no elements and no fields.
pub proof fn lemma_enumeration_rendering(variants: Vec<String>, default: Option<ConfigValue>, skip_required: bool)
    ensures
        spec_render(FieldType::Enumeration(variants), default, skip_required, false) matches Some(x)
            && x.ty == "string"@ && x.one_of == Some(variants@.map_values(|s: String| s@))
            && x.elements is None && x.fields is None,
{
}

/// Rendering is a function of the description: two renderings of the same
/// description read the same.
pub proof fn lemma_render_deterministic(
    t: FieldType,
    default: Option<ConfigValue>,
    skip_required: bool,
    a: RenderedConfigFieldVariant,
    b: RenderedConfigFieldVariant,
)
    requires
        spec_render(t, default, skip_required, false) == Some(rendered_view(a)),
        spec_render(t, default, skip_required, false) == Some(rendered_view(b)),
    ensures
        rendered_view(a) == rendered_view(b),
{
}

} // verus!
