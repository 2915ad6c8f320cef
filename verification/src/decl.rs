//! The declaration translator: emits a full interchange-language type
//! declaration for a struct, enum or type alias, applying namespace
//! wrapping, the transparent-newtype rule, and externally-tagged enum
//! encoding with sibling-key `undefined` padding.

use vstd::prelude::*;
use crate::attr::{
    attrs_without, find_attr, get_string_attribute_value, namespace_of, Attribute,
};
use crate::error::{prepend_text, TranslateError};
use crate::strutil::{contains_text, lemma_contains_extend_left, lemma_contains_extend_right, lemma_contains_self, str_eq};
use crate::type_expr::{text_outcome, type_text, type_to_string, TypeExpr};

verus! {

/// A named field of a struct or of an enum variant: its name, its own
/// attribute list, and its type.
#[derive(Debug, PartialEq, Eq)]
pub struct NamedField {
    /// The field's name.
    pub name: String,
    /// The field's attributes; a `path` attribute overrides the computed
    /// type text of a struct field.
    pub attrs: Vec<Attribute>,
    /// The field's declared type.
    pub ty: TypeExpr,
}

/// The field list of a struct or of an enum variant.
#[derive(Debug, PartialEq, Eq)]
pub enum Fields {
    /// Named fields, in declaration order.
    Named { fields: Vec<NamedField> },
    /// Positional (tuple) fields, in declaration order.
    Positional { fields: Vec<TypeExpr> },
    /// No fields at all.
    Unit,
}

/// One variant of an enum declaration.
#[derive(Debug, PartialEq, Eq)]
pub struct EnumVariant {
    /// The variant's name.
    pub name: String,
    /// The variant's payload shape.
    pub fields: Fields,
}

/// A top-level declaration handed to the translator.
#[derive(Debug, PartialEq, Eq)]
pub enum Declaration {
    /// A struct declaration.
    Struct { name: String, attrs: Vec<Attribute>, fields: Fields },
    /// An enum declaration.
    Enum { name: String, attrs: Vec<Attribute>, variants: Vec<EnumVariant> },
    /// A type alias declaration.
    TypeAlias { name: String, attrs: Vec<Attribute>, underlying: TypeExpr },
}

/// The type text of one named struct field: the field's `path` attribute
/// override when present, else the translation of its declared type.
pub open spec fn named_field_text(f: NamedField) -> Result<Seq<char>, TranslateError> {
    match find_attr(f.attrs@, "path"@) {
        Err(e) => Err(e),
        Ok(Some((text, i))) => Ok(text),
        Ok(None) => type_text(f.ty),
    }
}

/// The body lines of a named-field struct: one `  name: type;` line per
/// field, in declaration order; the first failing field aborts.
pub open spec fn named_entries(fields: Seq<NamedField>) -> Result<Seq<char>, TranslateError>
    decreases fields.len(),
{
    if fields.len() == 0 {
        Ok(Seq::empty())
    } else {
        match named_field_text(fields[0]) {
            Err(e) => Err(e),
            Ok(t) => match named_entries(fields.drop_first()) {
                Err(e) => Err(e),
                Ok(rest) => Ok("  "@ + fields[0].name@ + ": "@ + t + ";\n"@ + rest),
            },
        }
    }
}

/// The continuation of a comma-separated type list: each further element
/// preceded by `, `.
pub open spec fn comma_rest(fields: Seq<TypeExpr>) -> Result<Seq<char>, TranslateError>
    decreases fields.len(),
{
    if fields.len() == 0 {
        Ok(Seq::empty())
    } else {
        match type_text(fields[0]) {
            Err(e) => Err(e),
            Ok(t) => match comma_rest(fields.drop_first()) {
                Err(e) => Err(e),
                Ok(r) => Ok(", "@ + t + r),
            },
        }
    }
}

/// A comma-separated list of type texts, in order; the first failing
/// element aborts.
pub open spec fn comma_list(fields: Seq<TypeExpr>) -> Result<Seq<char>, TranslateError> {
    if fields.len() == 0 {
        Ok(Seq::empty())
    } else {
        match type_text(fields[0]) {
            Err(e) => Err(e),
            Ok(t) => match comma_rest(fields.drop_first()) {
                Err(e) => Err(e),
                Ok(r) => Ok(t + r),
            },
        }
    }
}

/// The body of a struct declaration: an object literal for named fields,
/// the bare inner type for a single positional field (a newtype is
/// transparent), a tuple literal otherwise, and `null` for a unit struct.
pub open spec fn struct_body(f: Fields) -> Result<Seq<char>, TranslateError> {
    match f {
        Fields::Named { fields } => match named_entries(fields@) {
            Err(e) => Err(e),
            Ok(entries) => Ok("{\n"@ + entries + "}"@),
        },
        Fields::Positional { fields } => if fields@.len() == 1 {
            type_text(fields@[0])
        } else {
            match comma_list(fields@) {
                Err(e) => Err(e),
                Ok(l) => Ok("[ "@ + l + " ]"@),
            }
        },
        Fields::Unit => Ok("null"@),
    }
}

/// The body lines of a named-field variant payload: `name: type; ` per
/// field, in declaration order.
pub open spec fn variant_entries(fields: Seq<NamedField>) -> Result<Seq<char>, TranslateError>
    decreases fields.len(),
{
    if fields.len() == 0 {
        Ok(Seq::empty())
    } else {
        match type_text(fields[0].ty) {
            Err(e) => Err(e),
            Ok(t) => match variant_entries(fields.drop_first()) {
                Err(e) => Err(e),
                Ok(rest) => Ok(fields[0].name@ + ": "@ + t + "; "@ + rest),
            },
        }
    }
}

/// The sibling-key padding of one enum disjunct: every sibling variant name
/// other than the variant's own, in declaration order, marked `undefined`.
pub open spec fn padding_text(names: Seq<Seq<char>>, self_name: Seq<char>) -> Seq<char>
    decreases names.len(),
{
    if names.len() == 0 {
        Seq::empty()
    } else if names[0] == self_name {
        padding_text(names.drop_first(), self_name)
    } else {
        names[0] + ": undefined; "@ + padding_text(names.drop_first(), self_name)
    }
}

/// One disjunct of an enum union: a unit variant is its name as a
/// string-literal type; a variant with payload is an object keyed by the
/// variant's name, padded with every sibling key set `undefined` so that
/// the disjuncts exclude one another under structural typing.
pub open spec fn variant_text(v: EnumVariant, all_names: Seq<Seq<char>>) -> Result<
    Seq<char>,
    TranslateError,
> {
    match v.fields {
        Fields::Unit => Ok("'"@ + v.name@ + "'"@),
        Fields::Named { fields } => match variant_entries(fields@) {
            Err(e) => Err(e),
            Ok(entries) => Ok(
                "{ "@ + v.name@ + ": { "@ + entries + " }; "@ + padding_text(all_names, v.name@)
                    + "}"@,
            ),
        },
        Fields::Positional { fields } => if fields@.len() == 1 {
            match type_text(fields@[0]) {
                Err(e) => Err(e),
                Ok(t) => Ok(
                    "{ "@ + v.name@ + ": "@ + t + "; "@ + padding_text(all_names, v.name@)
                        + " }"@,
                ),
            }
        } else {
            match comma_list(fields@) {
                Err(e) => Err(e),
                Ok(l) => Ok(
                    "{ "@ + v.name@ + ": [ "@ + l + " ]; "@ + padding_text(all_names, v.name@)
                        + " }"@,
                ),
            }
        },
    }
}

/// The names of all variants of an enum, in declaration order.
pub open spec fn variant_names(variants: Seq<EnumVariant>) -> Seq<Seq<char>> {
    Seq::new(variants.len(), |i: int| variants[i].name@)
}

/// The continuation of an enum union: each further disjunct preceded by
/// ` | `.
pub open spec fn union_rest(variants: Seq<EnumVariant>, all_names: Seq<Seq<char>>) -> Result<
    Seq<char>,
    TranslateError,
>
    decreases variants.len(),
{
    if variants.len() == 0 {
        Ok(Seq::empty())
    } else {
        match variant_text(variants[0], all_names) {
            Err(e) => Err(e),
            Ok(t) => match union_rest(variants.drop_first(), all_names) {
                Err(e) => Err(e),
                Ok(r) => Ok(" | "@ + t + r),
            },
        }
    }
}

/// The full union body of an enum declaration: the disjuncts of all
/// variants, in declaration order, joined with ` | `.
pub open spec fn variants_union(variants: Seq<EnumVariant>, all_names: Seq<Seq<char>>) -> Result<
    Seq<char>,
    TranslateError,
> {
    if variants.len() == 0 {
        Ok(Seq::empty())
    } else {
        match variant_text(variants[0], all_names) {
            Err(e) => Err(e),
            Ok(t) => match union_rest(variants.drop_first(), all_names) {
                Err(e) => Err(e),
                Ok(r) => Ok(t + r),
            },
        }
    }
}

/// The view of an optional namespace string.
pub open spec fn ns_view(ns: Option<String>) -> Option<Seq<char>> {
    match ns {
        Some(n) => Some(n@),
        None => None,
    }
}

/// A declaration body wrapped as emitted text: inside an
/// `export namespace` block when a namespace is present, bare otherwise.
pub open spec fn wrap_decl(ns: Option<Seq<char>>, name: Seq<char>, body: Seq<char>) -> Seq<char> {
    match ns {
        Some(n) => "export namespace "@ + n + " {\nexport type "@ + name + " = "@ + body
            + ";\n}\n\n"@,
        None => "export type "@ + name + " = "@ + body + ";\n\n"@,
    }
}

/// The full emitted text of a declaration, or the error on which its
/// translation fails.  The namespace override is resolved first; then the
/// body is translated; then the result is wrapped.
pub open spec fn decl_text(d: Declaration) -> Result<Seq<char>, TranslateError> {
    match d {
        Declaration::Struct { name, attrs, fields } => match namespace_of(attrs@) {
            Err(e) => Err(e),
            Ok(ns) => match struct_body(fields) {
                Err(e) => Err(e),
                Ok(b) => Ok(wrap_decl(ns, name@, b)),
            },
        },
        Declaration::Enum { name, attrs, variants } => match namespace_of(attrs@) {
            Err(e) => Err(e),
            Ok(ns) => match variants_union(variants@, variant_names(variants@)) {
                Err(e) => Err(e),
                Ok(b) => Ok(wrap_decl(ns, name@, b)),
            },
        },
        Declaration::TypeAlias { name, attrs, underlying } => match namespace_of(attrs@) {
            Err(e) => Err(e),
            Ok(ns) => match type_text(underlying) {
                Err(e) => Err(e),
                Ok(b) => Ok(wrap_decl(ns, name@, b)),
            },
        },
    }
}

/// How one named field stands after translation: unchanged but for its
/// consumed `path` attribute, removed exactly once.
pub open spec fn field_after(old_f: NamedField, new_f: NamedField) -> bool {
    &&& new_f.name == old_f.name
    &&& new_f.ty == old_f.ty
    &&& new_f.attrs@ == attrs_without(old_f.attrs@, "path"@)
}

/// How a field list stands after translation.
pub open spec fn fields_after(old_f: Fields, new_f: Fields) -> bool {
    match (old_f, new_f) {
        (Fields::Named { fields: of }, Fields::Named { fields: nf }) => {
            &&& nf@.len() == of@.len()
            &&& forall|i: int| 0 <= i < of@.len() ==> field_after(#[trigger] of@[i], nf@[i])
        },
        (Fields::Positional { fields: of }, Fields::Positional { fields: nf }) => nf == of,
        (Fields::Unit, Fields::Unit) => true,
        _ => false,
    }
}

/// How a whole declaration stands after translation: its consumed
/// `namespace` attribute (and, for a named-field struct, each field's
/// consumed `path` attribute) removed exactly once, everything else
/// unchanged.
pub open spec fn decl_after(old_d: Declaration, new_d: Declaration) -> bool {
    match (old_d, new_d) {
        (
            Declaration::Struct { name: on, attrs: oa, fields: of },
            Declaration::Struct { name: nn, attrs: na, fields: nf },
        ) => nn == on && na@ == attrs_without(oa@, "namespace"@) && fields_after(of, nf),
        (
            Declaration::Enum { name: on, attrs: oa, variants: ov },
            Declaration::Enum { name: nn, attrs: na, variants: nv },
        ) => nn == on && na@ == attrs_without(oa@, "namespace"@) && nv == ov,
        (
            Declaration::TypeAlias { name: on, attrs: oa, underlying: ou },
            Declaration::TypeAlias { name: nn, attrs: na, underlying: nu },
        ) => nn == on && na@ == attrs_without(oa@, "namespace"@) && nu == ou,
        _ => false,
    }
}

/// Resolves one named struct field: the `path` override text when present,
/// else the translated type text; the consumed attribute is removed from
/// the field exactly once.
fn resolve_named_field(f: &mut NamedField) -> (r: Result<String, TranslateError>)
    ensures
        match r {
            Ok(t) => named_field_text(*old(f)) == Ok::<Seq<char>, TranslateError>(t@)
                && field_after(*old(f), *final(f)),
            Err(e) => named_field_text(*old(f)) == Err::<Seq<char>, TranslateError>(e),
        },
{
    match get_string_attribute_value(&f.attrs, "path") {
        Err(e) => Err(e),
        Ok(Some((t, idx))) => {
            proof {
                crate::attr::lemma_find_attr_in_bounds(f.attrs@, "path"@, 0);
            }
            f.attrs.remove(idx);
            Ok(t)
        },
        Ok(None) => match type_to_string(&f.ty) {
            Ok(t) => Ok(t),
            Err(e) => Err(e),
        },
    }
}

/// Translates the named fields of a struct: builds the body lines, one per
/// field in order, and rebuilds the field list with each consumed `path`
/// attribute removed.
fn named_struct_fields(fields: Vec<NamedField>) -> (r: Result<
    (String, Vec<NamedField>),
    TranslateError,
>)
    ensures
        match r {
            Ok(p) => {
                &&& named_entries(fields@) == Ok::<Seq<char>, TranslateError>(p.0@)
                &&& p.1@.len() == fields@.len()
                &&& forall|i: int|
                    0 <= i < fields@.len() ==> field_after(#[trigger] fields@[i], p.1@[i])
            },
            Err(e) => named_entries(fields@) == Err::<Seq<char>, TranslateError>(e),
        },
{
    let ghost orig = fields@;
    let mut rest = fields;
    let mut out: Vec<NamedField> = Vec::new();
    let mut entries = String::new();
    proof {
        assert(rest@ =~= orig.skip(0));
        if named_entries(orig) is Ok {
            assert(Seq::<char>::empty() + named_entries(orig)->Ok_0 =~= named_entries(
                orig,
            )->Ok_0);
        }
    }
    while rest.len() > 0
        invariant
            orig == fields@,
            out@.len() + rest@.len() == orig.len(),
            rest@ == orig.skip(out@.len() as int),
            forall|i: int| 0 <= i < out@.len() ==> field_after(#[trigger] orig[i], out@[i]),
            named_entries(orig) == prepend_text(entries@, named_entries(rest@)),
        decreases rest@.len(),
    {
        let ghost k = out@.len() as int;
        let ghost rest0 = rest@;
        let ghost entries0 = entries@;
        let mut f = rest.remove(0);
        let ghost f0 = f;
        let text = match resolve_named_field(&mut f) {
            Ok(t) => t,
            Err(e) => {
                proof {
                    assert(named_entries(rest0) == Err::<Seq<char>, TranslateError>(e));
                }
                return Err(e);
            },
        };
        entries.append("  ");
        entries.append(f.name.as_str());
        entries.append(": ");
        entries.append(text.as_str());
        entries.append(";\n");
        out.push(f);
        proof {
            assert(rest0[0] == f0);
            assert(rest@ =~= rest0.drop_first());
            assert(rest@ =~= orig.skip(k + 1));
            assert(orig[k] == f0);
            assert(field_after(orig[k], out@[k]));
            let entry = "  "@ + f0.name@ + ": "@ + text@ + ";\n"@;
            assert(entries@ =~= entries0 + entry);
            if named_entries(rest@) is Ok {
                let r = named_entries(rest@)->Ok_0;
                assert(named_entries(rest0) == Ok::<Seq<char>, TranslateError>(entry + r));
                assert(entries0 + (entry + r) =~= (entries0 + entry) + r);
            } else {
                assert(named_entries(rest0) == named_entries(rest@));
            }
        }
    }
    proof {
        assert(named_entries(rest@) == Ok::<Seq<char>, TranslateError>(Seq::empty()));
        assert(entries@ + Seq::<char>::empty() =~= entries@);
    }
    Ok((entries, out))
}

/// Translates a positional field list to a comma-separated type list.
fn comma_list_exec(fields: &Vec<TypeExpr>) -> (r: Result<String, TranslateError>)
    ensures
        text_outcome(r, comma_list(fields@)),
{
    if fields.len() == 0 {
        return Ok(String::new());
    }
    let mut acc = match type_to_string(&fields[0]) {
        Ok(t) => t,
        Err(e) => {
            return Err(e);
        },
    };
    let mut i: usize = 1;
    proof {
        assert(fields@.drop_first() =~= fields@.skip(1));
    }
    while i < fields.len()
        invariant
            1 <= i <= fields@.len(),
            comma_list(fields@) == prepend_text(acc@, comma_rest(fields@.skip(i as int))),
        decreases fields@.len() - i,
    {
        let ghost acc0 = acc@;
        let ghost tail = fields@.skip(i as int);
        match type_to_string(&fields[i]) {
            Ok(t) => {
                acc.append(", ");
                acc.append(t.as_str());
                proof {
                    assert(tail[0] == fields@[i as int]);
                    assert(tail.drop_first() =~= fields@.skip(i as int + 1));
                    let entry = ", "@ + t@;
                    assert(acc@ =~= acc0 + entry);
                    if comma_rest(fields@.skip(i as int + 1)) is Ok {
                        let r = comma_rest(fields@.skip(i as int + 1))->Ok_0;
                        assert(comma_rest(tail) == Ok::<Seq<char>, TranslateError>(entry + r));
                        assert(acc0 + (entry + r) =~= (acc0 + entry) + r);
                    }
                }
            },
            Err(e) => {
                proof {
                    assert(tail[0] == fields@[i as int]);
                    assert(comma_rest(tail) == Err::<Seq<char>, TranslateError>(e));
                }
                return Err(e);
            },
        }
        i = i + 1;
    }
    proof {
        assert(fields@.skip(fields@.len() as int).len() == 0);
        assert(acc@ + Seq::<char>::empty() =~= acc@);
    }
    Ok(acc)
}

/// Translates the named fields of an enum variant's payload, one
/// `name: type; ` entry per field in order.
fn variant_entries_exec(fields: &Vec<NamedField>) -> (r: Result<String, TranslateError>)
    ensures
        text_outcome(r, variant_entries(fields@)),
{
    let mut acc = String::new();
    let mut i: usize = 0;
    proof {
        assert(fields@.skip(0) =~= fields@);
        if variant_entries(fields@) is Ok {
            assert(Seq::<char>::empty() + variant_entries(fields@)->Ok_0 =~= variant_entries(
                fields@,
            )->Ok_0);
        }
    }
    while i < fields.len()
        invariant
            0 <= i <= fields@.len(),
            variant_entries(fields@) == prepend_text(acc@, variant_entries(fields@.skip(i as int))),
        decreases fields@.len() - i,
    {
        let ghost acc0 = acc@;
        let ghost tail = fields@.skip(i as int);
        match type_to_string(&fields[i].ty) {
            Ok(t) => {
                acc.append(fields[i].name.as_str());
                acc.append(": ");
                acc.append(t.as_str());
                acc.append("; ");
                proof {
                    assert(tail[0] == fields@[i as int]);
                    assert(tail.drop_first() =~= fields@.skip(i as int + 1));
                    let entry = fields@[i as int].name@ + ": "@ + t@ + "; "@;
                    assert(acc@ =~= acc0 + entry);
                    if variant_entries(fields@.skip(i as int + 1)) is Ok {
                        let r = variant_entries(fields@.skip(i as int + 1))->Ok_0;
                        assert(variant_entries(tail) == Ok::<Seq<char>, TranslateError>(entry + r));
                        assert(acc0 + (entry + r) =~= (acc0 + entry) + r);
                    }
                }
            },
            Err(e) => {
                proof {
                    assert(tail[0] == fields@[i as int]);
                    assert(variant_entries(tail) == Err::<Seq<char>, TranslateError>(e));
                }
                return Err(e);
            },
        }
        i = i + 1;
    }
    proof {
        assert(fields@.skip(fields@.len() as int).len() == 0);
        assert(acc@ + Seq::<char>::empty() =~= acc@);
    }
    Ok(acc)
}

/// Builds the sibling-key padding of one enum disjunct: every name other
/// than the variant's own, in order, marked `undefined`.
fn padding_exec(names: &Vec<String>, self_name: &str) -> (r: String)
    ensures
        r@ == padding_text(names.deep_view(), self_name@),
{
    let ghost dv = names.deep_view();
    let ghost sn = self_name@;
    let mut acc = String::new();
    let mut i: usize = 0;
    proof {
        assert(dv.skip(0) =~= dv);
        assert(Seq::<char>::empty() + padding_text(dv, sn) =~= padding_text(dv, sn));
    }
    while i < names.len()
        invariant
            0 <= i <= names@.len(),
            dv == names.deep_view(),
            sn == self_name@,
            names@.len() == dv.len(),
            padding_text(dv, sn) == acc@ + padding_text(dv.skip(i as int), sn),
        decreases names@.len() - i,
    {
        let ghost acc0 = acc@;
        let ghost tail = dv.skip(i as int);
        let same = str_eq(names[i].as_str(), self_name);
        if !same {
            acc.append(names[i].as_str());
            acc.append(": undefined; ");
        }
        proof {
            assert(tail[0] == dv[i as int]);
            assert(dv[i as int] == names@[i as int]@);
            assert(tail.drop_first() =~= dv.skip(i as int + 1));
            let p = padding_text(dv.skip(i as int + 1), sn);
            if same {
                assert(padding_text(tail, sn) == p);
            } else {
                assert(padding_text(tail, sn) == dv[i as int] + ": undefined; "@ + p);
                assert(acc@ =~= acc0 + (dv[i as int] + ": undefined; "@));
                assert(acc0 + (dv[i as int] + ": undefined; "@ + p) =~= acc@ + p);
            }
        }
        i = i + 1;
    }
    proof {
        assert(dv.skip(dv.len() as int).len() == 0);
        assert(acc@ + Seq::<char>::empty() =~= acc@);
    }
    acc
}

/// Emits one enum disjunct against the full sibling name list.
fn variant_exec(v: &EnumVariant, names: &Vec<String>) -> (r: Result<String, TranslateError>)
    ensures
        text_outcome(r, variant_text(*v, names.deep_view())),
{
    let ghost all = names.deep_view();
    match &v.fields {
        Fields::Unit => {
            let mut s = "'".to_owned();
            s.append(v.name.as_str());
            s.append("'");
            proof {
                assert(s@ =~= "'"@ + v.name@ + "'"@);
            }
            Ok(s)
        },
        Fields::Named { fields } => match variant_entries_exec(fields) {
            Err(e) => Err(e),
            Ok(entries) => {
                let pad = padding_exec(names, v.name.as_str());
                let mut s = "{ ".to_owned();
                s.append(v.name.as_str());
                s.append(": { ");
                s.append(entries.as_str());
                s.append(" }; ");
                s.append(pad.as_str());
                s.append("}");
                proof {
                    assert(s@ =~= "{ "@ + v.name@ + ": { "@ + entries@ + " }; "@ + padding_text(
                        all,
                        v.name@,
                    ) + "}"@);
                }
                Ok(s)
            },
        },
        Fields::Positional { fields } => if fields.len() == 1 {
            match type_to_string(&fields[0]) {
                Err(e) => Err(e),
                Ok(t) => {
                    let pad = padding_exec(names, v.name.as_str());
                    let mut s = "{ ".to_owned();
                    s.append(v.name.as_str());
                    s.append(": ");
                    s.append(t.as_str());
                    s.append("; ");
                    s.append(pad.as_str());
                    s.append(" }");
                    proof {
                        assert(s@ =~= "{ "@ + v.name@ + ": "@ + t@ + "; "@ + padding_text(
                            all,
                            v.name@,
                        ) + " }"@);
                    }
                    Ok(s)
                },
            }
        } else {
            match comma_list_exec(fields) {
                Err(e) => Err(e),
                Ok(l) => {
                    let pad = padding_exec(names, v.name.as_str());
                    let mut s = "{ ".to_owned();
                    s.append(v.name.as_str());
                    s.append(": [ ");
                    s.append(l.as_str());
                    s.append(" ]; ");
                    s.append(pad.as_str());
                    s.append(" }");
                    proof {
                        assert(s@ =~= "{ "@ + v.name@ + ": [ "@ + l@ + " ]; "@ + padding_text(
                            all,
                            v.name@,
                        ) + " }"@);
                    }
                    Ok(s)
                },
            }
        },
    }
}

/// Emits the full union body of an enum, joining the disjuncts of all
/// variants with ` | ` in declaration order.
fn union_exec(variants: &Vec<EnumVariant>, names: &Vec<String>) -> (r: Result<
    String,
    TranslateError,
>)
    ensures
        text_outcome(r, variants_union(variants@, names.deep_view())),
{
    let ghost all = names.deep_view();
    if variants.len() == 0 {
        return Ok(String::new());
    }
    let mut acc = match variant_exec(&variants[0], names) {
        Ok(t) => t,
        Err(e) => {
            return Err(e);
        },
    };
    let mut i: usize = 1;
    proof {
        assert(variants@.drop_first() =~= variants@.skip(1));
    }
    while i < variants.len()
        invariant
            all == names.deep_view(),
            1 <= i <= variants@.len(),
            variants_union(variants@, all) == prepend_text(
                acc@,
                union_rest(variants@.skip(i as int), all),
            ),
        decreases variants@.len() - i,
    {
        let ghost acc0 = acc@;
        let ghost tail = variants@.skip(i as int);
        match variant_exec(&variants[i], names) {
            Ok(t) => {
                acc.append(" | ");
                acc.append(t.as_str());
                proof {
                    assert(tail[0] == variants@[i as int]);
                    assert(tail.drop_first() =~= variants@.skip(i as int + 1));
                    let entry = " | "@ + t@;
                    assert(acc@ =~= acc0 + entry);
                    if union_rest(variants@.skip(i as int + 1), all) is Ok {
                        let r = union_rest(variants@.skip(i as int + 1), all)->Ok_0;
                        assert(union_rest(tail, all) == Ok::<Seq<char>, TranslateError>(entry + r));
                        assert(acc0 + (entry + r) =~= (acc0 + entry) + r);
                    }
                }
            },
            Err(e) => {
                proof {
                    assert(tail[0] == variants@[i as int]);
                    assert(union_rest(tail, all) == Err::<Seq<char>, TranslateError>(e));
                }
                return Err(e);
            },
        }
        i = i + 1;
    }
    proof {
        assert(variants@.skip(variants@.len() as int).len() == 0);
        assert(acc@ + Seq::<char>::empty() =~= acc@);
    }
    Ok(acc)
}

/// Wraps a declaration body as emitted text, inside an `export namespace`
/// block when a namespace override is present.
fn wrap_exec(ns: &Option<String>, name: &String, body: &String) -> (r: String)
    ensures
        r@ == wrap_decl(ns_view(*ns), name@, body@),
{
    let mut out: String;
    match ns {
        Some(n) => {
            out = "export namespace ".to_owned();
            out.append(n.as_str());
            out.append(" {\nexport type ");
        },
        None => {
            out = "export type ".to_owned();
        },
    }
    out.append(name.as_str());
    out.append(" = ");
    out.append(body.as_str());
    match ns {
        Some(n) => {
            out.append(";\n}\n\n");
            proof {
                assert(out@ =~= "export namespace "@ + n@ + " {\nexport type "@ + name@ + " = "@
                    + body@ + ";\n}\n\n"@);
            }
        },
        None => {
            out.append(";\n\n");
            proof {
                assert(out@ =~= "export type "@ + name@ + " = "@ + body@ + ";\n\n"@);
            }
        },
    }
    out
}

/// Resolves and consumes a declaration's `namespace` attribute: returns the
/// namespace text when one is present, removing the consumed attribute
/// exactly once.
fn take_namespace(attrs: &mut Vec<Attribute>) -> (r: Result<Option<String>, TranslateError>)
    ensures
        match r {
            Ok(ns) => namespace_of(old(attrs)@) == Ok::<Option<Seq<char>>, TranslateError>(
                ns_view(ns),
            ) && final(attrs)@ == attrs_without(old(attrs)@, "namespace"@),
            Err(e) => namespace_of(old(attrs)@) == Err::<Option<Seq<char>>, TranslateError>(e),
        },
{
    match get_string_attribute_value(attrs, "namespace") {
        Err(e) => Err(e),
        Ok(Some((text, idx))) => {
            proof {
                crate::attr::lemma_find_attr_in_bounds(attrs@, "namespace"@, 0);
            }
            attrs.remove(idx);
            Ok(Some(text))
        },
        Ok(None) => Ok(None),
    }
}

/// Translates one declaration to its full emitted text, and returns beside
/// the text the declaration as it stands after translation: its consumed
/// attributes removed exactly once, everything else unchanged.
pub fn translate_declaration(decl: Declaration) -> (r: Result<
    (String, Declaration),
    TranslateError,
>)
    ensures
        match r {
            Ok(p) => decl_text(decl) == Ok::<Seq<char>, TranslateError>(p.0@) && decl_after(
                decl,
                p.1,
            ),
            Err(e) => decl_text(decl) == Err::<Seq<char>, TranslateError>(e),
        },
{
    match decl {
        Declaration::Struct { name, mut attrs, fields } => {
            let ns = match take_namespace(&mut attrs) {
                Err(e) => {
                    return Err(e);
                },
                Ok(ns) => ns,
            };
            match fields {
                Fields::Named { fields: fs } => match named_struct_fields(fs) {
                    Err(e) => {
                        return Err(e);
                    },
                    Ok((entries, out_fs)) => {
                        let mut body = "{\n".to_owned();
                        body.append(entries.as_str());
                        body.append("}");
                        proof {
                            assert(body@ =~= "{\n"@ + entries@ + "}"@);
                        }
                        let text = wrap_exec(&ns, &name, &body);
                        Ok(
                            (
                                text,
                                Declaration::Struct {
                                    name,
                                    attrs,
                                    fields: Fields::Named { fields: out_fs },
                                },
                            ),
                        )
                    },
                },
                Fields::Positional { fields: fs } => if fs.len() == 1 {
                    match type_to_string(&fs[0]) {
                        Err(e) => {
                            return Err(e);
                        },
                        Ok(t) => {
                            let text = wrap_exec(&ns, &name, &t);
                            Ok(
                                (
                                    text,
                                    Declaration::Struct {
                                        name,
                                        attrs,
                                        fields: Fields::Positional { fields: fs },
                                    },
                                ),
                            )
                        },
                    }
                } else {
                    match comma_list_exec(&fs) {
                        Err(e) => {
                            return Err(e);
                        },
                        Ok(l) => {
                            let mut body = "[ ".to_owned();
                            body.append(l.as_str());
                            body.append(" ]");
                            proof {
                                assert(body@ =~= "[ "@ + l@ + " ]"@);
                            }
                            let text = wrap_exec(&ns, &name, &body);
                            Ok(
                                (
                                    text,
                                    Declaration::Struct {
                                        name,
                                        attrs,
                                        fields: Fields::Positional { fields: fs },
                                    },
                                ),
                            )
                        },
                    }
                },
                Fields::Unit => {
                    let body = "null".to_owned();
                    let text = wrap_exec(&ns, &name, &body);
                    Ok((text, Declaration::Struct { name, attrs, fields: Fields::Unit }))
                },
            }
        },
        Declaration::Enum { name, mut attrs, variants } => {
            let ns = match take_namespace(&mut attrs) {
                Err(e) => {
                    return Err(e);
                },
                Ok(ns) => ns,
            };
            let ghost all = variant_names(variants@);
            let mut names_v: Vec<String> = Vec::new();
            let mut i: usize = 0;
            while i < variants.len()
                invariant
                    0 <= i <= variants@.len(),
                    all == variant_names(variants@),
                    all.len() == variants@.len(),
                    names_v@.len() == i,
                    names_v.deep_view() == all.take(i as int),
                decreases variants@.len() - i,
            {
                names_v.push(variants[i].name.clone());
                proof {
                    assert(names_v.deep_view() =~= all.take(i as int + 1));
                }
                i = i + 1;
            }
            proof {
                assert(all.take(variants@.len() as int) =~= all);
            }
            match union_exec(&variants, &names_v) {
                Err(e) => {
                    return Err(e);
                },
                Ok(u) => {
                    let text = wrap_exec(&ns, &name, &u);
                    Ok((text, Declaration::Enum { name, attrs, variants }))
                },
            }
        },
        Declaration::TypeAlias { name, mut attrs, underlying } => {
            let ns = match take_namespace(&mut attrs) {
                Err(e) => {
                    return Err(e);
                },
                Ok(ns) => ns,
            };
            match type_to_string(&underlying) {
                Err(e) => {
                    return Err(e);
                },
                Ok(t) => {
                    let text = wrap_exec(&ns, &name, &t);
                    Ok((text, Declaration::TypeAlias { name, attrs, underlying }))
                },
            }
        },
    }
}

/// A single-field positional struct is transparent: its declaration body is
/// exactly the inner field's type text, with no wrapper around it, whatever
/// the field's type.
pub proof fn lemma_newtype_transparent(fields: Vec<TypeExpr>)
    requires
        fields@.len() == 1,
    ensures
        struct_body(Fields::Positional { fields }) == type_text(fields@[0]),
{
}

/// A unit variant's disjunct is exactly its name as a string-literal type.
pub proof fn lemma_unit_variant_text(v: EnumVariant, all_names: Seq<Seq<char>>)
    ensures
        v.fields matches Fields::Unit ==> variant_text(v, all_names) == Ok::<
            Seq<char>,
            TranslateError,
        >("'"@ + v.name@ + "'"@),
{
}

/// Every sibling name other than the variant's own appears in the
/// variant's padding, marked `undefined`.
proof fn lemma_padding_contains(names: Seq<Seq<char>>, self_name: Seq<char>, i: int)
    requires
        0 <= i < names.len(),
        names[i] != self_name,
    ensures
        contains_text(padding_text(names, self_name), names[i] + ": undefined; "@),
    decreases i,
{
    if i == 0 {
        lemma_contains_self(names[0] + ": undefined; "@);
        lemma_contains_extend_right(
            names[0] + ": undefined; "@,
            padding_text(names.drop_first(), self_name),
            names[0] + ": undefined; "@,
        );
    } else {
        lemma_padding_contains(names.drop_first(), self_name, i - 1);
        assert(names.drop_first()[i - 1] == names[i]);
        if names[0] != self_name {
            lemma_contains_extend_left(
                names[0] + ": undefined; "@,
                padding_text(names.drop_first(), self_name),
                names[i] + ": undefined; "@,
            );
        }
    }
}

/// Enum exclusivity: the disjunct of a variant with a payload marks every
/// sibling variant key, other than its own, `undefined`, so that under
/// structural typing no value of one disjunct also matches another.
pub proof fn lemma_enum_exclusivity(v: EnumVariant, all_names: Seq<Seq<char>>, i: int)
    requires
        0 <= i < all_names.len(),
        all_names[i] != v.name@,
        !(v.fields matches Fields::Unit),
        variant_text(v, all_names) is Ok,
    ensures
        contains_text(variant_text(v, all_names)->Ok_0, all_names[i] + ": undefined; "@),
{
    lemma_padding_contains(all_names, v.name@, i);
    let x = all_names[i] + ": undefined; "@;
    let pad = padding_text(all_names, v.name@);
    match v.fields {
        Fields::Unit => {
        },
        Fields::Named { fields } => {
            let entries = variant_entries(fields@)->Ok_0;
            let prefix = "{ "@ + v.name@ + ": { "@ + entries + " }; "@;
            lemma_contains_extend_left(prefix, pad, x);
            lemma_contains_extend_right(prefix + pad, "}"@, x);
        },
        Fields::Positional { fields } => {
            if fields@.len() == 1 {
                let t = type_text(fields@[0])->Ok_0;
                let prefix = "{ "@ + v.name@ + ": "@ + t + "; "@;
                lemma_contains_extend_left(prefix, pad, x);
                lemma_contains_extend_right(prefix + pad, " }"@, x);
            } else {
                let l = comma_list(fields@)->Ok_0;
                let prefix = "{ "@ + v.name@ + ": [ "@ + l + " ]; "@;
                lemma_contains_extend_left(prefix, pad, x);
                lemma_contains_extend_right(prefix + pad, " }"@, x);
            }
        },
    }
}

} // verus!
