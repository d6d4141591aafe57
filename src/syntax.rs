use vstd::prelude::*;
use quote::ToTokens;
use crate::model::{ArgForm, AttrForm, DeclBody, Declaration, FieldsForm, RawAttr, RawVariant};

verus! {

#[verifier::external_type_specification]
#[verifier::external_body]
pub struct ExDeriveInput(syn::DeriveInput);

#[verifier::external_type_specification]
#[verifier::external_body]
pub struct ExAttribute(syn::Attribute);

#[verifier::external_type_specification]
#[verifier::external_body]
pub struct ExVariant(syn::Variant);

#[verifier::external_type_specification]
#[verifier::external_body]
pub struct ExSynError(syn::Error);

#[verifier::external_type_specification]
#[verifier::external_body]
pub struct ExMeta(syn::Meta);

#[verifier::external_type_specification]
#[verifier::external_body]
pub struct ExNestedMeta(syn::NestedMeta);

/// Relies on the `ident` field of syn::DeriveInput, printed by proc_macro2's Ident.
#[verifier::external_body]
fn input_name(d: &syn::DeriveInput) -> (r: String) {
    d.ident.to_string()
}

/// Relies on the `attrs` field of syn::DeriveInput and syn::Attribute's Clone.
#[verifier::external_body]
fn input_attrs(d: &syn::DeriveInput) -> (r: Vec<syn::Attribute>) {
    d.attrs.clone()
}

/// Relies on syn::Data: the variants of an enum, in declaration order, and `None`
/// for a struct or a union.
#[verifier::external_body]
fn enum_variants(d: &syn::DeriveInput) -> (r: Option<Vec<syn::Variant>>) {
    match &d.data {
        syn::Data::Enum(e) => Some(e.variants.iter().cloned().collect()),
        _ => None,
    }
}

/// Relies on the `ident` field of syn::Variant, printed by proc_macro2's Ident.
#[verifier::external_body]
fn variant_name(v: &syn::Variant) -> (r: String) {
    v.ident.to_string()
}

/// Relies on the `attrs` field of syn::Variant and syn::Attribute's Clone.
#[verifier::external_body]
fn variant_attrs(v: &syn::Variant) -> (r: Vec<syn::Attribute>) {
    v.attrs.clone()
}

/// Relies on syn::Fields: the variant's fields, each unnamed field's type printed
/// through quote's ToTokens.
#[verifier::external_body]
fn variant_fields(v: &syn::Variant) -> (r: FieldsForm) {
    match &v.fields {
        syn::Fields::Unit => FieldsForm::Unit,
        syn::Fields::Unnamed(f) => FieldsForm::Unnamed(
            f.unnamed.iter().map(|x| x.ty.to_token_stream().to_string()).collect(),
        ),
        syn::Fields::Named(_) => FieldsForm::Named,
    }
}

/// Relies on syn::Path::get_ident: the attribute's name when it is one identifier.
#[verifier::external_body]
fn attr_ident(a: &syn::Attribute) -> (r: Option<String>) {
    a.path.get_ident().map(|i| i.to_string())
}

/// The parts of a parsed attribute that the generator reads.
enum MetaParts {
    Path,
    List(Vec<syn::NestedMeta>),
    NameValue,
}

/// Relies on syn::Attribute::parse_meta to parse an attribute's contents.
#[verifier::external_body]
fn parse_meta(a: &syn::Attribute) -> (r: Result<syn::Meta, syn::Error>) {
    a.parse_meta()
}

/// Relies on syn::Meta: its three forms, a list with its arguments in order.
#[verifier::external_body]
fn meta_parts(m: syn::Meta) -> (r: MetaParts) {
    match m {
        syn::Meta::Path(_) => MetaParts::Path,
        syn::Meta::List(l) => MetaParts::List(l.nested.into_iter().collect()),
        syn::Meta::NameValue(_) => MetaParts::NameValue,
    }
}

/// Relies on syn::NestedMeta and syn::Meta: the form of one argument, a path's text
/// printed through quote's ToTokens.
#[verifier::external_body]
fn arg_form(n: &syn::NestedMeta) -> (r: ArgForm) {
    match n {
        syn::NestedMeta::Meta(syn::Meta::Path(p)) => ArgForm::Path(p.to_token_stream().to_string()),
        syn::NestedMeta::Meta(syn::Meta::List(_)) => ArgForm::List,
        syn::NestedMeta::Meta(syn::Meta::NameValue(_)) => ArgForm::NameValue,
        syn::NestedMeta::Lit(_) => ArgForm::Lit,
    }
}

/// The form of an attribute: a bare path, a list with the form of each argument in
/// order, or `Other` for a `name = value` attribute or one that does not parse.
fn attr_form(a: &syn::Attribute) -> (r: AttrForm) {
    let m = match parse_meta(a) {
        Ok(m) => m,
        Err(_) => {
            return AttrForm::Other;
        },
    };
    match meta_parts(m) {
        MetaParts::Path => AttrForm::Path,
        MetaParts::NameValue => AttrForm::Other,
        MetaParts::List(ns) => {
            let mut args: Vec<ArgForm> = Vec::new();
            let mut i: usize = 0;
            while i < ns.len()
                invariant
                    0 <= i <= ns@.len(),
                    args@.len() == i,
                decreases ns@.len() - i,
            {
                args.push(arg_form(&ns[i]));
                i = i + 1;
            }
            AttrForm::List(args)
        },
    }
}

fn raw_attrs(attrs: &Vec<syn::Attribute>) -> (r: Vec<RawAttr>)
    ensures
        r@.len() == attrs@.len(),
{
    let mut out: Vec<RawAttr> = Vec::new();
    let mut i: usize = 0;
    while i < attrs.len()
        invariant
            0 <= i <= attrs@.len(),
            out@.len() == i,
        decreases attrs@.len() - i,
    {
        let a = &attrs[i];
        out.push(RawAttr { ident: attr_ident(a), form: attr_form(a) });
        i = i + 1;
    }
    out
}

/// Reads a parsed struct, enum or union declaration into a `Declaration`, keeping
/// its name, its attributes and, for an enum, its variants in declaration order.
pub fn read_declaration(d: &syn::DeriveInput) -> (r: Declaration) {
    let name = input_name(d);
    let attrs = raw_attrs(&input_attrs(d));
    let body = match enum_variants(d) {
        None => DeclBody::NotEnum,
        Some(vs) => {
            let mut out: Vec<RawVariant> = Vec::new();
            let mut i: usize = 0;
            while i < vs.len()
                invariant
                    0 <= i <= vs@.len(),
                    out@.len() == i,
                decreases vs@.len() - i,
            {
                let v = &vs[i];
                out.push(
                    RawVariant {
                        name: variant_name(v),
                        attrs: raw_attrs(&variant_attrs(v)),
                        fields: variant_fields(v),
                    },
                );
                i = i + 1;
            }
            DeclBody::Enum(out)
        },
    };
    Declaration { name, attrs, body }
}

} // verus!
