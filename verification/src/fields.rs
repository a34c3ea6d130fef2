//! Field descriptors: the raw fields of the input record, their shallow
//! optionality classification, and the per-field descriptor carrying the
//! memoized generated stage name.

use vstd::prelude::*;
use crate::decls::GeneratedField;
use crate::errors::DeriveError;
use crate::names::{
    chain_base, convert_snake_case_to_upper_camel_case, reg_count, suffixed_name, NameRegistry,
};

verus! {

/// The shape of a field's declared type, as far as the generator reads
/// it: a path type keeps the name of its first (head) segment, and any
/// other shape is opaque. `text` is the whole type rendered as source
/// text, passed through unchanged into the generated declarations.
#[derive(Debug)]
pub enum TypeExpr {
    Path { first_segment: String, text: String },
    Other { text: String },
}

/// A field is classified optional iff the head type-constructor name of
/// its declared type is literally `Option`: a shallow, name-based test.
/// An unrelated type merely named `Option` is taken as optional, and a
/// true optional type reached through an alias is missed.
pub open spec fn spec_is_optional(ty: TypeExpr) -> bool {
    ty matches TypeExpr::Path { first_segment, .. } && first_segment@ == "Option"@
}

/// The source text of a declared type.
pub open spec fn ty_text(ty: TypeExpr) -> Seq<char> {
    match ty {
        TypeExpr::Path { text, .. } => text@,
        TypeExpr::Other { text } => text@,
    }
}

impl TypeExpr {
    /// The source text of this type.
    pub fn text(&self) -> (r: &String)
        ensures
            r@ == ty_text(*self),
    {
        match self {
            TypeExpr::Path { text, .. } => text,
            TypeExpr::Other { text } => text,
        }
    }
}

impl Clone for TypeExpr {
    fn clone(&self) -> (r: Self)
        ensures
            r == *self,
    {
        match self {
            TypeExpr::Path { first_segment, text } => TypeExpr::Path {
                first_segment: first_segment.clone(),
                text: text.clone(),
            },
            TypeExpr::Other { text } => TypeExpr::Other { text: text.clone() },
        }
    }
}

/// One raw field of the input record, as the external parser hands it
/// over: its name, when the field has one, and its declared type.
#[derive(Debug)]
pub struct RawField {
    pub ident: Option<String>,
    pub ty: TypeExpr,
}

/// Descriptor of one accepted field: its name, its declared type, and the
/// generated stage name once it has been resolved (resolution happens once
/// per field; later queries return the memoized name and never touch the
/// registry again).
#[derive(Debug)]
pub struct FieldData {
    pub ident: String,
    pub ty: TypeExpr,
    pub builder_name_cache: Option<String>,
}

/// The stage name this descriptor answers with: the memoized name when
/// one is cached, else the unsuffixed candidate base name (what resolving
/// against a fresh registry would produce).
pub open spec fn stage_name_of(fd: FieldData, parent: Seq<char>) -> Seq<char> {
    match fd.builder_name_cache {
        Some(n) => n@,
        None => chain_base(parent, fd.ident@),
    }
}

impl FieldData {
    /// A fresh descriptor with no stage name resolved yet.
    pub fn new(ident: String, ty: TypeExpr) -> (r: FieldData)
        ensures
            r.ident == ident,
            r.ty == ty,
            r.builder_name_cache is None,
    {
        FieldData { ident, ty, builder_name_cache: None }
    }

    /// Checks if the field is optional: true iff the head type-constructor
    /// name of its declared type is literally `Option`.
    pub fn is_optional(&self) -> (r: bool)
        ensures
            r == spec_is_optional(self.ty),
    {
        match &self.ty {
            TypeExpr::Path { first_segment, .. } => {
                let wrapper = String::from_str("Option");
                *first_segment == wrapper
            },
            TypeExpr::Other { .. } => false,
        }
    }

    /// Resolves the generated stage name for this field: the candidate base
    /// name is `<parent>BuilderMissing<FieldNameInUpperCamelCase>`; a base
    /// name already seen gets its occurrence count appended in decimal. The
    /// result is memoized: a second call returns the same name and leaves
    /// the registry untouched.
    pub fn generate_builder_name(
        &mut self,
        parent_struct_name: &String,
        other_builders: &mut NameRegistry,
    ) -> (r: String)
        requires
            old(self).builder_name_cache is None ==> reg_count(
                old(other_builders)@,
                chain_base(parent_struct_name@, old(self).ident@),
            ) < 65535,
        ensures
            old(self).builder_name_cache matches Some(n) ==> r == n && *final(self) == *old(self)
                && *final(other_builders) == *old(other_builders),
            old(self).builder_name_cache is None ==> ({
                let base = chain_base(parent_struct_name@, old(self).ident@);
                let c = reg_count(old(other_builders)@, base);
                &&& r@ == suffixed_name(base, c as nat)
                &&& final(other_builders)@ == old(other_builders)@.insert(base, (c + 1) as u16)
                &&& final(self).ident == old(self).ident
                &&& final(self).ty == old(self).ty
                &&& final(self).builder_name_cache == Some(r)
            }),
    {
        if let Some(builder_name) = &self.builder_name_cache {
            return builder_name.clone();
        }
        let field_name = convert_snake_case_to_upper_camel_case(self.ident.as_str());
        let mut base = parent_struct_name.clone();
        base.append("BuilderMissing");
        base.append(field_name.as_str());
        let count = match other_builders.get_count(&base) {
            Some(c) => c,
            None => 0,
        };
        let mut builder_name = base.clone();
        if count > 0 {
            let suffix = crate::names::u16_to_decimal(count);
            builder_name.append(suffix.as_str());
        }
        other_builders.set_count(&base, count + 1);
        self.builder_name_cache = Some(builder_name.clone());
        builder_name
    }

    /// The stage name already resolved for this field, or the unsuffixed
    /// candidate base name when none has been resolved.
    pub fn builder_name(&self, parent_struct_name: &String) -> (r: String)
        ensures
            r@ == stage_name_of(*self, parent_struct_name@),
    {
        match &self.builder_name_cache {
            Some(n) => n.clone(),
            None => {
                let field_name = convert_snake_case_to_upper_camel_case(self.ident.as_str());
                let mut base = parent_struct_name.clone();
                base.append("BuilderMissing");
                base.append(field_name.as_str());
                base
            },
        }
    }

    /// The generated field entry for this field: its name and the source
    /// text of its declared type, as it appears in each stage carrying it.
    pub fn get_name_and_type(&self) -> (r: GeneratedField)
        ensures
            r.name == self.ident,
            r.ty@ == ty_text(self.ty),
    {
        GeneratedField { name: self.ident.clone(), ty: self.ty.text().clone() }
    }

    /// Builds the descriptor for one raw field. A field without a name is
    /// refused: the builder can only be derived for named fields.
    pub fn try_from(field: &RawField) -> (r: Result<FieldData, DeriveError>)
        ensures
            field.ident matches Some(n) ==> (r matches Ok(fd) && fd.ident == n && fd.ty == field.ty
                && fd.builder_name_cache is None),
            field.ident is None ==> r == Err::<FieldData, DeriveError>(
                DeriveError::NamedFieldsRequired,
            ),
    {
        match &field.ident {
            Some(n) => Ok(FieldData::new(n.clone(), field.ty.clone())),
            None => Err(DeriveError::NamedFieldsRequired),
        }
    }
}

} // verus!
