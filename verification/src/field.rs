use vstd::prelude::*;

use crate::emit::{accessor, Method, MethodBody};

verus! {

/// One declared field of a class: an identifier and an opaque type
/// expression. The type expression is never interpreted; it is carried
/// verbatim into the generated code.
pub struct Field {
    pub name: String,
    pub ty: String,
}

/// Registry projection of a field: the same content as [`Field`], kept as
/// plain text so that it can outlive the declaration it was read from.
pub struct RegField {
    pub name: String,
    pub ty: String,
}

/// Mathematical model of a field declaration: name and type expression as
/// character sequences.
pub struct FieldV {
    pub name: Seq<char>,
    pub ty: Seq<char>,
}

impl View for Field {
    type V = FieldV;

    open spec fn view(&self) -> FieldV {
        FieldV { name: self.name@, ty: self.ty@ }
    }
}

impl DeepView for Field {
    type V = FieldV;

    open spec fn deep_view(&self) -> FieldV {
        self@
    }
}

impl View for RegField {
    type V = FieldV;

    open spec fn view(&self) -> FieldV {
        FieldV { name: self.name@, ty: self.ty@ }
    }
}

impl DeepView for RegField {
    type V = FieldV;

    open spec fn deep_view(&self) -> FieldV {
        self@
    }
}

impl Clone for Field {
    fn clone(&self) -> (r: Self)
        ensures
            r == *self,
    {
        Field { name: self.name.clone(), ty: self.ty.clone() }
    }
}

impl Clone for RegField {
    fn clone(&self) -> (r: Self)
        ensures
            r == *self,
    {
        RegField { name: self.name.clone(), ty: self.ty.clone() }
    }
}

impl Field {
    /// Project this field into its registry form.
    pub fn to_record(&self) -> (r: RegField)
        ensures
            r@ == self@,
    {
        RegField { name: self.name.clone(), ty: self.ty.clone() }
    }

    /// Rebuild a field declaration from its registry form.
    pub fn from_record(rec: &RegField) -> (r: Field)
        ensures
            r@ == rec@,
    {
        Field { name: rec.name.clone(), ty: rec.ty.clone() }
    }

    /// This field's getter, realized as `body` says.
    fn make_getter(&self, body: MethodBody) -> (m: Method)
        ensures
            m@ == accessor(self@, false, body),
    {
        Method { setter: false, field: self.name.clone(), ty: self.ty.clone(), body }
    }

    /// This field's setter, realized as `body` says.
    fn make_setter(&self, body: MethodBody) -> (m: Method)
        ensures
            m@ == accessor(self@, true, body),
    {
        Method { setter: true, field: self.name.clone(), ty: self.ty.clone(), body }
    }

    /// The bare getter declaration for the capability interface.
    pub fn make_trait_getter(&self) -> (m: Method)
        ensures
            m@ == accessor(self@, false, MethodBody::Declaration),
    {
        self.make_getter(MethodBody::Declaration)
    }

    /// The getter reading this field from the class's own storage.
    pub fn make_field_getter(&self) -> (m: Method)
        ensures
            m@ == accessor(self@, false, MethodBody::OwnField),
    {
        self.make_getter(MethodBody::OwnField)
    }

    /// The getter delegating to the parent slot's same-named getter.
    pub fn make_parent_getter(&self) -> (m: Method)
        ensures
            m@ == accessor(self@, false, MethodBody::Delegate),
    {
        self.make_getter(MethodBody::Delegate)
    }

    /// The bare setter declaration for the capability interface.
    pub fn make_trait_setter(&self) -> (m: Method)
        ensures
            m@ == accessor(self@, true, MethodBody::Declaration),
    {
        self.make_setter(MethodBody::Declaration)
    }

    /// The setter overwriting this field in the class's own storage.
    pub fn make_field_setter(&self) -> (m: Method)
        ensures
            m@ == accessor(self@, true, MethodBody::OwnField),
    {
        self.make_setter(MethodBody::OwnField)
    }

    /// The setter delegating to the parent slot's same-named setter.
    pub fn make_parent_setter(&self) -> (m: Method)
        ensures
            m@ == accessor(self@, true, MethodBody::Delegate),
    {
        self.make_setter(MethodBody::Delegate)
    }
}

} // verus!
