use vstd::prelude::*;

use crate::class::{ClassV, DeclV};
use crate::field::{Field, FieldV};

verus! {

/// How a generated accessor is realized.
#[derive(Clone, Copy, Debug, PartialEq, Eq, Structural)]
pub enum MethodBody {
    /// A bare signature inside a capability interface.
    Declaration,
    /// Reads or writes the field stored on the class itself.
    OwnField,
    /// Forwards to the same accessor on the composed parent slot.
    Delegate,
}

/// One generated accessor: the getter (or, with `setter` set, the setter)
/// for `field`, realized as `body` says. The rendered getter carries the
/// field's own name; the rendered setter name is derived from it.
pub struct Method {
    pub setter: bool,
    pub field: String,
    pub ty: String,
    pub body: MethodBody,
}

/// Mathematical model of a generated accessor.
pub struct MethodV {
    pub setter: bool,
    pub field: Seq<char>,
    pub ty: Seq<char>,
    pub body: MethodBody,
}

impl View for Method {
    type V = MethodV;

    open spec fn view(&self) -> MethodV {
        MethodV { setter: self.setter, field: self.field@, ty: self.ty@, body: self.body }
    }
}

impl DeepView for Method {
    type V = MethodV;

    open spec fn deep_view(&self) -> MethodV {
        self@
    }
}

/// Storage layout of a generated class: its own fields, preceded — when
/// the class has a parent — by exactly one reserved slot holding a fully
/// constructed instance of the immediate parent type. The slot's rendered
/// name is reserved and must not collide with any field name.
pub struct StructDef {
    pub name: String,
    pub parent_slot: Option<String>,
    pub fields: Vec<Field>,
}

/// Mathematical model of a generated storage layout.
pub struct StructDefV {
    pub name: Seq<char>,
    pub parent_slot: Option<Seq<char>>,
    pub fields: Seq<FieldV>,
}

impl View for StructDef {
    type V = StructDefV;

    open spec fn view(&self) -> StructDefV {
        StructDefV {
            name: self.name@,
            parent_slot: self.parent_slot.deep_view(),
            fields: self.fields.deep_view(),
        }
    }
}

impl DeepView for StructDef {
    type V = StructDefV;

    open spec fn deep_view(&self) -> StructDefV {
        self@
    }
}

/// The instruction, inside a generated constructor, that fills the parent
/// slot: invoke the constructor of `class` with the parameters named in
/// `args`, in order.
pub struct ParentInit {
    pub class: String,
    pub args: Vec<String>,
}

/// Mathematical model of a parent-slot initializer.
pub struct ParentInitV {
    pub class: Seq<char>,
    pub args: Seq<Seq<char>>,
}

impl View for ParentInit {
    type V = ParentInitV;

    open spec fn view(&self) -> ParentInitV {
        ParentInitV { class: self.class@, args: self.args.deep_view() }
    }
}

impl DeepView for ParentInit {
    type V = ParentInitV;

    open spec fn deep_view(&self) -> ParentInitV {
        self@
    }
}

/// A generated constructor: its parameter list, the parent-slot
/// initializer when the class has a parent, and the class's own fields,
/// each assigned from the same-named parameter.
pub struct Constructor {
    pub params: Vec<Field>,
    pub parent_init: Option<ParentInit>,
    pub own_inits: Vec<String>,
}

/// Mathematical model of a generated constructor.
pub struct ConstructorV {
    pub params: Seq<FieldV>,
    pub parent_init: Option<ParentInitV>,
    pub own_inits: Seq<Seq<char>>,
}

impl View for Constructor {
    type V = ConstructorV;

    open spec fn view(&self) -> ConstructorV {
        ConstructorV {
            params: self.params.deep_view(),
            parent_init: self.parent_init.deep_view(),
            own_inits: self.own_inits.deep_view(),
        }
    }
}

impl DeepView for Constructor {
    type V = ConstructorV;

    open spec fn deep_view(&self) -> ConstructorV {
        self@
    }
}

/// The capability interface belonging to `class`: one getter and setter
/// declaration per own field. Its rendered name is derived from the class
/// name.
pub struct TraitDef {
    pub class: String,
    pub methods: Vec<Method>,
}

/// Mathematical model of a capability interface.
pub struct TraitDefV {
    pub class: Seq<char>,
    pub methods: Seq<MethodV>,
}

impl View for TraitDef {
    type V = TraitDefV;

    open spec fn view(&self) -> TraitDefV {
        TraitDefV { class: self.class@, methods: self.methods.deep_view() }
    }
}

impl DeepView for TraitDef {
    type V = TraitDefV;

    open spec fn deep_view(&self) -> TraitDefV {
        self@
    }
}

/// An implementation of the capability interface belonging to `class`, for
/// the generated struct `target`.
pub struct TraitImpl {
    pub class: String,
    pub target: String,
    pub methods: Vec<Method>,
}

/// Mathematical model of an interface implementation.
pub struct TraitImplV {
    pub class: Seq<char>,
    pub target: Seq<char>,
    pub methods: Seq<MethodV>,
}

impl View for TraitImpl {
    type V = TraitImplV;

    open spec fn view(&self) -> TraitImplV {
        TraitImplV { class: self.class@, target: self.target@, methods: self.methods.deep_view() }
    }
}

impl DeepView for TraitImpl {
    type V = TraitImplV;

    open spec fn deep_view(&self) -> TraitImplV {
        self@
    }
}

/// Everything generated for one resolved class.
pub struct ClassCode {
    pub struct_def: StructDef,
    pub constructor: Constructor,
    pub trait_def: TraitDef,
    pub trait_impl: TraitImpl,
    pub parent_impls: Vec<TraitImpl>,
}

/// Mathematical model of the code generated for one class.
pub struct ClassCodeV {
    pub struct_def: StructDefV,
    pub constructor: ConstructorV,
    pub trait_def: TraitDefV,
    pub trait_impl: TraitImplV,
    pub parent_impls: Seq<TraitImplV>,
}

impl View for ClassCode {
    type V = ClassCodeV;

    open spec fn view(&self) -> ClassCodeV {
        ClassCodeV {
            struct_def: self.struct_def@,
            constructor: self.constructor@,
            trait_def: self.trait_def@,
            trait_impl: self.trait_impl@,
            parent_impls: self.parent_impls.deep_view(),
        }
    }
}

impl DeepView for ClassCode {
    type V = ClassCodeV;

    open spec fn deep_view(&self) -> ClassCodeV {
        self@
    }
}

/// The getter (or setter) for field `f`, realized as `body` says.
pub open spec fn accessor(f: FieldV, setter: bool, body: MethodBody) -> MethodV {
    MethodV { setter, field: f.name, ty: f.ty, body }
}

/// Getter and setter for each field in order, the getter first.
pub open spec fn accessor_pairs(fields: Seq<FieldV>, body: MethodBody) -> Seq<MethodV>
    decreases fields.len(),
{
    if fields.len() == 0 {
        Seq::empty()
    } else {
        accessor_pairs(fields.drop_last(), body) + seq![
            accessor(fields.last(), false, body),
            accessor(fields.last(), true, body),
        ]
    }
}

/// All fields contributed by the ancestor chain `anc` (given child-to-root),
/// flattened with the root-most ancestor's fields first.
pub open spec fn ancestor_fields(anc: Seq<DeclV>) -> Seq<FieldV>
    decreases anc.len(),
{
    if anc.len() == 0 {
        Seq::empty()
    } else {
        ancestor_fields(anc.drop_first()) + anc[0].fields
    }
}

/// Constructor parameters of a resolved class: every ancestor-declared
/// field, root-most ancestor first and descending along the chain, then the
/// class's own fields.
pub open spec fn ctor_params(c: ClassV) -> Seq<FieldV> {
    ancestor_fields(c.ancestors) + c.fields
}

/// The names of the given fields, in order.
pub open spec fn field_names(fs: Seq<FieldV>) -> Seq<Seq<char>> {
    fs.map_values(|f: FieldV| f.name)
}

/// The storage layout generated for a resolved class.
pub open spec fn struct_def_of(c: ClassV) -> StructDefV {
    StructDefV {
        name: c.name,
        parent_slot: if c.ancestors.len() > 0 {
            Some(c.ancestors[0].name)
        } else {
            None
        },
        fields: c.fields,
    }
}

/// The constructor generated for a resolved class. The parent slot, when
/// present, is filled by invoking the immediate parent's constructor with
/// every ancestor-contributed parameter, in parameter order.
pub open spec fn ctor_of(c: ClassV) -> ConstructorV {
    ConstructorV {
        params: ctor_params(c),
        parent_init: if c.ancestors.len() > 0 {
            Some(
                ParentInitV {
                    class: c.ancestors[0].name,
                    args: field_names(ancestor_fields(c.ancestors)),
                },
            )
        } else {
            None
        },
        own_inits: field_names(c.fields),
    }
}

/// The capability interface generated for a resolved class.
pub open spec fn trait_def_of(c: ClassV) -> TraitDefV {
    TraitDefV { class: c.name, methods: accessor_pairs(c.fields, MethodBody::Declaration) }
}

/// The class's implementation of its own interface, directly against its
/// own storage.
pub open spec fn own_impl_of(c: ClassV) -> TraitImplV {
    TraitImplV {
        class: c.name,
        target: c.name,
        methods: accessor_pairs(c.fields, MethodBody::OwnField),
    }
}

/// The class's implementations of every ancestor's interface, in chain
/// order, every method delegating through the composed parent slot.
pub open spec fn parent_impls_of(c: ClassV) -> Seq<TraitImplV> {
    c.ancestors.map_values(
        |a: DeclV|
            TraitImplV {
                class: a.name,
                target: c.name,
                methods: accessor_pairs(a.fields, MethodBody::Delegate),
            },
    )
}

/// The code generated for one plain class body — no inheritance and no
/// registry interaction: storage, constructor, and direct accessors on the
/// struct itself, outside any interface.
pub struct PlainCode {
    pub struct_def: StructDef,
    pub constructor: Constructor,
    pub methods: Vec<Method>,
}

/// Mathematical model of plain class generation.
pub struct PlainCodeV {
    pub struct_def: StructDefV,
    pub constructor: ConstructorV,
    pub methods: Seq<MethodV>,
}

impl View for PlainCode {
    type V = PlainCodeV;

    open spec fn view(&self) -> PlainCodeV {
        PlainCodeV {
            struct_def: self.struct_def@,
            constructor: self.constructor@,
            methods: self.methods.deep_view(),
        }
    }
}

impl DeepView for PlainCode {
    type V = PlainCodeV;

    open spec fn deep_view(&self) -> PlainCodeV {
        self@
    }
}

/// What plain generation emits for a class body: its own storage with no
/// parent slot, a constructor over its own fields only, and one direct
/// getter/setter pair per field.
pub open spec fn plain_code_of(d: DeclV) -> PlainCodeV {
    PlainCodeV {
        struct_def: StructDefV { name: d.name, parent_slot: None, fields: d.fields },
        constructor: ConstructorV {
            params: d.fields,
            parent_init: None,
            own_inits: field_names(d.fields),
        },
        methods: accessor_pairs(d.fields, MethodBody::OwnField),
    }
}

/// Flattening the ancestors' fields child-to-root equals flattening the
/// reversed chain in order.
proof fn lemma_ancestor_fields_reverse(anc: Seq<DeclV>)
    ensures
        ancestor_fields(anc) == anc.reverse().map_values(|a: DeclV| a.fields).flatten(),
    decreases anc.len(),
{
    let mapped = anc.reverse().map_values(|a: DeclV| a.fields);
    mapped.lemma_flatten_and_flatten_alt_are_equivalent();
    if anc.len() == 0 {
        assert(mapped =~= Seq::<Seq<FieldV>>::empty());
    } else {
        lemma_ancestor_fields_reverse(anc.drop_first());
        let mapped0 = anc.drop_first().reverse().map_values(|a: DeclV| a.fields);
        mapped0.lemma_flatten_and_flatten_alt_are_equivalent();
        assert(mapped.drop_last() =~= mapped0);
        assert(mapped.last() == anc[0].fields);
        assert(mapped.flatten_alt() == mapped0.flatten_alt() + anc[0].fields);
    }
}

/// Law: the generated constructor's parameters are exactly the ancestors'
/// own fields — root-most ancestor first, descending along the chain — and
/// then the class's own fields.
pub proof fn lemma_ctor_param_order(c: ClassV)
    ensures
        ctor_of(c).params == c.ancestors.reverse().map_values(|a: DeclV| a.fields).flatten()
            + c.fields,
{
    lemma_ancestor_fields_reverse(c.ancestors);
}

/// The four artifacts generated for a resolved class.
pub open spec fn class_code_of(c: ClassV) -> ClassCodeV {
    ClassCodeV {
        struct_def: struct_def_of(c),
        constructor: ctor_of(c),
        trait_def: trait_def_of(c),
        trait_impl: own_impl_of(c),
        parent_impls: parent_impls_of(c),
    }
}

} // verus!
