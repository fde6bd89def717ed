use vstd::prelude::*;

use crate::emit::{
    accessor, accessor_pairs, ancestor_fields, class_code_of, ctor_of, ctor_params, field_names,
    own_impl_of, parent_impls_of, plain_code_of, struct_def_of, trait_def_of, ClassCode,
    Constructor, Method, MethodBody, ParentInit, PlainCode, StructDef, TraitDef, TraitImpl,
};
use crate::field::{Field, FieldV, RegField};
use crate::registry::Registry;

verus! {

/// Why a batch of declarations was rejected.
#[derive(Debug)]
pub enum ResolveError {
    /// A class named this parent, but no class of that name had been
    /// registered when the class was resolved.
    UnresolvedParent(String),
    /// Following parent names from this one ran back into an already
    /// visited class: the configuration is cyclic and invalid.
    ParentCycle(String),
}

/// Mathematical model of [`ResolveError`].
pub enum ResolveErrorV {
    UnresolvedParent(Seq<char>),
    ParentCycle(Seq<char>),
}

impl View for ResolveError {
    type V = ResolveErrorV;

    open spec fn view(&self) -> ResolveErrorV {
        match self {
            ResolveError::UnresolvedParent(n) => ResolveErrorV::UnresolvedParent(n@),
            ResolveError::ParentCycle(n) => ResolveErrorV::ParentCycle(n@),
        }
    }
}

impl DeepView for ResolveError {
    type V = ResolveErrorV;

    open spec fn deep_view(&self) -> ResolveErrorV {
        self@
    }
}

/// A class declaration as handed over by the parser: a name, an optional
/// parent name, and the class's own fields in declaration order.
pub struct ClassDecl {
    pub name: String,
    pub parent: Option<String>,
    pub fields: Vec<Field>,
}

/// Registry record of a class: the durable, plain-text projection of a
/// declaration, stored under the class name.
pub struct RegClass {
    pub name: String,
    pub parent: Option<String>,
    pub fields: Vec<RegField>,
}

/// Mathematical model shared by [`ClassDecl`] and [`RegClass`]: a class
/// name, an optional parent name, and the own fields, as plain values.
pub struct DeclV {
    pub name: Seq<char>,
    pub parent: Option<Seq<char>>,
    pub fields: Seq<FieldV>,
}

/// A resolved class: the declaration together with its materialized
/// ancestor chain, ordered child-to-root — `ancestors[0]` is the immediate
/// parent and the last entry is the root ancestor.
pub struct Class {
    pub name: String,
    pub parent: Option<String>,
    pub fields: Vec<Field>,
    pub ancestors: Vec<RegClass>,
}

/// Mathematical model of a resolved class.
pub struct ClassV {
    pub name: Seq<char>,
    pub parent: Option<Seq<char>>,
    pub fields: Seq<FieldV>,
    pub ancestors: Seq<DeclV>,
}

impl ClassV {
    /// The declaration content of a resolved class, ancestor chain dropped.
    pub open spec fn decl(self) -> DeclV {
        DeclV { name: self.name, parent: self.parent, fields: self.fields }
    }
}

impl View for ClassDecl {
    type V = DeclV;

    open spec fn view(&self) -> DeclV {
        DeclV {
            name: self.name@,
            parent: self.parent.deep_view(),
            fields: self.fields.deep_view(),
        }
    }
}

impl DeepView for ClassDecl {
    type V = DeclV;

    open spec fn deep_view(&self) -> DeclV {
        self@
    }
}

impl View for RegClass {
    type V = DeclV;

    open spec fn view(&self) -> DeclV {
        DeclV {
            name: self.name@,
            parent: self.parent.deep_view(),
            fields: self.fields.deep_view(),
        }
    }
}

impl DeepView for RegClass {
    type V = DeclV;

    open spec fn deep_view(&self) -> DeclV {
        self@
    }
}

impl View for Class {
    type V = ClassV;

    open spec fn view(&self) -> ClassV {
        ClassV {
            name: self.name@,
            parent: self.parent.deep_view(),
            fields: self.fields.deep_view(),
            ancestors: self.ancestors.deep_view(),
        }
    }
}

impl DeepView for Class {
    type V = ClassV;

    open spec fn deep_view(&self) -> ClassV {
        self@
    }
}

/// Clone an optional identifier.
fn clone_opt_name(o: &Option<String>) -> (r: Option<String>)
    ensures
        r == *o,
{
    match o {
        Some(s) => Some(s.clone()),
        None => None,
    }
}

/// Clone a list of fields.
fn clone_fields(v: &Vec<Field>) -> (r: Vec<Field>)
    ensures
        r@ == v@,
{
    let mut out: Vec<Field> = Vec::new();
    let mut i: usize = 0;
    while i < v.len()
        invariant
            i <= v@.len(),
            out@ == v@.take(i as int),
        decreases v@.len() - i,
    {
        out.push(v[i].clone());
        i = i + 1;
        proof {
            assert(out@ =~= v@.take(i as int));
        }
    }
    proof {
        assert(out@ =~= v@);
    }
    out
}

/// Clone a list of registry fields.
fn clone_reg_fields(v: &Vec<RegField>) -> (r: Vec<RegField>)
    ensures
        r@ == v@,
{
    let mut out: Vec<RegField> = Vec::new();
    let mut i: usize = 0;
    while i < v.len()
        invariant
            i <= v@.len(),
            out@ == v@.take(i as int),
        decreases v@.len() - i,
    {
        out.push(v[i].clone());
        i = i + 1;
        proof {
            assert(out@ =~= v@.take(i as int));
        }
    }
    proof {
        assert(out@ =~= v@);
    }
    out
}

impl Clone for ClassDecl {
    fn clone(&self) -> (r: Self)
        ensures
            r@ == self@,
    {
        let fields = clone_fields(&self.fields);
        proof {
            assert(fields.deep_view() =~= self.fields.deep_view());
        }
        ClassDecl { name: self.name.clone(), parent: clone_opt_name(&self.parent), fields }
    }
}

impl Clone for RegClass {
    fn clone(&self) -> (r: Self)
        ensures
            r@ == self@,
    {
        let fields = clone_reg_fields(&self.fields);
        proof {
            assert(fields.deep_view() =~= self.fields.deep_view());
        }
        RegClass { name: self.name.clone(), parent: clone_opt_name(&self.parent), fields }
    }
}

impl Class {
    /// Project this class into its registry record: the declaration
    /// content, with each field in registry form.
    pub fn to_record(&self) -> (r: RegClass)
        ensures
            r@ == self@.decl(),
    {
        let mut fields: Vec<RegField> = Vec::new();
        let mut i: usize = 0;
        while i < self.fields.len()
            invariant
                i <= self.fields@.len(),
                fields@.len() == i,
                forall|j: int| 0 <= j < i ==> fields@[j]@ == self.fields@[j]@,
            decreases self.fields@.len() - i,
        {
            fields.push(self.fields[i].to_record());
            i = i + 1;
        }
        proof {
            assert(fields.deep_view() =~= self.fields.deep_view());
        }
        RegClass {
            name: self.name.clone(),
            parent: clone_opt_name(&self.parent),
            fields,
        }
    }
}

impl ClassDecl {
    /// Plain class generation, the registry-free entry point: storage,
    /// constructor and direct accessors for one class body, with no
    /// inheritance involved.
    pub fn generate_plain(&self) -> (r: PlainCode)
        ensures
            r@ == plain_code_of(self@),
    {
        let fields = clone_fields(&self.fields);
        proof {
            assert(fields.deep_view() =~= self.fields.deep_view());
        }
        let struct_def = StructDef { name: self.name.clone(), parent_slot: None, fields };
        let params = clone_fields(&self.fields);
        proof {
            assert(params.deep_view() =~= self.fields.deep_view());
        }
        let constructor = Constructor {
            params,
            parent_init: None,
            own_inits: names_of_fields(&self.fields),
        };
        let methods = make_accessors(&self.fields, MethodBody::OwnField);
        PlainCode { struct_def, constructor, methods }
    }
}

/// Whether the given fields carry mutually distinct names.
#[verifier::loop_isolation(false)]
fn names_distinct(fields: &Vec<Field>) -> (r: bool)
    ensures
        r == field_names(fields.deep_view()).no_duplicates(),
{
    let ghost names = field_names(fields.deep_view());
    let mut i: usize = 0;
    while i < fields.len()
        invariant
            i <= fields@.len(),
            forall|x: int, y: int| 0 <= x < i && x < y < fields@.len() ==> names[x] != names[y],
        decreases fields@.len() - i,
    {
        let mut j: usize = i + 1;
        while j < fields.len()
            invariant
                i < j,
                j <= fields@.len(),
                forall|y: int| i < y < j ==> names[i as int] != names[y],
            decreases fields@.len() - j,
        {
            if fields[i].name == fields[j].name {
                proof {
                    assert(names[i as int] == names[j as int]);
                }
                return false;
            }
            j = j + 1;
        }
        i = i + 1;
    }
    proof {
        assert forall|x: int, y: int|
            0 <= x < names.len() && 0 <= y < names.len() && x != y implies names[x]
            != names[y] by {
            if x < y {
                assert(names[x] != names[y]);
            } else {
                assert(names[y] != names[x]);
            }
        }
    }
    true
}

impl Class {
    /// Whether this class's constructor parameters — every inherited field
    /// and its own — carry mutually distinct names. A redeclared name along
    /// the chain makes the generated accessors ambiguous, so a caller can
    /// reject such a class at resolution time by testing this.
    pub fn has_distinct_param_names(&self) -> (r: bool)
        ensures
            r == field_names(ctor_params(self@)).no_duplicates(),
    {
        let ctor = self.make_constructor();
        names_distinct(&ctor.params)
    }
}

/// The walk from parent reference `cur` up the registry `m`, allowed at
/// most `fuel` steps. Each step prepends the record found under the current
/// name and continues at that record's own parent; a missing name stops the
/// walk with `UnresolvedParent`, and running out of fuel stops it with
/// `ParentCycle`.
pub open spec fn chain_walk(
    m: Map<Seq<char>, DeclV>,
    cur: Option<Seq<char>>,
    fuel: nat,
) -> Result<Seq<DeclV>, ResolveErrorV>
    decreases fuel,
{
    match cur {
        None => Ok(Seq::empty()),
        Some(p) => {
            if !m.contains_key(p) {
                Err(ResolveErrorV::UnresolvedParent(p))
            } else if fuel == 0 {
                Err(ResolveErrorV::ParentCycle(p))
            } else {
                match chain_walk(m, m[p].parent, (fuel - 1) as nat) {
                    Ok(rest) => Ok(seq![m[p]] + rest),
                    Err(e) => Err(e),
                }
            }
        },
    }
}

/// The ancestor chain of a class whose parent reference is `parent`,
/// resolved against registry `m`, ordered child-to-root. An acyclic chain
/// visits each registered name at most once, so a walk that would exceed
/// the number of registered names has revisited one: it is cut off and
/// reported as a cycle.
pub open spec fn resolve_chain_spec(m: Map<Seq<char>, DeclV>, parent: Option<Seq<char>>) -> Result<
    Seq<DeclV>,
    ResolveErrorV,
> {
    chain_walk(m, parent, m.dom().len())
}

/// `r` with `pre` prepended to its chain on success.
spec fn prepend_chain(pre: Seq<DeclV>, r: Result<Seq<DeclV>, ResolveErrorV>) -> Result<
    Seq<DeclV>,
    ResolveErrorV,
> {
    match r {
        Ok(rest) => Ok(pre + rest),
        Err(e) => Err(e),
    }
}

/// A successful resolution starts at the registry's current record for the
/// parent name.
pub proof fn lemma_resolved_head(m: Map<Seq<char>, DeclV>, p: Seq<char>, chain: Seq<DeclV>)
    requires
        m.dom().finite(),
        resolve_chain_spec(m, Some(p)) == Ok::<Seq<DeclV>, ResolveErrorV>(chain),
    ensures
        m.contains_key(p),
        chain.len() > 0,
        chain[0] == m[p],
{
    if !m.contains_key(p) {
        assert(false);
    }
    vstd::set::axiom_set_contains_len(m.dom(), p);
    let fuel = m.dom().len();
    match chain_walk(m, m[p].parent, (fuel - 1) as nat) {
        Ok(rest) => {
            assert(chain == seq![m[p]] + rest);
        },
        Err(_) => {
            assert(false);
        },
    }
}

/// Law: re-registering a class name overwrites the earlier record — the
/// registry is as if only the later record had ever been written — and a
/// class that extends that name afterwards resolves against the new record
/// at the head of its chain.
pub proof fn lemma_last_registration_wins(
    m: Map<Seq<char>, DeclV>,
    first: DeclV,
    second: DeclV,
    chain: Seq<DeclV>,
)
    requires
        m.dom().finite(),
        first.name == second.name,
        resolve_chain_spec(
            m.insert(first.name, first).insert(second.name, second),
            Some(second.name),
        ) == Ok::<Seq<DeclV>, ResolveErrorV>(chain),
    ensures
        m.insert(first.name, first).insert(second.name, second) == m.insert(second.name, second),
        chain.len() > 0,
        chain[0] == second,
{
    let m2 = m.insert(first.name, first).insert(second.name, second);
    assert(m2 =~= m.insert(second.name, second));
    lemma_resolved_head(m2, second.name, chain);
}

/// Materialize the ancestor chain for a class whose parent reference is
/// `parent`, looking each name up in `registry`.
#[verifier::loop_isolation(false)]
pub fn resolve_chain(registry: &Registry, parent: &Option<String>) -> (r: Result<
    Vec<RegClass>,
    ResolveError,
>)
    requires
        registry.wf(),
    ensures
        match r {
            Ok(chain) => resolve_chain_spec(registry@, parent.deep_view()) == Ok::<
                Seq<DeclV>,
                ResolveErrorV,
            >(chain.deep_view()),
            Err(e) => resolve_chain_spec(registry@, parent.deep_view()) == Err::<
                Seq<DeclV>,
                ResolveErrorV,
            >(e@),
        },
{
    let ghost m = registry@;
    let mut chain: Vec<RegClass> = Vec::new();
    let mut cur: Option<String> = clone_opt_name(parent);
    let mut fuel: usize = registry.len();
    proof {
        match chain_walk(m, cur.deep_view(), fuel as nat) {
            Ok(rest) => {
                assert(chain.deep_view() + rest =~= rest);
            },
            Err(_) => {},
        }
    }
    while cur.is_some()
        invariant
            prepend_chain(chain.deep_view(), chain_walk(m, cur.deep_view(), fuel as nat))
                == resolve_chain_spec(m, parent.deep_view()),
        decreases fuel,
    {
        let p = cur.unwrap();
        match registry.lookup(&p) {
            None => {
                return Err(ResolveError::UnresolvedParent(p));
            },
            Some(rec) => {
                if fuel == 0 {
                    return Err(ResolveError::ParentCycle(p));
                }
                fuel = fuel - 1;
                let rec2 = rec.clone();
                cur = clone_opt_name(&rec2.parent);
                let ghost prev = chain.deep_view();
                chain.push(rec2);
                proof {
                    assert(chain.deep_view() =~= prev.push(rec2@));
                    match chain_walk(m, cur.deep_view(), fuel as nat) {
                        Ok(rest) => {
                            assert(prev.push(rec2@) + rest =~= prev + (seq![rec2@] + rest));
                        },
                        Err(_) => {},
                    }
                }
            },
        }
    }
    proof {
        assert(chain.deep_view() + Seq::<DeclV>::empty() =~= chain.deep_view());
    }
    Ok(chain)
}

impl Class {
    /// Resolve a declaration against `registry`, register the resolved
    /// class under its name, and return it. On failure nothing is
    /// registered and the registry is unchanged.
    pub fn new(
        name: String,
        parent: Option<String>,
        fields: Vec<Field>,
        registry: &mut Registry,
    ) -> (r: Result<Class, ResolveError>)
        requires
            old(registry).wf(),
        ensures
            final(registry).wf(),
            match r {
                Ok(c) => {
                    &&& c.name@ == name@
                    &&& c.parent.deep_view() == parent.deep_view()
                    &&& c.fields.deep_view() == fields.deep_view()
                    &&& resolve_chain_spec(old(registry)@, parent.deep_view()) == Ok::<
                        Seq<DeclV>,
                        ResolveErrorV,
                    >(c.ancestors.deep_view())
                    &&& final(registry)@ == old(registry)@.insert(name@, c@.decl())
                },
                Err(e) => {
                    &&& resolve_chain_spec(old(registry)@, parent.deep_view()) == Err::<
                        Seq<DeclV>,
                        ResolveErrorV,
                    >(e@)
                    &&& final(registry)@ == old(registry)@
                },
            },
    {
        let chain = match resolve_chain(registry, &parent) {
            Ok(c) => c,
            Err(e) => {
                return Err(e);
            },
        };
        let this = Class { name, parent, fields, ancestors: chain };
        registry.register(this.to_record());
        Ok(this)
    }
}

/// Getter/setter pairs, in field order, for a class's own fields.
#[verifier::loop_isolation(false)]
fn make_accessors(fields: &Vec<Field>, body: MethodBody) -> (r: Vec<Method>)
    ensures
        r.deep_view() == accessor_pairs(fields.deep_view(), body),
{
    let mut out: Vec<Method> = Vec::new();
    proof {
        assert(out.deep_view() =~= accessor_pairs(fields.deep_view().take(0), body));
    }
    let mut i: usize = 0;
    while i < fields.len()
        invariant
            i <= fields@.len(),
            out.deep_view() == accessor_pairs(fields.deep_view().take(i as int), body),
        decreases fields@.len() - i,
    {
        let f = &fields[i];
        let getter = match body {
            MethodBody::Declaration => f.make_trait_getter(),
            MethodBody::OwnField => f.make_field_getter(),
            MethodBody::Delegate => f.make_parent_getter(),
        };
        let setter = match body {
            MethodBody::Declaration => f.make_trait_setter(),
            MethodBody::OwnField => f.make_field_setter(),
            MethodBody::Delegate => f.make_parent_setter(),
        };
        let ghost prev = out.deep_view();
        out.push(getter);
        out.push(setter);
        i = i + 1;
        proof {
            let fv = fields.deep_view();
            assert(fv.take(i as int).drop_last() =~= fv.take(i as int - 1));
            assert(fv.take(i as int).last() == fv[i as int - 1]);
            assert(out.deep_view() =~= prev + seq![
                accessor(fv[i as int - 1], false, body),
                accessor(fv[i as int - 1], true, body),
            ]);
        }
    }
    proof {
        assert(fields.deep_view().take(fields@.len() as int) =~= fields.deep_view());
    }
    out
}

/// Getter/setter pairs for fields taken from a registry record.
#[verifier::loop_isolation(false)]
fn make_accessors_rec(fields: &Vec<RegField>, body: MethodBody) -> (r: Vec<Method>)
    ensures
        r.deep_view() == accessor_pairs(fields.deep_view(), body),
{
    let mut out: Vec<Method> = Vec::new();
    proof {
        assert(out.deep_view() =~= accessor_pairs(fields.deep_view().take(0), body));
    }
    let mut i: usize = 0;
    while i < fields.len()
        invariant
            i <= fields@.len(),
            out.deep_view() == accessor_pairs(fields.deep_view().take(i as int), body),
        decreases fields@.len() - i,
    {
        let f = Field::from_record(&fields[i]);
        let getter = match body {
            MethodBody::Declaration => f.make_trait_getter(),
            MethodBody::OwnField => f.make_field_getter(),
            MethodBody::Delegate => f.make_parent_getter(),
        };
        let setter = match body {
            MethodBody::Declaration => f.make_trait_setter(),
            MethodBody::OwnField => f.make_field_setter(),
            MethodBody::Delegate => f.make_parent_setter(),
        };
        let ghost prev = out.deep_view();
        out.push(getter);
        out.push(setter);
        i = i + 1;
        proof {
            let fv = fields.deep_view();
            assert(fv.take(i as int).drop_last() =~= fv.take(i as int - 1));
            assert(fv.take(i as int).last() == fv[i as int - 1]);
            assert(out.deep_view() =~= prev + seq![
                accessor(fv[i as int - 1], false, body),
                accessor(fv[i as int - 1], true, body),
            ]);
        }
    }
    proof {
        assert(fields.deep_view().take(fields@.len() as int) =~= fields.deep_view());
    }
    out
}

/// The names of the given fields, in declaration order.
#[verifier::loop_isolation(false)]
fn names_of_fields(fields: &Vec<Field>) -> (r: Vec<String>)
    ensures
        r.deep_view() == field_names(fields.deep_view()),
{
    let mut out: Vec<String> = Vec::new();
    proof {
        assert(out.deep_view() =~= field_names(fields.deep_view().take(0)));
    }
    let mut j: usize = 0;
    while j < fields.len()
        invariant
            j <= fields@.len(),
            out.deep_view() == field_names(fields.deep_view().take(j as int)),
        decreases fields@.len() - j,
    {
        let n = fields[j].name.clone();
        let ghost prevdv = out.deep_view();
        let ghost nv = n@;
        out.push(n);
        j = j + 1;
        proof {
            assert(out.deep_view() =~= prevdv.push(nv));
            assert(out.deep_view() =~= field_names(fields.deep_view().take(j as int)));
        }
    }
    proof {
        assert(fields.deep_view().take(fields@.len() as int) =~= fields.deep_view());
    }
    out
}

impl Class {
    /// Storage layout: the class's own fields, plus the reserved parent
    /// slot when the class has ancestors.
    fn make_struct(&self) -> (r: StructDef)
        ensures
            r@ == struct_def_of(self@),
    {
        let parent_slot: Option<String> = if self.ancestors.len() > 0 {
            Some(self.ancestors[0].name.clone())
        } else {
            None
        };
        let fields = clone_fields(&self.fields);
        proof {
            assert(fields.deep_view() =~= self.fields.deep_view());
        }
        StructDef { name: self.name.clone(), parent_slot, fields }
    }

    /// The capability interface declaring accessors for the own fields.
    fn make_trait(&self) -> (r: TraitDef)
        ensures
            r@ == trait_def_of(self@),
    {
        TraitDef {
            class: self.name.clone(),
            methods: make_accessors(&self.fields, MethodBody::Declaration),
        }
    }

    /// The class's implementation of its own interface, directly against
    /// its own storage.
    fn make_trait_impl(&self) -> (r: TraitImpl)
        ensures
            r@ == own_impl_of(self@),
    {
        TraitImpl {
            class: self.name.clone(),
            target: self.name.clone(),
            methods: make_accessors(&self.fields, MethodBody::OwnField),
        }
    }

    /// One implementation per ancestor interface, every method delegating
    /// through the parent slot.
    #[verifier::loop_isolation(false)]
    fn make_parent_impls(&self) -> (r: Vec<TraitImpl>)
        ensures
            r.deep_view() == parent_impls_of(self@),
    {
        let mut out: Vec<TraitImpl> = Vec::new();
        proof {
            assert(out.deep_view() =~= parent_impls_of(self@).take(0));
        }
        let mut i: usize = 0;
        while i < self.ancestors.len()
            invariant
                i <= self.ancestors@.len(),
                out.deep_view() == parent_impls_of(self@).take(i as int),
            decreases self.ancestors@.len() - i,
        {
            let a = &self.ancestors[i];
            let ti = TraitImpl {
                class: a.name.clone(),
                target: self.name.clone(),
                methods: make_accessors_rec(&a.fields, MethodBody::Delegate),
            };
            out.push(ti);
            i = i + 1;
            proof {
                assert(out.deep_view() =~= parent_impls_of(self@).take(i as int));
            }
        }
        proof {
            assert(parent_impls_of(self@).take(self.ancestors@.len() as int) =~= parent_impls_of(
                self@,
            ));
        }
        out
    }

    /// Every ancestor-contributed field, root-most ancestor first.
    #[verifier::loop_isolation(false)]
    fn ancestor_params(&self) -> (r: Vec<Field>)
        ensures
            r.deep_view() == ancestor_fields(self@.ancestors),
    {
        let ghost anc = self@.ancestors;
        let mut out: Vec<Field> = Vec::new();
        let mut k: usize = self.ancestors.len();
        proof {
            assert(anc.skip(k as int) =~= Seq::<DeclV>::empty());
            assert(out.deep_view() =~= ancestor_fields(anc.skip(k as int)));
        }
        while k > 0
            invariant
                k <= self.ancestors@.len(),
                out.deep_view() == ancestor_fields(anc.skip(k as int)),
            decreases k,
    {
        k = k - 1;
        let a = &self.ancestors[k];
        proof {
            assert(out.deep_view() + a.fields.deep_view().take(0) =~= out.deep_view());
        }
        let ghost base = out.deep_view();
        let mut j: usize = 0;
        while j < a.fields.len()
            invariant
                j <= a.fields@.len(),
                out.deep_view() == base + a.fields.deep_view().take(j as int),
            decreases a.fields@.len() - j,
        {
            let f = Field::from_record(&a.fields[j]);
            let ghost prevdv = out.deep_view();
            let ghost fv = f@;
            out.push(f);
            j = j + 1;
            proof {
                assert(out.deep_view() =~= prevdv.push(fv));
                assert(out.deep_view() =~= base + a.fields.deep_view().take(j as int));
            }
        }
        proof {
            assert(a.fields.deep_view().take(a.fields@.len() as int) =~= a.fields.deep_view());
            assert(anc.skip(k as int).drop_first() =~= anc.skip(k as int + 1));
            assert(anc.skip(k as int)[0] == anc[k as int]);
            assert(a.fields.deep_view() == anc[k as int].fields);
            assert(out.deep_view() =~= ancestor_fields(anc.skip(k as int)));
        }
    }
        proof {
            assert(anc.skip(0) =~= anc);
        }
        out
    }

    /// The generated constructor: all ancestor fields as leading
    /// parameters, the parent slot filled by the immediate parent's
    /// constructor, and the own fields assigned from the trailing
    /// parameters.
    #[verifier::loop_isolation(false)]
    fn make_constructor(&self) -> (r: Constructor)
        ensures
            r@ == ctor_of(self@),
    {
        let anc = self.ancestor_params();
        let parent_init: Option<ParentInit> = if self.ancestors.len() > 0 {
            Some(ParentInit { class: self.ancestors[0].name.clone(), args: names_of_fields(&anc) })
        } else {
            None
        };
        let own_inits = names_of_fields(&self.fields);
        let mut params = anc;
        let ghost base = params.deep_view();
        let mut i: usize = 0;
        proof {
            assert(params.deep_view() =~= base + self.fields.deep_view().take(0));
        }
        while i < self.fields.len()
            invariant
                i <= self.fields@.len(),
                params.deep_view() == base + self.fields.deep_view().take(i as int),
            decreases self.fields@.len() - i,
        {
            let f = self.fields[i].clone();
            let ghost prevdv = params.deep_view();
            let ghost fv = f@;
            params.push(f);
            i = i + 1;
            proof {
                assert(params.deep_view() =~= prevdv.push(fv));
                assert(params.deep_view() =~= base + self.fields.deep_view().take(i as int));
            }
        }
        proof {
            assert(self.fields.deep_view().take(self.fields@.len() as int)
                =~= self.fields.deep_view());
        }
        Constructor { params, parent_init, own_inits }
    }

    /// Everything generated for this resolved class: storage layout,
    /// constructor, its capability interface, the class's implementation of
    /// that interface, and one delegating implementation per ancestor
    /// interface.
    pub fn generate(&self) -> (r: ClassCode)
        ensures
            r@ == class_code_of(self@),
    {
        let struct_def = self.make_struct();
        let constructor = self.make_constructor();
        let trait_def = self.make_trait();
        let trait_impl = self.make_trait_impl();
        let parent_impls = self.make_parent_impls();
        ClassCode { struct_def, constructor, trait_def, trait_impl, parent_impls }
    }
}

} // verus!
