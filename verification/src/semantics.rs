//! Runtime meaning of the generated code: instances laid out as the
//! generated storage says (own slots plus a composed parent slot), read and
//! written exactly as the generated direct and delegating accessors do.
//! The laws proved here are what make the generated delegation chains
//! trustworthy: writes round-trip through reads at any depth, and the
//! constructor routes every argument to the field it names.

use vstd::prelude::*;

use crate::class::{Class, ClassV, DeclV};
use crate::emit::{ancestor_fields, ctor_params, field_names};
use crate::field::{Field, FieldV, RegField};

verus! {

/// One stored field slot of an instance: the field's name and its current
/// value, both carried as plain text.
pub struct FieldValue {
    pub name: String,
    pub value: String,
}

/// Mathematical model of a stored field slot.
pub struct FieldValueV {
    pub name: Seq<char>,
    pub value: Seq<char>,
}

impl View for FieldValue {
    type V = FieldValueV;

    open spec fn view(&self) -> FieldValueV {
        FieldValueV { name: self.name@, value: self.value@ }
    }
}

impl DeepView for FieldValue {
    type V = FieldValueV;

    open spec fn deep_view(&self) -> FieldValueV {
        self@
    }
}

/// An instance of a generated class, laid out as the generated storage
/// says: the class name, the composed parent slot when the class has a
/// parent, and one slot per own field.
pub struct Instance {
    pub class: String,
    pub parent: Option<Box<Instance>>,
    pub values: Vec<FieldValue>,
}

/// Mathematical model of an instance.
pub struct InstanceV {
    pub class: Seq<char>,
    pub parent: Option<Box<InstanceV>>,
    pub values: Seq<FieldValueV>,
}

impl View for Instance {
    type V = InstanceV;

    open spec fn view(&self) -> InstanceV
        decreases self,
    {
        InstanceV {
            class: self.class@,
            parent: match self.parent {
                Some(p) => Some(Box::new((*p)@)),
                None => None,
            },
            values: self.values.deep_view(),
        }
    }
}

impl DeepView for Instance {
    type V = InstanceV;

    open spec fn deep_view(&self) -> InstanceV {
        self@
    }
}

/// The value stored under `name` in a list of slots, if any; the first
/// matching slot wins.
pub open spec fn slot_value(values: Seq<FieldValueV>, name: Seq<char>) -> Option<Seq<char>>
    decreases values.len(),
{
    if values.len() == 0 {
        None
    } else if values[0].name == name {
        Some(values[0].value)
    } else {
        slot_value(values.drop_first(), name)
    }
}

/// Whether one of the slots is named `name`.
pub open spec fn has_slot(values: Seq<FieldValueV>, name: Seq<char>) -> bool {
    slot_value(values, name) is Some
}

/// The slots with the value under `name` replaced by `value`; slots other
/// than the first matching one are untouched.
pub open spec fn set_slot(values: Seq<FieldValueV>, name: Seq<char>, value: Seq<char>) -> Seq<
    FieldValueV,
>
    decreases values.len(),
{
    if values.len() == 0 {
        values
    } else if values[0].name == name {
        seq![FieldValueV { name, value }] + values.drop_first()
    } else {
        seq![values[0]] + set_slot(values.drop_first(), name, value)
    }
}

/// What the generated getter for `name` returns on instance `i`: the own
/// slot where the class itself stores the field, and otherwise — through
/// the generated delegating implementations — whatever the parent slot
/// answers.
pub open spec fn read_field(i: InstanceV, name: Seq<char>) -> Option<Seq<char>>
    decreases i,
{
    match slot_value(i.values, name) {
        Some(v) => Some(v),
        None => match i.parent {
            Some(p) => read_field(*p, name),
            None => None,
        },
    }
}

/// What the generated setter for `name` leaves behind on instance `i`: the
/// own slot is overwritten where the class itself stores the field, and
/// otherwise the write is delegated to the parent slot. An instance without
/// the field is unchanged.
pub open spec fn write_field(i: InstanceV, name: Seq<char>, value: Seq<char>) -> InstanceV
    decreases i,
{
    if has_slot(i.values, name) {
        InstanceV { class: i.class, parent: i.parent, values: set_slot(i.values, name, value) }
    } else {
        match i.parent {
            Some(p) => InstanceV {
                class: i.class,
                parent: Some(Box::new(write_field(*p, name, value))),
                values: i.values,
            },
            None => i,
        }
    }
}

/// Whether the instance stores `name` at some level of its chain.
pub open spec fn instance_has_field(i: InstanceV, name: Seq<char>) -> bool
    decreases i,
{
    has_slot(i.values, name) || match i.parent {
        Some(p) => instance_has_field(*p, name),
        None => false,
    }
}

/// The full chain of a resolved class: the class itself, then its
/// ancestors child-to-root. `ancestor_fields` of this chain equals the
/// class's constructor parameters.
pub open spec fn full_chain(c: ClassV) -> Seq<DeclV> {
    seq![c.decl()] + c.ancestors
}

/// The slots of one class level, bound to the given values in field order.
pub open spec fn bind_values(fields: Seq<FieldV>, vals: Seq<Seq<char>>) -> Seq<FieldValueV> {
    Seq::new(fields.len(), |k: int| FieldValueV { name: fields[k].name, value: vals[k] })
}

/// The instance that the generated constructors build for `chain` from
/// argument list `args`, one value per parameter in parameter order: the
/// leading arguments are handed to the immediate parent's constructor to
/// fill the parent slot, the trailing ones fill the own slots.
pub open spec fn construct(chain: Seq<DeclV>, args: Seq<Seq<char>>) -> InstanceV
    decreases chain.len(),
{
    let own = chain[0].fields;
    let split = args.len() - own.len();
    InstanceV {
        class: chain[0].name,
        parent: if chain.len() > 1 {
            Some(Box::new(construct(chain.drop_first(), args.take(split))))
        } else {
            None
        },
        values: bind_values(own, args.skip(split)),
    }
}

/// Where `slot_value` finds its answer: when no slot before `i` is named
/// `name`, the walk's outcome is decided at `i`.
proof fn lemma_slot_value_at(values: Seq<FieldValueV>, name: Seq<char>, i: int)
    requires
        0 <= i <= values.len(),
        forall|k: int| 0 <= k < i ==> values[k].name != name,
    ensures
        i == values.len() ==> slot_value(values, name) == None::<Seq<char>>,
        i < values.len() && values[i].name == name ==> slot_value(values, name) == Some(
            values[i].value,
        ),
    decreases values.len(),
{
    if values.len() > 0 && i > 0 {
        lemma_slot_value_at(values.drop_first(), name, i - 1);
    }
}

/// A write lands on the first slot with the written name and leaves every
/// other name's answer alone; a slot list without the name is unchanged.
proof fn lemma_set_slot_props(values: Seq<FieldValueV>, name: Seq<char>, value: Seq<char>)
    ensures
        has_slot(values, name) ==> slot_value(set_slot(values, name, value), name) == Some(value),
        !has_slot(values, name) ==> set_slot(values, name, value) == values,
        forall|other: Seq<char>|
            other != name ==> #[trigger] slot_value(set_slot(values, name, value), other)
                == slot_value(values, other),
    decreases values.len(),
{
    if values.len() == 0 {
    } else if values[0].name == name {
        let t = seq![FieldValueV { name, value }] + values.drop_first();
        assert(t[0].name == name);
        assert(t.drop_first() =~= values.drop_first());
        assert forall|other: Seq<char>| other != name implies #[trigger] slot_value(
            set_slot(values, name, value),
            other,
        ) == slot_value(values, other) by {
            assert(slot_value(t, other) == slot_value(values.drop_first(), other));
        }
    } else {
        lemma_set_slot_props(values.drop_first(), name, value);
        let t = seq![values[0]] + set_slot(values.drop_first(), name, value);
        assert(t[0] == values[0]);
        assert(t.drop_first() =~= set_slot(values.drop_first(), name, value));
        if !has_slot(values, name) {
            assert(set_slot(values, name, value) =~= values);
        }
        assert forall|other: Seq<char>| other != name implies #[trigger] slot_value(
            set_slot(values, name, value),
            other,
        ) == slot_value(values, other) by {
            if values[0].name == other {
                assert(slot_value(t, other) == Some(t[0].value));
            } else {
                assert(slot_value(t, other) == slot_value(t.drop_first(), other));
            }
        }
    }
}

/// The written slot list is the original with exactly the first matching
/// slot replaced.
proof fn lemma_set_slot_at(values: Seq<FieldValueV>, name: Seq<char>, value: Seq<char>, i: int)
    requires
        0 <= i < values.len(),
        values[i].name == name,
        forall|k: int| 0 <= k < i ==> values[k].name != name,
    ensures
        set_slot(values, name, value) == values.update(i, FieldValueV { name, value }),
    decreases values.len(),
{
    if i == 0 {
        assert(seq![FieldValueV { name, value }] + values.drop_first() =~= values.update(
            0,
            FieldValueV { name, value },
        ));
    } else {
        lemma_set_slot_at(values.drop_first(), name, value, i - 1);
        assert(seq![values[0]] + values.drop_first().update(i - 1, FieldValueV { name, value })
            =~= values.update(i, FieldValueV { name, value }));
    }
}

/// The position of the first slot named `name`, if any.
fn find_slot(values: &Vec<FieldValue>, name: &String) -> (r: Option<usize>)
    ensures
        match r {
            Some(j) => j < values@.len() && values.deep_view()[j as int].name == name@ && forall|
                k: int,
            | 0 <= k < j ==> values.deep_view()[k].name != name@,
            None => forall|k: int| 0 <= k < values@.len() ==> values.deep_view()[k].name != name@,
        },
{
    let mut j: usize = 0;
    while j < values.len()
        invariant
            j <= values@.len(),
            forall|k: int| 0 <= k < j ==> values.deep_view()[k].name != name@,
        decreases values@.len() - j,
    {
        if values[j].name == *name {
            return Some(j);
        }
        j = j + 1;
    }
    None
}

impl Instance {
    /// What the generated getter for `name` returns on this instance: the
    /// own slot where this class stores the field, and otherwise whatever
    /// the generated delegating implementation gets from the parent slot.
    pub fn get(&self, name: &String) -> (r: Option<&String>)
        ensures
            r.deep_view() == read_field(self@, name@),
        decreases *self,
    {
        match find_slot(&self.values, name) {
            Some(j) => {
                proof {
                    lemma_slot_value_at(self@.values, name@, j as int);
                }
                Some(&self.values[j].value)
            },
            None => {
                proof {
                    lemma_slot_value_at(self@.values, name@, self.values@.len() as int);
                }
                match &self.parent {
                    Some(p) => p.get(name),
                    None => None,
                }
            },
        }
    }

    /// Apply the generated setter for `name`: overwrite the own slot where
    /// this class stores the field, and otherwise delegate the write to the
    /// parent slot. Returns whether any level stored the field; an instance
    /// without it is left unchanged.
    pub fn set(&mut self, name: &String, value: String) -> (found: bool)
        ensures
            final(self)@ == write_field(old(self)@, name@, value@),
            found == instance_has_field(old(self)@, name@),
        decreases *old(self),
    {
        match find_slot(&self.values, name) {
            Some(j) => {
                proof {
                    lemma_slot_value_at(old(self)@.values, name@, j as int);
                    lemma_set_slot_at(old(self)@.values, name@, value@, j as int);
                }
                let n = self.values[j].name.clone();
                self.values[j] = FieldValue { name: n, value };
                proof {
                    assert(self.values.deep_view() =~= set_slot(
                        old(self)@.values,
                        name@,
                        value@,
                    ));
                }
                true
            },
            None => {
                proof {
                    lemma_slot_value_at(old(self)@.values, name@, self.values@.len() as int);
                }
                match &mut self.parent {
                    Some(p) => {
                        let found = p.set(name, value);
                        found
                    },
                    None => false,
                }
            },
        }
    }
}

/// Bind registry-record fields to the argument values starting at `start`,
/// one slot each, in field order.
#[verifier::loop_isolation(false)]
fn bind_rec(fields: &Vec<RegField>, args: &Vec<String>, start: usize) -> (r: Vec<FieldValue>)
    requires
        start + fields@.len() <= args@.len(),
    ensures
        r.deep_view() == bind_values(
            fields.deep_view(),
            args.deep_view().subrange(start as int, start + fields@.len()),
        ),
{
    let nargs: usize = args.len();
    let mut out: Vec<FieldValue> = Vec::new();
    let mut j: usize = 0;
    while j < fields.len()
        invariant
            j <= fields@.len(),
            nargs == args@.len(),
            start + fields@.len() <= nargs,
            out@.len() == j,
            forall|k: int|
                0 <= k < j ==> out.deep_view()[k] == (FieldValueV {
                    name: fields.deep_view()[k].name,
                    value: args.deep_view()[start + k],
                }),
        decreases fields@.len() - j,
    {
        let fv = FieldValue { name: fields[j].name.clone(), value: args[start + j].clone() };
        let ghost prevdv = out.deep_view();
        let ghost fvv = fv@;
        out.push(fv);
        j = j + 1;
        proof {
            assert(out.deep_view() =~= prevdv.push(fvv));
        }
    }
    proof {
        assert(out.deep_view() =~= bind_values(
            fields.deep_view(),
            args.deep_view().subrange(start as int, start + fields@.len()),
        ));
    }
    out
}

/// Bind declared fields to the argument values starting at `start`, one
/// slot each, in field order.
#[verifier::loop_isolation(false)]
fn bind_own(fields: &Vec<Field>, args: &Vec<String>, start: usize) -> (r: Vec<FieldValue>)
    requires
        start + fields@.len() <= args@.len(),
    ensures
        r.deep_view() == bind_values(
            fields.deep_view(),
            args.deep_view().subrange(start as int, start + fields@.len()),
        ),
{
    let nargs: usize = args.len();
    let mut out: Vec<FieldValue> = Vec::new();
    let mut j: usize = 0;
    while j < fields.len()
        invariant
            j <= fields@.len(),
            nargs == args@.len(),
            start + fields@.len() <= nargs,
            out@.len() == j,
            forall|k: int|
                0 <= k < j ==> out.deep_view()[k] == (FieldValueV {
                    name: fields.deep_view()[k].name,
                    value: args.deep_view()[start + k],
                }),
        decreases fields@.len() - j,
    {
        let fv = FieldValue { name: fields[j].name.clone(), value: args[start + j].clone() };
        let ghost prevdv = out.deep_view();
        let ghost fvv = fv@;
        out.push(fv);
        j = j + 1;
        proof {
            assert(out.deep_view() =~= prevdv.push(fvv));
        }
    }
    proof {
        assert(out.deep_view() =~= bind_values(
            fields.deep_view(),
            args.deep_view().subrange(start as int, start + fields@.len()),
        ));
    }
    out
}

/// A later suffix of the chain contributes no more fields than the chain.
proof fn lemma_ancestor_fields_prefix_len(anc: Seq<DeclV>, t: int)
    requires
        0 <= t <= anc.len(),
    ensures
        ancestor_fields(anc.skip(t)).len() <= ancestor_fields(anc).len(),
    decreases t,
{
    if t > 0 {
        lemma_ancestor_fields_prefix_len(anc, t - 1);
        assert(anc.skip(t - 1).drop_first() =~= anc.skip(t));
        assert(ancestor_fields(anc.skip(t - 1)) == ancestor_fields(anc.skip(t)) + anc.skip(
            t - 1,
        )[0].fields);
    } else {
        assert(anc.skip(0) =~= anc);
    }
}

/// Build an instance of resolved class `c` from constructor arguments
/// `args`, exactly as the generated constructors do: the leading arguments
/// fill the ancestors' slots root-first, the trailing ones this class's
/// own slots.
#[verifier::loop_isolation(false)]
#[verifier::rlimit(40)]
pub fn construct_instance(c: &Class, args: &Vec<String>) -> (r: Instance)
    requires
        args.deep_view().len() == ctor_params(c@).len(),
    ensures
        r@ == construct(full_chain(c@), args.deep_view()),
{
    let ghost chain = full_chain(c@);
    let ghost av = args.deep_view();
    proof {
        assert(chain.drop_first() =~= c@.ancestors);
        assert(chain[0] == c@.decl());
        assert(ancestor_fields(chain) == ancestor_fields(c@.ancestors) + c@.fields);
        assert(ancestor_fields(chain).len() == av.len());
    }
    let n = c.ancestors.len();
    let nargs: usize = args.len();
    proof {
        assert(nargs == av.len());
    }
    let mut inst: Option<Box<Instance>> = None;
    let mut consumed: usize = 0;
    proof {
        assert(chain.skip(n as int + 1) =~= Seq::<DeclV>::empty());
    }
    let mut k: usize = 0;
    while k < n
        invariant
            k <= n,
            n == c.ancestors@.len(),
            consumed == ancestor_fields(chain.skip(n as int + 1 - k as int)).len(),
            consumed <= av.len(),
            match inst {
                Some(b) => k > 0 && b@ == construct(
                    chain.skip(n as int + 1 - k as int),
                    av.take(consumed as int),
                ),
                None => k == 0,
            },
        decreases n - k,
    {
        let idx = n - 1 - k;
        let ghost j = idx as int + 1;
        let a = &c.ancestors[idx];
        proof {
            assert(chain.skip(j).drop_first() =~= chain.skip(j + 1));
            assert(chain.skip(j)[0] == chain[j]);
            assert(chain[j] == c@.ancestors[j - 1]);
            assert(a.fields.deep_view() == chain[j].fields);
            lemma_ancestor_fields_prefix_len(chain, j);
            assert(ancestor_fields(chain.skip(j)) == ancestor_fields(chain.skip(j + 1))
                + chain[j].fields);
        }
        proof {
            assert(consumed + a.fields@.len() <= nargs);
        }
        let values = bind_rec(&a.fields, args, consumed);
        let prev = inst;
        let built = Instance { class: a.name.clone(), parent: prev, values };
        let ghost prev_consumed = consumed as int;
        consumed = consumed + a.fields.len();
        inst = Some(Box::new(built));
        k = k + 1;
        proof {
            let s = chain.skip(j);
            let taken = av.take(consumed as int);
            assert(taken.len() - s[0].fields.len() == prev_consumed);
            assert(taken.take(prev_consumed) =~= av.take(prev_consumed));
            assert(taken.skip(prev_consumed) =~= av.subrange(prev_consumed, consumed as int));
            assert(built@.values == bind_values(s[0].fields, taken.skip(prev_consumed)));
            assert(built@ == construct(s, taken));
        }
    }
    proof {
        assert(chain.skip(1) =~= c@.ancestors);
        assert(consumed == ancestor_fields(c@.ancestors).len());
        assert(consumed + c.fields@.len() == av.len());
    }
    let values = bind_own(&c.fields, args, consumed);
    let r = Instance { class: c.name.clone(), parent: inst, values };
    proof {
        assert(av.take(av.len() - chain[0].fields.len()) =~= av.take(consumed as int));
        assert(av.skip(consumed as int) =~= av.subrange(
            consumed as int,
            consumed as int + c.fields@.len(),
        ));
        assert(r@.values == bind_values(chain[0].fields, av.skip(consumed as int)));
        assert(r@ == construct(chain, av));
    }
    r
}

/// A field that reads back was stored at some level.
proof fn lemma_read_some_has_field(i: InstanceV, name: Seq<char>)
    requires
        read_field(i, name) is Some,
    ensures
        instance_has_field(i, name),
    decreases i,
{
    if !has_slot(i.values, name) {
        match i.parent {
            Some(p) => lemma_read_some_has_field(*p, name),
            None => {},
        }
    }
}

/// Law: writing a stored field through the generated setters and reading it
/// back through the generated getters returns the written value — at any
/// depth of delegation, and in particular for a class with no parent.
pub proof fn lemma_write_read_round_trip(i: InstanceV, name: Seq<char>, value: Seq<char>)
    requires
        instance_has_field(i, name),
    ensures
        read_field(write_field(i, name, value), name) == Some(value),
    decreases i,
{
    lemma_set_slot_props(i.values, name, value);
    if !has_slot(i.values, name) {
        match i.parent {
            Some(p) => lemma_write_read_round_trip(*p, name, value),
            None => {},
        }
    }
}

/// Law: writing one field leaves every other field's readout unchanged.
pub proof fn lemma_write_preserves_others(
    i: InstanceV,
    name: Seq<char>,
    value: Seq<char>,
    other: Seq<char>,
)
    requires
        other != name,
    ensures
        read_field(write_field(i, name, value), other) == read_field(i, other),
    decreases i,
{
    lemma_set_slot_props(i.values, name, value);
    if !has_slot(i.values, name) {
        match i.parent {
            Some(p) => lemma_write_preserves_others(*p, name, value, other),
            None => {},
        }
    }
}

/// Law: the generated constructor routes each argument to the field it
/// names — reading chain parameter `j`'s field back through the generated
/// accessors returns argument `j`. Field names must not collide along the
/// chain (a collision is an unvalidated caller error).
pub proof fn lemma_construct_read(chain: Seq<DeclV>, args: Seq<Seq<char>>, j: int)
    requires
        chain.len() > 0,
        args.len() == ancestor_fields(chain).len(),
        field_names(ancestor_fields(chain)).no_duplicates(),
        0 <= j < args.len(),
    ensures
        read_field(construct(chain, args), ancestor_fields(chain)[j].name) == Some(args[j]),
    decreases chain.len(),
{
    let own = chain[0].fields;
    let rest = chain.drop_first();
    let prefix = ancestor_fields(rest);
    let split = prefix.len() as int;
    assert(ancestor_fields(chain) == prefix + own);
    let inst = construct(chain, args);
    let name = ancestor_fields(chain)[j].name;
    let vals = args.skip(split);
    assert(inst.values == bind_values(own, vals));
    if j >= split {
        let t = j - split;
        assert forall|k: int| 0 <= k < t implies inst.values[k].name != name by {
            assert(field_names(ancestor_fields(chain))[split + k] != field_names(
                ancestor_fields(chain),
            )[j]);
        }
        assert(inst.values[t].name == name);
        lemma_slot_value_at(inst.values, name, t);
        assert(vals[t] == args[j]);
    } else {
        assert forall|k: int| 0 <= k < own.len() implies inst.values[k].name != name by {
            assert(field_names(ancestor_fields(chain))[split + k] != field_names(
                ancestor_fields(chain),
            )[j]);
        }
        lemma_slot_value_at(inst.values, name, own.len() as int);
        assert(rest.len() > 0);
        let sub = args.take(split);
        assert(field_names(prefix).no_duplicates()) by {
            assert forall|x: int, y: int|
                0 <= x < split && 0 <= y < split && x != y implies field_names(prefix)[x]
                != field_names(prefix)[y] by {
                assert(field_names(ancestor_fields(chain))[x] != field_names(
                    ancestor_fields(chain),
                )[y]);
            }
        }
        lemma_construct_read(rest, sub, j);
        assert(prefix[j] == ancestor_fields(chain)[j]);
        assert(sub[j] == args[j]);
    }
}

/// The constructor parameters of a resolved class are the fields of its
/// full chain.
pub proof fn lemma_ctor_params_full_chain(c: ClassV)
    ensures
        ancestor_fields(full_chain(c)) == ctor_params(c),
{
    assert(full_chain(c).drop_first() =~= c.ancestors);
    assert(full_chain(c)[0] == c.decl());
    assert(ancestor_fields(full_chain(c)) == ancestor_fields(c.ancestors) + c.fields);
}

/// Law: an instance built by the generated constructor answers every
/// accessor with the argument in that field's position — own accessors
/// return the trailing arguments, and the delegated accessors of each
/// ancestor level return the earlier ones.
pub proof fn lemma_constructor_routes_arguments(c: ClassV, args: Seq<Seq<char>>, j: int)
    requires
        args.len() == ctor_params(c).len(),
        field_names(ctor_params(c)).no_duplicates(),
        0 <= j < args.len(),
    ensures
        read_field(construct(full_chain(c), args), ctor_params(c)[j].name) == Some(args[j]),
{
    lemma_ctor_params_full_chain(c);
    lemma_construct_read(full_chain(c), args, j);
}

/// The parameters of a chain suffix are a prefix of the chain's
/// parameters: the ancestors' fields come first.
proof fn lemma_suffix_params_prefix(chain: Seq<DeclV>, t: int)
    requires
        0 <= t <= chain.len(),
    ensures
        ancestor_fields(chain.skip(t)).len() <= ancestor_fields(chain).len(),
        ancestor_fields(chain.skip(t)) == ancestor_fields(chain).take(
            ancestor_fields(chain.skip(t)).len() as int,
        ),
    decreases t,
{
    if t == 0 {
        assert(chain.skip(0) =~= chain);
        assert(ancestor_fields(chain).take(ancestor_fields(chain).len() as int)
            =~= ancestor_fields(chain));
    } else {
        lemma_suffix_params_prefix(chain, t - 1);
        assert(chain.skip(t - 1).drop_first() =~= chain.skip(t));
        let a = ancestor_fields(chain.skip(t));
        let b = ancestor_fields(chain.skip(t - 1));
        assert(b == a + chain.skip(t - 1)[0].fields);
        assert(a =~= b.take(a.len() as int));
        assert(ancestor_fields(chain).take(b.len() as int).take(a.len() as int)
            =~= ancestor_fields(chain).take(a.len() as int));
    }
}

/// Law: setting an inherited field through the delegating setter and
/// reading it back through the delegating getter returns the value — the
/// same value that constructing the owning ancestor level directly with
/// that value yields. Delegation is semantically transparent.
pub proof fn lemma_delegation_transparent(
    chain: Seq<DeclV>,
    args: Seq<Seq<char>>,
    a: int,
    j: int,
    value: Seq<char>,
)
    requires
        1 <= a < chain.len(),
        args.len() == ancestor_fields(chain).len(),
        field_names(ancestor_fields(chain)).no_duplicates(),
        0 <= j < ancestor_fields(chain.skip(a)).len(),
    ensures
        ({
            let name = ancestor_fields(chain)[j].name;
            let through_child = read_field(
                write_field(construct(chain, args), name, value),
                name,
            );
            let directly = read_field(
                construct(
                    chain.skip(a),
                    args.take(ancestor_fields(chain.skip(a)).len() as int).update(j, value),
                ),
                name,
            );
            through_child == Some(value) && directly == through_child
        }),
{
    lemma_suffix_params_prefix(chain, a);
    let la = ancestor_fields(chain.skip(a)).len() as int;
    let name = ancestor_fields(chain)[j].name;
    lemma_construct_read(chain, args, j);
    lemma_read_some_has_field(construct(chain, args), name);
    lemma_write_read_round_trip(construct(chain, args), name, value);
    let sub = chain.skip(a);
    let subargs = args.take(la).update(j, value);
    assert(field_names(ancestor_fields(sub)).no_duplicates()) by {
        assert forall|x: int, y: int|
            0 <= x < la && 0 <= y < la && x != y implies field_names(ancestor_fields(sub))[x]
            != field_names(ancestor_fields(sub))[y] by {
            assert(ancestor_fields(sub)[x] == ancestor_fields(chain)[x]);
            assert(ancestor_fields(sub)[y] == ancestor_fields(chain)[y]);
            assert(field_names(ancestor_fields(chain))[x] != field_names(
                ancestor_fields(chain),
            )[y]);
        }
    }
    assert(ancestor_fields(sub)[j].name == name);
    lemma_construct_read(sub, subargs, j);
    assert(subargs[j] == value);
}

} // verus!
