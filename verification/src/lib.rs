//! Class-schema compiler core: declarative class descriptions with
//! single-parent inheritance are resolved against a name-keyed registry and
//! compiled into structural instructions for composition-based code —
//! storage layout, constructor, one capability interface per class, and
//! delegating implementations of every ancestor's interface.
//!
//! Rendering those instructions to host-language text, and parsing raw
//! declaration text into [`declare::Declarations`], are left to the caller.

pub mod class;
pub mod declare;
pub mod emit;
pub mod field;
pub mod registry;
pub mod semantics;

use vstd::prelude::*;

use crate::class::{Class, DeclV, ResolveError, ResolveErrorV};
use crate::declare::{batch_spec, Declarations};
use crate::emit::{ClassCode, ClassCodeV};
use crate::registry::Registry;

verus! {

/// `r` with `pre` prepended to its generated code on success.
spec fn prepend_codes(pre: Seq<ClassCodeV>, r: Result<Seq<ClassCodeV>, ResolveErrorV>) -> Result<
    Seq<ClassCodeV>,
    ResolveErrorV,
> {
    match r {
        Ok(codes) => Ok(pre + codes),
        Err(e) => Err(e),
    }
}

/// Process an ordered batch of declarations: resolve and register each one
/// before moving to the next — so a later declaration may extend an earlier
/// one from the same batch — and generate code for each. On the first
/// declaration that fails to resolve, processing stops: the error is
/// returned, no code at all is produced, and nothing further is registered.
#[verifier::loop_isolation(false)]
pub fn declare(decls: &Declarations, registry: &mut Registry) -> (r: Result<
    Vec<ClassCode>,
    ResolveError,
>)
    requires
        old(registry).wf(),
    ensures
        final(registry).wf(),
        final(registry)@ == batch_spec(old(registry)@, decls@).1,
        match r {
            Ok(codes) => batch_spec(old(registry)@, decls@).0 == Ok::<
                Seq<ClassCodeV>,
                ResolveErrorV,
            >(codes.deep_view()),
            Err(e) => batch_spec(old(registry)@, decls@).0 == Err::<
                Seq<ClassCodeV>,
                ResolveErrorV,
            >(e@),
        },
{
    let ghost m0 = registry@;
    let ghost dv = decls@;
    let mut out: Vec<ClassCode> = Vec::new();
    proof {
        assert(dv.skip(0) =~= dv);
        match batch_spec(registry@, dv).0 {
            Ok(codes) => {
                assert(out.deep_view() + codes =~= codes);
            },
            Err(_) => {},
        }
    }
    let mut i: usize = 0;
    while i < decls.classes.len()
        invariant
            i <= decls.classes@.len(),
            registry.wf(),
            batch_spec(m0, dv).0 == prepend_codes(
                out.deep_view(),
                batch_spec(registry@, dv.skip(i as int)).0,
            ),
            batch_spec(m0, dv).1 == batch_spec(registry@, dv.skip(i as int)).1,
        decreases decls.classes@.len() - i,
    {
        let d = decls.classes[i].clone();
        let ghost suffix = dv.skip(i as int);
        proof {
            assert(suffix[0] == dv[i as int]);
            assert(suffix.drop_first() =~= dv.skip(i as int + 1));
        }
        match Class::new(d.name, d.parent, d.fields, registry) {
            Err(e) => {
                return Err(e);
            },
            Ok(c) => {
                let code = c.generate();
                let ghost prevdv = out.deep_view();
                let ghost codev = code@;
                out.push(code);
                proof {
                    assert(out.deep_view() =~= prevdv.push(codev));
                    match batch_spec(registry@, dv.skip(i as int + 1)).0 {
                        Ok(codes) => {
                            assert(prevdv.push(codev) + codes =~= prevdv + (seq![codev] + codes));
                        },
                        Err(_) => {},
                    }
                }
            },
        }
        i = i + 1;
    }
    proof {
        assert(dv.skip(dv.len() as int) =~= Seq::<DeclV>::empty());
        assert(out.deep_view() + Seq::<ClassCodeV>::empty() =~= out.deep_view());
    }
    Ok(out)
}

} // verus!
