use vstd::prelude::*;

use crate::class::{resolve_chain_spec, ClassDecl, ClassV, DeclV, ResolveErrorV};
use crate::emit::{class_code_of, ClassCodeV};

verus! {

/// An ordered batch of class declarations found together in one source
/// unit, as handed over by the parser.
pub struct Declarations {
    pub classes: Vec<ClassDecl>,
}

impl View for Declarations {
    type V = Seq<DeclV>;

    open spec fn view(&self) -> Seq<DeclV> {
        self.classes.deep_view()
    }
}

/// The resolved class built from declaration `d` and ancestor chain
/// `chain`.
pub open spec fn resolved_class(d: DeclV, chain: Seq<DeclV>) -> ClassV {
    ClassV { name: d.name, parent: d.parent, fields: d.fields, ancestors: chain }
}

/// Sequential batch processing over registry `m`: each declaration is
/// resolved against the registry as its predecessors left it, then
/// registered under its name, so a later declaration may extend an earlier
/// one from the same batch. On the first failure processing stops and
/// nothing further is registered. Returns the outcome — one generated code
/// bundle per class, or the first error — paired with the final registry.
pub open spec fn batch_spec(m: Map<Seq<char>, DeclV>, decls: Seq<DeclV>) -> (Result<
    Seq<ClassCodeV>,
    ResolveErrorV,
>, Map<Seq<char>, DeclV>)
    decreases decls.len(),
{
    if decls.len() == 0 {
        (Ok(Seq::empty()), m)
    } else {
        let d = decls[0];
        match resolve_chain_spec(m, d.parent) {
            Err(e) => (Err(e), m),
            Ok(chain) => {
                let rest = batch_spec(m.insert(d.name, d), decls.drop_first());
                match rest.0 {
                    Ok(codes) => (
                        Ok(seq![class_code_of(resolved_class(d, chain))] + codes),
                        rest.1,
                    ),
                    Err(e) => (Err(e), rest.1),
                }
            },
        }
    }
}

} // verus!
