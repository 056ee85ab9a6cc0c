//! What the embedder supplies: the bodies of host functions.

use vstd::prelude::*;
use crate::address::ModuleIndex;
use crate::func::FuncType;
use crate::global::GlobalInstance;
use crate::memory::MemoryInstance;
use crate::store::Store;
use crate::table::DefinedTableInstance;
use crate::value::Value;

verus! {

/// A host function failed.
#[derive(Clone, Copy, Debug, PartialEq, Eq, Structural)]
pub struct HostError;

/// The body of a host function.
///
/// `call` receives the arguments, a vector to append the results to, the
/// store, and the module that makes the call. Nothing is assumed of what it
/// does: the executor checks the number of results that it finds afterwards.
pub trait HostFuncBody: Sized {
    fn call(
        &self,
        args: &[Value],
        results: &mut Vec<Value>,
        store: &mut Store<Self>,
        module_index: ModuleIndex,
    ) -> (r: Result<(), HostError>);
}

/// Whether `outcome` is what a call of the host function `code` can give
/// that is made for module `module` with the arguments `args`, an empty
/// vector `left` for the results, and a store `given` that holds `store`.
/// What the call leaves in `left` and in `given` is what they hold after it.
pub open spec fn host_call<H: HostFuncBody>(
    code: H,
    handed: &[Value],
    left: &mut Vec<Value>,
    given: &mut Store<H>,
    module: ModuleIndex,
    outcome: Result<(), HostError>,
    args: Seq<Value>,
    store: Store<H>,
) -> bool {
    &&& call_ensures(H::call, (&code, handed, left, given, module), outcome)
    &&& handed@ == args
    &&& mut_ref_current(left)@ == Seq::<Value>::empty()
    &&& mut_ref_current(given) == store
}

/// Every call of a host function with the arguments `args`, an empty vector
/// and a store that holds `store` is a `host_call` on them.
pub proof fn lemma_host_call<H: HostFuncBody>(args: Seq<Value>, store: Store<H>)
    ensures
        forall|
            code: H,
            handed: &[Value],
            left: &mut Vec<Value>,
            given: &mut Store<H>,
            module: ModuleIndex,
            outcome: Result<(), HostError>,
        |
            #[trigger] call_ensures(H::call, (&code, handed, left, given, module), outcome) && handed@
                == args && mut_ref_current(left)@ == Seq::<Value>::empty() && mut_ref_current(given)
                == store ==> host_call(code, handed, left, given, module, outcome, args, store),
{
}

/// One thing that a host module exports.
pub enum HostValue<H> {
    Func(FuncType, H),
    Global(GlobalInstance),
    Mem(MemoryInstance),
    Table(DefinedTableInstance),
}

} // verus!
