//! The definition under which a bridged method is registered with the host
//! runtime: its name, its exposed parameters, its descriptor table and its
//! calling-convention flags.
use vstd::prelude::*;
use crate::descriptor::{ArgDescriptor, descriptor_table, table_spec};
use crate::signature::{MethodSig, Param, SignatureError, classify_signature, classify_spec};

verus! {

/// The entry point takes a tuple of positional arguments.
pub const METH_VARARGS: u32 = 1;

/// The entry point also takes a mapping of keyword arguments.
pub const METH_KEYWORDS: u32 = 2;

/// A method as registered with the host runtime.
#[derive(Clone, Debug, PartialEq, Eq)]
pub struct MethodDef {
    /// The name the method is registered under.
    pub ml_name: String,
    /// The calling-convention flags.
    pub ml_flags: u32,
    /// The exposed parameters, in declaration order.
    pub params: Vec<Param>,
    /// The descriptor table the entry point binds against.
    pub descriptors: Vec<ArgDescriptor>,
}

/// Classifies a method declaration and builds its registration: the entry
/// point is registered under the method's own name, takes positional and
/// keyword arguments, and binds against the table of its exposed parameters.
pub fn gen_py_method(sig: &MethodSig) -> (r: Result<MethodDef, SignatureError>)
    ensures
        match r {
            Ok(d) => {
                &&& classify_spec(*sig) == Ok::<Seq<Param>, SignatureError>(d.params@)
                &&& d.descriptors@ == table_spec(d.params@)
                &&& d.ml_name@ == sig.name@
                &&& d.ml_flags == (METH_VARARGS | METH_KEYWORDS)
            },
            Err(e) => classify_spec(*sig) == Err::<Seq<Param>, SignatureError>(e),
        },
{
    match classify_signature(sig) {
        Err(e) => Err(e),
        Ok(params) => {
            let descriptors = descriptor_table(&params);
            Ok(
                MethodDef {
                    ml_name: sig.name.clone(),
                    ml_flags: METH_VARARGS | METH_KEYWORDS,
                    params,
                    descriptors,
                },
            )
        },
    }
}

} // verus!
