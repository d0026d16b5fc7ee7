//! The static per-method table that describes each exposed parameter to the
//! argument binder.
use vstd::prelude::*;
use crate::signature::{
    MethodSig, Param, classify_spec, exposed_positions, input_name, input_payload,
    lemma_params_follow_inputs, lemma_supported_classifies, supported_sig, FnInput,
    classify_prefix, supported_input, payload_of, ArgPattern,
};

verus! {

/// A parameter as the argument binder sees it: its keyword name and whether
/// a call may leave it out.
#[derive(Clone, Debug, PartialEq, Eq)]
pub struct ArgDescriptor {
    pub name: String,
    pub is_optional: bool,
}

/// The descriptor of one exposed parameter.
pub open spec fn descriptor_of(p: Param) -> ArgDescriptor {
    ArgDescriptor { name: p.name, is_optional: p.payload is Some }
}

/// The descriptor table of a parameter list: one entry per parameter, in order.
pub open spec fn table_spec(ps: Seq<Param>) -> Seq<ArgDescriptor> {
    ps.map_values(|p: Param| descriptor_of(p))
}

/// Builds the descriptor table of the exposed parameters of a method.
pub fn descriptor_table(params: &Vec<Param>) -> (r: Vec<ArgDescriptor>)
    ensures
        r@ == table_spec(params@),
{
    let mut out: Vec<ArgDescriptor> = Vec::new();
    let mut i: usize = 0;
    while i < params.len()
        invariant
            0 <= i <= params@.len(),
            out@ == table_spec(params@.subrange(0, i as int)),
        decreases params@.len() - i,
    {
        let p = &params[i];
        let d = ArgDescriptor { name: p.name.clone(), is_optional: p.payload.is_some() };
        out.push(d);
        proof {
            assert(params@.subrange(0, i + 1) == params@.subrange(0, i as int).push(params@[i as int]));
        }
        i = i + 1;
    }
    proof {
        assert(params@.subrange(0, params@.len() as int) == params@);
    }
    out
}

/// For every declaration that classifies, the descriptor table has one entry
/// per exposed input (the receiver and the context input left out), in
/// declaration order, each under the input's name and marked optional exactly
/// when the input's type is an optional wrapper.
pub proof fn lemma_table_matches_exposed_inputs(sig: MethodSig)
    requires
        sig.inputs@.len() <= usize::MAX,
        classify_spec(sig) is Ok,
    ensures
        ({
            let t = table_spec(classify_spec(sig)->Ok_0);
            let e = exposed_positions(sig.inputs@);
            &&& t.len() == e.len()
            &&& forall|j: int|
                0 <= j < t.len() ==> {
                    &&& input_name(sig.inputs@[e[j]]) == Some(t[j].name)
                    &&& t[j].is_optional == (input_payload(sig.inputs@[e[j]]) is Some)
                }
        }),
{
    lemma_params_follow_inputs(sig);
}

/// Every declaration of a supported shape classifies, and its descriptor
/// table has one entry per exposed input, in declaration order, under the
/// input's name and marked optional exactly for an optional wrapper type.
pub proof fn lemma_supported_table(sig: MethodSig)
    requires
        sig.inputs@.len() <= usize::MAX,
        supported_sig(sig),
    ensures
        classify_spec(sig) is Ok,
        ({
            let t = table_spec(classify_spec(sig)->Ok_0);
            let e = exposed_positions(sig.inputs@);
            &&& t.len() == e.len()
            &&& forall|j: int|
                0 <= j < t.len() ==> {
                    &&& input_name(sig.inputs@[e[j]]) == Some(t[j].name)
                    &&& t[j].is_optional == (input_payload(sig.inputs@[e[j]]) is Some)
                }
        }),
{
    lemma_supported_classifies(sig);
    lemma_table_matches_exposed_inputs(sig);
}

/// The first `n` inputs without the receivers.
pub open spec fn strip_receivers(inputs: Seq<FnInput>, n: int) -> Seq<FnInput>
    decreases n,
{
    if n <= 0 {
        Seq::empty()
    } else if inputs[n - 1] is SelfRef || inputs[n - 1] is SelfValue {
        strip_receivers(inputs, n - 1)
    } else {
        strip_receivers(inputs, n - 1).push(inputs[n - 1])
    }
}

proof fn lemma_prefix_of_longer(s: Seq<FnInput>, x: FnInput, k: int)
    requires
        0 <= k <= s.len(),
    ensures
        classify_prefix(s.push(x), k) == classify_prefix(s, k),
    decreases k,
{
    if k > 0 {
        lemma_prefix_of_longer(s, x, k - 1);
        assert(s.push(x)[k - 1] == s[k - 1]);
    }
}

proof fn lemma_table_push(ps: Seq<Param>, p: Param)
    ensures
        table_spec(ps.push(p)) == table_spec(ps).push(descriptor_of(p)),
{
    assert(table_spec(ps.push(p)) =~= table_spec(ps).push(descriptor_of(p)));
}

proof fn lemma_strip_same_table(inputs: Seq<FnInput>, n: int)
    requires
        0 <= n <= inputs.len(),
        forall|i: int| 0 <= i < inputs.len() ==> supported_input(#[trigger] inputs[i]),
    ensures
        ({
            let st = strip_receivers(inputs, n);
            let a = classify_prefix(inputs, n);
            let b = classify_prefix(st, st.len() as int);
            &&& forall|i: int| 0 <= i < st.len() ==> supported_input(#[trigger] st[i])
            &&& a is Ok && b is Ok
            &&& table_spec(a->Ok_0.0) == table_spec(b->Ok_0.0)
            &&& a->Ok_0.1 == b->Ok_0.1
        }),
    decreases n,
{
    if n > 0 {
        lemma_strip_same_table(inputs, n - 1);
        let x = inputs[n - 1];
        assert(supported_input(x));
        let s0 = strip_receivers(inputs, n - 1);
        if !(x is SelfRef || x is SelfValue) {
            let st = s0.push(x);
            assert(strip_receivers(inputs, n) == st);
            lemma_prefix_of_longer(s0, x, s0.len() as int);
            assert(st[st.len() - 1] == x);
            assert forall|i: int| 0 <= i < st.len() implies supported_input(#[trigger] st[i]) by {
                if i < s0.len() {
                    assert(st[i] == s0[i]);
                }
            }
            let (pa, sa) = classify_prefix(inputs, n - 1)->Ok_0;
            let (pb, sb) = classify_prefix(s0, s0.len() as int)->Ok_0;
            if let FnInput::Captured { pattern, ty } = x {
                if let ArgPattern::Ident(nm) = pattern {
                    if sa {
                        lemma_table_push(pa, Param { name: nm, input: (n - 1) as usize, payload: payload_of(ty) });
                        lemma_table_push(pb, Param { name: nm, input: s0.len() as usize, payload: payload_of(ty) });
                    }
                }
            }
        }
    }
}

/// Receivers do not count: two declarations of a supported shape whose
/// inputs are the same once the receivers are left out, wherever these stand,
/// have the same descriptor table.
pub proof fn lemma_receivers_do_not_matter(a: MethodSig, b: MethodSig)
    requires
        supported_sig(a),
        supported_sig(b),
        strip_receivers(a.inputs@, a.inputs@.len() as int) == strip_receivers(
            b.inputs@,
            b.inputs@.len() as int,
        ),
    ensures
        classify_spec(a) is Ok,
        classify_spec(b) is Ok,
        table_spec(classify_spec(a)->Ok_0) == table_spec(classify_spec(b)->Ok_0),
{
    lemma_strip_same_table(a.inputs@, a.inputs@.len() as int);
    lemma_strip_same_table(b.inputs@, b.inputs@.len() as int);
}

} // verus!
