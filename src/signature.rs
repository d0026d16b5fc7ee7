//! Classification of a method declaration into the parameters that the
//! host runtime sees.
//!
//! A declaration is described with plain values: the method's name, whether it
//! declares type parameters, and its inputs in order. The classifier keeps the
//! receiver out of the exposed list, reserves the first other input as the
//! interpreter context, and classifies each remaining input as required or
//! optional (`Option<T>`, whose payload type `T` is recorded).
use vstd::prelude::*;

verus! {

/// Generic arguments written on the last segment of a type path.
#[derive(Clone, Debug, PartialEq, Eq)]
pub enum TypeParams {
    /// `<A, B, ..>`; a segment written without arguments has an empty list.
    AngleBracketed(Vec<String>),
    /// `(A, B) -> C`, as in `Fn(A) -> B`.
    Parenthesized,
}

/// One segment of a type path, such as `Option<u32>` in `std::option::Option<u32>`.
#[derive(Clone, Debug, PartialEq, Eq)]
pub struct PathSegment {
    pub ident: String,
    pub parameters: TypeParams,
}

/// The declared type of an input.
#[derive(Clone, Debug, PartialEq, Eq)]
pub enum DeclaredType {
    /// A path type; `qualified_self` is set for `<T as Trait>::Name`.
    Path { qualified_self: bool, segments: Vec<PathSegment> },
    /// Any type that is not a path (a reference, a tuple, a slice, ...).
    Other,
}

/// The pattern that binds an input.
#[derive(Clone, Debug, PartialEq, Eq)]
pub enum ArgPattern {
    /// A plain name, such as `x` or `mut x`.
    Ident(String),
    /// A destructuring or other pattern.
    Other,
}

/// One input of a method declaration.
#[derive(Clone, Debug, PartialEq, Eq)]
pub enum FnInput {
    /// `&self` or `&mut self`.
    SelfRef,
    /// `self`.
    SelfValue,
    /// `pattern: type`.
    Captured { pattern: ArgPattern, ty: DeclaredType },
    /// An input without a pattern.
    Ignored,
}

/// A method declaration.
#[derive(Clone, Debug, PartialEq, Eq)]
pub struct MethodSig {
    pub name: String,
    pub has_type_params: bool,
    pub inputs: Vec<FnInput>,
}

/// An exposed parameter: its name, the position of its input in the
/// declaration, and the payload type when it is optional.
#[derive(Clone, Debug, PartialEq, Eq)]
pub struct Param {
    pub name: String,
    pub input: usize,
    pub payload: Option<String>,
}

/// What is wrong with a declared type.
#[derive(PartialEq, Eq, Structural, Clone, Copy, Debug)]
pub enum TypeFault {
    /// A path with an explicit `Self` qualifier.
    QualifiedSelf,
    /// A type of a shape that cannot be converted from a host value.
    Unsupported,
}

/// Why a method declaration cannot be exposed; `input` is the position of
/// the offending input.
#[derive(PartialEq, Eq, Structural, Clone, Copy, Debug)]
pub enum SignatureError {
    GenericMethod,
    UnsupportedPattern { input: usize },
    IgnoredArgument { input: usize },
    QualifiedSelfType { input: usize },
    UnsupportedType { input: usize },
}

/// Whether a segment names the optional wrapper.
pub open spec fn is_option_ident(s: Seq<char>) -> bool {
    s == "Option"@
}

/// The fault of a declared type, if any.
pub open spec fn type_fault(ty: DeclaredType) -> Option<TypeFault> {
    match ty {
        DeclaredType::Other => Some(TypeFault::Unsupported),
        DeclaredType::Path { qualified_self, segments } => {
            if qualified_self {
                Some(TypeFault::QualifiedSelf)
            } else if segments@.len() > 0 && is_option_ident(segments@.last().ident@) {
                match segments@.last().parameters {
                    TypeParams::AngleBracketed(ts) => if ts@.len() == 1 {
                        None
                    } else {
                        Some(TypeFault::Unsupported)
                    },
                    TypeParams::Parenthesized => Some(TypeFault::Unsupported),
                }
            } else {
                None
            }
        },
    }
}

/// The payload type of a supported declared type: `Some(T)` for `Option<T>`,
/// `None` for a required type.
pub open spec fn payload_of(ty: DeclaredType) -> Option<String> {
    match ty {
        DeclaredType::Path { qualified_self, segments } => {
            if !qualified_self && segments@.len() > 0 && is_option_ident(
                segments@.last().ident@,
            ) {
                match segments@.last().parameters {
                    TypeParams::AngleBracketed(ts) => if ts@.len() == 1 {
                        Some(ts@[0])
                    } else {
                        None
                    },
                    TypeParams::Parenthesized => None,
                }
            } else {
                None
            }
        },
        DeclaredType::Other => None,
    }
}

/// Classifies a declared type: `Ok(Some(payload))` for an optional type,
/// `Ok(None)` for a required one, or its fault.
pub fn classify_type(ty: &DeclaredType) -> (r: Result<Option<String>, TypeFault>)
    ensures
        r == (match type_fault(*ty) {
            Some(f) => Err(f),
            None => Ok(payload_of(*ty)),
        }),
{
    match ty {
        DeclaredType::Other => Err(TypeFault::Unsupported),
        DeclaredType::Path { qualified_self, segments } => {
            if *qualified_self {
                return Err(TypeFault::QualifiedSelf);
            }
            if segments.len() == 0 {
                return Ok(None);
            }
            let last = &segments[segments.len() - 1];
            let option_name = String::from_str("Option");
            if last.ident != option_name {
                return Ok(None);
            }
            match &last.parameters {
                TypeParams::AngleBracketed(ts) => {
                    if ts.len() == 1 {
                        Ok(Some(ts[0].clone()))
                    } else {
                        Err(TypeFault::Unsupported)
                    }
                },
                TypeParams::Parenthesized => Err(TypeFault::Unsupported),
            }
        },
    }
}

/// The effect of one input on the classification so far: `ps` holds the
/// exposed parameters found before it, `seen` whether the context input has
/// been passed.
pub open spec fn classify_step(
    input: FnInput,
    i: int,
    ps: Seq<Param>,
    seen: bool,
) -> Result<(Seq<Param>, bool), SignatureError> {
    match input {
        FnInput::SelfRef => Ok((ps, seen)),
        FnInput::SelfValue => Ok((ps, seen)),
        FnInput::Ignored => Err(SignatureError::IgnoredArgument { input: i as usize }),
        FnInput::Captured { pattern, ty } => match pattern {
            ArgPattern::Other => Err(SignatureError::UnsupportedPattern { input: i as usize }),
            ArgPattern::Ident(n) => if !seen {
                Ok((ps, true))
            } else {
                match type_fault(ty) {
                    Some(TypeFault::QualifiedSelf) => Err(
                        SignatureError::QualifiedSelfType { input: i as usize },
                    ),
                    Some(TypeFault::Unsupported) => Err(
                        SignatureError::UnsupportedType { input: i as usize },
                    ),
                    None => Ok(
                        (ps.push(Param { name: n, input: i as usize, payload: payload_of(ty) }), seen),
                    ),
                }
            },
        },
    }
}

/// Classification of the first `n` inputs: the exposed parameters among them
/// and whether the context input was among them, or the first error.
pub open spec fn classify_prefix(inputs: Seq<FnInput>, n: int) -> Result<
    (Seq<Param>, bool),
    SignatureError,
>
    decreases n,
{
    if n <= 0 {
        Ok((Seq::empty(), false))
    } else {
        match classify_prefix(inputs, n - 1) {
            Err(e) => Err(e),
            Ok((ps, seen)) => classify_step(inputs[n - 1], n - 1, ps, seen),
        }
    }
}

/// The classification of a whole method declaration.
pub open spec fn classify_spec(sig: MethodSig) -> Result<Seq<Param>, SignatureError> {
    if sig.has_type_params {
        Err(SignatureError::GenericMethod)
    } else {
        match classify_prefix(sig.inputs@, sig.inputs@.len() as int) {
            Ok((ps, _)) => Ok(ps),
            Err(e) => Err(e),
        }
    }
}

proof fn lemma_error_persists(inputs: Seq<FnInput>, n: int, m: int)
    requires
        0 <= n <= m,
        classify_prefix(inputs, n) is Err,
    ensures
        classify_prefix(inputs, m) == classify_prefix(inputs, n),
    decreases m - n,
{
    if n < m {
        lemma_error_persists(inputs, n, m - 1);
    }
}

/// Classifies a method declaration into its exposed parameters, in order.
pub fn classify_signature(sig: &MethodSig) -> (r: Result<Vec<Param>, SignatureError>)
    ensures
        match r {
            Ok(ps) => classify_spec(*sig) == Ok::<Seq<Param>, SignatureError>(ps@),
            Err(e) => classify_spec(*sig) == Err::<Seq<Param>, SignatureError>(e),
        },
{
    if sig.has_type_params {
        return Err(SignatureError::GenericMethod);
    }
    let mut out: Vec<Param> = Vec::new();
    let mut seen: bool = false;
    let mut i: usize = 0;
    while i < sig.inputs.len()
        invariant
            0 <= i <= sig.inputs@.len(),
            !sig.has_type_params,
            classify_prefix(sig.inputs@, i as int) == Ok::<(Seq<Param>, bool), SignatureError>(
                (out@, seen),
            ),
        decreases sig.inputs@.len() - i,
    {
        let mut fault: Option<SignatureError> = None;
        match &sig.inputs[i] {
            FnInput::SelfRef => {},
            FnInput::SelfValue => {},
            FnInput::Ignored => {
                fault = Some(SignatureError::IgnoredArgument { input: i });
            },
            FnInput::Captured { pattern, ty } => match pattern {
                ArgPattern::Other => {
                    fault = Some(SignatureError::UnsupportedPattern { input: i });
                },
                ArgPattern::Ident(n) => {
                    if !seen {
                        seen = true;
                    } else {
                        match classify_type(ty) {
                            Err(TypeFault::QualifiedSelf) => {
                                fault = Some(SignatureError::QualifiedSelfType { input: i });
                            },
                            Err(TypeFault::Unsupported) => {
                                fault = Some(SignatureError::UnsupportedType { input: i });
                            },
                            Ok(payload) => {
                                out.push(Param { name: n.clone(), input: i, payload });
                            },
                        }
                    }
                },
            },
        }
        if let Some(e) = fault {
            proof {
                lemma_error_persists(sig.inputs@, i + 1, sig.inputs@.len() as int);
            }
            return Err(e);
        }
        i = i + 1;
    }
    Ok(out)
}

/// Positions of the inputs among the first `n` that are bound by a pattern
/// (neither the receiver nor ignored).
pub open spec fn captured_positions(inputs: Seq<FnInput>, n: int) -> Seq<int>
    decreases n,
{
    if n <= 0 {
        Seq::empty()
    } else if inputs[n - 1] is Captured {
        captured_positions(inputs, n - 1).push(n - 1)
    } else {
        captured_positions(inputs, n - 1)
    }
}

/// Positions of the exposed inputs: the captured ones after the first, which
/// is the interpreter context.
pub open spec fn exposed_positions(inputs: Seq<FnInput>) -> Seq<int> {
    let c = captured_positions(inputs, inputs.len() as int);
    if c.len() == 0 {
        c
    } else {
        c.drop_first()
    }
}

/// The name that binds an input, if it is a captured plain name.
pub open spec fn input_name(input: FnInput) -> Option<String> {
    match input {
        FnInput::Captured { pattern: ArgPattern::Ident(n), .. } => Some(n),
        _ => None,
    }
}

/// The payload type of an input, if it is captured with an optional type.
pub open spec fn input_payload(input: FnInput) -> Option<String> {
    match input {
        FnInput::Captured { ty, .. } => payload_of(ty),
        _ => None,
    }
}

proof fn lemma_prefix_positions(inputs: Seq<FnInput>, n: int)
    requires
        0 <= n <= inputs.len() <= usize::MAX,
        classify_prefix(inputs, n) is Ok,
    ensures
        ({
            let (ps, seen) = classify_prefix(inputs, n)->Ok_0;
            let c = captured_positions(inputs, n);
            &&& seen == (c.len() > 0)
            &&& ps.len() == (if seen { c.len() - 1 } else { 0 })
            &&& forall|j: int|
                0 <= j < ps.len() ==> {
                    &&& ps[j].input as int == c[j + 1]
                    &&& input_name(inputs[c[j + 1]]) == Some(ps[j].name)
                    &&& input_payload(inputs[c[j + 1]]) == ps[j].payload
                }
            &&& forall|j: int| 0 <= j < c.len() ==> 0 <= #[trigger] c[j] < n
        }),
    decreases n,
{
    if n > 0 {
        lemma_prefix_positions(inputs, n - 1);
        let c = captured_positions(inputs, n);
        let c0 = captured_positions(inputs, n - 1);
        let (ps0, seen0) = classify_prefix(inputs, n - 1)->Ok_0;
        let (ps, seen) = classify_prefix(inputs, n)->Ok_0;
        if inputs[n - 1] is Captured {
            assert(c == c0.push(n - 1));
            if seen0 {
                assert forall|j: int| 0 <= j < ps.len() implies {
                    &&& ps[j].input as int == c[j + 1]
                    &&& input_name(inputs[c[j + 1]]) == Some(ps[j].name)
                    &&& input_payload(inputs[c[j + 1]]) == ps[j].payload
                } by {
                    assert(classify_prefix(inputs, n) == classify_step(inputs[n - 1], n - 1, ps0, seen0));
                    if j < ps0.len() {
                        assert(ps[j] == ps0[j]);
                        assert(c[j + 1] == c0[j + 1]);
                    } else {
                        assert(j + 1 == c0.len());
                        assert(c[j + 1] == n - 1);
                    }
                }
            }
        }
    }
}

/// For a declaration that classifies, the exposed parameters are exactly the
/// captured inputs after the context input, in declaration order, each under
/// its own name and with its own payload type.
pub proof fn lemma_params_follow_inputs(sig: MethodSig)
    requires
        sig.inputs@.len() <= usize::MAX,
        classify_spec(sig) is Ok,
    ensures
        ({
            let ps = classify_spec(sig)->Ok_0;
            let e = exposed_positions(sig.inputs@);
            &&& ps.len() == e.len()
            &&& forall|j: int|
                0 <= j < ps.len() ==> {
                    &&& ps[j].input as int == e[j]
                    &&& input_name(sig.inputs@[e[j]]) == Some(ps[j].name)
                    &&& input_payload(sig.inputs@[e[j]]) == ps[j].payload
                }
        }),
{
    let inputs = sig.inputs@;
    lemma_prefix_positions(inputs, inputs.len() as int);
}

/// Whether an input has a supported shape: a receiver, or a plain name with
/// a supported type.
pub open spec fn supported_input(input: FnInput) -> bool {
    match input {
        FnInput::SelfRef => true,
        FnInput::SelfValue => true,
        FnInput::Captured { pattern, ty } => pattern is Ident && type_fault(ty) is None,
        FnInput::Ignored => false,
    }
}

/// Whether a declaration has a supported shape: no type parameters and only
/// supported inputs.
pub open spec fn supported_sig(sig: MethodSig) -> bool {
    &&& !sig.has_type_params
    &&& forall|i: int| 0 <= i < sig.inputs@.len() ==> supported_input(#[trigger] sig.inputs@[i])
}

proof fn lemma_supported_prefix(inputs: Seq<FnInput>, n: int)
    requires
        0 <= n <= inputs.len(),
        forall|i: int| 0 <= i < inputs.len() ==> supported_input(#[trigger] inputs[i]),
    ensures
        classify_prefix(inputs, n) is Ok,
    decreases n,
{
    if n > 0 {
        lemma_supported_prefix(inputs, n - 1);
        assert(supported_input(inputs[n - 1]));
    }
}

/// Every declaration of a supported shape classifies.
pub proof fn lemma_supported_classifies(sig: MethodSig)
    requires
        supported_sig(sig),
    ensures
        classify_spec(sig) is Ok,
{
    lemma_supported_prefix(sig.inputs@, sig.inputs@.len() as int);
}

} // verus!
