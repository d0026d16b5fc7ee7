//! Matching the arguments of one call against a descriptor table.
//!
//! A call supplies some positional arguments and a set of keyword arguments.
//! Descriptor `i` may take the `i`-th positional argument or the keyword
//! argument of its name, never both. The result names, for each descriptor,
//! where its value comes from, or that it is absent.
use vstd::prelude::*;
use crate::descriptor::ArgDescriptor;

verus! {

/// Where the value of a bound parameter comes from.
#[derive(PartialEq, Eq, Structural, Clone, Copy, Debug)]
pub enum ArgSource {
    /// The positional argument at this index.
    Positional(usize),
    /// The keyword argument at this index.
    Keyword(usize),
}

/// Why the arguments of a call do not fit the descriptor table.
#[derive(Clone, Debug, PartialEq, Eq)]
pub enum BindError {
    /// More arguments in all than the method declares.
    TooManyArguments { max: usize, positional: usize, keywords: usize },
    /// The parameter at `position` was given both by position and by name.
    GivenTwice { name: String, position: usize },
    /// The required parameter at `position` was not given.
    MissingRequired { name: String, position: usize },
    /// A keyword argument names no parameter.
    UnexpectedKeyword { name: String },
}

/// A binding failure as reported to the host: the call site (class and
/// method) and what went wrong.
#[derive(Clone, Debug, PartialEq, Eq)]
pub struct BindFailure {
    pub location: String,
    pub error: BindError,
}

/// The first keyword among the first `n` whose name is `name`.
pub open spec fn find_keyword(kws: Seq<String>, name: Seq<char>, n: int) -> Option<int>
    decreases n,
{
    if n <= 0 {
        None
    } else {
        match find_keyword(kws, name, n - 1) {
            Some(k) => Some(k),
            None => if kws[n - 1]@ == name {
                Some(n - 1)
            } else {
                None
            },
        }
    }
}

/// The keyword argument that names descriptor `d`, if any.
pub open spec fn keyword_for(kws: Seq<String>, d: ArgDescriptor) -> Option<int> {
    find_keyword(kws, d.name@, kws.len() as int)
}

/// Where the value of descriptor `i` comes from.
pub open spec fn slot_spec(
    descs: Seq<ArgDescriptor>,
    npos: int,
    kws: Seq<String>,
    i: int,
) -> Option<ArgSource> {
    match keyword_for(kws, descs[i]) {
        Some(k) => Some(ArgSource::Keyword(k as usize)),
        None => if i < npos {
            Some(ArgSource::Positional(i as usize))
        } else {
            None
        },
    }
}

/// What is wrong with descriptor `i` in a call, if anything.
pub open spec fn param_fault(
    descs: Seq<ArgDescriptor>,
    npos: int,
    kws: Seq<String>,
    i: int,
) -> Option<BindError> {
    match keyword_for(kws, descs[i]) {
        Some(_) => if i < npos {
            Some(BindError::GivenTwice { name: descs[i].name, position: i as usize })
        } else {
            None
        },
        None => if i >= npos && !descs[i].is_optional {
            Some(BindError::MissingRequired { name: descs[i].name, position: i as usize })
        } else {
            None
        },
    }
}

/// The fault of the first descriptor among the first `n` that has one.
pub open spec fn first_param_fault(
    descs: Seq<ArgDescriptor>,
    npos: int,
    kws: Seq<String>,
    n: int,
) -> Option<BindError>
    decreases n,
{
    if n <= 0 {
        None
    } else {
        match first_param_fault(descs, npos, kws, n - 1) {
            Some(e) => Some(e),
            None => param_fault(descs, npos, kws, n - 1),
        }
    }
}

/// Whether some descriptor is named `name`.
pub open spec fn names_param(descs: Seq<ArgDescriptor>, name: Seq<char>) -> bool {
    exists|i: int| 0 <= i < descs.len() && (#[trigger] descs[i]).name@ == name
}

/// The first keyword among the first `n` that names no descriptor.
pub open spec fn first_unknown(descs: Seq<ArgDescriptor>, kws: Seq<String>, n: int) -> Option<int>
    decreases n,
{
    if n <= 0 {
        None
    } else {
        match first_unknown(descs, kws, n - 1) {
            Some(k) => Some(k),
            None => if !names_param(descs, kws[n - 1]@) {
                Some(n - 1)
            } else {
                None
            },
        }
    }
}

/// The outcome of binding `npos` positional arguments and keyword arguments
/// named `kws` against `descs`.
pub open spec fn bind_spec(descs: Seq<ArgDescriptor>, npos: int, kws: Seq<String>) -> Result<
    Seq<Option<ArgSource>>,
    BindError,
> {
    if npos + kws.len() > descs.len() {
        Err(
            BindError::TooManyArguments {
                max: descs.len() as usize,
                positional: npos as usize,
                keywords: kws.len() as usize,
            },
        )
    } else if first_param_fault(descs, npos, kws, descs.len() as int) is Some {
        Err(first_param_fault(descs, npos, kws, descs.len() as int)->Some_0)
    } else if first_unknown(descs, kws, kws.len() as int) is Some {
        Err(
            BindError::UnexpectedKeyword {
                name: kws[first_unknown(descs, kws, kws.len() as int)->Some_0],
            },
        )
    } else {
        Ok(Seq::new(descs.len(), |i: int| slot_spec(descs, npos, kws, i)))
    }
}

proof fn lemma_find_keyword_stays(kws: Seq<String>, name: Seq<char>, n: int, m: int)
    requires
        0 <= n <= m,
        find_keyword(kws, name, n) is Some,
    ensures
        find_keyword(kws, name, m) == find_keyword(kws, name, n),
    decreases m - n,
{
    if n < m {
        lemma_find_keyword_stays(kws, name, n, m - 1);
    }
}

/// The index of the first keyword argument named `name`.
pub fn lookup_keyword(kws: &Vec<String>, name: &String) -> (r: Option<usize>)
    ensures
        match r {
            Some(k) => find_keyword(kws@, name@, kws@.len() as int) == Some(k as int),
            None => find_keyword(kws@, name@, kws@.len() as int) is None,
        },
{
    let mut k: usize = 0;
    while k < kws.len()
        invariant
            0 <= k <= kws@.len(),
            find_keyword(kws@, name@, k as int) is None,
        decreases kws@.len() - k,
    {
        if kws[k] == *name {
            proof {
                lemma_find_keyword_stays(kws@, name@, k + 1, kws@.len() as int);
            }
            return Some(k);
        }
        k = k + 1;
    }
    None
}

/// Whether some descriptor is named `name`.
pub fn is_param_name(descs: &Vec<ArgDescriptor>, name: &String) -> (r: bool)
    ensures
        r == names_param(descs@, name@),
{
    let mut i: usize = 0;
    while i < descs.len()
        invariant
            0 <= i <= descs@.len(),
            forall|j: int| 0 <= j < i ==> (#[trigger] descs@[j]).name@ != name@,
        decreases descs@.len() - i,
    {
        if descs[i].name == *name {
            return true;
        }
        i = i + 1;
    }
    false
}

proof fn lemma_fault_stays(descs: Seq<ArgDescriptor>, npos: int, kws: Seq<String>, n: int, m: int)
    requires
        0 <= n <= m,
        first_param_fault(descs, npos, kws, n) is Some,
    ensures
        first_param_fault(descs, npos, kws, m) == first_param_fault(descs, npos, kws, n),
    decreases m - n,
{
    if n < m {
        lemma_fault_stays(descs, npos, kws, n, m - 1);
    }
}

proof fn lemma_unknown_stays(descs: Seq<ArgDescriptor>, kws: Seq<String>, n: int, m: int)
    requires
        0 <= n <= m,
        first_unknown(descs, kws, n) is Some,
    ensures
        first_unknown(descs, kws, m) == first_unknown(descs, kws, n),
    decreases m - n,
{
    if n < m {
        lemma_unknown_stays(descs, kws, n, m - 1);
    }
}

/// Binds the arguments of one call: `npos` positional arguments and the
/// keyword arguments whose names are `kws`, in the order the call gave them.
/// The result has one entry per descriptor, in descriptor order; a failure
/// carries the call site `location`.
pub fn bind_args(
    descs: &Vec<ArgDescriptor>,
    npos: usize,
    kws: &Vec<String>,
    location: &String,
) -> (r: Result<Vec<Option<ArgSource>>, BindFailure>)
    ensures
        match r {
            Ok(slots) => bind_spec(descs@, npos as int, kws@) == Ok::<
                Seq<Option<ArgSource>>,
                BindError,
            >(slots@),
            Err(f) => {
                &&& f.location == *location
                &&& bind_spec(descs@, npos as int, kws@) == Err::<
                    Seq<Option<ArgSource>>,
                    BindError,
                >(f.error)
            },
        },
{
    match bind_slots(descs, npos, kws) {
        Ok(slots) => Ok(slots),
        Err(error) => Err(BindFailure { location: location.clone(), error }),
    }
}

fn bind_slots(descs: &Vec<ArgDescriptor>, npos: usize, kws: &Vec<String>) -> (r: Result<
    Vec<Option<ArgSource>>,
    BindError,
>)
    ensures
        match r {
            Ok(slots) => bind_spec(descs@, npos as int, kws@) == Ok::<
                Seq<Option<ArgSource>>,
                BindError,
            >(slots@),
            Err(e) => bind_spec(descs@, npos as int, kws@) == Err::<
                Seq<Option<ArgSource>>,
                BindError,
            >(e),
        },
{
    if npos > descs.len() || kws.len() > descs.len() - npos {
        return Err(
            BindError::TooManyArguments { max: descs.len(), positional: npos, keywords: kws.len() },
        );
    }
    let mut slots: Vec<Option<ArgSource>> = Vec::new();
    let mut i: usize = 0;
    while i < descs.len()
        invariant
            0 <= i <= descs@.len(),
            npos + kws@.len() <= descs@.len(),
            first_param_fault(descs@, npos as int, kws@, i as int) is None,
            slots@.len() == i,
            forall|j: int|
                0 <= j < i ==> #[trigger] slots@[j] == slot_spec(descs@, npos as int, kws@, j),
        decreases descs@.len() - i,
    {
        let d = &descs[i];
        let found = lookup_keyword(kws, &d.name);
        let mut fault: Option<BindError> = None;
        match found {
            Some(k) => {
                if i < npos {
                    fault = Some(BindError::GivenTwice { name: d.name.clone(), position: i });
                } else {
                    slots.push(Some(ArgSource::Keyword(k)));
                }
            },
            None => {
                if i < npos {
                    slots.push(Some(ArgSource::Positional(i)));
                } else if d.is_optional {
                    slots.push(None);
                } else {
                    fault = Some(BindError::MissingRequired { name: d.name.clone(), position: i });
                }
            },
        }
        if let Some(e) = fault {
            proof {
                lemma_fault_stays(descs@, npos as int, kws@, i + 1, descs@.len() as int);
            }
            return Err(e);
        }
        i = i + 1;
    }
    let mut k: usize = 0;
    while k < kws.len()
        invariant
            0 <= k <= kws@.len(),
            npos + kws@.len() <= descs@.len(),
            first_param_fault(descs@, npos as int, kws@, descs@.len() as int) is None,
            first_unknown(descs@, kws@, k as int) is None,
            slots@.len() == descs@.len(),
            forall|j: int|
                0 <= j < descs@.len() ==> #[trigger] slots@[j] == slot_spec(
                    descs@,
                    npos as int,
                    kws@,
                    j,
                ),
        decreases kws@.len() - k,
    {
        if !is_param_name(descs, &kws[k]) {
            proof {
                lemma_unknown_stays(descs@, kws@, k + 1, kws@.len() as int);
            }
            return Err(BindError::UnexpectedKeyword { name: kws[k].clone() });
        }
        k = k + 1;
    }
    proof {
        assert(slots@ == Seq::new(descs@.len(), |j: int| slot_spec(descs@, npos as int, kws@, j)));
    }
    Ok(slots)
}

proof fn lemma_no_fault(descs: Seq<ArgDescriptor>, npos: int, kws: Seq<String>, n: int)
    requires
        forall|i: int| 0 <= i < n ==> (#[trigger] param_fault(descs, npos, kws, i)) is None,
    ensures
        first_param_fault(descs, npos, kws, n) is None,
    decreases n,
{
    if n > 0 {
        lemma_no_fault(descs, npos, kws, n - 1);
    }
}

proof fn lemma_fault_found(descs: Seq<ArgDescriptor>, npos: int, kws: Seq<String>, n: int, j: int)
    requires
        0 <= j < n,
        param_fault(descs, npos, kws, j) is Some,
    ensures
        first_param_fault(descs, npos, kws, n) is Some,
    decreases n,
{
    if j < n - 1 {
        lemma_fault_found(descs, npos, kws, n - 1, j);
    }
}

proof fn lemma_unknown_found(descs: Seq<ArgDescriptor>, kws: Seq<String>, n: int, k: int)
    requires
        0 <= k < n,
        !names_param(descs, kws[k]@),
    ensures
        first_unknown(descs, kws, n) is Some,
    decreases n,
{
    if k < n - 1 {
        lemma_unknown_found(descs, kws, n - 1, k);
    }
}

/// A call that gives every required parameter by position and no keywords
/// binds, whatever number of trailing optional parameters it leaves out: the
/// first `npos` descriptors take the positional arguments in order and the
/// others are absent.
pub proof fn lemma_positional_call_binds(descs: Seq<ArgDescriptor>, npos: int)
    requires
        0 <= npos <= descs.len(),
        forall|i: int| npos <= i < descs.len() ==> (#[trigger] descs[i]).is_optional,
    ensures
        bind_spec(descs, npos, Seq::empty()) == Ok::<Seq<Option<ArgSource>>, BindError>(
            Seq::new(
                descs.len(),
                |i: int|
                    if i < npos {
                        Some(ArgSource::Positional(i as usize))
                    } else {
                        None
                    },
            ),
        ),
{
    let kws = Seq::<String>::empty();
    assert forall|i: int| 0 <= i < descs.len() implies (#[trigger] param_fault(
        descs,
        npos,
        kws,
        i,
    )) is None by {
        assert(find_keyword(kws, descs[i].name@, 0) is None);
    }
    lemma_no_fault(descs, npos, kws, descs.len() as int);
    assert(Seq::new(descs.len(), |i: int| slot_spec(descs, npos, kws, i)) =~= Seq::new(
        descs.len(),
        |i: int|
            if i < npos {
                Some(ArgSource::Positional(i as usize))
            } else {
                None
            },
    ));
}

/// A call that gives a required parameter neither by position nor by name
/// fails to bind; when every earlier parameter is given properly and the
/// call has no more arguments than parameters, the failure names it.
pub proof fn lemma_missing_required_fails(
    descs: Seq<ArgDescriptor>,
    npos: int,
    kws: Seq<String>,
    j: int,
)
    requires
        0 <= npos,
        npos <= j < descs.len(),
        !descs[j].is_optional,
        keyword_for(kws, descs[j]) is None,
    ensures
        bind_spec(descs, npos, kws) is Err,
        npos + kws.len() <= descs.len() && (forall|i: int|
            0 <= i < j ==> (#[trigger] param_fault(descs, npos, kws, i)) is None) ==> bind_spec(
            descs,
            npos,
            kws,
        ) == Err::<Seq<Option<ArgSource>>, BindError>(
            BindError::MissingRequired { name: descs[j].name, position: j as usize },
        ),
{
    lemma_fault_found(descs, npos, kws, descs.len() as int, j);
    if npos + kws.len() <= descs.len() && (forall|i: int|
        0 <= i < j ==> (#[trigger] param_fault(descs, npos, kws, i)) is None) {
        lemma_no_fault(descs, npos, kws, j);
        lemma_fault_stays(descs, npos, kws, j + 1, descs.len() as int);
    }
}

/// A call that gives one parameter both by position and by name fails to
/// bind.
pub proof fn lemma_given_twice_fails(descs: Seq<ArgDescriptor>, npos: int, kws: Seq<String>, j: int)
    requires
        0 <= j < npos,
        j < descs.len(),
        keyword_for(kws, descs[j]) is Some,
    ensures
        bind_spec(descs, npos, kws) is Err,
{
    lemma_fault_found(descs, npos, kws, descs.len() as int, j);
}

/// A call with a keyword that names no parameter fails to bind.
pub proof fn lemma_unknown_keyword_fails(descs: Seq<ArgDescriptor>, npos: int, kws: Seq<String>, k: int)
    requires
        0 <= npos,
        0 <= k < kws.len(),
        !names_param(descs, kws[k]@),
    ensures
        bind_spec(descs, npos, kws) is Err,
{
    lemma_unknown_found(descs, kws, kws.len() as int, k);
}

/// A call with more positional arguments than parameters fails to bind, with
/// the counts it was given.
pub proof fn lemma_excess_positional_fails(descs: Seq<ArgDescriptor>, npos: int, kws: Seq<String>)
    requires
        npos > descs.len(),
    ensures
        bind_spec(descs, npos, kws) == Err::<Seq<Option<ArgSource>>, BindError>(
            BindError::TooManyArguments {
                max: descs.len() as usize,
                positional: npos as usize,
                keywords: kws.len() as usize,
            },
        ),
{
}

/// In a call that binds, every required parameter has a value.
pub proof fn lemma_bound_required_present(descs: Seq<ArgDescriptor>, npos: int, kws: Seq<String>)
    requires
        0 <= npos,
        bind_spec(descs, npos, kws) is Ok,
    ensures
        forall|i: int|
            0 <= i < descs.len() && !descs[i].is_optional ==> (#[trigger] bind_spec(
                descs,
                npos,
                kws,
            )->Ok_0[i]) is Some,
{
    assert forall|i: int|
        0 <= i < descs.len() && !descs[i].is_optional implies (#[trigger] bind_spec(
            descs,
            npos,
            kws,
        )->Ok_0[i]) is Some by {
        if slot_spec(descs, npos, kws, i) is None {
            lemma_fault_found(descs, npos, kws, descs.len() as int, i);
        }
    }
}

} // verus!
