//! The asynchronous-object protocol and its sparse slot table.
//!
//! Every type has all methods of the protocol, each with a neutral default;
//! a type says which ones it really provides through `PyAsyncProtocolImpl`.
//! The slot table is built only for a type that provides at least one of the
//! slotted methods: each provided one is wired to an adapter bound to it, the
//! others are left empty, which the host runtime treats as "not provided".
use vstd::prelude::*;

verus! {

/// The methods of the protocol that have a slot in the host's table.
#[derive(PartialEq, Eq, Structural, Clone, Copy, Debug)]
pub enum AsyncSlot {
    /// `__await__`
    Await,
    /// `__aiter__`
    AIter,
    /// `__anext__`
    ANext,
}

/// A slot wired to the unary adapter of one method.
#[derive(PartialEq, Eq, Structural, Clone, Copy, Debug)]
pub struct UnarySlot {
    pub method: AsyncSlot,
}

/// The host's asynchronous slot table; an empty slot means "not provided".
#[derive(PartialEq, Eq, Structural, Clone, Copy, Debug)]
pub struct PyAsyncMethods {
    pub am_await: Option<UnarySlot>,
    pub am_aiter: Option<UnarySlot>,
    pub am_anext: Option<UnarySlot>,
}

/// What a call through one slot reaches.
#[derive(PartialEq, Eq, Structural, Clone, Copy, Debug)]
pub enum SlotDispatch {
    /// The type's own method.
    Native(AsyncSlot),
    /// The protocol's neutral default, which returns the host's `None`.
    NeutralDefault,
}

/// The protocol, with a neutral default for every method: `Ok(None)` stands
/// for the host runtime's `None` value, and an `Err` is raised in the host.
pub trait PyAsyncProtocol {
    type Output;

    type Error;

    fn __await__(&self) -> (r: Result<Option<Self::Output>, Self::Error>)
        default_ensures
            r matches Ok(None),
    {
        Ok(None)
    }

    fn __aiter__(&self) -> (r: Result<Option<Self::Output>, Self::Error>)
        default_ensures
            r matches Ok(None),
    {
        Ok(None)
    }

    fn __anext__(&self) -> (r: Result<Option<Self::Output>, Self::Error>)
        default_ensures
            r matches Ok(None),
    {
        Ok(None)
    }

    fn __aenter__(&self) -> (r: Result<Option<Self::Output>, Self::Error>)
        default_ensures
            r matches Ok(None),
    {
        Ok(None)
    }

    fn __aexit__(&self) -> (r: Result<Option<Self::Output>, Self::Error>)
        default_ensures
            r matches Ok(None),
    {
        Ok(None)
    }
}

/// The slotted methods of the protocol that a type overrides; by default none.
pub trait PyAsyncProtocolImpl {
    fn methods() -> (r: Vec<AsyncSlot>)
        default_ensures
            r@.len() == 0,
    {
        Vec::new()
    }
}

/// The slot of `m` in a table built from the methods `ms`.
pub open spec fn slot_for(ms: Seq<AsyncSlot>, m: AsyncSlot) -> Option<UnarySlot> {
    if ms.contains(m) {
        Some(UnarySlot { method: m })
    } else {
        None
    }
}

/// The table for a type that overrides the methods `ms`: none when it
/// overrides none of them.
pub open spec fn table_spec(ms: Seq<AsyncSlot>) -> Option<PyAsyncMethods> {
    if ms.len() == 0 {
        None
    } else {
        Some(
            PyAsyncMethods {
                am_await: slot_for(ms, AsyncSlot::Await),
                am_aiter: slot_for(ms, AsyncSlot::AIter),
                am_anext: slot_for(ms, AsyncSlot::ANext),
            },
        )
    }
}

/// What a call of `m` through the table `t` reaches.
pub open spec fn dispatch_spec(t: Option<PyAsyncMethods>, m: AsyncSlot) -> SlotDispatch {
    let slot = match t {
        None => None,
        Some(t) => match m {
            AsyncSlot::Await => t.am_await,
            AsyncSlot::AIter => t.am_aiter,
            AsyncSlot::ANext => t.am_anext,
        },
    };
    match slot {
        Some(s) => SlotDispatch::Native(s.method),
        None => SlotDispatch::NeutralDefault,
    }
}

impl PyAsyncMethods {
    /// The table with every slot empty.
    pub fn empty() -> (r: PyAsyncMethods)
        ensures
            r.am_await is None,
            r.am_aiter is None,
            r.am_anext is None,
    {
        PyAsyncMethods { am_await: None, am_aiter: None, am_anext: None }
    }

    /// Builds the table for a type that overrides the methods `ms`.
    pub fn from_methods(ms: &Vec<AsyncSlot>) -> (r: Option<PyAsyncMethods>)
        ensures
            r == table_spec(ms@),
    {
        if ms.len() == 0 {
            return None;
        }
        let mut meth = PyAsyncMethods::empty();
        let mut i: usize = 0;
        while i < ms.len()
            invariant
                0 <= i <= ms@.len(),
                meth.am_await == slot_for(ms@.subrange(0, i as int), AsyncSlot::Await),
                meth.am_aiter == slot_for(ms@.subrange(0, i as int), AsyncSlot::AIter),
                meth.am_anext == slot_for(ms@.subrange(0, i as int), AsyncSlot::ANext),
            decreases ms@.len() - i,
        {
            let m = ms[i];
            match m {
                AsyncSlot::Await => {
                    meth.am_await = Some(UnarySlot { method: AsyncSlot::Await });
                },
                AsyncSlot::AIter => {
                    meth.am_aiter = Some(UnarySlot { method: AsyncSlot::AIter });
                },
                AsyncSlot::ANext => {
                    meth.am_anext = Some(UnarySlot { method: AsyncSlot::ANext });
                },
            }
            proof {
                let pre = ms@.subrange(0, i as int);
                let post = ms@.subrange(0, i + 1);
                assert(post == pre.push(m));
                assert forall|x: AsyncSlot| post.contains(x) == (pre.contains(x) || x == m) by {
                    if pre.contains(x) {
                        let k = choose|k: int| 0 <= k < pre.len() && pre[k] == x;
                        assert(post[k] == x);
                    }
                    if x == m {
                        assert(post[i as int] == x);
                    }
                }
            }
            i = i + 1;
        }
        proof {
            assert(ms@.subrange(0, ms@.len() as int) == ms@);
        }
        Some(meth)
    }

    /// Builds the table for the type `T` from the methods it overrides.
    pub fn new<T: PyAsyncProtocolImpl>() -> (r: Option<PyAsyncMethods>)
        ensures
            exists|ms: Seq<AsyncSlot>| r == table_spec(ms),
    {
        let ms = T::methods();
        PyAsyncMethods::from_methods(&ms)
    }
}

/// What a call of `m` through the table `t` reaches.
pub fn dispatch(t: &Option<PyAsyncMethods>, m: AsyncSlot) -> (r: SlotDispatch)
    ensures
        r == dispatch_spec(*t, m),
{
    let slot = match t {
        None => None,
        Some(t) => match m {
            AsyncSlot::Await => t.am_await,
            AsyncSlot::AIter => t.am_aiter,
            AsyncSlot::ANext => t.am_anext,
        },
    };
    match slot {
        Some(s) => SlotDispatch::Native(s.method),
        None => SlotDispatch::NeutralDefault,
    }
}

/// A type that overrides some of the slotted methods gets a table in which
/// each of them reaches the type's own method and every other one reaches
/// the neutral default; a type that overrides none gets no table.
pub proof fn lemma_sparse_table(ms: Seq<AsyncSlot>)
    ensures
        ms.len() == 0 <==> table_spec(ms) is None,
        forall|m: AsyncSlot|
            #[trigger] dispatch_spec(table_spec(ms), m) == if ms.contains(m) {
                SlotDispatch::Native(m)
            } else {
                SlotDispatch::NeutralDefault
            },
{
}

} // verus!
