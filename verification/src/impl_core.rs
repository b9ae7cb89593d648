//! Per-position mapping implementations for the core single-value
//! containers, and the whole protocol for fixed-size arrays, `ControlFlow`
//! and `PhantomData`.
//!
//! The fallible array mapping routes through the verified `Vec` routine:
//! the array is moved into a vector, mapped with the all-or-nothing,
//! first-failure contract proved there, and moved back.  Ownership makes
//! the resource discipline: on failure the transformed prefix and the
//! untouched remainder are owned by local values and released exactly once
//! when they drop.
//!
//! Three of the protocol's well-known container adapters have no
//! counterpart the verifier can check and are deliberately absent: `Cell`, `RefCell` and `UnsafeCell`
//! keep their contents invisible to Verus (the std cells have no view, and
//! a result of `into_inner` cannot be named without a generic
//! uninterpreted function), and `LinkedList` and `BinaryHeap` carry an
//! allocator parameter whose trait cannot be named on a stable toolchain,
//! so the types cannot even be declared.  A delegation into such a field
//! type is refused by the host compiler at the use site, exactly as a
//! delegation into any type that does not declare the capability.
use crate::functor::{first_failure, try_maps_to, Functor, Functor0, Functor1};
use core::marker::PhantomData;
use core::ops::ControlFlow;
use vstd::prelude::*;

verus! {

broadcast use vstd::array::group_array_axioms;

/// Relies on std's array `map`: it applies the function to each element in
/// order and returns the array of the results.
#[verifier::external_body]
fn array_map_elems<A, B, F: Fn(A) -> B, const N: usize>(a: [A; N], f: F) -> (r: [B; N])
    requires
        forall|x: A| call_requires(f, (x,)),
    ensures
        forall|i: int| 0 <= i < N ==> call_ensures(f, (a@[i],), #[trigger] r@[i]),
{
    a.map(f)
}

/// Relies on std's `Vec::from` for arrays: the vector of the array's
/// elements, in order.
#[verifier::external_body]
fn array_into_vec<A, const N: usize>(a: [A; N]) -> (r: Vec<A>)
    ensures
        r@ == a@,
{
    Vec::from(a)
}

/// Relies on std's array `TryFrom<Vec>`: a vector of exactly `N` elements
/// converts to the array of them, in order.
#[verifier::external_body]
fn vec_into_array<A, const N: usize>(v: Vec<A>) -> (r: [A; N])
    requires
        v@.len() == N,
    ensures
        r@ == v@,
{
    <[A; N]>::try_from(v).ok().unwrap()
}

impl<A, B, const N: usize> Functor<A, B> for [A; N] {
    type Target = [B; N];

    open spec fn elems(self) -> Seq<A> {
        self@
    }

    open spec fn target_elems(t: [B; N]) -> Seq<B> {
        t@
    }

    open spec fn same_shape(self, t: [B; N]) -> bool {
        true
    }

    fn fmap<F: Fn(A) -> B>(self, f: F) -> (r: [B; N]) {
        array_map_elems(self, f)
    }

    fn try_fmap<E, F: Fn(A) -> Result<B, E>>(self, f: F) -> (r: Result<[B; N], E>) {
        let v = array_into_vec(self);
        match v.try_fmap(f) {
            Result::Ok(w) => {
                proof {
                    assert(try_maps_to(f, self@, w@));
                }
                Result::Ok(vec_into_array(w))
            },
            Result::Err(e) => {
                proof {
                    assert(first_failure(f, self@, e));
                }
                Result::Err(e)
            },
        }
    }
}

impl<A, B, const N: usize> Functor0<A, B> for [A; N] {
    type Target0 = [B; N];

    open spec fn elems0(self) -> Seq<A> {
        self@
    }

    open spec fn target_elems0(t: [B; N]) -> Seq<B> {
        t@
    }

    open spec fn same_shape0(self, t: [B; N]) -> bool {
        true
    }

    fn __fmap_0_ref<F: Fn(A) -> B>(self, f: F) -> (r: [B; N]) {
        self.fmap(f)
    }

    fn __try_fmap_0_ref<E, F: Fn(A) -> Result<B, E>>(self, f: F) -> (r: Result<[B; N], E>) {
        self.try_fmap(f)
    }
}

impl<A, B> Functor0<A, B> for Option<A> {
    type Target0 = Option<B>;

    open spec fn elems0(self) -> Seq<A> {
        match self {
            Option::Some(a) => seq![a],
            Option::None => Seq::empty(),
        }
    }

    open spec fn target_elems0(t: Option<B>) -> Seq<B> {
        match t {
            Option::Some(b) => seq![b],
            Option::None => Seq::empty(),
        }
    }

    open spec fn same_shape0(self, t: Option<B>) -> bool {
        self is Some <==> t is Some
    }

    fn __fmap_0_ref<F: Fn(A) -> B>(self, f: F) -> (r: Option<B>) {
        self.fmap(f)
    }

    fn __try_fmap_0_ref<E, F: Fn(A) -> Result<B, E>>(self, f: F) -> (r: Result<Option<B>, E>) {
        self.try_fmap(f)
    }
}

impl<A, E0, B> Functor0<A, B> for Result<A, E0> {
    type Target0 = Result<B, E0>;

    open spec fn elems0(self) -> Seq<A> {
        match self {
            Result::Ok(a) => seq![a],
            Result::Err(_) => Seq::empty(),
        }
    }

    open spec fn target_elems0(t: Result<B, E0>) -> Seq<B> {
        match t {
            Result::Ok(b) => seq![b],
            Result::Err(_) => Seq::empty(),
        }
    }

    open spec fn same_shape0(self, t: Result<B, E0>) -> bool {
        match (self, t) {
            (Result::Ok(_), Result::Ok(_)) => true,
            (Result::Err(e), Result::Err(e2)) => e == e2,
            _ => false,
        }
    }

    fn __fmap_0_ref<F: Fn(A) -> B>(self, f: F) -> (r: Result<B, E0>) {
        self.fmap(f)
    }

    fn __try_fmap_0_ref<E, F: Fn(A) -> Result<B, E>>(self, f: F) -> (r: Result<Result<B, E0>, E>) {
        self.try_fmap(f)
    }
}

impl<O, A, B> Functor1<A, B> for Result<O, A> {
    type Target1 = Result<O, B>;

    open spec fn elems1(self) -> Seq<A> {
        match self {
            Result::Ok(_) => Seq::empty(),
            Result::Err(a) => seq![a],
        }
    }

    open spec fn target_elems1(t: Result<O, B>) -> Seq<B> {
        match t {
            Result::Ok(_) => Seq::empty(),
            Result::Err(b) => seq![b],
        }
    }

    open spec fn same_shape1(self, t: Result<O, B>) -> bool {
        match (self, t) {
            (Result::Ok(o), Result::Ok(o2)) => o == o2,
            (Result::Err(_), Result::Err(_)) => true,
            _ => false,
        }
    }

    /// Maps the error value; an `Ok` input is returned unchanged.
    fn __fmap_1_ref<F: Fn(A) -> B>(self, f: F) -> (r: Result<O, B>) {
        match self {
            Result::Ok(o) => Result::Ok(o),
            Result::Err(a) => Result::Err(f(a)),
        }
    }

    fn __try_fmap_1_ref<E, F: Fn(A) -> Result<B, E>>(self, f: F) -> (r: Result<Result<O, B>, E>) {
        match self {
            Result::Ok(o) => Result::Ok(Result::Ok(o)),
            Result::Err(a) => match f(a) {
                Result::Ok(b) => {
                    proof {
                        assert(<Self as Functor1<A, B>>::elems1(self)[0] == a);
                        assert(Self::target_elems1(Result::Err(b))[0] == b);
                    }
                    Result::Ok(Result::Err(b))
                },
                Result::Err(e) => {
                    proof {
                        assert(<Self as Functor1<A, B>>::elems1(self)[0] == a);
                    }
                    Result::Err(e)
                },
            },
        }
    }
}

impl<A, B> Functor0<A, B> for Box<A> {
    type Target0 = Box<B>;

    open spec fn elems0(self) -> Seq<A> {
        seq![*self]
    }

    open spec fn target_elems0(t: Box<B>) -> Seq<B> {
        seq![*t]
    }

    open spec fn same_shape0(self, t: Box<B>) -> bool {
        true
    }

    fn __fmap_0_ref<F: Fn(A) -> B>(self, f: F) -> (r: Box<B>) {
        self.fmap(f)
    }

    fn __try_fmap_0_ref<E, F: Fn(A) -> Result<B, E>>(self, f: F) -> (r: Result<Box<B>, E>) {
        self.try_fmap(f)
    }
}

impl<A, C, B> Functor<A, B> for ControlFlow<A, C> {
    type Target = ControlFlow<B, C>;

    open spec fn elems(self) -> Seq<A> {
        match self {
            ControlFlow::Break(a) => seq![a],
            ControlFlow::Continue(_) => Seq::empty(),
        }
    }

    open spec fn target_elems(t: ControlFlow<B, C>) -> Seq<B> {
        match t {
            ControlFlow::Break(b) => seq![b],
            ControlFlow::Continue(_) => Seq::empty(),
        }
    }

    open spec fn same_shape(self, t: ControlFlow<B, C>) -> bool {
        match (self, t) {
            (ControlFlow::Break(_), ControlFlow::Break(_)) => true,
            (ControlFlow::Continue(c), ControlFlow::Continue(c2)) => c == c2,
            _ => false,
        }
    }

    /// Maps the break value; a `Continue` input is returned unchanged.
    fn fmap<F: Fn(A) -> B>(self, f: F) -> (r: ControlFlow<B, C>) {
        match self {
            ControlFlow::Break(a) => ControlFlow::Break(f(a)),
            ControlFlow::Continue(c) => ControlFlow::Continue(c),
        }
    }

    fn try_fmap<E, F: Fn(A) -> Result<B, E>>(self, f: F) -> (r: Result<ControlFlow<B, C>, E>) {
        match self {
            ControlFlow::Break(a) => match f(a) {
                Result::Ok(b) => {
                    proof {
                        assert(<Self as Functor<A, B>>::elems(self)[0] == a);
                        assert(Self::target_elems(ControlFlow::Break(b))[0] == b);
                    }
                    Result::Ok(ControlFlow::Break(b))
                },
                Result::Err(e) => {
                    proof {
                        assert(<Self as Functor<A, B>>::elems(self)[0] == a);
                    }
                    Result::Err(e)
                },
            },
            ControlFlow::Continue(c) => Result::Ok(ControlFlow::Continue(c)),
        }
    }
}

impl<C, A, B> Functor1<A, B> for ControlFlow<C, A> {
    type Target1 = ControlFlow<C, B>;

    open spec fn elems1(self) -> Seq<A> {
        match self {
            ControlFlow::Continue(a) => seq![a],
            ControlFlow::Break(_) => Seq::empty(),
        }
    }

    open spec fn target_elems1(t: ControlFlow<C, B>) -> Seq<B> {
        match t {
            ControlFlow::Continue(b) => seq![b],
            ControlFlow::Break(_) => Seq::empty(),
        }
    }

    open spec fn same_shape1(self, t: ControlFlow<C, B>) -> bool {
        match (self, t) {
            (ControlFlow::Continue(_), ControlFlow::Continue(_)) => true,
            (ControlFlow::Break(c), ControlFlow::Break(c2)) => c == c2,
            _ => false,
        }
    }

    /// Maps the continue value; a `Break` input is returned unchanged.
    fn __fmap_1_ref<F: Fn(A) -> B>(self, f: F) -> (r: ControlFlow<C, B>) {
        match self {
            ControlFlow::Continue(a) => ControlFlow::Continue(f(a)),
            ControlFlow::Break(c) => ControlFlow::Break(c),
        }
    }

    fn __try_fmap_1_ref<E, F: Fn(A) -> Result<B, E>>(self, f: F) -> (r: Result<
        ControlFlow<C, B>,
        E,
    >) {
        match self {
            ControlFlow::Continue(a) => match f(a) {
                Result::Ok(b) => {
                    proof {
                        assert(<Self as Functor1<A, B>>::elems1(self)[0] == a);
                        assert(Self::target_elems1(ControlFlow::Continue(b))[0] == b);
                    }
                    Result::Ok(ControlFlow::Continue(b))
                },
                Result::Err(e) => {
                    proof {
                        assert(<Self as Functor1<A, B>>::elems1(self)[0] == a);
                    }
                    Result::Err(e)
                },
            },
            ControlFlow::Break(c) => Result::Ok(ControlFlow::Break(c)),
        }
    }
}

impl<A, B> Functor<A, B> for PhantomData<A> {
    type Target = PhantomData<B>;

    open spec fn elems(self) -> Seq<A> {
        Seq::empty()
    }

    open spec fn target_elems(t: PhantomData<B>) -> Seq<B> {
        Seq::empty()
    }

    open spec fn same_shape(self, t: PhantomData<B>) -> bool {
        true
    }

    fn fmap<F: Fn(A) -> B>(self, f: F) -> (r: PhantomData<B>) {
        PhantomData
    }

    fn try_fmap<E, F: Fn(A) -> Result<B, E>>(self, f: F) -> (r: Result<PhantomData<B>, E>) {
        Result::Ok(PhantomData)
    }
}

} // verus!
