//! The uniform mapping protocol and its implementations for containers whose
//! traversal visits the mapped positions in a fixed order.
//!
//! A `Functor<A, B>` value holds values of type `A` at certain positions;
//! `fmap` applies a user function to each of those positions, and nothing
//! else, producing `Self::Target`.  `try_fmap` is the fallible variant: the
//! user function may fail on any element, and the first failure (in traversal
//! order) aborts the whole mapping and becomes its result.
//!
//! The contract is stated through three spec functions each implementation
//! provides: `elems` (the mapped positions, in traversal order),
//! `target_elems` (the same positions of the result), and `same_shape`
//! (everything that is not a mapped position is unchanged).
use vstd::prelude::*;

verus! {

/// `dst` is `src` mapped elementwise through `f`: same length, and each
/// element of `dst` is a possible result of `f` on the matching element of
/// `src`.
pub open spec fn maps_to<A, B, F: Fn(A) -> B>(f: F, src: Seq<A>, dst: Seq<B>) -> bool {
    &&& dst.len() == src.len()
    &&& forall|i: int| 0 <= i < src.len() ==> call_ensures(f, (src[i],), #[trigger] dst[i])
}

/// `dst` is `src` mapped elementwise through a fallible `f` with every
/// application succeeding.
pub open spec fn try_maps_to<A, B, E, F: Fn(A) -> Result<B, E>>(
    f: F,
    src: Seq<A>,
    dst: Seq<B>,
) -> bool {
    &&& dst.len() == src.len()
    &&& forall|i: int|
        0 <= i < src.len() ==> call_ensures(f, (src[i],), Result::Ok(#[trigger] dst[i]))
}

/// `f` can succeed on `a`: some `Ok` result is a possible outcome.
pub open spec fn can_succeed<A, B, E, F: Fn(A) -> Result<B, E>>(f: F, a: A) -> bool {
    exists|b: B| call_ensures(f, (a,), Result::Ok(b))
}

/// `e` is a failure `f` produced on the first failing element of `src`:
/// some element can fail with `e` while every element before it succeeded.
pub open spec fn first_failure<A, B, E, F: Fn(A) -> Result<B, E>>(f: F, src: Seq<A>, e: E) -> bool {
    exists|i: int|
        {
            &&& 0 <= i < src.len()
            &&& call_ensures(f, (#[trigger] src[i],), Result::<B, E>::Err(e))
            &&& forall|j: int| 0 <= j < i ==> can_succeed(f, #[trigger] src[j])
        }
}

/// `dst` is `src` with every value mapped through `f` under its unchanged
/// key: the keys are exactly preserved, and each value of `dst` is a
/// possible result of `f` on the value `src` holds at the same key.
pub open spec fn map_maps_to<K, A, B, F: Fn(A) -> B>(f: F, src: Map<K, A>, dst: Map<K, B>) -> bool {
    &&& dst.dom() == src.dom()
    &&& forall|k: K| src.dom().contains(k) ==> call_ensures(f, (src[k],), #[trigger] dst[k])
}

/// `dst` is `src` with every value mapped through a fallible `f`, every
/// application succeeding.
pub open spec fn try_map_maps_to<K, A, B, E, F: Fn(A) -> Result<B, E>>(
    f: F,
    src: Map<K, A>,
    dst: Map<K, B>,
) -> bool {
    &&& dst.dom() == src.dom()
    &&& forall|k: K|
        src.dom().contains(k) ==> call_ensures(f, (src[k],), Result::Ok(#[trigger] dst[k]))
}

/// `e` is a failure `f` produced on some value of `src`.
pub open spec fn some_value_fails<K, A, B, E, F: Fn(A) -> Result<B, E>>(
    f: F,
    src: Map<K, A>,
    e: E,
) -> bool {
    exists|k: K|
        #[trigger] src.dom().contains(k) && call_ensures(f, (src[k],), Result::<B, E>::Err(e))
}

/// `dst` is the image of `src` under `f`: every member of `dst` is a
/// possible result of `f` on some member of `src`, and every member of
/// `src` has a possible result in `dst`.
pub open spec fn set_maps_to<A, B, F: Fn(A) -> B>(f: F, src: Set<A>, dst: Set<B>) -> bool {
    &&& forall|b: B|
        #[trigger] dst.contains(b) ==> exists|a: A| src.contains(a) && call_ensures(f, (a,), b)
    &&& forall|a: A|
        #[trigger] src.contains(a) ==> exists|b: B| call_ensures(f, (a,), b) && dst.contains(b)
}

/// `dst` is the image of `src` under a fallible `f`, every application
/// succeeding.
pub open spec fn try_set_maps_to<A, B, E, F: Fn(A) -> Result<B, E>>(
    f: F,
    src: Set<A>,
    dst: Set<B>,
) -> bool {
    &&& forall|b: B|
        #[trigger] dst.contains(b) ==> exists|a: A|
            src.contains(a) && call_ensures(f, (a,), Result::Ok(b))
    &&& forall|a: A|
        #[trigger] src.contains(a) ==> exists|b: B|
            call_ensures(f, (a,), Result::Ok(b)) && dst.contains(b)
}

/// `e` is a failure `f` produced on some member of `src`.
pub open spec fn some_member_fails<A, B, E, F: Fn(A) -> Result<B, E>>(
    f: F,
    src: Set<A>,
    e: E,
) -> bool {
    exists|a: A| #[trigger] src.contains(a) && call_ensures(f, (a,), Result::<B, E>::Err(e))
}

/// `dst` is `src` with every key mapped through `f`: each entry of `dst`
/// descends from an entry of `src` whose key maps to it, carrying that
/// entry's value, and every key of `src` has a possible image present in
/// `dst`.  When `f` sends two keys to one image, one of their values wins.
pub open spec fn keys_map_to<A, V, B, F: Fn(A) -> B>(f: F, src: Map<A, V>, dst: Map<B, V>) -> bool {
    &&& forall|b: B|
        #[trigger] dst.dom().contains(b) ==> exists|a: A|
            src.dom().contains(a) && call_ensures(f, (a,), b) && dst[b] == src[a]
    &&& forall|a: A|
        #[trigger] src.dom().contains(a) ==> exists|b: B|
            call_ensures(f, (a,), b) && dst.dom().contains(b)
}

/// `dst` is `src` with every key mapped through a fallible `f`, every
/// application succeeding.
pub open spec fn try_keys_map_to<A, V, B, E, F: Fn(A) -> Result<B, E>>(
    f: F,
    src: Map<A, V>,
    dst: Map<B, V>,
) -> bool {
    &&& forall|b: B|
        #[trigger] dst.dom().contains(b) ==> exists|a: A|
            src.dom().contains(a) && call_ensures(f, (a,), Result::Ok(b)) && dst[b] == src[a]
    &&& forall|a: A|
        #[trigger] src.dom().contains(a) ==> exists|b: B|
            call_ensures(f, (a,), Result::Ok(b)) && dst.dom().contains(b)
}

/// `e` is a failure `f` produced on some key of `src`.
pub open spec fn some_key_fails<A, V, B, E, F: Fn(A) -> Result<B, E>>(
    f: F,
    src: Map<A, V>,
    e: E,
) -> bool {
    exists|a: A|
        #[trigger] src.dom().contains(a) && call_ensures(f, (a,), Result::<B, E>::Err(e))
}

/// The uniform mapping operation over the first (default) mappable type
/// parameter, for containers with an ordered traversal.
pub trait Functor<A, B>: Sized {
    /// The container with `A` replaced by `B` at the mapped positions.
    type Target;

    /// The values at the mapped positions, in traversal order.
    spec fn elems(self) -> Seq<A>;

    /// The values at the mapped positions of a result, in traversal order.
    spec fn target_elems(t: Self::Target) -> Seq<B>;

    /// Everything outside the mapped positions agrees between input and
    /// result: the same constructor, the same length, the same untouched
    /// fields.
    spec fn same_shape(self, t: Self::Target) -> bool;

    fn fmap<F: Fn(A) -> B>(self, f: F) -> (r: Self::Target)
        requires
            forall|a: A| call_requires(f, (a,)),
        ensures
            self.same_shape(r),
            maps_to(f, self.elems(), Self::target_elems(r)),
    ;

    fn try_fmap<E, F: Fn(A) -> Result<B, E>>(self, f: F) -> (r: Result<Self::Target, E>)
        requires
            forall|a: A| call_requires(f, (a,)),
        ensures
            (match r {
                Result::Ok(t) => self.same_shape(t) && try_maps_to(
                    f,
                    self.elems(),
                    Self::target_elems(t),
                ),
                Result::Err(e) => first_failure(f, self.elems(), e),
            }),
    ;
}

/// The value-mapping operation of a two-parameter, map-like container: it
/// maps the value position, leaving every key in place.  The required
/// `__fmap_1_ref`/`__try_fmap_1_ref` methods are the capability a generated
/// routine's delegation addresses for the value position (type-argument
/// position 1); `fmap_values`/`try_fmap_values` are the exposed operations.
///
/// The contract is conditional on `modeled`: a hash- or order-based
/// container tracks its mathematical view only when its key type obeys the
/// key model, so each implementation states the model it needs.
pub trait FunctorValues<A, B>: Sized {
    /// The container with `A` replaced by `B` at the value position.
    type TargetV;

    /// The unchanged key type.
    type Key;

    /// The hypothesis under which the container's view is trustworthy.
    spec fn modeled(self) -> bool;

    /// The key-to-value view of the input.
    spec fn vals_src(self) -> Map<Self::Key, A>;

    /// The key-to-value view of the result.
    spec fn vals_dst(t: Self::TargetV) -> Map<Self::Key, B>;

    fn fmap_values<F: Fn(A) -> B>(self, f: F) -> (r: Self::TargetV)
        requires
            forall|a: A| call_requires(f, (a,)),
        ensures
            self.modeled() ==> map_maps_to(f, self.vals_src(), Self::vals_dst(r)),
    {
        self.__fmap_1_ref(f)
    }

    fn try_fmap_values<E, F: Fn(A) -> Result<B, E>>(self, f: F) -> (r: Result<Self::TargetV, E>)
        requires
            forall|a: A| call_requires(f, (a,)),
        ensures
            self.modeled() ==> (match r {
                Result::Ok(t) => try_map_maps_to(f, self.vals_src(), Self::vals_dst(t)),
                Result::Err(e) => some_value_fails(f, self.vals_src(), e),
            }),
    {
        self.__try_fmap_1_ref(f)
    }

    fn __fmap_1_ref<F: Fn(A) -> B>(self, f: F) -> (r: Self::TargetV)
        requires
            forall|a: A| call_requires(f, (a,)),
        ensures
            self.modeled() ==> map_maps_to(f, self.vals_src(), Self::vals_dst(r)),
    ;

    fn __try_fmap_1_ref<E, F: Fn(A) -> Result<B, E>>(self, f: F) -> (r: Result<Self::TargetV, E>)
        requires
            forall|a: A| call_requires(f, (a,)),
        ensures
            self.modeled() ==> (match r {
                Result::Ok(t) => try_map_maps_to(f, self.vals_src(), Self::vals_dst(t)),
                Result::Err(e) => some_value_fails(f, self.vals_src(), e),
            }),
    ;
}

/// The mapping operation addressed to type-argument position 0, used by
/// generated routines when they delegate into a field's container type.
pub trait Functor0<A, B>: Sized {
    /// The container with `A` replaced by `B` at position 0.
    type Target0;

    /// The values at position 0, in traversal order.
    spec fn elems0(self) -> Seq<A>;

    /// The values at position 0 of a result, in traversal order.
    spec fn target_elems0(t: Self::Target0) -> Seq<B>;

    /// Everything outside position 0 agrees between input and result.
    spec fn same_shape0(self, t: Self::Target0) -> bool;

    fn __fmap_0_ref<F: Fn(A) -> B>(self, f: F) -> (r: Self::Target0)
        requires
            forall|a: A| call_requires(f, (a,)),
        ensures
            self.same_shape0(r),
            maps_to(f, self.elems0(), Self::target_elems0(r)),
    ;

    fn __try_fmap_0_ref<E, F: Fn(A) -> Result<B, E>>(self, f: F) -> (r: Result<Self::Target0, E>)
        requires
            forall|a: A| call_requires(f, (a,)),
        ensures
            (match r {
                Result::Ok(t) => self.same_shape0(t) && try_maps_to(
                    f,
                    self.elems0(),
                    Self::target_elems0(t),
                ),
                Result::Err(e) => first_failure(f, self.elems0(), e),
            }),
    ;
}

/// The mapping operation addressed to type-argument position 1.
pub trait Functor1<A, B>: Sized {
    /// The container with `A` replaced by `B` at position 1.
    type Target1;

    /// The values at position 1, in traversal order.
    spec fn elems1(self) -> Seq<A>;

    /// The values at position 1 of a result, in traversal order.
    spec fn target_elems1(t: Self::Target1) -> Seq<B>;

    /// Everything outside position 1 agrees between input and result.
    spec fn same_shape1(self, t: Self::Target1) -> bool;

    fn __fmap_1_ref<F: Fn(A) -> B>(self, f: F) -> (r: Self::Target1)
        requires
            forall|a: A| call_requires(f, (a,)),
        ensures
            self.same_shape1(r),
            maps_to(f, self.elems1(), Self::target_elems1(r)),
    ;

    fn __try_fmap_1_ref<E, F: Fn(A) -> Result<B, E>>(self, f: F) -> (r: Result<Self::Target1, E>)
        requires
            forall|a: A| call_requires(f, (a,)),
        ensures
            (match r {
                Result::Ok(t) => self.same_shape1(t) && try_maps_to(
                    f,
                    self.elems1(),
                    Self::target_elems1(t),
                ),
                Result::Err(e) => first_failure(f, self.elems1(), e),
            }),
    ;
}

impl<A, B> Functor<A, B> for Option<A> {
    type Target = Option<B>;

    open spec fn elems(self) -> Seq<A> {
        match self {
            Option::Some(a) => seq![a],
            Option::None => Seq::empty(),
        }
    }

    open spec fn target_elems(t: Option<B>) -> Seq<B> {
        match t {
            Option::Some(b) => seq![b],
            Option::None => Seq::empty(),
        }
    }

    open spec fn same_shape(self, t: Option<B>) -> bool {
        self is Some <==> t is Some
    }

    fn fmap<F: Fn(A) -> B>(self, f: F) -> (r: Option<B>) {
        match self {
            Option::Some(a) => Option::Some(f(a)),
            Option::None => Option::None,
        }
    }

    fn try_fmap<E, F: Fn(A) -> Result<B, E>>(self, f: F) -> (r: Result<Option<B>, E>) {
        match self {
            Option::Some(a) => match f(a) {
                Result::Ok(b) => {
                    proof {
                        assert(<Self as Functor<A, B>>::elems(self)[0] == a);
                        assert(Self::target_elems(Option::Some(b))[0] == b);
                    }
                    Result::Ok(Option::Some(b))
                },
                Result::Err(e) => {
                    proof {
                        assert(<Self as Functor<A, B>>::elems(self)[0] == a);
                    }
                    Result::Err(e)
                },
            },
            Option::None => Result::Ok(Option::None),
        }
    }
}

impl<A, E0, B> Functor<A, B> for Result<A, E0> {
    type Target = Result<B, E0>;

    open spec fn elems(self) -> Seq<A> {
        match self {
            Result::Ok(a) => seq![a],
            Result::Err(_) => Seq::empty(),
        }
    }

    open spec fn target_elems(t: Result<B, E0>) -> Seq<B> {
        match t {
            Result::Ok(b) => seq![b],
            Result::Err(_) => Seq::empty(),
        }
    }

    open spec fn same_shape(self, t: Result<B, E0>) -> bool {
        match (self, t) {
            (Result::Ok(_), Result::Ok(_)) => true,
            (Result::Err(e), Result::Err(e2)) => e == e2,
            _ => false,
        }
    }

    /// Maps the success value; an `Err` input is returned unchanged.
    fn fmap<F: Fn(A) -> B>(self, f: F) -> (r: Result<B, E0>) {
        match self {
            Result::Ok(a) => Result::Ok(f(a)),
            Result::Err(e) => Result::Err(e),
        }
    }

    fn try_fmap<E, F: Fn(A) -> Result<B, E>>(self, f: F) -> (r: Result<Result<B, E0>, E>) {
        match self {
            Result::Ok(a) => match f(a) {
                Result::Ok(b) => {
                    proof {
                        assert(<Self as Functor<A, B>>::elems(self)[0] == a);
                        assert(Self::target_elems(Result::Ok(b))[0] == b);
                    }
                    Result::Ok(Result::Ok(b))
                },
                Result::Err(e) => {
                    proof {
                        assert(<Self as Functor<A, B>>::elems(self)[0] == a);
                    }
                    Result::Err(e)
                },
            },
            Result::Err(e) => Result::Ok(Result::Err(e)),
        }
    }
}

impl<A, B> Functor<A, B> for Vec<A> {
    type Target = Vec<B>;

    open spec fn elems(self) -> Seq<A> {
        self@
    }

    open spec fn target_elems(t: Vec<B>) -> Seq<B> {
        t@
    }

    open spec fn same_shape(self, t: Vec<B>) -> bool {
        self@.len() == t@.len()
    }

    fn fmap<F: Fn(A) -> B>(self, f: F) -> (r: Vec<B>) {
        let ghost orig = self@;
        let mut rest = self;
        let mut out: Vec<B> = Vec::new();
        while rest.len() > 0
            invariant
                forall|a: A| call_requires(f, (a,)),
                out@.len() + rest@.len() == orig.len(),
                rest@ == orig.subrange(out@.len() as int, orig.len() as int),
                forall|i: int|
                    0 <= i < out@.len() ==> call_ensures(f, (orig[i],), #[trigger] out@[i]),
            decreases rest@.len(),
        {
            let x = rest.remove(0);
            out.push(f(x));
        }
        out
    }

    fn try_fmap<E, F: Fn(A) -> Result<B, E>>(self, f: F) -> (r: Result<Vec<B>, E>) {
        let ghost orig = self@;
        let mut rest = self;
        let mut out: Vec<B> = Vec::new();
        while rest.len() > 0
            invariant
                forall|a: A| call_requires(f, (a,)),
                orig == self@,
                out@.len() + rest@.len() == orig.len(),
                rest@ == orig.subrange(out@.len() as int, orig.len() as int),
                forall|i: int|
                    0 <= i < out@.len() ==> call_ensures(
                        f,
                        (orig[i],),
                        Result::Ok(#[trigger] out@[i]),
                    ),
            decreases rest@.len(),
        {
            let x = rest.remove(0);
            match f(x) {
                Result::Ok(b) => out.push(b),
                Result::Err(e) => {
                    proof {
                        let i = out@.len() as int;
                        assert forall|j: int| 0 <= j < i implies can_succeed(
                            f,
                            #[trigger] orig[j],
                        ) by {
                            assert(call_ensures(f, (orig[j],), Result::Ok(out@[j])));
                        };
                        assert(call_ensures(f, (orig[i],), Result::<B, E>::Err(e)));
                        assert(first_failure(f, orig, e));
                    }
                    return Result::Err(e);
                },
            }
        }
        Result::Ok(out)
    }
}

impl<A, B> Functor<A, B> for Box<A> {
    type Target = Box<B>;

    open spec fn elems(self) -> Seq<A> {
        seq![*self]
    }

    open spec fn target_elems(t: Box<B>) -> Seq<B> {
        seq![*t]
    }

    open spec fn same_shape(self, t: Box<B>) -> bool {
        true
    }

    fn fmap<F: Fn(A) -> B>(self, f: F) -> (r: Box<B>) {
        Box::new(f(*self))
    }

    fn try_fmap<E, F: Fn(A) -> Result<B, E>>(self, f: F) -> (r: Result<Box<B>, E>) {
        let ghost a = *self;
        match f(*self) {
            Result::Ok(b) => {
                let rb = Box::new(b);
                proof {
                    assert(<Self as Functor<A, B>>::elems(self)[0] == a);
                    assert(Self::target_elems(rb)[0] == b);
                }
                Result::Ok(rb)
            },
            Result::Err(e) => {
                proof {
                    assert(<Self as Functor<A, B>>::elems(self)[0] == a);
                }
                Result::Err(e)
            },
        }
    }
}

} // verus!
