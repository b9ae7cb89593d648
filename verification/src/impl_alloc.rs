//! Mapping implementations for the growable sequence containers and the
//! ordered containers.
//!
//! An ordered container tracks its mathematical view only when its key
//! type's ordering behaves as the comparison specification says, so the
//! contracts of the map- and set-like operations are conditional on that
//! hypothesis, exactly as the hash containers' contracts are conditional on
//! the key model.
use crate::functor::{
    first_failure, keys_map_to, set_maps_to, some_key_fails, some_member_fails, try_keys_map_to,
    try_set_maps_to, Functor, Functor0, FunctorValues,
};
use std::collections::{BTreeMap, BTreeSet, VecDeque};
use vstd::laws_cmp::obeys_cmp;
use vstd::prelude::*;

verus! {

broadcast use vstd::std_specs::btree::group_btree_axioms;

impl<A, B> Functor0<A, B> for Vec<A> {
    type Target0 = Vec<B>;

    open spec fn elems0(self) -> Seq<A> {
        self@
    }

    open spec fn target_elems0(t: Vec<B>) -> Seq<B> {
        t@
    }

    open spec fn same_shape0(self, t: Vec<B>) -> bool {
        self@.len() == t@.len()
    }

    fn __fmap_0_ref<F: Fn(A) -> B>(self, f: F) -> (r: Vec<B>) {
        self.fmap(f)
    }

    fn __try_fmap_0_ref<E, F: Fn(A) -> Result<B, E>>(self, f: F) -> (r: Result<Vec<B>, E>) {
        self.try_fmap(f)
    }
}

impl<A, B> Functor<A, B> for VecDeque<A> {
    type Target = VecDeque<B>;

    open spec fn elems(self) -> Seq<A> {
        self@
    }

    open spec fn target_elems(t: VecDeque<B>) -> Seq<B> {
        t@
    }

    open spec fn same_shape(self, t: VecDeque<B>) -> bool {
        self@.len() == t@.len()
    }

    fn fmap<F: Fn(A) -> B>(self, f: F) -> (r: VecDeque<B>) {
        let ghost orig = self@;
        let mut rest = self;
        let mut out: VecDeque<B> = VecDeque::new();
        while rest.len() > 0
            invariant
                forall|a: A| call_requires(f, (a,)),
                out@.len() + rest@.len() == orig.len(),
                rest@ == orig.subrange(out@.len() as int, orig.len() as int),
                forall|i: int|
                    0 <= i < out@.len() ==> call_ensures(f, (orig[i],), #[trigger] out@[i]),
            decreases rest@.len(),
        {
            let x = match rest.pop_front() {
                Option::Some(x) => x,
                Option::None => unreached(),
            };
            out.push_back(f(x));
        }
        out
    }

    fn try_fmap<E, F: Fn(A) -> Result<B, E>>(self, f: F) -> (r: Result<VecDeque<B>, E>) {
        let ghost orig = self@;
        let mut rest = self;
        let mut out: VecDeque<B> = VecDeque::new();
        while rest.len() > 0
            invariant
                forall|a: A| call_requires(f, (a,)),
                orig == self@,
                out@.len() + rest@.len() == orig.len(),
                rest@ == orig.subrange(out@.len() as int, orig.len() as int),
                forall|i: int|
                    0 <= i < out@.len() ==> call_ensures(
                        f,
                        (orig[i],),
                        Result::Ok(#[trigger] out@[i]),
                    ),
            decreases rest@.len(),
        {
            let x = match rest.pop_front() {
                Option::Some(x) => x,
                Option::None => unreached(),
            };
            match f(x) {
                Result::Ok(b) => out.push_back(b),
                Result::Err(e) => {
                    proof {
                        let i = out@.len() as int;
                        assert forall|j: int| 0 <= j < i implies crate::functor::can_succeed(
                            f,
                            #[trigger] orig[j],
                        ) by {
                            assert(call_ensures(f, (orig[j],), Result::Ok(out@[j])));
                        };
                        assert(call_ensures(f, (orig[i],), Result::<B, E>::Err(e)));
                        assert(first_failure(f, orig, e));
                    }
                    return Result::Err(e);
                },
            }
        }
        Result::Ok(out)
    }
}

impl<A, B> Functor0<A, B> for VecDeque<A> {
    type Target0 = VecDeque<B>;

    open spec fn elems0(self) -> Seq<A> {
        self@
    }

    open spec fn target_elems0(t: VecDeque<B>) -> Seq<B> {
        t@
    }

    open spec fn same_shape0(self, t: VecDeque<B>) -> bool {
        self@.len() == t@.len()
    }

    fn __fmap_0_ref<F: Fn(A) -> B>(self, f: F) -> (r: VecDeque<B>) {
        self.fmap(f)
    }

    fn __try_fmap_0_ref<E, F: Fn(A) -> Result<B, E>>(self, f: F) -> (r: Result<VecDeque<B>, E>) {
        self.try_fmap(f)
    }
}


/// The key-mapping operation of an ordered map: it maps the key position,
/// leaving every value with its key.
pub trait FunctorOrdKeys<A: Ord, B: Ord>: Sized {
    /// The map with key type `A` replaced by `B`.
    type TargetK;

    /// The unchanged value type.
    type Value;

    /// The hypothesis under which both key types order faithfully.
    spec fn keys_modeled(self) -> bool;

    /// The key-to-value view of the input.
    spec fn keys_src(self) -> Map<A, Self::Value>;

    /// The key-to-value view of the result.
    spec fn keys_dst(t: Self::TargetK) -> Map<B, Self::Value>;

    fn fmap_keys<F: Fn(A) -> B>(self, f: F) -> (r: Self::TargetK)
        requires
            forall|a: A| call_requires(f, (a,)),
        ensures
            self.keys_modeled() ==> keys_map_to(f, self.keys_src(), Self::keys_dst(r)),
    {
        self.__fmap_0_ref(f)
    }

    fn try_fmap_keys<E, F: Fn(A) -> Result<B, E>>(self, f: F) -> (r: Result<Self::TargetK, E>)
        requires
            forall|a: A| call_requires(f, (a,)),
        ensures
            self.keys_modeled() ==> (match r {
                Result::Ok(t) => try_keys_map_to(f, self.keys_src(), Self::keys_dst(t)),
                Result::Err(e) => some_key_fails(f, self.keys_src(), e),
            }),
    {
        self.__try_fmap_0_ref(f)
    }

    fn __fmap_0_ref<F: Fn(A) -> B>(self, f: F) -> (r: Self::TargetK)
        requires
            forall|a: A| call_requires(f, (a,)),
        ensures
            self.keys_modeled() ==> keys_map_to(f, self.keys_src(), Self::keys_dst(r)),
    ;

    fn __try_fmap_0_ref<E, F: Fn(A) -> Result<B, E>>(self, f: F) -> (r: Result<Self::TargetK, E>)
        requires
            forall|a: A| call_requires(f, (a,)),
        ensures
            self.keys_modeled() ==> (match r {
                Result::Ok(t) => try_keys_map_to(f, self.keys_src(), Self::keys_dst(t)),
                Result::Err(e) => some_key_fails(f, self.keys_src(), e),
            }),
    ;
}

/// The mapping operation of an ordered set.
pub trait FunctorBTreeSet<A: Ord, B: Ord>: Sized {
    /// The set with element type `A` replaced by `B`.
    type TargetS;

    /// The hypothesis under which both element types order faithfully.
    spec fn set_modeled(self) -> bool;

    /// The element view of the input.
    spec fn set_src(self) -> Set<A>;

    /// The element view of the result.
    spec fn set_dst(t: Self::TargetS) -> Set<B>;

    fn fmap<F: Fn(A) -> B>(self, f: F) -> (r: Self::TargetS)
        requires
            forall|a: A| call_requires(f, (a,)),
        ensures
            self.set_modeled() ==> set_maps_to(f, self.set_src(), Self::set_dst(r)),
    {
        self.__fmap_0_ref(f)
    }

    fn try_fmap<E, F: Fn(A) -> Result<B, E>>(self, f: F) -> (r: Result<Self::TargetS, E>)
        requires
            forall|a: A| call_requires(f, (a,)),
        ensures
            self.set_modeled() ==> (match r {
                Result::Ok(t) => try_set_maps_to(f, self.set_src(), Self::set_dst(t)),
                Result::Err(e) => some_member_fails(f, self.set_src(), e),
            }),
    {
        self.__try_fmap_0_ref(f)
    }

    fn __fmap_0_ref<F: Fn(A) -> B>(self, f: F) -> (r: Self::TargetS)
        requires
            forall|a: A| call_requires(f, (a,)),
        ensures
            self.set_modeled() ==> set_maps_to(f, self.set_src(), Self::set_dst(r)),
    ;

    fn __try_fmap_0_ref<E, F: Fn(A) -> Result<B, E>>(self, f: F) -> (r: Result<Self::TargetS, E>)
        requires
            forall|a: A| call_requires(f, (a,)),
        ensures
            self.set_modeled() ==> (match r {
                Result::Ok(t) => try_set_maps_to(f, self.set_src(), Self::set_dst(t)),
                Result::Err(e) => some_member_fails(f, self.set_src(), e),
            }),
    ;
}

/// Relies on std's `BTreeMap` into-iteration (through `Vec::from_iter`):
/// consuming a map yields exactly its entries, each key once.  The view of
/// a map is trustworthy only when its keys order faithfully, so the
/// contract is conditional on it.
#[verifier::external_body]
fn btree_map_into_pairs<K: Ord, V>(m: BTreeMap<K, V>) -> (r: Vec<(K, V)>)
    ensures
        obeys_cmp::<K>() ==> {
            &&& forall|i: int|
                0 <= i < r@.len() ==> m@.contains_pair((#[trigger] r@[i]).0, r@[i].1)
            &&& forall|i: int, j: int|
                0 <= i < j < r@.len() ==> (#[trigger] r@[i]).0 != (#[trigger] r@[j]).0
            &&& forall|k: K|
                #[trigger] m@.dom().contains(k) ==> exists|i: int|
                    0 <= i < r@.len() && r@[i].0 == k
        },
{
    Vec::from_iter(m)
}

/// Relies on std's `BTreeSet` into-iteration (through `Vec::from_iter`):
/// consuming a set yields exactly its members.
#[verifier::external_body]
fn btree_set_into_vec<K: Ord>(s: BTreeSet<K>) -> (r: Vec<K>)
    ensures
        obeys_cmp::<K>() ==> {
            &&& forall|i: int| 0 <= i < r@.len() ==> s@.contains(#[trigger] r@[i])
            &&& forall|k: K|
                #[trigger] s@.contains(k) ==> exists|i: int| 0 <= i < r@.len() && r@[i] == k
        },
{
    Vec::from_iter(s)
}

impl<K: Ord, A, B> FunctorValues<A, B> for BTreeMap<K, A> {
    type TargetV = BTreeMap<K, B>;

    type Key = K;

    open spec fn modeled(self) -> bool {
        obeys_cmp::<K>()
    }

    open spec fn vals_src(self) -> Map<K, A> {
        self@
    }

    open spec fn vals_dst(t: BTreeMap<K, B>) -> Map<K, B> {
        t@
    }

    #[verifier::loop_isolation(false)]
    fn __fmap_1_ref<F: Fn(A) -> B>(self, f: F) -> (r: BTreeMap<K, B>) {
        let ghost src = self@;
        let ghost md = obeys_cmp::<K>();
        let mut rest = btree_map_into_pairs(self);
        let ghost ps = rest@;
        let mut out: BTreeMap<K, B> = BTreeMap::new();
        while rest.len() > 0
            invariant
                forall|a: A| call_requires(f, (a,)),
                rest@.len() <= ps.len(),
                rest@ == ps.subrange(ps.len() - rest@.len(), ps.len() as int),
                md ==> {
                    &&& forall|i: int|
                        0 <= i < ps.len() - rest@.len() ==> out@.dom().contains(
                            (#[trigger] ps[i]).0,
                        ) && call_ensures(f, (ps[i].1,), out@[ps[i].0])
                    &&& forall|k: K|
                        #[trigger] out@.dom().contains(k) ==> exists|i: int|
                            0 <= i < ps.len() - rest@.len() && ps[i].0 == k
                },
            decreases rest@.len(),
        {
            let ghost cnt = ps.len() - rest@.len();
            let (k, a) = rest.remove(0);
            let b = f(a);
            proof {
                assert(ps[cnt] == (k, a));
            }
            out.insert(k, b);
        }
        proof {
            if md {
                assert forall|k: K| #[trigger] src.dom().contains(k) implies out@.dom().contains(
                    k,
                ) && call_ensures(f, (src[k],), out@[k]) by {
                    let i = choose|i: int| 0 <= i < ps.len() && ps[i].0 == k;
                    assert(src.contains_pair(ps[i].0, ps[i].1));
                }
                assert forall|k: K| #[trigger] out@.dom().contains(k) implies src.dom().contains(
                    k,
                ) by {
                    let i = choose|i: int| 0 <= i < ps.len() && ps[i].0 == k;
                    assert(src.contains_pair(ps[i].0, ps[i].1));
                }
                assert(out@.dom() =~= src.dom());
            }
        }
        out
    }

    #[verifier::loop_isolation(false)]
    fn __try_fmap_1_ref<E, F: Fn(A) -> Result<B, E>>(self, f: F) -> (r: Result<BTreeMap<K, B>, E>) {
        let ghost src = self@;
        let ghost md = obeys_cmp::<K>();
        let mut rest = btree_map_into_pairs(self);
        let ghost ps = rest@;
        let mut out: BTreeMap<K, B> = BTreeMap::new();
        while rest.len() > 0
            invariant
                forall|a: A| call_requires(f, (a,)),
                rest@.len() <= ps.len(),
                rest@ == ps.subrange(ps.len() - rest@.len(), ps.len() as int),
                md ==> {
                    &&& forall|i: int|
                        0 <= i < ps.len() - rest@.len() ==> out@.dom().contains(
                            (#[trigger] ps[i]).0,
                        ) && call_ensures(f, (ps[i].1,), Result::Ok(out@[ps[i].0]))
                    &&& forall|k: K|
                        #[trigger] out@.dom().contains(k) ==> exists|i: int|
                            0 <= i < ps.len() - rest@.len() && ps[i].0 == k
                },
            decreases rest@.len(),
        {
            let ghost cnt = ps.len() - rest@.len();
            let (k, a) = rest.remove(0);
            proof {
                assert(ps[cnt] == (k, a));
            }
            match f(a) {
                Result::Ok(b) => {
                    out.insert(k, b);
                },
                Result::Err(e) => {
                    proof {
                        if md {
                            assert(src.contains_pair(k, a));
                            assert(src.dom().contains(k) && call_ensures(
                                f,
                                (src[k],),
                                Result::<B, E>::Err(e),
                            ));
                        }
                    }
                    return Result::Err(e);
                },
            }
        }
        proof {
            if md {
                assert forall|k: K| #[trigger] src.dom().contains(k) implies out@.dom().contains(
                    k,
                ) && call_ensures(f, (src[k],), Result::Ok(out@[k])) by {
                    let i = choose|i: int| 0 <= i < ps.len() && ps[i].0 == k;
                    assert(src.contains_pair(ps[i].0, ps[i].1));
                }
                assert forall|k: K| #[trigger] out@.dom().contains(k) implies src.dom().contains(
                    k,
                ) by {
                    let i = choose|i: int| 0 <= i < ps.len() && ps[i].0 == k;
                    assert(src.contains_pair(ps[i].0, ps[i].1));
                }
                assert(out@.dom() =~= src.dom());
            }
        }
        Result::Ok(out)
    }
}

impl<A: Ord, V, B: Ord> FunctorOrdKeys<A, B> for BTreeMap<A, V> {
    type TargetK = BTreeMap<B, V>;

    type Value = V;

    open spec fn keys_modeled(self) -> bool {
        obeys_cmp::<A>() && obeys_cmp::<B>()
    }

    open spec fn keys_src(self) -> Map<A, V> {
        self@
    }

    open spec fn keys_dst(t: BTreeMap<B, V>) -> Map<B, V> {
        t@
    }

    #[verifier::loop_isolation(false)]
    fn __fmap_0_ref<F: Fn(A) -> B>(self, f: F) -> (r: BTreeMap<B, V>) {
        let ghost src = self@;
        let ghost md = obeys_cmp::<A>() && obeys_cmp::<B>();
        let mut rest = btree_map_into_pairs(self);
        let ghost ps = rest@;
        let mut out: BTreeMap<B, V> = BTreeMap::new();
        while rest.len() > 0
            invariant
                forall|a: A| call_requires(f, (a,)),
                rest@.len() <= ps.len(),
                rest@ == ps.subrange(ps.len() - rest@.len(), ps.len() as int),
                md ==> {
                    &&& forall|i: int|
                        0 <= i < ps.len() - rest@.len() ==> exists|b: B|
                            call_ensures(f, ((#[trigger] ps[i]).0,), b) && out@.dom().contains(b)
                    &&& forall|b: B|
                        #[trigger] out@.dom().contains(b) ==> exists|i: int|
                            0 <= i < ps.len() - rest@.len() && call_ensures(f, (ps[i].0,), b)
                                && out@[b] == ps[i].1
                },
            decreases rest@.len(),
        {
            let ghost cnt = ps.len() - rest@.len();
            let (a, v) = rest.remove(0);
            proof {
                assert(ps[cnt] == (a, v));
            }
            let b = f(a);
            let ghost oldout = out@;
            out.insert(b, v);
            proof {
                if md {
                    assert forall|i: int| 0 <= i < cnt + 1 implies exists|bb: B|
                        call_ensures(f, ((#[trigger] ps[i]).0,), bb) && out@.dom().contains(
                        bb,
                    ) by {
                        if i < cnt {
                            let bb = choose|bb: B|
                                call_ensures(f, (ps[i].0,), bb) && oldout.dom().contains(bb);
                            assert(out@.dom().contains(bb));
                        } else {
                            assert(call_ensures(f, (ps[cnt].0,), b) && out@.dom().contains(b));
                        }
                    };
                    assert forall|bb: B| #[trigger] out@.dom().contains(bb) implies exists|i: int|
                        0 <= i < cnt + 1 && call_ensures(f, (ps[i].0,), bb) && out@[bb]
                        == ps[i].1 by {
                        if bb == b {
                            assert(call_ensures(f, (ps[cnt].0,), bb) && out@[bb] == ps[cnt].1);
                        } else {
                            let i = choose|i: int|
                                0 <= i < cnt && call_ensures(f, ((#[trigger] ps[i]).0,), bb)
                                    && oldout[bb] == ps[i].1;
                            assert(call_ensures(f, (ps[i].0,), bb) && out@[bb] == ps[i].1);
                        }
                    };
                }
            }
        }
        proof {
            if md {
                assert forall|b: B| #[trigger] out@.dom().contains(b) implies exists|a: A|
                    src.dom().contains(a) && call_ensures(f, (a,), b) && out@[b] == src[a] by {
                    let i = choose|i: int|
                        0 <= i < ps.len() && call_ensures(f, ((#[trigger] ps[i]).0,), b) && out@[b]
                            == ps[i].1;
                    assert(src.contains_pair(ps[i].0, ps[i].1));
                }
                assert forall|a: A| #[trigger] src.dom().contains(a) implies exists|b: B|
                    call_ensures(f, (a,), b) && out@.dom().contains(b) by {
                    let i = choose|i: int| 0 <= i < ps.len() && (#[trigger] ps[i]).0 == a;
                    assert(src.contains_pair(ps[i].0, ps[i].1));
                }
            }
        }
        out
    }

    #[verifier::loop_isolation(false)]
    fn __try_fmap_0_ref<E, F: Fn(A) -> Result<B, E>>(self, f: F) -> (r: Result<BTreeMap<B, V>, E>) {
        let ghost src = self@;
        let ghost md = obeys_cmp::<A>() && obeys_cmp::<B>();
        let mut rest = btree_map_into_pairs(self);
        let ghost ps = rest@;
        let mut out: BTreeMap<B, V> = BTreeMap::new();
        while rest.len() > 0
            invariant
                forall|a: A| call_requires(f, (a,)),
                rest@.len() <= ps.len(),
                rest@ == ps.subrange(ps.len() - rest@.len(), ps.len() as int),
                md ==> {
                    &&& forall|i: int|
                        0 <= i < ps.len() - rest@.len() ==> exists|b: B|
                            call_ensures(f, ((#[trigger] ps[i]).0,), Result::Ok(b))
                                && out@.dom().contains(b)
                    &&& forall|b: B|
                        #[trigger] out@.dom().contains(b) ==> exists|i: int|
                            0 <= i < ps.len() - rest@.len() && call_ensures(
                                f,
                                (ps[i].0,),
                                Result::Ok(b),
                            ) && out@[b] == ps[i].1
                },
            decreases rest@.len(),
        {
            let ghost cnt = ps.len() - rest@.len();
            let (a, v) = rest.remove(0);
            proof {
                assert(ps[cnt] == (a, v));
            }
            match f(a) {
                Result::Ok(b) => {
                    let ghost oldout = out@;
                    out.insert(b, v);
                    proof {
                        if md {
                            assert forall|i: int| 0 <= i < cnt + 1 implies exists|bb: B|
                                call_ensures(f, ((#[trigger] ps[i]).0,), Result::Ok(bb))
                                    && out@.dom().contains(bb) by {
                                if i < cnt {
                                    let bb = choose|bb: B|
                                        call_ensures(f, (ps[i].0,), Result::Ok(bb))
                                            && oldout.dom().contains(bb);
                                    assert(out@.dom().contains(bb));
                                } else {
                                    assert(call_ensures(f, (ps[cnt].0,), Result::Ok(b))
                                        && out@.dom().contains(b));
                                }
                            };
                            assert forall|bb: B| #[trigger] out@.dom().contains(
                                bb,
                            ) implies exists|i: int|
                                0 <= i < cnt + 1 && call_ensures(f, (ps[i].0,), Result::Ok(bb))
                                    && out@[bb] == ps[i].1 by {
                                if bb == b {
                                    assert(call_ensures(f, (ps[cnt].0,), Result::Ok(bb)) && out@[bb]
                                        == ps[cnt].1);
                                } else {
                                    let i = choose|i: int|
                                        0 <= i < cnt && call_ensures(
                                            f,
                                            ((#[trigger] ps[i]).0,),
                                            Result::Ok(bb),
                                        ) && oldout[bb] == ps[i].1;
                                    assert(call_ensures(f, (ps[i].0,), Result::Ok(bb)) && out@[bb]
                                        == ps[i].1);
                                }
                            };
                        }
                    }
                },
                Result::Err(e) => {
                    proof {
                        if md {
                            assert(src.contains_pair(a, v));
                            assert(src.dom().contains(a) && call_ensures(
                                f,
                                (a,),
                                Result::<B, E>::Err(e),
                            ));
                        }
                    }
                    return Result::Err(e);
                },
            }
        }
        proof {
            if md {
                assert forall|b: B| #[trigger] out@.dom().contains(b) implies exists|a: A|
                    src.dom().contains(a) && call_ensures(f, (a,), Result::Ok(b)) && out@[b]
                    == src[a] by {
                    let i = choose|i: int|
                        0 <= i < ps.len() && call_ensures(f, ((#[trigger] ps[i]).0,), Result::Ok(b))
                            && out@[b] == ps[i].1;
                    assert(src.contains_pair(ps[i].0, ps[i].1));
                }
                assert forall|a: A| #[trigger] src.dom().contains(a) implies exists|b: B|
                    call_ensures(f, (a,), Result::Ok(b)) && out@.dom().contains(b) by {
                    let i = choose|i: int| 0 <= i < ps.len() && (#[trigger] ps[i]).0 == a;
                    assert(src.contains_pair(ps[i].0, ps[i].1));
                }
            }
        }
        Result::Ok(out)
    }
}

impl<A: Ord, B: Ord> FunctorBTreeSet<A, B> for BTreeSet<A> {
    type TargetS = BTreeSet<B>;

    open spec fn set_modeled(self) -> bool {
        obeys_cmp::<A>() && obeys_cmp::<B>()
    }

    open spec fn set_src(self) -> Set<A> {
        self@
    }

    open spec fn set_dst(t: BTreeSet<B>) -> Set<B> {
        t@
    }

    #[verifier::rlimit(60)]
    #[verifier::loop_isolation(false)]
    fn __fmap_0_ref<F: Fn(A) -> B>(self, f: F) -> (r: BTreeSet<B>) {
        let ghost src = self@;
        let ghost md = obeys_cmp::<A>() && obeys_cmp::<B>();
        let mut rest = btree_set_into_vec(self);
        let ghost ps = rest@;
        let mut out: BTreeSet<B> = BTreeSet::new();
        while rest.len() > 0
            invariant
                forall|a: A| call_requires(f, (a,)),
                rest@.len() <= ps.len(),
                rest@ == ps.subrange(ps.len() - rest@.len(), ps.len() as int),
                md ==> {
                    &&& forall|i: int|
                        0 <= i < ps.len() - rest@.len() ==> exists|b: B|
                            call_ensures(f, (#[trigger] ps[i],), b) && out@.contains(b)
                    &&& forall|b: B|
                        #[trigger] out@.contains(b) ==> exists|i: int|
                            0 <= i < ps.len() - rest@.len() && call_ensures(f, (ps[i],), b)
                },
            decreases rest@.len(),
        {
            let ghost cnt = ps.len() - rest@.len();
            let a = rest.remove(0);
            proof {
                assert(ps[cnt] == a);
            }
            let b = f(a);
            let ghost oldout = out@;
            out.insert(b);
            proof {
                if md {
                    assert forall|i: int| 0 <= i < cnt + 1 implies exists|bb: B|
                        call_ensures(f, (#[trigger] ps[i],), bb) && out@.contains(bb) by {
                        if i < cnt {
                            let bb = choose|bb: B|
                                call_ensures(f, (ps[i],), bb) && oldout.contains(bb);
                            assert(out@.contains(bb));
                        } else {
                            assert(call_ensures(f, (ps[cnt],), b) && out@.contains(b));
                        }
                    };
                    assert forall|bb: B| #[trigger] out@.contains(bb) implies exists|i: int|
                        0 <= i < cnt + 1 && call_ensures(f, (ps[i],), bb) by {
                        if bb == b {
                            assert(call_ensures(f, (ps[cnt],), bb));
                        } else {
                            let i = choose|i: int|
                                0 <= i < cnt && call_ensures(f, (#[trigger] ps[i],), bb);
                            assert(call_ensures(f, (ps[i],), bb));
                        }
                    };
                }
            }
        }
        proof {
            if md {
                assert forall|b: B| #[trigger] out@.contains(b) implies exists|a: A|
                    src.contains(a) && call_ensures(f, (a,), b) by {
                    let i = choose|i: int|
                        0 <= i < ps.len() && call_ensures(f, (#[trigger] ps[i],), b);
                    assert(src.contains(ps[i]));
                }
                assert forall|a: A| #[trigger] src.contains(a) implies exists|b: B|
                    call_ensures(f, (a,), b) && out@.contains(b) by {
                    let i = choose|i: int| 0 <= i < ps.len() && #[trigger] ps[i] == a;
                }
            }
        }
        out
    }

    #[verifier::rlimit(60)]
    #[verifier::loop_isolation(false)]
    fn __try_fmap_0_ref<E, F: Fn(A) -> Result<B, E>>(self, f: F) -> (r: Result<BTreeSet<B>, E>) {
        let ghost src = self@;
        let ghost md = obeys_cmp::<A>() && obeys_cmp::<B>();
        let mut rest = btree_set_into_vec(self);
        let ghost ps = rest@;
        let mut out: BTreeSet<B> = BTreeSet::new();
        while rest.len() > 0
            invariant
                forall|a: A| call_requires(f, (a,)),
                rest@.len() <= ps.len(),
                rest@ == ps.subrange(ps.len() - rest@.len(), ps.len() as int),
                md ==> {
                    &&& forall|i: int|
                        0 <= i < ps.len() - rest@.len() ==> exists|b: B|
                            call_ensures(f, (#[trigger] ps[i],), Result::Ok(b)) && out@.contains(b)
                    &&& forall|b: B|
                        #[trigger] out@.contains(b) ==> exists|i: int|
                            0 <= i < ps.len() - rest@.len() && call_ensures(
                                f,
                                (ps[i],),
                                Result::Ok(b),
                            )
                },
            decreases rest@.len(),
        {
            let ghost cnt = ps.len() - rest@.len();
            let a = rest.remove(0);
            proof {
                assert(ps[cnt] == a);
            }
            match f(a) {
                Result::Ok(b) => {
                    let ghost oldout = out@;
                    out.insert(b);
                    proof {
                        if md {
                            assert forall|i: int| 0 <= i < cnt + 1 implies exists|bb: B|
                                call_ensures(f, (#[trigger] ps[i],), Result::Ok(bb))
                                    && out@.contains(bb) by {
                                if i < cnt {
                                    let bb = choose|bb: B|
                                        call_ensures(f, (ps[i],), Result::Ok(bb)) && oldout.contains(
                                            bb,
                                        );
                                    assert(out@.contains(bb));
                                } else {
                                    assert(call_ensures(f, (ps[cnt],), Result::Ok(b))
                                        && out@.contains(b));
                                }
                            };
                            assert forall|bb: B| #[trigger] out@.contains(bb) implies exists|i: int|
                                0 <= i < cnt + 1 && call_ensures(f, (ps[i],), Result::Ok(bb)) by {
                                if bb == b {
                                    assert(call_ensures(f, (ps[cnt],), Result::Ok(bb)));
                                } else {
                                    let i = choose|i: int|
                                        0 <= i < cnt && call_ensures(
                                            f,
                                            (#[trigger] ps[i],),
                                            Result::Ok(bb),
                                        );
                                    assert(call_ensures(f, (ps[i],), Result::Ok(bb)));
                                }
                            };
                        }
                    }
                },
                Result::Err(e) => {
                    proof {
                        if md {
                            assert(src.contains(a) && call_ensures(
                                f,
                                (a,),
                                Result::<B, E>::Err(e),
                            ));
                        }
                    }
                    return Result::Err(e);
                },
            }
        }
        proof {
            if md {
                assert forall|b: B| #[trigger] out@.contains(b) implies exists|a: A|
                    src.contains(a) && call_ensures(f, (a,), Result::Ok(b)) by {
                    let i = choose|i: int|
                        0 <= i < ps.len() && call_ensures(f, (#[trigger] ps[i],), Result::Ok(b));
                    assert(src.contains(ps[i]));
                }
                assert forall|a: A| #[trigger] src.contains(a) implies exists|b: B|
                    call_ensures(f, (a,), Result::Ok(b)) && out@.contains(b) by {
                    let i = choose|i: int| 0 <= i < ps.len() && #[trigger] ps[i] == a;
                }
            }
        }
        Result::Ok(out)
    }
}

} // verus!
