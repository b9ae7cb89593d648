//! Mapping implementations for the hash containers.
//!
//! A hash container tracks its mathematical view only when its key type
//! obeys the hash-table key model and its hasher builder is valid, so every
//! contract here is conditional on that hypothesis (vstd provides it for
//! the primitive key types and the standard hasher).  Iteration order of a
//! hash container is arbitrary, which is why the key-mapping contract
//! promises only which entries survive — when two keys map to one image,
//! one of their values wins — and the fallible contracts name no failing
//! position.
use crate::functor::{
    keys_map_to, set_maps_to, some_key_fails, some_member_fails, try_keys_map_to, try_set_maps_to,
    FunctorValues,
};
use std::collections::{HashMap, HashSet};
use std::hash::{Hash, RandomState};
use vstd::prelude::*;
use vstd::std_specs::hash::{builds_valid_hashers, obeys_key_model};

verus! {

broadcast use vstd::std_specs::hash::group_hash_axioms;

/// The key-mapping operation of a hash map: it maps the key position,
/// leaving every value with its key.
pub trait FunctorHashKeys<A: Hash + Eq, B: Hash + Eq>: Sized {
    /// The map with key type `A` replaced by `B`.
    type TargetK;

    /// The unchanged value type.
    type Value;

    /// The hypothesis under which both key types obey the key model.
    spec fn keys_modeled(self) -> bool;

    /// The key-to-value view of the input.
    spec fn keys_src(self) -> Map<A, Self::Value>;

    /// The key-to-value view of the result.
    spec fn keys_dst(t: Self::TargetK) -> Map<B, Self::Value>;

    fn fmap_keys<F: Fn(A) -> B>(self, f: F) -> (r: Self::TargetK)
        requires
            forall|a: A| call_requires(f, (a,)),
        ensures
            self.keys_modeled() ==> keys_map_to(f, self.keys_src(), Self::keys_dst(r)),
    {
        self.__fmap_0_ref(f)
    }

    fn try_fmap_keys<E, F: Fn(A) -> Result<B, E>>(self, f: F) -> (r: Result<Self::TargetK, E>)
        requires
            forall|a: A| call_requires(f, (a,)),
        ensures
            self.keys_modeled() ==> (match r {
                Result::Ok(t) => try_keys_map_to(f, self.keys_src(), Self::keys_dst(t)),
                Result::Err(e) => some_key_fails(f, self.keys_src(), e),
            }),
    {
        self.__try_fmap_0_ref(f)
    }

    fn __fmap_0_ref<F: Fn(A) -> B>(self, f: F) -> (r: Self::TargetK)
        requires
            forall|a: A| call_requires(f, (a,)),
        ensures
            self.keys_modeled() ==> keys_map_to(f, self.keys_src(), Self::keys_dst(r)),
    ;

    fn __try_fmap_0_ref<E, F: Fn(A) -> Result<B, E>>(self, f: F) -> (r: Result<Self::TargetK, E>)
        requires
            forall|a: A| call_requires(f, (a,)),
        ensures
            self.keys_modeled() ==> (match r {
                Result::Ok(t) => try_keys_map_to(f, self.keys_src(), Self::keys_dst(t)),
                Result::Err(e) => some_key_fails(f, self.keys_src(), e),
            }),
    ;
}

/// The mapping operation of a hash set.
pub trait FunctorHashSet<A: Hash + Eq, B: Hash + Eq>: Sized {
    /// The set with element type `A` replaced by `B`.
    type TargetS;

    /// The hypothesis under which both element types obey the key model.
    spec fn set_modeled(self) -> bool;

    /// The element view of the input.
    spec fn set_src(self) -> Set<A>;

    /// The element view of the result.
    spec fn set_dst(t: Self::TargetS) -> Set<B>;

    fn fmap<F: Fn(A) -> B>(self, f: F) -> (r: Self::TargetS)
        requires
            forall|a: A| call_requires(f, (a,)),
        ensures
            self.set_modeled() ==> set_maps_to(f, self.set_src(), Self::set_dst(r)),
    {
        self.__fmap_0_ref(f)
    }

    fn try_fmap<E, F: Fn(A) -> Result<B, E>>(self, f: F) -> (r: Result<Self::TargetS, E>)
        requires
            forall|a: A| call_requires(f, (a,)),
        ensures
            self.set_modeled() ==> (match r {
                Result::Ok(t) => try_set_maps_to(f, self.set_src(), Self::set_dst(t)),
                Result::Err(e) => some_member_fails(f, self.set_src(), e),
            }),
    {
        self.__try_fmap_0_ref(f)
    }

    fn __fmap_0_ref<F: Fn(A) -> B>(self, f: F) -> (r: Self::TargetS)
        requires
            forall|a: A| call_requires(f, (a,)),
        ensures
            self.set_modeled() ==> set_maps_to(f, self.set_src(), Self::set_dst(r)),
    ;

    fn __try_fmap_0_ref<E, F: Fn(A) -> Result<B, E>>(self, f: F) -> (r: Result<Self::TargetS, E>)
        requires
            forall|a: A| call_requires(f, (a,)),
        ensures
            self.set_modeled() ==> (match r {
                Result::Ok(t) => try_set_maps_to(f, self.set_src(), Self::set_dst(t)),
                Result::Err(e) => some_member_fails(f, self.set_src(), e),
            }),
    ;
}

/// Relies on std's `HashMap` into-iteration (through `Vec::from_iter`):
/// consuming a map yields exactly its entries, each key once, in no
/// particular order.  The view of a map is trustworthy only under the key
/// model, so the contract is conditional on it.
#[verifier::external_body]
fn hash_map_into_pairs<K, V>(m: HashMap<K, V>) -> (r: Vec<(K, V)>)
    ensures
        obeys_key_model::<K>() ==> {
            &&& forall|i: int|
                0 <= i < r@.len() ==> m@.contains_pair((#[trigger] r@[i]).0, r@[i].1)
            &&& forall|i: int, j: int|
                0 <= i < j < r@.len() ==> (#[trigger] r@[i]).0 != (#[trigger] r@[j]).0
            &&& forall|k: K|
                #[trigger] m@.dom().contains(k) ==> exists|i: int|
                    0 <= i < r@.len() && r@[i].0 == k
        },
{
    Vec::from_iter(m)
}

/// Relies on std's `HashSet` into-iteration (through `Vec::from_iter`):
/// consuming a set yields exactly its members, in no particular order.
#[verifier::external_body]
fn hash_set_into_vec<K>(s: HashSet<K>) -> (r: Vec<K>)
    ensures
        obeys_key_model::<K>() ==> {
            &&& forall|i: int| 0 <= i < r@.len() ==> s@.contains(#[trigger] r@[i])
            &&& forall|k: K|
                #[trigger] s@.contains(k) ==> exists|i: int| 0 <= i < r@.len() && r@[i] == k
        },
{
    Vec::from_iter(s)
}

impl<K: Eq + Hash, A, B> FunctorValues<A, B> for HashMap<K, A> {
    type TargetV = HashMap<K, B>;

    type Key = K;

    open spec fn modeled(self) -> bool {
        obeys_key_model::<K>() && builds_valid_hashers::<RandomState>()
    }

    open spec fn vals_src(self) -> Map<K, A> {
        self@
    }

    open spec fn vals_dst(t: HashMap<K, B>) -> Map<K, B> {
        t@
    }

    #[verifier::loop_isolation(false)]
    fn __fmap_1_ref<F: Fn(A) -> B>(self, f: F) -> (r: HashMap<K, B>) {
        let ghost src = self@;
        let ghost md = obeys_key_model::<K>() && builds_valid_hashers::<RandomState>();
        let mut rest = hash_map_into_pairs(self);
        let ghost ps = rest@;
        let mut out: HashMap<K, B> = HashMap::new();
        while rest.len() > 0
            invariant
                forall|a: A| call_requires(f, (a,)),
                rest@.len() <= ps.len(),
                rest@ == ps.subrange(ps.len() - rest@.len(), ps.len() as int),
                md ==> {
                    &&& forall|i: int|
                        0 <= i < ps.len() - rest@.len() ==> out@.dom().contains(
                            (#[trigger] ps[i]).0,
                        ) && call_ensures(f, (ps[i].1,), out@[ps[i].0])
                    &&& forall|k: K|
                        #[trigger] out@.dom().contains(k) ==> exists|i: int|
                            0 <= i < ps.len() - rest@.len() && ps[i].0 == k
                },
            decreases rest@.len(),
        {
            let ghost cnt = ps.len() - rest@.len();
            let (k, a) = rest.remove(0);
            let b = f(a);
            proof {
                assert(ps[cnt] == (k, a));
            }
            out.insert(k, b);
        }
        proof {
            if md {
                assert forall|k: K| #[trigger] src.dom().contains(k) implies out@.dom().contains(
                    k,
                ) && call_ensures(f, (src[k],), out@[k]) by {
                    let i = choose|i: int| 0 <= i < ps.len() && ps[i].0 == k;
                    assert(src.contains_pair(ps[i].0, ps[i].1));
                }
                assert forall|k: K| #[trigger] out@.dom().contains(k) implies src.dom().contains(
                    k,
                ) by {
                    let i = choose|i: int| 0 <= i < ps.len() && ps[i].0 == k;
                    assert(src.contains_pair(ps[i].0, ps[i].1));
                }
                assert(out@.dom() =~= src.dom());
            }
        }
        out
    }

    #[verifier::loop_isolation(false)]
    fn __try_fmap_1_ref<E, F: Fn(A) -> Result<B, E>>(self, f: F) -> (r: Result<HashMap<K, B>, E>) {
        let ghost src = self@;
        let ghost md = obeys_key_model::<K>() && builds_valid_hashers::<RandomState>();
        let mut rest = hash_map_into_pairs(self);
        let ghost ps = rest@;
        let mut out: HashMap<K, B> = HashMap::new();
        while rest.len() > 0
            invariant
                forall|a: A| call_requires(f, (a,)),
                rest@.len() <= ps.len(),
                rest@ == ps.subrange(ps.len() - rest@.len(), ps.len() as int),
                md ==> {
                    &&& forall|i: int|
                        0 <= i < ps.len() - rest@.len() ==> out@.dom().contains(
                            (#[trigger] ps[i]).0,
                        ) && call_ensures(f, (ps[i].1,), Result::Ok(out@[ps[i].0]))
                    &&& forall|k: K|
                        #[trigger] out@.dom().contains(k) ==> exists|i: int|
                            0 <= i < ps.len() - rest@.len() && ps[i].0 == k
                },
            decreases rest@.len(),
        {
            let ghost cnt = ps.len() - rest@.len();
            let (k, a) = rest.remove(0);
            proof {
                assert(ps[cnt] == (k, a));
            }
            match f(a) {
                Result::Ok(b) => {
                    out.insert(k, b);
                },
                Result::Err(e) => {
                    proof {
                        if md {
                            assert(src.contains_pair(k, a));
                            assert(src.dom().contains(k) && call_ensures(
                                f,
                                (src[k],),
                                Result::<B, E>::Err(e),
                            ));
                        }
                    }
                    return Result::Err(e);
                },
            }
        }
        proof {
            if md {
                assert forall|k: K| #[trigger] src.dom().contains(k) implies out@.dom().contains(
                    k,
                ) && call_ensures(f, (src[k],), Result::Ok(out@[k])) by {
                    let i = choose|i: int| 0 <= i < ps.len() && ps[i].0 == k;
                    assert(src.contains_pair(ps[i].0, ps[i].1));
                }
                assert forall|k: K| #[trigger] out@.dom().contains(k) implies src.dom().contains(
                    k,
                ) by {
                    let i = choose|i: int| 0 <= i < ps.len() && ps[i].0 == k;
                    assert(src.contains_pair(ps[i].0, ps[i].1));
                }
                assert(out@.dom() =~= src.dom());
            }
        }
        Result::Ok(out)
    }
}

impl<A: Eq + Hash, V, B: Eq + Hash> FunctorHashKeys<A, B> for HashMap<A, V> {
    type TargetK = HashMap<B, V>;

    type Value = V;

    open spec fn keys_modeled(self) -> bool {
        obeys_key_model::<A>() && obeys_key_model::<B>() && builds_valid_hashers::<RandomState>()
    }

    open spec fn keys_src(self) -> Map<A, V> {
        self@
    }

    open spec fn keys_dst(t: HashMap<B, V>) -> Map<B, V> {
        t@
    }

    #[verifier::loop_isolation(false)]
    fn __fmap_0_ref<F: Fn(A) -> B>(self, f: F) -> (r: HashMap<B, V>) {
        let ghost src = self@;
        let ghost md = obeys_key_model::<A>() && obeys_key_model::<B>()
            && builds_valid_hashers::<RandomState>();
        let mut rest = hash_map_into_pairs(self);
        let ghost ps = rest@;
        let mut out: HashMap<B, V> = HashMap::new();
        while rest.len() > 0
            invariant
                forall|a: A| call_requires(f, (a,)),
                rest@.len() <= ps.len(),
                rest@ == ps.subrange(ps.len() - rest@.len(), ps.len() as int),
                md ==> {
                    &&& forall|i: int|
                        0 <= i < ps.len() - rest@.len() ==> exists|b: B|
                            call_ensures(f, ((#[trigger] ps[i]).0,), b) && out@.dom().contains(b)
                    &&& forall|b: B|
                        #[trigger] out@.dom().contains(b) ==> exists|i: int|
                            0 <= i < ps.len() - rest@.len() && call_ensures(f, (ps[i].0,), b)
                                && out@[b] == ps[i].1
                },
            decreases rest@.len(),
        {
            let ghost cnt = ps.len() - rest@.len();
            let (a, v) = rest.remove(0);
            proof {
                assert(ps[cnt] == (a, v));
            }
            let b = f(a);
            let ghost oldout = out@;
            out.insert(b, v);
            proof {
                if md {
                    assert forall|i: int| 0 <= i < cnt + 1 implies exists|bb: B|
                        call_ensures(f, ((#[trigger] ps[i]).0,), bb) && out@.dom().contains(
                        bb,
                    ) by {
                        if i < cnt {
                            let bb = choose|bb: B|
                                call_ensures(f, (ps[i].0,), bb) && oldout.dom().contains(bb);
                            assert(out@.dom().contains(bb));
                        } else {
                            assert(call_ensures(f, (ps[cnt].0,), b) && out@.dom().contains(b));
                        }
                    };
                    assert forall|bb: B| #[trigger] out@.dom().contains(bb) implies exists|i: int|
                        0 <= i < cnt + 1 && call_ensures(f, (ps[i].0,), bb) && out@[bb]
                        == ps[i].1 by {
                        if bb == b {
                            assert(call_ensures(f, (ps[cnt].0,), bb) && out@[bb] == ps[cnt].1);
                        } else {
                            let i = choose|i: int|
                                0 <= i < cnt && call_ensures(f, ((#[trigger] ps[i]).0,), bb)
                                    && oldout[bb] == ps[i].1;
                            assert(call_ensures(f, (ps[i].0,), bb) && out@[bb] == ps[i].1);
                        }
                    };
                }
            }
        }
        proof {
            if md {
                assert forall|b: B| #[trigger] out@.dom().contains(b) implies exists|a: A|
                    src.dom().contains(a) && call_ensures(f, (a,), b) && out@[b] == src[a] by {
                    let i = choose|i: int|
                        0 <= i < ps.len() && call_ensures(f, ((#[trigger] ps[i]).0,), b) && out@[b]
                            == ps[i].1;
                    assert(src.contains_pair(ps[i].0, ps[i].1));
                }
                assert forall|a: A| #[trigger] src.dom().contains(a) implies exists|b: B|
                    call_ensures(f, (a,), b) && out@.dom().contains(b) by {
                    let i = choose|i: int| 0 <= i < ps.len() && (#[trigger] ps[i]).0 == a;
                    assert(src.contains_pair(ps[i].0, ps[i].1));
                }
            }
        }
        out
    }

    #[verifier::loop_isolation(false)]
    fn __try_fmap_0_ref<E, F: Fn(A) -> Result<B, E>>(self, f: F) -> (r: Result<HashMap<B, V>, E>) {
        let ghost src = self@;
        let ghost md = obeys_key_model::<A>() && obeys_key_model::<B>()
            && builds_valid_hashers::<RandomState>();
        let mut rest = hash_map_into_pairs(self);
        let ghost ps = rest@;
        let mut out: HashMap<B, V> = HashMap::new();
        while rest.len() > 0
            invariant
                forall|a: A| call_requires(f, (a,)),
                rest@.len() <= ps.len(),
                rest@ == ps.subrange(ps.len() - rest@.len(), ps.len() as int),
                md ==> {
                    &&& forall|i: int|
                        0 <= i < ps.len() - rest@.len() ==> exists|b: B|
                            call_ensures(f, ((#[trigger] ps[i]).0,), Result::Ok(b))
                                && out@.dom().contains(b)
                    &&& forall|b: B|
                        #[trigger] out@.dom().contains(b) ==> exists|i: int|
                            0 <= i < ps.len() - rest@.len() && call_ensures(
                                f,
                                (ps[i].0,),
                                Result::Ok(b),
                            ) && out@[b] == ps[i].1
                },
            decreases rest@.len(),
        {
            let ghost cnt = ps.len() - rest@.len();
            let (a, v) = rest.remove(0);
            proof {
                assert(ps[cnt] == (a, v));
            }
            match f(a) {
                Result::Ok(b) => {
                    let ghost oldout = out@;
                    out.insert(b, v);
                    proof {
                        if md {
                            assert forall|i: int| 0 <= i < cnt + 1 implies exists|bb: B|
                                call_ensures(f, ((#[trigger] ps[i]).0,), Result::Ok(bb))
                                    && out@.dom().contains(bb) by {
                                if i < cnt {
                                    let bb = choose|bb: B|
                                        call_ensures(f, (ps[i].0,), Result::Ok(bb))
                                            && oldout.dom().contains(bb);
                                    assert(out@.dom().contains(bb));
                                } else {
                                    assert(call_ensures(f, (ps[cnt].0,), Result::Ok(b))
                                        && out@.dom().contains(b));
                                }
                            };
                            assert forall|bb: B| #[trigger] out@.dom().contains(
                                bb,
                            ) implies exists|i: int|
                                0 <= i < cnt + 1 && call_ensures(f, (ps[i].0,), Result::Ok(bb))
                                    && out@[bb] == ps[i].1 by {
                                if bb == b {
                                    assert(call_ensures(f, (ps[cnt].0,), Result::Ok(bb)) && out@[bb]
                                        == ps[cnt].1);
                                } else {
                                    let i = choose|i: int|
                                        0 <= i < cnt && call_ensures(
                                            f,
                                            ((#[trigger] ps[i]).0,),
                                            Result::Ok(bb),
                                        ) && oldout[bb] == ps[i].1;
                                    assert(call_ensures(f, (ps[i].0,), Result::Ok(bb)) && out@[bb]
                                        == ps[i].1);
                                }
                            };
                        }
                    }
                },
                Result::Err(e) => {
                    proof {
                        if md {
                            assert(src.contains_pair(a, v));
                            assert(src.dom().contains(a) && call_ensures(
                                f,
                                (a,),
                                Result::<B, E>::Err(e),
                            ));
                        }
                    }
                    return Result::Err(e);
                },
            }
        }
        proof {
            if md {
                assert forall|b: B| #[trigger] out@.dom().contains(b) implies exists|a: A|
                    src.dom().contains(a) && call_ensures(f, (a,), Result::Ok(b)) && out@[b]
                    == src[a] by {
                    let i = choose|i: int|
                        0 <= i < ps.len() && call_ensures(f, ((#[trigger] ps[i]).0,), Result::Ok(b))
                            && out@[b] == ps[i].1;
                    assert(src.contains_pair(ps[i].0, ps[i].1));
                }
                assert forall|a: A| #[trigger] src.dom().contains(a) implies exists|b: B|
                    call_ensures(f, (a,), Result::Ok(b)) && out@.dom().contains(b) by {
                    let i = choose|i: int| 0 <= i < ps.len() && (#[trigger] ps[i]).0 == a;
                    assert(src.contains_pair(ps[i].0, ps[i].1));
                }
            }
        }
        Result::Ok(out)
    }
}

impl<A: Eq + Hash, B: Eq + Hash> FunctorHashSet<A, B> for HashSet<A> {
    type TargetS = HashSet<B>;

    open spec fn set_modeled(self) -> bool {
        obeys_key_model::<A>() && obeys_key_model::<B>() && builds_valid_hashers::<RandomState>()
    }

    open spec fn set_src(self) -> Set<A> {
        self@
    }

    open spec fn set_dst(t: HashSet<B>) -> Set<B> {
        t@
    }

    #[verifier::rlimit(60)]
    #[verifier::loop_isolation(false)]
    fn __fmap_0_ref<F: Fn(A) -> B>(self, f: F) -> (r: HashSet<B>) {
        let ghost src = self@;
        let ghost md = obeys_key_model::<A>() && obeys_key_model::<B>()
            && builds_valid_hashers::<RandomState>();
        let mut rest = hash_set_into_vec(self);
        let ghost ps = rest@;
        let mut out: HashSet<B> = HashSet::new();
        while rest.len() > 0
            invariant
                forall|a: A| call_requires(f, (a,)),
                rest@.len() <= ps.len(),
                rest@ == ps.subrange(ps.len() - rest@.len(), ps.len() as int),
                md ==> {
                    &&& forall|i: int|
                        0 <= i < ps.len() - rest@.len() ==> exists|b: B|
                            call_ensures(f, (#[trigger] ps[i],), b) && out@.contains(b)
                    &&& forall|b: B|
                        #[trigger] out@.contains(b) ==> exists|i: int|
                            0 <= i < ps.len() - rest@.len() && call_ensures(f, (ps[i],), b)
                },
            decreases rest@.len(),
        {
            let ghost cnt = ps.len() - rest@.len();
            let a = rest.remove(0);
            proof {
                assert(ps[cnt] == a);
            }
            let b = f(a);
            let ghost oldout = out@;
            out.insert(b);
            proof {
                if md {
                    assert forall|i: int| 0 <= i < cnt + 1 implies exists|bb: B|
                        call_ensures(f, (#[trigger] ps[i],), bb) && out@.contains(bb) by {
                        if i < cnt {
                            let bb = choose|bb: B|
                                call_ensures(f, (ps[i],), bb) && oldout.contains(bb);
                            assert(out@.contains(bb));
                        } else {
                            assert(call_ensures(f, (ps[cnt],), b) && out@.contains(b));
                        }
                    };
                    assert forall|bb: B| #[trigger] out@.contains(bb) implies exists|i: int|
                        0 <= i < cnt + 1 && call_ensures(f, (ps[i],), bb) by {
                        if bb == b {
                            assert(call_ensures(f, (ps[cnt],), bb));
                        } else {
                            let i = choose|i: int|
                                0 <= i < cnt && call_ensures(f, (#[trigger] ps[i],), bb);
                            assert(call_ensures(f, (ps[i],), bb));
                        }
                    };
                }
            }
        }
        proof {
            if md {
                assert forall|b: B| #[trigger] out@.contains(b) implies exists|a: A|
                    src.contains(a) && call_ensures(f, (a,), b) by {
                    let i = choose|i: int|
                        0 <= i < ps.len() && call_ensures(f, (#[trigger] ps[i],), b);
                    assert(src.contains(ps[i]));
                }
                assert forall|a: A| #[trigger] src.contains(a) implies exists|b: B|
                    call_ensures(f, (a,), b) && out@.contains(b) by {
                    let i = choose|i: int| 0 <= i < ps.len() && #[trigger] ps[i] == a;
                }
            }
        }
        out
    }

    #[verifier::rlimit(60)]
    #[verifier::loop_isolation(false)]
    fn __try_fmap_0_ref<E, F: Fn(A) -> Result<B, E>>(self, f: F) -> (r: Result<HashSet<B>, E>) {
        let ghost src = self@;
        let ghost md = obeys_key_model::<A>() && obeys_key_model::<B>()
            && builds_valid_hashers::<RandomState>();
        let mut rest = hash_set_into_vec(self);
        let ghost ps = rest@;
        let mut out: HashSet<B> = HashSet::new();
        while rest.len() > 0
            invariant
                forall|a: A| call_requires(f, (a,)),
                rest@.len() <= ps.len(),
                rest@ == ps.subrange(ps.len() - rest@.len(), ps.len() as int),
                md ==> {
                    &&& forall|i: int|
                        0 <= i < ps.len() - rest@.len() ==> exists|b: B|
                            call_ensures(f, (#[trigger] ps[i],), Result::Ok(b)) && out@.contains(b)
                    &&& forall|b: B|
                        #[trigger] out@.contains(b) ==> exists|i: int|
                            0 <= i < ps.len() - rest@.len() && call_ensures(
                                f,
                                (ps[i],),
                                Result::Ok(b),
                            )
                },
            decreases rest@.len(),
        {
            let ghost cnt = ps.len() - rest@.len();
            let a = rest.remove(0);
            proof {
                assert(ps[cnt] == a);
            }
            match f(a) {
                Result::Ok(b) => {
                    let ghost oldout = out@;
                    out.insert(b);
                    proof {
                        if md {
                            assert forall|i: int| 0 <= i < cnt + 1 implies exists|bb: B|
                                call_ensures(f, (#[trigger] ps[i],), Result::Ok(bb))
                                    && out@.contains(bb) by {
                                if i < cnt {
                                    let bb = choose|bb: B|
                                        call_ensures(f, (ps[i],), Result::Ok(bb)) && oldout.contains(
                                            bb,
                                        );
                                    assert(out@.contains(bb));
                                } else {
                                    assert(call_ensures(f, (ps[cnt],), Result::Ok(b))
                                        && out@.contains(b));
                                }
                            };
                            assert forall|bb: B| #[trigger] out@.contains(bb) implies exists|i: int|
                                0 <= i < cnt + 1 && call_ensures(f, (ps[i],), Result::Ok(bb)) by {
                                if bb == b {
                                    assert(call_ensures(f, (ps[cnt],), Result::Ok(bb)));
                                } else {
                                    let i = choose|i: int|
                                        0 <= i < cnt && call_ensures(
                                            f,
                                            (#[trigger] ps[i],),
                                            Result::Ok(bb),
                                        );
                                    assert(call_ensures(f, (ps[i],), Result::Ok(bb)));
                                }
                            };
                        }
                    }
                },
                Result::Err(e) => {
                    proof {
                        if md {
                            assert(src.contains(a) && call_ensures(
                                f,
                                (a,),
                                Result::<B, E>::Err(e),
                            ));
                        }
                    }
                    return Result::Err(e);
                },
            }
        }
        proof {
            if md {
                assert forall|b: B| #[trigger] out@.contains(b) implies exists|a: A|
                    src.contains(a) && call_ensures(f, (a,), Result::Ok(b)) by {
                    let i = choose|i: int|
                        0 <= i < ps.len() && call_ensures(f, (#[trigger] ps[i],), Result::Ok(b));
                    assert(src.contains(ps[i]));
                }
                assert forall|a: A| #[trigger] src.contains(a) implies exists|b: B|
                    call_ensures(f, (a,), Result::Ok(b)) && out@.contains(b) by {
                    let i = choose|i: int| 0 <= i < ps.len() && #[trigger] ps[i] == a;
                }
            }
        }
        Result::Ok(out)
    }
}

} // verus!
