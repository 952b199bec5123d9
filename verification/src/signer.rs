//! The `Signer`: which accounts sign, and running a callback or a step for all or for any of
//! them.
use vstd::prelude::*;

use crate::crypto::{Account, AppCrypto, RuntimeAppPublic, SigningTypes};
use crate::select::{
    account_of, collect_all_with, collect_any_with, lemma_results_are_outcomes,
    lemma_runs_any_is_first_of_runs_all, lemma_runs_weaken, outcome_of, pure_step, runs_all_with, runs_any_with, AccountStep, Callback,
};

verus! {

/// Marker: use every account that can sign.
pub struct ForAll {}

/// Marker: use the first account for which signing succeeds.
pub struct ForAny {}

/// Signs with the accounts of the keystore, or with those of a given list of keys that the
/// keystore holds.
///
/// `X` is `ForAll` to use every account, or `ForAny` to use the first that succeeds.
pub struct Signer<T: SigningTypes, C: AppCrypto<T::Public, T::Signature>, X = ForAny> {
    accounts: Option<Vec<T::Public>>,
    _phantom: core::marker::PhantomData<(X, C)>,
}

impl<T: SigningTypes, C: AppCrypto<T::Public, T::Signature>, X> View for Signer<T, C, X> {
    /// The keys the signer is restricted to, or `None` for every key of the keystore.
    type V = Option<Seq<T::Public>>;

    closed spec fn view(&self) -> Option<Seq<T::Public>> {
        match self.accounts {
            Some(keys) => Some(keys@),
            None => None,
        }
    }
}

impl<T: SigningTypes, C: AppCrypto<T::Public, T::Signature>, X> Default for Signer<T, C, X> {
    /// A signer that uses the keys of the keystore.
    fn default() -> (r: Self)
        ensures
            r@ is None,
    {
        Signer { accounts: None, _phantom: core::marker::PhantomData }
    }
}

impl<T: SigningTypes, C: AppCrypto<T::Public, T::Signature>, X> Signer<T, C, X> {
    /// A signer that uses every key of the keystore.
    pub fn all_accounts() -> (r: Signer<T, C, ForAll>)
        ensures
            r@ is None,
    {
        Signer::<T, C, ForAll>::default()
    }

    /// A signer that uses the first key of the keystore that can sign.
    pub fn any_account() -> (r: Signer<T, C, ForAny>)
        ensures
            r@ is None,
    {
        Signer::<T, C, ForAny>::default()
    }

    /// Restricts the signer to the given keys: the signer then uses, in the order given, those
    /// of them that the keystore holds.
    pub fn with_filter(self, accounts: Vec<T::Public>) -> (r: Self)
        ensures
            r@ == Some(accounts@),
    {
        let mut s = self;
        s.accounts = Some(accounts);
        s
    }

    /// The keys the signer uses, each with its index: without a filter, every key of the
    /// keystore with its position there; with a filter, each key of the filter that the
    /// keystore holds, with its position in the filter.
    pub fn keys_in_use(&self) -> (r: Vec<(usize, T::Public)>)
        ensures
            signer_keys::<T, C>(self@, r@),
    {
        let store = keystore_keys::<T, C>();
        let ghost store_view = store@;
        let mut out: Vec<(usize, T::Public)> = Vec::new();
        match &self.accounts {
            None => {
                broadcast use vstd::std_specs::vec::axiom_spec_into_iter;

                for key in it: store
                    invariant
                        it.seq() == store_view,
                        out@.len() == it.index(),
                        forall|j: int|
                            0 <= j < out@.len() ==> (#[trigger] out@[j]).0 == j && out@[j].1
                                == store_view[j],
                {
                    let i = out.len();
                    out.push((i, key));
                }
                assert(out@.len() == store_view.len());
            },
            Some(accounts) => {
                let ghost mut found: Seq<bool> = seq![];
                let mut i: usize = 0;
                while i < accounts.len()
                    invariant
                        i <= accounts.len(),
                        found.len() == i,
                        store@ == store_view,
                        forall|n: int|
                            0 <= n < i ==> key_found(store_view, accounts@[n], #[trigger] found[n]),
                        kept_positions(found).len() == out@.len(),
                        forall|j: int|
                            0 <= j < out@.len() ==> (#[trigger] out@[j]).0 == kept_positions(found)[j]
                                && cloned(accounts@[kept_positions(found)[j]], out@[j].1),
                    decreases accounts.len() - i,
                {
                    let here = contains_key(&store, &accounts[i]);
                    proof {
                        let ghost earlier = found;
                        lemma_kept_positions_bound(found);
                        found = found.push(here);
                        assert(found.drop_last() =~= earlier);
                        assert(kept_positions(found) == (if here {
                            kept_positions(earlier).push(i as int)
                        } else {
                            kept_positions(earlier)
                        }));
                    }
                    if here {
                        out.push((i, accounts[i].clone()));
                    }
                    i = i + 1;
                }
                assert(filtered_keys(accounts@, store_view, out@));
            },
        }
        out
    }

    /// Whether the signer has a key to sign with: a key of the keystore, or, with a filter, a
    /// key of the filter that the keystore holds.
    pub fn can_sign(&self) -> (r: bool)
        ensures
            exists|keys: Seq<(usize, T::Public)>| #[trigger] signer_keys::<T, C>(self@, keys) && r == (keys.len() > 0),
    {
        let keys = self.keys_in_use();
        keys.len() > 0
    }
}

impl<T: SigningTypes, C: AppCrypto<T::Public, T::Signature>> Signer<T, C, ForAll> {
    /// Runs `f` for every account of the signer, in order, and collects the accounts for
    /// which it produced a result.
    ///
    /// The accounts are those of `keys_in_use`.
    pub fn for_all<F, R>(&self, f: F) -> (r: Vec<(Account<T>, R)>)
        where
            F: Fn(&Account<T>) -> Option<R>,
        requires
            forall|a: &Account<T>| call_requires(f, (a,)),
        ensures
            signs_all::<T, C, R>(self@, outcome_of(f), r@),
    {
        let callback = Callback { f: &f };
        let mut unit = ();
        self.for_all_with(&callback, &mut unit)
    }

    /// Runs `step` for every account of the signer, in order, threading `state` through the
    /// runs, and collects the accounts for which it produced a result.
    pub fn for_all_with<S, R, St: AccountStep<T, S, R>>(&self, step: &St, state: &mut S) -> (r: Vec<
        (Account<T>, R),
    >)
        requires
            step.ready(),
        ensures
            signs_all_with::<T, C, S, R>(self@, step.steps(), *old(state), *final(state), r@),
    {
        let keys = self.keys_in_use();
        let ghost kv = keys@;
        let r = collect_all_with(keys, step, state);
        assert(signer_keys::<T, C>(self@, kv) && runs_all_with(kv, step.steps(), *old(state), *state, r@));
        r
    }
}

impl<T: SigningTypes, C: AppCrypto<T::Public, T::Signature>> Signer<T, C, ForAny> {
    /// Runs `f` for the accounts of the signer, in order, until it produces a result, and
    /// returns that account with its result.
    ///
    /// The accounts are those of `keys_in_use`.
    pub fn for_any<F, R>(&self, f: F) -> (r: Option<(Account<T>, R)>)
        where
            F: Fn(&Account<T>) -> Option<R>,
        requires
            forall|a: &Account<T>| call_requires(f, (a,)),
        ensures
            signs_any::<T, C, R>(self@, outcome_of(f), r),
    {
        let callback = Callback { f: &f };
        let mut unit = ();
        self.for_any_with(&callback, &mut unit)
    }

    /// Runs `step` for the accounts of the signer, in order, threading `state` through the
    /// runs, until one produces a result, and returns that account with its result.
    pub fn for_any_with<S, R, St: AccountStep<T, S, R>>(&self, step: &St, state: &mut S) -> (r: Option<
        (Account<T>, R),
    >)
        requires
            step.ready(),
        ensures
            signs_any_with::<T, C, S, R>(self@, step.steps(), *old(state), *final(state), r),
    {
        let keys = self.keys_in_use();
        let ghost kv = keys@;
        let r = collect_any_with(keys, step, state);
        assert(signer_keys::<T, C>(self@, kv) && runs_any_with(kv, step.steps(), *old(state), *state, r));
        r
    }
}

/// Whether `key` compares equal to one of `keys`: when `found`, `eq` answered `true` for one of
/// them; otherwise it answered `false` for each.
pub open spec fn key_found<P: PartialEq>(keys: Seq<P>, key: P, found: bool) -> bool {
    &&& found ==> exists|j: int|
        0 <= j < keys.len() && #[trigger] call_ensures(<P as PartialEq>::eq, (&key, &keys[j]), true)
    &&& !found ==> forall|j: int|
        0 <= j < keys.len() ==> #[trigger] call_ensures(<P as PartialEq>::eq, (&key, &keys[j]), false)
}

/// The positions that hold `true`, in order.
pub open spec fn kept_positions(found: Seq<bool>) -> Seq<int>
    decreases found.len(),
{
    if found.len() == 0 {
        seq![]
    } else {
        let earlier = kept_positions(found.drop_last());
        if found.last() {
            earlier.push(found.len() - 1)
        } else {
            earlier
        }
    }
}

/// The kept positions lie within `found`, in increasing order.
proof fn lemma_kept_positions_bound(found: Seq<bool>)
    ensures
        forall|j: int|
            0 <= j < kept_positions(found).len() ==> 0 <= #[trigger] kept_positions(found)[j] < found.len(),
        forall|i: int, j: int|
            0 <= i < j < kept_positions(found).len() ==> #[trigger] kept_positions(found)[i]
                < #[trigger] kept_positions(found)[j],
    decreases found.len(),
{
    if found.len() > 0 {
        let earlier = found.drop_last();
        lemma_kept_positions_bound(earlier);
        assert(kept_positions(found) == (if found.last() {
            kept_positions(earlier).push(found.len() - 1)
        } else {
            kept_positions(earlier)
        }));
    }
}

/// `keys` are the keys of `given` that `store` holds, in order, each a clone of its key with
/// its position in `given`.
pub open spec fn filtered_keys<P: Clone + PartialEq>(
    given: Seq<P>,
    store: Seq<P>,
    keys: Seq<(usize, P)>,
) -> bool {
    exists|found: Seq<bool>|
        #[trigger] kept_positions(found).len() == keys.len() && found.len() == given.len() && (
        forall|n: int| 0 <= n < given.len() ==> key_found(store, given[n], #[trigger] found[n]))
            && forall|j: int|
            0 <= j < keys.len() ==> (#[trigger] keys[j]).0 == kept_positions(found)[j] && cloned(
                given[kept_positions(found)[j]],
                keys[j].1,
            )
}

/// `public` is the runtime key that the application key `key` converts to, through the raw
/// key it wraps.
pub open spec fn converted_key<T: SigningTypes, C: AppCrypto<T::Public, T::Signature>>(
    key: C::RuntimeAppPublic,
    public: T::Public,
) -> bool {
    exists|g: C::GenericPublic|
        #[trigger] call_ensures(<C::GenericPublic as From<C::RuntimeAppPublic>>::from, (key,), g)
            && call_ensures(<C::GenericPublic as Into<T::Public>>::into, (g,), public)
}

/// `keys` are the keys that the keystore lists for the application type of `C`, converted to
/// the runtime's key type, in the keystore's order.
pub open spec fn keystore_keys_of<T: SigningTypes, C: AppCrypto<T::Public, T::Signature>>(
    keys: Seq<T::Public>,
) -> bool {
    exists|found: Vec<C::RuntimeAppPublic>|
        #[trigger] call_ensures(<C::RuntimeAppPublic as RuntimeAppPublic>::all, (), found)
            && found@.len() == keys.len() && forall|j: int|
            0 <= j < keys.len() ==> converted_key::<T, C>(found@[j], #[trigger] keys[j])
}

/// `keys` are the keys, with their indices, that a signer whose view is `given` uses: every
/// key of the keystore with its position there, or the keys of `given` that the keystore holds.
pub open spec fn signer_keys<T: SigningTypes, C: AppCrypto<T::Public, T::Signature>>(
    given: Option<Seq<T::Public>>,
    keys: Seq<(usize, T::Public)>,
) -> bool {
    exists|store: Seq<T::Public>|
        #[trigger] keystore_keys_of::<T, C>(store) && match given {
            None => keys.len() == store.len() && forall|j: int|
                0 <= j < keys.len() ==> (#[trigger] keys[j]).0 == j && keys[j].1 == store[j],
            Some(g) => filtered_keys(g, store, keys),
        }
}

/// What running a step, which `step` describes, for every account of a signer whose view is
/// `given` gives.
pub open spec fn signs_all_with<T: SigningTypes, C: AppCrypto<T::Public, T::Signature>, S, R>(
    given: Option<Seq<T::Public>>,
    step: spec_fn(Account<T>, S, S, Option<R>) -> bool,
    before: S,
    after: S,
    result: Seq<(Account<T>, R)>,
) -> bool {
    exists|keys: Seq<(usize, T::Public)>|
        signer_keys::<T, C>(given, keys) && #[trigger] runs_all_with(keys, step, before, after, result)
}

/// What running a step, which `step` describes, for the accounts of a signer whose view is
/// `given` until one produces a result gives.
pub open spec fn signs_any_with<T: SigningTypes, C: AppCrypto<T::Public, T::Signature>, S, R>(
    given: Option<Seq<T::Public>>,
    step: spec_fn(Account<T>, S, S, Option<R>) -> bool,
    before: S,
    after: S,
    result: Option<(Account<T>, R)>,
) -> bool {
    exists|keys: Seq<(usize, T::Public)>|
        signer_keys::<T, C>(given, keys) && #[trigger] runs_any_with(keys, step, before, after, result)
}

/// What running a callback, whose outcomes `outcome` describes, for every account of a signer
/// whose view is `given` gives.
pub open spec fn signs_all<T: SigningTypes, C: AppCrypto<T::Public, T::Signature>, R>(
    given: Option<Seq<T::Public>>,
    outcome: spec_fn(Account<T>, Option<R>) -> bool,
    result: Seq<(Account<T>, R)>,
) -> bool {
    signs_all_with::<T, C, (), R>(given, pure_step(outcome), (), (), result)
}

/// What running a callback, whose outcomes `outcome` describes, for the accounts of a signer
/// whose view is `given` until one produces a result gives.
pub open spec fn signs_any<T: SigningTypes, C: AppCrypto<T::Public, T::Signature>, R>(
    given: Option<Seq<T::Public>>,
    outcome: spec_fn(Account<T>, Option<R>) -> bool,
    result: Option<(Account<T>, R)>,
) -> bool {
    signs_any_with::<T, C, (), R>(given, pure_step(outcome), (), (), result)
}

/// A description of what a step can do can be replaced by a looser one in what a signer gives.
pub proof fn lemma_signs_weaken<T: SigningTypes, C: AppCrypto<T::Public, T::Signature>, S, R>(
    given: Option<Seq<T::Public>>,
    p: spec_fn(Account<T>, S, S, Option<R>) -> bool,
    q: spec_fn(Account<T>, S, S, Option<R>) -> bool,
    before: S,
    after: S,
    all: Seq<(Account<T>, R)>,
    any: Option<(Account<T>, R)>,
)
    requires
        forall|a: Account<T>, b: S, c: S, o: Option<R>| #[trigger] p(a, b, c, o) ==> q(a, b, c, o),
    ensures
        signs_all_with::<T, C, S, R>(given, p, before, after, all) ==> signs_all_with::<T, C, S, R>(
            given,
            q,
            before,
            after,
            all,
        ),
        signs_any_with::<T, C, S, R>(given, p, before, after, any) ==> signs_any_with::<T, C, S, R>(
            given,
            q,
            before,
            after,
            any,
        ),
{
    if signs_all_with::<T, C, S, R>(given, p, before, after, all) {
        let keys = choose|keys: Seq<(usize, T::Public)>|
            signer_keys::<T, C>(given, keys) && #[trigger] runs_all_with(keys, p, before, after, all);
        lemma_runs_weaken(keys, p, q, before, after, all, any);
    }
    if signs_any_with::<T, C, S, R>(given, p, before, after, any) {
        let keys = choose|keys: Seq<(usize, T::Public)>|
            signer_keys::<T, C>(given, keys) && #[trigger] runs_any_with(keys, p, before, after, any);
        lemma_runs_weaken(keys, p, q, before, after, all, any);
    }
}

/// A signer that runs a callback for its accounts until one produces a result gives the
/// first result that a signer with the same accounts collects by running it for every
/// account, when the callback answers alike each time it is asked about an account, both
/// signers use the same keys, and the same key always gives the same account.
///
/// The last two hold when the keystore, key conversions, key comparisons, clones and account
/// lookups answer alike each time (`lemma_signer_keys_determined`,
/// `lemma_account_of_determined`).
pub proof fn lemma_for_any_is_first_of_for_all<
    T: SigningTypes,
    C: AppCrypto<T::Public, T::Signature>,
    R,
>(
    given: Option<Seq<T::Public>>,
    outcome: spec_fn(Account<T>, Option<R>) -> bool,
    all: Seq<(Account<T>, R)>,
    any: Option<(Account<T>, R)>,
)
    requires
        signs_all::<T, C, R>(given, outcome, all),
        signs_any::<T, C, R>(given, outcome, any),
        forall|k1: Seq<(usize, T::Public)>, k2: Seq<(usize, T::Public)>|
            #![trigger signer_keys::<T, C>(given, k1), signer_keys::<T, C>(given, k2)]
            signer_keys::<T, C>(given, k1) && signer_keys::<T, C>(given, k2) ==> k1 == k2,
        forall|a: Account<T>, o1: Option<R>, o2: Option<R>|
            #![trigger outcome(a, o1), outcome(a, o2)]
            outcome(a, o1) && outcome(a, o2) ==> o1 == o2,
        forall|k: (usize, T::Public), a1: Account<T>, a2: Account<T>|
            #![trigger account_of(k, a1), account_of(k, a2)]
            account_of(k, a1) && account_of(k, a2) ==> a1 == a2,
    ensures
        any == (if all.len() > 0 {
            Some(all[0])
        } else {
            None
        }),
{
    let step = pure_step(outcome);
    let k1 = choose|keys: Seq<(usize, T::Public)>|
        signer_keys::<T, C>(given, keys) && #[trigger] runs_all_with(keys, step, (), (), all);
    let k2 = choose|keys: Seq<(usize, T::Public)>|
        signer_keys::<T, C>(given, keys) && #[trigger] runs_any_with(keys, step, (), (), any);
    assert(k1 == k2);
    lemma_runs_any_is_first_of_runs_all(k1, outcome, all, any);
}

/// A signer whose view is `given` uses the same keys each time, when the keystore lists the
/// same keys each time, and converting keys, comparing keys and cloning keys give the same
/// answer each time.
pub proof fn lemma_signer_keys_determined<T: SigningTypes, C: AppCrypto<T::Public, T::Signature>>(
    given: Option<Seq<T::Public>>,
    k1: Seq<(usize, T::Public)>,
    k2: Seq<(usize, T::Public)>,
)
    requires
        signer_keys::<T, C>(given, k1),
        signer_keys::<T, C>(given, k2),
        forall|f1: Vec<C::RuntimeAppPublic>, f2: Vec<C::RuntimeAppPublic>|
            #![trigger call_ensures(<C::RuntimeAppPublic as RuntimeAppPublic>::all, (), f1), call_ensures(<C::RuntimeAppPublic as RuntimeAppPublic>::all, (), f2)]
            call_ensures(<C::RuntimeAppPublic as RuntimeAppPublic>::all, (), f1) && call_ensures(
                <C::RuntimeAppPublic as RuntimeAppPublic>::all,
                (),
                f2,
            ) ==> f1@ == f2@,
        forall|k: C::RuntimeAppPublic, g1: C::GenericPublic, g2: C::GenericPublic|
            #![trigger call_ensures(<C::GenericPublic as From<C::RuntimeAppPublic>>::from, (k,), g1), call_ensures(<C::GenericPublic as From<C::RuntimeAppPublic>>::from, (k,), g2)]
            call_ensures(<C::GenericPublic as From<C::RuntimeAppPublic>>::from, (k,), g1)
                && call_ensures(<C::GenericPublic as From<C::RuntimeAppPublic>>::from, (k,), g2) ==> g1
                == g2,
        forall|g: C::GenericPublic, p1: T::Public, p2: T::Public|
            #![trigger call_ensures(<C::GenericPublic as Into<T::Public>>::into, (g,), p1), call_ensures(<C::GenericPublic as Into<T::Public>>::into, (g,), p2)]
            call_ensures(<C::GenericPublic as Into<T::Public>>::into, (g,), p1) && call_ensures(
                <C::GenericPublic as Into<T::Public>>::into,
                (g,),
                p2,
            ) ==> p1 == p2,
        forall|x: T::Public, y: T::Public, b1: bool, b2: bool|
            #![trigger call_ensures(<T::Public as PartialEq>::eq, (&x, &y), b1), call_ensures(<T::Public as PartialEq>::eq, (&x, &y), b2)]
            call_ensures(<T::Public as PartialEq>::eq, (&x, &y), b1) && call_ensures(
                <T::Public as PartialEq>::eq,
                (&x, &y),
                b2,
            ) ==> b1 == b2,
        forall|p: T::Public, c1: T::Public, c2: T::Public|
            #![trigger cloned(p, c1), cloned(p, c2)]
            cloned(p, c1) && cloned(p, c2) ==> c1 == c2,
    ensures
        k1 == k2,
{
    let s1 = choose|store: Seq<T::Public>|
        #[trigger] keystore_keys_of::<T, C>(store) && match given {
            None => k1.len() == store.len() && forall|j: int|
                0 <= j < k1.len() ==> (#[trigger] k1[j]).0 == j && k1[j].1 == store[j],
            Some(g) => filtered_keys(g, store, k1),
        };
    let s2 = choose|store: Seq<T::Public>|
        #[trigger] keystore_keys_of::<T, C>(store) && match given {
            None => k2.len() == store.len() && forall|j: int|
                0 <= j < k2.len() ==> (#[trigger] k2[j]).0 == j && k2[j].1 == store[j],
            Some(g) => filtered_keys(g, store, k2),
        };
    let f1 = choose|found: Vec<C::RuntimeAppPublic>|
        #[trigger] call_ensures(<C::RuntimeAppPublic as RuntimeAppPublic>::all, (), found)
            && found@.len() == s1.len() && forall|j: int|
            0 <= j < s1.len() ==> converted_key::<T, C>(found@[j], #[trigger] s1[j]);
    let f2 = choose|found: Vec<C::RuntimeAppPublic>|
        #[trigger] call_ensures(<C::RuntimeAppPublic as RuntimeAppPublic>::all, (), found)
            && found@.len() == s2.len() && forall|j: int|
            0 <= j < s2.len() ==> converted_key::<T, C>(found@[j], #[trigger] s2[j]);
    assert(f1@ == f2@);
    assert forall|j: int| 0 <= j < s1.len() implies s1[j] == s2[j] by {
        assert(converted_key::<T, C>(f1@[j], s1[j]));
        assert(converted_key::<T, C>(f2@[j], s2[j]));
        let g1 = choose|g: C::GenericPublic|
            #[trigger] call_ensures(<C::GenericPublic as From<C::RuntimeAppPublic>>::from, (f1@[j],), g)
                && call_ensures(<C::GenericPublic as Into<T::Public>>::into, (g,), s1[j]);
        let g2 = choose|g: C::GenericPublic|
            #[trigger] call_ensures(<C::GenericPublic as From<C::RuntimeAppPublic>>::from, (f2@[j],), g)
                && call_ensures(<C::GenericPublic as Into<T::Public>>::into, (g,), s2[j]);
        assert(g1 == g2);
    }
    assert(s1 =~= s2);
    match given {
        None => {
            assert forall|j: int| 0 <= j < k1.len() implies k1[j] == k2[j] by {
                assert(k1[j].0 == j && k1[j].1 == s1[j]);
                assert(k2[j].0 == j && k2[j].1 == s2[j]);
            }
            assert(k1 =~= k2);
        },
        Some(g) => {
            let b1 = choose|found: Seq<bool>|
                #[trigger] kept_positions(found).len() == k1.len() && found.len() == g.len() && (
                forall|n: int| 0 <= n < g.len() ==> key_found(s1, g[n], #[trigger] found[n]))
                    && forall|j: int|
                    0 <= j < k1.len() ==> (#[trigger] k1[j]).0 == kept_positions(found)[j] && cloned(
                        g[kept_positions(found)[j]],
                        k1[j].1,
                    );
            let b2 = choose|found: Seq<bool>|
                #[trigger] kept_positions(found).len() == k2.len() && found.len() == g.len() && (
                forall|n: int| 0 <= n < g.len() ==> key_found(s2, g[n], #[trigger] found[n]))
                    && forall|j: int|
                    0 <= j < k2.len() ==> (#[trigger] k2[j]).0 == kept_positions(found)[j] && cloned(
                        g[kept_positions(found)[j]],
                        k2[j].1,
                    );
            assert forall|n: int| 0 <= n < g.len() implies b1[n] == b2[n] by {
                assert(key_found(s1, g[n], b1[n]));
                assert(key_found(s2, g[n], b2[n]));
                if b1[n] && !b2[n] {
                    let j = choose|j: int|
                        0 <= j < s1.len() && #[trigger] call_ensures(
                            <T::Public as PartialEq>::eq,
                            (&g[n], &s1[j]),
                            true,
                        );
                    assert(call_ensures(<T::Public as PartialEq>::eq, (&g[n], &s2[j]), false));
                }
                if b2[n] && !b1[n] {
                    let j = choose|j: int|
                        0 <= j < s2.len() && #[trigger] call_ensures(
                            <T::Public as PartialEq>::eq,
                            (&g[n], &s2[j]),
                            true,
                        );
                    assert(call_ensures(<T::Public as PartialEq>::eq, (&g[n], &s1[j]), false));
                }
            }
            assert(b1 =~= b2);
            assert forall|j: int| 0 <= j < k1.len() implies k1[j] == k2[j] by {
                assert(k1[j].0 == kept_positions(b1)[j]);
                assert(k2[j].0 == kept_positions(b2)[j]);
                assert(cloned(g[kept_positions(b1)[j]], k1[j].1));
                assert(cloned(g[kept_positions(b2)[j]], k2[j].1));
            }
            assert(k1 =~= k2);
        },
    }
}

/// Every result that a signer running a callback for its accounts gives is an outcome the
/// callback can give for its account.
pub proof fn lemma_signer_results_are_outcomes<
    T: SigningTypes,
    C: AppCrypto<T::Public, T::Signature>,
    R,
>(
    given: Option<Seq<T::Public>>,
    outcome: spec_fn(Account<T>, Option<R>) -> bool,
    all: Seq<(Account<T>, R)>,
    any: Option<(Account<T>, R)>,
)
    ensures
        signs_all::<T, C, R>(given, outcome, all) ==> forall|i: int|
            0 <= i < all.len() ==> outcome((#[trigger] all[i]).0, Some(all[i].1)),
        signs_any::<T, C, R>(given, outcome, any) ==> (any matches Some(x) ==> outcome(
            x.0,
            Some(x.1),
        )),
{
    let step = pure_step(outcome);
    if signs_all::<T, C, R>(given, outcome, all) {
        let keys = choose|keys: Seq<(usize, T::Public)>|
            signer_keys::<T, C>(given, keys) && #[trigger] runs_all_with(keys, step, (), (), all);
        lemma_results_are_outcomes(keys, outcome, all, any);
    }
    if signs_any::<T, C, R>(given, outcome, any) {
        let keys = choose|keys: Seq<(usize, T::Public)>|
            signer_keys::<T, C>(given, keys) && #[trigger] runs_any_with(keys, step, (), (), any);
        lemma_results_are_outcomes(keys, outcome, all, any);
    }
}

/// Whether `key` compares equal to one of `keys`, asking `eq` for each in order until it
/// answers `true`.
fn contains_key<P: PartialEq>(keys: &Vec<P>, key: &P) -> (r: bool)
    ensures
        key_found(keys@, *key, r),
{
    let mut j: usize = 0;
    while j < keys.len()
        invariant
            j <= keys.len(),
            forall|n: int| 0 <= n < j ==> #[trigger] call_ensures(<P as PartialEq>::eq, (key, &keys@[n]), false),
        decreases keys.len() - j,
    {
        if key.eq(&keys[j]) {
            assert(call_ensures(<P as PartialEq>::eq, (key, &keys@[j as int]), true));
            return true;
        }
        j = j + 1;
    }
    false
}

/// Every key of the keystore of the application type of `C`, as the runtime's key type.
fn keystore_keys<T: SigningTypes, C: AppCrypto<T::Public, T::Signature>>() -> (r: Vec<T::Public>)
    ensures
        keystore_keys_of::<T, C>(r@),
{
    broadcast use vstd::std_specs::vec::axiom_spec_into_iter;
    let found = C::RuntimeAppPublic::all();
    let ghost found_view = found@;
    let ghost found_vec = found;
    let mut publics: Vec<T::Public> = Vec::new();
    for key in it: found
        invariant
            it.seq() == found_view,
            publics@.len() == it.index(),
            forall|j: int| 0 <= j < publics@.len() ==> converted_key::<T, C>(found_view[j], #[trigger] publics@[j]),
    {
        let generic_public = C::GenericPublic::from(key);
        let public: T::Public = generic_public.into();
        publics.push(public);
    }
    assert(call_ensures(<C::RuntimeAppPublic as RuntimeAppPublic>::all, (), found_vec));
    publics
}

} // verus!
