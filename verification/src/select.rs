//! Running a step for the accounts of a list of keys: for every account, collecting the
//! results, or until one account produces a result.
use vstd::prelude::*;

use crate::crypto::{Account, IdentifyAccount, SigningTypes};

verus! {

/// Every pair of an account and the result its callback produced, in the order of the
/// accounts; accounts whose callback produced `None` are left out.
pub open spec fn collected<A, R>(accounts: Seq<A>, outcomes: Seq<Option<R>>) -> Seq<(A, R)>
    decreases outcomes.len(),
{
    if outcomes.len() == 0 {
        seq![]
    } else {
        let earlier = collected(accounts, outcomes.drop_last());
        match outcomes.last() {
            Some(r) => earlier.push((accounts[outcomes.len() - 1], r)),
            None => earlier,
        }
    }
}

/// The first account whose callback produced a result, with that result.
pub open spec fn first_collected<A, R>(accounts: Seq<A>, outcomes: Seq<Option<R>>) -> Option<(A, R)>
    decreases outcomes.len(),
{
    if outcomes.len() == 0 {
        None
    } else {
        match outcomes[0] {
            Some(r) => Some((accounts[0], r)),
            None => first_collected(accounts.drop_first(), outcomes.drop_first()),
        }
    }
}

/// `account` is the account of `key`, a key with its index: it has that index and that
/// public key, and its identifier is the account that a clone of the key identifies.
pub open spec fn account_of<T: SigningTypes>(key: (usize, T::Public), account: Account<T>) -> bool {
    &&& account.index == key.0
    &&& account.public == key.1
    &&& exists|c: T::Public|
        cloned(key.1, c) && #[trigger] call_ensures(
            <T::Public as IdentifyAccount>::into_account,
            (c,),
            account.id,
        )
}

/// `accounts` are the accounts of the first keys of `keys`, in order.
pub open spec fn numbered<T: SigningTypes>(
    keys: Seq<(usize, T::Public)>,
    accounts: Seq<Account<T>>,
) -> bool {
    &&& accounts.len() <= keys.len()
    &&& forall|j: int| 0 <= j < accounts.len() ==> account_of(keys[j], #[trigger] accounts[j])
}

/// `account` is the account of one of `keys`.
pub open spec fn from_keys<T: SigningTypes>(keys: Seq<(usize, T::Public)>, account: Account<T>) -> bool {
    exists|k: int| 0 <= k < keys.len() && #[trigger] account_of(keys[k], account)
}

/// For each `j`, `step` allows the run for `accounts[j]` to take the state from `states[j]` to
/// `states[j + 1]` with outcome `outcomes[j]`.
pub open spec fn stepped<T: SigningTypes, S, R>(
    step: spec_fn(Account<T>, S, S, Option<R>) -> bool,
    accounts: Seq<Account<T>>,
    states: Seq<S>,
    outcomes: Seq<Option<R>>,
) -> bool {
    &&& outcomes.len() == accounts.len()
    &&& states.len() == accounts.len() + 1
    &&& forall|j: int|
        0 <= j < accounts.len() ==> step(accounts[j], states[j], states[j + 1], #[trigger] outcomes[j])
}

/// What running a step for every key of `keys`, in order, gives, when `step` says what a run
/// for one account can do to the state and produce: the state goes from `before` to `after`,
/// and `result` collects, in key order, each account whose run produced a result, with that
/// result.
pub open spec fn runs_all_with<T: SigningTypes, S, R>(
    keys: Seq<(usize, T::Public)>,
    step: spec_fn(Account<T>, S, S, Option<R>) -> bool,
    before: S,
    after: S,
    result: Seq<(Account<T>, R)>,
) -> bool {
    exists|accounts: Seq<Account<T>>, outcomes: Seq<Option<R>>|
        #[trigger] collected(accounts, outcomes) == result && numbered(keys, accounts)
            && accounts.len() == keys.len() && exists|states: Seq<S>|
            #[trigger] stepped(step, accounts, states, outcomes) && states[0] == before
                && states.last() == after
}

/// What running a step for the keys of `keys`, in order, until one produces a result gives:
/// the runs were for the first keys, every run but the last produced `None`, the state went
/// from `before` to `after` through them, and `result` is the first account that produced a
/// result, with that result; when it is `None`, every key was tried.
pub open spec fn runs_any_with<T: SigningTypes, S, R>(
    keys: Seq<(usize, T::Public)>,
    step: spec_fn(Account<T>, S, S, Option<R>) -> bool,
    before: S,
    after: S,
    result: Option<(Account<T>, R)>,
) -> bool {
    exists|accounts: Seq<Account<T>>, outcomes: Seq<Option<R>>|
        #[trigger] first_collected(accounts, outcomes) == result && numbered(keys, accounts)
            && (forall|j: int| 0 <= j < outcomes.len() - 1 ==> (#[trigger] outcomes[j]) is None)
            && (result is None ==> accounts.len() == keys.len()) && exists|states: Seq<S>|
            #[trigger] stepped(step, accounts, states, outcomes) && states[0] == before
                && states.last() == after
}

/// A step that touches no state and whose outcomes `outcome` describes.
pub open spec fn pure_step<T: SigningTypes, R>(
    outcome: spec_fn(Account<T>, Option<R>) -> bool,
) -> spec_fn(Account<T>, (), (), Option<R>) -> bool {
    |a: Account<T>, before: (), after: (), o: Option<R>| outcome(a, o)
}

/// The outcomes that the callback `f` can give for an account.
pub open spec fn outcome_of<T: SigningTypes, F: Fn(&Account<T>) -> Option<R>, R>(f: F) -> spec_fn(
    Account<T>,
    Option<R>,
) -> bool {
    |a: Account<T>, o: Option<R>| call_ensures(f, (&a,), o)
}

/// What running a callback for every key of `keys` gives, when `outcome` says what the
/// callback can give for an account.
pub open spec fn runs_all<T: SigningTypes, R>(
    keys: Seq<(usize, T::Public)>,
    outcome: spec_fn(Account<T>, Option<R>) -> bool,
    result: Seq<(Account<T>, R)>,
) -> bool {
    runs_all_with(keys, pure_step(outcome), (), (), result)
}

/// What running a callback for the keys of `keys` until one produces a result gives, when
/// `outcome` says what the callback can give for an account.
pub open spec fn runs_any<T: SigningTypes, R>(
    keys: Seq<(usize, T::Public)>,
    outcome: spec_fn(Account<T>, Option<R>) -> bool,
    result: Option<(Account<T>, R)>,
) -> bool {
    runs_any_with(keys, pure_step(outcome), (), (), result)
}

/// The positions of the outcomes that hold a result, in order.
pub open spec fn result_positions<R>(outcomes: Seq<Option<R>>) -> Seq<int>
    decreases outcomes.len(),
{
    if outcomes.len() == 0 {
        seq![]
    } else {
        let earlier = result_positions(outcomes.drop_last());
        if outcomes.last() is Some {
            earlier.push(outcomes.len() - 1)
        } else {
            earlier
        }
    }
}

/// `collected` reads only the accounts that have an outcome.
proof fn lemma_collected_prefix<A, R>(a1: Seq<A>, a2: Seq<A>, outcomes: Seq<Option<R>>)
    requires
        outcomes.len() <= a1.len(),
        outcomes.len() <= a2.len(),
        forall|j: int| 0 <= j < outcomes.len() ==> a1[j] == a2[j],
    ensures
        collected(a1, outcomes) == collected(a2, outcomes),
    decreases outcomes.len(),
{
    if outcomes.len() > 0 {
        lemma_collected_prefix(a1, a2, outcomes.drop_last());
    }
}

/// When every outcome but the last is `None`, the first result is the last outcome's.
proof fn lemma_first_collected_at_end<A, R>(accounts: Seq<A>, outcomes: Seq<Option<R>>)
    requires
        outcomes.len() <= accounts.len(),
        forall|j: int| 0 <= j < outcomes.len() - 1 ==> (#[trigger] outcomes[j]) is None,
    ensures
        first_collected(accounts, outcomes) == (if outcomes.len() == 0 {
            None
        } else {
            match outcomes.last() {
                Some(r) => Some((accounts[outcomes.len() - 1], r)),
                None => None,
            }
        }),
    decreases outcomes.len(),
{
    if outcomes.len() > 1 {
        let (a, o) = (accounts.drop_first(), outcomes.drop_first());
        assert forall|j: int| 0 <= j < o.len() - 1 implies (#[trigger] o[j]) is None by {
            assert(o[j] == outcomes[j + 1]);
        }
        assert(outcomes[0] is None);
        lemma_first_collected_at_end(a, o);
        assert(o.last() == outcomes.last());
        assert(a[o.len() - 1] == accounts[outcomes.len() - 1]);
    } else if outcomes.len() == 1 {
        assert(outcomes.drop_first().len() == 0);
        assert(first_collected(accounts.drop_first(), outcomes.drop_first()) == None::<(A, R)>);
    }
}

/// Extending the outcomes by one keeps an earlier first result, and otherwise makes the new
/// outcome the first result.
proof fn lemma_first_collected_extend<A, R>(accounts: Seq<A>, outcomes: Seq<Option<R>>)
    requires
        1 <= outcomes.len() <= accounts.len(),
    ensures
        first_collected(accounts, outcomes) == match first_collected(
            accounts,
            outcomes.drop_last(),
        ) {
            Some(x) => Some(x),
            None => match outcomes.last() {
                Some(r) => Some((accounts[outcomes.len() - 1], r)),
                None => None,
            },
        },
    decreases outcomes.len(),
{
    let prefix = outcomes.drop_last();
    if outcomes.len() == 1 {
        assert(prefix.len() == 0);
        assert(first_collected(accounts, prefix) == None::<(A, R)>);
        assert(outcomes.drop_first().len() == 0);
        assert(first_collected(accounts.drop_first(), outcomes.drop_first()) == None::<(A, R)>);
        assert(outcomes.last() == outcomes[0]);
    } else {
        let (a, o) = (accounts.drop_first(), outcomes.drop_first());
        lemma_first_collected_extend(a, o);
        assert(o.drop_last() =~= prefix.drop_first());
        assert(prefix[0] == outcomes[0]);
        assert(o.last() == outcomes.last());
        assert(a[o.len() - 1] == accounts[outcomes.len() - 1]);
    }
}

/// The first result of a run is the first element of what a full run collects, for the same
/// accounts and outcomes.
proof fn lemma_first_is_head<A, R>(accounts: Seq<A>, outcomes: Seq<Option<R>>)
    requires
        outcomes.len() <= accounts.len(),
    ensures
        first_collected(accounts, outcomes) == (if collected(accounts, outcomes).len() > 0 {
            Some(collected(accounts, outcomes)[0])
        } else {
            None
        }),
    decreases outcomes.len(),
{
    if outcomes.len() > 0 {
        let prefix = outcomes.drop_last();
        lemma_first_is_head(accounts, prefix);
        lemma_first_collected_extend(accounts, outcomes);
    }
}

/// Once an outcome has a result, later outcomes do not change the first result.
proof fn lemma_first_collected_prefix_stop<A, R>(accounts: Seq<A>, outcomes: Seq<Option<R>>, k: int)
    requires
        accounts.len() == outcomes.len(),
        0 < k <= outcomes.len(),
        outcomes[k - 1] is Some,
    ensures
        first_collected(accounts.take(k), outcomes.take(k)) == first_collected(accounts, outcomes),
    decreases k,
{
    let (a, o) = (accounts.take(k), outcomes.take(k));
    assert(o[0] == outcomes[0]);
    assert(a[0] == accounts[0]);
    if outcomes[0] is None {
        assert(k > 1);
        lemma_first_collected_prefix_stop(accounts.drop_first(), outcomes.drop_first(), k - 1);
        assert(a.drop_first() =~= accounts.drop_first().take(k - 1));
        assert(o.drop_first() =~= outcomes.drop_first().take(k - 1));
    }
}

/// Running a callback for the accounts until one produces a result gives the first result
/// that running it for every account collects, when the callback answers alike for the
/// accounts both runs tried: the first run tried the first `k` accounts, and stopped there
/// because the last of them produced a result or because none was left.
pub proof fn lemma_any_is_first_of_all<A, R>(accounts: Seq<A>, outcomes: Seq<Option<R>>, k: int)
    requires
        accounts.len() == outcomes.len(),
        0 <= k <= outcomes.len(),
        forall|j: int| 0 <= j < k - 1 ==> (#[trigger] outcomes[j]) is None,
        k == outcomes.len() || (k > 0 && outcomes[k - 1] is Some),
    ensures
        first_collected(accounts.take(k), outcomes.take(k)) == (if collected(
            accounts,
            outcomes,
        ).len() > 0 {
            Some(collected(accounts, outcomes)[0])
        } else {
            None
        }),
{
    lemma_first_is_head(accounts, outcomes);
    assert(first_collected(accounts.take(k), outcomes.take(k)) == first_collected(accounts, outcomes)) by {
        lemma_first_collected_at_end(accounts.take(k), outcomes.take(k));
        if k < outcomes.len() {
            lemma_first_collected_prefix_stop(accounts, outcomes, k);
        } else {
            assert(accounts.take(k) =~= accounts);
            assert(outcomes.take(k) =~= outcomes);
        }
    }
}

/// Running a callback that answers alike each time it is asked about an account, for a list
/// of keys until one produces a result, gives the first result that running it for every key
/// collects, when the same key always gives the same account.
pub proof fn lemma_runs_any_is_first_of_runs_all<T: SigningTypes, R>(
    keys: Seq<(usize, T::Public)>,
    outcome: spec_fn(Account<T>, Option<R>) -> bool,
    all: Seq<(Account<T>, R)>,
    any: Option<(Account<T>, R)>,
)
    requires
        runs_all(keys, outcome, all),
        runs_any(keys, outcome, any),
        forall|a: Account<T>, o1: Option<R>, o2: Option<R>|
            #![trigger outcome(a, o1), outcome(a, o2)]
            outcome(a, o1) && outcome(a, o2) ==> o1 == o2,
        forall|k: (usize, T::Public), a1: Account<T>, a2: Account<T>|
            #![trigger account_of(k, a1), account_of(k, a2)]
            account_of(k, a1) && account_of(k, a2) ==> a1 == a2,
    ensures
        any == (if all.len() > 0 {
            Some(all[0])
        } else {
            None
        }),
{
    let step = pure_step(outcome);
    let (acc1, out1) = choose|accounts: Seq<Account<T>>, outcomes: Seq<Option<R>>|
        #[trigger] collected(accounts, outcomes) == all && numbered(keys, accounts)
            && accounts.len() == keys.len() && exists|states: Seq<()>|
            #[trigger] stepped(step, accounts, states, outcomes) && states[0] == ()
                && states.last() == ();
    let st1 = choose|states: Seq<()>|
        #[trigger] stepped(step, acc1, states, out1) && states[0] == () && states.last() == ();
    let (acc2, out2) = choose|accounts: Seq<Account<T>>, outcomes: Seq<Option<R>>|
        #[trigger] first_collected(accounts, outcomes) == any && numbered(keys, accounts)
            && (forall|j: int| 0 <= j < outcomes.len() - 1 ==> (#[trigger] outcomes[j]) is None)
            && (any is None ==> accounts.len() == keys.len()) && exists|states: Seq<()>|
            #[trigger] stepped(step, accounts, states, outcomes) && states[0] == ()
                && states.last() == ();
    let st2 = choose|states: Seq<()>|
        #[trigger] stepped(step, acc2, states, out2) && states[0] == () && states.last() == ();
    let k = acc2.len() as int;
    assert forall|j: int| 0 <= j < k implies acc2[j] == acc1[j] && out2[j] == out1[j] by {
        assert(account_of(keys[j], acc1[j]));
        assert(account_of(keys[j], acc2[j]));
        assert(step(acc1[j], st1[j], st1[j + 1], out1[j]));
        assert(step(acc2[j], st2[j], st2[j + 1], out2[j]));
        assert(outcome(acc1[j], out1[j]));
        assert(outcome(acc2[j], out2[j]));
    }
    assert(acc2 =~= acc1.take(k));
    assert(out2 =~= out1.take(k));
    assert forall|j: int| 0 <= j < k - 1 implies (#[trigger] out1[j]) is None by {
        assert(out2[j] == out1[j]);
    }
    if any is Some {
        lemma_first_collected_at_end(acc2, out2);
        assert(out2[k - 1] == out1[k - 1]);
    }
    lemma_any_is_first_of_all(acc1, out1, k);
}

/// Every result that running a callback for every key collects, and the result that running
/// it until one produces a result gives, is an outcome the callback can give for its account.
pub proof fn lemma_results_are_outcomes<T: SigningTypes, R>(
    keys: Seq<(usize, T::Public)>,
    outcome: spec_fn(Account<T>, Option<R>) -> bool,
    all: Seq<(Account<T>, R)>,
    any: Option<(Account<T>, R)>,
)
    ensures
        runs_all(keys, outcome, all) ==> forall|i: int|
            0 <= i < all.len() ==> outcome((#[trigger] all[i]).0, Some(all[i].1)),
        runs_any(keys, outcome, any) ==> (any matches Some(x) ==> outcome(x.0, Some(x.1))),
{
    let step = pure_step(outcome);
    if runs_all(keys, outcome, all) {
        let (accounts, outcomes) = choose|accounts: Seq<Account<T>>, outcomes: Seq<Option<R>>|
            #[trigger] collected(accounts, outcomes) == all && numbered(keys, accounts)
                && accounts.len() == keys.len() && exists|states: Seq<()>|
                #[trigger] stepped(step, accounts, states, outcomes) && states[0] == ()
                    && states.last() == ();
        let states = choose|states: Seq<()>|
            #[trigger] stepped(step, accounts, states, outcomes) && states[0] == ()
                && states.last() == ();
        lemma_collected_positions(accounts, outcomes);
        let pos = result_positions(outcomes);
        assert forall|i: int| 0 <= i < all.len() implies outcome((#[trigger] all[i]).0, Some(all[i].1)) by {
            let k = pos[i];
            assert(collected(accounts, outcomes)[i] == all[i]);
            assert(step(accounts[k], states[k], states[k + 1], outcomes[k]));
        }
    }
    if runs_any(keys, outcome, any) && any is Some {
        let (accounts, outcomes) = choose|accounts: Seq<Account<T>>, outcomes: Seq<Option<R>>|
            #[trigger] first_collected(accounts, outcomes) == any && numbered(keys, accounts)
                && (forall|j: int| 0 <= j < outcomes.len() - 1 ==> (#[trigger] outcomes[j]) is None)
                && (any is None ==> accounts.len() == keys.len()) && exists|states: Seq<()>|
                #[trigger] stepped(step, accounts, states, outcomes) && states[0] == ()
                    && states.last() == ();
        let states = choose|states: Seq<()>|
            #[trigger] stepped(step, accounts, states, outcomes) && states[0] == ()
                && states.last() == ();
        lemma_first_collected_at_end(accounts, outcomes);
        let n = outcomes.len() - 1;
        assert(outcomes.last() == outcomes[n]);
        assert(step(accounts[n], states[n], states[n + 1], outcomes[n]));
    }
}

/// The same key always gives the same account when cloning a key and asking a key for its
/// account give the same answer each time.
pub proof fn lemma_account_of_determined<T: SigningTypes>(
    key: (usize, T::Public),
    a1: Account<T>,
    a2: Account<T>,
)
    requires
        account_of(key, a1),
        account_of(key, a2),
        forall|p: T::Public, c1: T::Public, c2: T::Public|
            #![trigger cloned(p, c1), cloned(p, c2)]
            cloned(p, c1) && cloned(p, c2) ==> c1 == c2,
        forall|p: T::Public, id1: T::AccountId, id2: T::AccountId|
            #![trigger call_ensures(<T::Public as IdentifyAccount>::into_account, (p,), id1), call_ensures(<T::Public as IdentifyAccount>::into_account, (p,), id2)]
            call_ensures(<T::Public as IdentifyAccount>::into_account, (p,), id1) && call_ensures(
                <T::Public as IdentifyAccount>::into_account,
                (p,),
                id2,
            ) ==> id1 == id2,
    ensures
        a1 == a2,
{
    let c1 = choose|c: T::Public|
        cloned(key.1, c) && #[trigger] call_ensures(
            <T::Public as IdentifyAccount>::into_account,
            (c,),
            a1.id,
        );
    let c2 = choose|c: T::Public|
        cloned(key.1, c) && #[trigger] call_ensures(
            <T::Public as IdentifyAccount>::into_account,
            (c,),
            a2.id,
        );
    assert(c1 == c2);
}

/// When no callback produced a result, nothing is collected.
proof fn lemma_collected_none<A, R>(accounts: Seq<A>, outcomes: Seq<Option<R>>)
    requires
        forall|j: int| 0 <= j < outcomes.len() ==> (#[trigger] outcomes[j]) is None,
    ensures
        collected(accounts, outcomes) == Seq::<(A, R)>::empty(),
    decreases outcomes.len(),
{
    if outcomes.len() > 0 {
        let prefix = outcomes.drop_last();
        assert forall|j: int| 0 <= j < prefix.len() implies (#[trigger] prefix[j]) is None by {
            assert(prefix[j] == outcomes[j]);
        }
        lemma_collected_none(accounts, prefix);
        assert(outcomes.last() is None);
    }
}

/// `collected` keeps, in order, the account and result at each position that has a result.
proof fn lemma_collected_positions<A, R>(accounts: Seq<A>, outcomes: Seq<Option<R>>)
    requires
        outcomes.len() <= accounts.len(),
    ensures
        collected(accounts, outcomes).len() == result_positions(outcomes).len(),
        forall|i: int|
            #![trigger collected(accounts, outcomes)[i]]
            0 <= i < result_positions(outcomes).len() ==> 0 <= result_positions(outcomes)[i]
                < outcomes.len() && outcomes[result_positions(outcomes)[i]] is Some && collected(
                accounts,
                outcomes,
            )[i] == (accounts[result_positions(outcomes)[i]], outcomes[result_positions(
                outcomes,
            )[i]]->0),
        forall|i: int, j: int|
            0 <= i < j < result_positions(outcomes).len() ==> #[trigger] result_positions(
                outcomes,
            )[i] < #[trigger] result_positions(outcomes)[j],
    decreases outcomes.len(),
{
    if outcomes.len() > 0 {
        let prev = outcomes.drop_last();
        let n = outcomes.len() - 1;
        lemma_collected_positions(accounts, prev);
        let (pp, cp) = (result_positions(prev), collected(accounts, prev));
        assert(result_positions(outcomes) == (if outcomes.last() is Some {
            pp.push(n)
        } else {
            pp
        }));
        assert(collected(accounts, outcomes) == match outcomes.last() {
            Some(r) => cp.push((accounts[n], r)),
            None => cp,
        });
        let c = collected(accounts, outcomes);
        let p = result_positions(outcomes);
        assert forall|i: int|
            #![trigger c[i]]
            #![trigger p[i]]
            0 <= i < p.len() implies 0 <= p[i] < outcomes.len() && outcomes[p[i]] is Some && c[i] == (
                accounts[p[i]],
                outcomes[p[i]]->0,
            ) by {
            if i < pp.len() {
                assert(cp[i] == cp[i]);
                assert(p[i] == pp[i]);
                assert(c[i] == cp[i]);
                assert(outcomes[pp[i]] == prev[pp[i]]);
            } else {
                assert(outcomes.last() is Some);
                assert(p[i] == n);
                assert(outcomes[n] == outcomes.last());
            }
        }
        assert forall|i: int, j: int| 0 <= i < j < p.len() implies #[trigger] p[i] < #[trigger] p[j] by {
            assert(cp[i] == cp[i]);
            if j < pp.len() {
                assert(pp[i] < pp[j]);
            } else {
                assert(p[i] == pp[i]);
            }
        }
    } else {
        assert(result_positions(outcomes) == Seq::<int>::empty());
        assert(collected(accounts, outcomes) == Seq::<(A, R)>::empty());
    }
}

/// A description of what a step can do can be replaced by a looser one.
pub proof fn lemma_runs_weaken<T: SigningTypes, S, R>(
    keys: Seq<(usize, T::Public)>,
    p: spec_fn(Account<T>, S, S, Option<R>) -> bool,
    q: spec_fn(Account<T>, S, S, Option<R>) -> bool,
    before: S,
    after: S,
    all: Seq<(Account<T>, R)>,
    any: Option<(Account<T>, R)>,
)
    requires
        forall|a: Account<T>, b: S, c: S, o: Option<R>| #[trigger] p(a, b, c, o) ==> q(a, b, c, o),
    ensures
        runs_all_with(keys, p, before, after, all) ==> runs_all_with(keys, q, before, after, all),
        runs_any_with(keys, p, before, after, any) ==> runs_any_with(keys, q, before, after, any),
{
    if runs_all_with(keys, p, before, after, all) {
        let (accounts, outcomes) = choose|accounts: Seq<Account<T>>, outcomes: Seq<Option<R>>|
            #[trigger] collected(accounts, outcomes) == all && numbered(keys, accounts)
                && accounts.len() == keys.len() && exists|states: Seq<S>|
                #[trigger] stepped(p, accounts, states, outcomes) && states[0] == before
                    && states.last() == after;
        let states = choose|states: Seq<S>|
            #[trigger] stepped(p, accounts, states, outcomes) && states[0] == before
                && states.last() == after;
        assert(stepped(q, accounts, states, outcomes));
    }
    if runs_any_with(keys, p, before, after, any) {
        let (accounts, outcomes) = choose|accounts: Seq<Account<T>>, outcomes: Seq<Option<R>>|
            #[trigger] first_collected(accounts, outcomes) == any && numbered(keys, accounts)
                && (forall|j: int| 0 <= j < outcomes.len() - 1 ==> (#[trigger] outcomes[j]) is None)
                && (any is None ==> accounts.len() == keys.len()) && exists|states: Seq<S>|
                #[trigger] stepped(p, accounts, states, outcomes) && states[0] == before
                    && states.last() == after;
        let states = choose|states: Seq<S>|
            #[trigger] stepped(p, accounts, states, outcomes) && states[0] == before
                && states.last() == after;
        assert(stepped(q, accounts, states, outcomes));
    }
}

/// Every result that running a step for every key collects is the account of one of the keys
/// with a result its run produced; the results come in the order of their keys, so when the
/// keys' indices increase, so do the results' indices.
pub proof fn lemma_all_in_key_order<T: SigningTypes, S, R>(
    keys: Seq<(usize, T::Public)>,
    step: spec_fn(Account<T>, S, S, Option<R>) -> bool,
    before: S,
    after: S,
    result: Seq<(Account<T>, R)>,
)
    requires
        runs_all_with(keys, step, before, after, result),
    ensures
        forall|i: int| 0 <= i < result.len() ==> from_keys(keys, #[trigger] result[i].0),
        (forall|k1: int, k2: int| 0 <= k1 < k2 < keys.len() ==> keys[k1].0 < keys[k2].0) ==> forall|
            i: int,
            j: int,
        | 0 <= i < j < result.len() ==> (#[trigger] result[i]).0.index < (#[trigger] result[j]).0.index,
{
    let (accounts, outcomes) = choose|accounts: Seq<Account<T>>, outcomes: Seq<Option<R>>|
        #[trigger] collected(accounts, outcomes) == result && numbered(keys, accounts)
            && accounts.len() == keys.len() && exists|states: Seq<S>|
            #[trigger] stepped(step, accounts, states, outcomes) && states[0] == before
                && states.last() == after;
    let states = choose|states: Seq<S>|
        #[trigger] stepped(step, accounts, states, outcomes) && states[0] == before
            && states.last() == after;
    lemma_collected_positions(accounts, outcomes);
    let pos = result_positions(outcomes);
    assert forall|i: int| 0 <= i < result.len() implies from_keys(keys, #[trigger] result[i].0) by {
        let k = pos[i];
        assert(collected(accounts, outcomes)[i] == result[i]);
        assert(0 <= k < accounts.len());
        assert(result[i].0 == accounts[k]);
        assert(account_of(keys[k], accounts[k]));
        assert(account_of(keys[k], result[i].0));
    }

    if forall|k1: int, k2: int| 0 <= k1 < k2 < keys.len() ==> keys[k1].0 < keys[k2].0 {
        assert forall|i: int, j: int| 0 <= i < j < result.len() implies (#[trigger] result[i]).0.index
            < (#[trigger] result[j]).0.index by {
            assert(collected(accounts, outcomes)[i] == result[i]);
            assert(collected(accounts, outcomes)[j] == result[j]);
            assert(pos[i] < pos[j]);
            assert(account_of(keys[pos[i]], accounts[pos[i]]));
            assert(account_of(keys[pos[j]], accounts[pos[j]]));
        }
    }
}

/// When running a callback for the keys until one produces a result finds none, running it
/// for every key with the same answers collects nothing.
pub proof fn lemma_any_none_is_all_empty<T: SigningTypes, R>(
    keys: Seq<(usize, T::Public)>,
    outcome: spec_fn(Account<T>, Option<R>) -> bool,
)
    requires
        runs_any(keys, outcome, None),
    ensures
        runs_all(keys, outcome, Seq::empty()),
{
    let (accounts, outcomes) = choose|accounts: Seq<Account<T>>, outcomes: Seq<Option<R>>|
        #[trigger] first_collected(accounts, outcomes) == None::<(Account<T>, R)>
            && numbered(keys, accounts)
            && (forall|j: int| 0 <= j < outcomes.len() - 1 ==> (#[trigger] outcomes[j]) is None)
            && (None::<(Account<T>, R)> is None ==> accounts.len() == keys.len()) && exists|
            states: Seq<()>,
        |
            #[trigger] stepped(pure_step(outcome), accounts, states, outcomes) && states[0] == ()
                && states.last() == ();
    let states = choose|states: Seq<()>|
        #[trigger] stepped(pure_step(outcome), accounts, states, outcomes) && states[0] == ()
            && states.last() == ();
    lemma_first_collected_at_end(accounts, outcomes);
    assert forall|j: int| 0 <= j < outcomes.len() implies (#[trigger] outcomes[j]) is None by {
        if j == outcomes.len() - 1 {
            assert(outcomes.last() == outcomes[j]);
        }
    }
    lemma_collected_none(accounts, outcomes);
    assert(collected(accounts, outcomes) == Seq::<(Account<T>, R)>::empty());
}

/// One run for an account: what it does to a state of type `S` and what it produces.
pub trait AccountStep<T: SigningTypes, S, R> {
    /// Whether the run can be made for any account.
    spec fn ready(&self) -> bool;

    /// What a run for an account can do to the state and produce.
    spec fn steps(&self) -> spec_fn(Account<T>, S, S, Option<R>) -> bool;

    /// Runs for `account`.
    fn run(&self, account: &Account<T>, state: &mut S) -> (o: Option<R>)
        requires
            self.ready(),
        ensures
            (self.steps())(*account, *old(state), *final(state), o),
    ;
}

/// A run that calls a callback and touches no state.
pub struct Callback<'a, F> {
    /// The callback.
    pub f: &'a F,
}

impl<'a, T: SigningTypes, R, F: Fn(&Account<T>) -> Option<R>> AccountStep<T, (), R> for Callback<
    'a,
    F,
> {
    open spec fn ready(&self) -> bool {
        forall|a: &Account<T>| call_requires(*self.f, (a,))
    }

    open spec fn steps(&self) -> spec_fn(Account<T>, (), (), Option<R>) -> bool {
        pure_step(outcome_of(*self.f))
    }

    fn run(&self, account: &Account<T>, state: &mut ()) -> (o: Option<R>) {
        (self.f)(account)
    }
}

/// Runs `step` for the account of every key in `keys`, in order, and collects the accounts
/// for which it produced a result.
pub fn collect_all_with<T: SigningTypes, S, R, St: AccountStep<T, S, R>>(
    keys: Vec<(usize, T::Public)>,
    step: &St,
    state: &mut S,
) -> (r: Vec<(Account<T>, R)>)
    requires
        step.ready(),
    ensures
        runs_all_with(keys@, step.steps(), *old(state), *final(state), r@),
{
    broadcast use vstd::std_specs::vec::axiom_spec_into_iter;

    let ghost keys_view = keys@;
    let ghost start = *state;
    let mut out: Vec<(Account<T>, R)> = Vec::new();
    let ghost mut accounts: Seq<Account<T>> = seq![];
    let ghost mut outcomes: Seq<Option<R>> = seq![];
    let ghost mut states: Seq<S> = seq![*state];
    for key in it: keys
        invariant
            it.seq() == keys_view,
            step.ready(),
            accounts.len() == it.index(),
            numbered(keys_view, accounts),
            stepped(step.steps(), accounts, states, outcomes),
            states[0] == start,
            states.last() == *state,
            out@ == collected(accounts, outcomes),
    {
        let (index, public) = key;
        let id = public.clone().into_account();
        let account = Account::new(index, id, public);
        let res = step.run(&account, state);
        proof {
            let ghost prev_accounts = accounts;
            let ghost prev_outcomes = outcomes;
            accounts = accounts.push(account);
            outcomes = outcomes.push(res);
            states = states.push(*state);
            assert(outcomes.drop_last() =~= prev_outcomes);
            lemma_collected_prefix(accounts, prev_accounts, prev_outcomes);
            assert(accounts[accounts.len() - 1] == account);
        }
        match res {
            Some(x) => out.push((account, x)),
            None => {},
        }
    }
    assert(collected(accounts, outcomes) == out@);
    assert(stepped(step.steps(), accounts, states, outcomes));
    out
}

/// Runs `step` for the account of every key in `keys`, in order, until it produces a result,
/// and returns that account with the result.
pub fn collect_any_with<T: SigningTypes, S, R, St: AccountStep<T, S, R>>(
    keys: Vec<(usize, T::Public)>,
    step: &St,
    state: &mut S,
) -> (r: Option<(Account<T>, R)>)
    requires
        step.ready(),
    ensures
        runs_any_with(keys@, step.steps(), *old(state), *final(state), r),
{
    broadcast use vstd::std_specs::vec::axiom_spec_into_iter;

    let ghost keys_view = keys@;
    let ghost start = *state;
    let ghost mut accounts: Seq<Account<T>> = seq![];
    let ghost mut outcomes: Seq<Option<R>> = seq![];
    let ghost mut states: Seq<S> = seq![*state];
    let mut found: Option<(Account<T>, R)> = None;
    for key in it: keys
        invariant
            it.seq() == keys_view,
            step.ready(),
            found is None ==> accounts.len() == it.index(),
            accounts.len() <= it.index(),
            numbered(keys_view, accounts),
            stepped(step.steps(), accounts, states, outcomes),
            states[0] == start,
            states.last() == *state,
            forall|j: int| 0 <= j < outcomes.len() - 1 ==> (#[trigger] outcomes[j]) is None,
            found is None ==> forall|j: int| 0 <= j < outcomes.len() ==> (#[trigger] outcomes[j]) is None,
            first_collected(accounts, outcomes) == found,
    {
        if found.is_none() {
            let (index, public) = key;
            let id = public.clone().into_account();
            let account = Account::new(index, id, public);
            let res = step.run(&account, state);
            proof {
                accounts = accounts.push(account);
                outcomes = outcomes.push(res);
                states = states.push(*state);
                lemma_first_collected_at_end(accounts, outcomes);
                assert(stepped(step.steps(), accounts, states, outcomes));
            }
            match res {
                Some(x) => {
                    found = Some((account, x));
                },
                None => {},
            }
        }
    }
    proof {
        if found is None {
            lemma_first_collected_at_end(accounts, outcomes);
        }
    }
    found
}

} // verus!
