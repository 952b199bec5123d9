//! Building extrinsics and handing them to the transaction pool.
use vstd::prelude::*;

use crate::crypto::{AccountIndex, AppCrypto, SigningTypes};

verus! {

/// An extrinsic that can be built from a call and optional signature data.
pub trait Extrinsic: Sized {
    /// The call the extrinsic carries.
    type Call;

    /// The data a signed extrinsic carries besides its call, such as the signature.
    type SignaturePayload;

    /// Builds an extrinsic; `None` when this runtime cannot build one from these parts.
    fn new(call: Self::Call, signed_data: Option<Self::SignaturePayload>) -> Option<Self>;
}

/// A value that has a byte encoding.
pub trait Encode {
    /// The encoding of `self`.
    fn encode(&self) -> Vec<u8>;
}

/// The types the runtime needs to submit transactions.
pub trait SendTransactionTypes<LocalCall> {
    /// The runtime's extrinsic type.
    type Extrinsic: Extrinsic<Call = Self::OverarchingCall> + Encode;

    /// The runtime's call type, which a pallet-local call converts into.
    type OverarchingCall: From<LocalCall>;
}

/// Creates signed transactions: the runtime decides what payload is signed and how the
/// signature is attached.
pub trait CreateSignedTransaction<LocalCall>: SendTransactionTypes<LocalCall> + SigningTypes {
    /// Signs `call` for `account`, whose public key is `public`, with the account's `nonce`.
    ///
    /// Returns the call to put in the extrinsic and its signature data, or `None` when no
    /// signed transaction can be made (for instance because signing failed).
    fn create_transaction<C: AppCrypto<Self::Public, Self::Signature>>(
        call: Self::OverarchingCall,
        public: Self::Public,
        account: Self::AccountId,
        nonce: Self::Index,
    ) -> Option<(Self::OverarchingCall, SignaturePayloadOf<Self, LocalCall>)>;
}

/// The nonce to store for an account after a signed transaction made with `nonce` was handed
/// to the pool with answer `submitted`: the next nonce when the pool took it, none otherwise.
pub open spec fn nonce_after<I: AccountIndex>(nonce: I, submitted: Result<(), ()>) -> Option<I> {
    match submitted {
        Ok(()) => Some(nonce.following()),
        Err(()) => None,
    }
}

/// The nonce to store for an account after a signed transaction made with `nonce` was handed
/// to the pool with answer `submitted`: the next nonce when the pool took it, none otherwise.
///
/// The nonce wraps around at its maximum.
pub fn nonce_after_submission<I: AccountIndex>(nonce: I, submitted: &Result<(), ()>) -> (r:
    Option<I>)
    ensures
        r == nonce_after(nonce, *submitted),
        r is Some <==> submitted is Ok,
        r matches Some(next) ==> next != nonce,
{
    proof {
        nonce.lemma_following_differs();
    }
    match submitted {
        Ok(()) => Some(nonce.next()),
        Err(()) => None,
    }
}

/// What an off-chain run has done outside the runtime: the encoded extrinsics handed to the
/// pool, each with the pool's answer, in order; and the account nonces stored, in order.
pub type OffchainRecord<A, I> = (Seq<(Seq<u8>, Result<(), ()>)>, Seq<(A, I)>);

/// The work of an off-chain run that leaves the runtime: the transaction pool (`pool`, which
/// takes an encoded extrinsic), the account nonces stored on chain (`chain_nonce`), and the
/// nonces this run stores, which later reads in the run see.
///
/// Its view records what was handed to the pool and what nonces were stored.
#[verifier::reject_recursive_types(I)]
pub struct Offchain<A, I, P: Fn(Vec<u8>) -> Result<(), ()>, N: Fn(&A) -> I> {
    pool: P,
    chain_nonce: N,
    submitted: Ghost<Seq<(Seq<u8>, Result<(), ()>)>>,
    stored: Vec<(A, I)>,
}

impl<A, I, P: Fn(Vec<u8>) -> Result<(), ()>, N: Fn(&A) -> I> Offchain<A, I, P, N> {
    /// The pool and the nonce reader accept every argument.
    #[verifier::type_invariant]
    spec fn ready(self) -> bool {
        &&& forall|bytes: Vec<u8>| call_requires(self.pool, (bytes,))
        &&& forall|id: &A| call_requires(self.chain_nonce, (id,))
    }

    /// The transaction pool.
    pub closed spec fn pool(self) -> P {
        self.pool
    }

    /// The reader of the nonces stored on chain.
    pub closed spec fn chain_nonce(self) -> N {
        self.chain_nonce
    }

    /// What the run has handed to the pool, and the nonces it has stored.
    pub closed spec fn record(self) -> OffchainRecord<A, I> {
        (self.submitted@, self.stored@)
    }

    /// A run that has done nothing yet.
    pub fn new(pool: P, chain_nonce: N) -> (r: Self)
        requires
            forall|bytes: Vec<u8>| call_requires(pool, (bytes,)),
            forall|id: &A| call_requires(chain_nonce, (id,)),
        ensures
            r.pool() == pool,
            r.chain_nonce() == chain_nonce,
            r.record() == (Seq::<(Seq<u8>, Result<(), ()>)>::empty(), Seq::<(A, I)>::empty()),
    {
        Offchain { pool, chain_nonce, submitted: Ghost(Seq::empty()), stored: Vec::new() }
    }

    /// The nonces this run has stored, in order; a later entry for an account replaces an
    /// earlier one.
    pub fn stored_nonces(&self) -> (r: &Vec<(A, I)>)
        ensures
            r@ == self.record().1,
    {
        &self.stored
    }

    /// Hands `encoded` to the pool and returns its answer.
    pub fn submit(&mut self, encoded: Vec<u8>) -> (r: Result<(), ()>)
        ensures
            same_ports(*old(self), *final(self)),
            call_ensures(old(self).pool(), (encoded,), r),
            final(self).record() == (old(self).record().0.push((encoded@, r)), old(self).record().1),
    {
        proof {
            use_type_invariant(&*self);
        }
        let ghost bytes = encoded@;
        let r = (self.pool)(encoded);
        proof {
            self.submitted@ = self.submitted@.push((bytes, r));
        }
        r
    }

    /// The nonce of the account `id`: the last one this run stored for it, or else the one
    /// stored on chain.
    pub fn nonce(&self, id: &A) -> (r: I)
        where
            A: PartialEq,
            I: Copy,
        ensures
            nonce_read(self.record().1, self.chain_nonce(), *id, r),
    {
        proof {
            use_type_invariant(self);
        }
        let mut m: usize = self.stored.len();
        while m > 0
            invariant
                m <= self.stored@.len(),
                forall|j: int|
                    m <= j < self.stored@.len() ==> #[trigger] call_ensures(
                        <A as PartialEq>::eq,
                        (id, &self.stored@[j].0),
                        false,
                    ),
            decreases m,
        {
            m = m - 1;
            if id.eq(&self.stored[m].0) {
                assert(call_ensures(<A as PartialEq>::eq, (id, &self.stored@[m as int].0), true));
                return self.stored[m].1;
            }
        }
        (self.chain_nonce)(id)
    }

    /// Stores `nonce` for the account `id`.
    pub fn store_nonce(&mut self, id: A, nonce: I)
        ensures
            same_ports(*old(self), *final(self)),
            final(self).record() == (old(self).record().0, old(self).record().1.push((id, nonce))),
    {
        proof {
            use_type_invariant(&*self);
        }
        let mut stored: Vec<(A, I)> = Vec::new();
        core::mem::swap(&mut stored, &mut self.stored);
        stored.push((id, nonce));
        self.stored = stored;
    }
}

/// The two runs reach the same pool and the same chain nonces.
pub open spec fn same_ports<A, I, P: Fn(Vec<u8>) -> Result<(), ()>, N: Fn(&A) -> I>(
    a: Offchain<A, I, P, N>,
    b: Offchain<A, I, P, N>,
) -> bool {
    a.pool() == b.pool() && a.chain_nonce() == b.chain_nonce()
}

/// `r` is a nonce that reading the account `id` can give, with the nonces `stored` in this run
/// over those that `chain` reads: the last stored entry whose account `eq` says is `id`, or,
/// when `eq` says none is, what `chain` gives for `id`.
pub open spec fn nonce_read<A: PartialEq, I, N: Fn(&A) -> I>(
    stored: Seq<(A, I)>,
    chain: N,
    id: A,
    r: I,
) -> bool {
    ||| exists|k: int|
        0 <= k < stored.len() && #[trigger] call_ensures(<A as PartialEq>::eq, (&id, &stored[k].0), true)
            && (forall|m: int|
            k < m < stored.len() ==> #[trigger] call_ensures(
                <A as PartialEq>::eq,
                (&id, &stored[m].0),
                false,
            )) && r == stored[k].1
    ||| (forall|m: int|
        0 <= m < stored.len() ==> #[trigger] call_ensures(
            <A as PartialEq>::eq,
            (&id, &stored[m].0),
            false,
        )) && call_ensures(chain, (&id,), r)
}

/// A nonce stored for an account is what reading that account gives next, when `eq` says the
/// account read is the one stored.
pub proof fn lemma_stored_nonce_is_read<A: PartialEq, I, N: Fn(&A) -> I>(
    stored: Seq<(A, I)>,
    chain: N,
    id: A,
    stored_id: A,
    nonce: I,
    r: I,
)
    requires
        nonce_read(stored.push((stored_id, nonce)), chain, id, r),
        forall|b: bool| call_ensures(<A as PartialEq>::eq, (&id, &stored_id), b) ==> b,
    ensures
        r == nonce,
{
    let s = stored.push((stored_id, nonce));
    let last = stored.len() as int;
    assert(s[last] == (stored_id, nonce));
    if exists|k: int|
        0 <= k < s.len() && #[trigger] call_ensures(<A as PartialEq>::eq, (&id, &s[k].0), true)
            && (forall|m: int|
            k < m < s.len() ==> #[trigger] call_ensures(<A as PartialEq>::eq, (&id, &s[m].0), false))
            && r == s[k].1 {
        let k = choose|k: int|
            0 <= k < s.len() && #[trigger] call_ensures(<A as PartialEq>::eq, (&id, &s[k].0), true)
                && (forall|m: int|
                k < m < s.len() ==> #[trigger] call_ensures(
                    <A as PartialEq>::eq,
                    (&id, &s[m].0),
                    false,
                )) && r == s[k].1;
        if k < last {
            assert(call_ensures(<A as PartialEq>::eq, (&id, &s[last].0), false));
        }
    } else {
        assert(call_ensures(<A as PartialEq>::eq, (&id, &s[last].0), false));
    }
}

/// Reading an account that `eq` says is not the one just stored gives what it gave before.
pub proof fn lemma_other_nonce_unchanged<A: PartialEq, I, N: Fn(&A) -> I>(
    stored: Seq<(A, I)>,
    chain: N,
    id: A,
    stored_id: A,
    nonce: I,
    r: I,
)
    requires
        nonce_read(stored.push((stored_id, nonce)), chain, id, r),
        forall|b: bool| call_ensures(<A as PartialEq>::eq, (&id, &stored_id), b) ==> !b,
    ensures
        nonce_read(stored, chain, id, r),
{
    let s = stored.push((stored_id, nonce));
    let last = stored.len() as int;
    assert(s[last] == (stored_id, nonce));
    assert forall|m: int| 0 <= m < stored.len() implies s[m] == stored[m] by {}
    if exists|k: int|
        0 <= k < s.len() && #[trigger] call_ensures(<A as PartialEq>::eq, (&id, &s[k].0), true)
            && (forall|m: int|
            k < m < s.len() ==> #[trigger] call_ensures(<A as PartialEq>::eq, (&id, &s[m].0), false))
            && r == s[k].1 {
        let k = choose|k: int|
            0 <= k < s.len() && #[trigger] call_ensures(<A as PartialEq>::eq, (&id, &s[k].0), true)
                && (forall|m: int|
                k < m < s.len() ==> #[trigger] call_ensures(
                    <A as PartialEq>::eq,
                    (&id, &s[m].0),
                    false,
                )) && r == s[k].1;
        assert(k != last);
        assert(call_ensures(<A as PartialEq>::eq, (&id, &stored[k].0), true));
        assert forall|m: int| k < m < stored.len() implies #[trigger] call_ensures(
            <A as PartialEq>::eq,
            (&id, &stored[m].0),
            false,
        ) by {
            assert(call_ensures(<A as PartialEq>::eq, (&id, &s[m].0), false));
        }
    } else {
        assert forall|m: int| 0 <= m < stored.len() implies #[trigger] call_ensures(
            <A as PartialEq>::eq,
            (&id, &stored[m].0),
            false,
        ) by {
            assert(call_ensures(<A as PartialEq>::eq, (&id, &s[m].0), false));
        }
    }
}

/// Submits transactions with or without a signature.
pub struct SubmitTransaction<T: SendTransactionTypes<OverarchingCall>, OverarchingCall> {
    _phantom: core::marker::PhantomData<(T, OverarchingCall)>,
}

/// The signature data of the extrinsics of `T`.
pub type SignaturePayloadOf<T, LocalCall> = <<T as SendTransactionTypes<LocalCall>>::Extrinsic as Extrinsic>::SignaturePayload;

/// What handing the encoding of `xt` to the pool `pool` does to a run's record: exactly that
/// encoding is handed over once, `r` is the pool's answer, and no nonce is stored.
pub open spec fn pool_answer<A, I, X: Encode, P: Fn(Vec<u8>) -> Result<(), ()>>(
    xt: X,
    pool: P,
    before: OffchainRecord<A, I>,
    after: OffchainRecord<A, I>,
    r: Result<(), ()>,
) -> bool {
    exists|bytes: Vec<u8>|
        #[trigger] call_ensures(X::encode, (&xt,), bytes) && call_ensures(pool, (bytes,), r)
            && after == (before.0.push((bytes@, r)), before.1)
}

/// What submitting `call` with `signature` through `pool` does to a run's record and answers:
/// the runtime builds an extrinsic from them; when it builds none, nothing is handed to the
/// pool and `r` is `Err(())`; otherwise its encoding is handed to the pool once and `r` is the
/// pool's answer.
pub open spec fn submission<A, I, X: Extrinsic + Encode, P: Fn(Vec<u8>) -> Result<(), ()>>(
    call: X::Call,
    signature: Option<X::SignaturePayload>,
    pool: P,
    before: OffchainRecord<A, I>,
    after: OffchainRecord<A, I>,
    r: Result<(), ()>,
) -> bool {
    exists|xt: Option<X>|
        #[trigger] call_ensures(X::new, (call, signature), xt) && match xt {
            None => r == Err::<(), ()>(()) && after == before,
            Some(x) => pool_answer::<A, I, X, P>(x, pool, before, after, r),
        }
}

impl<T: SendTransactionTypes<LocalCall>, LocalCall> SubmitTransaction<T, LocalCall> {
    /// Submits `call` with an optional signature: builds the runtime's extrinsic from them and
    /// hands its encoding to the run's transaction pool.
    ///
    /// `Err(())`, with nothing handed to the pool, when the runtime cannot build the extrinsic;
    /// otherwise the pool's answer.
    pub fn submit_transaction<A, I, P, N>(
        call: T::OverarchingCall,
        signature: Option<SignaturePayloadOf<T, LocalCall>>,
        offchain: &mut Offchain<A, I, P, N>,
    ) -> (r: Result<(), ()>)
        where
            P: Fn(Vec<u8>) -> Result<(), ()>,
            N: Fn(&A) -> I,
        ensures
            same_ports(*old(offchain), *final(offchain)),
            submission::<A, I, T::Extrinsic, P>(
                call,
                signature,
                old(offchain).pool(),
                old(offchain).record(),
                final(offchain).record(),
                r,
            ),
    {
        let xt = T::Extrinsic::new(call, signature);
        Self::submit_extrinsic(xt, offchain)
    }

    /// Submits `call` without a signature.
    pub fn submit_unsigned_transaction<A, I, P, N>(
        call: T::OverarchingCall,
        offchain: &mut Offchain<A, I, P, N>,
    ) -> (r: Result<(), ()>)
        where
            P: Fn(Vec<u8>) -> Result<(), ()>,
            N: Fn(&A) -> I,
        ensures
            same_ports(*old(offchain), *final(offchain)),
            submission::<A, I, T::Extrinsic, P>(
                call,
                None,
                old(offchain).pool(),
                old(offchain).record(),
                final(offchain).record(),
                r,
            ),
    {
        Self::submit_transaction(call, None, offchain)
    }

    /// Hands the encoding of `xt` to the run's pool; `Err(())`, with nothing handed over, when
    /// there is no extrinsic.
    pub fn submit_extrinsic<A, I, P, N>(xt: Option<T::Extrinsic>, offchain: &mut Offchain<A, I, P, N>) -> (r:
        Result<(), ()>)
        where
            P: Fn(Vec<u8>) -> Result<(), ()>,
            N: Fn(&A) -> I,
        ensures
            same_ports(*old(offchain), *final(offchain)),
            xt is None ==> r == Err::<(), ()>(()) && final(offchain).record() == old(
                offchain,
            ).record(),
            xt matches Some(x) ==> pool_answer(
                x,
                old(offchain).pool(),
                old(offchain).record(),
                final(offchain).record(),
                r,
            ),
    {
        match xt {
            Some(x) => {
                let bytes = x.encode();
                offchain.submit(bytes)
            },
            None => Err(()),
        }
    }
}

} // verus!
