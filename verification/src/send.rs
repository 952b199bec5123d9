//! Signing messages and payloads, and sending signed and unsigned transactions, with the
//! accounts of a `Signer`.
use vstd::prelude::*;

use crate::crypto::{signs_verifiably, Account, AccountIndex, AppCrypto, SigningTypes};
use crate::select::{outcome_of, pure_step, AccountStep};
use crate::signer::{lemma_signer_results_are_outcomes, lemma_signs_weaken, signs_all, signs_all_with, signs_any, signs_any_with, ForAll, ForAny, Signer};
use crate::submit::{
    lemma_other_nonce_unchanged, lemma_stored_nonce_is_read, nonce_after, nonce_after_submission, nonce_read, same_ports, submission, CreateSignedTransaction,
    Encode, Offchain, OffchainRecord, SendTransactionTypes, SignaturePayloadOf, SubmitTransaction,
};

verus! {

/// A payload that can be signed with the key it names.
pub trait SignedPayload<T: SigningTypes>: Encode + Sized {
    /// The public key that should sign the payload; its private key is expected in the
    /// keystore.
    fn public(&self) -> T::Public;

    /// Signs the encoding of the payload with the key of `public()`; `None` when that key is
    /// not of the application type of `C` or cannot sign.
    fn sign<C: AppCrypto<T::Public, T::Signature>>(&self) -> (r: Option<T::Signature>)
        default_ensures
            exists|bytes: Vec<u8>, public: T::Public|
                #![trigger call_ensures(Self::encode, (self,), bytes), call_ensures(Self::public, (self,), public)]
                call_ensures(Self::encode, (self,), bytes) && call_ensures(Self::public, (self,), public)
                    && exists|s: &[u8]| s@ == bytes@ && #[trigger] call_ensures(C::sign, (s, public), r),
    {
        let payload = self.encode();
        let public = self.public();
        C::sign(payload.as_slice(), public)
    }

    /// Whether `signature` is a valid signature of the encoding of the payload by the key of
    /// `public()`.
    fn verify<C: AppCrypto<T::Public, T::Signature>>(&self, signature: T::Signature) -> (r: bool)
        default_ensures
            exists|bytes: Vec<u8>, public: T::Public|
                #![trigger call_ensures(Self::encode, (self,), bytes), call_ensures(Self::public, (self,), public)]
                call_ensures(Self::encode, (self,), bytes) && call_ensures(Self::public, (self,), public)
                    && exists|s: &[u8]|
                    s@ == bytes@ && #[trigger] call_ensures(C::verify, (s, public, signature), r),
    {
        let payload = self.encode();
        let public = self.public();
        C::verify(payload.as_slice(), public, signature)
    }
}

/// The signatures `C` can give for the account `a` when asked to sign `message` with a clone of
/// its public key.
pub open spec fn message_signature<T: SigningTypes, C: AppCrypto<T::Public, T::Signature>>(
    message: &[u8],
) -> spec_fn(Account<T>, Option<T::Signature>) -> bool {
    |a: Account<T>, o: Option<T::Signature>|
        exists|public: T::Public| cloned(a.public, public) && #[trigger] call_ensures(C::sign, (message, public), o)
}

/// The signatures that signing the payload that `f` builds for the account `a` can give.
pub open spec fn payload_signature<
    T: SigningTypes,
    C: AppCrypto<T::Public, T::Signature>,
    TPayload: SignedPayload<T>,
    F: Fn(&Account<T>) -> TPayload,
>(f: F) -> spec_fn(Account<T>, Option<T::Signature>) -> bool {
    |a: Account<T>, o: Option<T::Signature>|
        exists|payload: TPayload|
            call_ensures(f, (&a,), payload) && #[trigger] call_ensures(
                TPayload::sign::<C>,
                (&payload,),
                o,
            )
}

/// Every signature that signing `message` with the accounts of a signer whose view is `given`
/// gives is accepted by `C::verify` for the message and a clone of the signing account's key,
/// when `C` signs verifiably and a clone of a key is equal to the key.
pub proof fn lemma_message_signatures_verify<T: SigningTypes, C: AppCrypto<T::Public, T::Signature>>(
    given: Option<Seq<T::Public>>,
    message: &[u8],
    all: Seq<(Account<T>, T::Signature)>,
    any: Option<(Account<T>, T::Signature)>,
)
    requires
        signs_verifiably::<T::Public, T::Signature, C>(),
        forall|p: T::Public, c: T::Public| #[trigger] cloned(p, c) ==> p == c,
    ensures
        signs_all::<T, C, T::Signature>(given, message_signature::<T, C>(message), all) ==> forall|
            i: int,
            p: T::Public,
            valid: bool,
        |
            0 <= i < all.len() && cloned(all[i].0.public, p) && #[trigger] call_ensures(
                C::verify,
                (message, p, all[i].1),
                valid,
            ) ==> valid,
        signs_any::<T, C, T::Signature>(given, message_signature::<T, C>(message), any) ==> (
        any matches Some(x) ==> forall|p: T::Public, valid: bool|
            cloned(x.0.public, p) && #[trigger] call_ensures(C::verify, (message, p, x.1), valid)
                ==> valid),
{
    let outcome = message_signature::<T, C>(message);
    lemma_signer_results_are_outcomes::<T, C, T::Signature>(given, outcome, all, any);
    if signs_all::<T, C, T::Signature>(given, outcome, all) {
        assert forall|i: int, p: T::Public, valid: bool|
            0 <= i < all.len() && cloned(all[i].0.public, p) && #[trigger] call_ensures(
                C::verify,
                (message, p, all[i].1),
                valid,
            ) implies valid by {
            assert(outcome(all[i].0, Some(all[i].1)));
            let public = choose|public: T::Public|
                cloned(all[i].0.public, public) && #[trigger] call_ensures(
                    C::sign,
                    (message, public),
                    Some(all[i].1),
                );
            assert(public == p);
        }
    }
    if signs_any::<T, C, T::Signature>(given, outcome, any) && any is Some {
        let x = any->0;
        assert(outcome(x.0, Some(x.1)));
        let public = choose|public: T::Public|
            cloned(x.0.public, public) && #[trigger] call_ensures(C::sign, (message, public), Some(x.1));
        assert forall|p: T::Public, valid: bool|
            cloned(x.0.public, p) && #[trigger] call_ensures(C::verify, (message, p, x.1), valid)
                implies valid by {
            assert(public == p);
        }
    }
}

/// What signing `payload` can give under the default `SignedPayload::sign`: the statement of
/// its contract, written out again here because a trait's own contracts cannot name a function
/// whose signature names the trait.
pub open spec fn payload_signed<
    T: SigningTypes,
    C: AppCrypto<T::Public, T::Signature>,
    TPayload: SignedPayload<T>,
>(payload: TPayload, r: Option<T::Signature>) -> bool {
    exists|bytes: Vec<u8>, public: T::Public|
        #![trigger call_ensures(TPayload::encode, (&payload,), bytes), call_ensures(TPayload::public, (&payload,), public)]
        call_ensures(TPayload::encode, (&payload,), bytes) && call_ensures(
            TPayload::public,
            (&payload,),
            public,
        ) && exists|s: &[u8]| s@ == bytes@ && #[trigger] call_ensures(C::sign, (s, public), r)
}

/// What verifying `signature` for `payload` can give under the default
/// `SignedPayload::verify`: the statement of its contract, written out again here.
pub open spec fn payload_verified<
    T: SigningTypes,
    C: AppCrypto<T::Public, T::Signature>,
    TPayload: SignedPayload<T>,
>(payload: TPayload, signature: T::Signature, r: bool) -> bool {
    exists|bytes: Vec<u8>, public: T::Public|
        #![trigger call_ensures(TPayload::encode, (&payload,), bytes), call_ensures(TPayload::public, (&payload,), public)]
        call_ensures(TPayload::encode, (&payload,), bytes) && call_ensures(
            TPayload::public,
            (&payload,),
            public,
        ) && exists|s: &[u8]|
            s@ == bytes@ && #[trigger] call_ensures(C::verify, (s, public, signature), r)
}

/// Under the default `sign` and `verify` of a payload, a signature that signing it gave is
/// accepted by verifying it, when the payload gives the same encoding and the same key each
/// time it is asked, and `C` signs verifiably.
pub proof fn lemma_payload_signature_verifies<
    T: SigningTypes,
    C: AppCrypto<T::Public, T::Signature>,
    TPayload: SignedPayload<T>,
>(payload: TPayload, signature: T::Signature, valid: bool)
    requires
        payload_signed::<T, C, TPayload>(payload, Some(signature)),
        payload_verified::<T, C, TPayload>(payload, signature, valid),
        forall|b1: Vec<u8>, b2: Vec<u8>|
            #![trigger call_ensures(TPayload::encode, (&payload,), b1), call_ensures(TPayload::encode, (&payload,), b2)]
            call_ensures(TPayload::encode, (&payload,), b1) && call_ensures(
                TPayload::encode,
                (&payload,),
                b2,
            ) ==> b1@ == b2@,
        forall|p1: T::Public, p2: T::Public|
            #![trigger call_ensures(TPayload::public, (&payload,), p1), call_ensures(TPayload::public, (&payload,), p2)]
            call_ensures(TPayload::public, (&payload,), p1) && call_ensures(
                TPayload::public,
                (&payload,),
                p2,
            ) ==> p1 == p2,
        signs_verifiably::<T::Public, T::Signature, C>(),
    ensures
        valid,
{
    let (b1, p1) = choose|bytes: Vec<u8>, public: T::Public|
        #![trigger call_ensures(TPayload::encode, (&payload,), bytes), call_ensures(TPayload::public, (&payload,), public)]
        call_ensures(TPayload::encode, (&payload,), bytes) && call_ensures(
            TPayload::public,
            (&payload,),
            public,
        ) && exists|s: &[u8]|
            s@ == bytes@ && #[trigger] call_ensures(C::sign, (s, public), Some(signature));
    let s1 = choose|s: &[u8]| s@ == b1@ && #[trigger] call_ensures(C::sign, (s, p1), Some(signature));
    let (b2, p2) = choose|bytes: Vec<u8>, public: T::Public|
        #![trigger call_ensures(TPayload::encode, (&payload,), bytes), call_ensures(TPayload::public, (&payload,), public)]
        call_ensures(TPayload::encode, (&payload,), bytes) && call_ensures(
            TPayload::public,
            (&payload,),
            public,
        ) && exists|s: &[u8]|
            s@ == bytes@ && #[trigger] call_ensures(C::verify, (s, public, signature), valid);
    let s2 = choose|s: &[u8]| s@ == b2@ && #[trigger] call_ensures(C::verify, (s, p2, signature), valid);
    assert(b1@ == b2@);
    assert(p1 == p2);
}

/// Signs messages and payloads.
pub trait SignMessage<T: SigningTypes> {
    /// The signatures made, with the accounts that made them.
    type SignatureData;

    /// Signs `message`.
    fn sign_message(&self, message: &[u8]) -> Self::SignatureData;

    /// Signs the payload that `f` builds for an account.
    fn sign<TPayload, F>(&self, f: F) -> Self::SignatureData
        where
            F: Fn(&Account<T>) -> TPayload,
            TPayload: SignedPayload<T>,
        requires
            forall|a: &Account<T>| call_requires(f, (a,)),
    ;
}

impl<T: SigningTypes, C: AppCrypto<T::Public, T::Signature>> SignMessage<T> for Signer<T, C, ForAll> {
    type SignatureData = Vec<(Account<T>, T::Signature)>;

    /// Signs `message` with every account of the signer; keeps each account that signed,
    /// with its signature, in order.
    fn sign_message(&self, message: &[u8]) -> (r: Vec<(Account<T>, T::Signature)>)
        ensures
            signs_all::<T, C, T::Signature>(self@, message_signature::<T, C>(message), r@),
    {
        let g = |account: &Account<T>| -> (o: Option<T::Signature>)
            ensures
                message_signature::<T, C>(message)(*account, o),
            { C::sign(message, account.public.clone()) };
        let r = self.for_all(g);
        proof {
            let q = message_signature::<T, C>(message);
            lemma_signs_weaken::<T, C, (), T::Signature>(self@, pure_step(outcome_of(g)), pure_step(q), (), (), r@, None);
        }
        r
    }

    /// Signs the payload that `f` builds for each account of the signer; keeps each account
    /// whose payload was signed, with its signature, in order.
    fn sign<TPayload, F>(&self, f: F) -> (r: Vec<(Account<T>, T::Signature)>)
        where
            F: Fn(&Account<T>) -> TPayload,
            TPayload: SignedPayload<T>,
        ensures
            signs_all::<T, C, T::Signature>(self@, payload_signature::<T, C, TPayload, F>(f), r@),
    {
        let fr = &f;
        let g = |account: &Account<T>| -> (o: Option<T::Signature>)
            requires
                call_requires(fr, (account,)),
            ensures
                payload_signature::<T, C, TPayload, &F>(fr)(*account, o),
            { fr(account).sign::<C>() };
        let r = self.for_all(g);
        proof {
            let q = payload_signature::<T, C, TPayload, F>(f);
            assert(payload_signature::<T, C, TPayload, &F>(fr) == q);
            lemma_signs_weaken::<T, C, (), T::Signature>(self@, pure_step(outcome_of(g)), pure_step(q), (), (), r@, None);
        }
        r
    }
}

impl<T: SigningTypes, C: AppCrypto<T::Public, T::Signature>> SignMessage<T> for Signer<T, C, ForAny> {
    type SignatureData = Option<(Account<T>, T::Signature)>;

    /// Signs `message` with the first account of the signer that can sign it.
    fn sign_message(&self, message: &[u8]) -> (r: Option<(Account<T>, T::Signature)>)
        ensures
            signs_any::<T, C, T::Signature>(self@, message_signature::<T, C>(message), r),
    {
        let g = |account: &Account<T>| -> (o: Option<T::Signature>)
            ensures
                message_signature::<T, C>(message)(*account, o),
            { C::sign(message, account.public.clone()) };
        let r = self.for_any(g);
        proof {
            let q = message_signature::<T, C>(message);
            lemma_signs_weaken::<T, C, (), T::Signature>(self@, pure_step(outcome_of(g)), pure_step(q), (), (), seq![], r);
        }
        r
    }

    /// Signs the payload that `f` builds for an account, with the first account of the signer
    /// whose payload gets signed.
    fn sign<TPayload, F>(&self, f: F) -> (r: Option<(Account<T>, T::Signature)>)
        where
            F: Fn(&Account<T>) -> TPayload,
            TPayload: SignedPayload<T>,
        ensures
            signs_any::<T, C, T::Signature>(self@, payload_signature::<T, C, TPayload, F>(f), r),
    {
        let fr = &f;
        let g = |account: &Account<T>| -> (o: Option<T::Signature>)
            requires
                call_requires(fr, (account,)),
            ensures
                payload_signature::<T, C, TPayload, &F>(fr)(*account, o),
            { fr(account).sign::<C>() };
        let r = self.for_any(g);
        proof {
            let q = payload_signature::<T, C, TPayload, F>(f);
            assert(payload_signature::<T, C, TPayload, &F>(fr) == q);
            lemma_signs_weaken::<T, C, (), T::Signature>(self@, pure_step(outcome_of(g)), pure_step(q), (), (), seq![], r);
        }
        r
    }
}

/// What submitting the pallet call `call` without a signature does to a run's record and
/// answers: `call` is converted to the runtime's call, which is submitted without a signature;
/// `r` is always `Some` of the submission's answer.
pub open spec fn unsigned_submission<
    T: SendTransactionTypes<LocalCall>,
    LocalCall,
    P: Fn(Vec<u8>) -> Result<(), ()>,
    A,
    I,
>(
    call: LocalCall,
    pool: P,
    before: OffchainRecord<A, I>,
    after: OffchainRecord<A, I>,
    r: Option<Result<(), ()>>,
) -> bool {
    exists|runtime_call: T::OverarchingCall|
        #[trigger] call_ensures(<T::OverarchingCall as From<LocalCall>>::from, (call,), runtime_call)
            && r is Some && submission::<A, I, T::Extrinsic, P>(
            runtime_call,
            None,
            pool,
            before,
            after,
            r->0,
        )
}

/// What sending, for the account `a`, an unsigned transaction whose call `f2` makes from the
/// payload `f` builds and its signature can do to the run and give: when the payload is not
/// signed, nothing is handed to the pool and the outcome is `None`; otherwise the call is
/// submitted without a signature and the outcome is `Some` of the submission's answer.
pub open spec fn unsigned_sends<
    T: SigningTypes + SendTransactionTypes<LocalCall>,
    C: AppCrypto<T::Public, T::Signature>,
    LocalCall,
    TPayload: SignedPayload<T>,
    F: Fn(&Account<T>) -> TPayload,
    F2: Fn(TPayload, T::Signature) -> LocalCall,
    P: Fn(Vec<u8>) -> Result<(), ()>,
    N: Fn(&T::AccountId) -> T::Index,
>(f: F, f2: F2) -> spec_fn(
    Account<T>,
    Offchain<T::AccountId, T::Index, P, N>,
    Offchain<T::AccountId, T::Index, P, N>,
    Option<Result<(), ()>>,
) -> bool {
    |
        a: Account<T>,
        before: Offchain<T::AccountId, T::Index, P, N>,
        after: Offchain<T::AccountId, T::Index, P, N>,
        o: Option<Result<(), ()>>,
    |
        same_ports(before, after) && exists|payload: TPayload, signature: Option<T::Signature>|
            #![trigger call_ensures(f, (&a,), payload), call_ensures(TPayload::sign::<C>, (&payload,), signature)]
            call_ensures(f, (&a,), payload) && call_ensures(
                TPayload::sign::<C>,
                (&payload,),
                signature,
            ) && match signature {
                None => o is None && after.record() == before.record(),
                Some(s) => exists|call: LocalCall|
                    #[trigger] call_ensures(f2, (payload, s), call) && unsigned_submission::<
                        T,
                        LocalCall,
                        P,
                        T::AccountId,
                        T::Index,
                    >(call, before.pool(), before.record(), after.record(), o),
            }
}

/// The run, for one account, of sending an unsigned transaction with a signed payload.
pub struct UnsignedSend<'a, T, C, LocalCall, TPayload, F, F2> {
    /// Builds the payload for an account.
    pub f: &'a F,
    /// Makes the call from the payload and its signature.
    pub f2: &'a F2,
    /// The types the run works with.
    pub types: core::marker::PhantomData<(T, C, LocalCall, TPayload)>,
}

impl<
    'a,
    T: SigningTypes + SendTransactionTypes<LocalCall>,
    C: AppCrypto<T::Public, T::Signature>,
    LocalCall,
    TPayload: SignedPayload<T>,
    F: Fn(&Account<T>) -> TPayload,
    F2: Fn(TPayload, T::Signature) -> LocalCall,
    P: Fn(Vec<u8>) -> Result<(), ()>,
    N: Fn(&T::AccountId) -> T::Index,
> AccountStep<T, Offchain<T::AccountId, T::Index, P, N>, Result<(), ()>> for UnsignedSend<
    'a,
    T,
    C,
    LocalCall,
    TPayload,
    F,
    F2,
> {
    open spec fn ready(&self) -> bool {
        &&& forall|a: &Account<T>| call_requires(*self.f, (a,))
        &&& forall|p: TPayload, s: T::Signature| call_requires(*self.f2, (p, s))
    }

    open spec fn steps(&self) -> spec_fn(
        Account<T>,
        Offchain<T::AccountId, T::Index, P, N>,
        Offchain<T::AccountId, T::Index, P, N>,
        Option<Result<(), ()>>,
    ) -> bool {
        unsigned_sends::<T, C, LocalCall, TPayload, F, F2, P, N>(*self.f, *self.f2)
    }

    fn run(&self, account: &Account<T>, state: &mut Offchain<T::AccountId, T::Index, P, N>) -> (o: Option<
        Result<(), ()>,
    >) {
        let payload = (self.f)(account);
        match payload.sign::<C>() {
            Some(signature) => {
                let call = (self.f2)(payload, signature);
                let runtime_call: T::OverarchingCall = call.into();
                Some(SubmitTransaction::<T, LocalCall>::submit_unsigned_transaction(runtime_call, state))
            },
            None => None,
        }
    }
}

/// Submits unsigned transactions that carry a signed payload.
pub trait SendUnsignedTransaction<T: SigningTypes + SendTransactionTypes<LocalCall>, LocalCall> {
    /// The submission answers, with the accounts that signed the payloads.
    type Result;

    /// For the accounts of the signer, builds a payload with `f`, signs it, makes a call from
    /// the payload and its signature with `f2`, and submits that call unsigned to the run's
    /// pool.
    fn send_unsigned_transaction<TPayload, F, F2, P, N>(
        &self,
        f: F,
        f2: F2,
        offchain: &mut Offchain<T::AccountId, T::Index, P, N>,
    ) -> Self::Result
        where
            F: Fn(&Account<T>) -> TPayload,
            F2: Fn(TPayload, T::Signature) -> LocalCall,
            TPayload: SignedPayload<T>,
            P: Fn(Vec<u8>) -> Result<(), ()>,
            N: Fn(&T::AccountId) -> T::Index,
        requires
            forall|a: &Account<T>| call_requires(f, (a,)),
            forall|p: TPayload, s: T::Signature| call_requires(f2, (p, s)),
    ;

    /// Submits `call` to the run's pool without a signature; always `Some` of the submission's
    /// answer.
    fn submit_unsigned_transaction<P, N>(
        &self,
        call: LocalCall,
        offchain: &mut Offchain<T::AccountId, T::Index, P, N>,
    ) -> (r: Option<Result<(), ()>>)
        where
            P: Fn(Vec<u8>) -> Result<(), ()>,
            N: Fn(&T::AccountId) -> T::Index,
        default_ensures
            same_ports(*old(offchain), *final(offchain)),
            unsigned_submission::<T, LocalCall, P, T::AccountId, T::Index>(
                call,
                old(offchain).pool(),
                old(offchain).record(),
                final(offchain).record(),
                r,
            ),
    {
        let runtime_call: T::OverarchingCall = call.into();
        Some(SubmitTransaction::<T, LocalCall>::submit_unsigned_transaction(runtime_call, offchain))
    }
}

impl<
    T: SigningTypes + SendTransactionTypes<LocalCall>,
    C: AppCrypto<T::Public, T::Signature>,
    LocalCall,
> SendUnsignedTransaction<T, LocalCall> for Signer<T, C, ForAll> {
    type Result = Vec<(Account<T>, Result<(), ()>)>;

    /// Does so for every account of the signer; keeps each account whose payload was signed,
    /// with the submission's answer, in order.
    fn send_unsigned_transaction<TPayload, F, F2, P, N>(
        &self,
        f: F,
        f2: F2,
        offchain: &mut Offchain<T::AccountId, T::Index, P, N>,
    ) -> (r: Vec<(Account<T>, Result<(), ()>)>)
        where
            F: Fn(&Account<T>) -> TPayload,
            F2: Fn(TPayload, T::Signature) -> LocalCall,
            TPayload: SignedPayload<T>,
            P: Fn(Vec<u8>) -> Result<(), ()>,
            N: Fn(&T::AccountId) -> T::Index,
        ensures
            signs_all_with::<T, C, Offchain<T::AccountId, T::Index, P, N>, Result<(), ()>>(
                self@,
                unsigned_sends::<T, C, LocalCall, TPayload, F, F2, P, N>(f, f2),
                *old(offchain),
                *final(offchain),
                r@,
            ),
    {
        let step = UnsignedSend::<T, C, LocalCall, TPayload, F, F2> {
            f: &f,
            f2: &f2,
            types: core::marker::PhantomData,
        };
        self.for_all_with(&step, offchain)
    }
}

impl<
    T: SigningTypes + SendTransactionTypes<LocalCall>,
    C: AppCrypto<T::Public, T::Signature>,
    LocalCall,
> SendUnsignedTransaction<T, LocalCall> for Signer<T, C, ForAny> {
    type Result = Option<(Account<T>, Result<(), ()>)>;

    /// Does so with the first account of the signer whose payload gets signed.
    fn send_unsigned_transaction<TPayload, F, F2, P, N>(
        &self,
        f: F,
        f2: F2,
        offchain: &mut Offchain<T::AccountId, T::Index, P, N>,
    ) -> (r: Option<(Account<T>, Result<(), ()>)>)
        where
            F: Fn(&Account<T>) -> TPayload,
            F2: Fn(TPayload, T::Signature) -> LocalCall,
            TPayload: SignedPayload<T>,
            P: Fn(Vec<u8>) -> Result<(), ()>,
            N: Fn(&T::AccountId) -> T::Index,
        ensures
            signs_any_with::<T, C, Offchain<T::AccountId, T::Index, P, N>, Result<(), ()>>(
                self@,
                unsigned_sends::<T, C, LocalCall, TPayload, F, F2, P, N>(f, f2),
                *old(offchain),
                *final(offchain),
                r,
            ),
    {
        let step = UnsignedSend::<T, C, LocalCall, TPayload, F, F2> {
            f: &f,
            f2: &f2,
            types: core::marker::PhantomData,
        };
        self.for_any_with(&step, offchain)
    }
}

/// What sending the pallet call `call` signed by the account `a` does to a run and gives: the
/// account's nonce is read (the last nonce this run stored for it, or else the chain's); the
/// call is converted to the runtime's call; the runtime is asked to sign it with clones of the
/// account's key and identifier and that nonce. When the runtime makes no signed transaction,
/// `r` is `None` and the run is untouched. Otherwise the signed call is submitted, `r` is
/// `Some` of the answer, and, when the pool took it, the next nonce is stored for a clone of
/// the account's identifier; no other nonce is stored.
pub open spec fn signed_submission<
    T: SigningTypes + CreateSignedTransaction<LocalCall>,
    C: AppCrypto<T::Public, T::Signature>,
    LocalCall,
    P: Fn(Vec<u8>) -> Result<(), ()>,
    N: Fn(&T::AccountId) -> T::Index,
>(
    a: Account<T>,
    call: LocalCall,
    before: Offchain<T::AccountId, T::Index, P, N>,
    after: Offchain<T::AccountId, T::Index, P, N>,
    r: Option<Result<(), ()>>,
) -> bool {
    exists|nonce: T::Index|
        #[trigger] signed_with_nonce::<T, C, LocalCall, P, N>(a, call, before, after, r, nonce)
}

/// A signed send, as `signed_submission` describes it, in which the nonce read for the account,
/// and handed to the runtime to sign with, is `nonce`.
pub open spec fn signed_with_nonce<
    T: SigningTypes + CreateSignedTransaction<LocalCall>,
    C: AppCrypto<T::Public, T::Signature>,
    LocalCall,
    P: Fn(Vec<u8>) -> Result<(), ()>,
    N: Fn(&T::AccountId) -> T::Index,
>(
    a: Account<T>,
    call: LocalCall,
    before: Offchain<T::AccountId, T::Index, P, N>,
    after: Offchain<T::AccountId, T::Index, P, N>,
    r: Option<Result<(), ()>>,
    nonce: T::Index,
) -> bool {
    &&& same_ports(before, after)
    &&& nonce_read(before.record().1, before.chain_nonce(), a.id, nonce)
    &&& exists|runtime_call: T::OverarchingCall|
        #[trigger] call_ensures(<T::OverarchingCall as From<LocalCall>>::from, (call,), runtime_call)
            && exists|
            public: T::Public,
            id: T::AccountId,
            created: Option<(T::OverarchingCall, SignaturePayloadOf<T, LocalCall>)>,
        |
            #[trigger] call_ensures(
                T::create_transaction::<C>,
                (runtime_call, public, id, nonce),
                created,
            ) && cloned(a.public, public) && cloned(a.id, id) && match created {
                None => r is None && after.record() == before.record(),
                Some((signed_call, signature)) => r is Some && exists|
                    submitted: OffchainRecord<T::AccountId, T::Index>,
                |
                    #[trigger] submission::<T::AccountId, T::Index, T::Extrinsic, P>(
                        signed_call,
                        Some(signature),
                        before.pool(),
                        before.record(),
                        submitted,
                        r->0,
                    ) && match nonce_after(nonce, r->0) {
                        None => after.record() == submitted,
                        Some(next) => exists|stored_id: T::AccountId|
                            cloned(a.id, stored_id) && #[trigger] submitted.1.push((stored_id, next))
                                == after.record().1 && after.record().0 == submitted.0,
                    },
            }
}

/// Sends `call` signed by `account`: reads the account's nonce, has the runtime sign the call
/// with it, and submits the signed call to the run's pool; when the pool takes it, stores the
/// account's next nonce.
///
/// `None`, with nothing done, when the runtime makes no signed transaction; otherwise `Some` of
/// the submission's answer.
pub fn send_single_signed<
    T: SigningTypes + CreateSignedTransaction<LocalCall>,
    C: AppCrypto<T::Public, T::Signature>,
    LocalCall,
    P: Fn(Vec<u8>) -> Result<(), ()>,
    N: Fn(&T::AccountId) -> T::Index,
>(account: &Account<T>, call: LocalCall, offchain: &mut Offchain<T::AccountId, T::Index, P, N>) -> (r: Option<
    Result<(), ()>,
>)
    ensures
        signed_submission::<T, C, LocalCall, P, N>(*account, call, *old(offchain), *final(offchain), r),
{
    let ghost call_v = call;
    let nonce: T::Index = offchain.nonce(&account.id);
    let runtime_call: T::OverarchingCall = call.into();
    let created = T::create_transaction::<C>(
        runtime_call,
        account.public.clone(),
        account.id.clone(),
        nonce,
    );
    let r = match created {
        None => None,
        Some((signed_call, signature)) => {
            let res = SubmitTransaction::<T, LocalCall>::submit_transaction(
                signed_call,
                Some(signature),
                offchain,
            );
            let ghost submitted = offchain.record();
            match nonce_after_submission(nonce, &res) {
                Some(next) => {
                    let stored_id = account.id.clone();
                    offchain.store_nonce(stored_id, next);
                    assert(submitted.1.push((stored_id, next)) == offchain.record().1);
                },
                None => {},
            }
            Some(res)
        },
    };
    assert(signed_with_nonce::<T, C, LocalCall, P, N>(
        *account,
        call_v,
        *old(offchain),
        *offchain,
        r,
        nonce,
    ));
    r
}

/// What sending, for the account `a`, the call that `f` makes for it, signed, can do to a run
/// and give.
pub open spec fn signed_sends<
    T: SigningTypes + CreateSignedTransaction<LocalCall>,
    C: AppCrypto<T::Public, T::Signature>,
    LocalCall,
    F: Fn(&Account<T>) -> LocalCall,
    P: Fn(Vec<u8>) -> Result<(), ()>,
    N: Fn(&T::AccountId) -> T::Index,
>(f: F) -> spec_fn(
    Account<T>,
    Offchain<T::AccountId, T::Index, P, N>,
    Offchain<T::AccountId, T::Index, P, N>,
    Option<Result<(), ()>>,
) -> bool {
    |
        a: Account<T>,
        before: Offchain<T::AccountId, T::Index, P, N>,
        after: Offchain<T::AccountId, T::Index, P, N>,
        o: Option<Result<(), ()>>,
    |
        exists|call: LocalCall|
            #[trigger] call_ensures(f, (&a,), call) && signed_submission::<T, C, LocalCall, P, N>(
                a,
                call,
                before,
                after,
                o,
            )
}

/// After a signed send made with `nonce` that the pool took, reading the nonce of an account
/// that `eq` says is the sender gives the nonce that follows `nonce`, so accepted sends never
/// reuse a nonce; reading an account that `eq` says is not the sender gives what it gave
/// before the send.
pub proof fn lemma_accepted_send_advances_nonce<
    T: SigningTypes + CreateSignedTransaction<LocalCall>,
    C: AppCrypto<T::Public, T::Signature>,
    LocalCall,
    P: Fn(Vec<u8>) -> Result<(), ()>,
    N: Fn(&T::AccountId) -> T::Index,
>(
    a: Account<T>,
    call: LocalCall,
    before: Offchain<T::AccountId, T::Index, P, N>,
    after: Offchain<T::AccountId, T::Index, P, N>,
    nonce: T::Index,
    reader: T::AccountId,
)
    requires
        signed_with_nonce::<T, C, LocalCall, P, N>(a, call, before, after, Some(Ok(())), nonce),
    ensures
        (forall|c: T::AccountId, b: bool|
            cloned(a.id, c) && #[trigger] call_ensures(
                <T::AccountId as PartialEq>::eq,
                (&reader, &c),
                b,
            ) ==> b) ==> forall|next: T::Index|
            #[trigger] nonce_read(after.record().1, after.chain_nonce(), reader, next) ==> next
                == nonce.following(),
        (forall|c: T::AccountId, b: bool|
            cloned(a.id, c) && #[trigger] call_ensures(
                <T::AccountId as PartialEq>::eq,
                (&reader, &c),
                b,
            ) ==> !b) ==> forall|r: T::Index|
            #[trigger] nonce_read(after.record().1, after.chain_nonce(), reader, r) ==> nonce_read(
                before.record().1,
                before.chain_nonce(),
                reader,
                r,
            ),
{
    let runtime_call = choose|runtime_call: T::OverarchingCall|
        #[trigger] call_ensures(<T::OverarchingCall as From<LocalCall>>::from, (call,), runtime_call)
            && exists|
            public: T::Public,
            id: T::AccountId,
            created: Option<(T::OverarchingCall, SignaturePayloadOf<T, LocalCall>)>,
        |
            #[trigger] call_ensures(
                T::create_transaction::<C>,
                (runtime_call, public, id, nonce),
                created,
            ) && cloned(a.public, public) && cloned(a.id, id) && match created {
                None => Some(Ok::<(), ()>(())) is None && after.record() == before.record(),
                Some((signed_call, signature)) => exists|
                    submitted: OffchainRecord<T::AccountId, T::Index>,
                |
                    #[trigger] submission::<T::AccountId, T::Index, T::Extrinsic, P>(
                        signed_call,
                        Some(signature),
                        before.pool(),
                        before.record(),
                        submitted,
                        Ok(()),
                    ) && match nonce_after(nonce, Ok(())) {
                        None => after.record() == submitted,
                        Some(next) => exists|stored_id: T::AccountId|
                            cloned(a.id, stored_id) && #[trigger] submitted.1.push((stored_id, next))
                                == after.record().1 && after.record().0 == submitted.0,
                    },
            };
    let (public, id, created) = choose|
        public: T::Public,
        id: T::AccountId,
        created: Option<(T::OverarchingCall, SignaturePayloadOf<T, LocalCall>)>,
    |
        #[trigger] call_ensures(T::create_transaction::<C>, (runtime_call, public, id, nonce), created)
            && cloned(a.public, public) && cloned(a.id, id) && match created {
            None => Some(Ok::<(), ()>(())) is None && after.record() == before.record(),
            Some((signed_call, signature)) => exists|
                submitted: OffchainRecord<T::AccountId, T::Index>,
            |
                #[trigger] submission::<T::AccountId, T::Index, T::Extrinsic, P>(
                    signed_call,
                    Some(signature),
                    before.pool(),
                    before.record(),
                    submitted,
                    Ok(()),
                ) && match nonce_after(nonce, Ok(())) {
                    None => after.record() == submitted,
                    Some(next) => exists|stored_id: T::AccountId|
                        cloned(a.id, stored_id) && #[trigger] submitted.1.push((stored_id, next))
                            == after.record().1 && after.record().0 == submitted.0,
                },
        };
    let (signed_call, signature) = created->0;
    let submitted = choose|submitted: OffchainRecord<T::AccountId, T::Index>|
        #[trigger] submission::<T::AccountId, T::Index, T::Extrinsic, P>(
            signed_call,
            Some(signature),
            before.pool(),
            before.record(),
            submitted,
            Ok(()),
        ) && match nonce_after(nonce, Ok(())) {
            None => after.record() == submitted,
            Some(next) => exists|stored_id: T::AccountId|
                cloned(a.id, stored_id) && #[trigger] submitted.1.push((stored_id, next))
                    == after.record().1 && after.record().0 == submitted.0,
        };
    let next = nonce.following();
    let stored_id = choose|stored_id: T::AccountId|
        cloned(a.id, stored_id) && #[trigger] submitted.1.push((stored_id, next)) == after.record().1
            && after.record().0 == submitted.0;
    assert(submitted.1 == before.record().1);
    if forall|c: T::AccountId, b: bool|
        cloned(a.id, c) && #[trigger] call_ensures(<T::AccountId as PartialEq>::eq, (&reader, &c), b)
            ==> b {
        assert forall|n: T::Index|
            #[trigger] nonce_read(after.record().1, after.chain_nonce(), reader, n) implies n
            == next by {
            lemma_stored_nonce_is_read(submitted.1, before.chain_nonce(), reader, stored_id, next, n);
        }
    }
    if forall|c: T::AccountId, b: bool|
        cloned(a.id, c) && #[trigger] call_ensures(<T::AccountId as PartialEq>::eq, (&reader, &c), b)
            ==> !b {
        assert forall|n: T::Index|
            #[trigger] nonce_read(after.record().1, after.chain_nonce(), reader, n) implies nonce_read(
            before.record().1,
            before.chain_nonce(),
            reader,
            n,
        ) by {
            lemma_other_nonce_unchanged(submitted.1, before.chain_nonce(), reader, stored_id, next, n);
        }
    }
}

/// Two signed sends in a row from accounts with the same identifier: when the pool took the
/// first, made with `nonce`, the runtime is asked to sign the second with the nonce that
/// follows `nonce`, provided `eq` says the identifier equals its clones.
pub proof fn lemma_consecutive_sends_use_consecutive_nonces<
    T: SigningTypes + CreateSignedTransaction<LocalCall>,
    C: AppCrypto<T::Public, T::Signature>,
    LocalCall,
    P: Fn(Vec<u8>) -> Result<(), ()>,
    N: Fn(&T::AccountId) -> T::Index,
>(
    a: Account<T>,
    call: LocalCall,
    first: Offchain<T::AccountId, T::Index, P, N>,
    second: Offchain<T::AccountId, T::Index, P, N>,
    nonce: T::Index,
    a2: Account<T>,
    call2: LocalCall,
    third: Offchain<T::AccountId, T::Index, P, N>,
    r2: Option<Result<(), ()>>,
    nonce2: T::Index,
)
    requires
        signed_with_nonce::<T, C, LocalCall, P, N>(a, call, first, second, Some(Ok(())), nonce),
        signed_with_nonce::<T, C, LocalCall, P, N>(a2, call2, second, third, r2, nonce2),
        a2.id == a.id,
        forall|c: T::AccountId, b: bool|
            cloned(a.id, c) && #[trigger] call_ensures(
                <T::AccountId as PartialEq>::eq,
                (&a.id, &c),
                b,
            ) ==> b,
    ensures
        nonce2 == nonce.following(),
        nonce2 != nonce,
{
    nonce.lemma_following_differs();
    lemma_accepted_send_advances_nonce::<T, C, LocalCall, P, N>(a, call, first, second, nonce, a.id);
    assert(nonce_read(second.record().1, second.chain_nonce(), a2.id, nonce2));
}

/// The run, for one account, of sending the call a callback makes, signed by the account.
pub struct SignedSend<'a, T, C, LocalCall, F> {
    /// Makes the call for an account.
    pub f: &'a F,
    /// The types the run works with.
    pub types: core::marker::PhantomData<(T, C, LocalCall)>,
}

impl<
    'a,
    T: SigningTypes + CreateSignedTransaction<LocalCall>,
    C: AppCrypto<T::Public, T::Signature>,
    LocalCall,
    F: Fn(&Account<T>) -> LocalCall,
    P: Fn(Vec<u8>) -> Result<(), ()>,
    N: Fn(&T::AccountId) -> T::Index,
> AccountStep<T, Offchain<T::AccountId, T::Index, P, N>, Result<(), ()>> for SignedSend<'a, T, C, LocalCall, F> {
    open spec fn ready(&self) -> bool {
        forall|a: &Account<T>| call_requires(*self.f, (a,))
    }

    open spec fn steps(&self) -> spec_fn(
        Account<T>,
        Offchain<T::AccountId, T::Index, P, N>,
        Offchain<T::AccountId, T::Index, P, N>,
        Option<Result<(), ()>>,
    ) -> bool {
        signed_sends::<T, C, LocalCall, F, P, N>(*self.f)
    }

    fn run(&self, account: &Account<T>, state: &mut Offchain<T::AccountId, T::Index, P, N>) -> (o: Option<
        Result<(), ()>,
    >) {
        let call = (self.f)(account);
        send_single_signed::<T, C, LocalCall, P, N>(account, call, state)
    }
}

/// Submits signed transactions.
pub trait SendSignedTransaction<
    T: SigningTypes + CreateSignedTransaction<LocalCall>,
    C: AppCrypto<T::Public, T::Signature>,
    LocalCall,
> {
    /// The submission answers, with the accounts that signed.
    type Result;

    /// For the accounts of the signer, makes a call with `f` and sends it signed by the
    /// account (see `send_single_signed_transaction`).
    fn send_signed_transaction<F, P, N>(
        &self,
        f: F,
        offchain: &mut Offchain<T::AccountId, T::Index, P, N>,
    ) -> Self::Result
        where
            F: Fn(&Account<T>) -> LocalCall,
            P: Fn(Vec<u8>) -> Result<(), ()>,
            N: Fn(&T::AccountId) -> T::Index,
        requires
            forall|a: &Account<T>| call_requires(f, (a,)),
    ;

    /// Sends `call` signed by `account` (see `send_single_signed`).
    fn send_single_signed_transaction<P, N>(
        &self,
        account: &Account<T>,
        call: LocalCall,
        offchain: &mut Offchain<T::AccountId, T::Index, P, N>,
    ) -> (r: Option<Result<(), ()>>)
        where
            P: Fn(Vec<u8>) -> Result<(), ()>,
            N: Fn(&T::AccountId) -> T::Index,
        default_ensures
            signed_submission::<T, C, LocalCall, P, N>(
                *account,
                call,
                *old(offchain),
                *final(offchain),
                r,
            ),
    {
        send_single_signed::<T, C, LocalCall, P, N>(account, call, offchain)
    }
}

impl<
    T: SigningTypes + CreateSignedTransaction<LocalCall>,
    C: AppCrypto<T::Public, T::Signature>,
    LocalCall,
> SendSignedTransaction<T, C, LocalCall> for Signer<T, C, ForAll> {
    type Result = Vec<(Account<T>, Result<(), ()>)>;

    /// Does so for every account of the signer; keeps each account for which the runtime
    /// made a signed transaction, with the pool's answer, in order.
    fn send_signed_transaction<F, P, N>(&self, f: F, offchain: &mut Offchain<T::AccountId, T::Index, P, N>) -> (r:
        Vec<(Account<T>, Result<(), ()>)>)
        where
            F: Fn(&Account<T>) -> LocalCall,
            P: Fn(Vec<u8>) -> Result<(), ()>,
            N: Fn(&T::AccountId) -> T::Index,
        ensures
            signs_all_with::<T, C, Offchain<T::AccountId, T::Index, P, N>, Result<(), ()>>(
                self@,
                signed_sends::<T, C, LocalCall, F, P, N>(f),
                *old(offchain),
                *final(offchain),
                r@,
            ),
    {
        let step = SignedSend::<T, C, LocalCall, F> { f: &f, types: core::marker::PhantomData };
        self.for_all_with(&step, offchain)
    }
}

impl<
    T: SigningTypes + CreateSignedTransaction<LocalCall>,
    C: AppCrypto<T::Public, T::Signature>,
    LocalCall,
> SendSignedTransaction<T, C, LocalCall> for Signer<T, C, ForAny> {
    type Result = Option<(Account<T>, Result<(), ()>)>;

    /// Does so with the first account of the signer for which the runtime makes a signed
    /// transaction.
    fn send_signed_transaction<F, P, N>(&self, f: F, offchain: &mut Offchain<T::AccountId, T::Index, P, N>) -> (r:
        Option<(Account<T>, Result<(), ()>)>)
        where
            F: Fn(&Account<T>) -> LocalCall,
            P: Fn(Vec<u8>) -> Result<(), ()>,
            N: Fn(&T::AccountId) -> T::Index,
        ensures
            signs_any_with::<T, C, Offchain<T::AccountId, T::Index, P, N>, Result<(), ()>>(
                self@,
                signed_sends::<T, C, LocalCall, F, P, N>(f),
                *old(offchain),
                *final(offchain),
                r,
            ),
    {
        let step = SignedSend::<T, C, LocalCall, F> { f: &f, types: core::marker::PhantomData };
        self.for_any_with(&step, offchain)
    }
}

} // verus!
