//! Accounts, key types and application-specific signing.
use vstd::prelude::*;

verus! {

/// Something that identifies the on-chain account it belongs to.
pub trait IdentifyAccount {
    /// The account identifier this can be turned into.
    type AccountId;

    /// The account identified by `self`.
    fn into_account(self) -> Self::AccountId;
}

/// The types that signing works with: the runtime's account identifier, public key and signature.
///
/// A public key must identify the account it signs for.
pub trait SigningTypes {
    /// The runtime's account identifier.
    type AccountId: Clone + PartialEq;

    /// A public key that identifies an `AccountId`.
    type Public: Clone + PartialEq + IdentifyAccount<AccountId = Self::AccountId>;

    /// The signature that matches `Public`.
    type Signature: Clone;

    /// The runtime's account nonce, counting the transactions an account has sent.
    type Index: AccountIndex;
}

/// An account nonce: an unsigned integer that wraps around to zero past its maximum.
pub trait AccountIndex: Copy {
    /// The nonce that follows `self`.
    spec fn following(self) -> Self;

    /// The nonce that follows `self`.
    fn next(self) -> (r: Self)
        ensures
            r == self.following(),
    ;

    /// The nonce that follows `self` is not `self`: a send never reuses the nonce before it.
    proof fn lemma_following_differs(self)
        ensures
            self.following() != self,
    ;
}

impl AccountIndex for u16 {
    open spec fn following(self) -> u16 {
        if self == u16::MAX { 0 } else { (self + 1) as u16 }
    }

    fn next(self) -> (r: u16)
        ensures
            r as int == (self as int + 1) % 0x1_0000int,
    {
        if self == u16::MAX { 0 } else { self + 1 }
    }

    proof fn lemma_following_differs(self) {
    }
}

/// The nonce that follows a `u16` nonce is one more, wrapping around to zero past the
/// maximum: `n + 1` modulo 2 to the width of the type.
pub proof fn lemma_u16_following_is_successor(n: u16)
    ensures
        n.following() as int == (n as int + 1) % 0x1_0000int,
        n < u16::MAX ==> n.following() == n + 1,
        n.following() != n,
{
}

impl AccountIndex for u32 {
    open spec fn following(self) -> u32 {
        if self == u32::MAX { 0 } else { (self + 1) as u32 }
    }

    fn next(self) -> (r: u32)
        ensures
            r as int == (self as int + 1) % 0x1_0000_0000int,
    {
        if self == u32::MAX { 0 } else { self + 1 }
    }

    proof fn lemma_following_differs(self) {
    }
}

/// The nonce that follows a `u32` nonce is one more, wrapping around to zero past the
/// maximum: `n + 1` modulo 2 to the width of the type.
pub proof fn lemma_u32_following_is_successor(n: u32)
    ensures
        n.following() as int == (n as int + 1) % 0x1_0000_0000int,
        n < u32::MAX ==> n.following() == n + 1,
        n.following() != n,
{
}

impl AccountIndex for u64 {
    open spec fn following(self) -> u64 {
        if self == u64::MAX { 0 } else { (self + 1) as u64 }
    }

    fn next(self) -> (r: u64)
        ensures
            r as int == (self as int + 1) % 0x1_0000_0000_0000_0000int,
    {
        if self == u64::MAX { 0 } else { self + 1 }
    }

    proof fn lemma_following_differs(self) {
    }
}

/// The nonce that follows a `u64` nonce is one more, wrapping around to zero past the
/// maximum: `n + 1` modulo 2 to the width of the type.
pub proof fn lemma_u64_following_is_successor(n: u64)
    ensures
        n.following() as int == (n as int + 1) % 0x1_0000_0000_0000_0000int,
        n < u64::MAX ==> n.following() == n + 1,
        n.following() != n,
{
}

impl AccountIndex for u128 {
    open spec fn following(self) -> u128 {
        if self == u128::MAX { 0 } else { (self + 1) as u128 }
    }

    fn next(self) -> (r: u128)
        ensures
            r as int == (self as int + 1) % 0x1_0000_0000_0000_0000_0000_0000_0000_0000int,
    {
        if self == u128::MAX { 0 } else { self + 1 }
    }

    proof fn lemma_following_differs(self) {
    }
}

/// The nonce that follows a `u128` nonce is one more, wrapping around to zero past the
/// maximum: `n + 1` modulo 2 to the width of the type.
pub proof fn lemma_u128_following_is_successor(n: u128)
    ensures
        n.following() as int == (n as int + 1) % 0x1_0000_0000_0000_0000_0000_0000_0000_0000int,
        n < u128::MAX ==> n.following() == n + 1,
        n.following() != n,
{
}

/// Details of an account whose private key is in the keystore.
pub struct Account<T: SigningTypes> {
    /// Position in the list of keys the account was drawn from.
    pub index: usize,
    /// The runtime account that `public` identifies.
    pub id: T::AccountId,
    /// The public key of the account.
    pub public: T::Public,
}

impl<T: SigningTypes> Account<T> {
    /// An account made of its three parts.
    pub fn new(index: usize, id: T::AccountId, public: T::Public) -> (r: Self)
        ensures
            r.index == index,
            r.id == id,
            r.public == public,
    {
        Account { index, id, public }
    }
}

impl<T: SigningTypes> Clone for Account<T> where T::AccountId: Clone {
    fn clone(&self) -> (r: Self)
        ensures
            r.index == self.index,
            cloned(self.id, r.id),
            cloned(self.public, r.public),
    {
        Account { index: self.index, id: self.id.clone(), public: self.public.clone() }
    }
}

/// An application-specific public key whose private key the keystore may hold.
pub trait RuntimeAppPublic: Sized {
    /// The signature that the matching private key produces.
    type Signature;

    /// All keys of this application type in the keystore.
    fn all() -> Vec<Self>;

    /// Signs `msg` with the private key of `self`, if the keystore holds it.
    fn sign(&self, msg: &[u8]) -> Option<Self::Signature>;

    /// Whether `signature` is a valid signature of `msg` by `self`.
    fn verify(&self, msg: &[u8], signature: &Self::Signature) -> bool;
}

/// Application-specific crypto: converts between the application key type, the raw crypto
/// wrapped by it, and the runtime's `Public` and `Signature` types.
pub trait AppCrypto<Public, Signature> {
    /// The application-specific key type.
    type RuntimeAppPublic: RuntimeAppPublic;

    /// The raw public key wrapped by `RuntimeAppPublic`.
    type GenericPublic: From<Self::RuntimeAppPublic> + Into<Self::RuntimeAppPublic> + TryFrom<
        Public,
    > + Into<Public>;

    /// The raw signature matching `GenericPublic`.
    type GenericSignature: From<<Self::RuntimeAppPublic as RuntimeAppPublic>::Signature> + Into<
        <Self::RuntimeAppPublic as RuntimeAppPublic>::Signature,
    > + TryFrom<Signature> + Into<Signature>;

    /// Signs `payload` with the private key of `public`.
    ///
    /// `None` when `public` is not a key of this application type, or when the keystore cannot
    /// sign with it.
    fn sign(payload: &[u8], public: Public) -> (r: Option<Signature>)
        default_ensures
            exists|converted: Result<
                Self::GenericPublic,
                <Self::GenericPublic as TryFrom<Public>>::Error,
            >|
                #[trigger] call_ensures(
                    <Self::GenericPublic as TryFrom<Public>>::try_from,
                    (public,),
                    converted,
                ) && match converted {
                    Err(_) => r is None,
                    Ok(generic) => exists|
                        key: Self::RuntimeAppPublic,
                        signed: Option<<Self::RuntimeAppPublic as RuntimeAppPublic>::Signature>,
                    |
                        #![trigger call_ensures(<Self::GenericPublic as Into<Self::RuntimeAppPublic>>::into, (generic,), key), call_ensures(<Self::RuntimeAppPublic as RuntimeAppPublic>::sign, (&key, payload), signed)]
                        call_ensures(
                            <Self::GenericPublic as Into<Self::RuntimeAppPublic>>::into,
                            (generic,),
                            key,
                        ) && call_ensures(
                            <Self::RuntimeAppPublic as RuntimeAppPublic>::sign,
                            (&key, payload),
                            signed,
                        ) && match signed {
                            None => r is None,
                            Some(s) => exists|raw: Self::GenericSignature|
                                #[trigger] call_ensures(
                                    <Self::GenericSignature as From<
                                        <Self::RuntimeAppPublic as RuntimeAppPublic>::Signature,
                                    >>::from,
                                    (s,),
                                    raw,
                                ) && r is Some && call_ensures(
                                    <Self::GenericSignature as Into<Signature>>::into,
                                    (raw,),
                                    r->0,
                                ),
                        },
                },
    {
        let p: Self::GenericPublic = match public.try_into() {
            Ok(p) => p,
            Err(_) => {
                return None;
            },
        };
        let x = Into::<Self::RuntimeAppPublic>::into(p);
        match x.sign(payload) {
            Some(s) => {
                let sig: Self::GenericSignature = s.into();
                Some(sig.into())
            },
            None => None,
        }
    }

    /// Whether `signature` is a valid signature of `payload` by `public`.
    ///
    /// `false` when either the key or the signature is not of this application type.
    fn verify(payload: &[u8], public: Public, signature: Signature) -> (r: bool)
        default_ensures
            exists|converted: Result<
                Self::GenericPublic,
                <Self::GenericPublic as TryFrom<Public>>::Error,
            >|
                #[trigger] call_ensures(
                    <Self::GenericPublic as TryFrom<Public>>::try_from,
                    (public,),
                    converted,
                ) && match converted {
                    Err(_) => !r,
                    Ok(generic) => exists|
                        key: Self::RuntimeAppPublic,
                        converted_signature: Result<
                            Self::GenericSignature,
                            <Self::GenericSignature as TryFrom<Signature>>::Error,
                        >,
                    |
                        #![trigger call_ensures(<Self::GenericPublic as Into<Self::RuntimeAppPublic>>::into, (generic,), key), call_ensures(<Self::GenericSignature as TryFrom<Signature>>::try_from, (signature,), converted_signature)]
                        call_ensures(
                            <Self::GenericPublic as Into<Self::RuntimeAppPublic>>::into,
                            (generic,),
                            key,
                        ) && call_ensures(
                            <Self::GenericSignature as TryFrom<Signature>>::try_from,
                            (signature,),
                            converted_signature,
                        ) && match converted_signature {
                            Err(_) => !r,
                            Ok(raw) => exists|
                                app_signature: <Self::RuntimeAppPublic as RuntimeAppPublic>::Signature,
                            |
                                #[trigger] call_ensures(
                                    <Self::GenericSignature as Into<
                                        <Self::RuntimeAppPublic as RuntimeAppPublic>::Signature,
                                    >>::into,
                                    (raw,),
                                    app_signature,
                                ) && call_ensures(
                                    <Self::RuntimeAppPublic as RuntimeAppPublic>::verify,
                                    (&key, payload, &app_signature),
                                    r,
                                ),
                        },
                },
    {
        let p: Self::GenericPublic = match public.try_into() {
            Ok(a) => a,
            Err(_) => {
                return false;
            },
        };
        let x = Into::<Self::RuntimeAppPublic>::into(p);
        let signature: Self::GenericSignature = match signature.try_into() {
            Ok(a) => a,
            Err(_) => {
                return false;
            },
        };
        let signature = Into::<<Self::RuntimeAppPublic as RuntimeAppPublic>::Signature>::into(
            signature,
        );
        x.verify(payload, &signature)
    }
}

/// What signing `payload` with `public` can give under the default `AppCrypto::sign` of `C`:
/// the statement of its contract, written out again here because a trait's own contracts cannot
/// name a function whose signature names the trait.
pub open spec fn app_signed<Public, Signature, C: AppCrypto<Public, Signature>>(
    payload: &[u8],
    public: Public,
    r: Option<Signature>,
) -> bool {
    exists|converted: Result<
        C::GenericPublic,
        <C::GenericPublic as TryFrom<Public>>::Error,
    >|
        #[trigger] call_ensures(
            <C::GenericPublic as TryFrom<Public>>::try_from,
            (public,),
            converted,
        ) && match converted {
            Err(_) => r is None,
            Ok(generic) => exists|
                key: C::RuntimeAppPublic,
                signed: Option<<C::RuntimeAppPublic as RuntimeAppPublic>::Signature>,
            |
                #![trigger call_ensures(<C::GenericPublic as Into<C::RuntimeAppPublic>>::into, (generic,), key), call_ensures(<C::RuntimeAppPublic as RuntimeAppPublic>::sign, (&key, payload), signed)]
                call_ensures(
                    <C::GenericPublic as Into<C::RuntimeAppPublic>>::into,
                    (generic,),
                    key,
                ) && call_ensures(
                    <C::RuntimeAppPublic as RuntimeAppPublic>::sign,
                    (&key, payload),
                    signed,
                ) && match signed {
                    None => r is None,
                    Some(s) => exists|raw: C::GenericSignature|
                        #[trigger] call_ensures(
                            <C::GenericSignature as From<
                                <C::RuntimeAppPublic as RuntimeAppPublic>::Signature,
                            >>::from,
                            (s,),
                            raw,
                        ) && r is Some && call_ensures(
                            <C::GenericSignature as Into<Signature>>::into,
                            (raw,),
                            r->0,
                        ),
                },
        }
}

/// What verifying `signature` of `payload` by `public` can give under the default
/// `AppCrypto::verify` of `C`: the statement of its contract, written out again here.
pub open spec fn app_verified<Public, Signature, C: AppCrypto<Public, Signature>>(
    payload: &[u8],
    public: Public,
    signature: Signature,
    r: bool,
) -> bool {
    exists|converted: Result<
        C::GenericPublic,
        <C::GenericPublic as TryFrom<Public>>::Error,
    >|
        #[trigger] call_ensures(
            <C::GenericPublic as TryFrom<Public>>::try_from,
            (public,),
            converted,
        ) && match converted {
            Err(_) => !r,
            Ok(generic) => exists|
                key: C::RuntimeAppPublic,
                converted_signature: Result<
                    C::GenericSignature,
                    <C::GenericSignature as TryFrom<Signature>>::Error,
                >,
            |
                #![trigger call_ensures(<C::GenericPublic as Into<C::RuntimeAppPublic>>::into, (generic,), key), call_ensures(<C::GenericSignature as TryFrom<Signature>>::try_from, (signature,), converted_signature)]
                call_ensures(
                    <C::GenericPublic as Into<C::RuntimeAppPublic>>::into,
                    (generic,),
                    key,
                ) && call_ensures(
                    <C::GenericSignature as TryFrom<Signature>>::try_from,
                    (signature,),
                    converted_signature,
                ) && match converted_signature {
                    Err(_) => !r,
                    Ok(raw) => exists|
                        app_signature: <C::RuntimeAppPublic as RuntimeAppPublic>::Signature,
                    |
                        #[trigger] call_ensures(
                            <C::GenericSignature as Into<
                                <C::RuntimeAppPublic as RuntimeAppPublic>::Signature,
                            >>::into,
                            (raw,),
                            app_signature,
                        ) && call_ensures(
                            <C::RuntimeAppPublic as RuntimeAppPublic>::verify,
                            (&key, payload, &app_signature),
                            r,
                        ),
                },
        }
}


/// Every signature that `C::sign` makes for a message with a key, `C::verify` accepts for a
/// message with the same bytes and the same key.
pub open spec fn signs_verifiably<Public, Signature, C: AppCrypto<Public, Signature>>() -> bool {
    forall|m1: &[u8], m2: &[u8], public: Public, signature: Signature, valid: bool|
        #![trigger call_ensures(C::sign, (m1, public), Some(signature)), call_ensures(C::verify, (m2, public, signature), valid)]
        m1@ == m2@ && call_ensures(C::sign, (m1, public), Some(signature)) && call_ensures(
            C::verify,
            (m2, public, signature),
            valid,
        ) ==> valid
}

/// Under the default `sign` and `verify` of `C`, a signature made for `payload` with `public`
/// is accepted for them, when converting `public` and the application key gives the same key
/// each time, a raw signature converted to the runtime's signature and back is the same, an
/// application signature converted to a raw one and back is the same, and the application key
/// accepts the signatures it makes.
pub proof fn lemma_signature_verifies<Public, Signature, C: AppCrypto<Public, Signature>>(
    payload: &[u8],
    public: Public,
    signature: Signature,
    valid: bool,
)
    requires
        app_signed::<Public, Signature, C>(payload, public, Some(signature)),
        app_verified::<Public, Signature, C>(payload, public, signature, valid),
        forall|
            c1: Result<C::GenericPublic, <C::GenericPublic as TryFrom<Public>>::Error>,
            c2: Result<C::GenericPublic, <C::GenericPublic as TryFrom<Public>>::Error>,
        |
            #![trigger call_ensures(<C::GenericPublic as TryFrom<Public>>::try_from, (public,), c1), call_ensures(<C::GenericPublic as TryFrom<Public>>::try_from, (public,), c2)]
            call_ensures(<C::GenericPublic as TryFrom<Public>>::try_from, (public,), c1)
                && call_ensures(<C::GenericPublic as TryFrom<Public>>::try_from, (public,), c2) ==> c1
                == c2,
        forall|g: C::GenericPublic, k1: C::RuntimeAppPublic, k2: C::RuntimeAppPublic|
            #![trigger call_ensures(<C::GenericPublic as Into<C::RuntimeAppPublic>>::into, (g,), k1), call_ensures(<C::GenericPublic as Into<C::RuntimeAppPublic>>::into, (g,), k2)]
            call_ensures(<C::GenericPublic as Into<C::RuntimeAppPublic>>::into, (g,), k1)
                && call_ensures(<C::GenericPublic as Into<C::RuntimeAppPublic>>::into, (g,), k2) ==> k1
                == k2,
        forall|
            raw: C::GenericSignature,
            s: Signature,
            c: Result<C::GenericSignature, <C::GenericSignature as TryFrom<Signature>>::Error>,
        |
            #![trigger call_ensures(<C::GenericSignature as Into<Signature>>::into, (raw,), s), call_ensures(<C::GenericSignature as TryFrom<Signature>>::try_from, (s,), c)]
            call_ensures(<C::GenericSignature as Into<Signature>>::into, (raw,), s) && call_ensures(
                <C::GenericSignature as TryFrom<Signature>>::try_from,
                (s,),
                c,
            ) ==> c == Ok::<C::GenericSignature, <C::GenericSignature as TryFrom<Signature>>::Error>(raw),
        forall|
            s: <C::RuntimeAppPublic as RuntimeAppPublic>::Signature,
            raw: C::GenericSignature,
            back: <C::RuntimeAppPublic as RuntimeAppPublic>::Signature,
        |
            #![trigger call_ensures(<C::GenericSignature as From<<C::RuntimeAppPublic as RuntimeAppPublic>::Signature>>::from, (s,), raw), call_ensures(<C::GenericSignature as Into<<C::RuntimeAppPublic as RuntimeAppPublic>::Signature>>::into, (raw,), back)]
            call_ensures(
                <C::GenericSignature as From<<C::RuntimeAppPublic as RuntimeAppPublic>::Signature>>::from,
                (s,),
                raw,
            ) && call_ensures(
                <C::GenericSignature as Into<<C::RuntimeAppPublic as RuntimeAppPublic>::Signature>>::into,
                (raw,),
                back,
            ) ==> back == s,
        forall|
            key: C::RuntimeAppPublic,
            s: <C::RuntimeAppPublic as RuntimeAppPublic>::Signature,
            ok: bool,
        |
            #![trigger call_ensures(<C::RuntimeAppPublic as RuntimeAppPublic>::sign, (&key, payload), Some(s)), call_ensures(<C::RuntimeAppPublic as RuntimeAppPublic>::verify, (&key, payload, &s), ok)]
            call_ensures(<C::RuntimeAppPublic as RuntimeAppPublic>::sign, (&key, payload), Some(s))
                && call_ensures(
                <C::RuntimeAppPublic as RuntimeAppPublic>::verify,
                (&key, payload, &s),
                ok,
            ) ==> ok,
    ensures
        valid,
{
    let converted = choose|converted: Result<
        C::GenericPublic,
        <C::GenericPublic as TryFrom<Public>>::Error,
    >|
        #[trigger] call_ensures(
            <C::GenericPublic as TryFrom<Public>>::try_from,
            (public,),
            converted,
        ) && match converted {
            Err(_) => Some(signature) is None,
            Ok(generic) => exists|
                key: C::RuntimeAppPublic,
                signed: Option<<C::RuntimeAppPublic as RuntimeAppPublic>::Signature>,
            |
                #![trigger call_ensures(<C::GenericPublic as Into<C::RuntimeAppPublic>>::into, (generic,), key), call_ensures(<C::RuntimeAppPublic as RuntimeAppPublic>::sign, (&key, payload), signed)]
                call_ensures(
                    <C::GenericPublic as Into<C::RuntimeAppPublic>>::into,
                    (generic,),
                    key,
                ) && call_ensures(
                    <C::RuntimeAppPublic as RuntimeAppPublic>::sign,
                    (&key, payload),
                    signed,
                ) && match signed {
                    None => Some(signature) is None,
                    Some(s) => exists|raw: C::GenericSignature|
                        #[trigger] call_ensures(
                            <C::GenericSignature as From<
                                <C::RuntimeAppPublic as RuntimeAppPublic>::Signature,
                            >>::from,
                            (s,),
                            raw,
                        ) && Some(signature) is Some && call_ensures(
                            <C::GenericSignature as Into<Signature>>::into,
                            (raw,),
                            signature,
                        ),
                },
        };
    let generic = converted->Ok_0;
    let (key, signed) = choose|
        key: C::RuntimeAppPublic,
        signed: Option<<C::RuntimeAppPublic as RuntimeAppPublic>::Signature>,
    |
        #![trigger call_ensures(<C::GenericPublic as Into<C::RuntimeAppPublic>>::into, (generic,), key), call_ensures(<C::RuntimeAppPublic as RuntimeAppPublic>::sign, (&key, payload), signed)]
        call_ensures(<C::GenericPublic as Into<C::RuntimeAppPublic>>::into, (generic,), key)
            && call_ensures(<C::RuntimeAppPublic as RuntimeAppPublic>::sign, (&key, payload), signed)
            && match signed {
            None => Some(signature) is None,
            Some(s) => exists|raw: C::GenericSignature|
                #[trigger] call_ensures(
                    <C::GenericSignature as From<<C::RuntimeAppPublic as RuntimeAppPublic>::Signature>>::from,
                    (s,),
                    raw,
                ) && Some(signature) is Some && call_ensures(
                    <C::GenericSignature as Into<Signature>>::into,
                    (raw,),
                    signature,
                ),
        };
    let s = signed->0;
    let raw = choose|raw: C::GenericSignature|
        #[trigger] call_ensures(
            <C::GenericSignature as From<<C::RuntimeAppPublic as RuntimeAppPublic>::Signature>>::from,
            (s,),
            raw,
        ) && Some(signature) is Some && call_ensures(
            <C::GenericSignature as Into<Signature>>::into,
            (raw,),
            signature,
        );
    let converted2 = choose|converted: Result<
        C::GenericPublic,
        <C::GenericPublic as TryFrom<Public>>::Error,
    >|
        #[trigger] call_ensures(
            <C::GenericPublic as TryFrom<Public>>::try_from,
            (public,),
            converted,
        ) && match converted {
            Err(_) => !valid,
            Ok(generic) => exists|
                key: C::RuntimeAppPublic,
                converted_signature: Result<
                    C::GenericSignature,
                    <C::GenericSignature as TryFrom<Signature>>::Error,
                >,
            |
                #![trigger call_ensures(<C::GenericPublic as Into<C::RuntimeAppPublic>>::into, (generic,), key), call_ensures(<C::GenericSignature as TryFrom<Signature>>::try_from, (signature,), converted_signature)]
                call_ensures(
                    <C::GenericPublic as Into<C::RuntimeAppPublic>>::into,
                    (generic,),
                    key,
                ) && call_ensures(
                    <C::GenericSignature as TryFrom<Signature>>::try_from,
                    (signature,),
                    converted_signature,
                ) && match converted_signature {
                    Err(_) => !valid,
                    Ok(raw) => exists|
                        app_signature: <C::RuntimeAppPublic as RuntimeAppPublic>::Signature,
                    |
                        #[trigger] call_ensures(
                            <C::GenericSignature as Into<
                                <C::RuntimeAppPublic as RuntimeAppPublic>::Signature,
                            >>::into,
                            (raw,),
                            app_signature,
                        ) && call_ensures(
                            <C::RuntimeAppPublic as RuntimeAppPublic>::verify,
                            (&key, payload, &app_signature),
                            valid,
                        ),
                },
        };
    assert(converted2 == converted);
    let (key2, cs) = choose|
        key: C::RuntimeAppPublic,
        converted_signature: Result<
            C::GenericSignature,
            <C::GenericSignature as TryFrom<Signature>>::Error,
        >,
    |
        #![trigger call_ensures(<C::GenericPublic as Into<C::RuntimeAppPublic>>::into, (generic,), key), call_ensures(<C::GenericSignature as TryFrom<Signature>>::try_from, (signature,), converted_signature)]
        call_ensures(<C::GenericPublic as Into<C::RuntimeAppPublic>>::into, (generic,), key)
            && call_ensures(
            <C::GenericSignature as TryFrom<Signature>>::try_from,
            (signature,),
            converted_signature,
        ) && match converted_signature {
            Err(_) => !valid,
            Ok(raw) => exists|app_signature: <C::RuntimeAppPublic as RuntimeAppPublic>::Signature|
                #[trigger] call_ensures(
                    <C::GenericSignature as Into<<C::RuntimeAppPublic as RuntimeAppPublic>::Signature>>::into,
                    (raw,),
                    app_signature,
                ) && call_ensures(
                    <C::RuntimeAppPublic as RuntimeAppPublic>::verify,
                    (&key, payload, &app_signature),
                    valid,
                ),
        };
    assert(key2 == key);
    assert(cs == Ok::<C::GenericSignature, <C::GenericSignature as TryFrom<Signature>>::Error>(raw));
    let app_signature = choose|app_signature: <C::RuntimeAppPublic as RuntimeAppPublic>::Signature|
        #[trigger] call_ensures(
            <C::GenericSignature as Into<<C::RuntimeAppPublic as RuntimeAppPublic>::Signature>>::into,
            (raw,),
            app_signature,
        ) && call_ensures(
            <C::RuntimeAppPublic as RuntimeAppPublic>::verify,
            (&key, payload, &app_signature),
            valid,
        );
    assert(app_signature == s);
}

} // verus!
