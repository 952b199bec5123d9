use std::cell::{Cell, RefCell};
use std::collections::HashMap;
use std::convert::TryFrom;

use offchain::{
    nonce_after_submission, Account, AppCrypto, CreateSignedTransaction, Encode, Extrinsic,
    ForAll, ForAny, IdentifyAccount, Offchain, RuntimeAppPublic, SendSignedTransaction,
    SendTransactionTypes, SendUnsignedTransaction, SignMessage, SignedPayload, Signer,
    SigningTypes, SubmitTransaction,
};

// The runtime's key: keys below 100 belong to the test application's crypto.
#[derive(Clone, Debug, PartialEq)]
struct Key(u64);

impl IdentifyAccount for Key {
    type AccountId = u64;
    fn into_account(self) -> u64 {
        self.0 * 10
    }
}

#[derive(Clone, Debug, PartialEq)]
enum Sig {
    App(u64, Vec<u8>),
    Other,
}

struct Runtime;

impl SigningTypes for Runtime {
    type AccountId = u64;
    type Public = Key;
    type Signature = Sig;
    type Index = u64;
}

// Application key; the keystore holds the private keys of the odd ones.
struct AppKey(u64);

#[derive(Clone, Debug, PartialEq)]
struct AppSig(u64, Vec<u8>);

const KEYSTORE: [u64; 4] = [2, 3, 4, 5];

impl RuntimeAppPublic for AppKey {
    type Signature = AppSig;
    fn all() -> Vec<Self> {
        KEYSTORE.iter().map(|k| AppKey(*k)).collect()
    }
    fn sign(&self, msg: &[u8]) -> Option<AppSig> {
        if self.0 % 2 == 1 {
            Some(AppSig(self.0, msg.to_vec()))
        } else {
            None
        }
    }
    fn verify(&self, msg: &[u8], signature: &AppSig) -> bool {
        signature.0 == self.0 && signature.1 == msg
    }
}

struct Raw(u64);
impl From<AppKey> for Raw {
    fn from(k: AppKey) -> Raw {
        Raw(k.0)
    }
}
impl From<Raw> for AppKey {
    fn from(r: Raw) -> AppKey {
        AppKey(r.0)
    }
}
impl TryFrom<Key> for Raw {
    type Error = ();
    fn try_from(k: Key) -> Result<Raw, ()> {
        if k.0 < 100 {
            Ok(Raw(k.0))
        } else {
            Err(())
        }
    }
}
impl From<Raw> for Key {
    fn from(r: Raw) -> Key {
        Key(r.0)
    }
}

struct RawSig(u64, Vec<u8>);
impl From<AppSig> for RawSig {
    fn from(s: AppSig) -> RawSig {
        RawSig(s.0, s.1)
    }
}
impl From<RawSig> for AppSig {
    fn from(s: RawSig) -> AppSig {
        AppSig(s.0, s.1)
    }
}
impl TryFrom<Sig> for RawSig {
    type Error = ();
    fn try_from(s: Sig) -> Result<RawSig, ()> {
        match s {
            Sig::App(k, m) => Ok(RawSig(k, m)),
            Sig::Other => Err(()),
        }
    }
}
impl From<RawSig> for Sig {
    fn from(s: RawSig) -> Sig {
        Sig::App(s.0, s.1)
    }
}

struct TestCrypto;
impl AppCrypto<Key, Sig> for TestCrypto {
    type RuntimeAppPublic = AppKey;
    type GenericPublic = Raw;
    type GenericSignature = RawSig;
}

// Runtime calls and extrinsics: the runtime cannot build an extrinsic for call 0.
#[derive(Clone, Debug, PartialEq)]
struct RuntimeCall(u32);
impl From<u32> for RuntimeCall {
    fn from(c: u32) -> RuntimeCall {
        RuntimeCall(c)
    }
}

#[derive(Debug, PartialEq)]
struct Xt {
    call: u32,
    signed: Option<(u64, u64)>,
}

impl Extrinsic for Xt {
    type Call = RuntimeCall;
    type SignaturePayload = (u64, u64);
    fn new(call: RuntimeCall, signed_data: Option<(u64, u64)>) -> Option<Xt> {
        if call.0 == 0 {
            None
        } else {
            Some(Xt { call: call.0, signed: signed_data })
        }
    }
}

impl Encode for Xt {
    fn encode(&self) -> Vec<u8> {
        let mut v = vec![self.call as u8];
        if let Some((account, nonce)) = self.signed {
            v.push(account as u8);
            v.push(nonce as u8);
        }
        v
    }
}

impl SendTransactionTypes<u32> for Runtime {
    type Extrinsic = Xt;
    type OverarchingCall = RuntimeCall;
}

// The runtime refuses to sign for account 40.
impl CreateSignedTransaction<u32> for Runtime {
    fn create_transaction<C: AppCrypto<Key, Sig>>(
        call: RuntimeCall,
        _public: Key,
        account: u64,
        nonce: u64,
    ) -> Option<(RuntimeCall, (u64, u64))> {
        if account == 40 {
            None
        } else {
            Some((call, (account, nonce)))
        }
    }
}

struct Payload {
    data: u8,
    public: Key,
}
impl Encode for Payload {
    fn encode(&self) -> Vec<u8> {
        vec![self.data]
    }
}
impl SignedPayload<Runtime> for Payload {
    fn public(&self) -> Key {
        self.public.clone()
    }
}

type AllSigner = Signer<Runtime, TestCrypto, ForAll>;
type AnySigner = Signer<Runtime, TestCrypto, ForAny>;

fn keys(ks: &[u64]) -> Vec<Key> {
    ks.iter().map(|k| Key(*k)).collect()
}

// A pool that records what it is handed, and refuses extrinsics of call 9.
struct Pool {
    seen: RefCell<Vec<Vec<u8>>>,
}
impl Pool {
    fn new() -> Pool {
        Pool { seen: RefCell::new(Vec::new()) }
    }
    fn submit(&self, bytes: Vec<u8>) -> Result<(), ()> {
        let refused = bytes[0] == 9;
        self.seen.borrow_mut().push(bytes);
        if refused {
            Err(())
        } else {
            Ok(())
        }
    }
}

// The nonces stored on chain.
fn chain_nonces(entries: &[(u64, u64)]) -> HashMap<u64, u64> {
    entries.iter().cloned().collect()
}

#[test]
fn account_new_keeps_its_parts() {
    let a: Account<Runtime> = Account::new(3, 70, Key(7));
    assert_eq!(a.index, 3);
    assert_eq!(a.id, 70);
    assert_eq!(a.public, Key(7));
    let b = a.clone();
    assert_eq!((b.index, b.id, b.public), (3, 70, Key(7)));
}

#[test]
fn can_sign_asks_the_keystore() {
    assert!(AllSigner::all_accounts().can_sign());
    assert!(AnySigner::any_account().can_sign());
    assert!(AllSigner::default().can_sign());
    assert!(!AllSigner::all_accounts().with_filter(vec![]).can_sign());
    assert!(!AllSigner::all_accounts().with_filter(keys(&[7, 9])).can_sign());
    assert!(AnySigner::any_account().with_filter(keys(&[7, 3])).can_sign());
}

#[test]
fn keys_in_use_intersects_filter_with_keystore() {
    let used = AllSigner::all_accounts().with_filter(keys(&[5, 6, 7, 3, 8])).keys_in_use();
    let got: Vec<(usize, u64)> = used.iter().map(|(i, k)| (*i, k.0)).collect();
    assert_eq!(got, vec![(0, 5), (3, 3)]);
    let all = AllSigner::all_accounts().keys_in_use();
    let got: Vec<(usize, u64)> = all.iter().map(|(i, k)| (*i, k.0)).collect();
    assert_eq!(got, vec![(0, 2), (1, 3), (2, 4), (3, 5)]);
}

#[test]
fn for_all_collects_results_in_key_order() {
    let signer = AllSigner::all_accounts().with_filter(keys(&[5, 6, 7, 3, 8]));
    let r = signer.for_all(|a: &Account<Runtime>| if a.public.0 % 2 == 1 { Some(a.public.0 + 100) } else { None });
    let got: Vec<(usize, u64, u64, u64)> = r.iter().map(|(a, x)| (a.index, a.id, a.public.0, *x)).collect();
    assert_eq!(got, vec![(0, 50, 5, 105), (3, 30, 3, 103)]);
}

#[test]
fn for_all_uses_the_keystore_without_filter() {
    let signer = AllSigner::all_accounts();
    let r = signer.for_all(|a: &Account<Runtime>| Some(a.index));
    let got: Vec<(usize, u64)> = r.iter().map(|(a, _)| (a.index, a.public.0)).collect();
    assert_eq!(got, vec![(0, 2), (1, 3), (2, 4), (3, 5)]);
}

#[test]
fn for_any_stops_at_first_result() {
    let calls = Cell::new(0);
    let signer = AnySigner::any_account().with_filter(keys(&[4, 6, 5, 3]));
    let r = signer.for_any(|a: &Account<Runtime>| {
        calls.set(calls.get() + 1);
        if a.public.0 % 2 == 1 { Some(a.index) } else { None }
    });
    let (a, x) = r.unwrap();
    assert_eq!((a.index, a.id, x), (2, 50, 2));
    assert_eq!(calls.get(), 2);
}

#[test]
fn for_any_none_after_trying_every_key() {
    let calls = Cell::new(0);
    let signer = AnySigner::any_account().with_filter(keys(&[4, 2]));
    let r = signer.for_any(|_a: &Account<Runtime>| -> Option<()> {
        calls.set(calls.get() + 1);
        None
    });
    assert!(r.is_none());
    assert_eq!(calls.get(), 2);
    let empty = AnySigner::any_account().with_filter(vec![]);
    assert!(empty.for_any(|_a: &Account<Runtime>| Some(1)).is_none());
    // a filter key the keystore lacks is never used
    let missing = AnySigner::any_account().with_filter(keys(&[7]));
    assert!(missing.for_any(|_a: &Account<Runtime>| Some(1)).is_none());
    let missing_all = AllSigner::all_accounts().with_filter(keys(&[7]));
    assert!(missing_all.for_all(|_a: &Account<Runtime>| Some(1)).is_empty());
}

#[test]
fn for_any_is_first_of_for_all() {
    let f = |a: &Account<Runtime>| if a.public.0 > 2 { Some(a.public.0) } else { None };
    let filter = keys(&[1, 2, 8, 3, 9, 5]);
    let all = AllSigner::all_accounts().with_filter(filter.clone()).for_all(f);
    let any = AnySigner::any_account().with_filter(filter).for_any(f);
    let (first, x) = any.unwrap();
    assert_eq!((first.index, x), (all[0].0.index, all[0].1));
    assert_eq!((first.index, x), (3, 3));
    assert_eq!(all.len(), 2);
}

#[test]
fn for_any_finds_nothing_when_for_all_collects_nothing() {
    let f = |a: &Account<Runtime>| if a.public.0 > 50 { Some(a.index) } else { None };
    let all = AllSigner::all_accounts().with_filter(keys(&[1, 2, 3])).for_all(f);
    let any = AnySigner::any_account().with_filter(keys(&[1, 2, 3])).for_any(f);
    assert!(all.is_empty());
    assert!(any.is_none());
}

#[test]
fn app_crypto_sign_and_verify() {
    let sig = TestCrypto::sign(b"hi", Key(3)).unwrap();
    assert_eq!(sig, Sig::App(3, b"hi".to_vec()));
    assert!(TestCrypto::verify(b"hi", Key(3), sig.clone()));
    assert!(!TestCrypto::verify(b"ho", Key(3), sig.clone()));
    // the keystore does not hold even keys
    assert_eq!(TestCrypto::sign(b"hi", Key(4)), None);
    // keys and signatures of another crypto
    assert_eq!(TestCrypto::sign(b"hi", Key(103)), None);
    assert!(!TestCrypto::verify(b"hi", Key(103), sig));
    assert!(!TestCrypto::verify(b"hi", Key(3), Sig::Other));
}

#[test]
fn sign_message_for_all_and_any() {
    let all = AllSigner::all_accounts().sign_message(b"m");
    let got: Vec<(usize, Sig)> = all.into_iter().map(|(a, s)| (a.index, s)).collect();
    assert_eq!(got, vec![(1, Sig::App(3, b"m".to_vec())), (3, Sig::App(5, b"m".to_vec()))]);
    let any = AnySigner::any_account().with_filter(keys(&[2, 5, 7])).sign_message(b"m").unwrap();
    assert_eq!((any.0.index, any.1), (1, Sig::App(5, b"m".to_vec())));
    assert!(AnySigner::any_account().with_filter(keys(&[2, 4])).sign_message(b"m").is_none());
}

#[test]
fn sign_message_signatures_verify() {
    let all = AllSigner::all_accounts().sign_message(b"msg");
    assert_eq!(all.len(), 2);
    for (a, sig) in all {
        assert!(TestCrypto::verify(b"msg", a.public.clone(), sig));
    }
    let (a, sig) = AnySigner::any_account().sign_message(b"msg").unwrap();
    assert!(TestCrypto::verify(b"msg", a.public.clone(), sig));
}

#[test]
fn signed_payload_sign_and_verify() {
    let p = Payload { data: 42, public: Key(7) };
    let sig = p.sign::<TestCrypto>().unwrap();
    assert_eq!(sig, Sig::App(7, vec![42]));
    assert!(p.verify::<TestCrypto>(sig));
    assert!(!p.verify::<TestCrypto>(Sig::App(7, vec![41])));
    let q = Payload { data: 1, public: Key(8) };
    assert_eq!(q.sign::<TestCrypto>(), None);
}

#[test]
fn sign_payload_with_accounts() {
    let build = |a: &Account<Runtime>| Payload { data: a.index as u8, public: a.public.clone() };
    let all = AllSigner::all_accounts().with_filter(keys(&[1, 2, 3])).sign(build);
    let got: Vec<(usize, Sig)> = all.into_iter().map(|(a, s)| (a.index, s)).collect();
    assert_eq!(got, vec![(2, Sig::App(3, vec![2]))]);
    let any = AnySigner::any_account().with_filter(keys(&[2, 3])).sign(build).unwrap();
    assert_eq!((any.0.index, any.1), (1, Sig::App(3, vec![1])));
}

#[test]
fn submit_transaction_hands_encoding_to_pool() {
    let pool = Pool::new();
    let chain = chain_nonces(&[]);
    let mut run = Offchain::new(|b: Vec<u8>| pool.submit(b), |id: &u64| *chain.get(id).unwrap_or(&0));
    let r = SubmitTransaction::<Runtime, u32>::submit_transaction(RuntimeCall(5), Some((1, 2)), &mut run);
    assert_eq!(r, Ok(()));
    let r = SubmitTransaction::<Runtime, u32>::submit_unsigned_transaction(RuntimeCall(6), &mut run);
    assert_eq!(r, Ok(()));
    assert_eq!(*pool.seen.borrow(), vec![vec![5, 1, 2], vec![6]]);
    assert!(run.stored_nonces().is_empty());
}

#[test]
fn submit_transaction_fails_when_no_extrinsic_is_built() {
    let pool = Pool::new();
    let chain = chain_nonces(&[]);
    let mut run = Offchain::new(|b: Vec<u8>| pool.submit(b), |id: &u64| *chain.get(id).unwrap_or(&0));
    let r = SubmitTransaction::<Runtime, u32>::submit_transaction(RuntimeCall(0), None, &mut run);
    assert_eq!(r, Err(()));
    assert!(pool.seen.borrow().is_empty());
    let r = SubmitTransaction::<Runtime, u32>::submit_unsigned_transaction(RuntimeCall(9), &mut run);
    assert_eq!(r, Err(()));
    let r = SubmitTransaction::<Runtime, u32>::submit_extrinsic(None, &mut run);
    assert_eq!(r, Err(()));
    let r = SubmitTransaction::<Runtime, u32>::submit_extrinsic(Some(Xt { call: 3, signed: None }), &mut run);
    assert_eq!(r, Ok(()));
    assert_eq!(*pool.seen.borrow(), vec![vec![9], vec![3]]);
}

#[test]
fn nonce_after_submission_bumps_only_accepted() {
    assert_eq!(nonce_after_submission(4u64, &Ok(())), Some(5));
    assert_eq!(nonce_after_submission(4u64, &Err(())), None);
    assert_eq!(nonce_after_submission(u64::MAX, &Ok(())), Some(0));
    assert_eq!(nonce_after_submission(u64::MAX - 1, &Ok(())), Some(u64::MAX));
}

#[test]
fn nonce_after_submission_wraps_at_the_index_type_maximum() {
    assert_eq!(nonce_after_submission(u32::MAX, &Ok(())), Some(0u32));
    assert_eq!(nonce_after_submission(41u32, &Ok(())), Some(42u32));
    assert_eq!(nonce_after_submission(u16::MAX, &Ok(())), Some(0u16));
    assert_eq!(nonce_after_submission(u128::MAX, &Ok(())), Some(0u128));
    assert_eq!(nonce_after_submission(u32::MAX, &Err(())), None);
}

#[test]
fn offchain_reads_the_last_stored_nonce() {
    let chain = chain_nonces(&[(30, 7)]);
    let mut run = Offchain::new(|_b: Vec<u8>| Ok(()), |id: &u64| *chain.get(id).unwrap_or(&0));
    assert_eq!(run.nonce(&30), 7);
    assert_eq!(run.nonce(&50), 0);
    run.store_nonce(30, 8);
    run.store_nonce(50, 2);
    run.store_nonce(30, 9);
    assert_eq!(run.nonce(&30), 9);
    assert_eq!(run.nonce(&50), 2);
    assert_eq!(run.nonce(&70), 0);
    assert_eq!(*run.stored_nonces(), vec![(30, 8), (50, 2), (30, 9)]);
}

#[test]
fn send_single_signed_bumps_nonce_when_pool_takes_it() {
    let pool = Pool::new();
    let chain = chain_nonces(&[(30, 7)]);
    let mut run = Offchain::new(|b: Vec<u8>| pool.submit(b), |id: &u64| *chain.get(id).unwrap_or(&0));
    let signer = AnySigner::any_account();
    let account: Account<Runtime> = Account::new(0, 30, Key(3));
    let r = SendSignedTransaction::<Runtime, TestCrypto, u32>::send_single_signed_transaction(&signer, &account, 5, &mut run);
    assert_eq!(r, Some(Ok(())));
    assert_eq!(*run.stored_nonces(), vec![(30, 8)]);
    assert_eq!(*pool.seen.borrow(), vec![vec![5, 30, 7]]);
    // the pool refuses call 9: the next send uses nonce 8, and nothing is stored
    let r = SendSignedTransaction::<Runtime, TestCrypto, u32>::send_single_signed_transaction(&signer, &account, 9, &mut run);
    assert_eq!(r, Some(Err(())));
    assert_eq!(*run.stored_nonces(), vec![(30, 8)]);
    assert_eq!(pool.seen.borrow()[1], vec![9, 30, 8]);
    // the runtime cannot build call 0: nothing handed to the pool, nothing stored
    let r = SendSignedTransaction::<Runtime, TestCrypto, u32>::send_single_signed_transaction(&signer, &account, 0, &mut run);
    assert_eq!(r, Some(Err(())));
    assert_eq!(pool.seen.borrow().len(), 2);
    assert_eq!(run.stored_nonces().len(), 1);
    // the runtime refuses to sign for account 40
    let other: Account<Runtime> = Account::new(1, 40, Key(4));
    let r = SendSignedTransaction::<Runtime, TestCrypto, u32>::send_single_signed_transaction(&signer, &other, 5, &mut run);
    assert_eq!(r, None);
    assert_eq!(pool.seen.borrow().len(), 2);
    assert_eq!(run.stored_nonces().len(), 1);
}

#[test]
fn consecutive_accepted_sends_use_consecutive_nonces() {
    let pool = Pool::new();
    let chain = chain_nonces(&[(50, 3)]);
    let mut run = Offchain::new(|b: Vec<u8>| pool.submit(b), |id: &u64| *chain.get(id).unwrap_or(&0));
    let signer = AnySigner::any_account();
    let account: Account<Runtime> = Account::new(0, 50, Key(5));
    for call in [1u32, 2, 3] {
        let r = SendSignedTransaction::<Runtime, TestCrypto, u32>::send_single_signed_transaction(&signer, &account, call, &mut run);
        assert_eq!(r, Some(Ok(())));
    }
    let nonces: Vec<u8> = pool.seen.borrow().iter().map(|b| b[2]).collect();
    assert_eq!(nonces, vec![3, 4, 5]);
    assert_eq!(run.nonce(&50), 6);
}

#[test]
fn send_signed_transaction_for_all_and_any() {
    let pool = Pool::new();
    let chain = chain_nonces(&[]);
    let mut run = Offchain::new(|b: Vec<u8>| pool.submit(b), |id: &u64| *chain.get(id).unwrap_or(&0));
    // account 40 (key 4) cannot sign; the same key twice uses the next nonce
    let all = AllSigner::all_accounts().with_filter(keys(&[3, 4, 3]));
    let r = all.send_signed_transaction(|a: &Account<Runtime>| a.index as u32 + 1, &mut run);
    let got: Vec<(usize, Result<(), ()>)> = r.into_iter().map(|(a, res)| (a.index, res)).collect();
    assert_eq!(got, vec![(0, Ok(())), (2, Ok(()))]);
    assert_eq!(*pool.seen.borrow(), vec![vec![1, 30, 0], vec![3, 30, 1]]);
    assert_eq!(*run.stored_nonces(), vec![(30, 1), (30, 2)]);
    let any = AnySigner::any_account().with_filter(keys(&[4, 5]));
    let (a, res) = any.send_signed_transaction(|_a: &Account<Runtime>| 9, &mut run).unwrap();
    assert_eq!((a.index, res), (1, Err(())));
    assert_eq!(run.stored_nonces().len(), 2);
    assert_eq!(pool.seen.borrow().len(), 3);
}

#[test]
fn send_unsigned_transaction_for_all_and_any() {
    let pool = Pool::new();
    let chain = chain_nonces(&[]);
    let mut run = Offchain::new(|b: Vec<u8>| pool.submit(b), |id: &u64| *chain.get(id).unwrap_or(&0));
    let build = |a: &Account<Runtime>| Payload { data: a.index as u8, public: a.public.clone() };
    let to_call = |p: Payload, s: Sig| match s {
        Sig::App(k, _) => p.data as u32 * 10 + k as u32,
        Sig::Other => 0,
    };
    // keystore: keys 3 and 5 can sign
    let r = AllSigner::all_accounts().send_unsigned_transaction(build, to_call, &mut run);
    let got: Vec<(usize, Result<(), ()>)> = r.into_iter().map(|(a, res)| (a.index, res)).collect();
    assert_eq!(got, vec![(1, Ok(())), (3, Ok(()))]);
    assert_eq!(*pool.seen.borrow(), vec![vec![13], vec![35]]);
    let (a, res) = AnySigner::any_account().with_filter(keys(&[2, 5])).send_unsigned_transaction(build, to_call, &mut run).unwrap();
    assert_eq!((a.index, res), (1, Ok(())));
    assert_eq!(pool.seen.borrow().len(), 3);
    assert!(AnySigner::any_account().with_filter(keys(&[2])).send_unsigned_transaction(build, to_call, &mut run).is_none());
    assert_eq!(pool.seen.borrow().len(), 3);
    let signer = AnySigner::any_account();
    assert_eq!(SendUnsignedTransaction::<Runtime, u32>::submit_unsigned_transaction(&signer, 9, &mut run), Some(Err(())));
    assert!(run.stored_nonces().is_empty());
}
