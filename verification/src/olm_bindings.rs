//! The calls into `vodozemac::olm` (and its Curve25519 keys) that the
//! library makes, with what each call is taken to do.
//!
//! Results that are a function of the arguments alone get a name; results
//! that rest on fresh randomness are described by what holds of every
//! outcome.

use vstd::prelude::*;

use vodozemac::olm;
use vodozemac::olm::Account as OlmAccount;
use vodozemac::olm::Session as OlmSession;
use vodozemac::Curve25519PublicKey;

verus! {

#[verifier::external_type_specification]
#[verifier::external_body]
pub struct ExOlmAccount(OlmAccount);

#[verifier::external_type_specification]
#[verifier::external_body]
pub struct ExOlmSession(OlmSession);

#[verifier::external_type_specification]
#[verifier::external_body]
pub struct ExPreKeyMessage(olm::PreKeyMessage);

#[verifier::external_type_specification]
#[verifier::external_body]
pub struct ExOlmNormalMessage(olm::Message);

#[verifier::external_type_specification]
#[verifier::external_body]
pub struct ExOlmSessionConfig(olm::SessionConfig);

#[verifier::external_type_specification]
#[verifier::external_body]
pub struct ExAccountPickle(olm::AccountPickle);

#[verifier::external_type_specification]
#[verifier::external_body]
pub struct ExSessionPickle(olm::SessionPickle);

#[verifier::external_type_specification]
#[verifier::external_body]
pub struct ExCurve25519PublicKey(Curve25519PublicKey);

/// An encrypted Olm message, told apart by kind.
pub enum OlmMessageParts {
    PreKey(olm::PreKeyMessage),
    Normal(olm::Message),
}

// ── names for results that are functions of their arguments ────────────

/// `Account::identity_keys`, each key in unpadded base64: (Curve25519, Ed25519).
pub uninterp spec fn identity_keys_of(a: olm::Account) -> (Seq<char>, Seq<char>);

/// `Account::one_time_keys`: base64 key id to base64 public key, for the
/// unpublished one-time keys.
pub uninterp spec fn one_time_keys_of(a: olm::Account) -> Map<Seq<char>, Seq<char>>;

/// `Account::fallback_key`: base64 key id to base64 public key, for the
/// unpublished fallback key.
pub uninterp spec fn fallback_key_of(a: olm::Account) -> Map<Seq<char>, Seq<char>>;

/// `Account::sign` of a message's UTF-8 bytes, in base64.
pub uninterp spec fn signature_of(a: olm::Account, message: Seq<char>) -> Seq<char>;

/// `Account::pickle`.
pub uninterp spec fn account_pickle_of(a: olm::Account) -> olm::AccountPickle;

/// `serde_json::to_string` of an account pickle (`None` on error).
pub uninterp spec fn account_pickle_json(p: olm::AccountPickle) -> Option<Seq<char>>;

/// `serde_json::from_str` of an account pickle (`None` on error).
pub uninterp spec fn account_pickle_parse(s: Seq<char>) -> Option<olm::AccountPickle>;

/// `Account::create_inbound_session`'s new session and plaintext (`None`
/// on error). Both are functions of the account and the message: the
/// session's state comes from the 3DH secret and the message alone.
pub uninterp spec fn inbound_outcome_of(
    a: olm::Account,
    config: olm::SessionConfig,
    their_identity_key: Curve25519PublicKey,
    message: olm::PreKeyMessage,
) -> Option<(olm::Session, Seq<u8>)>;

/// The plaintext part of `inbound_outcome_of`.
pub open spec fn inbound_plaintext_of(
    a: olm::Account,
    config: olm::SessionConfig,
    their_identity_key: Curve25519PublicKey,
    message: olm::PreKeyMessage,
) -> Option<Seq<u8>> {
    match inbound_outcome_of(a, config, their_identity_key, message) {
        Some(o) => Some(o.1),
        None => None,
    }
}

/// `Session::session_id`.
pub uninterp spec fn olm_session_id_of(s: olm::Session) -> Seq<char>;

/// `Session::has_received_message`.
pub uninterp spec fn has_received_of(s: olm::Session) -> bool;

/// `Session::decrypt` of a pre-key message (`None` on error).
pub uninterp spec fn prekey_plaintext_of(s: olm::Session, m: olm::PreKeyMessage) -> Option<Seq<u8>>;

/// `Session::decrypt` of a normal message (`None` on error).
pub uninterp spec fn normal_plaintext_of(s: olm::Session, m: olm::Message) -> Option<Seq<u8>>;

/// `Session::pickle`.
pub uninterp spec fn session_pickle_of(s: olm::Session) -> olm::SessionPickle;

/// `serde_json::to_string` of a session pickle (`None` on error).
pub uninterp spec fn session_pickle_json(p: olm::SessionPickle) -> Option<Seq<char>>;

/// `serde_json::from_str` of a session pickle (`None` on error).
pub uninterp spec fn session_pickle_parse(s: Seq<char>) -> Option<olm::SessionPickle>;

/// `PreKeyMessage::from_base64` (`None` on error).
pub uninterp spec fn prekey_parse(s: Seq<char>) -> Option<olm::PreKeyMessage>;

/// `PreKeyMessage::identity_key`.
pub uninterp spec fn prekey_sender_of(m: olm::PreKeyMessage) -> Curve25519PublicKey;

/// `PreKeyMessage::to_base64`.
pub uninterp spec fn prekey_base64_of(m: olm::PreKeyMessage) -> Seq<char>;

/// `Message::from_base64` (`None` on error).
pub uninterp spec fn normal_parse(s: Seq<char>) -> Option<olm::Message>;

/// `Message::to_base64`.
pub uninterp spec fn normal_base64_of(m: olm::Message) -> Seq<char>;

/// `Curve25519PublicKey::from_base64` (`None` on error).
pub uninterp spec fn curve_key_parse(s: Seq<char>) -> Option<Curve25519PublicKey>;

/// `Curve25519PublicKey::to_base64`.
pub uninterp spec fn curve_key_base64_of(k: Curve25519PublicKey) -> Seq<char>;

/// `PreKeyMessage::session_id`: the id of the session that the message's
/// session keys make.
pub uninterp spec fn prekey_session_id_of(m: olm::PreKeyMessage) -> Seq<char>;

/// `PreKeyMessage::one_time_key`, in base64.
pub uninterp spec fn prekey_one_time_key_of(m: olm::PreKeyMessage) -> Seq<char>;

/// `Account::stored_one_time_key_count`: how many one-time private keys the
/// account holds, published or not.
pub uninterp spec fn stored_key_count_of(a: olm::Account) -> nat;

/// How many new one-time key ids the account can still hand out, all
/// distinct from the ids it has: 2^64 minus its next key id when every
/// one-time key id it has (among its private keys or its unpublished public
/// keys) is below the next key id, else 0.
/// vodozemac keeps the next key id private; no function returns it.
pub uninterp spec fn fresh_key_ids_of(a: olm::Account) -> nat;

/// The base64 public one-time keys whose private key the account holds and
/// finds when a pre-key message names them (`find_one_time_key`, first
/// part). vodozemac keeps them private; no function returns them.
pub uninterp spec fn one_time_secrets_of(a: olm::Account) -> Set<Seq<char>>;

/// The base64 public keys of the current and the previous fallback key,
/// whose private keys the account holds (`find_one_time_key`, second part).
pub uninterp spec fn fallback_secrets_of(a: olm::Account) -> Set<Seq<char>>;

/// The account's 64-bit counter of fallback key ids, which
/// `generate_fallback_key` increments. No function returns it.
pub uninterp spec fn fallback_key_counter_of(a: olm::Account) -> nat;

/// `Session::session_keys`, in base64: (identity key of the side that
/// started the session, its base key, the other side's one-time key).
pub uninterp spec fn olm_session_keys_of(s: olm::Session) -> (Seq<char>, Seq<char>, Seq<char>);

/// The Curve25519 identity key of the other side that the session's shared
/// secret was computed with, in base64. It is held only inside the root
/// key; no function returns it.
pub uninterp spec fn olm_peer_identity_of(s: olm::Session) -> Seq<char>;

/// The largest of the session's 64-bit counters: the sending chain index,
/// every receiving chain index and every known ratchet count. vodozemac
/// increments them with `+= 1`; no function returns them.
pub uninterp spec fn olm_counter_of(s: olm::Session) -> nat;

/// Whether the session's sending ratchet is active (it then encrypts
/// without drawing a new ratchet key). No function returns it.
pub uninterp spec fn sending_chain_active_of(s: olm::Session) -> bool;

/// Whether the session still sends on its first chain: the one that its
/// 3DH shared secret with `olm_peer_identity_of` gave when
/// `create_outbound_session` made it. No function returns it.
pub uninterp spec fn olm_first_chain_of(s: olm::Session) -> bool;

/// Whether `a` and `b` are the two ends of one Olm session, in a state
/// their exchange can have reached, and how far each lags the other:
/// `Some((x, y))` when the next message `a` sends lies on a chain that `b`
/// holds, or derives from its own ratchet, `x` chain steps past the first
/// key of that chain `b` has not yet derived; and `y` is the same for the
/// next message of `b` as seen by `a`. `b` derives a chain from its own
/// ratchet when its sending ratchet is active and advancing its root key
/// with the chain's ratchet key gives that chain (the chain an inactive `a`
/// will start is the one its root key and the ratchet key of `b` it holds
/// give, which `b`'s active ratchet derives the same way, at step 0).
/// `None` otherwise. No function returns it.
pub uninterp spec fn olm_paired_of(a: olm::Session, b: olm::Session) -> Option<(nat, nat)>;

/// The ratchet key of the session's active sending ratchet, which every
/// message it sends on that chain carries (`None` while it is inactive).
/// No function returns it.
pub uninterp spec fn olm_sending_key_of(s: olm::Session) -> Option<Curve25519PublicKey>;

/// Whether `Session::encrypt` succeeds on the session: its sending ratchet
/// is active, or the other side's ratchet key it is keyed to is not of
/// small order (so the new chain's Diffie-Hellman result is not all zero).
/// No function returns it.
pub uninterp spec fn olm_encrypt_succeeds_of(s: olm::Session) -> bool;

/// `Message::ratchet_key`.
pub uninterp spec fn normal_ratchet_key_of(m: olm::Message) -> Curve25519PublicKey;

/// The ratchet key of the message inside a pre-key message
/// (`PreKeyMessage::message().ratchet_key()`).
pub uninterp spec fn prekey_ratchet_key_of(m: olm::PreKeyMessage) -> Curve25519PublicKey;

/// The ratchet key an encrypted Olm message carries.
pub open spec fn olm_message_ratchet_key(m: OlmMessageParts) -> Curve25519PublicKey {
    match m {
        OlmMessageParts::PreKey(x) => prekey_ratchet_key_of(x),
        OlmMessageParts::Normal(x) => normal_ratchet_key_of(x),
    }
}

/// What the session `t` decrypts an encrypted Olm message to (`None` on
/// error).
pub open spec fn olm_plaintext_in(t: olm::Session, m: OlmMessageParts) -> Option<Seq<u8>> {
    match m {
        OlmMessageParts::PreKey(x) => prekey_plaintext_of(t, x),
        OlmMessageParts::Normal(x) => normal_plaintext_of(t, x),
    }
}

/// The session `t` has room in its counters for a decryption.
pub open spec fn olm_has_room(t: olm::Session) -> bool {
    olm_counter_of(t) + max_message_gap() + 1 <= u64::MAX
}

/// A message that a session encrypted to the plaintext bytes `p`, going
/// from `old` to `new`, leaves every session paired with `old` paired with
/// `new`, one step further behind; and each of them whose lag allows it and
/// whose counters have room decrypts the message to `p`.
pub open spec fn olm_reaches_peers(old: olm::Session, new: olm::Session, m: OlmMessageParts, p: Seq<u8>) -> bool {
    &&& forall|t: olm::Session| #[trigger]
        olm_paired_of(old, t) matches Some(l) ==> olm_paired_of(new, t) == Some((l.0 + 1, l.1))
    &&& forall|t: olm::Session| #[trigger]
        olm_paired_of(t, old) matches Some(l) ==> olm_paired_of(t, new) == Some((l.0, l.1 + 1))
    &&& forall|t: olm::Session| #[trigger]
        olm_paired_of(old, t) matches Some(l) && l.0 <= max_message_gap() && olm_has_room(t)
            ==> olm_plaintext_in(t, m) == Some(p)
    &&& forall|t: olm::Session|
        olm_paired_of(t, old) matches Some(l) && l.1 <= max_message_gap() && olm_has_room(t)
            ==> #[trigger] olm_plaintext_in(t, m) == Some(p)
}

/// Having decrypted a message carrying the ratchet key `key`, going from
/// `old` to `new`, the session is still paired with every session that
/// sends on that key, with lags no larger than before.
pub open spec fn olm_pairing_advanced(old: olm::Session, new: olm::Session, key: Curve25519PublicKey) -> bool {
    &&& forall|t: olm::Session| #[trigger]
        olm_paired_of(old, t) is Some && olm_sending_key_of(t) == Some(key) ==> olm_lags_shrink(
            olm_paired_of(old, t),
            olm_paired_of(new, t),
        )
    &&& forall|t: olm::Session| #[trigger]
        olm_paired_of(t, old) is Some && olm_sending_key_of(t) == Some(key) ==> olm_lags_shrink(
            olm_paired_of(t, old),
            olm_paired_of(t, new),
        )
}

/// A pairing that was there is still there, neither lag larger.
pub open spec fn olm_lags_shrink(before: Option<(nat, nat)>, after: Option<(nat, nat)>) -> bool {
    match (before, after) {
        (Some(l), Some(l2)) => l2.0 <= l.0 && l2.1 <= l.1,
        _ => false,
    }
}

/// Going from `old` to `new`, the session stays paired with every session
/// exactly as before.
pub open spec fn olm_pairing_kept(old: olm::Session, new: olm::Session) -> bool {
    &&& forall|t: olm::Session| #[trigger] olm_paired_of(new, t) == olm_paired_of(old, t)
    &&& forall|t: olm::Session| #[trigger] olm_paired_of(t, new) == olm_paired_of(t, old)
}

/// What `Session::encrypt` gives for a plaintext while the sending ratchet
/// is active (it is then a function of the state): whether it is a pre-key
/// message, and its base64.
pub uninterp spec fn olm_active_message_of(s: olm::Session, plaintext: Seq<char>) -> (bool, Seq<char>);

/// The kind (pre-key or not) and base64 of an encrypted Olm message.
pub open spec fn olm_message_parts_view(m: OlmMessageParts) -> (bool, Seq<char>) {
    match m {
        OlmMessageParts::PreKey(x) => (true, prekey_base64_of(x)),
        OlmMessageParts::Normal(x) => (false, normal_base64_of(x)),
    }
}

/// The largest chain index a message may have for a new receiving chain to
/// accept it (`MAX_MESSAGE_GAP`).
pub open spec fn max_message_gap() -> nat {
    2000
}

/// An account can answer a pre-key message that names this one-time key:
/// it holds the private key as a one-time key or as a fallback key.
pub open spec fn holds_one_time_key(a: olm::Account, key: Seq<char>) -> bool {
    one_time_secrets_of(a).contains(key) || fallback_secrets_of(a).contains(key)
}

// ── olm::Account ────────────────────────────────────────────────────────

/// Calls `Account::new`. Its keys are fresh random keys; the claim is that
/// the new account holds no one-time keys and no fallback key, and its
/// fallback key counter is 0 (`OneTimeKeys::new` and `FallbackKeys::new`
/// start empty).
#[verifier::external_body]
pub(crate) fn account_new() -> (r: olm::Account)
    ensures
        one_time_keys_of(r) =~= Map::empty(),
        fallback_key_of(r) =~= Map::empty(),
        one_time_secrets_of(r) =~= Set::empty(),
        fallback_secrets_of(r) =~= Set::empty(),
        stored_key_count_of(r) == 0,
        fallback_key_counter_of(r) == 0,
        fresh_key_ids_of(r) == u64::MAX + 1,
{
    olm::Account::new()
}

/// Calls `Account::identity_keys` and renders each key with `to_base64`;
/// the Curve25519 text reads back (`from_base64`) as the key it renders.
#[verifier::external_body]
pub(crate) fn account_identity_keys(a: &olm::Account) -> (r: (String, String))
    ensures
        (r.0@, r.1@) == identity_keys_of(*a),
        curve_key_parse(r.0@) matches Some(k) && curve_key_base64_of(k) == r.0@,
{
    let keys = a.identity_keys();
    (keys.curve25519.to_base64(), keys.ed25519.to_base64())
}

/// Calls `Account::generate_one_time_keys`. The new keys are random. Claims:
/// the identity keys and the fallback keys stay as they were; each key id
/// that is new in the unpublished map names a key the account holds; the
/// store grows by at most `count`; and while the store of 5000 keys does
/// not fill up nothing is evicted, so the earlier unpublished key ids stay
/// and the `count` new ids (`next_key_id` onwards, distinct) are added;
/// when moreover the key id counter does not wrap and no id the account
/// holds lies at or above it, the new ids are all new to the map, which
/// grows by exactly `count`. With the store full, each new key evicts the
/// key with the lowest id (`insert_secret_key`); as the new ids lie above
/// every id held, the keys that stay keep their public keys, the store
/// stays at 5000, and up to 5000 new keys all stay.
#[verifier::external_body]
pub(crate) fn account_generate_one_time_keys(a: &mut olm::Account, count: usize)
    ensures
        identity_keys_of(*final(a)) == identity_keys_of(*old(a)),
        fallback_key_of(*final(a)) == fallback_key_of(*old(a)),
        fallback_secrets_of(*final(a)) == fallback_secrets_of(*old(a)),
        fallback_key_counter_of(*final(a)) == fallback_key_counter_of(*old(a)),
        one_time_keys_of(*final(a)).dom().finite(),
        count > 0 ==> one_time_keys_of(*final(a)).dom().len() > 0,
        forall|id: Seq<char>|
            #[trigger] one_time_keys_of(*final(a)).contains_key(id) && !one_time_keys_of(
                *old(a),
            ).contains_key(id) ==> one_time_secrets_of(*final(a)).contains(
                one_time_keys_of(*final(a))[id],
            ),
        stored_key_count_of(*final(a)) <= stored_key_count_of(*old(a)) + count,
        stored_key_count_of(*old(a)) + count <= 5000 ==> {
            &&& one_time_keys_of(*old(a)).dom().subset_of(one_time_keys_of(*final(a)).dom())
            &&& count <= one_time_keys_of(*final(a)).dom().len() <= one_time_keys_of(
                *old(a),
            ).dom().len() + count
        },
        stored_key_count_of(*old(a)) + count <= 5000 && count <= fresh_key_ids_of(*old(a)) ==> {
            &&& one_time_keys_of(*old(a)).submap_of(one_time_keys_of(*final(a)))
            &&& one_time_keys_of(*final(a)).dom().len() == one_time_keys_of(*old(a)).dom().len()
                + count
            &&& one_time_secrets_of(*old(a)).subset_of(one_time_secrets_of(*final(a)))
            &&& stored_key_count_of(*final(a)) == stored_key_count_of(*old(a)) + count
            &&& fresh_key_ids_of(*final(a)) == fresh_key_ids_of(*old(a)) - count
        },
        count <= fresh_key_ids_of(*old(a)) ==> {
            &&& forall|id: Seq<char>|
                #[trigger] one_time_keys_of(*final(a)).contains_key(id) && one_time_keys_of(*old(a)).contains_key(
                    id,
                ) ==> one_time_keys_of(*final(a))[id] == one_time_keys_of(*old(a))[id]
            &&& stored_key_count_of(*old(a)) <= 5000 ==> stored_key_count_of(*final(a)) == if stored_key_count_of(
                *old(a),
            ) + count <= 5000 {
                stored_key_count_of(*old(a)) + count
            } else {
                5000
            }
            &&& count <= 5000 ==> one_time_keys_of(*final(a)).dom().len() >= count
        },
{
    a.generate_one_time_keys(count);
}

/// Calls `Account::one_time_keys` and hands out each entry as the base64
/// key id (`KeyId::to_base64`) and base64 public key. The `HashMap` is
/// walked in no particular order, so the claim is only that the entries
/// are those of the map, each key once; each public key's text reads back
/// as the key it renders.
#[verifier::external_body]
pub(crate) fn account_one_time_keys(a: &olm::Account) -> (r: Vec<(String, String)>)
    ensures
        crate::json::lists_map(crate::json::pairs_view(r@), one_time_keys_of(*a)),
        forall|i: int| 0 <= i < r@.len() ==> (curve_key_parse(#[trigger] r@[i].1@) matches Some(k)
            && curve_key_base64_of(k) == r@[i].1@),
{
    a.one_time_keys().iter().map(|(id, key)| (id.to_base64(), key.to_base64())).collect()
}

/// Calls `Account::mark_keys_as_published`, which clears the unpublished
/// one-time keys and marks the fallback key published; the private keys
/// stay.
#[verifier::external_body]
pub(crate) fn account_mark_keys_as_published(a: &mut olm::Account)
    ensures
        identity_keys_of(*final(a)) == identity_keys_of(*old(a)),
        one_time_secrets_of(*final(a)) == one_time_secrets_of(*old(a)),
        fallback_secrets_of(*final(a)) == fallback_secrets_of(*old(a)),
        stored_key_count_of(*final(a)) == stored_key_count_of(*old(a)),
        fallback_key_counter_of(*final(a)) == fallback_key_counter_of(*old(a)),
        fresh_key_ids_of(*final(a)) >= fresh_key_ids_of(*old(a)),
        one_time_keys_of(*final(a)) =~= Map::empty(),
        fallback_key_of(*final(a)) =~= Map::empty(),
{
    a.mark_keys_as_published();
}

/// Calls `Account::max_number_of_one_time_keys`, which returns the
/// constant `PUBLIC_MAX_ONE_TIME_KEYS`, 50.
#[verifier::external_body]
pub(crate) fn account_max_number_of_one_time_keys(a: &olm::Account) -> (r: usize)
    ensures
        r == 50,
{
    a.max_number_of_one_time_keys()
}

/// Calls `Account::generate_fallback_key`. The new key is random. The call
/// adds one to the 64-bit fallback key counter with `+= 1`, so a counter
/// at `u64::MAX` is left out. Claims: the identity keys and one-time keys
/// stay as they were; exactly one fallback key is now unpublished, and the
/// account holds it; the counter went up by one.
#[verifier::external_body]
pub(crate) fn account_generate_fallback_key(a: &mut olm::Account)
    requires
        fallback_key_counter_of(*old(a)) < u64::MAX,
    ensures
        identity_keys_of(*final(a)) == identity_keys_of(*old(a)),
        one_time_keys_of(*final(a)) == one_time_keys_of(*old(a)),
        one_time_secrets_of(*final(a)) == one_time_secrets_of(*old(a)),
        stored_key_count_of(*final(a)) == stored_key_count_of(*old(a)),
        fallback_key_counter_of(*final(a)) == fallback_key_counter_of(*old(a)) + 1,
        fresh_key_ids_of(*final(a)) == fresh_key_ids_of(*old(a)),
        fallback_key_of(*final(a)).dom().finite(),
        fallback_key_of(*final(a)).dom().len() == 1,
        forall|id: Seq<char>| #[trigger] fallback_key_of(*final(a)).contains_key(id)
            ==> fallback_secrets_of(*final(a)).contains(fallback_key_of(*final(a))[id]),
{
    a.generate_fallback_key();
}

/// Calls `Account::fallback_key` and hands out its entry (at most one) as
/// base64 key id and base64 public key, whose text reads back as the key.
#[verifier::external_body]
pub(crate) fn account_fallback_key(a: &olm::Account) -> (r: Vec<(String, String)>)
    ensures
        crate::json::lists_map(crate::json::pairs_view(r@), fallback_key_of(*a)),
        r@.len() <= 1,
        forall|i: int| 0 <= i < r@.len() ==> (curve_key_parse(#[trigger] r@[i].1@) matches Some(k)
            && curve_key_base64_of(k) == r@[i].1@),
{
    a.fallback_key().iter().map(|(id, key)| (id.to_base64(), key.to_base64())).collect()
}

/// Calls `Account::sign` on the message's UTF-8 bytes and renders the
/// Ed25519 signature with `to_base64`. Ed25519 signing is deterministic.
#[verifier::external_body]
pub(crate) fn account_sign(a: &olm::Account, message: &str) -> (r: String)
    ensures
        r@ == signature_of(*a, message@),
{
    a.sign(message.as_bytes()).to_base64()
}

/// Calls `Account::pickle`.
#[verifier::external_body]
pub(crate) fn account_pickle(a: &olm::Account) -> (r: olm::AccountPickle)
    ensures
        r == account_pickle_of(*a),
{
    a.pickle()
}

/// Calls `serde_json::to_string` on an account pickle.
#[verifier::external_body]
pub(crate) fn account_pickle_to_json(p: &olm::AccountPickle) -> (r: Result<String, String>)
    ensures
        match r {
            Ok(s) => account_pickle_json(*p) == Some(s@),
            Err(_) => account_pickle_json(*p) is None,
        },
{
    match serde_json::to_string(p) {
        Ok(s) => Ok(s),
        Err(e) => Err(e.to_string()),
    }
}

/// Calls `serde_json::from_str` for an account pickle. Besides naming the
/// outcome, the claim is that text written by `serde_json::to_string` for
/// a pickle parses.
#[verifier::external_body]
pub(crate) fn account_pickle_from_json(s: &str) -> (r: Result<olm::AccountPickle, String>)
    ensures
        match r {
            Ok(p) => account_pickle_parse(s@) == Some(p),
            Err(_) => account_pickle_parse(s@) is None,
        },
        forall|p: olm::AccountPickle| #[trigger] account_pickle_json(p) == Some(s@) ==> r is Ok,
{
    match serde_json::from_str::<olm::AccountPickle>(s) {
        Ok(p) => Ok(p),
        Err(e) => Err(e.to_string()),
    }
}

/// Calls `Account::from_pickle`. The claim is that an account restored
/// from the parsed JSON text of an account's pickle has the same identity
/// keys, unpublished keys, private keys, counters and signatures, and
/// answers pre-key messages as the pickled one does (the pickle carries the
/// key pairs, the one-time keys and the fallback keys as they are).
#[verifier::external_body]
pub(crate) fn account_from_pickle(p: olm::AccountPickle) -> (r: olm::Account)
    ensures
        forall|a: olm::Account, s: Seq<char>|
            #![trigger account_pickle_json(account_pickle_of(a)), account_pickle_parse(s)]
            account_pickle_json(account_pickle_of(a)) == Some(s) && account_pickle_parse(s) == Some(p) ==> {
            &&& identity_keys_of(r) == identity_keys_of(a)
            &&& one_time_keys_of(r) == one_time_keys_of(a)
            &&& fallback_key_of(r) == fallback_key_of(a)
            &&& one_time_secrets_of(r) == one_time_secrets_of(a)
            &&& fallback_secrets_of(r) == fallback_secrets_of(a)
            &&& stored_key_count_of(r) == stored_key_count_of(a)
            &&& fallback_key_counter_of(r) == fallback_key_counter_of(a)
            &&& fresh_key_ids_of(r) == fresh_key_ids_of(a)
            &&& forall|m: Seq<char>| #[trigger] signature_of(r, m) == signature_of(a, m)
            &&& forall|c: olm::SessionConfig, k: Curve25519PublicKey, m: olm::PreKeyMessage|
                #[trigger] inbound_outcome_of(r, c, k, m) == inbound_outcome_of(a, c, k, m)
        },
{
    olm::Account::from_pickle(p)
}

/// Calls `Account::create_outbound_session`. The base key is random.
/// Claims: a new outbound session has not received a message, it sends on
/// its first chain, which is active, and all its counters are 0
/// (`Session::new`); its session keys are the account's identity key, the
/// base key and the given one-time key; its shared secret was computed with
/// the given identity key. The call fails only when a Diffie-Hellman result is all zero, which
/// depends on the public keys alone and never happens for keys that some
/// account holds (they come from clamped scalars, so none has small order).
#[verifier::external_body]
pub(crate) fn account_create_outbound_session(
    a: &olm::Account,
    config: olm::SessionConfig,
    identity_key: Curve25519PublicKey,
    one_time_key: Curve25519PublicKey,
) -> (r: Result<olm::Session, String>)
    ensures
        r matches Ok(s) ==> !has_received_of(s) && sending_chain_active_of(s) && olm_first_chain_of(s)
            && olm_encrypt_succeeds_of(s) && olm_counter_of(s) == 0,
        r matches Ok(s) ==> olm_session_keys_of(s).0 == identity_keys_of(*a).0
            && olm_session_keys_of(s).2 == curve_key_base64_of(one_time_key) && olm_peer_identity_of(
            s,
        ) == curve_key_base64_of(identity_key),
        forall|b: olm::Account|
            #![trigger identity_keys_of(b), holds_one_time_key(b, curve_key_base64_of(one_time_key))]
            identity_keys_of(b).0 == curve_key_base64_of(identity_key) && holds_one_time_key(
                b,
                curve_key_base64_of(one_time_key),
            ) ==> r is Ok,
{
    match a.create_outbound_session(config, identity_key, one_time_key) {
        Ok(s) => Ok(s),
        Err(e) => Err(e.to_string()),
    }
}

/// Calls `Account::create_inbound_session` and hands out the new session
/// and the plaintext. Claims: the plaintext is named; on error the account
/// is left as it was (every error path returns before the one-time key is
/// removed); a one-time key the account does not hold gives an error; the
/// identity keys and fallback keys never change; on success the one-time
/// key the message names is used up (the unpublished keys only lose
/// entries), and the session has received a message (it starts with the
/// sender's receiving chain, advanced to at most `MAX_MESSAGE_GAP` + 1,
/// and the message it was made from no longer decrypts in it); its session
/// keys, hence its session id, are the message's.
#[verifier::external_body]
pub(crate) fn account_create_inbound_session(
    a: &mut olm::Account,
    config: olm::SessionConfig,
    their_identity_key: Curve25519PublicKey,
    message: &olm::PreKeyMessage,
) -> (r: Result<(olm::Session, Vec<u8>), String>)
    ensures
        match r {
            Ok(created) => inbound_outcome_of(*old(a), config, their_identity_key, *message)
                == Some((created.0, created.1@)),
            Err(_) => inbound_outcome_of(*old(a), config, their_identity_key, *message) is None,
        },
        r is Err ==> *final(a) == *old(a),
        identity_keys_of(*final(a)) == identity_keys_of(*old(a)),
        fallback_key_of(*final(a)) == fallback_key_of(*old(a)),
        one_time_keys_of(*final(a)).submap_of(one_time_keys_of(*old(a))),
        fallback_secrets_of(*final(a)) == fallback_secrets_of(*old(a)),
        fallback_key_counter_of(*final(a)) == fallback_key_counter_of(*old(a)),
        stored_key_count_of(*final(a)) <= stored_key_count_of(*old(a)),
        fresh_key_ids_of(*final(a)) >= fresh_key_ids_of(*old(a)),
        !holds_one_time_key(*old(a), prekey_one_time_key_of(*message)) ==> r is Err,
        r is Ok ==> one_time_secrets_of(*final(a)) == one_time_secrets_of(*old(a)).remove(
            prekey_one_time_key_of(*message),
        ),
        r matches Ok(created) ==> has_received_of(created.0) && olm_counter_of(created.0)
            <= max_message_gap() + 1 && prekey_plaintext_of(created.0, *message) is None
            && olm_session_id_of(created.0) == prekey_session_id_of(*message),
{
    match a.create_inbound_session(config, their_identity_key, message) {
        Ok(created) => Ok((created.session, created.plaintext)),
        Err(e) => Err(e.to_string()),
    }
}

/// `SessionConfig::version`.
pub uninterp spec fn olm_config_version_of(c: olm::SessionConfig) -> u8;

/// The Olm session configuration of libolm's wire format
/// (`SessionConfig::version_1`). Claims: its version is 1, and it is the
/// only configuration of version 1 (the struct holds nothing but the
/// version, and without the `experimental-session-config` feature, which
/// this crate does not enable, version 1 is its only value).
pub assume_specification[ olm::SessionConfig::version_1 ]() -> (r: olm::SessionConfig)
    ensures
        olm_config_version_of(r) == 1,
        forall|c: olm::SessionConfig| #[trigger] olm_config_version_of(c) == 1 ==> c == r,
;

/// The configuration of version 1.
pub open spec fn olm_config_v1() -> olm::SessionConfig {
    choose|c: olm::SessionConfig| olm_config_version_of(c) == 1
}

// ── Curve25519 keys and Olm messages ────────────────────────────────────

/// Calls `Curve25519PublicKey::from_base64`.
#[verifier::external_body]
pub(crate) fn curve_key_from_base64(s: &str) -> (r: Result<Curve25519PublicKey, String>)
    ensures
        match r {
            Ok(k) => curve_key_parse(s@) == Some(k),
            Err(_) => curve_key_parse(s@) is None,
        },
{
    match Curve25519PublicKey::from_base64(s) {
        Ok(k) => Ok(k),
        Err(e) => Err(e.to_string()),
    }
}

/// Calls `Curve25519PublicKey::to_base64`.
#[verifier::external_body]
pub(crate) fn curve_key_to_base64(k: &Curve25519PublicKey) -> (r: String)
    ensures
        r@ == curve_key_base64_of(*k),
{
    k.to_base64()
}

/// Calls `PreKeyMessage::from_base64`.
#[verifier::external_body]
pub(crate) fn prekey_from_base64(s: &str) -> (r: Result<olm::PreKeyMessage, String>)
    ensures
        match r {
            Ok(m) => prekey_parse(s@) == Some(m),
            Err(_) => prekey_parse(s@) is None,
        },
{
    match olm::PreKeyMessage::from_base64(s) {
        Ok(m) => Ok(m),
        Err(e) => Err(e.to_string()),
    }
}

/// Calls `PreKeyMessage::identity_key`.
#[verifier::external_body]
pub(crate) fn prekey_identity_key(m: &olm::PreKeyMessage) -> (r: Curve25519PublicKey)
    ensures
        r == prekey_sender_of(*m),
{
    m.identity_key()
}

/// Calls `PreKeyMessage::to_base64`; the text reads back as the message
/// (`from_base64` decodes every field that `to_bytes` encodes).
#[verifier::external_body]
pub(crate) fn prekey_to_base64(m: &olm::PreKeyMessage) -> (r: String)
    ensures
        r@ == prekey_base64_of(*m),
        prekey_parse(r@) == Some(*m),
{
    m.to_base64()
}

/// Calls `Message::from_base64`.
#[verifier::external_body]
pub(crate) fn normal_from_base64(s: &str) -> (r: Result<olm::Message, String>)
    ensures
        match r {
            Ok(m) => normal_parse(s@) == Some(m),
            Err(_) => normal_parse(s@) is None,
        },
{
    match olm::Message::from_base64(s) {
        Ok(m) => Ok(m),
        Err(e) => Err(e.to_string()),
    }
}

/// Calls `Message::to_base64`; the text reads back as the message.
#[verifier::external_body]
pub(crate) fn normal_to_base64(m: &olm::Message) -> (r: String)
    ensures
        r@ == normal_base64_of(*m),
        normal_parse(r@) == Some(*m),
{
    m.to_base64()
}

// ── olm::Session ────────────────────────────────────────────────────────

/// Calls `Session::encrypt` on the plaintext's UTF-8 bytes and tells the
/// resulting `OlmMessage` apart by kind. The call adds one to the sending
/// chain index (and, when it first activates the sending ratchet, to the
/// ratchet count) with `+= 1`, so a counter at `u64::MAX` is left out.
/// Claims:
/// - it succeeds exactly when the session's sending ratchet is active or
///   can be activated (`NonContributoryKey` is its only error); while the
///   ratchet is active its message is the one named for this state and
///   plaintext (the message key comes from the chain key, and the cipher
///   draws nothing fresh); afterwards the ratchet is active;
/// - a message is a pre-key message exactly when the session has not yet
///   received one, and then carries the session's keys, hence its session
///   id and its identity key; every message carries the ratchet key of the
///   chain it was sent on;
/// - the session keys, the peer and `has_received_message` stay; the
///   counters grow by at most one; the session keeps its first chain;
/// - every session paired with this one whose lag allows it decrypts the
///   message to the plaintext, and every paired session stays paired one
///   step further behind (a new chain is derived by the other end from step
///   0, and nothing this end receives changes);
/// - while the session still sends on its first chain, a pre-key message it
///   writes at chain index `MAX_MESSAGE_GAP` or below is answered with this
///   plaintext by every account that holds the peer's identity key and the
///   one-time key the session was made with, and the session that account
///   makes is paired with this one with no lag either way.
#[verifier::external_body]
pub(crate) fn session_encrypt(s: &mut olm::Session, plaintext: &str) -> (r: Result<OlmMessageParts, String>)
    requires
        olm_counter_of(*old(s)) < u64::MAX,
    ensures
        r is Ok <==> olm_encrypt_succeeds_of(*old(s)),
        sending_chain_active_of(*old(s)) ==> (r matches Ok(m) && olm_message_parts_view(m)
            == olm_active_message_of(*old(s), plaintext@)),
        r is Ok ==> sending_chain_active_of(*final(s)) && olm_encrypt_succeeds_of(*final(s)),
        r is Err ==> *final(s) == *old(s),
        r matches Ok(m) ==> (m is PreKey <==> !has_received_of(*old(s))),
        r matches Ok(m) ==> (m matches OlmMessageParts::PreKey(x) ==> prekey_session_id_of(x)
            == olm_session_id_of(*old(s)) && curve_key_base64_of(prekey_sender_of(x))
            == olm_session_keys_of(*old(s)).0),
        r matches Ok(m) ==> olm_sending_key_of(*final(s)) == Some(olm_message_ratchet_key(m)),
        olm_session_id_of(*final(s)) == olm_session_id_of(*old(s)),
        has_received_of(*final(s)) == has_received_of(*old(s)),
        olm_session_keys_of(*final(s)) == olm_session_keys_of(*old(s)),
        olm_peer_identity_of(*final(s)) == olm_peer_identity_of(*old(s)),
        olm_counter_of(*final(s)) <= olm_counter_of(*old(s)) + 1,
        olm_first_chain_of(*old(s)) ==> olm_first_chain_of(*final(s)),
        r matches Ok(m) ==> olm_reaches_peers(
            *old(s),
            *final(s),
            m,
            vstd::utf8::encode_utf8(plaintext@),
        ),
        r matches Ok(m) ==> (m matches OlmMessageParts::PreKey(x) ==> (olm_first_chain_of(*old(s))
            && olm_counter_of(*old(s)) <= max_message_gap() ==> forall|b: olm::Account|
            identity_keys_of(b).0 == olm_peer_identity_of(*old(s)) && holds_one_time_key(
                b,
                olm_session_keys_of(*old(s)).2,
            ) ==> (#[trigger] inbound_outcome_of(b, olm_config_v1(), prekey_sender_of(x), x) matches Some(
                o,
            ) && o.1 == vstd::utf8::encode_utf8(plaintext@) && olm_paired_of(*final(s), o.0) == Some(
                (0nat, 0nat),
            ) && olm_encrypt_succeeds_of(o.0)))),
{
    match s.encrypt(plaintext.as_bytes()) {
        Ok(olm::OlmMessage::PreKey(m)) => Ok(OlmMessageParts::PreKey(m)),
        Ok(olm::OlmMessage::Normal(m)) => Ok(OlmMessageParts::Normal(m)),
        Err(e) => Err(e.to_string()),
    }
}

/// Calls `Session::decrypt` on a pre-key message. The call may advance a
/// receiving chain by up to `MAX_MESSAGE_GAP` + 1 indices and the ratchet
/// count by two, each with `+= 1`; counters that would pass `u64::MAX` are
/// left out. Claims:
/// - the plaintext is named; the session id, the session keys and the peer
///   never change; once the session has received a message it keeps having
///   received one; a session that can encrypt still can;
/// - after a success it has received a message, the same message no longer
///   decrypts (the message key was used up and is not kept), it no longer
///   sends on its first chain, and it is still paired with every session
///   that sends on the message's ratchet key, each lag no larger;
/// - a failure leaves `has_received_message` and every pairing as they
///   were; it changes nothing unless the sending ratchet was inactive, which
///   `advance` then activates (with a fresh key, on the chain the other end
///   derives at step 0) before the decryption fails.
#[verifier::external_body]
pub(crate) fn session_decrypt_prekey(s: &mut olm::Session, m: olm::PreKeyMessage) -> (r: Result<Vec<u8>, String>)
    requires
        olm_has_room(*old(s)),
    ensures
        match r {
            Ok(p) => prekey_plaintext_of(*old(s), m) == Some(p@),
            Err(_) => prekey_plaintext_of(*old(s), m) is None,
        },
        olm_session_id_of(*final(s)) == olm_session_id_of(*old(s)),
        olm_session_keys_of(*final(s)) == olm_session_keys_of(*old(s)),
        olm_peer_identity_of(*final(s)) == olm_peer_identity_of(*old(s)),
        olm_counter_of(*final(s)) <= olm_counter_of(*old(s)) + max_message_gap() + 1,
        has_received_of(*old(s)) ==> has_received_of(*final(s)),
        olm_encrypt_succeeds_of(*old(s)) ==> olm_encrypt_succeeds_of(*final(s)),
        r is Ok ==> has_received_of(*final(s)) && prekey_plaintext_of(*final(s), m) is None
            && !olm_first_chain_of(*final(s)),
        r is Ok ==> olm_pairing_advanced(*old(s), *final(s), prekey_ratchet_key_of(m)),
        r is Err ==> has_received_of(*final(s)) == has_received_of(*old(s)) && olm_pairing_kept(
            *old(s),
            *final(s),
        ),
        r is Err && sending_chain_active_of(*old(s)) ==> *final(s) == *old(s),
{
    match s.decrypt(&olm::OlmMessage::PreKey(m)) {
        Ok(p) => Ok(p),
        Err(e) => Err(e.to_string()),
    }
}

/// Calls `Session::decrypt` on a normal message, with the same claims as
/// for a pre-key message.
#[verifier::external_body]
pub(crate) fn session_decrypt_normal(s: &mut olm::Session, m: olm::Message) -> (r: Result<Vec<u8>, String>)
    requires
        olm_has_room(*old(s)),
    ensures
        match r {
            Ok(p) => normal_plaintext_of(*old(s), m) == Some(p@),
            Err(_) => normal_plaintext_of(*old(s), m) is None,
        },
        olm_session_id_of(*final(s)) == olm_session_id_of(*old(s)),
        olm_session_keys_of(*final(s)) == olm_session_keys_of(*old(s)),
        olm_peer_identity_of(*final(s)) == olm_peer_identity_of(*old(s)),
        olm_counter_of(*final(s)) <= olm_counter_of(*old(s)) + max_message_gap() + 1,
        has_received_of(*old(s)) ==> has_received_of(*final(s)),
        olm_encrypt_succeeds_of(*old(s)) ==> olm_encrypt_succeeds_of(*final(s)),
        r is Ok ==> has_received_of(*final(s)) && normal_plaintext_of(*final(s), m) is None
            && !olm_first_chain_of(*final(s)),
        r is Ok ==> olm_pairing_advanced(*old(s), *final(s), normal_ratchet_key_of(m)),
        r is Err ==> has_received_of(*final(s)) == has_received_of(*old(s)) && olm_pairing_kept(
            *old(s),
            *final(s),
        ),
        r is Err && sending_chain_active_of(*old(s)) ==> *final(s) == *old(s),
{
    match s.decrypt(&olm::OlmMessage::Normal(m)) {
        Ok(p) => Ok(p),
        Err(e) => Err(e.to_string()),
    }
}

/// Calls `Session::session_id`.
#[verifier::external_body]
pub(crate) fn session_id(s: &olm::Session) -> (r: String)
    ensures
        r@ == olm_session_id_of(*s),
{
    s.session_id()
}

/// Calls `Session::has_received_message`.
#[verifier::external_body]
pub(crate) fn session_has_received_message(s: &olm::Session) -> (r: bool)
    ensures
        r == has_received_of(*s),
{
    s.has_received_message()
}

/// Calls `Session::pickle`.
#[verifier::external_body]
pub(crate) fn session_pickle(s: &olm::Session) -> (r: olm::SessionPickle)
    ensures
        r == session_pickle_of(*s),
{
    s.pickle()
}

/// Calls `serde_json::to_string` on a session pickle.
#[verifier::external_body]
pub(crate) fn session_pickle_to_json(p: &olm::SessionPickle) -> (r: Result<String, String>)
    ensures
        match r {
            Ok(s) => session_pickle_json(*p) == Some(s@),
            Err(_) => session_pickle_json(*p) is None,
        },
{
    match serde_json::to_string(p) {
        Ok(s) => Ok(s),
        Err(e) => Err(e.to_string()),
    }
}

/// Calls `serde_json::from_str` for a session pickle; text written for a
/// pickle parses.
#[verifier::external_body]
pub(crate) fn session_pickle_from_json(s: &str) -> (r: Result<olm::SessionPickle, String>)
    ensures
        match r {
            Ok(p) => session_pickle_parse(s@) == Some(p),
            Err(_) => session_pickle_parse(s@) is None,
        },
        forall|p: olm::SessionPickle| #[trigger] session_pickle_json(p) == Some(s@) ==> r is Ok,
{
    match serde_json::from_str::<olm::SessionPickle>(s) {
        Ok(p) => Ok(p),
        Err(e) => Err(e.to_string()),
    }
}

/// Calls `Session::from_pickle`. The claim is that a session restored from
/// the parsed JSON text of a session's pickle is in the same state as far
/// as every name here can tell: the pickle carries the session keys, the
/// sending ratchet and the receiving chains as they are.
#[verifier::external_body]
pub(crate) fn session_from_pickle(p: olm::SessionPickle) -> (r: olm::Session)
    ensures
        forall|s: olm::Session, t: Seq<char>|
            #![trigger session_pickle_json(session_pickle_of(s)), session_pickle_parse(t)]
            session_pickle_json(session_pickle_of(s)) == Some(t) && session_pickle_parse(t) == Some(p) ==> {
            &&& olm_session_id_of(r) == olm_session_id_of(s)
            &&& has_received_of(r) == has_received_of(s)
            &&& olm_session_keys_of(r) == olm_session_keys_of(s)
            &&& olm_peer_identity_of(r) == olm_peer_identity_of(s)
            &&& olm_counter_of(r) == olm_counter_of(s)
            &&& sending_chain_active_of(r) == sending_chain_active_of(s)
            &&& olm_first_chain_of(r) == olm_first_chain_of(s)
            &&& forall|q: Seq<char>| #[trigger] olm_active_message_of(r, q) == olm_active_message_of(s, q)
            &&& forall|m: olm::PreKeyMessage| #[trigger] prekey_plaintext_of(r, m) == prekey_plaintext_of(s, m)
            &&& forall|m: olm::Message| #[trigger] normal_plaintext_of(r, m) == normal_plaintext_of(s, m)
            &&& olm_sending_key_of(r) == olm_sending_key_of(s)
            &&& olm_encrypt_succeeds_of(r) == olm_encrypt_succeeds_of(s)
            &&& forall|x: olm::Session| #[trigger] olm_paired_of(r, x) == olm_paired_of(s, x)
            &&& forall|x: olm::Session| #[trigger] olm_paired_of(x, r) == olm_paired_of(x, s)
        },
{
    olm::Session::from_pickle(p)
}

} // verus!
