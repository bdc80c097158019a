//! Olm (one-to-one) accounts and sessions.

use vstd::prelude::*;

use vodozemac::olm;
use vodozemac::Curve25519PublicKey;

use crate::error::VodozemacError;
use crate::json::{
    curve_key_map_json, keys_ascending, lists_map, sorted_listing, identity_keys_json, olm_message_json, write_curve_key_map,
    write_identity_keys, write_olm_message,
};
use crate::olm_bindings::{
    account_create_inbound_session, account_create_outbound_session, account_fallback_key,
    account_from_pickle, account_generate_fallback_key, account_generate_one_time_keys,
    account_identity_keys, account_mark_keys_as_published, account_max_number_of_one_time_keys,
    account_new, account_one_time_keys, account_pickle, account_pickle_from_json,
    account_pickle_json, account_pickle_of, account_pickle_parse, account_pickle_to_json,
    account_sign, curve_key_base64_of, curve_key_from_base64, curve_key_parse,
    curve_key_to_base64, fallback_key_counter_of, fallback_key_of, fallback_secrets_of,
    fresh_key_ids_of, has_received_of, holds_one_time_key, identity_keys_of, inbound_outcome_of,
    inbound_plaintext_of, normal_ratchet_key_of, olm_encrypt_succeeds_of, olm_has_room,
    olm_message_parts_view, olm_message_ratchet_key, olm_paired_of, olm_pairing_advanced,
    olm_pairing_kept, olm_reaches_peers, olm_sending_key_of, prekey_ratchet_key_of,
    max_message_gap, olm_active_message_of, olm_counter_of, olm_first_chain_of,
    olm_peer_identity_of, olm_session_keys_of, one_time_secrets_of, sending_chain_active_of,
    stored_key_count_of, normal_base64_of, normal_from_base64, normal_parse,
    normal_plaintext_of, normal_to_base64, olm_config_v1, prekey_one_time_key_of, prekey_session_id_of, olm_config_version_of,
    olm_session_id_of, one_time_keys_of, prekey_base64_of, prekey_from_base64,
    prekey_identity_key, prekey_parse, prekey_plaintext_of, prekey_sender_of,
    prekey_to_base64, session_decrypt_normal, session_decrypt_prekey, session_encrypt,
    session_from_pickle, session_has_received_message, session_id, session_pickle,
    session_pickle_from_json, session_pickle_json, session_pickle_of, session_pickle_parse,
    session_pickle_to_json, signature_of, OlmMessageParts,
};
use crate::text::utf8_decode;

verus! {

broadcast use {vstd::utf8::encode_utf8_valid_utf8, vstd::utf8::encode_utf8_decode_utf8};

/// Decodes a base64 Curve25519 public key.
fn parse_curve(b64: &str) -> (r: Result<Curve25519PublicKey, VodozemacError>)
    ensures
        match curve_key_parse(b64@) {
            Some(k) => r == Ok::<Curve25519PublicKey, VodozemacError>(k),
            None => r matches Err(VodozemacError::InvalidBase64 { .. }),
        },
{
    match curve_key_from_base64(b64) {
        Ok(k) => Ok(k),
        Err(reason) => Err(VodozemacError::InvalidBase64 { reason }),
    }
}

/// What a decryption returns, given the plaintext bytes the cipher gave
/// (`None` when decryption failed): the text if it is valid UTF-8.
pub open spec fn plaintext_outcome(r: Result<String, VodozemacError>, bytes: Option<Seq<u8>>) -> bool {
    match bytes {
        None => r matches Err(VodozemacError::DecryptError { .. }),
        Some(b) => if vstd::utf8::valid_utf8(b) {
            r matches Ok(s) && s@ == vstd::utf8::decode_utf8(b)
        } else {
            r matches Err(VodozemacError::InvalidUtf8 { .. })
        },
    }
}

/// A decryption hands out the whole text its bytes encode: whatever their
/// length, the text returned encodes back to exactly the decrypted bytes.
pub proof fn lemma_plaintext_outcome_is_whole(r: Result<String, VodozemacError>, b: Seq<u8>)
    requires
        plaintext_outcome(r, Some(b)),
        r is Ok,
    ensures
        r matches Ok(s) && vstd::utf8::encode_utf8(s@) == b,
{
    vstd::utf8::decode_utf8_encode_utf8(b);
}

/// Decrypting what the peer encrypted gives back the very text it
/// encrypted, of any length.
pub proof fn lemma_plaintext_outcome_of_encrypted(r: Result<String, VodozemacError>, p: Seq<char>)
    requires
        plaintext_outcome(r, Some(vstd::utf8::encode_utf8(p))),
    ensures
        r matches Ok(s) && s@ == p,
{
}

/// Two accounts are alike in all that the library can observe or rely on:
/// the same public keys (identity keys, unpublished one-time keys and
/// fallback key), the same private keys and counters, the same signatures,
/// and the same answer to every pre-key message.
pub open spec fn same_account(a: olm::Account, b: olm::Account) -> bool {
    &&& identity_keys_of(a) == identity_keys_of(b)
    &&& one_time_keys_of(a) == one_time_keys_of(b)
    &&& fallback_key_of(a) == fallback_key_of(b)
    &&& one_time_secrets_of(a) == one_time_secrets_of(b)
    &&& fallback_secrets_of(a) == fallback_secrets_of(b)
    &&& stored_key_count_of(a) == stored_key_count_of(b)
    &&& fallback_key_counter_of(a) == fallback_key_counter_of(b)
    &&& fresh_key_ids_of(a) == fresh_key_ids_of(b)
    &&& forall|m: Seq<char>| #[trigger] signature_of(a, m) == signature_of(b, m)
    &&& forall|c: olm::SessionConfig, k: Curve25519PublicKey, m: olm::PreKeyMessage|
        #[trigger] inbound_outcome_of(a, c, k, m) == inbound_outcome_of(b, c, k, m)
}

/// Two sessions are alike in all that the library can observe or rely on:
/// id, session keys, peer, counters, ratchet state, and what they encrypt
/// and decrypt.
pub open spec fn same_session(a: olm::Session, b: olm::Session) -> bool {
    &&& olm_session_id_of(a) == olm_session_id_of(b)
    &&& has_received_of(a) == has_received_of(b)
    &&& olm_session_keys_of(a) == olm_session_keys_of(b)
    &&& olm_peer_identity_of(a) == olm_peer_identity_of(b)
    &&& olm_counter_of(a) == olm_counter_of(b)
    &&& sending_chain_active_of(a) == sending_chain_active_of(b)
    &&& olm_first_chain_of(a) == olm_first_chain_of(b)
    &&& forall|q: Seq<char>| #[trigger] olm_active_message_of(a, q) == olm_active_message_of(b, q)
    &&& forall|m: olm::PreKeyMessage| #[trigger] prekey_plaintext_of(a, m) == prekey_plaintext_of(b, m)
    &&& forall|m: olm::Message| #[trigger] normal_plaintext_of(a, m) == normal_plaintext_of(b, m)
    &&& olm_sending_key_of(a) == olm_sending_key_of(b)
    &&& olm_encrypt_succeeds_of(a) == olm_encrypt_succeeds_of(b)
    &&& forall|x: olm::Session| #[trigger] olm_paired_of(a, x) == olm_paired_of(b, x)
    &&& forall|x: olm::Session| #[trigger] olm_paired_of(x, a) == olm_paired_of(x, b)
}

/// The session that the account `b` makes from the base64 pre-key message
/// `body` is paired with the session `a` with no lag either way, and can
/// encrypt.
pub open spec fn pairs_from(b: olm::Account, body: Seq<char>, a: olm::Session) -> bool {
    prekey_parse(body) matches Some(x) && inbound_outcome_of(
        b,
        olm_config_v1(),
        prekey_sender_of(x),
        x,
    ) matches Some(o) && olm_paired_of(a, o.0) == Some((0nat, 0nat)) && olm_encrypt_succeeds_of(o.0)
}

/// The JSON that `Session::encrypt` returns for an encrypted message.
pub open spec fn olm_message_json_of(m: OlmMessageParts) -> Seq<char> {
    olm_message_json(
        if m is PreKey {
            0
        } else {
            1
        },
        olm_message_parts_view(m).1,
    )
}

/// The base64 of an encrypted message reads back as the message.
pub open spec fn olm_message_reads_back(m: OlmMessageParts) -> bool {
    match m {
        OlmMessageParts::PreKey(x) => prekey_parse(prekey_base64_of(x)) == Some(x),
        OlmMessageParts::Normal(x) => normal_parse(normal_base64_of(x)) == Some(x),
    }
}

/// The account `b` answers the base64 pre-key message `body` with the
/// plaintext `p`.
pub open spec fn reads_back(b: olm::Account, body: Seq<char>, p: Seq<char>) -> bool {
    prekey_parse(body) matches Some(x) && inbound_plaintext_of(
        b,
        olm_config_v1(),
        prekey_sender_of(x),
        x,
    ) == Some(vstd::utf8::encode_utf8(p))
}

/// When a listing of a key map gives, for each entry, a public key text
/// that reads back as a Curve25519 key, every value of the map does.
proof fn lemma_listed_keys_read_back(entries: Seq<(String, String)>, m: Map<Seq<char>, Seq<char>>)
    requires
        lists_map(crate::json::pairs_view(entries), m),
        forall|i: int| 0 <= i < entries.len() ==> (curve_key_parse(#[trigger] entries[i].1@) matches Some(k)
            && curve_key_base64_of(k) == entries[i].1@),
    ensures
        forall|id: Seq<char>| #[trigger]
            m.contains_key(id) ==> (curve_key_parse(m[id]) matches Some(k) && curve_key_base64_of(k)
                == m[id]),
{
    assert forall|id: Seq<char>| #[trigger] m.contains_key(id) implies (curve_key_parse(m[id]) matches Some(k)
        && curve_key_base64_of(k) == m[id]) by {
        crate::json::lemma_listing_covers(crate::json::pairs_view(entries), m, id);
        let i = choose|i: int| 0 <= i < entries.len() && crate::json::pairs_view(entries)[i].0 == id;
        assert(crate::json::pairs_view(entries)[i] == (entries[i].0@, entries[i].1@));
    }
}

/// An Olm account: the device's identity keys, one-time keys and fallback
/// key.
pub struct Account {
    inner: olm::Account,
}

impl View for Account {
    type V = olm::Account;

    closed spec fn view(&self) -> olm::Account {
        self.inner
    }
}

impl Account {
    /// A new account with fresh identity keys and no unpublished keys.
    pub fn new() -> (r: Account)
        ensures
            one_time_keys_of(r@) =~= Map::empty(),
            fallback_key_of(r@) =~= Map::empty(),
            one_time_secrets_of(r@) =~= Set::empty(),
            fallback_secrets_of(r@) =~= Set::empty(),
            stored_key_count_of(r@) == 0,
            fallback_key_counter_of(r@) == 0,
            fresh_key_ids_of(r@) == u64::MAX + 1,
    {
        Account { inner: account_new() }
    }

    /// Restores an account from the JSON pickle that `pickle()` produces.
    /// Restoring the pickle of an account gives back an account alike in
    /// every observable respect.
    pub fn from_pickle(pickle: String) -> (r: Result<Account, VodozemacError>)
        ensures
            account_pickle_parse(pickle@) is None ==> r matches Err(
                VodozemacError::InvalidPickle { .. },
            ),
            account_pickle_parse(pickle@) is Some ==> r is Ok,
            forall|b: olm::Account| #[trigger]
                account_pickle_json(account_pickle_of(b)) == Some(pickle@) ==> (r matches Ok(a)
                    && same_account(a@, b)),
    {
        let parsed = match account_pickle_from_json(pickle.as_str()) {
            Ok(p) => p,
            Err(reason) => {
                return Err(VodozemacError::InvalidPickle { reason });
            },
        };
        Ok(Account { inner: account_from_pickle(parsed) })
    }

    /// `{"curve25519":"<base64>","ed25519":"<base64>"}`.
    pub fn identity_keys(&self) -> (r: Result<String, VodozemacError>)
        ensures
            r matches Ok(s) && s@ == identity_keys_json(
                identity_keys_of(self@).0,
                identity_keys_of(self@).1,
            ),
            curve_key_parse(identity_keys_of(self@).0) matches Some(k) && curve_key_base64_of(k)
                == identity_keys_of(self@).0,
    {
        let (curve25519, ed25519) = account_identity_keys(&self.inner);
        write_identity_keys(curve25519.as_str(), ed25519.as_str())
    }

    /// Generates `count` new one-time keys; they are unpublished until
    /// `mark_keys_as_published`. While the store of 5000 private keys does
    /// not fill up, the earlier unpublished keys stay and `count` new ones,
    /// held by the account, join them.
    pub fn generate_one_time_keys(&mut self, count: u32) -> (r: Result<(), VodozemacError>)
        ensures
            r is Ok,
            identity_keys_of(final(self)@) == identity_keys_of(old(self)@),
            fallback_key_of(final(self)@) == fallback_key_of(old(self)@),
            fallback_secrets_of(final(self)@) == fallback_secrets_of(old(self)@),
            fallback_key_counter_of(final(self)@) == fallback_key_counter_of(old(self)@),
            one_time_keys_of(final(self)@).dom().finite(),
            count > 0 ==> one_time_keys_of(final(self)@).dom().len() > 0,
            forall|id: Seq<char>|
                #[trigger] one_time_keys_of(final(self)@).contains_key(id) && !one_time_keys_of(
                    old(self)@,
                ).contains_key(id) ==> one_time_secrets_of(final(self)@).contains(
                    one_time_keys_of(final(self)@)[id],
                ),
            stored_key_count_of(old(self)@) + count <= 5000 && count <= fresh_key_ids_of(old(self)@)
                ==> {
                &&& one_time_keys_of(old(self)@).submap_of(one_time_keys_of(final(self)@))
                &&& one_time_keys_of(final(self)@).dom().len() == one_time_keys_of(
                    old(self)@,
                ).dom().len() + count
                &&& one_time_secrets_of(old(self)@).subset_of(one_time_secrets_of(final(self)@))
                &&& stored_key_count_of(final(self)@) == stored_key_count_of(old(self)@) + count
                &&& fresh_key_ids_of(final(self)@) == fresh_key_ids_of(old(self)@) - count
            },
            count <= fresh_key_ids_of(old(self)@) ==> {
                &&& forall|id: Seq<char>|
                    #[trigger] one_time_keys_of(final(self)@).contains_key(id) && one_time_keys_of(old(self)@).contains_key(
                        id,
                    ) ==> one_time_keys_of(final(self)@)[id] == one_time_keys_of(old(self)@)[id]
                &&& stored_key_count_of(old(self)@) <= 5000 ==> stored_key_count_of(final(self)@) == if stored_key_count_of(
                    old(self)@,
                ) + count <= 5000 {
                    stored_key_count_of(old(self)@) + count
                } else {
                    5000
                }
                &&& count <= 5000 ==> one_time_keys_of(final(self)@).dom().len() >= count
            },
    {
        account_generate_one_time_keys(&mut self.inner, count as usize);
        Ok(())
    }

    /// The unpublished one-time keys as
    /// `{"curve25519":{"<key id>":"<public key>",...}}`, each key id once,
    /// ascending; each public key reads back as a Curve25519 key.
    pub fn one_time_keys(&self) -> (r: Result<String, VodozemacError>)
        ensures
            r matches Ok(s) && s@ == curve_key_map_json(one_time_keys_of(self@)),
            lists_map(sorted_listing(one_time_keys_of(self@)), one_time_keys_of(self@)),
            keys_ascending(sorted_listing(one_time_keys_of(self@))),
            forall|id: Seq<char>| #[trigger]
                one_time_keys_of(self@).contains_key(id) ==> (curve_key_parse(
                    one_time_keys_of(self@)[id],
                ) matches Some(k) && curve_key_base64_of(k) == one_time_keys_of(self@)[id]),
    {
        let entries = account_one_time_keys(&self.inner);
        proof {
            lemma_listed_keys_read_back(entries@, one_time_keys_of(self@));
        }
        write_curve_key_map(entries, Ghost(one_time_keys_of(self@)))
    }

    /// Marks all unpublished one-time keys and the fallback key published.
    pub fn mark_keys_as_published(&mut self) -> (r: Result<(), VodozemacError>)
        ensures
            r is Ok,
            identity_keys_of(final(self)@) == identity_keys_of(old(self)@),
            one_time_secrets_of(final(self)@) == one_time_secrets_of(old(self)@),
            fallback_secrets_of(final(self)@) == fallback_secrets_of(old(self)@),
            stored_key_count_of(final(self)@) == stored_key_count_of(old(self)@),
            fallback_key_counter_of(final(self)@) == fallback_key_counter_of(old(self)@),
            fresh_key_ids_of(final(self)@) >= fresh_key_ids_of(old(self)@),
            one_time_keys_of(final(self)@) =~= Map::empty(),
            fallback_key_of(final(self)@) =~= Map::empty(),
    {
        account_mark_keys_as_published(&mut self.inner);
        Ok(())
    }

    /// How many one-time keys a client should keep published.
    pub fn max_number_of_one_time_keys(&self) -> (r: Result<u32, VodozemacError>)
        ensures
            r == Ok::<u32, VodozemacError>(50),
    {
        let n = account_max_number_of_one_time_keys(&self.inner);
        Ok(n as u32)
    }

    /// Generates a new fallback key, which replaces any unpublished one and
    /// is unpublished until `mark_keys_as_published`. The account's 64-bit
    /// fallback key counter must not be at its maximum.
    pub fn generate_fallback_key(&mut self) -> (r: Result<(), VodozemacError>)
        requires
            fallback_key_counter_of(old(self)@) < u64::MAX,
        ensures
            r is Ok,
            identity_keys_of(final(self)@) == identity_keys_of(old(self)@),
            one_time_keys_of(final(self)@) == one_time_keys_of(old(self)@),
            one_time_secrets_of(final(self)@) == one_time_secrets_of(old(self)@),
            stored_key_count_of(final(self)@) == stored_key_count_of(old(self)@),
            fresh_key_ids_of(final(self)@) == fresh_key_ids_of(old(self)@),
            fallback_key_counter_of(final(self)@) == fallback_key_counter_of(old(self)@) + 1,
            fallback_key_of(final(self)@).dom().finite(),
            fallback_key_of(final(self)@).dom().len() == 1,
            forall|id: Seq<char>| #[trigger] fallback_key_of(final(self)@).contains_key(id)
                ==> fallback_secrets_of(final(self)@).contains(fallback_key_of(final(self)@)[id]),
    {
        account_generate_fallback_key(&mut self.inner);
        Ok(())
    }

    /// The unpublished fallback key, in the shape of `one_time_keys()`; the
    /// inner object holds at most one entry and is empty when there is none.
    pub fn fallback_key(&self) -> (r: Result<String, VodozemacError>)
        ensures
            r matches Ok(s) && s@ == curve_key_map_json(fallback_key_of(self@)),
            lists_map(sorted_listing(fallback_key_of(self@)), fallback_key_of(self@)),
            keys_ascending(sorted_listing(fallback_key_of(self@))),
            fallback_key_of(self@).dom().len() <= 1,
            forall|id: Seq<char>| #[trigger]
                fallback_key_of(self@).contains_key(id) ==> (curve_key_parse(
                    fallback_key_of(self@)[id],
                ) matches Some(k) && curve_key_base64_of(k) == fallback_key_of(self@)[id]),
    {
        let entries = account_fallback_key(&self.inner);
        proof {
            lemma_listed_keys_read_back(entries@, fallback_key_of(self@));
        }
        write_curve_key_map(entries, Ghost(fallback_key_of(self@)))
    }

    /// Signs the message with the Ed25519 identity key; base64 signature.
    pub fn sign(&self, message: String) -> (r: Result<String, VodozemacError>)
        ensures
            r matches Ok(s) && s@ == signature_of(self@, message@),
    {
        Ok(account_sign(&self.inner, message.as_str()))
    }

    /// The account as a JSON pickle.
    pub fn pickle(&self) -> (r: Result<String, VodozemacError>)
        ensures
            match account_pickle_json(account_pickle_of(self@)) {
                Some(j) => r matches Ok(s) && s@ == j,
                None => r matches Err(VodozemacError::Internal { .. }),
            },
    {
        let p = account_pickle(&self.inner);
        match account_pickle_to_json(&p) {
            Ok(s) => Ok(s),
            Err(reason) => Err(VodozemacError::Internal { reason }),
        }
    }

    /// Starts an Olm session with a peer from its base64 identity key and
    /// one-time (or fallback) key. A new session has not received a
    /// message, so what it encrypts first is a pre-key message. With the
    /// keys of an account that holds them, the session is always made.
    pub fn create_outbound_session(
        &self,
        their_identity_key: String,
        their_one_time_key: String,
    ) -> (r: Result<Session, VodozemacError>)
        ensures
            curve_key_parse(their_identity_key@) is None ==> r matches Err(
                VodozemacError::InvalidBase64 { .. },
            ),
            curve_key_parse(their_identity_key@) is Some && curve_key_parse(their_one_time_key@) is None
                ==> r matches Err(VodozemacError::InvalidBase64 { .. }),
            curve_key_parse(their_identity_key@) is Some && curve_key_parse(their_one_time_key@) is Some
                ==> (r is Ok || r matches Err(VodozemacError::SessionError { .. })),
            r matches Ok(s) ==> !has_received_of(s@) && sending_chain_active_of(s@)
                && olm_first_chain_of(s@) && olm_encrypt_succeeds_of(s@) && olm_counter_of(s@) == 0,
            r matches Ok(s) ==> (curve_key_parse(their_identity_key@) matches Some(ik)
                && curve_key_parse(their_one_time_key@) matches Some(ok)
                && olm_session_keys_of(s@).0 == identity_keys_of(self@).0
                && olm_session_keys_of(s@).2 == curve_key_base64_of(ok) && olm_peer_identity_of(s@)
                == curve_key_base64_of(ik)),
            forall|b: olm::Account|
                #![trigger identity_keys_of(b), one_time_secrets_of(b)]
                #![trigger identity_keys_of(b), fallback_secrets_of(b)]
                (curve_key_parse(their_identity_key@) matches Some(ik) && curve_key_parse(
                    their_one_time_key@,
                ) matches Some(ok) && identity_keys_of(b).0 == curve_key_base64_of(ik)
                    && holds_one_time_key(b, curve_key_base64_of(ok))) ==> r is Ok,
    {
        let id_key = parse_curve(their_identity_key.as_str())?;
        let otk = parse_curve(their_one_time_key.as_str())?;
        match account_create_outbound_session(
            &self.inner,
            olm::SessionConfig::version_1(),
            id_key,
            otk,
        ) {
            Ok(session) => Ok(Session { inner: session }),
            Err(reason) => Err(VodozemacError::SessionError { reason }),
        }
    }

    /// Establishes a session from a received base64 pre-key message; the
    /// peer's identity key is the one the message carries. Returns the
    /// session, the plaintext of the message and the peer's identity key.
    pub fn create_inbound_session(&mut self, prekey_message_body: String) -> (r: Result<
        InboundResult,
        VodozemacError,
    >)
        ensures
            match prekey_parse(prekey_message_body@) {
                None => r matches Err(VodozemacError::InvalidBase64 { .. }) && final(self)@ == old(
                    self,
                )@,
                Some(m) => match inbound_plaintext_of(
                    old(self)@,
                    olm_config_v1(),
                    prekey_sender_of(m),
                    m,
                ) {
                    None => r matches Err(VodozemacError::SessionError { .. }) && final(self)@
                        == old(self)@,
                    Some(b) => if vstd::utf8::valid_utf8(b) {
                        r matches Ok(res) && res@.plaintext == vstd::utf8::decode_utf8(b)
                            && res@.sender_identity_key == curve_key_base64_of(prekey_sender_of(m))
                            && (res@.session matches Some(s) && has_received_of(s))
                    } else {
                        r matches Err(VodozemacError::InvalidUtf8 { .. })
                    },
                },
            },
            forall|p: Seq<char>| #[trigger]
                reads_back(old(self)@, prekey_message_body@, p) ==> (r matches Ok(res)
                    && res@.plaintext == p),
            prekey_parse(prekey_message_body@) matches Some(m) && !holds_one_time_key(
                old(self)@,
                prekey_one_time_key_of(m),
            ) ==> r matches Err(VodozemacError::SessionError { .. }),
            r is Ok ==> (prekey_parse(prekey_message_body@) matches Some(m)
                && one_time_secrets_of(final(self)@) == one_time_secrets_of(old(self)@).remove(
                prekey_one_time_key_of(m),
            )),
            r matches Ok(res) ==> (res@.session matches Some(s) && prekey_parse(
                prekey_message_body@,
            ) matches Some(m) && inbound_outcome_of(
                old(self)@,
                olm_config_v1(),
                prekey_sender_of(m),
                m,
            ) matches Some(o) && s == o.0 && prekey_plaintext_of(s, m) is None && olm_counter_of(s)
                <= max_message_gap() + 1 && olm_session_id_of(s) == prekey_session_id_of(m)),
            identity_keys_of(final(self)@) == identity_keys_of(old(self)@),
            fallback_key_of(final(self)@) == fallback_key_of(old(self)@),
            fallback_secrets_of(final(self)@) == fallback_secrets_of(old(self)@),
            fallback_key_counter_of(final(self)@) == fallback_key_counter_of(old(self)@),
            fresh_key_ids_of(final(self)@) >= fresh_key_ids_of(old(self)@),
            one_time_keys_of(final(self)@).submap_of(one_time_keys_of(old(self)@)),
    {
        let pkm = match prekey_from_base64(prekey_message_body.as_str()) {
            Ok(m) => m,
            Err(reason) => {
                return Err(VodozemacError::InvalidBase64 { reason });
            },
        };
        let id_key = prekey_identity_key(&pkm);
        let sender_identity_key = curve_key_to_base64(&id_key);
        let config = olm::SessionConfig::version_1();
        proof {
            assert(olm_config_version_of(olm_config_v1()) == 1);
        }
        let created = match account_create_inbound_session(&mut self.inner, config, id_key, &pkm) {
            Ok(c) => c,
            Err(reason) => {
                return Err(VodozemacError::SessionError { reason });
            },
        };
        let (session, bytes) = created;
        let plaintext = match utf8_decode(bytes) {
            Ok(s) => s,
            Err(reason) => {
                return Err(VodozemacError::InvalidUtf8 { reason });
            },
        };
        Ok(
            InboundResult {
                session: Some(Session { inner: session }),
                plaintext,
                sender_identity_key,
            },
        )
    }
}

/// An Olm session with one peer.
pub struct Session {
    inner: olm::Session,
}

impl View for Session {
    type V = olm::Session;

    closed spec fn view(&self) -> olm::Session {
        self.inner
    }
}

impl Session {
    /// Restores a session from the JSON pickle that `pickle()` produces.
    /// Restoring the pickle of a session gives back a session alike in
    /// every observable respect: it encrypts and decrypts as the pickled
    /// one would.
    pub fn from_pickle(pickle: String) -> (r: Result<Session, VodozemacError>)
        ensures
            session_pickle_parse(pickle@) is None ==> r matches Err(
                VodozemacError::InvalidPickle { .. },
            ),
            session_pickle_parse(pickle@) is Some ==> r is Ok,
            forall|t: olm::Session| #[trigger]
                session_pickle_json(session_pickle_of(t)) == Some(pickle@) ==> (r matches Ok(s)
                    && same_session(s@, t)),
    {
        let parsed = match session_pickle_from_json(pickle.as_str()) {
            Ok(p) => p,
            Err(reason) => {
                return Err(VodozemacError::InvalidPickle { reason });
            },
        };
        Ok(Session { inner: session_from_pickle(parsed) })
    }

    /// Encrypts, returning `{"type":<0|1>,"body":"<base64>"}`: type 0 (a
    /// pre-key message) until the session has received a message, type 1
    /// (a normal message) afterwards. It succeeds whenever the session's
    /// sending ratchet is active or can be activated, which holds for every
    /// session made by this library from real keys and kept going by its
    /// own calls. Every session paired with this one, within the message
    /// gap, decrypts the message to this plaintext, and stays paired. The
    /// first messages of an outbound session are read back, as this very
    /// plaintext, by every account that holds the peer's identity key and
    /// the one-time key the session was made with, and the session each such
    /// account makes is paired with this one. The session's 64-bit counters
    /// must not be at their maximum.
    pub fn encrypt(&mut self, plaintext: String) -> (r: Result<String, VodozemacError>)
        requires
            olm_counter_of(old(self)@) < u64::MAX,
        ensures
            r is Ok <==> olm_encrypt_succeeds_of(old(self)@),
            r matches Err(e) ==> e is Internal && final(self)@ == old(self)@,
            r matches Ok(s) ==> exists|m: OlmMessageParts|
                #![trigger olm_message_json_of(m)]
                {
                    &&& s@ == olm_message_json_of(m)
                    &&& olm_message_reads_back(m)
                    &&& (m is PreKey <==> !has_received_of(old(self)@))
                    &&& (m matches OlmMessageParts::PreKey(x) ==> prekey_session_id_of(x)
                        == olm_session_id_of(old(self)@) && curve_key_base64_of(prekey_sender_of(x))
                        == olm_session_keys_of(old(self)@).0)
                    &&& olm_sending_key_of(final(self)@) == Some(olm_message_ratchet_key(m))
                    &&& olm_reaches_peers(
                        old(self)@,
                        final(self)@,
                        m,
                        vstd::utf8::encode_utf8(plaintext@),
                    )
                    &&& (m matches OlmMessageParts::PreKey(x) ==> (olm_first_chain_of(old(self)@)
                        && olm_counter_of(old(self)@) <= max_message_gap() ==> forall|b: olm::Account|
                        identity_keys_of(b).0 == olm_peer_identity_of(old(self)@)
                            && holds_one_time_key(b, olm_session_keys_of(old(self)@).2) ==> (
                        #[trigger] reads_back(b, prekey_base64_of(x), plaintext@) && pairs_from(
                            b,
                            prekey_base64_of(x),
                            final(self)@,
                        ))))
                },
            sending_chain_active_of(old(self)@) ==> (r matches Ok(s) && s@ == olm_message_json(
                if olm_active_message_of(old(self)@, plaintext@).0 {
                    0
                } else {
                    1
                },
                olm_active_message_of(old(self)@, plaintext@).1,
            )),
            r is Ok ==> sending_chain_active_of(final(self)@) && olm_encrypt_succeeds_of(
                final(self)@,
            ),
            olm_session_id_of(final(self)@) == olm_session_id_of(old(self)@),
            has_received_of(final(self)@) == has_received_of(old(self)@),
            olm_session_keys_of(final(self)@) == olm_session_keys_of(old(self)@),
            olm_peer_identity_of(final(self)@) == olm_peer_identity_of(old(self)@),
            olm_counter_of(final(self)@) <= olm_counter_of(old(self)@) + 1,
            olm_first_chain_of(old(self)@) ==> olm_first_chain_of(final(self)@),
    {
        let msg = match session_encrypt(&mut self.inner, plaintext.as_str()) {
            Ok(m) => m,
            Err(reason) => {
                return Err(VodozemacError::Internal { reason });
            },
        };
        let ghost sent = msg;
        let out = match msg {
            OlmMessageParts::PreKey(m) => {
                let body = prekey_to_base64(&m);
                write_olm_message(0, body.as_str())
            },
            OlmMessageParts::Normal(m) => {
                let body = normal_to_base64(&m);
                write_olm_message(1, body.as_str())
            },
        };
        proof {
            assert(out matches Ok(s) && s@ == olm_message_json_of(sent));
        }
        out
    }

    /// Decrypts a base64 message of the given type (0 = pre-key, 1 =
    /// normal) to its UTF-8 plaintext. A message decrypts at most once in
    /// a row: once its key is used, decrypting it again fails. The
    /// session's 64-bit counters must leave room for a message gap.
    pub fn decrypt(&mut self, message_type: u8, body: String) -> (r: Result<String, VodozemacError>)
        requires
            message_type <= 1 ==> olm_has_room(old(self)@),
        ensures
            message_type > 1 ==> (r matches Err(VodozemacError::InvalidMessageType { value })
                && value == message_type && final(self)@ == old(self)@),
            message_type == 0 ==> match prekey_parse(body@) {
                None => r matches Err(VodozemacError::InvalidBase64 { .. }) && final(self)@ == old(
                    self,
                )@,
                Some(m) => plaintext_outcome(r, prekey_plaintext_of(old(self)@, m)),
            },
            message_type == 1 ==> match normal_parse(body@) {
                None => r matches Err(VodozemacError::InvalidBase64 { .. }) && final(self)@ == old(
                    self,
                )@,
                Some(m) => plaintext_outcome(r, normal_plaintext_of(old(self)@, m)),
            },
            message_type == 0 ==> (prekey_parse(body@) matches Some(m) ==> (prekey_plaintext_of(
                old(self)@,
                m,
            ) is Some ==> prekey_plaintext_of(final(self)@, m) is None)),
            message_type == 1 ==> (normal_parse(body@) matches Some(m) ==> (normal_plaintext_of(
                old(self)@,
                m,
            ) is Some ==> normal_plaintext_of(final(self)@, m) is None)),
            olm_session_id_of(final(self)@) == olm_session_id_of(old(self)@),
            olm_session_keys_of(final(self)@) == olm_session_keys_of(old(self)@),
            olm_peer_identity_of(final(self)@) == olm_peer_identity_of(old(self)@),
            olm_counter_of(final(self)@) <= olm_counter_of(old(self)@) + max_message_gap() + 1,
            has_received_of(old(self)@) ==> has_received_of(final(self)@),
            r is Ok ==> has_received_of(final(self)@) && !olm_first_chain_of(final(self)@),
            r matches Err(VodozemacError::InvalidUtf8 { .. }) ==> has_received_of(final(self)@),
            olm_encrypt_succeeds_of(old(self)@) ==> olm_encrypt_succeeds_of(final(self)@),
            r is Ok && message_type == 0 ==> (prekey_parse(body@) matches Some(m)
                && olm_pairing_advanced(old(self)@, final(self)@, prekey_ratchet_key_of(m))),
            r is Ok && message_type == 1 ==> (normal_parse(body@) matches Some(m)
                && olm_pairing_advanced(old(self)@, final(self)@, normal_ratchet_key_of(m))),
            r is Err && !(r matches Err(VodozemacError::InvalidUtf8 { .. })) ==> has_received_of(
                final(self)@,
            ) == has_received_of(old(self)@) && olm_pairing_kept(old(self)@, final(self)@),
            r is Err && !(r matches Err(VodozemacError::InvalidUtf8 { .. }))
                && sending_chain_active_of(old(self)@) ==> final(self)@ == old(self)@,
    {
        let decrypted = if message_type == 0 {
            let m = match prekey_from_base64(body.as_str()) {
                Ok(m) => m,
                Err(reason) => {
                    return Err(VodozemacError::InvalidBase64 { reason });
                },
            };
            session_decrypt_prekey(&mut self.inner, m)
        } else if message_type == 1 {
            let m = match normal_from_base64(body.as_str()) {
                Ok(m) => m,
                Err(reason) => {
                    return Err(VodozemacError::InvalidBase64 { reason });
                },
            };
            session_decrypt_normal(&mut self.inner, m)
        } else {
            return Err(VodozemacError::InvalidMessageType { value: message_type });
        };
        let bytes = match decrypted {
            Ok(b) => b,
            Err(reason) => {
                return Err(VodozemacError::DecryptError { reason });
            },
        };
        match utf8_decode(bytes) {
            Ok(s) => Ok(s),
            Err(reason) => Err(VodozemacError::InvalidUtf8 { reason }),
        }
    }

    /// The session's globally unique id.
    pub fn session_id(&self) -> (r: Result<String, VodozemacError>)
        ensures
            r matches Ok(s) && s@ == olm_session_id_of(self@),
    {
        Ok(session_id(&self.inner))
    }

    /// Whether a message from the peer has been decrypted.
    pub fn has_received_message(&self) -> (r: Result<bool, VodozemacError>)
        ensures
            r == Ok::<bool, VodozemacError>(has_received_of(self@)),
    {
        Ok(session_has_received_message(&self.inner))
    }

    /// The session as a JSON pickle.
    pub fn pickle(&self) -> (r: Result<String, VodozemacError>)
        ensures
            match session_pickle_json(session_pickle_of(self@)) {
                Some(j) => r matches Ok(s) && s@ == j,
                None => r matches Err(VodozemacError::Internal { .. }),
            },
    {
        let p = session_pickle(&self.inner);
        match session_pickle_to_json(&p) {
            Ok(s) => Ok(s),
            Err(reason) => Err(VodozemacError::Internal { reason }),
        }
    }
}

/// What `InboundResult` holds: the session until it is taken, the
/// plaintext of the pre-key message and the sender's identity key.
pub struct InboundResultModel {
    pub session: Option<olm::Session>,
    pub plaintext: Seq<char>,
    pub sender_identity_key: Seq<char>,
}

/// The outcome of `Account::create_inbound_session`.
pub struct InboundResult {
    session: Option<Session>,
    plaintext: String,
    sender_identity_key: String,
}

impl View for InboundResult {
    type V = InboundResultModel;

    closed spec fn view(&self) -> InboundResultModel {
        InboundResultModel {
            session: match self.session {
                Some(s) => Some(s.inner),
                None => None,
            },
            plaintext: self.plaintext@,
            sender_identity_key: self.sender_identity_key@,
        }
    }
}

/// What `take_session` does to an inbound result: it hands out the session
/// if one is there, and leaves none behind.
pub open spec fn take_session_step(m: InboundResultModel) -> (InboundResultModel, Option<olm::Session>) {
    (InboundResultModel { session: None, ..m }, m.session)
}

/// The session can be taken only once: taking it a second time gets
/// nothing.
pub proof fn lemma_take_session_once(m: InboundResultModel)
    ensures
        take_session_step(take_session_step(m).0).1 is None,
        take_session_step(take_session_step(m).0).0 == take_session_step(m).0,
{
}

impl InboundResult {
    /// Takes the new session; every call after the first fails with
    /// `SessionAlreadyTaken`.
    pub fn take_session(&mut self) -> (r: Result<Session, VodozemacError>)
        ensures
            final(self)@ == take_session_step(old(self)@).0,
            match take_session_step(old(self)@).1 {
                Some(s) => r matches Ok(t) && t@ == s,
                None => r matches Err(VodozemacError::SessionAlreadyTaken),
            },
    {
        match self.session.take() {
            Some(s) => Ok(s),
            None => Err(VodozemacError::SessionAlreadyTaken),
        }
    }

    /// The plaintext of the pre-key message.
    pub fn plaintext(&self) -> (r: String)
        ensures
            r@ == self@.plaintext,
    {
        self.plaintext.clone()
    }

    /// The peer's base64 Curve25519 identity key, as carried by the pre-key
    /// message.
    pub fn sender_identity_key(&self) -> (r: String)
        ensures
            r@ == self@.sender_identity_key,
    {
        self.sender_identity_key.clone()
    }
}

} // verus!
