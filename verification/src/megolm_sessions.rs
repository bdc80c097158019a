//! Megolm (group) sessions: the sender's outbound session and the members'
//! inbound sessions, pinned to Megolm version 1.

use vstd::prelude::*;

use vodozemac::megolm;

use crate::error::VodozemacError;
use crate::json::{
    group_plaintext_json, lemma_group_plaintext_json_determines_plaintext, write_group_plaintext,
};
use crate::megolm_bindings::{
    exported_at_of, exported_key_from_base64, exported_key_parse, group_ciphertext_of,
    group_encrypt, group_from_pickle, group_id_of, group_index_of, group_key_of,
    group_message_index, group_pickle, group_pickle_from_json, group_pickle_json,
    group_pickle_of, group_pickle_parse, group_pickle_to_json, group_session_id,
    group_session_key, group_session_new, group_ratchet_of, inbound_decrypt, inbound_decrypt_of,
    inbound_follows, inbound_ratchet_at_of,
    inbound_export_at, inbound_first_index_of, inbound_first_known_index, inbound_from_pickle,
    inbound_id_of, inbound_import, inbound_new, inbound_pickle, inbound_pickle_from_json,
    inbound_pickle_json, inbound_pickle_of, inbound_pickle_parse, inbound_pickle_to_json,
    inbound_from_key_of, inbound_session_id, megolm_config_v1, megolm_config_version_of,
    megolm_message_from_base64, megolm_message_index_of, megolm_message_parse,
    session_key_from_base64, session_key_parse,
};
use crate::text::utf8_decode;

verus! {

/// The Megolm configuration the library uses everywhere: version 1, the
/// format Matrix runs in production (AES-256 and HMAC truncated to 8
/// bytes).
fn megolm_config() -> (r: megolm::SessionConfig)
    ensures
        r == megolm_config_v1(),
{
    let c = megolm::SessionConfig::version_1();
    proof {
        assert(megolm_config_version_of(c) == 1);
    }
    c
}

/// The JSON that `InboundGroupSession::decrypt` returns for a message, or
/// `None` when it returns an error.
pub open spec fn decrypt_json_of(s: megolm::InboundGroupSession, message: Seq<char>) -> Option<Seq<char>> {
    match megolm_message_parse(message) {
        None => None,
        Some(m) => match inbound_decrypt_of(s, m) {
            None => None,
            Some(d) => if vstd::utf8::valid_utf8(d.0) {
                Some(group_plaintext_json(vstd::utf8::decode_utf8(d.0), d.1))
            } else {
                None
            },
        },
    }
}

/// The plaintext in a decrypted group message object is the whole text the
/// decrypted bytes encode: it encodes back to exactly those bytes.
pub proof fn lemma_decrypt_json_is_whole(
    s: megolm::InboundGroupSession,
    message: Seq<char>,
    m: megolm::MegolmMessage,
    b: Seq<u8>,
    i: u32,
    p: Seq<char>,
)
    requires
        megolm_message_parse(message) == Some(m),
        inbound_decrypt_of(s, m) == Some((b, i)),
        decrypt_json_of(s, message) == Some(group_plaintext_json(p, i)),
    ensures
        vstd::utf8::encode_utf8(p) == b,
{
    lemma_group_plaintext_json_determines_plaintext(vstd::utf8::decode_utf8(b), i, p, i);
    vstd::utf8::decode_utf8_encode_utf8(b);
}

/// Two inbound sessions are alike in all that the library can observe or
/// rely on: id, first known index, the ratchet for every index, what every
/// message decrypts to and what every export gives.
pub open spec fn same_inbound(a: megolm::InboundGroupSession, b: megolm::InboundGroupSession) -> bool {
    &&& inbound_id_of(a) == inbound_id_of(b)
    &&& inbound_first_index_of(a) == inbound_first_index_of(b)
    &&& forall|i: u32| #[trigger] inbound_ratchet_at_of(a, i) == inbound_ratchet_at_of(b, i)
    &&& forall|n: megolm::MegolmMessage| #[trigger] inbound_decrypt_of(a, n) == inbound_decrypt_of(b, n)
    &&& forall|i: u32| #[trigger] exported_at_of(a, i) == exported_at_of(b, i)
}

/// Two group sessions are alike in all that the library can observe or
/// rely on: id, message index, session key, ratchet and what they encrypt.
pub open spec fn same_group(a: megolm::GroupSession, b: megolm::GroupSession) -> bool {
    &&& group_id_of(a) == group_id_of(b)
    &&& group_index_of(a) == group_index_of(b)
    &&& group_key_of(a) == group_key_of(b)
    &&& group_ratchet_of(a) == group_ratchet_of(b)
    &&& forall|q: Seq<char>| #[trigger] group_ciphertext_of(a, q) == group_ciphertext_of(b, q)
}

/// Alike sessions keep up with the same group sessions.
pub proof fn lemma_same_inbound_follows(a: megolm::InboundGroupSession, b: megolm::InboundGroupSession, g: megolm::GroupSession)
    requires
        same_inbound(a, b),
        inbound_follows(b, g),
    ensures
        inbound_follows(a, g),
{
    assert(inbound_ratchet_at_of(a, group_index_of(g)) == inbound_ratchet_at_of(b, group_index_of(g)));
}

/// A session imported from what a member exported at an index the group
/// session has reached keeps up with the group session whenever the member
/// does: history shared this way decrypts from the export's index on.
pub proof fn lemma_imported_follows(
    r: megolm::InboundGroupSession,
    t: megolm::InboundGroupSession,
    g: megolm::GroupSession,
    index: u32,
)
    requires
        inbound_id_of(r) == inbound_id_of(t),
        forall|i: u32| #[trigger]
            inbound_ratchet_at_of(r, i) == (if i < index {
                None
            } else {
                inbound_ratchet_at_of(t, i)
            }),
        index <= group_index_of(g),
        inbound_follows(t, g),
    ensures
        inbound_follows(r, g),
{
    assert(inbound_ratchet_at_of(r, group_index_of(g)) == inbound_ratchet_at_of(t, group_index_of(g)));
}

/// The sender's outbound Megolm session. The sender encrypts with it and
/// shares `session_key()` with the members.
pub struct GroupSession {
    inner: megolm::GroupSession,
}

impl View for GroupSession {
    type V = megolm::GroupSession;

    closed spec fn view(&self) -> megolm::GroupSession {
        self.inner
    }
}

impl GroupSession {
    /// A new session with a fresh ratchet; its message index is 0.
    pub fn new() -> (r: GroupSession)
        ensures
            group_index_of(r@) == 0,
    {
        GroupSession { inner: group_session_new(megolm_config()) }
    }

    /// Restores a session from the JSON pickle that `pickle()` produces.
    /// Restoring the pickle of a session gives back a session alike in
    /// every observable respect: its members keep decrypting what it
    /// encrypts.
    pub fn from_pickle(pickle: String) -> (r: Result<GroupSession, VodozemacError>)
        ensures
            group_pickle_parse(pickle@) is None ==> r matches Err(
                VodozemacError::InvalidPickle { .. },
            ),
            group_pickle_parse(pickle@) is Some ==> r is Ok,
            forall|h: megolm::GroupSession| #[trigger]
                group_pickle_json(group_pickle_of(h)) == Some(pickle@) ==> (r matches Ok(g)
                    && same_group(g@, h)),
    {
        let parsed = match group_pickle_from_json(pickle.as_str()) {
            Ok(p) => p,
            Err(reason) => {
                return Err(VodozemacError::InvalidPickle { reason });
            },
        };
        Ok(GroupSession { inner: group_from_pickle(parsed) })
    }

    /// The session's globally unique id.
    pub fn session_id(&self) -> (r: Result<String, VodozemacError>)
        ensures
            r matches Ok(s) && s@ == group_id_of(self@),
    {
        Ok(group_session_id(&self.inner))
    }

    /// The base64 session key at the current ratchet index; a member who
    /// builds an `InboundGroupSession` from it can decrypt from this index
    /// on.
    pub fn session_key(&self) -> (r: Result<String, VodozemacError>)
        ensures
            r matches Ok(s) && s@ == group_key_of(self@) && session_key_parse(s@) is Some,
    {
        Ok(group_session_key(&self.inner))
    }

    /// The ratchet index of the next message to be encrypted.
    pub fn message_index(&self) -> (r: Result<u32, VodozemacError>)
        ensures
            r == Ok::<u32, VodozemacError>(group_index_of(self@)),
    {
        Ok(group_message_index(&self.inner))
    }

    /// Encrypts, returning the base64 Megolm message. The message carries
    /// the current index, and the index then goes up by one. A member whose
    /// inbound session was built from the session key shared before the
    /// call decrypts it to the plaintext at that index; so does every member
    /// session that keeps up with this one, and it keeps up at the next
    /// index.
    pub fn encrypt(&mut self, plaintext: String) -> (r: Result<String, VodozemacError>)
        requires
            group_index_of(old(self)@) < u32::MAX,
        ensures
            r matches Ok(c) && c@ == group_ciphertext_of(old(self)@, plaintext@)
                && (megolm_message_parse(c@) matches Some(m) && megolm_message_index_of(m)
                == group_index_of(old(self)@)),
            forall|k: megolm::SessionKey| #[trigger] session_key_parse(group_key_of(old(self)@))
                == Some(k) ==> (r matches Ok(c) && decrypt_json_of(
                inbound_from_key_of(k, megolm_config_v1()),
                c@,
            ) == Some(group_plaintext_json(plaintext@, group_index_of(old(self)@)))),
            forall|s: megolm::InboundGroupSession| #[trigger] inbound_follows(s, old(self)@) ==> (
            r matches Ok(c) && decrypt_json_of(s, c@) == Some(
                group_plaintext_json(plaintext@, group_index_of(old(self)@)),
            ) && inbound_follows(s, final(self)@)),
            group_index_of(final(self)@) == group_index_of(old(self)@) + 1,
            group_id_of(final(self)@) == group_id_of(old(self)@),
    {
        let c = group_encrypt(&mut self.inner, plaintext.as_str());
        proof {
            vstd::utf8::encode_utf8_valid_utf8(plaintext@);
            vstd::utf8::encode_utf8_decode_utf8(plaintext@);
        }
        Ok(c)
    }

    /// The session as a JSON pickle.
    pub fn pickle(&self) -> (r: Result<String, VodozemacError>)
        ensures
            match group_pickle_json(group_pickle_of(self@)) {
                Some(j) => r matches Ok(s) && s@ == j,
                None => r matches Err(VodozemacError::Internal { .. }),
            },
    {
        let p = group_pickle(&self.inner);
        match group_pickle_to_json(&p) {
            Ok(s) => Ok(s),
            Err(reason) => Err(VodozemacError::Internal { reason }),
        }
    }
}

/// A member's inbound Megolm session, built from a session key; it only
/// decrypts.
pub struct InboundGroupSession {
    inner: megolm::InboundGroupSession,
}

impl View for InboundGroupSession {
    type V = megolm::InboundGroupSession;

    closed spec fn view(&self) -> megolm::InboundGroupSession {
        self.inner
    }
}

impl InboundGroupSession {
    /// Builds a session from a base64 session key made by
    /// `GroupSession::session_key()`. Built from the key of a group
    /// session, it has that session's id, starts at its index and keeps up
    /// with it.
    pub fn new(session_key: String) -> (r: Result<InboundGroupSession, VodozemacError>)
        ensures
            session_key_parse(session_key@) is None ==> r matches Err(
                VodozemacError::InvalidBase64 { .. },
            ),
            session_key_parse(session_key@) matches Some(k) ==> (r matches Ok(s) && s@
                == inbound_from_key_of(k, megolm_config_v1())),
            forall|g: megolm::GroupSession| #[trigger] group_key_of(g) == session_key@
                && session_key_parse(session_key@) is Some ==> (r matches Ok(s)
                && inbound_first_index_of(s@) == group_index_of(g) && inbound_id_of(s@)
                == group_id_of(g) && inbound_follows(s@, g)),
    {
        let key = match session_key_from_base64(session_key.as_str()) {
            Ok(k) => k,
            Err(reason) => {
                return Err(VodozemacError::InvalidBase64 { reason });
            },
        };
        Ok(InboundGroupSession { inner: inbound_new(&key, megolm_config()) })
    }

    /// Builds a session from a base64 key made by `export_at()`. Such a
    /// session can decrypt but cannot prove who created it. Built from the
    /// key exported at an index, it has the exporting session's id, starts
    /// at that index and from there on knows the exporting session's
    /// ratchets.
    pub fn import_session(exported_session_key: String) -> (r: Result<
        InboundGroupSession,
        VodozemacError,
    >)
        ensures
            exported_key_parse(exported_session_key@) is None ==> r matches Err(
                VodozemacError::InvalidBase64 { .. },
            ),
            exported_key_parse(exported_session_key@) is Some ==> r is Ok,
            forall|t: megolm::InboundGroupSession, index: u32| #[trigger] exported_at_of(t, index)
                == Some(exported_session_key@) && exported_key_parse(exported_session_key@) is Some
                ==> (r matches Ok(s) && inbound_first_index_of(s@) == index && inbound_id_of(s@)
                == inbound_id_of(t) && forall|i: u32| #[trigger]
                inbound_ratchet_at_of(s@, i) == (if i < index {
                    None
                } else {
                    inbound_ratchet_at_of(t, i)
                })),
    {
        let key = match exported_key_from_base64(exported_session_key.as_str()) {
            Ok(k) => k,
            Err(reason) => {
                return Err(VodozemacError::InvalidBase64 { reason });
            },
        };
        Ok(InboundGroupSession { inner: inbound_import(&key, megolm_config()) })
    }

    /// Restores a session from the JSON pickle that `pickle()` produces.
    /// Restoring the pickle of a session gives back a session alike in
    /// every observable respect.
    pub fn from_pickle(pickle: String) -> (r: Result<InboundGroupSession, VodozemacError>)
        ensures
            inbound_pickle_parse(pickle@) is None ==> r matches Err(
                VodozemacError::InvalidPickle { .. },
            ),
            inbound_pickle_parse(pickle@) is Some ==> r is Ok,
            forall|t: megolm::InboundGroupSession| #[trigger]
                inbound_pickle_json(inbound_pickle_of(t)) == Some(pickle@) ==> (r matches Ok(s)
                    && same_inbound(s@, t)),
    {
        let parsed = match inbound_pickle_from_json(pickle.as_str()) {
            Ok(p) => p,
            Err(reason) => {
                return Err(VodozemacError::InvalidPickle { reason });
            },
        };
        Ok(InboundGroupSession { inner: inbound_from_pickle(parsed) })
    }

    /// The id of the group session this session decrypts for.
    pub fn session_id(&self) -> (r: Result<String, VodozemacError>)
        ensures
            r matches Ok(s) && s@ == inbound_id_of(self@),
    {
        Ok(inbound_session_id(&self.inner))
    }

    /// The lowest ratchet index this session can decrypt.
    pub fn first_known_index(&self) -> (r: Result<u32, VodozemacError>)
        ensures
            r == Ok::<u32, VodozemacError>(inbound_first_index_of(self@)),
    {
        Ok(inbound_first_known_index(&self.inner))
    }

    /// Decrypts a base64 Megolm message, returning
    /// `{"plaintext":"...","messageIndex":n}` where `n` is the index the
    /// message was encrypted at. A message below the first known index
    /// does not decrypt. Decrypting changes nothing observable: every later
    /// result is what it would have been. Replay protection is the caller's
    /// job.
    pub fn decrypt(&mut self, message: String) -> (r: Result<String, VodozemacError>)
        ensures
            match megolm_message_parse(message@) {
                None => r matches Err(VodozemacError::InvalidBase64 { .. }) && final(self)@ == old(
                    self,
                )@,
                Some(m) => {
                    &&& match inbound_decrypt_of(old(self)@, m) {
                        None => r matches Err(VodozemacError::DecryptError { .. }),
                        Some(d) => if vstd::utf8::valid_utf8(d.0) {
                            r matches Ok(s) && s@ == group_plaintext_json(
                                vstd::utf8::decode_utf8(d.0),
                                d.1,
                            ) && d.1 == megolm_message_index_of(m)
                        } else {
                            r matches Err(VodozemacError::InvalidUtf8 { .. })
                        },
                    }
                    &&& megolm_message_index_of(m) < inbound_first_index_of(old(self)@) ==> r matches Err(
                        VodozemacError::DecryptError { .. },
                    )
                },
            },
            match decrypt_json_of(old(self)@, message@) {
                Some(j) => r matches Ok(t) && t@ == j,
                None => r is Err,
            },
            same_inbound(final(self)@, old(self)@),
            inbound_pickle_of(final(self)@) == inbound_pickle_of(old(self)@),
    {
        let msg = match megolm_message_from_base64(message.as_str()) {
            Ok(m) => m,
            Err(reason) => {
                return Err(VodozemacError::InvalidBase64 { reason });
            },
        };
        let decrypted = match inbound_decrypt(&mut self.inner, &msg) {
            Ok(d) => d,
            Err(reason) => {
                return Err(VodozemacError::DecryptError { reason });
            },
        };
        let (bytes, message_index) = decrypted;
        let plaintext = match utf8_decode(bytes) {
            Ok(s) => s,
            Err(reason) => {
                return Err(VodozemacError::InvalidUtf8 { reason });
            },
        };
        write_group_plaintext(plaintext.as_str(), message_index)
    }

    /// Exports the session key at `index` (base64), e.g. to share history
    /// with a new member; `None` when `index` is below the first known
    /// index.
    pub fn export_at(&mut self, index: u32) -> (r: Result<Option<String>, VodozemacError>)
        ensures
            r matches Ok(o) && (o is None <==> index < inbound_first_index_of(old(self)@)) && (
            o matches Some(k) ==> exported_at_of(old(self)@, index) == Some(k@) && exported_key_parse(
                k@,
            ) is Some),
            same_inbound(final(self)@, old(self)@),
            inbound_pickle_of(final(self)@) == inbound_pickle_of(old(self)@),
    {
        Ok(inbound_export_at(&mut self.inner, index))
    }

    /// The session as a JSON pickle.
    pub fn pickle(&self) -> (r: Result<String, VodozemacError>)
        ensures
            match inbound_pickle_json(inbound_pickle_of(self@)) {
                Some(j) => r matches Ok(s) && s@ == j,
                None => r matches Err(VodozemacError::Internal { .. }),
            },
    {
        let p = inbound_pickle(&self.inner);
        match inbound_pickle_to_json(&p) {
            Ok(s) => Ok(s),
            Err(reason) => Err(VodozemacError::Internal { reason }),
        }
    }
}

} // verus!
