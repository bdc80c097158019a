//! The calls into `vodozemac::megolm` that the library makes, with what
//! each call is taken to do.

use vstd::prelude::*;

use vodozemac::megolm;
use vodozemac::megolm::GroupSession as MegolmGroupSession;
use vodozemac::megolm::InboundGroupSession as MegolmInboundGroupSession;

verus! {

#[verifier::external_type_specification]
#[verifier::external_body]
pub struct ExGroupSession(MegolmGroupSession);

#[verifier::external_type_specification]
#[verifier::external_body]
pub struct ExInboundGroupSession(MegolmInboundGroupSession);

#[verifier::external_type_specification]
#[verifier::external_body]
pub struct ExSessionKey(megolm::SessionKey);

#[verifier::external_type_specification]
#[verifier::external_body]
pub struct ExExportedSessionKey(megolm::ExportedSessionKey);

#[verifier::external_type_specification]
#[verifier::external_body]
pub struct ExMegolmMessage(megolm::MegolmMessage);

#[verifier::external_type_specification]
#[verifier::external_body]
pub struct ExMegolmSessionConfig(megolm::SessionConfig);

#[verifier::external_type_specification]
#[verifier::external_body]
pub struct ExGroupSessionPickle(megolm::GroupSessionPickle);

#[verifier::external_type_specification]
#[verifier::external_body]
pub struct ExInboundGroupSessionPickle(megolm::InboundGroupSessionPickle);

// ── names for results that are functions of their arguments ────────────

/// `GroupSession::session_id`.
pub uninterp spec fn group_id_of(g: megolm::GroupSession) -> Seq<char>;

/// `GroupSession::message_index`.
pub uninterp spec fn group_index_of(g: megolm::GroupSession) -> u32;

/// `GroupSession::session_key`, in base64.
pub uninterp spec fn group_key_of(g: megolm::GroupSession) -> Seq<char>;

/// `GroupSession::encrypt` of a plaintext's UTF-8 bytes, in base64.
pub uninterp spec fn group_ciphertext_of(g: megolm::GroupSession, plaintext: Seq<char>) -> Seq<char>;

/// `GroupSession::pickle`.
pub uninterp spec fn group_pickle_of(g: megolm::GroupSession) -> megolm::GroupSessionPickle;

/// `serde_json::to_string` of a group session pickle (`None` on error).
pub uninterp spec fn group_pickle_json(p: megolm::GroupSessionPickle) -> Option<Seq<char>>;

/// `serde_json::from_str` of a group session pickle (`None` on error).
pub uninterp spec fn group_pickle_parse(s: Seq<char>) -> Option<megolm::GroupSessionPickle>;

/// `MegolmMessage::from_base64` (`None` on error).
pub uninterp spec fn megolm_message_parse(s: Seq<char>) -> Option<megolm::MegolmMessage>;

/// `MegolmMessage::message_index`.
pub uninterp spec fn megolm_message_index_of(m: megolm::MegolmMessage) -> u32;

/// `SessionKey::from_base64` (`None` on error).
pub uninterp spec fn session_key_parse(s: Seq<char>) -> Option<megolm::SessionKey>;

/// `ExportedSessionKey::from_base64` (`None` on error).
pub uninterp spec fn exported_key_parse(s: Seq<char>) -> Option<megolm::ExportedSessionKey>;

/// `InboundGroupSession::session_id`.
pub uninterp spec fn inbound_id_of(s: megolm::InboundGroupSession) -> Seq<char>;

/// `InboundGroupSession::first_known_index`.
pub uninterp spec fn inbound_first_index_of(s: megolm::InboundGroupSession) -> u32;

/// `InboundGroupSession::decrypt`: plaintext and message index (`None` on
/// error).
pub uninterp spec fn inbound_decrypt_of(
    s: megolm::InboundGroupSession,
    m: megolm::MegolmMessage,
) -> Option<(Seq<u8>, u32)>;

/// `InboundGroupSession::export_at`, in base64.
pub uninterp spec fn exported_at_of(s: megolm::InboundGroupSession, index: u32) -> Option<Seq<char>>;

/// `InboundGroupSession::pickle`.
pub uninterp spec fn inbound_pickle_of(s: megolm::InboundGroupSession) -> megolm::InboundGroupSessionPickle;

/// `serde_json::to_string` of an inbound group session pickle (`None` on
/// error).
pub uninterp spec fn inbound_pickle_json(p: megolm::InboundGroupSessionPickle) -> Option<Seq<char>>;

/// `serde_json::from_str` of an inbound group session pickle (`None` on
/// error).
pub uninterp spec fn inbound_pickle_parse(s: Seq<char>) -> Option<megolm::InboundGroupSessionPickle>;

/// `InboundGroupSession::new`.
pub uninterp spec fn inbound_from_key_of(k: megolm::SessionKey, c: megolm::SessionConfig) -> megolm::InboundGroupSession;

/// The bytes of the group session's current ratchet (`Ratchet::as_bytes`),
/// whose index is `group_index_of`. No function returns them.
pub uninterp spec fn group_ratchet_of(g: megolm::GroupSession) -> Seq<u8>;

/// The ratchet bytes the inbound session decrypts message index `i` with
/// (`find_ratchet`): its initial ratchet advanced to `i`, or `None` below
/// its first known index. No function returns them.
pub uninterp spec fn inbound_ratchet_at_of(s: megolm::InboundGroupSession, i: u32) -> Option<Seq<u8>>;

/// The inbound session keeps up with the group session: it knows the
/// group session's current ratchet at its index, and its signing key
/// (whose base64 is the session id) is the group session's.
pub open spec fn inbound_follows(s: megolm::InboundGroupSession, g: megolm::GroupSession) -> bool {
    &&& inbound_ratchet_at_of(s, group_index_of(g)) == Some(group_ratchet_of(g))
    &&& inbound_id_of(s) == group_id_of(g)
}

/// `SessionConfig::version`.
pub uninterp spec fn megolm_config_version_of(c: megolm::SessionConfig) -> u8;

/// The Megolm session configuration of libolm's format
/// (`SessionConfig::version_1`). Claims: its version is 1, and it is the
/// only configuration of version 1 (the struct holds nothing but the
/// version, and without the `experimental-session-config` feature, which
/// this crate does not enable, version 1 is its only value).
pub assume_specification[ megolm::SessionConfig::version_1 ]() -> (r: megolm::SessionConfig)
    ensures
        megolm_config_version_of(r) == 1,
        forall|c: megolm::SessionConfig| #[trigger] megolm_config_version_of(c) == 1 ==> c == r,
;

/// The configuration of version 1.
pub open spec fn megolm_config_v1() -> megolm::SessionConfig {
    choose|c: megolm::SessionConfig| megolm_config_version_of(c) == 1
}

// ── megolm::GroupSession ────────────────────────────────────────────────

/// Calls `GroupSession::new`. The ratchet and signing key are random; the
/// claim is that the new session's message index is 0 (`Ratchet::new`
/// starts its counter at 0).
#[verifier::external_body]
pub(crate) fn group_session_new(config: megolm::SessionConfig) -> (r: megolm::GroupSession)
    ensures
        group_index_of(r) == 0,
{
    megolm::GroupSession::new(config)
}

/// Calls `GroupSession::session_id`.
#[verifier::external_body]
pub(crate) fn group_session_id(g: &megolm::GroupSession) -> (r: String)
    ensures
        r@ == group_id_of(*g),
{
    g.session_id()
}

/// Calls `GroupSession::session_key` and renders it with `to_base64`.
/// Claim: the key reads back (`SessionKey::from_base64` checks the
/// signature that `session_key` made).
#[verifier::external_body]
pub(crate) fn group_session_key(g: &megolm::GroupSession) -> (r: String)
    ensures
        r@ == group_key_of(*g),
        session_key_parse(r@) is Some,
{
    g.session_key().to_base64()
}

/// Calls `GroupSession::message_index`.
#[verifier::external_body]
pub(crate) fn group_message_index(g: &megolm::GroupSession) -> (r: u32)
    ensures
        r == group_index_of(*g),
{
    g.message_index()
}

/// Calls `GroupSession::encrypt` on the plaintext's UTF-8 bytes and renders
/// the message with `to_base64`. The ratchet's 32-bit counter is
/// incremented with `+= 1`, which overflows at `u32::MAX`, so that index is
/// left out. Claims: the message index goes up by one and the session id
/// stays; the message reads back and carries the index it was encrypted
/// at; an inbound session built (with the version 1 configuration) from
/// the session key the group session had before the call decrypts the
/// message to the plaintext's bytes at that index (its initial ratchet is
/// the one the message was encrypted with, and its signing key the one
/// that signed it); and so does every inbound session that keeps up with
/// the group session, which then keeps up with it at the next index (both
/// advance the same ratchet by one step).
#[verifier::external_body]
pub(crate) fn group_encrypt(g: &mut megolm::GroupSession, plaintext: &str) -> (r: String)
    requires
        group_index_of(*old(g)) < u32::MAX,
    ensures
        r@ == group_ciphertext_of(*old(g), plaintext@),
        group_index_of(*final(g)) == group_index_of(*old(g)) + 1,
        group_id_of(*final(g)) == group_id_of(*old(g)),
        megolm_message_parse(r@) is Some,
        megolm_message_parse(r@) matches Some(m) ==> megolm_message_index_of(m) == group_index_of(
            *old(g),
        ),
        forall|k: megolm::SessionKey| #[trigger] session_key_parse(group_key_of(*old(g))) == Some(k)
            ==> (megolm_message_parse(r@) matches Some(m) && inbound_decrypt_of(
            inbound_from_key_of(k, megolm_config_v1()),
            m,
        ) == Some((vstd::utf8::encode_utf8(plaintext@), group_index_of(*old(g))))),
        forall|s: megolm::InboundGroupSession| #[trigger] inbound_follows(s, *old(g)) ==> (
        megolm_message_parse(r@) matches Some(m) && inbound_decrypt_of(s, m) == Some(
            (vstd::utf8::encode_utf8(plaintext@), group_index_of(*old(g))),
        ) && inbound_follows(s, *final(g))),
{
    g.encrypt(plaintext.as_bytes()).to_base64()
}

/// Calls `GroupSession::pickle`.
#[verifier::external_body]
pub(crate) fn group_pickle(g: &megolm::GroupSession) -> (r: megolm::GroupSessionPickle)
    ensures
        r == group_pickle_of(*g),
{
    g.pickle()
}

/// Calls `serde_json::to_string` on a group session pickle.
#[verifier::external_body]
pub(crate) fn group_pickle_to_json(p: &megolm::GroupSessionPickle) -> (r: Result<String, String>)
    ensures
        match r {
            Ok(s) => group_pickle_json(*p) == Some(s@),
            Err(_) => group_pickle_json(*p) is None,
        },
{
    match serde_json::to_string(p) {
        Ok(s) => Ok(s),
        Err(e) => Err(e.to_string()),
    }
}

/// Calls `serde_json::from_str` for a group session pickle; text written
/// for a pickle parses.
#[verifier::external_body]
pub(crate) fn group_pickle_from_json(s: &str) -> (r: Result<megolm::GroupSessionPickle, String>)
    ensures
        match r {
            Ok(p) => group_pickle_parse(s@) == Some(p),
            Err(_) => group_pickle_parse(s@) is None,
        },
        forall|p: megolm::GroupSessionPickle| #[trigger] group_pickle_json(p) == Some(s@) ==> r is Ok,
{
    match serde_json::from_str::<megolm::GroupSessionPickle>(s) {
        Ok(p) => Ok(p),
        Err(e) => Err(e.to_string()),
    }
}

/// Calls `GroupSession::from_pickle`. The claim is that a session restored
/// from the parsed JSON text of a session's pickle has its session id,
/// message index, ratchet and session key, and encrypts as it would (the
/// pickle carries the ratchet and signing key as they are).
#[verifier::external_body]
pub(crate) fn group_from_pickle(p: megolm::GroupSessionPickle) -> (r: megolm::GroupSession)
    ensures
        forall|g: megolm::GroupSession, t: Seq<char>|
            #![trigger group_pickle_json(group_pickle_of(g)), group_pickle_parse(t)]
            group_pickle_json(group_pickle_of(g)) == Some(t) && group_pickle_parse(t) == Some(p) ==> {
            &&& group_id_of(r) == group_id_of(g)
            &&& group_index_of(r) == group_index_of(g)
            &&& group_key_of(r) == group_key_of(g)
            &&& group_ratchet_of(r) == group_ratchet_of(g)
            &&& forall|q: Seq<char>| #[trigger] group_ciphertext_of(r, q) == group_ciphertext_of(g, q)
        },
{
    megolm::GroupSession::from_pickle(p)
}

// ── keys and messages ───────────────────────────────────────────────────

/// Calls `SessionKey::from_base64`.
#[verifier::external_body]
pub(crate) fn session_key_from_base64(s: &str) -> (r: Result<megolm::SessionKey, String>)
    ensures
        match r {
            Ok(k) => session_key_parse(s@) == Some(k),
            Err(_) => session_key_parse(s@) is None,
        },
{
    match megolm::SessionKey::from_base64(s) {
        Ok(k) => Ok(k),
        Err(e) => Err(e.to_string()),
    }
}

/// Calls `ExportedSessionKey::from_base64`.
#[verifier::external_body]
pub(crate) fn exported_key_from_base64(s: &str) -> (r: Result<megolm::ExportedSessionKey, String>)
    ensures
        match r {
            Ok(k) => exported_key_parse(s@) == Some(k),
            Err(_) => exported_key_parse(s@) is None,
        },
{
    match megolm::ExportedSessionKey::from_base64(s) {
        Ok(k) => Ok(k),
        Err(e) => Err(e.to_string()),
    }
}

/// Calls `MegolmMessage::from_base64`.
#[verifier::external_body]
pub(crate) fn megolm_message_from_base64(s: &str) -> (r: Result<megolm::MegolmMessage, String>)
    ensures
        match r {
            Ok(m) => megolm_message_parse(s@) == Some(m),
            Err(_) => megolm_message_parse(s@) is None,
        },
{
    match megolm::MegolmMessage::from_base64(s) {
        Ok(m) => Ok(m),
        Err(e) => Err(e.to_string()),
    }
}

// ── megolm::InboundGroupSession ─────────────────────────────────────────

/// Calls `InboundGroupSession::new`. The claim is that a session built
/// from the session key of a group session starts at that session's
/// message index, has its session id, keeps up with it and knows no
/// ratchet below its index (`new` takes the ratchet, its index and the
/// signing key from the key, which `session_key` took from the group
/// session).
#[verifier::external_body]
pub(crate) fn inbound_new(key: &megolm::SessionKey, config: megolm::SessionConfig) -> (r: megolm::InboundGroupSession)
    ensures
        r == inbound_from_key_of(*key, config),
        forall|g: megolm::GroupSession| #[trigger] session_key_parse(group_key_of(g)) == Some(*key)
            ==> inbound_first_index_of(r) == group_index_of(g) && inbound_id_of(r) == group_id_of(g)
            && inbound_follows(r, g) && forall|i: u32|
            i < group_index_of(g) ==> #[trigger] inbound_ratchet_at_of(r, i) is None,
{
    megolm::InboundGroupSession::new(key, config)
}

/// Calls `InboundGroupSession::import`. The claim is that a session built
/// from a key exported at `index` starts at `index`, has the exporting
/// session's id and, from `index` on, the exporting session's ratchets
/// (`import` takes the ratchet, its index and the signing key from the key,
/// which `export_at` made from the ratchet at `index`; advancing it gives
/// what advancing the exporter's initial ratchet gives).
#[verifier::external_body]
pub(crate) fn inbound_import(key: &megolm::ExportedSessionKey, config: megolm::SessionConfig) -> (r: megolm::InboundGroupSession)
    ensures
        forall|s: megolm::InboundGroupSession, index: u32|
            #[trigger] exported_at_of(s, index) matches Some(e) && exported_key_parse(e) == Some(
                *key,
            ) ==> inbound_first_index_of(r) == index && inbound_id_of(r) == inbound_id_of(s)
                && forall|i: u32| #[trigger]
                inbound_ratchet_at_of(r, i) == (if i < index {
                    None
                } else {
                    inbound_ratchet_at_of(s, i)
                }),
{
    megolm::InboundGroupSession::import(key, config)
}

/// Calls `InboundGroupSession::session_id`.
#[verifier::external_body]
pub(crate) fn inbound_session_id(s: &megolm::InboundGroupSession) -> (r: String)
    ensures
        r@ == inbound_id_of(*s),
{
    s.session_id()
}

/// Calls `InboundGroupSession::first_known_index`.
#[verifier::external_body]
pub(crate) fn inbound_first_known_index(s: &megolm::InboundGroupSession) -> (r: u32)
    ensures
        r == inbound_first_index_of(*s),
{
    s.first_known_index()
}

/// Calls `InboundGroupSession::decrypt` and hands out the plaintext and
/// message index. Claims: the outcome is named; a message below the first
/// known index does not decrypt (`find_ratchet` has no ratchet for it);
/// the message index reported is the message's own; the session id, the
/// first known index, the ratchet for every index, and so what any message
/// decrypts to and what any export gives, do not change (only the cached
/// latest ratchet moves, along the same chain).
#[verifier::external_body]
pub(crate) fn inbound_decrypt(s: &mut megolm::InboundGroupSession, m: &megolm::MegolmMessage) -> (r: Result<(Vec<u8>, u32), String>)
    ensures
        match r {
            Ok(d) => inbound_decrypt_of(*old(s), *m) == Some((d.0@, d.1)),
            Err(_) => inbound_decrypt_of(*old(s), *m) is None,
        },
        megolm_message_index_of(*m) < inbound_first_index_of(*old(s)) ==> r is Err,
        r matches Ok(d) ==> d.1 == megolm_message_index_of(*m),
        inbound_id_of(*final(s)) == inbound_id_of(*old(s)),
        inbound_first_index_of(*final(s)) == inbound_first_index_of(*old(s)),
        forall|i: u32| #[trigger] inbound_ratchet_at_of(*final(s), i) == inbound_ratchet_at_of(*old(s), i),
        forall|n: megolm::MegolmMessage| #[trigger] inbound_decrypt_of(*final(s), n)
            == inbound_decrypt_of(*old(s), n),
        forall|i: u32| #[trigger] exported_at_of(*final(s), i) == exported_at_of(*old(s), i),
        inbound_pickle_of(*final(s)) == inbound_pickle_of(*old(s)),
{
    match s.decrypt(m) {
        Ok(d) => Ok((d.plaintext, d.message_index)),
        Err(e) => Err(e.to_string()),
    }
}

/// Calls `InboundGroupSession::export_at` and renders the key with
/// `to_base64`. Claims: the outcome is named; there is a key exactly when
/// `index` is not below the first known index (`find_ratchet`); the key
/// reads back; as for `decrypt`, nothing observable changes.
#[verifier::external_body]
pub(crate) fn inbound_export_at(s: &mut megolm::InboundGroupSession, index: u32) -> (r: Option<String>)
    ensures
        match r {
            Some(k) => exported_at_of(*old(s), index) == Some(k@),
            None => exported_at_of(*old(s), index) is None,
        },
        r is None <==> index < inbound_first_index_of(*old(s)),
        r matches Some(k) ==> exported_key_parse(k@) is Some,
        inbound_id_of(*final(s)) == inbound_id_of(*old(s)),
        inbound_first_index_of(*final(s)) == inbound_first_index_of(*old(s)),
        forall|i: u32| #[trigger] inbound_ratchet_at_of(*final(s), i) == inbound_ratchet_at_of(*old(s), i),
        forall|n: megolm::MegolmMessage| #[trigger] inbound_decrypt_of(*final(s), n)
            == inbound_decrypt_of(*old(s), n),
        forall|i: u32| #[trigger] exported_at_of(*final(s), i) == exported_at_of(*old(s), i),
        inbound_pickle_of(*final(s)) == inbound_pickle_of(*old(s)),
{
    s.export_at(index).map(|k| k.to_base64())
}

/// Calls `InboundGroupSession::pickle`.
#[verifier::external_body]
pub(crate) fn inbound_pickle(s: &megolm::InboundGroupSession) -> (r: megolm::InboundGroupSessionPickle)
    ensures
        r == inbound_pickle_of(*s),
{
    s.pickle()
}

/// Calls `serde_json::to_string` on an inbound group session pickle.
#[verifier::external_body]
pub(crate) fn inbound_pickle_to_json(p: &megolm::InboundGroupSessionPickle) -> (r: Result<String, String>)
    ensures
        match r {
            Ok(s) => inbound_pickle_json(*p) == Some(s@),
            Err(_) => inbound_pickle_json(*p) is None,
        },
{
    match serde_json::to_string(p) {
        Ok(s) => Ok(s),
        Err(e) => Err(e.to_string()),
    }
}

/// Calls `serde_json::from_str` for an inbound group session pickle; text
/// written for a pickle parses.
#[verifier::external_body]
pub(crate) fn inbound_pickle_from_json(s: &str) -> (r: Result<megolm::InboundGroupSessionPickle, String>)
    ensures
        match r {
            Ok(p) => inbound_pickle_parse(s@) == Some(p),
            Err(_) => inbound_pickle_parse(s@) is None,
        },
        forall|p: megolm::InboundGroupSessionPickle| #[trigger] inbound_pickle_json(p) == Some(s@)
            ==> r is Ok,
{
    match serde_json::from_str::<megolm::InboundGroupSessionPickle>(s) {
        Ok(p) => Ok(p),
        Err(e) => Err(e.to_string()),
    }
}

/// Calls `InboundGroupSession::from_pickle`. The claim is that a session
/// restored from the parsed JSON text of a session's pickle has its session
/// id, first known index and ratchets, and decrypts and exports as it would
/// (the pickle carries the initial ratchet and signing key, and the latest
/// ratchet is rebuilt from the initial one).
#[verifier::external_body]
pub(crate) fn inbound_from_pickle(p: megolm::InboundGroupSessionPickle) -> (r: megolm::InboundGroupSession)
    ensures
        forall|s: megolm::InboundGroupSession, t: Seq<char>|
            #![trigger inbound_pickle_json(inbound_pickle_of(s)), inbound_pickle_parse(t)]
            inbound_pickle_json(inbound_pickle_of(s)) == Some(t) && inbound_pickle_parse(t) == Some(p) ==> {
            &&& inbound_id_of(r) == inbound_id_of(s)
            &&& inbound_first_index_of(r) == inbound_first_index_of(s)
            &&& forall|i: u32| #[trigger] inbound_ratchet_at_of(r, i) == inbound_ratchet_at_of(s, i)
            &&& forall|n: megolm::MegolmMessage| #[trigger] inbound_decrypt_of(r, n) == inbound_decrypt_of(s, n)
            &&& forall|i: u32| #[trigger] exported_at_of(r, i) == exported_at_of(s, i)
        },
{
    megolm::InboundGroupSession::from_pickle(p)
}

} // verus!
