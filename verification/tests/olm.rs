use vodozemac_ffi::{Account, VodozemacError};

fn first_key(json: &str) -> String {
    let v: serde_json::Value = serde_json::from_str(json).unwrap();
    v["curve25519"].as_object().unwrap().values().next().unwrap().as_str().unwrap().to_string()
}

/// End-to-end: Alice sends Bob a pre-key message, Bob decrypts it and
/// replies, Alice decrypts the reply.
#[test]
fn prekey_and_reply_roundtrip() {
    let alice = Account::new();
    let mut bob = Account::new();
    bob.generate_one_time_keys(1).unwrap();

    let bob_identity: serde_json::Value =
        serde_json::from_str(&bob.identity_keys().unwrap()).unwrap();
    let bob_id_curve = bob_identity["curve25519"].as_str().unwrap().to_string();

    let bob_otks: serde_json::Value = serde_json::from_str(&bob.one_time_keys().unwrap()).unwrap();
    let (_bob_otk_id, bob_otk) =
        bob_otks["curve25519"].as_object().unwrap().iter().next().unwrap();
    let bob_otk = bob_otk.as_str().unwrap().to_string();
    bob.mark_keys_as_published().unwrap();

    let mut alice_session =
        alice.create_outbound_session(bob_id_curve.clone(), bob_otk.clone()).unwrap();
    let enc_out = alice_session.encrypt("hello bob".to_string()).unwrap();
    let enc: serde_json::Value = serde_json::from_str(&enc_out).unwrap();
    assert_eq!(enc["type"], 0);
    let alice_to_bob_body = enc["body"].as_str().unwrap().to_string();

    let mut inbound = bob.create_inbound_session(alice_to_bob_body).unwrap();
    assert_eq!(inbound.plaintext(), "hello bob");
    let mut bob_session = inbound.take_session().unwrap();

    let reply = bob_session.encrypt("hi alice".to_string()).unwrap();
    let reply_v: serde_json::Value = serde_json::from_str(&reply).unwrap();
    let reply_type = reply_v["type"].as_u64().unwrap() as u8;
    let reply_body = reply_v["body"].as_str().unwrap().to_string();

    let decoded = alice_session.decrypt(reply_type, reply_body).unwrap();
    assert_eq!(decoded, "hi alice");
}

/// An account survives pickle and restore.
#[test]
fn account_pickle_roundtrip() {
    let mut acc = Account::new();
    acc.generate_one_time_keys(2).unwrap();
    let keys_before = acc.identity_keys().unwrap();
    let one_time_before = acc.one_time_keys().unwrap();

    let pickled = acc.pickle().unwrap();
    let restored = Account::from_pickle(pickled).unwrap();
    assert_eq!(restored.identity_keys().unwrap(), keys_before);
    assert_eq!(restored.one_time_keys().unwrap(), one_time_before);
}

/// `take_session` hands out the session once.
#[test]
fn inbound_take_session_only_once() {
    let alice = Account::new();
    let mut bob = Account::new();
    bob.generate_one_time_keys(1).unwrap();

    let bob_id_keys: serde_json::Value =
        serde_json::from_str(&bob.identity_keys().unwrap()).unwrap();
    let bob_id = bob_id_keys["curve25519"].as_str().unwrap().to_string();
    let bob_otk = first_key(&bob.one_time_keys().unwrap());

    let mut alice_sess = alice.create_outbound_session(bob_id, bob_otk).unwrap();
    let enc: serde_json::Value =
        serde_json::from_str(&alice_sess.encrypt("hi".into()).unwrap()).unwrap();
    let body = enc["body"].as_str().unwrap().to_string();

    let mut inbound = bob.create_inbound_session(body).unwrap();
    assert!(inbound.take_session().is_ok());
    assert!(matches!(inbound.take_session(), Err(VodozemacError::SessionAlreadyTaken)));
}

#[test]
fn identity_keys_json_shape() {
    let acc = Account::new();
    let text = acc.identity_keys().unwrap();
    assert!(text.starts_with("{\"curve25519\":\""));
    let v: serde_json::Value = serde_json::from_str(&text).unwrap();
    let obj = v.as_object().unwrap();
    assert_eq!(obj.len(), 2);
    assert_eq!(v["curve25519"].as_str().unwrap().len(), 43);
    assert_eq!(v["ed25519"].as_str().unwrap().len(), 43);
    let keys: Vec<&String> = obj.keys().collect();
    assert_eq!(keys, vec!["curve25519", "ed25519"]);
}

#[test]
fn new_account_has_no_unpublished_keys() {
    let acc = Account::new();
    assert_eq!(acc.one_time_keys().unwrap(), "{\"curve25519\":{}}");
    assert_eq!(acc.fallback_key().unwrap(), "{\"curve25519\":{}}");
}

#[test]
fn one_time_keys_are_listed_in_ascending_key_order() {
    let mut acc = Account::new();
    acc.generate_one_time_keys(20).unwrap();
    let text = acc.one_time_keys().unwrap();
    let v: serde_json::Value = serde_json::from_str(&text).unwrap();
    let map = v["curve25519"].as_object().unwrap();
    assert_eq!(map.len(), 20);
    // serde_json's Map keeps its own order, so read the ids from the text.
    let mut ids = Vec::new();
    let mut rest = &text["{\"curve25519\":{".len()..];
    while rest.starts_with('"') {
        let end = rest[1..].find('"').unwrap() + 1;
        ids.push(rest[1..end].to_string());
        let skip = rest.find(|c| c == ',' || c == '}').unwrap();
        rest = &rest[skip + 1..];
    }
    assert_eq!(ids.len(), 20);
    let mut sorted = ids.clone();
    sorted.sort();
    assert_eq!(ids, sorted);
}

#[test]
fn mark_keys_as_published_empties_key_lists() {
    let mut acc = Account::new();
    acc.generate_one_time_keys(3).unwrap();
    acc.generate_fallback_key().unwrap();
    let fallback: serde_json::Value = serde_json::from_str(&acc.fallback_key().unwrap()).unwrap();
    assert_eq!(fallback["curve25519"].as_object().unwrap().len(), 1);
    let identity = acc.identity_keys().unwrap();
    acc.mark_keys_as_published().unwrap();
    assert_eq!(acc.one_time_keys().unwrap(), "{\"curve25519\":{}}");
    assert_eq!(acc.fallback_key().unwrap(), "{\"curve25519\":{}}");
    assert_eq!(acc.identity_keys().unwrap(), identity);
}

#[test]
fn max_number_of_one_time_keys_is_fifty() {
    let acc = Account::new();
    assert_eq!(acc.max_number_of_one_time_keys().unwrap(), 50);
}

#[test]
fn sign_is_deterministic_base64() {
    let acc = Account::new();
    let a = acc.sign("message".to_string()).unwrap();
    let b = acc.sign("message".to_string()).unwrap();
    let c = acc.sign("other".to_string()).unwrap();
    assert_eq!(a, b);
    assert_ne!(a, c);
    assert_eq!(a.len(), 86);
    assert_ne!(a, "message");
}

#[test]
fn outbound_session_rejects_bad_base64() {
    let mut bob = Account::new();
    bob.generate_one_time_keys(1).unwrap();
    let id: serde_json::Value = serde_json::from_str(&bob.identity_keys().unwrap()).unwrap();
    let id = id["curve25519"].as_str().unwrap().to_string();
    let alice = Account::new();
    assert!(matches!(
        alice.create_outbound_session("not a key".to_string(), id.clone()),
        Err(VodozemacError::InvalidBase64 { .. })
    ));
    assert!(matches!(
        alice.create_outbound_session(id, "!!!".to_string()),
        Err(VodozemacError::InvalidBase64 { .. })
    ));
}

#[test]
fn inbound_session_rejects_bad_base64_and_unknown_keys() {
    let mut bob = Account::new();
    assert!(matches!(
        bob.create_inbound_session("???".to_string()),
        Err(VodozemacError::InvalidBase64 { .. })
    ));

    // A pre-key message for a one-time key that Bob never had.
    let mut carol = Account::new();
    carol.generate_one_time_keys(1).unwrap();
    let carol_id: serde_json::Value =
        serde_json::from_str(&carol.identity_keys().unwrap()).unwrap();
    let carol_id = carol_id["curve25519"].as_str().unwrap().to_string();
    let carol_otk = first_key(&carol.one_time_keys().unwrap());
    let alice = Account::new();
    let mut s = alice.create_outbound_session(carol_id, carol_otk).unwrap();
    let enc: serde_json::Value = serde_json::from_str(&s.encrypt("x".into()).unwrap()).unwrap();
    let body = enc["body"].as_str().unwrap().to_string();
    assert!(matches!(
        bob.create_inbound_session(body),
        Err(VodozemacError::SessionError { .. })
    ));
}

#[test]
fn inbound_result_reports_sender_identity_key() {
    let alice = Account::new();
    let mut bob = Account::new();
    bob.generate_one_time_keys(1).unwrap();
    let bob_id: serde_json::Value = serde_json::from_str(&bob.identity_keys().unwrap()).unwrap();
    let bob_id = bob_id["curve25519"].as_str().unwrap().to_string();
    let bob_otk = first_key(&bob.one_time_keys().unwrap());
    let mut s = alice.create_outbound_session(bob_id, bob_otk).unwrap();
    let enc: serde_json::Value = serde_json::from_str(&s.encrypt("hey".into()).unwrap()).unwrap();
    let inbound = bob.create_inbound_session(enc["body"].as_str().unwrap().to_string()).unwrap();
    let alice_id: serde_json::Value =
        serde_json::from_str(&alice.identity_keys().unwrap()).unwrap();
    assert_eq!(inbound.sender_identity_key(), alice_id["curve25519"].as_str().unwrap());
    assert_eq!(inbound.plaintext(), "hey");
}

#[test]
fn message_types_follow_has_received_message() {
    let alice = Account::new();
    let mut bob = Account::new();
    bob.generate_one_time_keys(1).unwrap();
    let bob_id: serde_json::Value = serde_json::from_str(&bob.identity_keys().unwrap()).unwrap();
    let bob_id = bob_id["curve25519"].as_str().unwrap().to_string();
    let bob_otk = first_key(&bob.one_time_keys().unwrap());
    let mut a = alice.create_outbound_session(bob_id, bob_otk).unwrap();
    assert!(!a.has_received_message().unwrap());
    let m1: serde_json::Value = serde_json::from_str(&a.encrypt("1".into()).unwrap()).unwrap();
    assert_eq!(m1["type"], 0);
    let mut inbound = bob.create_inbound_session(m1["body"].as_str().unwrap().to_string()).unwrap();
    let mut b = inbound.take_session().unwrap();
    assert!(b.has_received_message().unwrap());
    assert_eq!(a.session_id().unwrap(), b.session_id().unwrap());
    let m2: serde_json::Value = serde_json::from_str(&b.encrypt("2".into()).unwrap()).unwrap();
    assert_eq!(m2["type"], 1);
    assert_eq!(a.decrypt(1, m2["body"].as_str().unwrap().to_string()).unwrap(), "2");
    assert!(a.has_received_message().unwrap());
    let m3: serde_json::Value = serde_json::from_str(&a.encrypt("3".into()).unwrap()).unwrap();
    assert_eq!(m3["type"], 1);
}

#[test]
fn decrypt_rejects_unknown_message_type() {
    let alice = Account::new();
    let mut bob = Account::new();
    bob.generate_one_time_keys(1).unwrap();
    let bob_id: serde_json::Value = serde_json::from_str(&bob.identity_keys().unwrap()).unwrap();
    let bob_id = bob_id["curve25519"].as_str().unwrap().to_string();
    let bob_otk = first_key(&bob.one_time_keys().unwrap());
    let mut a = alice.create_outbound_session(bob_id, bob_otk).unwrap();
    match a.decrypt(2, "AAAA".to_string()) {
        Err(VodozemacError::InvalidMessageType { value }) => assert_eq!(value, 2),
        other => panic!("unexpected {:?}", other),
    }
    assert!(matches!(
        a.decrypt(0, "@@@".to_string()),
        Err(VodozemacError::InvalidBase64 { .. })
    ));
    assert!(matches!(
        a.decrypt(1, "@@@".to_string()),
        Err(VodozemacError::InvalidBase64 { .. })
    ));
}

#[test]
fn decrypt_of_foreign_message_fails() {
    let alice = Account::new();
    let mut bob = Account::new();
    bob.generate_one_time_keys(2).unwrap();
    let bob_id: serde_json::Value = serde_json::from_str(&bob.identity_keys().unwrap()).unwrap();
    let bob_id = bob_id["curve25519"].as_str().unwrap().to_string();
    let otks: serde_json::Value = serde_json::from_str(&bob.one_time_keys().unwrap()).unwrap();
    let otks: Vec<String> = otks["curve25519"]
        .as_object()
        .unwrap()
        .values()
        .map(|v| v.as_str().unwrap().to_string())
        .collect();
    let mut s1 = alice.create_outbound_session(bob_id.clone(), otks[0].clone()).unwrap();
    let mut s2 = alice.create_outbound_session(bob_id, otks[1].clone()).unwrap();
    let m: serde_json::Value = serde_json::from_str(&s1.encrypt("x".into()).unwrap()).unwrap();
    assert!(matches!(
        s2.decrypt(0, m["body"].as_str().unwrap().to_string()),
        Err(VodozemacError::DecryptError { .. })
    ));
}

#[test]
fn session_pickle_roundtrip() {
    let alice = Account::new();
    let mut bob = Account::new();
    bob.generate_one_time_keys(1).unwrap();
    let bob_id: serde_json::Value = serde_json::from_str(&bob.identity_keys().unwrap()).unwrap();
    let bob_id = bob_id["curve25519"].as_str().unwrap().to_string();
    let bob_otk = first_key(&bob.one_time_keys().unwrap());
    let s = alice.create_outbound_session(bob_id, bob_otk).unwrap();
    let restored = vodozemac_ffi::Session::from_pickle(s.pickle().unwrap()).unwrap();
    assert_eq!(restored.session_id().unwrap(), s.session_id().unwrap());
    assert_eq!(restored.has_received_message().unwrap(), false);
}

#[test]
fn from_pickle_rejects_garbage() {
    assert!(matches!(
        Account::from_pickle("{}".to_string()),
        Err(VodozemacError::InvalidPickle { .. })
    ));
    assert!(matches!(
        vodozemac_ffi::Session::from_pickle("not json".to_string()),
        Err(VodozemacError::InvalidPickle { .. })
    ));
}

fn bob_with_keys() -> (Account, String, String) {
    let mut bob = Account::new();
    bob.generate_one_time_keys(1).unwrap();
    let ids: serde_json::Value = serde_json::from_str(&bob.identity_keys().unwrap()).unwrap();
    let curve = ids["curve25519"].as_str().unwrap().to_string();
    let otk = first_key(&bob.one_time_keys().unwrap());
    (bob, curve, otk)
}

fn message_parts(json: &str) -> (u8, String) {
    let v: serde_json::Value = serde_json::from_str(json).unwrap();
    (v["type"].as_u64().unwrap() as u8, v["body"].as_str().unwrap().to_string())
}

#[test]
fn generating_two_keys_on_a_new_account_lists_exactly_two() {
    let mut acc = Account::new();
    acc.generate_one_time_keys(2).unwrap();
    let v: serde_json::Value = serde_json::from_str(&acc.one_time_keys().unwrap()).unwrap();
    assert_eq!(v["curve25519"].as_object().unwrap().len(), 2);
    acc.generate_one_time_keys(3).unwrap();
    let w: serde_json::Value = serde_json::from_str(&acc.one_time_keys().unwrap()).unwrap();
    let after = w["curve25519"].as_object().unwrap();
    assert_eq!(after.len(), 5);
    for (id, key) in v["curve25519"].as_object().unwrap() {
        assert_eq!(after.get(id), Some(key));
    }
}

#[test]
fn fallback_key_holds_one_entry_until_published() {
    let mut acc = Account::new();
    let empty: serde_json::Value = serde_json::from_str(&acc.fallback_key().unwrap()).unwrap();
    assert_eq!(empty["curve25519"].as_object().unwrap().len(), 0);
    acc.generate_fallback_key().unwrap();
    acc.generate_fallback_key().unwrap();
    let one: serde_json::Value = serde_json::from_str(&acc.fallback_key().unwrap()).unwrap();
    assert_eq!(one["curve25519"].as_object().unwrap().len(), 1);
    acc.mark_keys_as_published().unwrap();
    let none: serde_json::Value = serde_json::from_str(&acc.fallback_key().unwrap()).unwrap();
    assert_eq!(none["curve25519"].as_object().unwrap().len(), 0);
}

#[test]
fn outbound_session_with_fallback_key_reaches_peer() {
    let mut bob = Account::new();
    bob.generate_fallback_key().unwrap();
    let ids: serde_json::Value = serde_json::from_str(&bob.identity_keys().unwrap()).unwrap();
    let curve = ids["curve25519"].as_str().unwrap().to_string();
    let fallback = first_key(&bob.fallback_key().unwrap());
    let alice = Account::new();
    let mut s = alice.create_outbound_session(curve, fallback).unwrap();
    let (t, body) = message_parts(&s.encrypt("via fallback".to_string()).unwrap());
    assert_eq!(t, 0);
    let inbound = bob.create_inbound_session(body).unwrap();
    assert_eq!(inbound.plaintext(), "via fallback");
}

#[test]
fn replayed_prekey_message_is_refused() {
    let (mut bob, curve, otk) = bob_with_keys();
    let alice = Account::new();
    let mut s = alice.create_outbound_session(curve, otk).unwrap();
    let (_, body) = message_parts(&s.encrypt("once".to_string()).unwrap());
    assert!(bob.create_inbound_session(body.clone()).is_ok());
    assert!(matches!(bob.create_inbound_session(body), Err(VodozemacError::SessionError { .. })));
}

#[test]
fn normal_message_decrypts_once() {
    let (mut bob, curve, otk) = bob_with_keys();
    let alice = Account::new();
    let mut a = alice.create_outbound_session(curve, otk).unwrap();
    let (_, body) = message_parts(&a.encrypt("hello".to_string()).unwrap());
    let mut b = bob.create_inbound_session(body.clone()).unwrap().take_session().unwrap();
    assert!(matches!(b.decrypt(0, body), Err(VodozemacError::DecryptError { .. })));
    let (t, reply) = message_parts(&b.encrypt("reply".to_string()).unwrap());
    assert_eq!(t, 1);
    assert_eq!(a.decrypt(t, reply.clone()).unwrap(), "reply");
    assert!(matches!(a.decrypt(t, reply), Err(VodozemacError::DecryptError { .. })));
    assert!(a.has_received_message().unwrap());
}

#[test]
fn failed_decrypt_keeps_has_received_message() {
    let (_bob, curve, otk) = bob_with_keys();
    let alice = Account::new();
    let mut a = alice.create_outbound_session(curve, otk).unwrap();
    let (_, body) = message_parts(&a.encrypt("hello".to_string()).unwrap());
    assert!(a.decrypt(0, body).is_err());
    assert!(!a.has_received_message().unwrap());
    let (t, _) = message_parts(&a.encrypt("again".to_string()).unwrap());
    assert_eq!(t, 0);
}

#[test]
fn restored_sessions_keep_talking() {
    let (mut bob, curve, otk) = bob_with_keys();
    let alice = Account::new();
    let a0 = alice.create_outbound_session(curve, otk).unwrap();
    let mut a = vodozemac_ffi::Session::from_pickle(a0.pickle().unwrap()).unwrap();
    assert_eq!(a.session_id().unwrap(), a0.session_id().unwrap());
    let (_, body) = message_parts(&a.encrypt("first".to_string()).unwrap());
    let mut inbound = bob.create_inbound_session(body).unwrap();
    assert_eq!(inbound.plaintext(), "first");
    let b0 = inbound.take_session().unwrap();
    assert_eq!(b0.session_id().unwrap(), a.session_id().unwrap());
    let mut b = vodozemac_ffi::Session::from_pickle(b0.pickle().unwrap()).unwrap();
    assert!(b.has_received_message().unwrap());
    let (t, reply) = message_parts(&b.encrypt("second".to_string()).unwrap());
    assert_eq!(a.decrypt(t, reply).unwrap(), "second");
    let mut a2 = vodozemac_ffi::Session::from_pickle(a.pickle().unwrap()).unwrap();
    let (t2, body2) = message_parts(&a2.encrypt("third".to_string()).unwrap());
    assert_eq!(t2, 1);
    assert_eq!(b.decrypt(t2, body2).unwrap(), "third");
}

#[test]
fn reply_reaches_sender_after_more_first_chain_messages() {
    let (mut bob, curve, otk) = bob_with_keys();
    let alice = Account::new();
    let mut a = alice.create_outbound_session(curve, otk).unwrap();
    let (_, first) = message_parts(&a.encrypt("one".to_string()).unwrap());
    let mut b = bob.create_inbound_session(first).unwrap().take_session().unwrap();
    let (t2, second) = message_parts(&a.encrypt("two".to_string()).unwrap());
    assert_eq!(t2, 0);
    let (t, reply) = message_parts(&b.encrypt("back".to_string()).unwrap());
    assert_eq!(t, 1);
    let (_, third) = message_parts(&a.encrypt("three".to_string()).unwrap());
    assert_eq!(a.decrypt(t, reply).unwrap(), "back");
    assert_eq!(b.decrypt(0, second).unwrap(), "two");
    assert_eq!(b.decrypt(0, third).unwrap(), "three");
}

#[test]
fn failed_decrypt_on_first_chain_changes_nothing() {
    let (_bob, curve, otk) = bob_with_keys();
    let alice = Account::new();
    let mut a = alice.create_outbound_session(curve, otk).unwrap();
    let before = a.pickle().unwrap();
    let (_, body) = message_parts(&Account::new()
        .create_outbound_session(
            serde_json::from_str::<serde_json::Value>(&alice.identity_keys().unwrap()).unwrap()
                ["curve25519"]
                .as_str()
                .unwrap()
                .to_string(),
            first_key(&{
                let mut c = Account::new();
                c.generate_one_time_keys(1).unwrap();
                c.one_time_keys().unwrap()
            }),
        )
        .unwrap()
        .encrypt("stray".to_string())
        .unwrap());
    assert!(matches!(a.decrypt(0, body), Err(VodozemacError::DecryptError { .. })));
    assert_eq!(a.pickle().unwrap(), before);
}

#[test]
fn long_conversation_round_trips_both_ways() {
    let (mut bob, curve, otk) = bob_with_keys();
    let alice = Account::new();
    let alice_curve: serde_json::Value =
        serde_json::from_str(&alice.identity_keys().unwrap()).unwrap();
    let mut a = alice.create_outbound_session(curve, otk).unwrap();
    let (_, first) = message_parts(&a.encrypt("a1".to_string()).unwrap());
    let (t2, second) = message_parts(&a.encrypt("a2".to_string()).unwrap());
    let mut inbound = bob.create_inbound_session(first).unwrap();
    assert_eq!(inbound.sender_identity_key(), alice_curve["curve25519"].as_str().unwrap());
    let mut b = inbound.take_session().unwrap();
    assert_eq!(b.decrypt(t2, second).unwrap(), "a2");
    for round in 0..4 {
        let (tb1, b1) = message_parts(&b.encrypt(format!("b{}-1", round)).unwrap());
        let (tb2, b2) = message_parts(&b.encrypt(format!("b{}-2", round)).unwrap());
        assert_eq!((tb1, tb2), (1, 1));
        assert_eq!(a.decrypt(tb2, b2).unwrap(), format!("b{}-2", round));
        assert_eq!(a.decrypt(tb1, b1).unwrap(), format!("b{}-1", round));
        let (ta, a1) = message_parts(&a.encrypt(format!("a{}", round)).unwrap());
        assert_eq!(ta, 1);
        assert_eq!(b.decrypt(ta, a1).unwrap(), format!("a{}", round));
    }
}

#[test]
fn unknown_message_type_changes_nothing() {
    let (_bob, curve, otk) = bob_with_keys();
    let mut a = Account::new().create_outbound_session(curve, otk).unwrap();
    let before = a.pickle().unwrap();
    assert!(matches!(
        a.decrypt(7, "anything".to_string()),
        Err(VodozemacError::InvalidMessageType { value: 7 })
    ));
    assert_eq!(a.pickle().unwrap(), before);
}
