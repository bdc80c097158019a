use vodozemac_ffi::{GroupSession, InboundGroupSession, VodozemacError};

/// Outbound to inbound round trip, ratchet indexes, pickling, late joiners
/// and export/import.
#[test]
fn megolm_roundtrip_pickle_and_export() {
    let mut outbound = GroupSession::new();
    assert_eq!(outbound.message_index().unwrap(), 0);
    let session_key = outbound.session_key().unwrap();
    let session_id = outbound.session_id().unwrap();

    let mut inbound = InboundGroupSession::new(session_key).unwrap();
    assert_eq!(inbound.session_id().unwrap(), session_id);
    assert_eq!(inbound.first_known_index().unwrap(), 0);

    let bodies: Vec<String> = ["first", "second", "third"]
        .iter()
        .map(|m| outbound.encrypt(m.to_string()).unwrap())
        .collect();
    assert_eq!(outbound.message_index().unwrap(), 3);
    for (i, body) in bodies.iter().enumerate() {
        let out: serde_json::Value =
            serde_json::from_str(&inbound.decrypt(body.clone()).unwrap()).unwrap();
        assert_eq!(out["plaintext"], ["first", "second", "third"][i]);
        assert_eq!(out["messageIndex"], i as u64);
    }

    let mut outbound2 = GroupSession::from_pickle(outbound.pickle().unwrap()).unwrap();
    let mut inbound2 = InboundGroupSession::from_pickle(inbound.pickle().unwrap()).unwrap();
    let m4 = outbound2.encrypt("fourth".to_string()).unwrap();
    let out: serde_json::Value = serde_json::from_str(&inbound2.decrypt(m4).unwrap()).unwrap();
    assert_eq!(out["plaintext"], "fourth");

    let mut late = InboundGroupSession::new(outbound2.session_key().unwrap()).unwrap();
    assert_eq!(late.first_known_index().unwrap(), 4);
    assert!(late.decrypt(bodies[0].clone()).is_err());

    let exported = inbound2.export_at(2).unwrap().expect("export at known index");
    let mut imported = InboundGroupSession::import_session(exported).unwrap();
    assert_eq!(imported.first_known_index().unwrap(), 2);
    let out: serde_json::Value =
        serde_json::from_str(&imported.decrypt(bodies[2].clone()).unwrap()).unwrap();
    assert_eq!(out["plaintext"], "third");
    assert!(imported.decrypt(bodies[0].clone()).is_err());
    assert!(imported.export_at(0).unwrap().is_none());
}

#[test]
fn decrypt_json_is_exact() {
    let mut outbound = GroupSession::new();
    let mut inbound = InboundGroupSession::new(outbound.session_key().unwrap()).unwrap();
    let body = outbound.encrypt("say \"hi\"".to_string()).unwrap();
    assert_eq!(
        inbound.decrypt(body).unwrap(),
        "{\"plaintext\":\"say \\\"hi\\\"\",\"messageIndex\":0}"
    );
}

#[test]
fn session_keys_follow_the_ratchet() {
    let mut outbound = GroupSession::new();
    for _ in 0..12 {
        outbound.encrypt("x".to_string()).unwrap();
    }
    assert_eq!(outbound.message_index().unwrap(), 12);
    let late = InboundGroupSession::new(outbound.session_key().unwrap()).unwrap();
    assert_eq!(late.first_known_index().unwrap(), 12);
    assert_eq!(late.session_id().unwrap(), outbound.session_id().unwrap());
    let mut late = late;
    let body = outbound.encrypt("twelve".to_string()).unwrap();
    assert_eq!(late.decrypt(body).unwrap(), "{\"plaintext\":\"twelve\",\"messageIndex\":12}");
}

#[test]
fn export_below_first_known_index_is_none() {
    let mut outbound = GroupSession::new();
    outbound.encrypt("a".to_string()).unwrap();
    outbound.encrypt("b".to_string()).unwrap();
    let mut inbound = InboundGroupSession::new(outbound.session_key().unwrap()).unwrap();
    assert_eq!(inbound.first_known_index().unwrap(), 2);
    assert!(inbound.export_at(1).unwrap().is_none());
    let at2 = inbound.export_at(2).unwrap().unwrap();
    let at5 = inbound.export_at(5).unwrap().unwrap();
    let imported = InboundGroupSession::import_session(at5).unwrap();
    assert_eq!(imported.first_known_index().unwrap(), 5);
    assert_eq!(imported.session_id().unwrap(), inbound.session_id().unwrap());
    assert_eq!(inbound.first_known_index().unwrap(), 2);
    assert!(InboundGroupSession::import_session(at2).is_ok());
}

#[test]
fn group_pickles_keep_state() {
    let mut outbound = GroupSession::new();
    outbound.encrypt("a".to_string()).unwrap();
    let restored = GroupSession::from_pickle(outbound.pickle().unwrap()).unwrap();
    assert_eq!(restored.message_index().unwrap(), 1);
    assert_eq!(restored.session_id().unwrap(), outbound.session_id().unwrap());
    assert_eq!(restored.session_key().unwrap(), outbound.session_key().unwrap());
    let inbound = InboundGroupSession::new(outbound.session_key().unwrap()).unwrap();
    let restored = InboundGroupSession::from_pickle(inbound.pickle().unwrap()).unwrap();
    assert_eq!(restored.first_known_index().unwrap(), 1);
    assert_eq!(restored.session_id().unwrap(), inbound.session_id().unwrap());
}

#[test]
fn megolm_errors() {
    assert!(matches!(
        InboundGroupSession::new("not a key".to_string()),
        Err(VodozemacError::InvalidBase64 { .. })
    ));
    assert!(matches!(
        InboundGroupSession::import_session("not a key".to_string()),
        Err(VodozemacError::InvalidBase64 { .. })
    ));
    assert!(matches!(
        GroupSession::from_pickle("[]".to_string()),
        Err(VodozemacError::InvalidPickle { .. })
    ));
    assert!(matches!(
        InboundGroupSession::from_pickle("".to_string()),
        Err(VodozemacError::InvalidPickle { .. })
    ));

    let mut a = GroupSession::new();
    let b = GroupSession::new();
    let mut inbound_b = InboundGroupSession::new(b.session_key().unwrap()).unwrap();
    assert!(matches!(
        inbound_b.decrypt("@@@".to_string()),
        Err(VodozemacError::InvalidBase64 { .. })
    ));
    let body = a.encrypt("for a".to_string()).unwrap();
    assert!(matches!(inbound_b.decrypt(body), Err(VodozemacError::DecryptError { .. })));
}

#[test]
fn invalid_utf8_plaintext_is_reported() {
    let mut raw = vodozemac::megolm::GroupSession::new(vodozemac::megolm::SessionConfig::version_1());
    let key = raw.session_key().to_base64();
    let body = raw.encrypt([0xffu8, 0xfe]).to_base64();
    let mut inbound = InboundGroupSession::new(key).unwrap();
    assert!(matches!(inbound.decrypt(body), Err(VodozemacError::InvalidUtf8 { .. })));
}

fn plaintext_of(json: &str) -> (String, u64) {
    let v: serde_json::Value = serde_json::from_str(json).unwrap();
    (v["plaintext"].as_str().unwrap().to_string(), v["messageIndex"].as_u64().unwrap())
}

#[test]
fn member_from_an_earlier_key_decrypts_later_messages() {
    let mut outbound = GroupSession::new();
    outbound.encrypt("before".to_string()).unwrap();
    let key = outbound.session_key().unwrap();
    let mut member = InboundGroupSession::new(key).unwrap();
    let mut bodies = Vec::new();
    for i in 0..5 {
        bodies.push(outbound.encrypt(format!("m{}", i)).unwrap());
    }
    for (i, body) in bodies.iter().enumerate().rev() {
        assert_eq!(plaintext_of(&member.decrypt(body.clone()).unwrap()), (format!("m{}", i), i as u64 + 1));
    }
}

#[test]
fn failed_decrypt_changes_nothing() {
    let mut outbound = GroupSession::new();
    let mut member = InboundGroupSession::new(outbound.session_key().unwrap()).unwrap();
    let body = outbound.encrypt("kept".to_string()).unwrap();
    let pickle_before = member.pickle().unwrap();
    let mut other = GroupSession::new();
    let foreign = other.encrypt("foreign".to_string()).unwrap();
    assert!(member.decrypt(foreign).is_err());
    assert!(member.decrypt("not base64!".to_string()).is_err());
    assert_eq!(member.pickle().unwrap(), pickle_before);
    assert_eq!(plaintext_of(&member.decrypt(body.clone()).unwrap()), ("kept".to_string(), 0));
    assert_eq!(plaintext_of(&member.decrypt(body).unwrap()), ("kept".to_string(), 0));
}

#[test]
fn imported_session_follows_the_sender() {
    let mut outbound = GroupSession::new();
    let mut member = InboundGroupSession::new(outbound.session_key().unwrap()).unwrap();
    outbound.encrypt("zero".to_string()).unwrap();
    let exported = member.export_at(1).unwrap().unwrap();
    let mut newcomer = InboundGroupSession::import_session(exported).unwrap();
    assert_eq!(newcomer.session_id().unwrap(), outbound.session_id().unwrap());
    let body = outbound.encrypt("one".to_string()).unwrap();
    assert_eq!(plaintext_of(&newcomer.decrypt(body).unwrap()), ("one".to_string(), 1));
    let restored = InboundGroupSession::from_pickle(newcomer.pickle().unwrap()).unwrap();
    assert_eq!(restored.first_known_index().unwrap(), 1);
}
