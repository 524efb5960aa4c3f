use exchange::bitget_uta_ws_user::{
    clean_text, is_heartbeat_pong, login_payload, parse_user_control, subscribe_payload,
    subscribe_private_payload, BitgetUserControl, BitgetUserWsConfig, SubscriptionArg,
};

#[test]
fn login_payload_uses_official_uta_shape() {
    let payload = login_payload(
        BitgetUserWsConfig {
            api_key: "key",
            api_secret: "secret",
            passphrase: "pass",
        },
        "1700000000000",
        "c2lnbmF0dXJl",
    );
    let value: serde_json::Value = serde_json::from_str(&payload).expect("login json");
    assert_eq!(value["op"], "login");
    assert_eq!(value["args"][0]["apiKey"], "key");
    assert_eq!(value["args"][0]["passphrase"], "pass");
    assert!(value["args"][0]["timestamp"].as_str().is_some());
    assert!(value["args"][0]["sign"].as_str().is_some());
}

#[test]
fn private_subscriptions_are_all_uta_global_without_v2_wildcards() {
    let payload = subscribe_private_payload().expect("subscribe payload");
    let value: serde_json::Value = serde_json::from_str(&payload).expect("subscribe json");
    assert_eq!(value["op"], "subscribe");
    let args = value["args"].as_array().expect("args");
    assert_eq!(args.len(), 4);
    assert_eq!(
        args.iter()
            .map(|arg| arg["topic"].as_str().expect("topic"))
            .collect::<Vec<_>>(),
        vec!["account", "order", "position", "fill"]
    );
    for arg in args {
        assert_eq!(arg["instType"], "UTA");
        assert!(arg.get("symbol").is_none());
        assert!(arg.get("coin").is_none());
    }
}

#[test]
fn subscribe_payload_needs_a_topic() {
    let error = subscribe_payload(&[]).unwrap_err();
    assert!(error.to_text().contains("requires at least one topic"));
    assert_eq!(
        subscribe_payload(&[SubscriptionArg::fill()]).unwrap(),
        r#"{"op":"subscribe","args":[{"instType":"UTA","topic":"fill"}]}"#
    );
}

#[test]
fn heartbeat_pong_gives_no_control() {
    assert!(is_heartbeat_pong(" PONG\n"));
    assert!(!is_heartbeat_pong("ping"));
    assert!(parse_user_control("pong").expect("heartbeat control").is_none());
}

#[test]
fn control_frames_acknowledge_and_reject() {
    match parse_user_control(r#"{"event":"login","code":0}"#).unwrap() {
        Some(BitgetUserControl::Acknowledged { channel, request_id }) => {
            assert_eq!(channel, "login");
            assert_eq!(request_id, None);
        }
        other => panic!("unexpected {other:?}"),
    }
    match parse_user_control(r#"{"event":"subscribe","arg":{"instType":"UTA","topic":" account "}}"#)
        .unwrap()
    {
        Some(BitgetUserControl::Acknowledged { channel, .. }) => assert_eq!(channel, "account"),
        other => panic!("unexpected {other:?}"),
    }
    match parse_user_control(r#"{"event":"error","code":"30005","msg":" bad sign "}"#).unwrap() {
        Some(BitgetUserControl::Rejected {
            channel,
            authentication_failed,
            error,
            ..
        }) => {
            assert_eq!(channel, "login");
            assert!(authentication_failed);
            assert_eq!(error, "code=30005; message=bad sign");
        }
        other => panic!("unexpected {other:?}"),
    }
    match parse_user_control(r#"{"event":"error","code":30016,"id":"req-9"}"#).unwrap() {
        Some(BitgetUserControl::Rejected {
            channel,
            request_id,
            authentication_failed,
            error,
        }) => {
            assert_eq!(channel, "req-9");
            assert_eq!(request_id.as_deref(), Some("req-9"));
            assert!(!authentication_failed);
            assert_eq!(error, "code=30016; event=error");
        }
        other => panic!("unexpected {other:?}"),
    }
    assert!(parse_user_control(r#"{"event":"unsubscribe"}"#).unwrap().is_none());
    assert!(parse_user_control("not json").is_err());
    assert!(parse_user_control(r#"{"event":1}"#).is_err());
}

#[test]
fn clean_text_trims_and_drops_blank() {
    assert_eq!(clean_text("  id-1 "), Some("id-1".to_owned()));
    assert_eq!(clean_text(" \t "), None);
}
