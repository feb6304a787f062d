use omp_core::query::{
    client_ping, clients_after_basic, clients_after_detailed, server_info_from_batch_reply,
    server_info_from_replies, server_infos_from_batch, server_target, BasicClient, BatchReply,
    ClientsStep, DetailedClient, InfoReply,
};
use omp_core::response::{
    batch_targets, c_string_payload, error_response, launch_error_response, null_config_response,
    null_ip_response, null_targets_response, panic_response,
};
use omp_core::rules::RuleEntry;
use omp_core::servers::{server_from_record, servers_from_records, ApiOpenMpServer};

fn info() -> InfoReply {
    InfoReply {
        hostname: "My Server".to_string(),
        players: 12,
        max_players: 100,
        gamemode: "Freeroam".to_string(),
        mapname: "English".to_string(),
        password: true,
    }
}

fn record(ip: Option<&str>, hn: Option<&str>) -> ApiOpenMpServer {
    ApiOpenMpServer {
        ip: ip.map(|s| s.to_string()),
        hn: hn.map(|s| s.to_string()),
        pc: None,
        pm: Some(50),
        gm: None,
        la: Some("Polski".to_string()),
        pa: None,
        vn: None,
        omp: Some(true),
        pr: None,
        ru: None,
    }
}

fn json_object(pairs: &[(&str, serde_json::Value)]) -> String {
    let mut m = serde_json::Map::new();
    for (k, v) in pairs {
        m.insert(k.to_string(), v.clone());
    }
    serde_json::Value::Object(m).to_string()
}

#[test]
fn target_is_ip_colon_port() {
    assert_eq!(server_target("127.0.0.1", 7777), "127.0.0.1:7777");
    assert_eq!(server_target("play.example.com", 0), "play.example.com:0");
    assert_eq!(server_target("", 65535), ":65535");
}

#[test]
fn single_server_info() {
    let rules = vec![
        RuleEntry { name: "version".to_string(), value: "omp 1.0".to_string() },
        RuleEntry { name: "weather".to_string(), value: "10".to_string() },
    ];
    let s = server_info_from_replies("1.2.3.4:7777".to_string(), info(), Some(4294967296 + 42), Some(rules));
    assert_eq!(s.target, Some("1.2.3.4:7777".to_string()));
    assert_eq!(s.hostname, "My Server");
    assert_eq!(s.players, 12);
    assert_eq!(s.max_players, 100);
    assert_eq!(s.gamemode, "Freeroam");
    assert_eq!(s.language, "English");
    assert!(s.password);
    assert_eq!(s.ping_ms, 42);
    assert_eq!(s.error, None);
    let r = s.rules.unwrap();
    assert_eq!(r.len(), 2);
    assert_eq!(r.get("weather"), Some("10".to_string()));
}

#[test]
fn single_server_info_without_ping_or_rules() {
    let s = server_info_from_replies("t".to_string(), info(), None, None);
    assert_eq!(s.ping_ms, 0);
    assert_eq!(s.rules.unwrap().len(), 0);
}

#[test]
fn batch_entries() {
    let ok = BatchReply { original_input: "a:1".to_string(), result: Ok(info()), rtt_ms: 35 };
    let s = server_info_from_batch_reply(ok);
    assert_eq!(s.target, Some("a:1".to_string()));
    assert_eq!(s.hostname, "My Server");
    assert_eq!(s.ping_ms, 35);
    assert!(s.rules.is_none());
    assert_eq!(s.error, None);

    let err = BatchReply { original_input: "b:2".to_string(), result: Err("timed out".to_string()), rtt_ms: 2000 };
    let e = server_info_from_batch_reply(err);
    assert_eq!(e.target, Some("b:2".to_string()));
    assert_eq!(e.hostname, "");
    assert_eq!(e.players, 0);
    assert_eq!(e.max_players, 0);
    assert_eq!(e.gamemode, "");
    assert_eq!(e.language, "");
    assert!(!e.password);
    assert_eq!(e.ping_ms, 0);
    assert_eq!(e.error, Some("timed out".to_string()));
}

#[test]
fn batch_keeps_order_and_length() {
    let replies = vec![
        BatchReply { original_input: "x".to_string(), result: Err("e".to_string()), rtt_ms: 0 },
        BatchReply { original_input: "y".to_string(), result: Ok(info()), rtt_ms: 7 },
    ];
    let out = server_infos_from_batch(replies);
    assert_eq!(out.len(), 2);
    assert_eq!(out[0].target, Some("x".to_string()));
    assert_eq!(out[1].target, Some("y".to_string()));
    assert_eq!(out[1].ping_ms, 7);
    assert!(server_infos_from_batch(Vec::new()).is_empty());
}

#[test]
fn player_pings() {
    assert_eq!(client_ping(65535), None);
    assert_eq!(client_ping(4294967295), None);
    assert_eq!(client_ping(0), Some(0));
    assert_eq!(client_ping(65534), Some(65534));
}

#[test]
fn player_lists() {
    let detailed = vec![
        DetailedClient { player_id: 3, name: "Ann".to_string(), score: -5, ping: 65535 },
        DetailedClient { player_id: 9, name: "Bob".to_string(), score: 10, ping: 80 },
    ];
    match clients_after_detailed(Ok(detailed)) {
        ClientsStep::Done(cs) => {
            assert_eq!(cs.len(), 2);
            assert_eq!((cs[0].id, cs[0].name.as_str(), cs[0].score, cs[0].ping), (3, "Ann", -5, None));
            assert_eq!((cs[1].id, cs[1].name.as_str(), cs[1].score, cs[1].ping), (9, "Bob", 10, Some(80)));
        }
        ClientsStep::AskBasicList => panic!("detailed list was given"),
    }
    assert!(matches!(clients_after_detailed(Err("unsupported".to_string())), ClientsStep::AskBasicList));

    let basic = vec![BasicClient { name: "Cid".to_string(), score: 4 }];
    let cs = clients_after_basic(Ok(basic)).unwrap();
    assert_eq!((cs[0].id, cs[0].name.as_str(), cs[0].score, cs[0].ping), (0, "Cid", 4, None));
    assert_eq!(clients_after_basic(Err("timeout".to_string())).unwrap_err(), "timeout");
}

#[test]
fn masterlist_records() {
    assert!(server_from_record(record(None, Some("x"))).is_none());
    let s = server_from_record(record(Some("1.1.1.1:7777"), None)).unwrap();
    assert_eq!(s.ip, "1.1.1.1:7777");
    assert_eq!(s.hn, "");
    assert_eq!(s.pc, 0);
    assert_eq!(s.pm, 50);
    assert_eq!(s.gm, "");
    assert_eq!(s.la, "Polski");
    assert!(!s.pa);
    assert_eq!(s.vn, "");
    assert!(s.omp);
    assert!(!s.pr);
    assert!(s.ru.is_none());

    let list = servers_from_records(vec![
        record(Some("a"), Some("A")),
        record(None, Some("dropped")),
        record(Some("b"), Some("B")),
    ]);
    assert_eq!(list.len(), 2);
    assert_eq!((list[0].ip.as_str(), list[0].hn.as_str()), ("a", "A"));
    assert_eq!((list[1].ip.as_str(), list[1].hn.as_str()), ("b", "B"));
}

#[test]
fn error_answers_match_json_objects() {
    assert_eq!(null_ip_response(), "{\"error\":\"IP is null\"}");
    assert_eq!(null_targets_response(), "{\"error\":\"Targets null\"}");
    assert_eq!(panic_response(), "{\"error\":\"Rust panic caught at FFI boundary\"}");
    assert_eq!(null_config_response(), "{\"error\":\"Config is null\",\"success\":false}");
    let msg = "bad \"quote\" \\ and\nline";
    assert_eq!(error_response(msg), json_object(&[("error", serde_json::Value::String(msg.to_string()))]));
    assert_eq!(
        launch_error_response(msg),
        json_object(&[
            ("success", serde_json::Value::Bool(false)),
            ("error", serde_json::Value::String(msg.to_string())),
        ])
    );
}

#[test]
fn batch_request_parsing() {
    let targets = batch_targets("[\"1.2.3.4:7777\", \"example.org:7778\"]").unwrap();
    assert_eq!(targets, vec!["1.2.3.4:7777".to_string(), "example.org:7778".to_string()]);
    assert!(batch_targets("[]").unwrap().is_empty());
    for bad in ["not json", "[1, 2]", "{\"a\": 1}", ""] {
        let message = serde_json::from_str::<Vec<String>>(bad).unwrap_err().to_string();
        assert_eq!(batch_targets(bad).unwrap_err(), error_response(&message));
    }
}

#[test]
fn c_string_payloads() {
    assert_eq!(c_string_payload("{\"a\":1}".to_string()), "{\"a\":1}");
    assert_eq!(c_string_payload("bad\0text".to_string()), "");
    assert_eq!(c_string_payload(String::new()), "");
}
