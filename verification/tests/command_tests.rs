use kv_client::util::clock::{secs_of_reading, timestamp_parts_of};
use kv_client::commands::command::RetryReq;
use kv_client::commands::command_ops::bloom_filter::bloom_filter_config::BloomFilterConfig;
use kv_client::commands::command_ops::bloom_filter::bloom_filter_req::{
    BloomFilterCfgReq, BloomFilterReq,
};
use kv_client::commands::command_ops::bloom_filter::bloom_filter_res::BloomFilterRes;
use kv_client::commands::command_ops::counter::counter_req::CounterReq;
use kv_client::commands::command_ops::counter::counter_res::CounterRes;
use kv_client::commands::command_ops::rate_limiter::rate_limiter_config::RateLimiterConfig;
use kv_client::commands::command_ops::rate_limiter::rate_limiter_req::{
    RateLimiterCfgReq, RateLimiterReq,
};
use kv_client::commands::command_ops::rate_limiter::rate_limiter_res::RateLimiterRes;
use kv_client::commands::command_ops::text::text_req::TextReq;
use kv_client::commands::command_ops::text::text_res::TextRes;
use kv_client::commands::command_ops::txt_arr::txt_arr_req::TxtArrReq;
use kv_client::commands::command_ops::txt_arr::txt_arr_res::TxtArrRes;
use kv_client::commands::command_req::{
    CfgReq, CommandReq, CommandReqSerializer, CommandType, KeyReq, Req, ReqSerializer, ReqType,
    ResParser,
};
use kv_client::commands::command_res::{
    should_update_cluster, CommandRes, ErrorRes, ResType, Response, ServerResponse,
};
use kv_client::commands::command_status::CommandStatus;
use kv_client::commands::connection::{ConnectReq, ConnectRes, ConnectionType};
use kv_client::util::clock::{expiry_secs, get_current_secs};
use kv_client::util::parser::{
    append_bulk_string, append_i64, append_small_string, append_txt_array, append_u64, append_u8,
    ProtoError,
};

fn small(s: &str) -> Vec<u8> {
    let mut v = Vec::new();
    append_small_string(&mut v, s);
    v
}

fn status(code: u8) -> Vec<u8> {
    let mut v = Vec::new();
    append_u8(&mut v, code);
    v
}

fn header(cmd_type: u8, id: [u8; 16], hash: u64, ts: i64) -> Vec<u8> {
    let mut v = vec![b'\n', b'\n', 1, 1];
    v.extend_from_slice(&id);
    v.extend_from_slice(&hash.to_be_bytes());
    v.extend_from_slice(&ts.to_be_bytes());
    v.push(cmd_type);
    v
}

#[test]
fn status_codes() {
    assert_eq!(CommandStatus::of_code(1), CommandStatus::Inserted);
    assert_eq!(CommandStatus::of_code(4), CommandStatus::Okay);
    assert_eq!(CommandStatus::of_code(10), CommandStatus::Queued);
    assert_eq!(CommandStatus::of_code(0), CommandStatus::Error);
    assert_eq!(CommandStatus::from(200u8), CommandStatus::Error);
    assert_eq!(u8::from(&CommandStatus::Found), 6);
    assert_eq!(u8::from(&CommandStatus::Error), 255);
    for code in 1u8..=10 {
        assert_eq!(u8::from(&CommandStatus::of_code(code)), code);
    }
}

#[test]
fn type_codes() {
    assert_eq!(ReqType::from(1u8), ReqType::Client);
    assert_eq!(ReqType::from(9u8), ReqType::Unknown);
    assert_eq!(u8::from(&ReqType::Replica), 2);
    assert_eq!(CommandType::from(2u8), CommandType::Data);
    assert_eq!(u8::from(&CommandType::Cfg), 1);
    assert_eq!(u8::from(&CommandType::Unknown), 255);
    assert_eq!(ResType::from(1u8), ResType::Cfg);
    assert_eq!(ResType::from(3u8), ResType::Unknown);
    assert_eq!(u8::from(&ResType::Data), 2);
    assert_eq!(ServerResponse::from(1u8), ServerResponse::Booting);
    assert_eq!(ServerResponse::from(2u8), ServerResponse::Error);
    assert_eq!(u8::from(ServerResponse::Error), 8);
    assert_eq!(ConnectionType::from(1u8), ConnectionType::Client);
    assert_eq!(ConnectionType::from(0u8), ConnectionType::Unknown);
    assert_eq!(u8::from(&ConnectionType::Server), 2);
}

#[test]
fn configs_to_str() {
    assert_eq!(BloomFilterConfig { item_count: 1000 }.to_str(), "1000");
    assert_eq!(BloomFilterConfig { item_count: -42 }.to_str(), "-42");
    assert_eq!(BloomFilterConfig { item_count: 0 }.to_str(), "0");
    assert_eq!(
        BloomFilterConfig { item_count: i64::MIN }.to_str(),
        "-9223372036854775808"
    );
    assert_eq!(RateLimiterConfig { interval_sec: 60, max_tokens: 100 }.to_str(), "60|100");
    assert_eq!(
        RateLimiterConfig { interval_sec: 0, max_tokens: u64::MAX }.to_str(),
        "0|18446744073709551615"
    );
}

#[test]
fn expiry_of_puts() {
    assert_eq!(expiry_secs(1000, 0), 0);
    assert_eq!(expiry_secs(1000, 10), 1010);
    assert_eq!(expiry_secs(u32::MAX, 2), 1);
    match TextReq::put_at(String::from("v"), 10, 123, 1000) {
        TextReq::Put { timestamp, value, ttl } => {
            assert_eq!((timestamp, value.as_str(), ttl), (123, "v", 1010))
        }
        _ => panic!("not a put"),
    }
    match CounterReq::put_at(5, 0, 9, 1000) {
        CounterReq::Put { value, ttl, timestamp } => assert_eq!((value, ttl, timestamp), (5, 0, 9)),
        _ => panic!("not a put"),
    }
    match TxtArrReq::put_at(vec![String::from("a")], 1, 2, 3) {
        TxtArrReq::Put { timestamp, value, ttl } => {
            assert_eq!((timestamp, value, ttl), (2, vec![String::from("a")], 4))
        }
        _ => panic!("not a put"),
    }
}

#[test]
fn constructors_with_the_clock() {
    match TextReq::put(String::from("x"), 0) {
        TextReq::Put { value, ttl, .. } => assert_eq!((value.as_str(), ttl), ("x", 0)),
        _ => panic!("not a put"),
    }
    let before = get_current_secs();
    match CounterReq::put(3, 60) {
        CounterReq::Put { value, ttl, .. } => {
            assert_eq!(value, 3);
            assert!(ttl >= before.wrapping_add(60));
        }
        _ => panic!("not a put"),
    }
    assert!(matches!(TextReq::get(), TextReq::Get));
    assert!(matches!(TextReq::del(), TextReq::Del { .. }));
    assert!(matches!(CounterReq::inc(), CounterReq::Inc { .. }));
    assert!(matches!(CounterReq::dec(), CounterReq::Dec { .. }));
    assert!(matches!(CounterReq::del(), CounterReq::Del { .. }));
    assert!(matches!(CounterReq::get(), CounterReq::Get));
    assert!(matches!(TxtArrReq::get(), TxtArrReq::Get));
    assert!(matches!(TxtArrReq::del(), TxtArrReq::Del { .. }));
    match BloomFilterReq::add(String::from("k")) {
        BloomFilterReq::Add { config_key, .. } => assert_eq!(config_key, "k"),
        _ => panic!("not an add"),
    }
    match BloomFilterReq::is_consumed(String::from("k")) {
        BloomFilterReq::IsConsumed { config_key } => assert_eq!(config_key, "k"),
        _ => panic!("not is_consumed"),
    }
    match BloomFilterReq::put_cfg(String::from("c"), BloomFilterConfig { item_count: 7 }) {
        BloomFilterCfgReq::PutConfig { config_key, config, .. } => {
            assert_eq!((config_key.as_str(), config.item_count), ("c", 7))
        }
        _ => panic!("not a put_cfg"),
    }
    assert!(matches!(BloomFilterReq::get_cfg(String::from("c")), BloomFilterCfgReq::GetConfig { .. }));
    assert!(matches!(BloomFilterReq::del_cfg(String::from("c")), BloomFilterCfgReq::DelConfig { .. }));
    match RateLimiterReq::consume(String::from("r"), 5) {
        RateLimiterReq::Consume { config_key, tokens } => assert_eq!((config_key.as_str(), tokens), ("r", 5)),
    }
    let cfg = RateLimiterConfig { interval_sec: 1, max_tokens: 2 };
    match RateLimiterReq::put_cfg(String::from("r"), cfg) {
        RateLimiterCfgReq::PutConfig { config_key, config, .. } => {
            assert_eq!((config_key.as_str(), config), ("r", cfg))
        }
        _ => panic!("not a put_cfg"),
    }
    assert!(matches!(RateLimiterReq::get_cfg(String::from("r")), RateLimiterCfgReq::GetConfig { .. }));
    assert!(matches!(RateLimiterReq::del_cfg(String::from("r")), RateLimiterCfgReq::DelConfig { .. }));
}

#[test]
fn command_encodings() {
    let mut buf = Vec::new();
    TextReq::Put { timestamp: 7, value: String::from("hi"), ttl: 9 }.serialize(&mut buf);
    let mut expected = small("TXT");
    expected.extend(small("PUT"));
    append_bulk_string(&mut expected, "hi");
    expected.extend_from_slice(&[0x40, 14, 0, 0, 0, 9]);
    append_i64(&mut expected, 7);
    assert_eq!(buf, expected);

    let mut buf = Vec::new();
    CounterReq::Inc { timestamp: -1 }.serialize(&mut buf);
    let mut expected = small("CNTR");
    expected.extend(small("INC"));
    append_i64(&mut expected, -1);
    assert_eq!(buf, expected);

    let mut buf = Vec::new();
    BloomFilterReq::IsConsumed { config_key: String::from("bf") }.serialize(&mut buf);
    let mut expected = small("BLM_FLTR");
    expected.extend(small("IS_CONSUMED"));
    expected.extend(small("bf"));
    assert_eq!(buf, expected);

    let mut buf = Vec::new();
    RateLimiterCfgReq::PutConfig {
        config_key: String::from("rl"),
        config: RateLimiterConfig { interval_sec: 60, max_tokens: 10 },
        timestamp: 5,
    }
    .serialize(&mut buf);
    let mut expected = small("RT_LMTR");
    expected.extend(small("PUT_CFG"));
    expected.extend(small("rl"));
    append_u64(&mut expected, 60);
    append_u64(&mut expected, 10);
    append_i64(&mut expected, 5);
    assert_eq!(buf, expected);

    let mut buf = Vec::new();
    TxtArrReq::Put { timestamp: 1, value: vec![String::from("a")], ttl: 0 }.serialize(&mut buf);
    let mut expected = small("TXT_ARR");
    expected.extend(small("PUT"));
    append_txt_array(&mut expected, &[String::from("a")]);
    expected.extend_from_slice(&[0x40, 14, 0, 0, 0, 0]);
    append_i64(&mut expected, 1);
    assert_eq!(buf, expected);
}

#[test]
fn request_frames() {
    let id = [3u8; 16];
    let req = Req::Command(KeyReq { key: String::from("k"), req: CommandReq::Text(TextReq::Get) });
    let frame = req.serialize(id, 11, 22);
    let mut expected = header(2, id, 11, 22);
    expected.extend(small("k"));
    expected.extend(small("TXT"));
    expected.extend(small("GET"));
    assert_eq!(frame.to_vec(), expected);

    let cfg = Req::Cfg(CfgReq::BloomFilter(BloomFilterCfgReq::GetConfig {
        config_key: String::from("c"),
    }));
    let frame = cfg.serialize(id, 0, 0);
    let mut expected = header(1, id, 0, 0);
    expected.extend(small("BLM_FLTR"));
    expected.extend(small("GET_CFG"));
    expected.extend(small("c"));
    assert_eq!(frame.to_vec(), expected);

    let retry = RetryReq { command: req, retry_count: 2 };
    assert_eq!(retry.retry_count, 2);
    assert!(matches!(CommandReq::parse(&[1, 2, 3], 0), Err(ProtoError::Unsupported)));
}

#[test]
fn text_answers() {
    let mut buf = small("GET");
    append_bulk_string(&mut buf, "hi");
    buf.extend(status(6));
    match TextRes::parse(&buf, 0) {
        Ok((TextRes::Get { value, status }, n)) => {
            assert_eq!((value.as_str(), status, n), ("hi", CommandStatus::Found, buf.len()))
        }
        other => panic!("unexpected {:?}", other),
    }
    let mut buf = small("PUT");
    buf.extend(status(1));
    assert!(matches!(
        TextRes::parse(&buf, 0),
        Ok((TextRes::Put { status: CommandStatus::Inserted }, 8))
    ));
    let mut buf = small("DEL");
    append_bulk_string(&mut buf, "");
    buf.extend(status(2));
    assert!(matches!(
        TextRes::parse(&buf, 0),
        Ok((TextRes::Del { status: CommandStatus::Deleted, .. }, _))
    ));
    assert!(matches!(TextRes::parse(&small("NOPE"), 0), Err(ProtoError::UnknownCommand)));
    assert!(matches!(TextRes::parse(&small("GET"), 0), Err(ProtoError::UnexpectedEof)));
}

#[test]
fn counter_answers() {
    let mut buf = small("INC");
    append_i64(&mut buf, 42);
    buf.extend(status(4));
    match CounterRes::parse(&buf, 0) {
        Ok((CounterRes::Inc { value, status }, n)) => {
            assert_eq!((value, status, n), (42, CommandStatus::Okay, buf.len()))
        }
        other => panic!("unexpected {:?}", other),
    }
    let mut buf = small("PUT_CFG");
    buf.extend(status(4));
    assert!(matches!(CounterRes::parse(&buf, 0), Ok((CounterRes::PutConfig { .. }, _))));
    let mut buf = small("GET");
    append_i64(&mut buf, -5);
    buf.extend(status(5));
    assert!(matches!(
        CounterRes::parse(&buf, 0),
        Ok((CounterRes::Get { value: -5, status: CommandStatus::NotFound }, _))
    ));
}

#[test]
fn bloom_filter_answers() {
    let mut buf = small("GET_CFG");
    append_u64(&mut buf, 500);
    buf.extend(status(6));
    match BloomFilterRes::parse(&buf, 0) {
        Ok((BloomFilterRes::GetConfig { config, status }, n)) => {
            assert_eq!((config.item_count, status, n), (500, CommandStatus::Found, buf.len()))
        }
        other => panic!("unexpected {:?}", other),
    }
    let mut buf = small("GET_CFG");
    append_u64(&mut buf, u64::MAX);
    buf.extend(status(6));
    assert!(matches!(
        BloomFilterRes::parse(&buf, 0),
        Ok((BloomFilterRes::GetConfig { config: BloomFilterConfig { item_count: -1 }, .. }, _))
    ));
    let mut buf = small("STORE");
    buf.extend(status(10));
    assert!(matches!(
        BloomFilterRes::parse(&buf, 0),
        Ok((BloomFilterRes::Store { status: CommandStatus::Queued }, _))
    ));
    let mut buf = small("IS_CONSUMED");
    buf.extend(status(5));
    assert!(matches!(BloomFilterRes::parse(&buf, 0), Ok((BloomFilterRes::IsConsumed { .. }, _))));
}

#[test]
fn rate_limiter_answers() {
    let mut buf = small("DEL_CFG");
    append_u64(&mut buf, 60);
    append_u64(&mut buf, 100);
    buf.extend(status(2));
    match RateLimiterRes::parse(&buf, 0) {
        Ok((RateLimiterRes::DelConfig { config, status }, n)) => {
            assert_eq!(config, RateLimiterConfig { interval_sec: 60, max_tokens: 100 });
            assert_eq!((status, n), (CommandStatus::Deleted, buf.len()));
        }
        other => panic!("unexpected {:?}", other),
    }
    let mut buf = small("CONSUME");
    buf.extend(status(3));
    assert!(matches!(
        RateLimiterRes::parse(&buf, 0),
        Ok((RateLimiterRes::Consume { status: CommandStatus::RateLimited }, _))
    ));
}

#[test]
fn txt_arr_answers() {
    let mut buf = small("GET");
    append_txt_array(&mut buf, &[String::from("x"), String::from("yz")]);
    buf.extend(status(6));
    match TxtArrRes::parse(&buf, 0) {
        Ok((TxtArrRes::Get { value, status }, n)) => {
            assert_eq!(value, vec![String::from("x"), String::from("yz")]);
            assert_eq!((status, n), (CommandStatus::Found, buf.len()));
        }
        other => panic!("unexpected {:?}", other),
    }
}

#[test]
fn whole_answers() {
    let mut buf = small("TXT");
    buf.extend(small("PUT"));
    buf.extend(status(1));
    assert!(matches!(
        CommandRes::parse(&buf, 0),
        Ok((CommandRes::Text(TextRes::Put { status: CommandStatus::Inserted }), _))
    ));

    let mut buf = small("ERR");
    buf.extend(small("bad key"));
    buf.extend(status(255));
    match CommandRes::parse(&buf, 0) {
        Ok((CommandRes::Error(ErrorRes { message, status }), _)) => {
            assert_eq!((message.as_str(), status), ("bad key", CommandStatus::Error))
        }
        other => panic!("unexpected {:?}", other),
    }

    let mut buf = small("RESP");
    buf.extend(status(1));
    assert!(matches!(
        CommandRes::parse(&buf, 0),
        Ok((CommandRes::Response(Response { status: ServerResponse::Booting }), 9))
    ));

    let mut buf = small("CNTR");
    buf.extend(small("DEC"));
    append_i64(&mut buf, 0);
    buf.extend(status(4));
    assert!(matches!(CommandRes::parse(&buf, 0), Ok((CommandRes::Counter(CounterRes::Dec { .. }), _))));

    assert!(matches!(CommandRes::parse(&small("WHAT"), 0), Err(ProtoError::UnknownCommand)));
    assert!(matches!(CommandRes::parse(&[0x2b, 1, 0xff], 0), Err(ProtoError::InvalidUtf8)));
    assert!(matches!(
        CommandRes::parse(&[0x40], 0),
        Err(ProtoError::ExpectedMarker { expected: 0x2b, found: 0x40 })
    ));
}

#[test]
fn connect_messages() {
    let frame = ConnectReq::serialize("{}");
    assert_eq!(frame.to_vec(), vec![0x2b, 2, b'{', b'}']);
    assert_eq!(ConnectReq::parse(&frame, 0), Ok((String::from("{}"), 4)));

    let mut buf = vec![b'\n', b'\n', 1, 0, 2];
    buf.extend(small("CONNECT"));
    buf.extend(small("welcome"));
    match ConnectRes::parse(&buf, 0) {
        Ok(((res, cluster), n)) => {
            assert_eq!((res.message.as_str(), cluster, n), ("welcome", None, buf.len()))
        }
        Err(e) => panic!("unexpected {:?}", e),
    }

    let mut buf = vec![b'\n', b'\n', 1, 1];
    append_bulk_string(&mut buf, "{\"hash\":1}");
    buf.push(1);
    buf.extend(small("CONNECT"));
    buf.extend(small(""));
    match ConnectRes::parse(&buf, 0) {
        Ok(((_, cluster), _)) => assert_eq!(cluster, Some(String::from("{\"hash\":1}"))),
        Err(e) => panic!("unexpected {:?}", e),
    }

    let mut buf = vec![b'\n', b'\n', 1, 0, 2];
    buf.extend(small("TXT"));
    assert!(matches!(ConnectRes::parse(&buf, 0), Err(ProtoError::UnknownCommand)));
}

#[test]
fn cluster_update_rule() {
    assert!(should_update_cluster(1, 10, 2, 11));
    assert!(!should_update_cluster(1, 10, 1, 11));
    assert!(!should_update_cluster(1, 10, 2, 10));
    assert!(!should_update_cluster(1, 10, 2, 9));
}

#[test]
fn requests_that_fit_the_wire() {
    let key = |k: String| Req::Command(KeyReq { key: k, req: CommandReq::Text(TextReq::Get) });
    assert!(key("x".repeat(255)).is_encodable());
    assert!(!key("x".repeat(256)).is_encodable());
    assert!(!key("é".repeat(128)).is_encodable());
    let bf = |k: String| Req::Command(KeyReq {
        key: String::from("k"),
        req: CommandReq::BloomFilter(BloomFilterReq::IsConsumed { config_key: k }),
    });
    assert!(bf(String::from("c")).is_encodable());
    assert!(!bf("c".repeat(300)).is_encodable());
    let cfg = |k: String| Req::Cfg(CfgReq::RateLimiter(RateLimiterCfgReq::GetConfig { config_key: k }));
    assert!(cfg(String::new()).is_encodable());
    assert!(!cfg("r".repeat(256)).is_encodable());
}

#[test]
fn config_text_reads_back() {
    for v in [0i64, 7, -42, 1000, i64::MAX, i64::MIN] {
        let text = BloomFilterConfig { item_count: v }.to_str();
        assert_eq!(text.parse::<i64>(), Ok(v));
        assert_eq!(text, v.to_string());
    }
    let text = RateLimiterConfig { interval_sec: 60, max_tokens: u64::MAX }.to_str();
    let parts: Vec<&str> = text.split('|').collect();
    assert_eq!(parts[0].parse::<u64>(), Ok(60));
    assert_eq!(parts[1].parse::<u64>(), Ok(u64::MAX));
}

#[test]
fn clock_readings() {
    assert_eq!(secs_of_reading(None), 0);
    assert_eq!(secs_of_reading(Some(1_700_000_000)), 1_700_000_000);
    assert_eq!(secs_of_reading(Some(0x1_0000_0005)), 5);
    assert_eq!(timestamp_parts_of(Some((5, 7)), None), Some((5, 7)));
    assert_eq!(timestamp_parts_of(None, Some((5, 0))), Some((-5, 0)));
    assert_eq!(timestamp_parts_of(None, Some((5, 250_000_000))), Some((-6, 750_000_000)));
    assert_eq!(timestamp_parts_of(Some((u64::MAX, 0)), None), None);
    assert_eq!(timestamp_parts_of(None, None), None);
    let now = get_current_secs();
    assert!(now > 1_600_000_000);
}

#[test]
fn timestamps_are_current_microseconds() {
    let secs = get_current_secs() as i64;
    match TextReq::del() {
        TextReq::Del { timestamp } => {
            assert!(timestamp / 1_000_000 >= secs - 1);
            assert!(timestamp / 1_000_000 <= secs + 1);
        }
        _ => panic!("not a del"),
    }
}
