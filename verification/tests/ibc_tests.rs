use multi_place::codec::encode_command;
use multi_place::error::ContractError;
use multi_place::ibc::{
    ibc_channel_close, ibc_channel_connect, ibc_channel_open, ibc_packet_ack, ibc_packet_receive,
    ibc_packet_timeout, validate_order_and_version, IbcChannel, IbcOrder, IBC_VERSION,
};
use multi_place::msg::InstantiateMsg;
use multi_place::receiver;
use multi_place::state::{Canvas, Config};

fn channel(order: IbcOrder, version: &str) -> IbcChannel {
    IbcChannel {
        channel_id: "channel-0".to_string(),
        order,
        version: version.to_string(),
    }
}

fn test_config() -> Config {
    let msg = InstantiateMsg { canvas_size: 99, colors_count: Some(15) };
    let (config, _resp) = receiver::instantiate(&"ledger1admin".to_string(), &msg);
    config
}

#[test]
fn handshake_accepts_a_conforming_proposal() {
    let good = channel(IbcOrder::Unordered, IBC_VERSION);
    assert!(validate_order_and_version(&good, None).is_ok());
    let counterparty = IBC_VERSION.to_string();
    assert!(validate_order_and_version(&good, Some(&counterparty)).is_ok());
    assert!(ibc_channel_open(&good, None).is_ok());
}

#[test]
fn handshake_rejects_ordered_channels() {
    let ordered = channel(IbcOrder::Ordered, IBC_VERSION);
    assert!(matches!(
        validate_order_and_version(&ordered, None),
        Err(ContractError::OrderedChannel)
    ));
    assert!(matches!(
        ibc_channel_open(&ordered, None),
        Err(ContractError::OrderedChannel)
    ));
}

#[test]
fn handshake_rejects_a_wrong_local_version() {
    let wrong = channel(IbcOrder::Unordered, "multi-place-2");
    match validate_order_and_version(&wrong, None) {
        Err(ContractError::InvalidVersion { actual, expected }) => {
            assert_eq!(actual, "multi-place-2");
            assert_eq!(expected, "multi-place-1");
        }
        other => panic!("expected InvalidVersion, got {:?}", other),
    }
}

#[test]
fn handshake_rejects_a_wrong_counterparty_version() {
    let good = channel(IbcOrder::Unordered, IBC_VERSION);
    let counterparty = "other-protocol-9".to_string();
    match validate_order_and_version(&good, Some(&counterparty)) {
        Err(ContractError::InvalidVersion { actual, expected }) => {
            assert_eq!(actual, "other-protocol-9");
            assert_eq!(expected, "multi-place-1");
        }
        other => panic!("expected InvalidVersion, got {:?}", other),
    }
}

#[test]
fn connect_reports_the_channel_identifier() {
    let good = channel(IbcOrder::Unordered, IBC_VERSION);
    let resp = ibc_channel_connect(&good, None).unwrap();
    assert_eq!(resp.attributes[0].key, "method");
    assert_eq!(resp.attributes[0].value, "ibc_channel_connect");
    assert_eq!(resp.attributes[1].key, "channel_id");
    assert_eq!(resp.attributes[1].value, "channel-0");
    assert!(resp.messages.is_empty());
}

#[test]
fn connect_checks_the_counterparty_version() {
    let good = channel(IbcOrder::Unordered, IBC_VERSION);
    let counterparty = IBC_VERSION.to_string();
    assert!(ibc_channel_connect(&good, Some(&counterparty)).is_ok());
    let bad = "multi-place-0".to_string();
    assert!(matches!(
        ibc_channel_connect(&good, Some(&bad)),
        Err(ContractError::InvalidVersion { .. })
    ));
}

#[test]
fn connect_aborts_on_mismatch() {
    let wrong = channel(IbcOrder::Unordered, "multi-place-0");
    assert!(ibc_channel_connect(&wrong, None).is_err());
}

#[test]
fn accounting_callbacks_never_fail() {
    let good = channel(IbcOrder::Unordered, IBC_VERSION);
    let close = ibc_channel_close(&good);
    assert_eq!(close.attributes[0].value, "ibc_channel_close");
    assert_eq!(close.attributes[1].value, "channel-0");
    let ack = ibc_packet_ack();
    assert_eq!(ack.attributes[0].value, "ibc_packet_ack");
    let timeout = ibc_packet_timeout();
    assert_eq!(timeout.attributes[0].value, "ibc_packet_timeout");
}

#[test]
fn packet_receive_applies_a_valid_command() {
    let config = test_config();
    let mut canvas = Canvas::new();
    let data = encode_command(50, 7);
    let resp = ibc_packet_receive(&config, &mut canvas, data.as_slice());
    assert_eq!(resp.acknowledgement.as_slice(), br#"{"result":"MQ=="}"#);
    assert_eq!(canvas.get(50), Some(7));
    assert_eq!(resp.attributes.len(), 3);
    assert_eq!(resp.attributes[0].key, "method");
    assert_eq!(resp.attributes[0].value, "execute_set_pixel");
    assert_eq!(resp.attributes[1].key, "pixel");
    assert_eq!(resp.attributes[1].value, "50");
    assert_eq!(resp.attributes[2].key, "color");
    assert_eq!(resp.attributes[2].value, "7");
}

#[test]
fn packet_receive_acknowledges_malformed_payloads() {
    let config = test_config();
    let mut canvas = Canvas::new();
    let resp = ibc_packet_receive(&config, &mut canvas, b"not json at all");
    assert_eq!(
        resp.acknowledgement.as_slice(),
        br#"{"error":"invalid packet data"}"#
    );
    assert_eq!(canvas.get(50), None);
    assert_eq!(resp.attributes.len(), 2);
    assert_eq!(resp.attributes[0].key, "method");
    assert_eq!(resp.attributes[0].value, "ibc_packet_receive");
    assert_eq!(resp.attributes[1].key, "error");
    assert_eq!(resp.attributes[1].value, "invalid packet data");
}

#[test]
fn packet_receive_acknowledges_out_of_bounds_writes() {
    let config = test_config();
    let mut canvas = Canvas::new();
    let data = encode_command(100, 7);
    let resp = ibc_packet_receive(&config, &mut canvas, data.as_slice());
    assert_eq!(
        resp.acknowledgement.as_slice(),
        br#"{"error":"pixel out of bounds"}"#
    );
    assert_eq!(resp.attributes[1].value, "pixel out of bounds");
    assert_eq!(canvas.get(100), None);

    let data = encode_command(50, 16);
    let resp = ibc_packet_receive(&config, &mut canvas, data.as_slice());
    assert_eq!(
        resp.acknowledgement.as_slice(),
        br#"{"error":"unknown color"}"#
    );
    assert_eq!(canvas.get(50), None);
}

#[test]
fn packet_receive_always_produces_a_well_formed_ack() {
    let config = test_config();
    let mut canvas = Canvas::new();
    let inputs: &[&[u8]] = &[
        b"",
        b"\x00\xff\xfe",
        br#"{"set_pixel":{"pixel":1,"color":1}}"#,
        br#"{"set_pixel":{"pixel":1,"color":250}}"#,
        br#"{"unknown":{}}"#,
    ];
    for data in inputs {
        let resp = ibc_packet_receive(&config, &mut canvas, data);
        let v: serde_json::Value = serde_json::from_slice(resp.acknowledgement.as_slice()).unwrap();
        assert!(v.get("result").is_some() || v.get("error").is_some());
    }
}
