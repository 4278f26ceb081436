use multi_place::error::ContractError;
use multi_place::msg::{ExecuteMsg, InstantiateMsg};
use multi_place::receiver;
use multi_place::sender;
use multi_place::state::Canvas;

fn admin() -> String {
    "ledger1admin".to_string()
}

fn fresh_config(canvas_size: u32, colors_count: Option<u8>) -> multi_place::state::Config {
    let msg = InstantiateMsg { canvas_size, colors_count };
    let (config, _resp) = receiver::instantiate(&admin(), &msg);
    config
}

#[test]
fn instantiate_stores_the_configuration() {
    let msg = InstantiateMsg { canvas_size: 99, colors_count: Some(15) };
    let (config, resp) = receiver::instantiate(&admin(), &msg);
    assert_eq!(config.admin, "ledger1admin");
    assert_eq!(config.canvas_size, 99);
    assert_eq!(config.colors_count, 15);
    assert_eq!(config.ibc_channel, "");
    assert_eq!(resp.attributes.len(), 3);
    assert_eq!(resp.attributes[0].key, "method");
    assert_eq!(resp.attributes[0].value, "instantiate");
    assert_eq!(resp.attributes[1].key, "owner");
    assert_eq!(resp.attributes[1].value, "ledger1admin");
    assert_eq!(resp.attributes[2].key, "canvas_square");
    assert_eq!(resp.attributes[2].value, "99");
}

#[test]
fn instantiate_defaults_to_sixteen_colors() {
    let config = fresh_config(10, None);
    assert_eq!(config.colors_count, 16);
}

#[test]
fn set_channel_requires_the_admin() {
    let mut config = fresh_config(10, None);
    let stranger = "ledger1stranger".to_string();
    let r = receiver::try_set_channel(&mut config, &stranger, "channel-7".to_string());
    assert!(matches!(r, Err(ContractError::Unauthorized)));
    assert_eq!(config.ibc_channel, "");

    let r = receiver::try_set_channel(&mut config, &admin(), "channel-7".to_string());
    assert!(r.is_ok());
    assert_eq!(config.ibc_channel, "channel-7");
}

#[test]
fn receiver_set_pixel_writes_and_reads_back() {
    let config = fresh_config(99, Some(15));
    let mut canvas = Canvas::new();
    let r = receiver::try_set_pixel(&config, &mut canvas, 50, 7);
    assert!(r.is_ok());
    assert_eq!(canvas.get(50), Some(7));
}

#[test]
fn receiver_set_pixel_rejects_out_of_bounds() {
    let config = fresh_config(99, Some(15));
    let mut canvas = Canvas::new();
    let r = receiver::try_set_pixel(&config, &mut canvas, 100, 7);
    assert!(matches!(r, Err(ContractError::PixelOutOfBounds)));
    assert_eq!(canvas.get(100), None);

    let r = receiver::try_set_pixel(&config, &mut canvas, 50, 16);
    assert!(matches!(r, Err(ContractError::UnknownColor)));
    assert_eq!(canvas.get(50), None);
}

#[test]
fn bounds_are_inclusive() {
    let config = fresh_config(99, Some(15));
    let mut canvas = Canvas::new();
    assert!(receiver::try_set_pixel(&config, &mut canvas, 99, 15).is_ok());
    assert_eq!(canvas.get(99), Some(15));
}

#[test]
fn failed_write_leaves_previous_color() {
    let config = fresh_config(99, Some(15));
    let mut canvas = Canvas::new();
    assert!(receiver::try_set_pixel(&config, &mut canvas, 50, 7).is_ok());
    let r = receiver::try_set_pixel(&config, &mut canvas, 50, 16);
    assert!(matches!(r, Err(ContractError::UnknownColor)));
    assert_eq!(canvas.get(50), Some(7));
}

#[test]
fn receiver_execute_dispatches() {
    let mut config = fresh_config(99, Some(15));
    let mut canvas = Canvas::new();
    let r = receiver::execute(
        &mut config,
        &mut canvas,
        &admin(),
        ExecuteMsg::SetPixel { pixel: 3, color: 4 },
    );
    let resp = r.unwrap();
    assert!(resp.messages.is_empty());
    assert_eq!(resp.attributes[0].key, "method");
    assert_eq!(resp.attributes[0].value, "set_pixel");
    assert_eq!(canvas.get(3), Some(4));

    let r = receiver::execute(
        &mut config,
        &mut canvas,
        &admin(),
        ExecuteMsg::SetChannel { channel: "channel-1".to_string() },
    );
    let resp = r.unwrap();
    assert!(resp.messages.is_empty());
    assert_eq!(resp.attributes[0].value, "set_channel");
    assert_eq!(config.ibc_channel, "channel-1");
}

#[test]
fn sender_set_pixel_emits_a_packet() {
    let msg = InstantiateMsg { canvas_size: 99, colors_count: Some(15) };
    let (mut config, _resp) = sender::instantiate(&admin(), &msg);
    sender::try_set_channel(&mut config, &admin(), "channel-3".to_string()).unwrap();
    let now: u64 = 1_000_000;
    let resp = sender::try_set_pixel(&config, now, 50, 7).unwrap();
    assert_eq!(resp.messages.len(), 1);
    assert_eq!(resp.messages[0].channel_id, "channel-3");
    assert_eq!(
        resp.messages[0].data.as_slice(),
        br#"{"set_pixel":{"pixel":50,"color":7}}"#
    );
    assert_eq!(resp.messages[0].timeout_timestamp, now + 120);
}

#[test]
fn sender_set_pixel_validates_before_forwarding() {
    let msg = InstantiateMsg { canvas_size: 99, colors_count: Some(15) };
    let (config, _resp) = sender::instantiate(&admin(), &msg);
    assert!(matches!(
        sender::try_set_pixel(&config, 0, 100, 7),
        Err(ContractError::PixelOutOfBounds)
    ));
    assert!(matches!(
        sender::try_set_pixel(&config, 0, 50, 16),
        Err(ContractError::UnknownColor)
    ));
}

#[test]
fn receiver_execute_rejects_a_stranger_rebinding() {
    let mut config = fresh_config(99, Some(15));
    let mut canvas = Canvas::new();
    let stranger = "ledger1stranger".to_string();
    let r = receiver::execute(
        &mut config,
        &mut canvas,
        &stranger,
        ExecuteMsg::SetChannel { channel: "channel-9".to_string() },
    );
    assert!(matches!(r, Err(ContractError::Unauthorized)));
    assert_eq!(config.ibc_channel, "");
}

#[test]
fn sender_execute_dispatches() {
    let msg = InstantiateMsg { canvas_size: 99, colors_count: Some(15) };
    let (mut config, _resp) = sender::instantiate(&admin(), &msg);
    let r = sender::execute(
        &mut config,
        &admin(),
        500,
        ExecuteMsg::SetChannel { channel: "channel-2".to_string() },
    );
    assert!(r.is_ok());
    assert_eq!(config.ibc_channel, "channel-2");

    let resp = sender::execute(
        &mut config,
        &admin(),
        500,
        ExecuteMsg::SetPixel { pixel: 1, color: 2 },
    )
    .unwrap();
    assert_eq!(resp.messages.len(), 1);
    assert_eq!(resp.messages[0].channel_id, "channel-2");
    assert_eq!(resp.messages[0].timeout_timestamp, 620);
}

#[test]
fn migrate_accepts_only_strictly_older_versions() {
    let name = "crates.io:multi-place-receiver".to_string();
    assert!(receiver::migrate(&name, &"0.0.1".to_string()).is_ok());
    assert!(matches!(
        receiver::migrate(&name, &"0.1.0".to_string()),
        Err(ContractError::BadVersion)
    ));
    assert!(matches!(
        receiver::migrate(&name, &"0.2.0".to_string()),
        Err(ContractError::BadVersion)
    ));
    assert!(matches!(
        receiver::migrate(&name, &"1.0.0".to_string()),
        Err(ContractError::BadVersion)
    ));
}

#[test]
fn migrate_rejects_other_contract_types() {
    let other = "crates.io:something-else".to_string();
    assert!(matches!(
        receiver::migrate(&other, &"0.0.1".to_string()),
        Err(ContractError::TypeMismatch)
    ));
}

#[test]
fn migrate_rejects_unparseable_versions() {
    let name = "crates.io:multi-place-receiver".to_string();
    assert!(matches!(
        receiver::migrate(&name, &"not-a-version".to_string()),
        Err(ContractError::BadVersion)
    ));
}

#[test]
fn sender_migrate_checks_its_own_identity() {
    let receiver_name = "crates.io:multi-place-receiver".to_string();
    assert!(matches!(
        sender::migrate(&receiver_name, &"0.0.1".to_string()),
        Err(ContractError::TypeMismatch)
    ));
    let sender_name = "crates.io:multi-place-sender".to_string();
    assert!(sender::migrate(&sender_name, &"0.0.9".to_string()).is_ok());
}

#[test]
fn error_messages_match_their_causes() {
    assert_eq!(ContractError::UnknownColor.message(), "unknown color");
    assert_eq!(ContractError::PixelOutOfBounds.message(), "pixel out of bounds");
    assert_eq!(
        ContractError::Unauthorized.message(),
        "only admin can execute this function"
    );
    assert_eq!(
        ContractError::OrderedChannel.message(),
        "only unordered channels are supported"
    );
    assert_eq!(
        ContractError::InvalidVersion {
            actual: "bad-1".to_string(),
            expected: "multi-place-1".to_string()
        }
        .message(),
        "invalid IBC channel version. Got (bad-1), expected (multi-place-1)"
    );
    assert_eq!(
        ContractError::BadVersion.message(),
        "cannot upgrade from a newer contract version"
    );
    assert_eq!(
        ContractError::TypeMismatch.message(),
        "can only upgrade from same contract type"
    );
}
