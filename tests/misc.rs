use squeakroad::hex::to_hex;
use squeakroad::settings::{
    validate_market_name, validate_squeaknode_info, AdminSettings, SettingsError,
};
use squeakroad::task::{Task, Todo};

#[test]
fn default_admin_settings() {
    let s = AdminSettings::get_default();
    assert_eq!(s.id, None);
    assert_eq!(s.market_name, "Squeakroad");
    assert_eq!(s.fee_rate_basis_points, 500);
}

#[test]
fn market_name_checks() {
    assert_eq!(validate_market_name(""), Err(SettingsError::EmptyMarketName));
    assert_eq!(validate_market_name(&"n".repeat(64)), Err(SettingsError::MarketNameTooLong));
    assert_eq!(validate_market_name(&"n".repeat(63)), Ok(()));
    assert_eq!(validate_market_name("Bazaar"), Ok(()));
}

#[test]
fn squeaknode_info_checks() {
    let key = "a".repeat(64);
    assert_eq!(validate_squeaknode_info("abc", "host:1"), Err(SettingsError::InvalidPubkey));
    assert_eq!(
        validate_squeaknode_info(&key, &"h".repeat(129)),
        Err(SettingsError::AddressTooLong)
    );
    assert_eq!(validate_squeaknode_info(&key, &"h".repeat(128)), Ok(()));
    assert_eq!(validate_squeaknode_info(&key, ""), Ok(()));
}

#[test]
fn hex_text_of_bytes() {
    assert_eq!(to_hex(&vec![]), "");
    assert_eq!(to_hex(&vec![0x01, 0x23, 0x45, 0x67, 0x89, 0xab, 0xcd, 0xef]), "0123456789abcdef");
    assert_eq!(to_hex(&vec![0xff, 0x00, 0x10]), "ff0010");
}

#[test]
fn todo_becomes_open_task() {
    let t = Task::from_todo(Todo { description: "water plants".to_string() });
    assert_eq!(t.id, None);
    assert_eq!(t.description, "water plants");
    assert!(!t.completed);
}

#[test]
fn toggle_flips_completion() {
    let mut t = Task { id: Some(4), description: "write".to_string(), completed: false };
    t.toggle();
    assert!(t.completed);
    t.toggle();
    assert!(!t.completed);
    assert_eq!(t.id, Some(4));
}
