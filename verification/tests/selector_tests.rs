use camview::errors::CaptureError;
use camview::selector::{resolve_command, Command, IndexKind, PropertyKind, ResolvedCommand};

#[test]
fn selector_plain_zero_is_index() {
    assert_eq!(IndexKind::from_str("0"), IndexKind::Index(0));
}

#[test]
fn selector_name_is_string() {
    assert_eq!(IndexKind::from_str("front-cam"), IndexKind::String("front-cam".to_string()));
}

#[test]
fn selector_leading_zeros_are_index() {
    assert_eq!(IndexKind::from_str("007"), IndexKind::Index(7));
}

#[test]
fn selector_plus_sign_is_index() {
    assert_eq!(IndexKind::from_str("+42"), IndexKind::Index(42));
}

#[test]
fn selector_extremes() {
    assert_eq!(IndexKind::from_str("4294967295"), IndexKind::Index(u32::MAX));
    assert_eq!(
        IndexKind::from_str("4294967296"),
        IndexKind::String("4294967296".to_string()),
    );
    assert_eq!(IndexKind::from_str(""), IndexKind::String(String::new()));
    assert_eq!(IndexKind::from_str("+"), IndexKind::String("+".to_string()));
    assert_eq!(IndexKind::from_str("1 2"), IndexKind::String("1 2".to_string()));
}

#[test]
fn property_kind_compatible_formats_aliases() {
    for alias in ["CF", "cf", "compatfmts", "CompatibleFormats", "COMPATIBLEFORMATS", "compatibleformats", "CompatFmts"] {
        assert_eq!(PropertyKind::from_str(alias), Ok(PropertyKind::CompatibleFormats));
    }
}

#[test]
fn property_kind_all_aliases() {
    for alias in ["All", "ALL", "all", "aLl"] {
        assert_eq!(PropertyKind::from_str(alias), Ok(PropertyKind::All));
    }
}

#[test]
fn property_kind_controls_aliases() {
    for alias in ["Controls", "controls", "CONTROLS", "ctrls", "CTRLS"] {
        assert_eq!(PropertyKind::from_str(alias), Ok(PropertyKind::Controls));
    }
}

#[test]
fn property_kind_rejects_unknown() {
    assert_eq!(PropertyKind::from_str("bogus"), Err(CaptureError::UnknownPropertyKind));
    assert_eq!(PropertyKind::from_str(""), Err(CaptureError::UnknownPropertyKind));
    assert_eq!(PropertyKind::from_str("cfx"), Err(CaptureError::UnknownPropertyKind));
}

#[test]
fn resolve_list_devices() {
    match resolve_command(Command::ListDevices) {
        Ok(ResolvedCommand::ListDevices) => {},
        _ => panic!("list-devices must resolve to itself"),
    }
}

#[test]
fn resolve_missing_kind_is_error() {
    let cmd = Command::ListProperties { device: Some(IndexKind::Index(3)), kind: None };
    match resolve_command(cmd) {
        Err(CaptureError::UnknownPropertyKind) => {},
        _ => panic!("a missing property kind must be rejected"),
    }
}

#[test]
fn resolve_defaults_device_to_index_zero() {
    let cmd = Command::ListProperties { device: None, kind: Some(PropertyKind::Controls) };
    match resolve_command(cmd) {
        Ok(ResolvedCommand::ListProperties { device, kind }) => {
            assert_eq!(device, IndexKind::Index(0));
            assert_eq!(kind, PropertyKind::Controls);
        },
        _ => panic!("expected a resolved list-properties command"),
    }
}

#[test]
fn resolve_keeps_given_device() {
    let cmd = Command::ListProperties {
        device: Some(IndexKind::String("front-cam".to_string())),
        kind: Some(PropertyKind::All),
    };
    match resolve_command(cmd) {
        Ok(ResolvedCommand::ListProperties { device, kind }) => {
            assert_eq!(device, IndexKind::String("front-cam".to_string()));
            assert_eq!(kind, PropertyKind::All);
        },
        _ => panic!("expected a resolved list-properties command"),
    }
}
