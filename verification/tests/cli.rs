use akc::cli::{backup_file_name, route, CommandKind, Route, RouteError};

#[test]
fn routes_commands() {
    assert_eq!(route(Some(CommandKind::Upgrade), false), Ok(Route::Upgrade));
    assert_eq!(route(Some(CommandKind::Upgrade), true), Err(RouteError::UpgradeWithKeychain));
    assert_eq!(route(Some(CommandKind::Get), true), Ok(Route::Keychain));
    assert_eq!(route(Some(CommandKind::Init), false), Err(RouteError::KeychainRequired));
    assert_eq!(route(None, true), Ok(Route::Interactive));
    assert_eq!(route(None, false), Err(RouteError::KeychainOrUpgradeRequired));
}

#[test]
fn route_error_messages() {
    assert_eq!(RouteError::UpgradeWithKeychain.message(), "upgrade does not use a keychain file");
    assert_eq!(RouteError::KeychainRequired.message(), "keychain path required");
    assert_eq!(
        RouteError::KeychainOrUpgradeRequired.message(),
        "keychain path required (or use 'akc upgrade')"
    );
}

#[test]
fn backup_name() {
    assert_eq!(backup_file_name("secrets", "20260923_101112"), "secrets_20260923_101112.bak");
}
