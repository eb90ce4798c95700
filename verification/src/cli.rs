//! Command-line routing: which commands need a keychain file, and the name of
//! the backup made before a keychain is re-initialised.
use vstd::prelude::*;

verus! {

/// The subcommands of the command line.
#[derive(Debug, Clone, Copy, PartialEq, Eq, Structural)]
pub enum CommandKind {
    Init,
    SetSecret,
    Get,
    List,
    Delete,
    Upgrade,
}

/// Where a command line leads.
#[derive(Debug, Clone, Copy, PartialEq, Eq, Structural)]
pub enum Route {
    /// Self-upgrade; no keychain file.
    Upgrade,
    /// A one-shot command on the keychain file.
    Keychain,
    /// The interactive session on the keychain file.
    Interactive,
}

/// A command line that cannot run.
#[derive(Debug, Clone, Copy, PartialEq, Eq, Structural)]
pub enum RouteError {
    /// `upgrade` was given a keychain path.
    UpgradeWithKeychain,
    /// A keychain command without a keychain path.
    KeychainRequired,
    /// Neither a command nor a keychain path.
    KeychainOrUpgradeRequired,
}

impl RouteError {
    /// The message that the command line prints for this error.
    pub fn message(&self) -> (s: &'static str)
        ensures
            s@ == self.message_spec(),
    {
        match self {
            RouteError::UpgradeWithKeychain => "upgrade does not use a keychain file",
            RouteError::KeychainRequired => "keychain path required",
            RouteError::KeychainOrUpgradeRequired => "keychain path required (or use 'akc upgrade')",
        }
    }

    pub open spec fn message_spec(&self) -> Seq<char> {
        match self {
            RouteError::UpgradeWithKeychain => "upgrade does not use a keychain file"@,
            RouteError::KeychainRequired => "keychain path required"@,
            RouteError::KeychainOrUpgradeRequired => "keychain path required (or use 'akc upgrade')"@,
        }
    }
}

/// Where a command line leads: `upgrade` takes no keychain path, every other
/// command needs one, and a keychain path alone opens the interactive session.
pub open spec fn route_spec(command: Option<CommandKind>, keychain_given: bool) -> Result<Route, RouteError> {
    match command {
        Some(CommandKind::Upgrade) => if keychain_given {
            Err(RouteError::UpgradeWithKeychain)
        } else {
            Ok(Route::Upgrade)
        },
        Some(_) => if keychain_given {
            Ok(Route::Keychain)
        } else {
            Err(RouteError::KeychainRequired)
        },
        None => if keychain_given {
            Ok(Route::Interactive)
        } else {
            Err(RouteError::KeychainOrUpgradeRequired)
        },
    }
}

/// Decides where a command line leads.
pub fn route(command: Option<CommandKind>, keychain_given: bool) -> (r: Result<Route, RouteError>)
    ensures
        r == route_spec(command, keychain_given),
        command matches Some(c) && c != CommandKind::Upgrade && keychain_given ==> r == Ok::<Route, RouteError>(Route::Keychain),
        r == Ok::<Route, RouteError>(Route::Interactive) <==> (command is None && keychain_given),
{
    match command {
        Some(CommandKind::Upgrade) => {
            if keychain_given {
                Err(RouteError::UpgradeWithKeychain)
            } else {
                Ok(Route::Upgrade)
            }
        },
        Some(_) => {
            if keychain_given {
                Ok(Route::Keychain)
            } else {
                Err(RouteError::KeychainRequired)
            }
        },
        None => {
            if keychain_given {
                Ok(Route::Interactive)
            } else {
                Err(RouteError::KeychainOrUpgradeRequired)
            }
        },
    }
}

/// Every command other than `upgrade`, given a keychain path, runs as a
/// one-shot command on that file; only a path with no command opens the
/// interactive session; `upgrade` runs exactly when it has no path; nothing
/// runs without a path except `upgrade`.
pub proof fn law_routing(command: Option<CommandKind>, keychain_given: bool)
    ensures
        command matches Some(c) && c != CommandKind::Upgrade && keychain_given ==> route_spec(command, keychain_given)
            == Ok::<Route, RouteError>(Route::Keychain),
        route_spec(command, keychain_given) == Ok::<Route, RouteError>(Route::Interactive) <==> (command is None
            && keychain_given),
        route_spec(command, keychain_given) == Ok::<Route, RouteError>(Route::Upgrade) <==> (command == Some(
            CommandKind::Upgrade,
        ) && !keychain_given),
        route_spec(command, keychain_given) == Ok::<Route, RouteError>(Route::Keychain) ==> keychain_given
            && command is Some && command != Some(CommandKind::Upgrade),
        route_spec(command, keychain_given) is Err <==> ((command == Some(CommandKind::Upgrade)) == keychain_given),
{
}

/// The file name of a keychain's backup: `<stem>_<timestamp>.bak`.
pub fn backup_file_name(stem: &str, timestamp: &str) -> (r: String)
    ensures
        r@ == stem@ + "_"@ + timestamp@ + ".bak"@,
{
    let mut r = stem.to_owned();
    r.append("_");
    r.append(timestamp);
    r.append(".bak");
    r
}

} // verus!
