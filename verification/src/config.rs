//! Settings of the relay, as the service reads them once at startup.

use vstd::prelude::*;
use vstd::string::StringExecFns;

verus! {

/// The relay's settings.
///
/// - `user`: the user name for the relay server
/// - `pwd`: the password for the relay server, usually an app password
/// - `forward_address`: the address that submitted messages are forwarded to
/// - `server`: the host name of the relay server that `user` and `pwd` belong to
/// - `listen_address`: the address and port that the service listens on
#[derive(Debug)]
pub struct Config {
    pub user: String,
    pub pwd: String,
    pub forward_address: String,
    pub server: String,
    pub listen_address: String,
}

/// The mathematical content of a [`Config`].
pub struct ConfigView {
    pub user: Seq<char>,
    pub pwd: Seq<char>,
    pub forward_address: Seq<char>,
    pub server: Seq<char>,
    pub listen_address: Seq<char>,
}

impl View for Config {
    type V = ConfigView;

    open spec fn view(&self) -> ConfigView {
        ConfigView {
            user: self.user@,
            pwd: self.pwd@,
            forward_address: self.forward_address@,
            server: self.server@,
            listen_address: self.listen_address@,
        }
    }
}

/// Why the settings could not be loaded. Either failure ends startup.
#[derive(Debug)]
pub enum LoadError {
    /// The file could not be read; the text says why.
    Unreadable(String),
    /// The file was read but is not a valid settings file; the text says why.
    Malformed(String),
}

/// The text that [`LoadError::describe`] gives for `e`.
pub open spec fn load_error_text(e: LoadError) -> Seq<char> {
    match e {
        LoadError::Unreadable(cause) => "Unable to read config file: "@ + cause@,
        LoadError::Malformed(cause) => "Unable to parse config file: "@ + cause@,
    }
}

impl Clone for Config {
    fn clone(&self) -> (copy: Config)
        ensures
            copy@ == self@,
    {
        Config {
            user: self.user.clone(),
            pwd: self.pwd.clone(),
            forward_address: self.forward_address.clone(),
            server: self.server.clone(),
            listen_address: self.listen_address.clone(),
        }
    }
}

impl LoadError {
    /// The message that startup reports for this failure.
    pub fn describe(&self) -> (text: String)
        ensures
            text@ == load_error_text(*self),
    {
        match self {
            LoadError::Unreadable(cause) => {
                String::from_str("Unable to read config file: ").concat(cause.as_str())
            },
            LoadError::Malformed(cause) => {
                String::from_str("Unable to parse config file: ").concat(cause.as_str())
            },
        }
    }
}

} // verus!
