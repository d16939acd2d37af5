use vstd::prelude::*;

verus! {

/// Connection settings for the GMGlobal broker.
#[derive(Clone)]
pub struct GMGlobalConfig {
    pub username: String,
    pub password: String,
    pub login_url: String,
    pub socket_base: String,
}

impl GMGlobalConfig {
    /// The built-in account and endpoints.
    pub fn new() -> (cfg: Self)
        ensures
            cfg.username@ == "592812"@,
            cfg.password@ == "Abcd6666"@,
            cfg.login_url@ == "https://www.gmglobal.org/ajaxfiles/logincheck.php"@,
            cfg.socket_base@ == "https://thedatamining.org:4003/socket.io/"@,
    {
        GMGlobalConfig {
            username: String::from_str("592812"),
            password: String::from_str("Abcd6666"),
            login_url: String::from_str("https://www.gmglobal.org/ajaxfiles/logincheck.php"),
            socket_base: String::from_str("https://thedatamining.org:4003/socket.io/"),
        }
    }

    /// The built-in endpoints with the given account.
    pub fn with_credentials(username: String, password: String) -> (cfg: Self)
        ensures
            cfg.username == username,
            cfg.password == password,
            cfg.login_url@ == "https://www.gmglobal.org/ajaxfiles/logincheck.php"@,
            cfg.socket_base@ == "https://thedatamining.org:4003/socket.io/"@,
    {
        let base = Self::new();
        GMGlobalConfig { username, password, login_url: base.login_url, socket_base: base.socket_base }
    }
}

} // verus!
