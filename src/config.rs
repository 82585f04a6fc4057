use vstd::prelude::*;

verus! {

/// The credentials for the API: a key and a token.
#[derive(Debug)]
pub struct Config {
    api_key: String,
    api_token: String,
}

/// What the credential environment variables held.
#[derive(PartialEq, Eq, Structural, Debug, Clone, Copy)]
pub enum EnvStatus {
    /// Neither variable is set.
    NotSet,
    /// One variable is set and the other is not.
    OnlyOne,
}

/// Why no credentials could be had.
#[derive(Debug)]
pub enum ConfigError {
    /// The environment does not hold both credentials and there is no config file.
    NotFound { env: EnvStatus, path: String },
    /// The config file gives an empty key.
    MissingKey { path: String },
    /// The config file gives an empty token.
    MissingToken { path: String },
}

impl Config {
    /// The key as given.
    pub closed spec fn key(&self) -> Seq<char> {
        self.api_key@
    }

    /// The token as given.
    pub closed spec fn token(&self) -> Seq<char> {
        self.api_token@
    }

    pub fn api_key(&self) -> (r: &str)
        ensures
            r@ == self.key(),
    {
        self.api_key.as_str()
    }

    pub fn api_token(&self) -> (r: &str)
        ensures
            r@ == self.token(),
    {
        self.api_token.as_str()
    }

    /// The credentials from the environment, which count only when both are set.
    pub fn from_env_values(key: Option<String>, token: Option<String>) -> (r: Option<Config>)
        ensures
            match (key, token) {
                (Some(k), Some(t)) => r is Some && r->Some_0.key() == k@ && r->Some_0.token() == t@,
                _ => r is None,
            },
    {
        match (key, token) {
            (Some(k), Some(t)) => Some(Config { api_key: k, api_token: t }),
            _ => None,
        }
    }

    /// The credentials that the config file at `path` gives; both must be non-empty,
    /// and an empty key is reported before an empty token.
    pub fn from_file_values(key: String, token: String, path: &str) -> (r: Result<Config, ConfigError>)
        ensures
            key@.len() == 0 ==> r is Err && r->Err_0 is MissingKey && r->Err_0->MissingKey_path@
                == path@,
            key@.len() > 0 && token@.len() == 0 ==> r is Err && r->Err_0 is MissingToken
                && r->Err_0->MissingToken_path@ == path@,
            key@.len() > 0 && token@.len() > 0 ==> r is Ok && r->Ok_0.key() == key@
                && r->Ok_0.token() == token@,
    {
        if key.as_str().unicode_len() == 0 {
            return Err(ConfigError::MissingKey { path: String::from_str(path) });
        }
        if token.as_str().unicode_len() == 0 {
            return Err(ConfigError::MissingToken { path: String::from_str(path) });
        }
        Ok(Config { api_key: key, api_token: token })
    }
}

/// Which of the two variables are set, when not both are.
pub fn env_status(key: &Option<String>, token: &Option<String>) -> (r: EnvStatus)
    ensures
        r == (if key is Some || token is Some {
            EnvStatus::OnlyOne
        } else {
            EnvStatus::NotSet
        }),
{
    if key.is_some() || token.is_some() {
        EnvStatus::OnlyOne
    } else {
        EnvStatus::NotSet
    }
}

/// How the state of the environment reads in a message.
pub open spec fn env_status_text(e: EnvStatus) -> Seq<char> {
    match e {
        EnvStatus::NotSet => "not set"@,
        EnvStatus::OnlyOne => "only one set (both required)"@,
    }
}

/// The text of each configuration error.
pub open spec fn config_message_of(e: ConfigError) -> Seq<char> {
    match e {
        ConfigError::NotFound { env, path } => "Failed to load Trello credentials.\nChecked:\n  - Environment variables TRELLO_API_KEY and TRELLO_API_TOKEN: "@
            + env_status_text(env) + "\n  - Config file "@ + path@ + ": not found"@,
        ConfigError::MissingKey { path } => "Config file "@ + path@ + " is missing api_key field"@,
        ConfigError::MissingToken { path } => "Config file "@ + path@
            + " is missing api_token field"@,
    }
}

impl ConfigError {
    /// The error as text for the user.
    pub fn message(&self) -> (r: String)
        ensures
            r@ == config_message_of(*self),
    {
        match self {
            ConfigError::NotFound { env, path } => {
                let mut s = String::from_str(
                    "Failed to load Trello credentials.\nChecked:\n  - Environment variables TRELLO_API_KEY and TRELLO_API_TOKEN: ",
                );
                match env {
                    EnvStatus::NotSet => s.append("not set"),
                    EnvStatus::OnlyOne => s.append("only one set (both required)"),
                }
                s.append("\n  - Config file ");
                s.append(path.as_str());
                s.append(": not found");
                s
            },
            ConfigError::MissingKey { path } => {
                let mut s = String::from_str("Config file ");
                s.append(path.as_str());
                s.append(" is missing api_key field");
                s
            },
            ConfigError::MissingToken { path } => {
                let mut s = String::from_str("Config file ");
                s.append(path.as_str());
                s.append(" is missing api_token field");
                s
            },
        }
    }
}

} // verus!
