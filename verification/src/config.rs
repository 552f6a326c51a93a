//! Gateway configuration: what a configuration file gives, overridden by
//! what the environment gives.

use crate::key_set::KeySet;
use crate::text::{copy_str, split, split_on, str_eq, to_lowercase, unicode_lowercase};
use vstd::prelude::*;
use vstd::string::StringExecFns;

verus! {

/// How requests are admitted.
#[derive(Clone, Copy, Debug, PartialEq, Eq, Structural)]
pub enum AuthMode {
    /// Every request is forwarded.
    Open,
    /// Only requests that present a configured API key are forwarded.
    ApiKey,
}

/// How the Lambda function is invoked.
#[derive(Clone, Copy, Debug, PartialEq, Eq, Structural)]
pub enum LambdaInvokeMode {
    /// One invocation, one complete reply.
    Buffered,
    /// The reply arrives as a stream of chunks.
    ResponseStream,
}

/// Why a configuration cannot be used.
#[derive(Clone, Copy, Debug, PartialEq, Eq, Structural)]
pub enum ConfigError {
    /// Neither the file nor the environment names a Lambda function.
    MissingFunctionName,
}

impl ConfigError {
    /// A sentence for the operator.
    pub fn message(&self) -> (text: String)
        ensures
            text@ == "No lambda_function_name provided"@,
    {
        copy_str("No lambda_function_name provided")
    }
}

/// The auth mode that the lowercase word `lower` names, if any.
pub open spec fn auth_mode_named(lower: Seq<char>) -> Option<AuthMode> {
    if lower == "open"@ {
        Some(AuthMode::Open)
    } else if lower == "apikey"@ {
        Some(AuthMode::ApiKey)
    } else {
        None
    }
}

/// The invoke mode that the lowercase word `lower` names, if any.
pub open spec fn invoke_mode_named(lower: Seq<char>) -> Option<LambdaInvokeMode> {
    if lower == "buffered"@ {
        Some(LambdaInvokeMode::Buffered)
    } else if lower == "responsestream"@ {
        Some(LambdaInvokeMode::ResponseStream)
    } else {
        None
    }
}

/// The auth mode that `word` names when case is ignored, if any.
pub open spec fn parsed_auth_mode(word: Seq<char>) -> Option<AuthMode> {
    auth_mode_named(unicode_lowercase(word))
}

/// The invoke mode that `word` names when case is ignored, if any.
pub open spec fn parsed_invoke_mode(word: Seq<char>) -> Option<LambdaInvokeMode> {
    invoke_mode_named(unicode_lowercase(word))
}

/// The mode used where nothing selects another: `Open`.
pub fn default_auth_mode() -> (mode: AuthMode)
    ensures
        mode == AuthMode::Open,
{
    AuthMode::Open
}

/// The mode used where nothing selects another: `Buffered`.
pub fn default_lambda_invoke_mode() -> (mode: LambdaInvokeMode)
    ensures
        mode == LambdaInvokeMode::Buffered,
{
    LambdaInvokeMode::Buffered
}

/// The address the gateway binds where nothing selects another.
pub fn default_addr() -> (addr: String)
    ensures
        addr@ == "0.0.0.0:8000"@,
{
    copy_str("0.0.0.0:8000")
}

impl Default for AuthMode {
    fn default() -> (mode: AuthMode)
        ensures
            mode == AuthMode::Open,
    {
        AuthMode::Open
    }
}

impl Default for LambdaInvokeMode {
    fn default() -> (mode: LambdaInvokeMode)
        ensures
            mode == LambdaInvokeMode::Buffered,
    {
        LambdaInvokeMode::Buffered
    }
}

impl AuthMode {
    /// The mode that an already lowercased word names.
    pub fn from_lowercase(lower: &str) -> (mode: Option<AuthMode>)
        ensures
            mode == auth_mode_named(lower@),
    {
        if str_eq(lower, "open") {
            Some(AuthMode::Open)
        } else if str_eq(lower, "apikey") {
            Some(AuthMode::ApiKey)
        } else {
            None
        }
    }

    /// Reads a mode from a word, ignoring case. A word that names no mode
    /// is handed back inside the error text.
    pub fn parse(word: &str) -> (mode: Result<AuthMode, String>)
        ensures
            match parsed_auth_mode(word@) {
                Some(m) => mode == Ok::<AuthMode, String>(m),
                None => mode matches Err(e) && e@ == "Invalid AuthMode: "@ + word@,
            },
    {
        let lower = to_lowercase(word);
        match AuthMode::from_lowercase(lower.as_str()) {
            Some(m) => Ok(m),
            None => Err(copy_str("Invalid AuthMode: ").concat(word)),
        }
    }
}

impl LambdaInvokeMode {
    /// The mode that an already lowercased word names.
    pub fn from_lowercase(lower: &str) -> (mode: Option<LambdaInvokeMode>)
        ensures
            mode == invoke_mode_named(lower@),
    {
        if str_eq(lower, "buffered") {
            Some(LambdaInvokeMode::Buffered)
        } else if str_eq(lower, "responsestream") {
            Some(LambdaInvokeMode::ResponseStream)
        } else {
            None
        }
    }

    /// Reads a mode from a word, ignoring case. A word that names no mode
    /// is handed back inside the error text.
    pub fn parse(word: &str) -> (mode: Result<LambdaInvokeMode, String>)
        ensures
            match parsed_invoke_mode(word@) {
                Some(m) => mode == Ok::<LambdaInvokeMode, String>(m),
                None => mode matches Err(e) && e@ == "Invalid LambdaInvokeMode: "@ + word@,
            },
    {
        let lower = to_lowercase(word);
        match LambdaInvokeMode::from_lowercase(lower.as_str()) {
            Some(m) => Ok(m),
            None => Err(copy_str("Invalid LambdaInvokeMode: ").concat(word)),
        }
    }
}

impl core::str::FromStr for AuthMode {
    type Err = String;

    fn from_str(s: &str) -> (mode: Result<AuthMode, String>)
        ensures
            match parsed_auth_mode(s@) {
                Some(m) => mode == Ok::<AuthMode, String>(m),
                None => mode matches Err(e) && e@ == "Invalid AuthMode: "@ + s@,
            },
    {
        AuthMode::parse(s)
    }
}

impl core::str::FromStr for LambdaInvokeMode {
    type Err = String;

    fn from_str(s: &str) -> (mode: Result<LambdaInvokeMode, String>)
        ensures
            match parsed_invoke_mode(s@) {
                Some(m) => mode == Ok::<LambdaInvokeMode, String>(m),
                None => mode matches Err(e) && e@ == "Invalid LambdaInvokeMode: "@ + s@,
            },
    {
        LambdaInvokeMode::parse(s)
    }
}

/// Everything the gateway is configured with.
#[derive(Debug)]
pub struct Config {
    /// Name of the Lambda function that requests are forwarded to.
    pub lambda_function_name: String,
    /// Buffered or streamed invocation.
    pub lambda_invoke_mode: LambdaInvokeMode,
    /// The API keys that are accepted in `ApiKey` mode.
    pub api_keys: KeySet,
    /// Whether requests must present an API key.
    pub auth_mode: AuthMode,
    /// Address to bind, as `host:port`.
    pub addr: String,
}

/// A configuration as a mathematical value.
pub struct ConfigView {
    pub lambda_function_name: Seq<char>,
    pub lambda_invoke_mode: LambdaInvokeMode,
    pub api_keys: Set<Seq<char>>,
    pub auth_mode: AuthMode,
    pub addr: Seq<char>,
}

impl View for Config {
    type V = ConfigView;

    open spec fn view(&self) -> ConfigView {
        ConfigView {
            lambda_function_name: self.lambda_function_name@,
            lambda_invoke_mode: self.lambda_invoke_mode,
            api_keys: self.api_keys@,
            auth_mode: self.auth_mode,
            addr: self.addr@,
        }
    }
}

/// What the environment gives: for each setting the text of its variable,
/// or `None` where the variable is not set.
#[derive(Clone, Debug)]
pub struct EnvOverrides {
    /// `LAMBDA_FUNCTION_NAME`
    pub lambda_function_name: Option<String>,
    /// `LAMBDA_INVOKE_MODE`
    pub lambda_invoke_mode: Option<String>,
    /// `API_KEYS`, a comma-separated list
    pub api_keys: Option<String>,
    /// `AUTH_MODE`
    pub auth_mode: Option<String>,
    /// `ADDR`
    pub addr: Option<String>,
}

/// Environment overrides as a mathematical value.
pub struct EnvView {
    pub lambda_function_name: Option<Seq<char>>,
    pub lambda_invoke_mode: Option<Seq<char>>,
    pub api_keys: Option<Seq<char>>,
    pub auth_mode: Option<Seq<char>>,
    pub addr: Option<Seq<char>>,
}

/// The text of an optional string.
pub open spec fn opt_text(s: Option<String>) -> Option<Seq<char>> {
    match s {
        Some(t) => Some(t@),
        None => None,
    }
}

impl View for EnvOverrides {
    type V = EnvView;

    open spec fn view(&self) -> EnvView {
        EnvView {
            lambda_function_name: opt_text(self.lambda_function_name),
            lambda_invoke_mode: opt_text(self.lambda_invoke_mode),
            api_keys: opt_text(self.api_keys),
            auth_mode: opt_text(self.auth_mode),
            addr: opt_text(self.addr),
        }
    }
}

impl EnvOverrides {
    /// An environment in which none of the variables is set.
    pub fn none() -> (env: EnvOverrides)
        ensures
            env@ == (EnvView {
                lambda_function_name: None,
                lambda_invoke_mode: None,
                api_keys: None,
                auth_mode: None,
                addr: None,
            }),
    {
        EnvOverrides {
            lambda_function_name: None,
            lambda_invoke_mode: None,
            api_keys: None,
            auth_mode: None,
            addr: None,
        }
    }
}

/// The keys that a comma-separated list names. An empty list names no key;
/// in any other list every piece between commas is a key, empty pieces too.
pub open spec fn keys_from_list(list: Seq<char>) -> Set<Seq<char>> {
    if list.len() == 0 {
        Set::empty()
    } else {
        split_on(list, ',').to_set()
    }
}

/// The configuration used where no file gives one.
pub open spec fn default_config() -> ConfigView {
    ConfigView {
        lambda_function_name: Seq::empty(),
        lambda_invoke_mode: LambdaInvokeMode::Buffered,
        api_keys: Set::empty(),
        auth_mode: AuthMode::Open,
        addr: "0.0.0.0:8000"@,
    }
}

/// `base` with every setting replaced that the environment gives. A mode
/// word that names no mode leaves the mode as it was.
pub open spec fn overridden(base: ConfigView, env: EnvView) -> ConfigView {
    ConfigView {
        lambda_function_name: match env.lambda_function_name {
            Some(name) => name,
            None => base.lambda_function_name,
        },
        lambda_invoke_mode: match env.lambda_invoke_mode {
            Some(word) => match parsed_invoke_mode(word) {
                Some(mode) => mode,
                None => base.lambda_invoke_mode,
            },
            None => base.lambda_invoke_mode,
        },
        api_keys: match env.api_keys {
            Some(list) => keys_from_list(list),
            None => base.api_keys,
        },
        auth_mode: match env.auth_mode {
            Some(word) => match parsed_auth_mode(word) {
                Some(mode) => mode,
                None => base.auth_mode,
            },
            None => base.auth_mode,
        },
        addr: match env.addr {
            Some(addr) => addr,
            None => base.addr,
        },
    }
}

/// The configuration that a file (or its absence) and the environment give
/// together, or the reason why there is none.
pub open spec fn loaded(file: Option<ConfigView>, env: EnvView) -> Result<
    ConfigView,
    ConfigError,
> {
    let merged = overridden(
        match file {
            Some(c) => c,
            None => default_config(),
        },
        env,
    );
    if merged.lambda_function_name.len() == 0 {
        Err(ConfigError::MissingFunctionName)
    } else {
        Ok(merged)
    }
}

/// The view of an optional configuration.
pub open spec fn opt_config(c: Option<Config>) -> Option<ConfigView> {
    match c {
        Some(c) => Some(c@),
        None => None,
    }
}

/// Reads a comma-separated list of API keys.
pub fn parse_api_keys(list: &str) -> (keys: KeySet)
    ensures
        keys@ == keys_from_list(list@),
{
    if list.is_empty() {
        KeySet::new()
    } else {
        KeySet::from_keys(split(list, ','))
    }
}

impl Clone for Config {
    fn clone(&self) -> (copy: Config)
        ensures
            copy@ == self@,
    {
        Config {
            lambda_function_name: self.lambda_function_name.clone(),
            lambda_invoke_mode: self.lambda_invoke_mode,
            api_keys: self.api_keys.clone(),
            auth_mode: self.auth_mode,
            addr: self.addr.clone(),
        }
    }
}

impl Default for Config {
    fn default() -> (config: Config)
        ensures
            config@ == default_config(),
    {
        Config {
            lambda_function_name: String::new(),
            lambda_invoke_mode: default_lambda_invoke_mode(),
            api_keys: KeySet::new(),
            auth_mode: default_auth_mode(),
            addr: default_addr(),
        }
    }
}

impl Config {
    /// Replaces every setting that the environment gives, then checks that
    /// a Lambda function is named. The settings are replaced whether or not
    /// the check succeeds.
    pub fn apply_env_overrides(&mut self, env: &EnvOverrides) -> (checked: Result<(), ConfigError>)
        ensures
            final(self)@ == overridden(old(self)@, env@),
            checked == if final(self)@.lambda_function_name.len() == 0 {
                Err::<(), ConfigError>(ConfigError::MissingFunctionName)
            } else {
                Ok::<(), ConfigError>(())
            },
    {
        if let Some(name) = &env.lambda_function_name {
            self.lambda_function_name = name.clone();
        }
        if let Some(word) = &env.lambda_invoke_mode {
            if let Ok(mode) = LambdaInvokeMode::parse(word.as_str()) {
                self.lambda_invoke_mode = mode;
            }
        }
        if let Some(list) = &env.api_keys {
            self.api_keys = parse_api_keys(list.as_str());
        }
        if let Some(word) = &env.auth_mode {
            if let Ok(mode) = AuthMode::parse(word.as_str()) {
                self.auth_mode = mode;
            }
        }
        if let Some(addr) = &env.addr {
            self.addr = addr.clone();
        }
        if self.lambda_function_name.as_str().is_empty() {
            Err(ConfigError::MissingFunctionName)
        } else {
            Ok(())
        }
    }

    /// Builds the configuration from what the file gave and what the
    /// environment gives. `file` is `None` where no file could be read or
    /// understood: the defaults then stand in for it. A configuration that
    /// names no Lambda function is refused.
    pub fn load(file: Option<Config>, env: &EnvOverrides) -> (config: Result<Config, ConfigError>)
        ensures
            match loaded(opt_config(file), env@) {
                Ok(v) => config matches Ok(c) && c@ == v,
                Err(e) => config == Err::<Config, ConfigError>(e),
            },
            config matches Ok(c) ==> c@.lambda_function_name.len() > 0,
    {
        let mut config = match file {
            Some(c) => c,
            None => Config::default(),
        };
        match config.apply_env_overrides(env) {
            Ok(()) => Ok(config),
            Err(e) => Err(e),
        }
    }
}

} // verus!
