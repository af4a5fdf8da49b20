//! The configuration of the server and the shape of its answers.
use vstd::prelude::*;
use vstd::string::StringExecFns;

use crate::domain::events::{member, object, text_json};
use crate::json::{Json, JsonView};
use crate::text::{chars_of, lower, lowered, same_text, text_of, trim, trimmed};

verus! {

/// Where the server runs.
#[derive(Debug, Clone, Copy, PartialEq, Eq, Structural)]
pub enum AppEnv {
    Local,
    Dev,
    Test,
    Prod,
}

/// Why there is no configuration.
#[derive(Debug, PartialEq, Eq)]
pub enum ConfigError {
    InvalidEnv(String),
    ConfigDirNotFound,
    ReadFile { path: String, source: String },
    ParseToml { path: String, source: String },
}

impl ConfigError {
    pub open spec fn spec_message(self) -> Seq<char> {
        match self {
            ConfigError::InvalidEnv(value) => "invalid APP_ENV value: "@ + value@,
            ConfigError::ConfigDirNotFound =>
                "unable to locate config directory (expected config/default.toml)"@,
            ConfigError::ReadFile { path, source } => "failed reading config file "@ + path@ + ": "@
                + source@,
            ConfigError::ParseToml { path, source } => "failed parsing config file "@ + path@
                + ": "@ + source@,
        }
    }

    /// What the error says to a reader.
    pub fn message(&self) -> (text: String)
        ensures
            text@ == self.spec_message(),
    {
        match self {
            ConfigError::InvalidEnv(value) => String::from_str("invalid APP_ENV value: ").concat(
                value.as_str(),
            ),
            ConfigError::ConfigDirNotFound => String::from_str(
                "unable to locate config directory (expected config/default.toml)",
            ),
            ConfigError::ReadFile { path, source } => {
                let mut text = String::from_str("failed reading config file ");
                text.append(path.as_str());
                text.append(": ");
                text.append(source.as_str());
                text
            },
            ConfigError::ParseToml { path, source } => {
                let mut text = String::from_str("failed parsing config file ");
                text.append(path.as_str());
                text.append(": ");
                text.append(source.as_str());
                text
            },
        }
    }
}

/// Where the server runs by the name of it, in capital or small letters, with white space
/// around it.
pub open spec fn env_named(value: Seq<char>) -> Option<AppEnv> {
    let name = lowered(trimmed(value));
    if name == "local"@ {
        Some(AppEnv::Local)
    } else if name == "dev"@ || name == "development"@ {
        Some(AppEnv::Dev)
    } else if name == "test"@ {
        Some(AppEnv::Test)
    } else if name == "prod"@ || name == "production"@ {
        Some(AppEnv::Prod)
    } else {
        None
    }
}

/// Whether reading the name of where the server runs gave what it should.
pub open spec fn reads_env(value: Seq<char>, read: Result<AppEnv, ConfigError>) -> bool {
    match env_named(value) {
        Some(env) => read == Ok::<AppEnv, ConfigError>(env),
        None => read is Err && read->Err_0 is InvalidEnv && read->Err_0->InvalidEnv_0@ == lowered(
            trimmed(value),
        ),
    }
}

impl AppEnv {
    pub open spec fn spec_name(self) -> Seq<char> {
        match self {
            AppEnv::Local => "local"@,
            AppEnv::Dev => "dev"@,
            AppEnv::Test => "test"@,
            AppEnv::Prod => "prod"@,
        }
    }

    pub fn as_str(self) -> (name: &'static str)
        ensures
            name@ == self.spec_name(),
    {
        match self {
            AppEnv::Local => "local",
            AppEnv::Dev => "dev",
            AppEnv::Test => "test",
            AppEnv::Prod => "prod",
        }
    }

    /// Reads the name of where the server runs.
    pub fn parse(value: &str) -> (read: Result<AppEnv, ConfigError>)
        ensures
            reads_env(value@, read),
    {
        let name = text_of(&lower(&trim(&chars_of(value))));
        if same_text(name.as_str(), "local") {
            Ok(AppEnv::Local)
        } else if same_text(name.as_str(), "dev") || same_text(name.as_str(), "development") {
            Ok(AppEnv::Dev)
        } else if same_text(name.as_str(), "test") {
            Ok(AppEnv::Test)
        } else if same_text(name.as_str(), "prod") || same_text(name.as_str(), "production") {
            Ok(AppEnv::Prod)
        } else {
            Err(ConfigError::InvalidEnv(name))
        }
    }
}

impl std::str::FromStr for AppEnv {
    type Err = ConfigError;

    fn from_str(value: &str) -> Result<AppEnv, ConfigError> {
        AppEnv::parse(value)
    }
}

/// The name of a place is read back as that place.
pub proof fn env_name_reads_back(env: AppEnv)
    ensures
        env_named(env.spec_name()) == Some(env),
{
    reveal_strlit("local");
    reveal_strlit("dev");
    reveal_strlit("development");
    reveal_strlit("test");
    reveal_strlit("prod");
    reveal_strlit("production");
    assert(trimmed(env.spec_name()) == env.spec_name());
    assert(lowered(env.spec_name()) =~= env.spec_name());
    assert("local"@.len() == 5);
    assert("dev"@.len() == 3);
    assert("test"@[0] == 't');
    assert("prod"@[0] == 'p');
}

#[derive(Debug, PartialEq, Eq)]
pub struct AppConfig {
    pub app: AppSection,
    pub observability: ObservabilitySection,
}

#[derive(Debug, PartialEq, Eq)]
pub struct AppSection {
    pub env: AppEnv,
    pub service_name: String,
    pub rpc_bind_addr: String,
    pub ops_http_bind_addr: String,
}

#[derive(Debug, PartialEq, Eq)]
pub struct ObservabilitySection {
    pub log_filter: String,
}

/// What one file says of the configuration.
#[derive(Debug, PartialEq, Eq)]
pub struct PartialAppConfig {
    pub app: Option<PartialAppSection>,
    pub observability: Option<PartialObservabilitySection>,
}

#[derive(Debug, PartialEq, Eq)]
pub struct PartialAppSection {
    pub env: Option<AppEnv>,
    pub service_name: Option<String>,
    pub rpc_bind_addr: Option<String>,
    pub ops_http_bind_addr: Option<String>,
}

#[derive(Debug, PartialEq, Eq)]
pub struct PartialObservabilitySection {
    pub log_filter: Option<String>,
}

/// What the environment says of the configuration.
#[derive(Debug, PartialEq, Eq)]
pub struct EnvOverrides {
    pub app_env: Option<String>,
    pub service_name: Option<String>,
    pub rpc_bind_addr: Option<String>,
    pub ops_http_bind_addr: Option<String>,
    pub log_filter: Option<String>,
    pub rust_log: Option<String>,
}

/// What is said, or else what held before.
pub open spec fn said_or<T>(said: Option<T>, before: T) -> T {
    match said {
        Some(value) => value,
        None => before,
    }
}

impl AppConfig {
    /// The configuration that nothing was said of.
    pub open spec fn is_default(self, app_env: AppEnv) -> bool {
        &&& self.app.env == app_env
        &&& self.app.service_name@ == "app-server"@
        &&& self.app.rpc_bind_addr@ == "127.0.0.1:9000"@
        &&& self.app.ops_http_bind_addr@ == "127.0.0.1:9100"@
        &&& self.observability.log_filter@ == "info"@
    }

    /// The configuration with what one file says.
    pub open spec fn merged(self, partial: PartialAppConfig) -> AppConfig {
        AppConfig {
            app: match partial.app {
                Some(app) => AppSection {
                    env: said_or(app.env, self.app.env),
                    service_name: said_or(app.service_name, self.app.service_name),
                    rpc_bind_addr: said_or(app.rpc_bind_addr, self.app.rpc_bind_addr),
                    ops_http_bind_addr: said_or(
                        app.ops_http_bind_addr,
                        self.app.ops_http_bind_addr,
                    ),
                },
                None => self.app,
            },
            observability: match partial.observability {
                Some(observability) => ObservabilitySection {
                    log_filter: said_or(observability.log_filter, self.observability.log_filter),
                },
                None => self.observability,
            },
        }
    }

    /// The configuration with what the environment says, except on where the server runs.
    pub open spec fn overridden(self, env: EnvOverrides) -> AppConfig {
        AppConfig {
            app: AppSection {
                env: self.app.env,
                service_name: said_or(env.service_name, self.app.service_name),
                rpc_bind_addr: said_or(env.rpc_bind_addr, self.app.rpc_bind_addr),
                ops_http_bind_addr: said_or(env.ops_http_bind_addr, self.app.ops_http_bind_addr),
            },
            observability: ObservabilitySection {
                log_filter: said_or(
                    env.log_filter,
                    said_or(env.rust_log, self.observability.log_filter),
                ),
            },
        }
    }

    /// The same configuration for another place.
    pub open spec fn at(self, app_env: AppEnv) -> AppConfig {
        AppConfig { app: AppSection { env: app_env, ..self.app }, ..self }
    }

    pub fn default_for_env(app_env: AppEnv) -> (config: AppConfig)
        ensures
            config.is_default(app_env),
    {
        AppConfig {
            app: AppSection {
                env: app_env,
                service_name: String::from_str("app-server"),
                rpc_bind_addr: String::from_str("127.0.0.1:9000"),
                ops_http_bind_addr: String::from_str("127.0.0.1:9100"),
            },
            observability: ObservabilitySection { log_filter: String::from_str("info") },
        }
    }

    /// Takes over what one file says.
    pub fn merge_partial(&mut self, partial: PartialAppConfig)
        ensures
            *final(self) == old(self).merged(partial),
    {
        if let Some(app) = partial.app {
            if let Some(value) = app.env {
                self.app.env = value;
            }
            if let Some(value) = app.service_name {
                self.app.service_name = value;
            }
            if let Some(value) = app.rpc_bind_addr {
                self.app.rpc_bind_addr = value;
            }
            if let Some(value) = app.ops_http_bind_addr {
                self.app.ops_http_bind_addr = value;
            }
        }
        if let Some(observability) = partial.observability {
            if let Some(value) = observability.log_filter {
                self.observability.log_filter = value;
            }
        }
    }

    /// Takes over what the environment says; a place that has no such name is an error, and
    /// then nothing is taken over.
    pub fn apply_env_overrides(&mut self, env: EnvOverrides) -> (result: Result<(), ConfigError>)
        ensures
            match env.app_env {
                Some(raw) if env_named(raw@) is None => {
                    &&& result is Err
                    &&& result->Err_0 is InvalidEnv
                    &&& result->Err_0->InvalidEnv_0@ == lowered(trimmed(raw@))
                    &&& *final(self) == *old(self)
                },
                Some(raw) => result is Ok && *final(self) == old(self).at(
                    env_named(raw@)->0,
                ).overridden(env),
                None => result is Ok && *final(self) == old(self).overridden(env),
            },
    {
        if let Some(raw) = env.app_env {
            match AppEnv::parse(raw.as_str()) {
                Ok(app_env) => {
                    self.app.env = app_env;
                },
                Err(error) => {
                    return Err(error);
                },
            }
        }
        if let Some(value) = env.service_name {
            self.app.service_name = value;
        }
        if let Some(value) = env.rpc_bind_addr {
            self.app.rpc_bind_addr = value;
        }
        if let Some(value) = env.ops_http_bind_addr {
            self.app.ops_http_bind_addr = value;
        }
        if let Some(value) = env.log_filter {
            self.observability.log_filter = value;
        } else if let Some(value) = env.rust_log {
            self.observability.log_filter = value;
        }
        Ok(())
    }

    /// Where the server runs by the environment: locally where that says nothing.
    pub fn chosen_env(app_env: &Option<String>) -> (chosen: Result<AppEnv, ConfigError>)
        ensures
            match *app_env {
                Some(raw) => reads_env(raw@, chosen),
                None => chosen == Ok::<AppEnv, ConfigError>(AppEnv::Local),
            },
    {
        match app_env {
            Some(raw) => AppEnv::parse(raw.as_str()),
            None => Ok(AppEnv::Local),
        }
    }

    /// The configuration from the file for every place, the file for this place and the
    /// environment, each of which counts more than those before it.
    pub fn load_from_dir_for_env(
        default_file: PartialAppConfig,
        env_file: PartialAppConfig,
        app_env: AppEnv,
        env: EnvOverrides,
    ) -> (config: Result<AppConfig, ConfigError>)
        ensures
            config is Err <==> env.app_env is Some && env_named(env.app_env->0@) is None,
            config is Err ==> config->Err_0 is InvalidEnv && config->Err_0->InvalidEnv_0@
                == lowered(trimmed(env.app_env->0@)),
            config is Ok ==> exists|start: AppConfig| #[trigger]
                start.is_default(app_env) && config->Ok_0 == start.merged(default_file).merged(
                    env_file,
                ).at(
                    match env.app_env {
                        Some(raw) => env_named(raw@)->0,
                        None => app_env,
                    },
                ).overridden(env),
    {
        let mut config = AppConfig::default_for_env(app_env);
        let ghost start = config;
        config.merge_partial(default_file);
        config.merge_partial(env_file);
        config.app.env = app_env;
        match config.apply_env_overrides(env) {
            Ok(_) => {
                assert(start.is_default(app_env));
                Ok(config)
            },
            Err(error) => Err(error),
        }
    }
}

/// What the environment says counts more than what any file says.
pub proof fn environment_counts_most(config: AppConfig, partial: PartialAppConfig, env: EnvOverrides)
    ensures
        env.service_name is Some ==> config.merged(partial).overridden(env).app.service_name
            == env.service_name->0,
        env.rpc_bind_addr is Some ==> config.merged(partial).overridden(env).app.rpc_bind_addr
            == env.rpc_bind_addr->0,
        env.ops_http_bind_addr is Some ==> config.merged(partial).overridden(
            env,
        ).app.ops_http_bind_addr == env.ops_http_bind_addr->0,
        env.log_filter is Some ==> config.merged(partial).overridden(env).observability.log_filter
            == env.log_filter->0,
{
}

/// What went wrong with a request.
#[derive(Debug, Clone, Copy, PartialEq, Eq, Structural)]
pub enum ErrorCode {
    RequestInvalid,
    Forbidden,
    RoomListFailed,
    RoomCreateFailed,
    RoomReadyFailed,
    RoomBindAddressFailed,
    RoomBindKeysFailed,
    GameGetStateFailed,
    GameActFailed,
    KeyBindingProofInvalid,
    SubscribeFailed,
    UnsubscribeFailed,
    InternalError,
}

impl ErrorCode {
    pub open spec fn spec_name(self) -> Seq<char> {
        match self {
            ErrorCode::RequestInvalid => "REQUEST_INVALID"@,
            ErrorCode::Forbidden => "FORBIDDEN"@,
            ErrorCode::RoomListFailed => "ROOM_LIST_FAILED"@,
            ErrorCode::RoomCreateFailed => "ROOM_CREATE_FAILED"@,
            ErrorCode::RoomReadyFailed => "ROOM_READY_FAILED"@,
            ErrorCode::RoomBindAddressFailed => "ROOM_BIND_ADDRESS_FAILED"@,
            ErrorCode::RoomBindKeysFailed => "ROOM_BIND_KEYS_FAILED"@,
            ErrorCode::GameGetStateFailed => "GAME_GET_STATE_FAILED"@,
            ErrorCode::GameActFailed => "GAME_ACT_FAILED"@,
            ErrorCode::KeyBindingProofInvalid => "KEY_BINDING_PROOF_INVALID"@,
            ErrorCode::SubscribeFailed => "SUBSCRIBE_FAILED"@,
            ErrorCode::UnsubscribeFailed => "UNSUBSCRIBE_FAILED"@,
            ErrorCode::InternalError => "INTERNAL_ERROR"@,
        }
    }

    pub fn as_str(self) -> (name: &'static str)
        ensures
            name@ == self.spec_name(),
    {
        match self {
            ErrorCode::RequestInvalid => "REQUEST_INVALID",
            ErrorCode::Forbidden => "FORBIDDEN",
            ErrorCode::RoomListFailed => "ROOM_LIST_FAILED",
            ErrorCode::RoomCreateFailed => "ROOM_CREATE_FAILED",
            ErrorCode::RoomReadyFailed => "ROOM_READY_FAILED",
            ErrorCode::RoomBindAddressFailed => "ROOM_BIND_ADDRESS_FAILED",
            ErrorCode::RoomBindKeysFailed => "ROOM_BIND_KEYS_FAILED",
            ErrorCode::GameGetStateFailed => "GAME_GET_STATE_FAILED",
            ErrorCode::GameActFailed => "GAME_ACT_FAILED",
            ErrorCode::KeyBindingProofInvalid => "KEY_BINDING_PROOF_INVALID",
            ErrorCode::SubscribeFailed => "SUBSCRIBE_FAILED",
            ErrorCode::UnsubscribeFailed => "UNSUBSCRIBE_FAILED",
            ErrorCode::InternalError => "INTERNAL_ERROR",
        }
    }

    /// The name in messages to people.
    pub open spec fn spec_label(self) -> Seq<char> {
        match self {
            ErrorCode::RequestInvalid => "RequestInvalid"@,
            ErrorCode::Forbidden => "Forbidden"@,
            ErrorCode::RoomListFailed => "RoomListFailed"@,
            ErrorCode::RoomCreateFailed => "RoomCreateFailed"@,
            ErrorCode::RoomReadyFailed => "RoomReadyFailed"@,
            ErrorCode::RoomBindAddressFailed => "RoomBindAddressFailed"@,
            ErrorCode::RoomBindKeysFailed => "RoomBindKeysFailed"@,
            ErrorCode::GameGetStateFailed => "GameGetStateFailed"@,
            ErrorCode::GameActFailed => "GameActFailed"@,
            ErrorCode::KeyBindingProofInvalid => "KeyBindingProofInvalid"@,
            ErrorCode::SubscribeFailed => "SubscribeFailed"@,
            ErrorCode::UnsubscribeFailed => "UnsubscribeFailed"@,
            ErrorCode::InternalError => "InternalError"@,
        }
    }

    /// The name in messages to people.
    pub fn label(self) -> (label: &'static str)
        ensures
            label@ == self.spec_label(),
    {
        match self {
            ErrorCode::RequestInvalid => "RequestInvalid",
            ErrorCode::Forbidden => "Forbidden",
            ErrorCode::RoomListFailed => "RoomListFailed",
            ErrorCode::RoomCreateFailed => "RoomCreateFailed",
            ErrorCode::RoomReadyFailed => "RoomReadyFailed",
            ErrorCode::RoomBindAddressFailed => "RoomBindAddressFailed",
            ErrorCode::RoomBindKeysFailed => "RoomBindKeysFailed",
            ErrorCode::GameGetStateFailed => "GameGetStateFailed",
            ErrorCode::GameActFailed => "GameActFailed",
            ErrorCode::KeyBindingProofInvalid => "KeyBindingProofInvalid",
            ErrorCode::SubscribeFailed => "SubscribeFailed",
            ErrorCode::UnsubscribeFailed => "UnsubscribeFailed",
            ErrorCode::InternalError => "InternalError",
        }
    }
}

#[derive(Debug, PartialEq, Eq)]
pub struct ErrorBody {
    pub code: ErrorCode,
    pub message: String,
}

/// An answer of the server: the data that was asked for, or what went wrong.
#[derive(Debug, PartialEq, Eq)]
pub struct ResponseEnvelope<T> {
    pub ok: bool,
    pub data: Option<T>,
    pub error: Option<ErrorBody>,
}

impl<T> ResponseEnvelope<T> {
    pub fn ok(data: T) -> (envelope: ResponseEnvelope<T>)
        ensures
            envelope == (ResponseEnvelope { ok: true, data: Some(data), error: None }),
    {
        ResponseEnvelope { ok: true, data: Some(data), error: None }
    }

    pub fn err(code: ErrorCode, message: &str) -> (envelope: ResponseEnvelope<T>)
        ensures
            !envelope.ok,
            envelope.data is None,
            envelope.error is Some,
            envelope.error->0.code == code,
            envelope.error->0.message@ == message@,
    {
        ResponseEnvelope {
            ok: false,
            data: None,
            error: Some(ErrorBody { code: code, message: String::from_str(message) }),
        }
    }
}

impl ErrorBody {
    pub open spec fn tree(self) -> JsonView {
        JsonView::Object(
            seq![
                member("code"@, JsonView::Text(self.code.spec_name())),
                member("message"@, JsonView::Text(self.message@)),
            ],
        )
    }
}

impl ResponseEnvelope<Json> {
    /// The answer as a document.
    pub open spec fn tree(self) -> JsonView {
        JsonView::Object(
            seq![
                member("ok"@, JsonView::Bool(self.ok)),
                member(
                    "data"@,
                    match self.data {
                        Some(data) => data@,
                        None => JsonView::Null,
                    },
                ),
                member(
                    "error"@,
                    match self.error {
                        Some(error) => error.tree(),
                        None => JsonView::Null,
                    },
                ),
            ],
        )
    }

    /// Writes the answer as a document.
    pub fn to_json(self) -> (value: Json)
        ensures
            value@ == self.tree(),
    {
        let data = match self.data {
            Some(data) => data,
            None => Json::Null,
        };
        let error = match self.error {
            Some(error) => {
                let mut members: Vec<(String, Json)> = Vec::new();
                members.push((String::from_str("code"), text_json(error.code.as_str())));
                members.push((String::from_str("message"), text_json(error.message.as_str())));
                let value = object(members);
                assert(value@->Object_0 =~= error.tree()->Object_0);
                value
            },
            None => Json::Null,
        };
        let mut members: Vec<(String, Json)> = Vec::new();
        members.push((String::from_str("ok"), Json::Bool(self.ok)));
        members.push((String::from_str("data"), data));
        members.push((String::from_str("error"), error));
        let value = object(members);
        assert(value@->Object_0 =~= self.tree()->Object_0);
        value
    }
}

} // verus!
