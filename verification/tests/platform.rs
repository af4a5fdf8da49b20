use agent_poker::json::Json;
use agent_poker::platform::{
    AppConfig, AppEnv, ConfigError, EnvOverrides, ErrorCode, PartialAppConfig, PartialAppSection,
    PartialObservabilitySection, ResponseEnvelope,
};

fn no_overrides() -> EnvOverrides {
    EnvOverrides {
        app_env: None,
        service_name: None,
        rpc_bind_addr: None,
        ops_http_bind_addr: None,
        log_filter: None,
        rust_log: None,
    }
}

#[test]
fn response_envelope_serializes_error_code_as_string() {
    let response: ResponseEnvelope<Json> = ResponseEnvelope::err(ErrorCode::RequestInvalid, "bad");
    let json = response.to_json().to_text();
    assert!(json.contains("\"REQUEST_INVALID\""));
    assert!(json.contains("\"error\""));
}

#[test]
fn envelopes_carry_data() {
    let response = ResponseEnvelope::ok(Json::Bool(true));
    assert_eq!(response.to_json().to_text(), "{\"ok\":true,\"data\":true,\"error\":null}");
}

fn default_file() -> PartialAppConfig {
    PartialAppConfig {
        app: Some(PartialAppSection {
            env: None,
            service_name: Some("default-service".to_string()),
            rpc_bind_addr: Some("127.0.0.1:9000".to_string()),
            ops_http_bind_addr: Some("127.0.0.1:9100".to_string()),
        }),
        observability: Some(PartialObservabilitySection { log_filter: Some("info".to_string()) }),
    }
}

fn dev_file() -> PartialAppConfig {
    PartialAppConfig {
        app: Some(PartialAppSection {
            env: None,
            service_name: Some("dev-service".to_string()),
            rpc_bind_addr: Some("0.0.0.0:9000".to_string()),
            ops_http_bind_addr: None,
        }),
        observability: Some(PartialObservabilitySection { log_filter: Some("debug".to_string()) }),
    }
}

#[test]
fn config_loader_merges_default_and_env_files() {
    let config =
        AppConfig::load_from_dir_for_env(default_file(), dev_file(), AppEnv::Dev, no_overrides())
            .expect("load config");
    assert_eq!(config.app.env, AppEnv::Dev);
    assert_eq!(config.app.service_name, "dev-service");
    assert_eq!(config.app.rpc_bind_addr, "0.0.0.0:9000");
    assert_eq!(config.app.ops_http_bind_addr, "127.0.0.1:9100");
    assert_eq!(config.observability.log_filter, "debug");
}

#[test]
fn the_environment_counts_most() {
    let mut env = no_overrides();
    env.app_env = Some(" PRODUCTION ".to_string());
    env.service_name = Some("other".to_string());
    env.rust_log = Some("trace".to_string());
    let config = AppConfig::load_from_dir_for_env(default_file(), dev_file(), AppEnv::Dev, env)
        .expect("load config");
    assert_eq!(config.app.env, AppEnv::Prod);
    assert_eq!(config.app.service_name, "other");
    assert_eq!(config.observability.log_filter, "trace");

    let mut env = no_overrides();
    env.log_filter = Some("warn".to_string());
    env.rust_log = Some("trace".to_string());
    let config = AppConfig::load_from_dir_for_env(default_file(), dev_file(), AppEnv::Dev, env)
        .expect("load config");
    assert_eq!(config.observability.log_filter, "warn");

    let mut env = no_overrides();
    env.app_env = Some("moon".to_string());
    let error = AppConfig::load_from_dir_for_env(default_file(), dev_file(), AppEnv::Dev, env)
        .expect_err("no such environment");
    assert_eq!(error, ConfigError::InvalidEnv("moon".to_string()));
    assert_eq!(error.message(), "invalid APP_ENV value: moon");
}

#[test]
fn environments_read_back() {
    for env in [AppEnv::Local, AppEnv::Dev, AppEnv::Test, AppEnv::Prod] {
        assert_eq!(AppEnv::parse(env.as_str()), Ok(env));
    }
    assert_eq!(AppEnv::parse("Development"), Ok(AppEnv::Dev));
}

#[test]
fn defaults_are_those_of_a_local_server() {
    let config = AppConfig::default_for_env(AppEnv::Test);
    assert_eq!(config.app.env, AppEnv::Test);
    assert_eq!(config.app.service_name, "app-server");
    assert_eq!(config.app.rpc_bind_addr, "127.0.0.1:9000");
    assert_eq!(config.app.ops_http_bind_addr, "127.0.0.1:9100");
    assert_eq!(config.observability.log_filter, "info");
}
