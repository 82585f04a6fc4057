use trello_cli::api::{add_auth, build_url, check_update, comments_path, next_comment_cursor, UpdateFlagError};
use trello_cli::config::{env_status, Config, ConfigError, EnvStatus};

#[test]
fn build_url_constructs_correct_path() {
    let url = build_url("/cards/123");
    assert_eq!(url, "https://api.trello.com/1/cards/123");
}

#[test]
fn add_auth_adds_query_params() {
    let url = add_auth("https://api.trello.com/1/cards/123", "test_key", "test_token");
    assert_eq!(
        url,
        "https://api.trello.com/1/cards/123?key=test_key&token=test_token"
    );
}

#[test]
fn add_auth_appends_to_existing_query() {
    let url = add_auth("https://api.trello.com/1/cards/123?fields=name", "test_key", "test_token");
    assert_eq!(
        url,
        "https://api.trello.com/1/cards/123?fields=name&key=test_key&token=test_token"
    );
}

#[test]
fn comment_pages() {
    assert_eq!(comments_path("c1", None), "/cards/c1/actions?filter=commentCard&limit=1000");
    assert_eq!(comments_path("c1", Some("a9")), "/cards/c1/actions?filter=commentCard&limit=1000&before=a9");
    assert_eq!(next_comment_cursor(&[]), None);
}

#[test]
fn update_flags_are_checked() {
    assert_eq!(check_update(false, 0, 0, false, false, false), Err(UpdateFlagError::NothingToDo));
    assert_eq!(check_update(false, 0, 0, false, true, true), Err(UpdateFlagError::ArchiveAndRestore));
    assert_eq!(check_update(true, 0, 0, false, false, false), Ok(false));
    assert_eq!(check_update(true, 1, 0, false, false, false), Ok(true));
    assert_eq!(UpdateFlagError::NothingToDo.message(), "at least one update flag must be provided");
}

#[test]
fn credentials_from_environment_need_both() {
    let c = Config::from_env_values(Some("env_key".to_string()), Some("env_token".to_string())).unwrap();
    assert_eq!(c.api_key(), "env_key");
    assert_eq!(c.api_token(), "env_token");
    assert!(Config::from_env_values(Some("only_key".to_string()), None).is_none());
    assert_eq!(env_status(&Some("only_key".to_string()), &None), EnvStatus::OnlyOne);
    assert_eq!(env_status(&None, &None), EnvStatus::NotSet);
}

#[test]
fn credentials_from_file_must_be_non_empty() {
    let c = Config::from_file_values("file_key".to_string(), "file_token".to_string(), "/x/config.toml").unwrap();
    assert_eq!(c.api_key(), "file_key");
    let e = Config::from_file_values("only_key".to_string(), String::new(), "/x/config.toml").unwrap_err();
    assert_eq!(e.message(), "Config file /x/config.toml is missing api_token field");
    let e = Config::from_file_values(String::new(), "only_token".to_string(), "/x/config.toml").unwrap_err();
    assert!(e.message().contains("api_key") && e.message().contains("missing"));
    let e = ConfigError::NotFound { env: EnvStatus::NotSet, path: "/x/config.toml".to_string() };
    let m = e.message();
    assert!(m.contains("Failed to load Trello credentials"));
    assert!(m.contains("Environment variables TRELLO_API_KEY and TRELLO_API_TOKEN: not set"));
    assert!(m.contains("/x/config.toml: not found"));
}
