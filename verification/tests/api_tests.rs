use log_parser::api::{
    create_author_response, is_unique_constraint_violation, validate_author_name, ApiError,
    AuthorSaveOutcome, CreateAuthorRequestBody,
};
use log_parser::config::AppConfig;

#[test]
fn empty_author_name_is_unprocessable() {
    let body = CreateAuthorRequestBody::new(String::new());
    let err = validate_author_name(&body).unwrap_err();
    assert_eq!(
        err,
        ApiError::UnprocessableEntity("author name cannot be empty".to_string())
    );
}

#[test]
fn nonempty_author_name_is_accepted() {
    let body = CreateAuthorRequestBody::new("Ada".to_string());
    assert!(validate_author_name(&body).is_ok());
}

#[test]
fn saved_outcome_yields_response_data() {
    let body = CreateAuthorRequestBody::new("Ada".to_string());
    let outcome = AuthorSaveOutcome::Saved("123e4567-e89b-12d3-a456-426614174000".to_string());
    let data = create_author_response(&body, outcome).unwrap();
    assert_eq!(data.id(), "123e4567-e89b-12d3-a456-426614174000");
}

#[test]
fn duplicate_name_outcome_is_unprocessable() {
    let body = CreateAuthorRequestBody::new("Ada".to_string());
    let err = create_author_response(&body, AuthorSaveOutcome::DuplicateName).unwrap_err();
    assert_eq!(
        err,
        ApiError::UnprocessableEntity("author with name Ada already exists".to_string())
    );
}

#[test]
fn other_failure_is_internal_error() {
    let body = CreateAuthorRequestBody::new("Ada".to_string());
    let outcome = AuthorSaveOutcome::Failed("connection reset".to_string());
    let err = create_author_response(&body, outcome).unwrap_err();
    assert_eq!(
        err,
        ApiError::InternalServerError("connection reset".to_string())
    );
}

#[test]
fn unique_constraint_code_detection() {
    assert!(is_unique_constraint_violation(Some("2067")));
    assert!(!is_unique_constraint_violation(Some("2068")));
    assert!(!is_unique_constraint_violation(Some("206")));
    assert!(!is_unique_constraint_violation(Some("20670")));
    assert!(!is_unique_constraint_violation(None));
}

#[test]
fn app_config_holds_settings() {
    let config = AppConfig::new(8080, "sqlite://authors.db".to_string());
    assert_eq!(config.server_port, 8080);
    assert_eq!(config.database_url, "sqlite://authors.db");
}
