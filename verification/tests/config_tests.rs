use sfu::{validate_env, ConfigError};

#[test]
fn test_validate_env_valid_configuration() {
    let config = validate_env(
        Some(String::from("50051")),
        None,
        Some(String::from("debug")),
        None,
    )
    .expect("Expected valid configuration");
    assert_eq!(config.grpc_port, 50051);
    assert_eq!(config.rust_log, "debug");
}

#[test]
fn test_validate_env_metrics_port() {
    let config = validate_env(
        Some(String::from("50051")),
        Some(String::from("9090")),
        None,
        None,
    )
    .expect("Expected valid configuration");
    assert_eq!(config.metrics_port, 9090);
}

#[test]
fn test_validate_env_invalid_metrics_port() {
    let result = validate_env(
        Some(String::from("50051")),
        Some(String::from("not-a-number")),
        None,
        None,
    );
    assert!(result.is_err());
    let err = result.unwrap_err();
    assert!(matches!(err, ConfigError::InvalidPort(_)));
    assert!(err.message().contains("METRICS_PORT must be a valid port number"));
}

#[test]
fn test_validate_env_missing_grpc_port() {
    let result = validate_env(None, None, None, None);
    assert!(result.is_err());
    let err = result.unwrap_err();
    assert!(matches!(err, ConfigError::MissingVariable(_)));
    assert!(err.message().contains("GRPC_PORT is required"));
}

#[test]
fn test_validate_env_invalid_grpc_port() {
    let result = validate_env(Some(String::from("not-a-number")), None, None, None);
    assert!(result.is_err());
    let err = result.unwrap_err();
    assert!(matches!(err, ConfigError::InvalidPort(_)));
    assert!(err.message().contains("GRPC_PORT must be a valid port number"));
}

#[test]
fn test_validate_env_port_out_of_range() {
    let result = validate_env(Some(String::from("0")), None, None, None);
    assert!(result.is_err());
    let err = result.unwrap_err();
    assert!(matches!(err, ConfigError::PortOutOfRange(_)));
    assert!(err.message().contains("must be between 1 and 65535"));
    assert_eq!(err.message(), "GRPC_PORT must be between 1 and 65535 (got 0)");
}

#[test]
fn test_validate_env_rust_log_defaults() {
    let config = validate_env(Some(String::from("50051")), None, None, None)
        .expect("Expected valid configuration");
    assert_eq!(config.grpc_port, 50051);
    assert_eq!(config.rust_log, "info");
}

#[test]
fn test_validate_env_port_edge_cases() {
    let test_cases = vec![("1", true, 1), ("65535", true, 65535), ("8080", true, 8080)];

    for (port_str, should_succeed, expected_port) in test_cases {
        let result = validate_env(Some(String::from(port_str)), None, None, None);
        if should_succeed {
            let config = result.unwrap_or_else(|e| {
                panic!("Expected port {} to be valid, got error: {}", port_str, e.message())
            });
            assert_eq!(config.grpc_port, expected_port);
        } else {
            assert!(result.is_err(), "Expected port {} to be invalid", port_str);
        }
    }
}

#[test]
fn test_validate_env_plus_prefixed_port() {
    // The unsigned-integer grammar accepts one optional leading plus sign.
    let config = validate_env(Some(String::from("+50051")), None, None, None)
        .expect("plus-prefixed port is valid");
    assert_eq!(config.grpc_port, 50051);
    let config = validate_env(Some(String::from("+1")), None, None, None).unwrap();
    assert_eq!(config.grpc_port, 1);
    assert!(validate_env(Some(String::from("+")), None, None, None).is_err());
    assert!(validate_env(Some(String::from("++1")), None, None, None).is_err());
    assert!(validate_env(Some(String::from("-1")), None, None, None).is_err());
}

#[test]
fn test_validate_env_port_too_large() {
    let result = validate_env(Some(String::from("65536")), None, None, None);
    assert!(matches!(result.unwrap_err(), ConfigError::InvalidPort(_)));
}

#[test]
fn test_validate_env_cc_service_defaults() {
    let config = validate_env(Some(String::from("50051")), None, None, None).unwrap();
    assert_eq!(config.cc_service_addr, "http://localhost:50051");
    let config2 = validate_env(
        Some(String::from("50051")),
        None,
        None,
        Some(String::from("http://captions:9000")),
    )
    .unwrap();
    assert_eq!(config2.cc_service_addr, "http://captions:9000");
}
