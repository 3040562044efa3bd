use pandoras_pot::config::Config;
use pandoras_pot::config::GeneratorConfig;
use pandoras_pot::config::GeneratorType;
use pandoras_pot::config::MAX_PERMITS;
use pandoras_pot::error_code;

fn default_config() -> Config {
    Config::default()
}

#[test]
fn default_config_values() {
    let config = default_config();
    assert_eq!(config.http.port, "8080");
    assert_eq!(config.http.routes, vec!["/".to_string()]);
    assert!(config.http.catch_all);
    assert_eq!(config.http.rate_limit, 0);
    assert_eq!(config.http.health_port, "8081");
    assert!(!config.http.health_port_enabled);
    assert_eq!(config.http.content_type, "text/html; charset=utf-8");
    assert_eq!(config.generator.chunk_size, 16384);
    assert_eq!(config.generator.time_limit, 0);
    assert_eq!(config.generator.size_limit, 0);
    assert_eq!(config.generator.chunk_buffer, 20);
    assert_eq!(config.generator.prefix, "<!DOCTYPE html><html><body>");
    assert!(matches!(
        config.generator.generator_type,
        GeneratorType::Random
    ));
    assert_eq!(config.logging.output_path, "pandoras.log");
    assert!(config.logging.print_pretty_logs);
    assert!(!config.logging.no_stdout);
}

#[test]
fn generator_config_new_sets_fields() {
    let gen = GeneratorConfig::new(
        1024,
        GeneratorType::Static("/tmp/data".to_string()),
        7,
        30,
        4096,
        2,
        "{".to_string(),
    );
    assert_eq!(gen.chunk_size, 1024);
    assert!(matches!(gen.generator_type, GeneratorType::Static(ref p) if p == "/tmp/data"));
    assert_eq!(gen.max_concurrent(), 7);
    assert_eq!(gen.time_limit, 30);
    assert_eq!(gen.size_limit, 4096);
    assert_eq!(gen.chunk_buffer, 2);
    assert_eq!(gen.prefix, "{");
}

#[test]
fn max_concurrent_zero_is_unlimited() {
    let mut gen = GeneratorConfig::default();
    gen.max_concurrent = 0;
    assert_eq!(gen.max_concurrent(), MAX_PERMITS);
    assert_eq!(MAX_PERMITS, usize::MAX >> 3);
    gen.max_concurrent = 5;
    assert_eq!(gen.max_concurrent(), 5);
}

#[test]
fn app_too_small_chunk_size() {
    let mut config = default_config();
    config.generator.chunk_size = 5;
    match config.validate(true) {
        Err(code) => assert_eq!(code, error_code::GENERATOR_CHUNK_SIZE_TOO_SMALL),
        _ => panic!("too small chunk size was allowed"),
    }
}

#[test]
fn chunk_size_must_exceed_tag_overhead() {
    let mut config = default_config();
    // A chunk of exactly the tag overhead leaves no room for text and is
    // refused; one byte more passes.
    config.generator.chunk_size = 10;
    match config.validate(true) {
        Err(code) => assert_eq!(code, error_code::GENERATOR_CHUNK_SIZE_TOO_SMALL),
        _ => panic!("chunk size equal to the tag overhead was allowed"),
    }
    config.generator.chunk_size = 11;
    assert_eq!(config.validate(true), Ok(()));
}

#[test]
fn app_too_small_chunk_buffer() {
    let mut config = default_config();
    config.generator.chunk_buffer = 0;
    match config.validate(true) {
        Err(code) => assert_eq!(code, error_code::GENERATOR_CHUNK_BUFFER_TOO_SMALL),
        _ => panic!("too small chunk buffer was allowed"),
    }
}

#[test]
fn app_disabled_catch_all_no_routes() {
    let mut config = default_config();
    config.http.catch_all = false;
    config.http.routes = vec![];
    match config.validate(true) {
        Ok(_) => {
            panic!("app created although catch all was disabled but no routes were provided")
        }
        Err(code) => assert_eq!(
            code,
            error_code::BAD_CONFIG,
            "expected error code {} for BAD_CONFIG but got {}",
            error_code::BAD_CONFIG,
            code
        ),
    }
}

#[test]
fn validate_default_is_ok() {
    let config = default_config();
    assert_eq!(config.validate(true), Ok(()));
}

#[test]
fn validate_bad_content_type() {
    let config = default_config();
    match config.validate(false) {
        Err(code) => assert_eq!(code, error_code::BAD_CONTENT_TYPE),
        _ => panic!("bad content type was allowed"),
    }
}

#[test]
fn validate_rate_limit_without_period() {
    let mut config = default_config();
    config.http.rate_limit = 10;
    config.http.rate_limit_period = 0;
    match config.validate(true) {
        Err(code) => assert_eq!(code, error_code::BAD_CONFIG),
        _ => panic!("rate limiting with a zero period was allowed"),
    }
}

#[test]
fn health_port_conflict_detected() {
    let mut config = default_config();
    config.http.health_port_enabled = true;
    config.http.health_port = config.http.port.clone();
    assert!(config.health_port_conflict());
    config.http.health_port = "9999".to_string();
    assert!(!config.health_port_conflict());
    config.http.health_port_enabled = false;
    config.http.health_port = config.http.port.clone();
    assert!(!config.health_port_conflict());
}

#[test]
fn describe_strategy_names() {
    assert_eq!(GeneratorType::Random.describe(), "random generator");
    assert_eq!(
        GeneratorType::MarkovChain("/seed.txt".to_string()).describe(),
        "Markov chain generator with '/seed.txt' as data source"
    );
    assert_eq!(
        GeneratorType::Static("/data.html".to_string()).describe(),
        "static generator with '/data.html' as data source"
    );
}
