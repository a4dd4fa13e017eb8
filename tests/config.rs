use minigrep::{Config, ConfigError};

#[test]
fn program_name_alone_is_not_enough() {
    let args = vec![String::from("minigrep")];
    assert_eq!(
        ConfigError::InsufficientArguments,
        Config::new(&args, false).unwrap_err()
    );
}

#[test]
fn query_without_file_is_not_enough() {
    let args = vec![String::from("minigrep"), String::from("duct")];
    assert_eq!(
        ConfigError::InsufficientArguments,
        Config::new(&args, true).unwrap_err()
    );
    assert!(Config::new(&[], false).is_err());
}

#[test]
fn query_and_file_are_read() {
    let args = vec![
        String::from("minigrep"),
        String::from("duct"),
        String::from("poem.txt"),
    ];
    let config = Config::new(&args, false).unwrap();
    assert_eq!("duct", config.query);
    assert_eq!("poem.txt", config.filename);
    assert!(config.case_sensitive);
}

#[test]
fn switch_present_ignores_case() {
    let args = vec![
        String::from("minigrep"),
        String::from("duct"),
        String::from("poem.txt"),
        String::from("extra"),
    ];
    let config = Config::new(&args, true).unwrap();
    assert_eq!("duct", config.query);
    assert_eq!("poem.txt", config.filename);
    assert!(!config.case_sensitive);
}

#[test]
fn error_message() {
    assert_eq!(
        "not enough arguments",
        ConfigError::InsufficientArguments.message()
    );
}
