use minigrep::matching_lines;
use minigrep::Config;
use minigrep::ConfigError;

#[test]
fn too_few_arguments_fail() {
    let none: Vec<String> = vec![];
    let one = vec!["onlyone".to_string()];
    assert_eq!(ConfigError::InsufficientArguments, Config::new(&none, true).unwrap_err());
    assert_eq!(ConfigError::InsufficientArguments, Config::new(&one, true).unwrap_err());
    assert_eq!(ConfigError::InsufficientArguments, Config::new(&one, false).unwrap_err());
}

#[test]
fn error_carries_usage_message() {
    let err = Config::new(&[], true).unwrap_err();
    assert_eq!(
        "Not enough arguments. Usage: minigrep <query> <file_path>",
        err.message()
    );
}

#[test]
fn plan_takes_arguments_verbatim() {
    let args = vec!["  spaced Query ".to_string(), "poem.txt".to_string(), "extra".to_string()];
    let config = Config::new(&args, true).unwrap();
    assert_eq!("  spaced Query ", config.query);
    assert_eq!("poem.txt", config.file_path);
    assert!(config.case_sensitive);
}

#[test]
fn present_environment_variable_disables_case_sensitivity() {
    let args = vec!["q".to_string(), "f".to_string()];
    let unset = Config::new(&args, true).unwrap();
    let set = Config::new(&args, false).unwrap();
    assert!(unset.case_sensitive);
    assert!(!set.case_sensitive);
}

#[test]
fn matching_lines_follows_the_plan() {
    let contents = "Duct:\nsafe, fast, productive.\nPick three.";
    let args = vec!["duct".to_string(), "ignored.txt".to_string()];
    let sensitive = Config::new(&args, true).unwrap();
    let insensitive = Config::new(&args, false).unwrap();
    assert_eq!(vec!["safe, fast, productive."], matching_lines(&sensitive, contents));
    assert_eq!(
        vec!["Duct:", "safe, fast, productive."],
        matching_lines(&insensitive, contents)
    );
}
