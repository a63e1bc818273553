//! Tests of configuration building and argument-vector splitting.

use practicestuff::config::{BehaviourOnError, Config, NumberOfQuestions};
use practicestuff::Application;

#[test]
fn build_show_help() {
    let args = ["command".to_string(), "--help".to_string()];
    let config = Config::build(&args).expect("should build successfully");
    assert!(config.options.show_help);
    assert!(!config.options.show_version);
    assert!(config.skill.is_none());
}

#[test]
fn build_show_version() {
    let args = ["command".to_string(), "--version".to_string()];
    let config = Config::build(&args).expect("should build successfully");
    assert!(!config.options.show_help);
    assert!(config.options.show_version);
    assert!(config.skill.is_none());
}

#[test]
fn build_not_enough_args() {
    let args: [String; 0] = [];
    assert!(Config::build(&args).unwrap_err().contains("Usage"));

    let args = ["some_arg".to_string()];
    assert!(Config::build(&args).unwrap_err().contains("Usage"));
}

#[test]
fn build_missing_command_is_reported() {
    let args = [
        "command".to_string(),
        "--number-of-questions=10".to_string(),
    ];
    assert!(Config::build(&args)
        .unwrap_err()
        .contains("missing command"));
}

#[test]
fn build_unrecognised_command_is_reported() {
    let args = ["command".to_string(), "unrecognised".to_string()];
    assert!(Config::build(&args).unwrap_err().contains("invalid option"));
}

#[test]
fn build_successful_no_args() {
    let args = ["command".to_string(), "powers".to_string()];
    let config = Config::build(&args).expect("should build successfully");
    assert!(!config.options.show_help);
    assert!(!config.options.show_version);
    assert_eq!(
        config.options.number_of_questions,
        NumberOfQuestions::Limited(20)
    );
    assert!(!config.options.disable_live_statistics);
    assert_eq!(
        config.options.behaviour_on_error,
        BehaviourOnError::ShowCorrect
    );
    assert!(config.skill.is_some());
}

#[test]
fn build_successful_all_args_used() {
    let args = [
        "command".to_string(),
        "--number-of-questions=10".to_string(),
        "--disable-live-statistics".to_string(),
        "--behavior-on-error=repeat".to_string(),
        "powers".to_string(),
    ];
    let config = Config::build(&args).expect("should build successfully");
    assert!(!config.options.show_help);
    assert!(!config.options.show_version);
    assert_eq!(
        config.options.number_of_questions,
        NumberOfQuestions::Limited(10)
    );
    assert!(config.options.disable_live_statistics);
    assert_eq!(config.options.behaviour_on_error, BehaviourOnError::Repeat);
    assert!(config.skill.is_some());

    // Different set of args
    let args = [
        "command".to_string(),
        "-n".to_string(),
        "0".to_string(),
        "-d".to_string(),
        "-b".to_string(),
        "continue".to_string(),
        "powers".to_string(),
    ];
    let config = Config::build(&args).expect("should build successfully");
    assert!(!config.options.show_help);
    assert!(!config.options.show_version);
    assert_eq!(
        config.options.number_of_questions,
        NumberOfQuestions::Infinite
    );
    assert!(config.options.disable_live_statistics);
    assert_eq!(
        config.options.behaviour_on_error,
        BehaviourOnError::NextQuestion
    );
    assert!(config.skill.is_some());
}

#[test]
fn args_split() {
    let args = [
        "--number-of-questions=10".to_string(),
        "-d".to_string(),            // Disable live stats
        "-b".to_string(),            // Set behaviour on error to...
        "repeat".to_string(),        // ...repeat
        "powers".to_string(),        // some command
        "-a".to_string(),            // some command args
        "--some-arg=42".to_string(), // another command arg
    ];
    let (options, command, command_options) = Config::split_args(&args);

    assert_eq!(
        options,
        [
            "--number-of-questions=10".to_string(),
            "-d".to_string(),
            "-b".to_string(),
            "repeat".to_string()
        ]
    );
    assert_eq!(command, Some("powers".to_string()));
    assert_eq!(
        command_options,
        ["-a".to_string(), "--some-arg=42".to_string()]
    );
}

#[test]
fn args_split_unrecognised_command() {
    let args = [
        "--number-of-questions=10".to_string(),
        "-d".to_string(),
        "-b".to_string(),
        "somecommand".to_string(),
        "-a".to_string(),
        "--some-arg=42".to_string(),
    ];
    let (options, command, command_options) = Config::split_args(&args);

    assert_eq!(
        options, args,
        "command not recognised, hence all args are treated as general args"
    );
    assert_eq!(command, None);
    assert!(command_options.is_empty());
}

#[test]
fn args_split_no_general_options() {
    let args = [
        "powers".to_string(),
        "-a".to_string(),
        "--some-arg=42".to_string(),
    ];
    let (options, command, command_options) = Config::split_args(&args);

    assert!(options.is_empty());
    assert_eq!(command, Some("powers".to_string()));
    assert_eq!(
        command_options,
        ["-a".to_string(), "--some-arg=42".to_string()]
    );
}

#[test]
fn build_error_message() {
    let msg = "some error message";
    let error_message = Config::build_err_message(Some(msg.to_string()));
    assert!(error_message.contains(msg));
    assert!(error_message.contains(&Application::usage()));
    assert!(error_message.contains(&Application::help_prompt()));

    let error_message = Config::build_err_message(None);
    assert!(error_message.contains(&Application::usage()));
    assert!(error_message.contains(&Application::help_prompt()));
}

#[test]
fn parse_behaviour_on_error() {
    assert_eq!(
        BehaviourOnError::from_string("continue"),
        BehaviourOnError::NextQuestion
    );
    assert_eq!(
        BehaviourOnError::from_string("showcorrect"),
        BehaviourOnError::ShowCorrect
    );
    assert_eq!(
        BehaviourOnError::from_string("repeat"),
        BehaviourOnError::Repeat
    );
}

#[test]
fn general_help_text_is_aligned_and_fits() {
    let help = Application::help_text();
    assert!(help.contains("Usage: practicestuff"));
    assert!(help.contains("General options:"));
    assert!(help.contains("-h, --help"));
    assert!(help.contains("-v, --version"));
    assert!(help.contains("-n, --number-of-questions"));
    assert!(help.contains("Commands:"));
    assert!(help.contains("powers"));
    assert!(help.contains("times_table"));
    assert!(help.contains("doomsday"));
    assert!(help.lines().all(|l| l.len() <= 80));
    // every long name starts right after the indent and short-name field
    for line in help.lines() {
        if let Some(idx) = line.find("--") {
            if line.starts_with("  -") {
                assert_eq!(idx, 6);
            }
        }
    }
}
