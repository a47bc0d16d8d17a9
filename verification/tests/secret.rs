use himalaya_tui::wizard::secret::{command_secret, shell_secret, SecretError};

#[test]
fn empty_command_secret_is_rejected() {
    assert!(command_secret(Vec::new()).is_err());
}

#[test]
fn blank_shell_secret_is_rejected() {
    assert!(shell_secret("   ").is_err());
}

#[test]
fn an_argv_splits_into_program_and_arguments() {
    let argv = vec!["pass".to_string(), "show".to_string(), "mail".to_string()];
    let (program, args) = command_secret(argv).ok().unwrap();
    assert_eq!(program, "pass");
    assert_eq!(args, vec!["show", "mail"]);
    assert_eq!(command_secret(Vec::new()).err(), Some(SecretError::EmptyCommand));
}

#[test]
fn a_shell_line_is_trimmed() {
    assert_eq!(shell_secret("  pass show mail \n"), Ok("pass show mail"));
    assert_eq!(shell_secret("\t").err(), Some(SecretError::EmptyShellCommand));
}
