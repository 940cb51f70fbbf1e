use mchose_tray::command::{parse_command, Command};
use mchose_tray::settings::DisplayMode;

#[test]
fn command_line_mode_override_uses_last_mode() {
    let command = parse_command(
        &vec!["--battery".into(), "--percent".into()],
        DisplayMode::default(),
    )
    .unwrap();
    assert!(matches!(command, Command::Run(DisplayMode::Percentage)));
}

#[test]
fn quit_takes_priority_over_later_arguments() {
    assert!(matches!(
        parse_command(
            &vec!["--quit".into(), "--unknown".into()],
            DisplayMode::default()
        )
        .unwrap(),
        Command::Quit
    ));
}

#[test]
fn unknown_option_is_rejected() {
    assert!(parse_command(&vec!["--unknown".into()], DisplayMode::default()).is_err());
}

#[test]
fn saved_mode_is_used_without_options() {
    assert_eq!(
        parse_command(&vec![], DisplayMode::Battery),
        Ok(Command::Run(DisplayMode::Battery))
    );
    assert_eq!(
        parse_command(&vec!["--percent".into(), "--battery".into()], DisplayMode::Percentage),
        Ok(Command::Run(DisplayMode::Battery))
    );
}

#[test]
fn unknown_option_is_named() {
    assert_eq!(
        parse_command(&vec!["--battery".into(), "-x".into(), "--quit".into()], DisplayMode::Battery),
        Err("Unknown option: -x".to_string())
    );
}
