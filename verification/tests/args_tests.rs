use pandoras_pot::args::ArgsAction;
use pandoras_pot::args::action_exit_code;
use pandoras_pot::args::parse_args;
use pandoras_pot::error_code;
use pandoras_pot::handler::RequestHandler;
use pandoras_pot::handler::first_proxy_value;
use pandoras_pot::handlers::EosHandler;

#[test]
fn no_args_uses_default_config() {
    let action = parse_args(false, false, false, 0);
    assert_eq!(action, ArgsAction::UseDefaultConfig);
    assert_eq!(action_exit_code(action), None);
}

#[test]
fn one_free_arg_loads_config_file() {
    let action = parse_args(false, false, false, 1);
    assert_eq!(action, ArgsAction::LoadConfigFile);
    assert_eq!(action_exit_code(action), None);
}

#[test]
fn extra_args_are_rejected() {
    let action = parse_args(false, false, false, 2);
    assert_eq!(action, ArgsAction::RejectExtraArgs);
    assert_eq!(action_exit_code(action), Some(error_code::ARGUMENT_ERROR));
}

#[test]
fn help_wins_over_everything() {
    let action = parse_args(true, true, true, 1);
    assert_eq!(action, ArgsAction::ShowHelp);
    assert_eq!(action_exit_code(action), Some(0));
}

#[test]
fn version_wins_over_print_default() {
    let action = parse_args(false, true, true, 0);
    assert_eq!(action, ArgsAction::ShowVersion);
    assert_eq!(action_exit_code(action), Some(0));
}

#[test]
fn print_default_exits_cleanly() {
    let action = parse_args(false, false, true, 0);
    assert_eq!(action, ArgsAction::ShowDefaultConfig);
    assert_eq!(action_exit_code(action), Some(0));
}

#[test]
fn first_proxy_value_picks_first_present() {
    let values = vec![
        None,
        Some("203.0.113.7".to_string()),
        None,
        Some("198.51.100.1".to_string()),
    ];
    assert_eq!(first_proxy_value(&values), Some("203.0.113.7".to_string()));
    assert_eq!(first_proxy_value(&vec![None, None]), None);
    assert_eq!(first_proxy_value(&Vec::new()), None);
}

#[test]
fn handler_markers_construct() {
    let _ = RequestHandler::new();
    let _ = pandoras_pot::handlers::RequestHandler::new();
    let _ = EosHandler::new();
}
