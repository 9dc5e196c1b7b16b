use radar_lib::commands::{
    get_command_logging_filter, log_command, log_result, set_command_logging_filter,
    should_log_command, CommandLogFilter,
};
use radar_lib::log::{
    add_suppression_pattern, clear_suppression_patterns, disable_module, enable_feature,
    enable_module, init_logger, is_logging_enabled, is_module_enabled,
    remove_suppression_pattern, set_logging, should_suppress_message,
};
use radar_lib::public_network::{is_network_logging_enabled, set_network_logging};

#[test]
fn logging_starts_disabled_with_two_patterns() {
    let s = init_logger();
    assert!(!is_logging_enabled(&s));
    assert!(!is_network_logging_enabled(&s));
    assert!(s.enabled_modules.is_empty());
    assert_eq!(
        s.suppressed_patterns,
        vec!["Failed to send SearchStarted", "sending on a closed channel"]
    );
}

#[test]
fn logging_is_switched_for_all_modules() {
    let mut s = init_logger();
    assert!(set_logging(&mut s, true));
    assert!(is_logging_enabled(&s));
    assert!(is_module_enabled(&s, "any::module"));
    assert!(!set_network_logging(&mut s, false));
    assert!(!is_logging_enabled(&s));
    assert!(!is_module_enabled(&s, "any::module"));
}

#[test]
fn modules_are_enabled_by_name_or_feature() {
    let mut s = init_logger();
    enable_module(&mut s, "radar_lib::network_scanner");
    enable_module(&mut s, "radar_lib::network_scanner");
    assert_eq!(s.enabled_modules.len(), 1);
    assert!(is_module_enabled(&s, "radar_lib::network_scanner"));
    assert!(!is_module_enabled(&s, "radar_lib::network_scanner::mdns"));
    enable_feature(&mut s, "mdns");
    assert!(is_module_enabled(&s, "radar_lib::network_scanner::mdns"));
    assert!(!is_module_enabled(&s, "radar_lib::commands"));
    disable_module(&mut s, "radar_lib::network_scanner");
    disable_module(&mut s, "never enabled");
    assert!(!is_module_enabled(&s, "radar_lib::network_scanner"));
    assert!(s.enabled_modules.is_empty());
}

#[test]
fn messages_are_held_back_by_pattern_or_module() {
    let mut s = init_logger();
    assert!(should_suppress_message(&s, "m", "hello"));
    set_logging(&mut s, true);
    assert!(!should_suppress_message(&s, "m", "hello"));
    assert!(should_suppress_message(&s, "m", "error: sending on a closed channel (x)"));
    add_suppression_pattern(&mut s, "hell");
    add_suppression_pattern(&mut s, "hell");
    assert!(should_suppress_message(&s, "m", "hello"));
    remove_suppression_pattern(&mut s, "hell");
    assert!(!should_suppress_message(&s, "m", "hello"));
    assert_eq!(s.suppressed_patterns.len(), 2);
    remove_suppression_pattern(&mut s, "not there");
    assert_eq!(s.suppressed_patterns.len(), 2);
    clear_suppression_patterns(&mut s);
    assert!(s.suppressed_patterns.is_empty());
    assert!(!should_suppress_message(&s, "m", "sending on a closed channel"));
}

#[test]
fn commands_are_logged_by_the_filter() {
    let mut f = CommandLogFilter::new();
    assert!(should_log_command(&f, "anything"));
    assert_eq!(
        log_command(&f, "run_network_scan", "no args").as_deref(),
        Some("Command 'run_network_scan' called with args: no args")
    );
    assert!(set_command_logging_filter(&mut f, vec!["run_network_scan".to_string()]));
    assert_eq!(get_command_logging_filter(&f), vec!["run_network_scan"]);
    assert!(should_log_command(&f, "run_network_scan"));
    assert!(!should_log_command(&f, "stop_network_scan"));
    assert_eq!(log_command(&f, "stop_network_scan", "x"), None);
    assert_eq!(
        log_result(&f, "run_network_scan", "true").as_deref(),
        Some("Command 'run_network_scan' returned: true")
    );
    assert_eq!(log_result(&f, "other", "true"), None);
    assert!(set_command_logging_filter(&mut f, Vec::new()));
    assert!(should_log_command(&f, "stop_network_scan"));
}
