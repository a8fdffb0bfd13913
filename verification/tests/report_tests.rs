use maint_report::config::Config;
use maint_report::config::NetworkFormat;
use maint_report::report::build_block;
use maint_report::report::build_report;
use maint_report::report::fatal_log_message;
use maint_report::report::operation_block;
use maint_report::report::startup_error_line;
use maint_report::report::status_line;
use maint_report::report::CommandResult;
use maint_report::report::Operation;
use maint_report::report::ReportError;
use maint_report::DEFAULT_TAIL_LINES;

fn test_config(machine_name: &str) -> Config {
    Config {
        terminal_logs: true,
        terminal_log_lvl: "info".to_string(),
        wasm_logging: false,
        file_logs: true,
        file_log_lvl: "debug".to_string(),
        log_file_path: "logs/run.log".to_string(),
        network_logs: false,
        network_log_lvl: "error".to_string(),
        network_endpoint_url: "http://127.0.0.1:9000/logs".to_string(),
        network_format: NetworkFormat::JsonText { field: "message".to_string() },
        debug_extra: false,
        async_logging: false,
        machine_name: machine_name.to_string(),
    }
}

#[test]
fn default_window_is_twenty() {
    assert_eq!(DEFAULT_TAIL_LINES, 20);
}

#[test]
fn status_line_success() {
    assert_eq!(status_line(true, "exit status: 0"), "Status: SUCCESS");
}

#[test]
fn status_line_failure_carries_detail() {
    assert_eq!(
        status_line(false, "exit status: 100"),
        "Status: FAILED: exit status: 100"
    );
}

#[test]
fn block_success_with_empty_stderr() {
    let block = build_block("START", "END", true, "exit status: 0", "hello", "", 20).unwrap();
    assert_eq!(
        block,
        "START\n\nStatus: SUCCESS\n\nSTDOUT last 20 lines:\nhello\n\nSTDERR is empty\n\nEND"
    );
}

#[test]
fn block_failure_with_stderr_tail() {
    let block = build_block(
        "START",
        "END",
        false,
        "exit status: 100",
        "out line",
        "bad thing\n",
        20,
    )
    .unwrap();
    assert_eq!(
        block,
        "START\n\nStatus: FAILED: exit status: 100\n\nSTDOUT last 20 lines:\nout line\n\nSTDERR last 20 lines:\nbad thing\n\nEND"
    );
}

#[test]
fn block_empty_stdout_is_fatal() {
    assert_eq!(
        build_block("START", "END", true, "exit status: 0", "", "err", 20),
        Err(ReportError::EmptyStdout)
    );
}

#[test]
fn block_stdout_of_one_newline_is_fatal() {
    assert_eq!(
        build_block("START", "END", true, "exit status: 0", "\n", "", 20),
        Err(ReportError::EmptyStdout)
    );
}

#[test]
fn block_shows_last_twenty_of_thirty_lines() {
    let mut stdout = String::new();
    for i in 1..=30 {
        stdout.push_str(&format!("line {}\n", i));
    }
    let block = build_block("START", "END", true, "exit status: 0", &stdout, "", 20).unwrap();
    let mut expected = String::from("START\n\nStatus: SUCCESS\n\nSTDOUT last 20 lines:\n");
    for i in 11..=30 {
        if i > 11 {
            expected.push('\n');
        }
        expected.push_str(&format!("line {}", i));
    }
    expected.push_str("\n\nSTDERR is empty\n\nEND");
    assert_eq!(block, expected);
}

#[test]
fn block_window_of_ten() {
    let block = build_block("S", "E", true, "", "a\nb", "x\ny\n", 10).unwrap();
    assert_eq!(
        block,
        "S\n\nStatus: SUCCESS\n\nSTDOUT last 10 lines:\na\nb\n\nSTDERR last 10 lines:\nx\ny\n\nE"
    );
}

#[test]
fn operation_labels() {
    assert_eq!(Operation::Update.start_label(), "START - APT-GET UPDATE");
    assert_eq!(Operation::Update.end_label(), "END - APT-GET UPDATE");
    assert_eq!(Operation::Upgrade.start_label(), "START - APT-GET UPGRADE");
    assert_eq!(Operation::Upgrade.end_label(), "END - APT-GET UPGRADE");
    assert_eq!(
        Operation::FullUpgrade.start_label(),
        "START - APT-GET FULL-UPGRADE"
    );
    assert_eq!(
        Operation::FullUpgrade.end_label(),
        "END - APT-GET FULL-UPGRADE"
    );
}

#[test]
fn operation_subcommands() {
    assert_eq!(Operation::Update.subcommand(), "update");
    assert_eq!(Operation::Upgrade.subcommand(), "upgrade");
    assert_eq!(Operation::FullUpgrade.subcommand(), "full-upgrade");
}

#[test]
fn operation_block_uses_operation_markers() {
    let result = CommandResult {
        success: true,
        status_detail: "exit status: 0".to_string(),
        stdout: "done".to_string(),
        stderr: String::new(),
    };
    let block = operation_block(Operation::Upgrade, &result, 20).unwrap();
    assert_eq!(
        block,
        "START - APT-GET UPGRADE\n\nStatus: SUCCESS\n\nSTDOUT last 20 lines:\ndone\n\nSTDERR is empty\n\nEND - APT-GET UPGRADE"
    );
}

#[test]
fn operation_block_empty_stdout_is_fatal() {
    let result = CommandResult {
        success: true,
        status_detail: "exit status: 0".to_string(),
        stdout: String::new(),
        stderr: "noise".to_string(),
    };
    assert_eq!(
        operation_block(Operation::Update, &result, 20),
        Err(ReportError::EmptyStdout)
    );
}

#[test]
fn report_keeps_fixed_block_order() {
    let config = test_config("webserver01");
    let report = build_report("2024-05-01_12:00:00", &config, "UPDATE BLOCK", "UPGRADE BLOCK", "FULL BLOCK");
    assert_eq!(
        report,
        "2024-05-01_12:00:00Update / upgrade report for webserver01\nUPDATE BLOCK\n\nUPGRADE BLOCK\n\nFULL BLOCK"
    );
    let u = report.find("UPDATE BLOCK").unwrap();
    let g = report.find("UPGRADE BLOCK").unwrap();
    let f = report.find("FULL BLOCK").unwrap();
    assert!(u < g && g < f);
}

#[test]
fn startup_error_line_format() {
    assert_eq!(
        startup_error_line("2024-05-01_12:00:00", "missing config"),
        "2024-05-01_12:00:00: missing config"
    );
}

#[test]
fn fatal_log_message_format() {
    assert_eq!(
        fatal_log_message("ts", "START - APT-GET UPDATE", "\"stdout is empty\"", "END - APT-GET UPDATE"),
        "ts\nSTART - APT-GET UPDATE\n\"stdout is empty\"\nEND - APT-GET UPDATE"
    );
}
