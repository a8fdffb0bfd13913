//! Report blocks and the final report: the status line, the trailing-lines
//! sections for each captured stream, and the fixed-order assembly of the
//! three maintenance operations' blocks.

use vstd::prelude::*;
use vstd::string::StringExecFns;
use crate::config::Config;
use crate::text::dec_str;
use crate::text::decimal_string;
use crate::text::tail_text;
use crate::text::tail_text_of;

verus! {

/// The three maintenance operations, in the order the runner performs them.
#[derive(Clone, Copy, PartialEq, Eq, Structural, Debug)]
pub enum Operation {
    Update,
    Upgrade,
    FullUpgrade,
}

/// The captured outcome of one package-manager invocation.
pub struct CommandResult {
    pub success: bool,
    pub status_detail: String,
    pub stdout: String,
    pub stderr: String,
}

/// Why a report block could not be built. An empty stdout tail means the
/// invocation was broken, and the runner treats it as fatal.
#[derive(Clone, Copy, PartialEq, Eq, Structural, Debug)]
pub enum ReportError {
    EmptyStdout,
}

/// The status line of a block: fixed on success, the failure detail after
/// a fixed prefix otherwise.
pub open spec fn status_line_text(success: bool, detail: Seq<char>) -> Seq<char> {
    if success {
        "Status: SUCCESS"@
    } else {
        "Status: FAILED: "@ + detail
    }
}

/// The stdout section: a label naming the window size, then the last `k`
/// lines of the stream.
pub open spec fn stdout_section_text(stdout: Seq<char>, k: nat) -> Seq<char> {
    "STDOUT last "@ + dec_str(k) + " lines:\n"@ + tail_text(stdout, k as int)
}

/// The stderr section: a fixed placeholder when the tail is empty, else a
/// label and the last `k` lines.
pub open spec fn stderr_section_text(stderr: Seq<char>, k: nat) -> Seq<char> {
    if tail_text(stderr, k as int).len() == 0 {
        "STDERR is empty"@
    } else {
        "STDERR last "@ + dec_str(k) + " lines:\n"@ + tail_text(stderr, k as int)
    }
}

/// A whole report block: start marker, status line, stdout section, stderr
/// section and end marker, separated by blank lines.
pub open spec fn block_text(
    start: Seq<char>,
    end: Seq<char>,
    success: bool,
    detail: Seq<char>,
    stdout: Seq<char>,
    stderr: Seq<char>,
    k: nat,
) -> Seq<char> {
    start + "\n\n"@ + status_line_text(success, detail) + "\n\n"@ + stdout_section_text(stdout, k)
        + "\n\n"@ + stderr_section_text(stderr, k) + "\n\n"@ + end
}

/// An empty stderr tail always yields the fixed placeholder, which is
/// itself never empty.
pub proof fn lemma_empty_stderr_placeholder(stderr: Seq<char>, k: nat)
    requires
        tail_text(stderr, k as int).len() == 0,
    ensures
        stderr_section_text(stderr, k) == "STDERR is empty"@,
        stderr_section_text(stderr, k).len() > 0,
{
    reveal_strlit("STDERR is empty");
}

/// The stderr section is never the empty string, whatever was captured.
pub proof fn lemma_stderr_section_nonempty(stderr: Seq<char>, k: nat)
    ensures
        stderr_section_text(stderr, k).len() > 0,
{
    if tail_text(stderr, k as int).len() == 0 {
        reveal_strlit("STDERR is empty");
    } else {
        reveal_strlit("STDERR last ");
    }
}

/// The status line of a block.
pub fn status_line(success: bool, detail: &str) -> (r: String)
    ensures
        r@ == status_line_text(success, detail@),
{
    if success {
        "Status: SUCCESS".to_owned()
    } else {
        let mut r = "Status: FAILED: ".to_owned();
        r.append(detail);
        r
    }
}

/// Builds one report block from a captured outcome. Fails exactly when the
/// stdout tail is empty; the stderr section falls back to the fixed
/// placeholder instead.
pub fn build_block(
    start: &str,
    end: &str,
    success: bool,
    status_detail: &str,
    stdout: &str,
    stderr: &str,
    k: usize,
) -> (r: Result<String, ReportError>)
    ensures
        r is Ok <==> tail_text(stdout@, k as int).len() > 0,
        r matches Ok(b) ==> b@ == block_text(
            start@,
            end@,
            success,
            status_detail@,
            stdout@,
            stderr@,
            k as nat,
        ),
        r matches Err(e) ==> e == ReportError::EmptyStdout,
{
    let out_tail = tail_text_of(stdout, k);
    if out_tail.as_str().is_empty() {
        return Err(ReportError::EmptyStdout);
    }
    let err_tail = tail_text_of(stderr, k);
    let k_dec = decimal_string(k as u64);
    let status = status_line(success, status_detail);
    let mut r = start.to_owned();
    r.append("\n\n");
    r.append(status.as_str());
    r.append("\n\n");
    r.append("STDOUT last ");
    r.append(k_dec.as_str());
    r.append(" lines:\n");
    r.append(out_tail.as_str());
    r.append("\n\n");
    if err_tail.as_str().is_empty() {
        r.append("STDERR is empty");
    } else {
        r.append("STDERR last ");
        r.append(k_dec.as_str());
        r.append(" lines:\n");
        r.append(err_tail.as_str());
    }
    r.append("\n\n");
    r.append(end);
    proof {
        assert(r@ =~= block_text(
            start@,
            end@,
            success,
            status_detail@,
            stdout@,
            stderr@,
            k as nat,
        ));
    }
    Ok(r)
}

/// The start marker of an operation's block.
pub open spec fn start_label_text(op: Operation) -> Seq<char> {
    match op {
        Operation::Update => "START - APT-GET UPDATE"@,
        Operation::Upgrade => "START - APT-GET UPGRADE"@,
        Operation::FullUpgrade => "START - APT-GET FULL-UPGRADE"@,
    }
}

/// The end marker of an operation's block.
pub open spec fn end_label_text(op: Operation) -> Seq<char> {
    match op {
        Operation::Update => "END - APT-GET UPDATE"@,
        Operation::Upgrade => "END - APT-GET UPGRADE"@,
        Operation::FullUpgrade => "END - APT-GET FULL-UPGRADE"@,
    }
}

/// The package-manager subcommand an operation runs.
pub open spec fn subcommand_text(op: Operation) -> Seq<char> {
    match op {
        Operation::Update => "update"@,
        Operation::Upgrade => "upgrade"@,
        Operation::FullUpgrade => "full-upgrade"@,
    }
}

impl Operation {
    /// The start marker of this operation's block.
    pub fn start_label(&self) -> (r: &'static str)
        ensures
            r@ == start_label_text(*self),
    {
        match self {
            Operation::Update => "START - APT-GET UPDATE",
            Operation::Upgrade => "START - APT-GET UPGRADE",
            Operation::FullUpgrade => "START - APT-GET FULL-UPGRADE",
        }
    }

    /// The end marker of this operation's block.
    pub fn end_label(&self) -> (r: &'static str)
        ensures
            r@ == end_label_text(*self),
    {
        match self {
            Operation::Update => "END - APT-GET UPDATE",
            Operation::Upgrade => "END - APT-GET UPGRADE",
            Operation::FullUpgrade => "END - APT-GET FULL-UPGRADE",
        }
    }

    /// The package-manager subcommand this operation runs.
    pub fn subcommand(&self) -> (r: &'static str)
        ensures
            r@ == subcommand_text(*self),
    {
        match self {
            Operation::Update => "update",
            Operation::Upgrade => "upgrade",
            Operation::FullUpgrade => "full-upgrade",
        }
    }
}

/// Builds the report block for one operation, under that operation's own
/// start and end markers.
pub fn operation_block(op: Operation, result: &CommandResult, k: usize) -> (r: Result<
    String,
    ReportError,
>)
    ensures
        r is Ok <==> tail_text(result.stdout@, k as int).len() > 0,
        r matches Ok(b) ==> b@ == block_text(
            start_label_text(op),
            end_label_text(op),
            result.success,
            result.status_detail@,
            result.stdout@,
            result.stderr@,
            k as nat,
        ),
        r matches Err(e) ==> e == ReportError::EmptyStdout,
{
    build_block(
        op.start_label(),
        op.end_label(),
        result.success,
        result.status_detail.as_str(),
        result.stdout.as_str(),
        result.stderr.as_str(),
        k,
    )
}

/// The final report: timestamp and machine-name header, then the three
/// blocks in the fixed order update, upgrade, full-upgrade.
pub open spec fn report_text(
    timestamp: Seq<char>,
    machine_name: Seq<char>,
    update_block: Seq<char>,
    upgrade_block: Seq<char>,
    full_upgrade_block: Seq<char>,
) -> Seq<char> {
    timestamp + "Update / upgrade report for "@ + machine_name + "\n"@ + update_block + "\n\n"@
        + upgrade_block + "\n\n"@ + full_upgrade_block
}

/// Whatever the individual outcomes were, the final report holds the three
/// blocks whole, the update block first, the upgrade block after it and the
/// full-upgrade block last.
pub proof fn lemma_report_block_order(
    timestamp: Seq<char>,
    machine_name: Seq<char>,
    update_block: Seq<char>,
    upgrade_block: Seq<char>,
    full_upgrade_block: Seq<char>,
)
    ensures
        ({
            let r = report_text(
                timestamp,
                machine_name,
                update_block,
                upgrade_block,
                full_upgrade_block,
            );
            let p1 = timestamp.len() + "Update / upgrade report for "@.len() + machine_name.len()
                + "\n"@.len();
            let p2 = p1 + update_block.len() + "\n\n"@.len();
            let p3 = p2 + upgrade_block.len() + "\n\n"@.len();
            &&& r.len() == p3 + full_upgrade_block.len()
            &&& r.subrange(p1 as int, p1 as int + update_block.len() as int) == update_block
            &&& r.subrange(p2 as int, p2 as int + upgrade_block.len() as int) == upgrade_block
            &&& r.subrange(p3 as int, p3 as int + full_upgrade_block.len() as int) == full_upgrade_block
        }),
{
    let r = report_text(timestamp, machine_name, update_block, upgrade_block, full_upgrade_block);
    let p1 = timestamp.len() + "Update / upgrade report for "@.len() + machine_name.len()
        + "\n"@.len();
    let p2 = p1 + update_block.len() + "\n\n"@.len();
    let p3 = p2 + upgrade_block.len() + "\n\n"@.len();
    assert(r.subrange(p1 as int, p1 as int + update_block.len() as int) =~= update_block);
    assert(r.subrange(p2 as int, p2 as int + upgrade_block.len() as int) =~= upgrade_block);
    assert(r.subrange(p3 as int, p3 as int + full_upgrade_block.len() as int) =~= full_upgrade_block);
}

/// Assembles the final report for the configured machine name, keeping the
/// blocks in the fixed operation order.
pub fn build_report(
    timestamp: &str,
    config: &Config,
    update_block: &str,
    upgrade_block: &str,
    full_upgrade_block: &str,
) -> (r: String)
    ensures
        r@ == report_text(
            timestamp@,
            config.machine_name@,
            update_block@,
            upgrade_block@,
            full_upgrade_block@,
        ),
{
    let mut r = timestamp.to_owned();
    r.append("Update / upgrade report for ");
    r.append(config.machine_name.as_str());
    r.append("\n");
    r.append(update_block);
    r.append("\n\n");
    r.append(upgrade_block);
    r.append("\n\n");
    r.append(full_upgrade_block);
    proof {
        assert(r@ =~= report_text(
            timestamp@,
            config.machine_name@,
            update_block@,
            upgrade_block@,
            full_upgrade_block@,
        ));
    }
    r
}

/// The startup error line the runner prints when configuration loading or
/// logger initialization fails: the timestamp, a separator, the detail.
pub fn startup_error_line(timestamp: &str, detail: &str) -> (r: String)
    ensures
        r@ == timestamp@ + ": "@ + detail@,
{
    let mut r = timestamp.to_owned();
    r.append(": ");
    r.append(detail);
    proof {
        assert(r@ =~= timestamp@ + ": "@ + detail@);
    }
    r
}

/// The message logged when an operation is fatal: the timestamp, the
/// block's start marker, the failure detail and the end marker, one per
/// line.
pub fn fatal_log_message(timestamp: &str, start: &str, detail: &str, end: &str) -> (r: String)
    ensures
        r@ == timestamp@ + "\n"@ + start@ + "\n"@ + detail@ + "\n"@ + end@,
{
    let mut r = timestamp.to_owned();
    r.append("\n");
    r.append(start);
    r.append("\n");
    r.append(detail);
    r.append("\n");
    r.append(end);
    proof {
        assert(r@ =~= timestamp@ + "\n"@ + start@ + "\n"@ + detail@ + "\n"@ + end@);
    }
    r
}

} // verus!
