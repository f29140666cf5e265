//! The lines that tell the user what a run is about to do and what it did.

use crate::format::{append_grouped, grouped, human_readable_size, size_text};
use crate::generator::{GenerationRequest, GenerationResult};
use crate::probe::ProbeError;
use vstd::prelude::*;
use vstd::string::*;

verus! {

/// The text in which the standard library shows a time span of `secs`
/// seconds and `nanos` nanoseconds when it is formatted for debugging.
pub uninterp spec fn duration_text(secs: u64, nanos: u32) -> Seq<char>;

/// `std::time::Duration::new` and the `Debug` formatting of the duration it
/// returns. `Duration::new` panics where the nanoseconds carry the seconds
/// past 64 bits; below one second they carry nothing. Claimed: the text is a
/// function of the two numbers alone.
#[verifier::external_body]
fn render_duration(secs: u64, nanos: u32) -> (text: String)
    requires
        nanos < 1_000_000_000,
    ensures
        text@ == duration_text(secs, nanos),
{
    format!("{:?}", std::time::Duration::new(secs, nanos))
}

/// What the progress indicator says while units are being made.
pub const GENERATING_MESSAGE: &'static str = "Generating files and directories";

/// What the progress indicator says when the last unit is made.
pub const COMPLETED_MESSAGE: &'static str = "File generation completed";

/// What is said when the user does not agree.
pub const CANCELLED_MESSAGE: &'static str = "Operation cancelled by the user.";

/// The average of `total` over `count` files, rounded down.
pub open spec fn average(total: nat, count: nat) -> nat
    recommends
        count > 0,
{
    total / count
}

/// The line that announces how many files a run will create, and how large
/// at most.
pub open spec fn announcement_text(count: nat, max_size: nat) -> Seq<char> {
    "You are about to create "@ + grouped(count) + " files with a maximum size of "@ + size_text(
        max_size,
    ) + " each."@
}

/// The line that tells whether files begin with the test signature.
pub open spec fn signature_mode_text(use_signature: bool) -> Seq<char> {
    if use_signature {
        "Signature mode: on"@
    } else {
        "Signature mode: off"@
    }
}

/// The question that the user answers before anything is created.
pub open spec fn question_text() -> Seq<char> {
    "Do you want to proceed? (yes/no): "@
}

/// The line that tells how many units were created and how long it took.
pub open spec fn created_text(count: nat, elapsed: Seq<char>) -> Seq<char> {
    "Created "@ + grouped(count) + " files and directories in "@ + elapsed
}

/// The line that tells the total size.
pub open spec fn total_size_text(total: nat) -> Seq<char> {
    "Total size: "@ + size_text(total)
}

/// The line that tells the average size of a file.
pub open spec fn average_size_text(total: nat, count: nat) -> Seq<char> {
    "Average file size: "@ + size_text(average(total, count))
}

/// The line that tells the estimated number of inodes.
pub open spec fn inodes_text(inodes: nat) -> Seq<char> {
    "Total inodes used: "@ + grouped(inodes)
}

/// The line that tells the filesystem's inode usage.
pub open spec fn inode_usage_text(usage: nat) -> Seq<char> {
    "Filesystem inode usage: "@ + grouped(usage)
}

/// The line that tells how the program is called.
pub open spec fn usage_text(program: Seq<char>) -> Seq<char> {
    "Usage: "@ + program + " <base_path> <count> <max_size> [--signature]"@
}

/// The line that tells why generation stopped.
pub open spec fn failure_text(reason: Seq<char>) -> Seq<char> {
    "Error creating files: "@ + reason
}

/// The line that tells why the inode usage could not be told.
pub open spec fn probe_failure_text(error: ProbeError) -> Seq<char> {
    match error {
        ProbeError::CommandFailed => "Inode usage: the accounting command failed"@,
        ProbeError::MissingDataLine => "Inode usage: the accounting output has no data line"@,
        ProbeError::MissingField => "Inode usage: the data line has fewer than three columns"@,
        ProbeError::InvalidNumber => "Inode usage: the third column is not a number"@,
    }
}

/// The line that tells why the inode usage could not be told.
pub fn probe_failure_line(error: ProbeError) -> (line: String)
    ensures
        line@ == probe_failure_text(error),
{
    match error {
        ProbeError::CommandFailed => String::from_str("Inode usage: the accounting command failed"),
        ProbeError::MissingDataLine => String::from_str(
            "Inode usage: the accounting output has no data line",
        ),
        ProbeError::MissingField => String::from_str(
            "Inode usage: the data line has fewer than three columns",
        ),
        ProbeError::InvalidNumber => String::from_str(
            "Inode usage: the third column is not a number",
        ),
    }
}

/// The lines shown before the user is asked to confirm: what is about to be
/// created, whether with signatures, and the question.
pub fn confirm_prompt(request: &GenerationRequest) -> (lines: Vec<String>)
    ensures
        lines@.len() == 3,
        lines@[0]@ == announcement_text(request.count as nat, request.max_size as nat),
        lines@[1]@ == signature_mode_text(request.use_signature),
        lines@[2]@ == question_text(),
{
    let mut announcement = String::new();
    announcement.append("You are about to create ");
    append_grouped(&mut announcement, request.count as u128);
    announcement.append(" files with a maximum size of ");
    announcement.append(human_readable_size(request.max_size as u128).as_str());
    announcement.append(" each.");
    let mode = if request.use_signature {
        String::from_str("Signature mode: on")
    } else {
        String::from_str("Signature mode: off")
    };
    let question = String::from_str("Do you want to proceed? (yes/no): ");
    let mut lines: Vec<String> = Vec::new();
    lines.push(announcement);
    lines.push(mode);
    lines.push(question);
    assert(lines@[0]@ =~= announcement_text(request.count as nat, request.max_size as nat));
    lines
}

/// The line that tells how many units were created and how long it took,
/// from the elapsed time as text.
pub fn created_line(count: usize, elapsed: &str) -> (line: String)
    ensures
        line@ == created_text(count as nat, elapsed@),
{
    let mut line = String::new();
    line.append("Created ");
    append_grouped(&mut line, count as u128);
    line.append(" files and directories in ");
    line.append(elapsed);
    assert(line@ =~= created_text(count as nat, elapsed@));
    line
}

/// The line that tells the total size.
pub fn total_size_line(total: u128) -> (line: String)
    ensures
        line@ == total_size_text(total as nat),
{
    let mut line = String::new();
    line.append("Total size: ");
    line.append(human_readable_size(total).as_str());
    assert(line@ =~= total_size_text(total as nat));
    line
}

/// The line that tells the average size of a file.
pub fn average_size_line(total: u128, count: usize) -> (line: String)
    requires
        count >= 1,
    ensures
        line@ == average_size_text(total as nat, count as nat),
{
    let mut line = String::new();
    line.append("Average file size: ");
    line.append(human_readable_size(total / (count as u128)).as_str());
    assert(line@ =~= average_size_text(total as nat, count as nat));
    line
}

/// The line that tells the estimated number of inodes.
pub fn inodes_line(inodes: u128) -> (line: String)
    ensures
        line@ == inodes_text(inodes as nat),
{
    let mut line = String::new();
    line.append("Total inodes used: ");
    append_grouped(&mut line, inodes);
    assert(line@ =~= inodes_text(inodes as nat));
    line
}

/// The line that tells the filesystem's inode usage.
pub fn inode_usage_line(usage: u64) -> (line: String)
    ensures
        line@ == inode_usage_text(usage as nat),
{
    let mut line = String::new();
    line.append("Filesystem inode usage: ");
    append_grouped(&mut line, usage as u128);
    assert(line@ =~= inode_usage_text(usage as nat));
    line
}

/// The line that tells how the program is called.
pub fn usage_line(program: &str) -> (line: String)
    ensures
        line@ == usage_text(program@),
{
    let mut line = String::new();
    line.append("Usage: ");
    line.append(program);
    line.append(" <base_path> <count> <max_size> [--signature]");
    assert(line@ =~= usage_text(program@));
    line
}

/// The line that tells why generation stopped.
pub fn failure_line(reason: &str) -> (line: String)
    ensures
        line@ == failure_text(reason@),
{
    let mut line = String::new();
    line.append("Error creating files: ");
    line.append(reason);
    assert(line@ =~= failure_text(reason@));
    line
}

/// The lines that sum up a completed run of `count` units: units and time,
/// total size, average size, and the inode estimate.
pub fn summary_lines(count: usize, result: &GenerationResult) -> (lines: Vec<String>)
    requires
        count >= 1,
        result.elapsed.valid(),
    ensures
        lines@.len() == 4,
        lines@[0]@ == created_text(
            count as nat,
            duration_text(result.elapsed.secs, result.elapsed.nanos),
        ),
        lines@[1]@ == total_size_text(result.total_bytes_written as nat),
        lines@[2]@ == average_size_text(result.total_bytes_written as nat, count as nat),
        lines@[3]@ == inodes_text(result.inode_estimate as nat),
{
    let elapsed = render_duration(result.elapsed.secs, result.elapsed.nanos);
    let mut lines: Vec<String> = Vec::new();
    lines.push(created_line(count, elapsed.as_str()));
    lines.push(total_size_line(result.total_bytes_written));
    lines.push(average_size_line(result.total_bytes_written, count));
    lines.push(inodes_line(result.inode_estimate));
    lines
}

} // verus!
