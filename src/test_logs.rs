//! Sample records at every level, used to check what the filter lets through.

use vstd::prelude::*;
use crate::level::{level_label, Level};
use crate::logging::LogRecord;

verus! {

/// The levels of the sample records, from the least to the most severe.
pub open spec fn sample_level(i: int) -> Level {
    if i == 0 {
        Level::Trace
    } else if i == 1 {
        Level::Debug
    } else if i == 2 {
        Level::Info
    } else if i == 3 {
        Level::Warn
    } else {
        Level::Error
    }
}

/// `This is a TRACE level message from <source>`; info and error read `an`.
pub open spec fn sample_message(l: Level, source: Seq<char>) -> Seq<char> {
    let article = if l == Level::Info || l == Level::Error {
        "an "@
    } else {
        "a "@
    };
    "This is "@ + article + level_label(l) + " level message from "@ + source
}

/// The five sample records for `target`, whose messages name `source`.
pub open spec fn is_sample_set(r: Seq<LogRecord>, target: Seq<char>, source: Seq<char>) -> bool {
    r.len() == 5 && forall|i: int|
        0 <= i < 5 ==> (#[trigger] r[i]).level == sample_level(i) && r[i].target@ == target && r[i].message@
            == sample_message(sample_level(i), source)
}

fn sample_record(level: Level, target: &str, source: &str) -> (r: LogRecord)
    ensures
        r.level == level,
        r.target@ == target@,
        r.message@ == sample_message(level, source@),
{
    let mut m = String::from_str("This is ");
    let vowel = match level {
        Level::Info => true,
        Level::Error => true,
        _ => false,
    };
    if vowel {
        m.append("an ");
    } else {
        m.append("a ");
    }
    let label = level.label();
    m.append(label.as_str());
    m.append(" level message from ");
    m.append(source);
    LogRecord { level, target: String::from_str(target), message: m }
}

fn sample_records(target: &str, source: &str) -> (r: Vec<LogRecord>)
    ensures
        is_sample_set(r@, target@, source@),
{
    let mut r: Vec<LogRecord> = Vec::new();
    r.push(sample_record(Level::Trace, target, source));
    r.push(sample_record(Level::Debug, target, source));
    r.push(sample_record(Level::Info, target, source));
    r.push(sample_record(Level::Warn, target, source));
    r.push(sample_record(Level::Error, target, source));
    r
}

/// One record at each level for `target`, naming it in the message.
pub fn generate_test_logs(target: &str) -> (r: Vec<LogRecord>)
    ensures
        is_sample_set(r@, target@, target@),
{
    sample_records(target, target)
}

/// The target of records that this module logs on its own account.
pub open spec fn own_target() -> Seq<char> {
    "rust_tide_template::test_logs"@
}

/// One record at each level for this module's own target.
pub fn generate_test_logs_for_current_module() -> (r: Vec<LogRecord>)
    ensures
        is_sample_set(r@, own_target(), "current module"@),
{
    sample_records("rust_tide_template::test_logs", "current module")
}

} // verus!
