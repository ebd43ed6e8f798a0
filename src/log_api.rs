//! The administrative log-level API: request and response bodies, and what
//! each call does to the filter and answers. Transport and JSON stay with the
//! caller.

use vstd::prelude::*;
use crate::level::{filter_name, filter_named, format_log_level, parse_log_level, LevelFilter};
use crate::log_filter::{
    get_target_log_level, list_target_log_levels, remove_target_log_level, set_target_log_level, LogFilter,
};
use crate::logging::LogRecord;
use crate::test_logs::{generate_test_logs, generate_test_logs_for_current_module, is_sample_set, own_target};
use crate::text::{lower_seq, push_char};

verus! {

/// Body of a request that sets a target's level.
#[derive(Clone, Debug)]
pub struct SetLogLevelRequest {
    pub target: String,
    pub level: String,
}

/// Answer of the calls on one target.
#[derive(Clone, Debug)]
pub struct LogLevelResponse {
    pub success: bool,
    pub message: String,
    pub level: Option<String>,
}

/// One target and its level, in a listing.
#[derive(Clone, Debug)]
pub struct TargetLogLevel {
    pub target: String,
    pub level: String,
}

/// Answer of the listing call.
#[derive(Clone, Debug)]
pub struct ListLogLevelsResponse {
    pub success: bool,
    pub targets: Vec<TargetLogLevel>,
}

/// Body of a request for sample records.
#[derive(Clone, Debug)]
pub struct GenerateTestLogsRequest {
    pub target: String,
}

/// Answer of the call for sample records.
#[derive(Clone, Debug)]
pub struct TestLogsResponse {
    pub success: bool,
    pub message: String,
    pub target: String,
    pub generated_levels: Vec<String>,
}

pub const STATUS_OK: u16 = 200;

pub const STATUS_BAD_REQUEST: u16 = 400;

pub const STATUS_NOT_FOUND: u16 = 404;

pub open spec fn quoted_target(t: Seq<char>) -> Seq<char> {
    seq!['\''] + t + seq!['\'']
}

/// Sets the administrative override of `body.target` to `body.level`.
/// A level that is not a filter name answers 400 and changes nothing.
pub fn handle_set_log_level(filter: &mut LogFilter, body: SetLogLevelRequest) -> (r: (u16, LogLevelResponse))
    ensures
        match filter_named(lower_seq(body.level@)) {
            Some(f) => r.0 == STATUS_OK && r.1.success && r.1.message@ == "Log level for "@ + quoted_target(
                body.target@,
            ) + " set to "@ + seq!['"'] + body.level@ + seq!['"'] && (r.1.level matches Some(l) && l@
                == body.level@) && final(filter)@.active == old(filter)@.active && final(filter)@.overrides
                == old(filter)@.overrides.insert(body.target@, f),
            None => r.0 == STATUS_BAD_REQUEST && !r.1.success && r.1.message@ == "Invalid log level: "@
                + lower_seq(body.level@) && r.1.level is None && final(filter)@ == old(
                filter,
            )@,
        },
{
    match parse_log_level(body.level.as_str()) {
        Ok(f) => {
            let mut message = String::from_str("Log level for ");
            push_char(&mut message, '\'');
            message.append(body.target.as_str());
            push_char(&mut message, '\'');
            message.append(" set to ");
            push_char(&mut message, '"');
            message.append(body.level.as_str());
            push_char(&mut message, '"');
            set_target_log_level(filter, body.target, f);
            proof {
                assert(message@ =~= "Log level for "@ + quoted_target(body.target@) + " set to "@ + seq!['"']
                    + body.level@ + seq!['"']);
            }
            (STATUS_OK, LogLevelResponse { success: true, message, level: Some(body.level) })
        },
        Err(e) => {
            let mut message = String::from_str("Invalid log level: ");
            message.append(e.bad.as_str());
            (STATUS_BAD_REQUEST, LogLevelResponse { success: false, message, level: None })
        },
    }
}

/// The administrative override of `target`: 200 with its level, or 404.
pub fn handle_get_log_level(filter: &LogFilter, target: &str) -> (r: (u16, LogLevelResponse))
    ensures
        if filter@.overrides.contains_key(target@) {
            r.0 == STATUS_OK && r.1.success && r.1.message@ == "Log level for "@ + quoted_target(target@) && (
            r.1.level matches Some(l) && l@ == filter_name(filter@.overrides[target@]))
        } else {
            r.0 == STATUS_NOT_FOUND && !r.1.success && r.1.message@ == "No custom log level set for target "@
                + quoted_target(target@) && r.1.level is None
        },
{
    match get_target_log_level(filter, target) {
        Some(level) => {
            let mut message = String::from_str("Log level for ");
            push_char(&mut message, '\'');
            message.append(target);
            push_char(&mut message, '\'');
            proof {
                assert(message@ =~= "Log level for "@ + quoted_target(target@));
            }
            (STATUS_OK, LogLevelResponse { success: true, message, level: Some(format_log_level(level)) })
        },
        None => {
            let mut message = String::from_str("No custom log level set for target ");
            push_char(&mut message, '\'');
            message.append(target);
            push_char(&mut message, '\'');
            proof {
                assert(message@ =~= "No custom log level set for target "@ + quoted_target(target@));
            }
            (STATUS_NOT_FOUND, LogLevelResponse { success: false, message, level: None })
        },
    }
}

/// Removes the administrative override of `target`: 200 if there was one,
/// else 404.
pub fn handle_delete_log_level(filter: &mut LogFilter, target: &str) -> (r: (u16, LogLevelResponse))
    ensures
        final(filter)@.active == old(filter)@.active,
        final(filter)@.overrides == old(filter)@.overrides.remove(target@),
        r.1.level is None,
        if old(filter)@.overrides.contains_key(target@) {
            r.0 == STATUS_OK && r.1.success && r.1.message@ == "Log level for "@ + quoted_target(target@)
                + " removed"@
        } else {
            r.0 == STATUS_NOT_FOUND && !r.1.success && r.1.message@ == "No custom log level found for target "@
                + quoted_target(target@)
        },
{
    let removed = remove_target_log_level(filter, target);
    if removed {
        let mut message = String::from_str("Log level for ");
        push_char(&mut message, '\'');
        message.append(target);
        push_char(&mut message, '\'');
        message.append(" removed");
        proof {
            assert(message@ =~= "Log level for "@ + quoted_target(target@) + " removed"@);
        }
        (STATUS_OK, LogLevelResponse { success: true, message, level: None })
    } else {
        let mut message = String::from_str("No custom log level found for target ");
        push_char(&mut message, '\'');
        message.append(target);
        push_char(&mut message, '\'');
        proof {
            assert(message@ =~= "No custom log level found for target "@ + quoted_target(target@));
        }
        (STATUS_NOT_FOUND, LogLevelResponse { success: false, message, level: None })
    }
}

/// Every administrative override once, with its level's name.
pub fn handle_list_log_levels(filter: &LogFilter) -> (r: (u16, ListLogLevelsResponse))
    ensures
        r.0 == STATUS_OK,
        r.1.success,
        forall|i: int| 0 <= i < r.1.targets@.len() ==> filter@.overrides.contains_key(#[trigger] r.1.targets@[i].target@)
            && r.1.targets@[i].level@ == filter_name(filter@.overrides[r.1.targets@[i].target@]),
        forall|k: Seq<char>| filter@.overrides.contains_key(k) ==> exists|i: int| 0 <= i < r.1.targets@.len() && #[trigger] r.1.targets@[i].target@ == k,
        forall|i: int, j: int| 0 <= i < r.1.targets@.len() && 0 <= j < r.1.targets@.len() && i != j ==> r.1.targets@[i].target@ != r.1.targets@[j].target@,
{
    let entries = list_target_log_levels(filter);
    let mut targets: Vec<TargetLogLevel> = Vec::new();
    let mut i: usize = 0;
    while i < entries.len()
        invariant
            i <= entries@.len(),
            targets@.len() == i,
            forall|j: int| 0 <= j < i ==> (#[trigger] targets@[j]).target@ == entries@[j].0@ && targets@[j].level@
                == filter_name(entries@[j].1),
        decreases entries@.len() - i,
    {
        let t = TargetLogLevel { target: entries[i].0.clone(), level: format_log_level(entries[i].1) };
        targets.push(t);
        i = i + 1;
    }
    proof {
        assert forall|k: Seq<char>| filter@.overrides.contains_key(k) implies exists|i: int|
            0 <= i < targets@.len() && #[trigger] targets@[i].target@ == k by {
            let i = choose|i: int| 0 <= i < entries@.len() && #[trigger] entries@[i].0@ == k;
            assert(targets@[i].target@ == k);
        }
        assert forall|i: int| 0 <= i < targets@.len() implies filter@.overrides.contains_key(
            #[trigger] targets@[i].target@,
        ) && targets@[i].level@ == filter_name(filter@.overrides[targets@[i].target@]) by {
            assert(entries@[i].0@ == targets@[i].target@);
        }
        assert forall|i: int, j: int| 0 <= i < targets@.len() && 0 <= j < targets@.len() && i != j implies targets@[i].target@
            != targets@[j].target@ by {
            assert(entries@[i].0@ == targets@[i].target@);
            assert(entries@[j].0@ == targets@[j].target@);
        }
    }
    let response = ListLogLevelsResponse { success: true, targets };
    assert(response.targets@ == targets@);
    (STATUS_OK, response)
}

/// The names of the levels of the sample records, in the order they are made.
pub open spec fn sample_level_names() -> Seq<Seq<char>> {
    seq![
        filter_name(LevelFilter::Trace),
        filter_name(LevelFilter::Debug),
        filter_name(LevelFilter::Info),
        filter_name(LevelFilter::Warn),
        filter_name(LevelFilter::Error),
    ]
}

/// Makes the sample records for `body.target` and for this module's own
/// target, to be logged by the caller, and the answer that reports them.
pub fn handle_generate_test_logs(body: &GenerateTestLogsRequest) -> (r: (u16, TestLogsResponse, Vec<LogRecord>))
    ensures
        r.0 == STATUS_OK,
        r.1.success,
        r.1.message@ == "Test logs generated. Check server logs to verify filtering behavior."@,
        r.1.target@ == body.target@,
        r.1.generated_levels@.len() == 5,
        forall|i: int| 0 <= i < 5 ==> (#[trigger] r.1.generated_levels@[i])@ == sample_level_names()[i],
        r.2@.len() == 10,
        is_sample_set(r.2@.subrange(0, 5), body.target@, body.target@),
        is_sample_set(r.2@.subrange(5, 10), own_target(), "current module"@),
{
    let mut records = generate_test_logs(body.target.as_str());
    let mut own = generate_test_logs_for_current_module();
    let ghost first = records@;
    let ghost second = own@;
    records.append(&mut own);
    proof {
        assert(records@.subrange(0, 5) =~= first);
        assert(records@.subrange(5, 10) =~= second);
    }
    let mut levels: Vec<String> = Vec::new();
    levels.push(format_log_level(LevelFilter::Trace));
    levels.push(format_log_level(LevelFilter::Debug));
    levels.push(format_log_level(LevelFilter::Info));
    levels.push(format_log_level(LevelFilter::Warn));
    levels.push(format_log_level(LevelFilter::Error));
    let response = TestLogsResponse {
        success: true,
        message: String::from_str("Test logs generated. Check server logs to verify filtering behavior."),
        target: body.target.clone(),
        generated_levels: levels,
    };
    (STATUS_OK, response, records)
}

} // verus!
