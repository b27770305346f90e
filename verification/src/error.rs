//! Failures of the scan engine, their exit codes and their messages.
//!
//! Nothing here ends the process: a failure is a value, and the caller decides
//! what to do with the report.

use crate::text::{append_decimal, decimal_text};
use vstd::prelude::*;
use vstd::string::StringExecFns;

verus! {

/// The exit codes of the prober.
pub struct ErrorCodes;

impl ErrorCodes {
    pub const TEST_ERROR: i32 = 3000;

    pub const INVALID_VARIABLE: i32 = 3001;

    pub const INVALID_INPUT: i32 = 3002;

    pub const IMPOSSIBLE_CIDR: i32 = 3003;

    pub const VALID_PORT_PARSE_FAILURE: i32 = 3004;

    pub const SOCKET_ADDRESS_FAILED_TO_SET: i32 = 9996;

    pub const INVALID_VERBOSITY_LEVEL: i32 = 9997;

    pub const NO_VARIABLE_FOR_ERROR: i32 = 9998;

    pub const NO_ERROR_CODE_GIVEN: i32 = 9999;
}

/// The inputs that can be found invalid, by the name under which they are
/// reported.
#[derive(Clone, Copy, Debug, PartialEq, Eq, Structural)]
pub enum InputField {
    NetworkId,
    NetworkCidr,
    PortInput,
    PortRangeStart,
    PortRangeEnd,
}

impl InputField {
    pub open spec fn spec_label(self) -> Seq<char> {
        match self {
            InputField::NetworkId => "network id"@,
            InputField::NetworkCidr => "network cir"@,
            InputField::PortInput => "port input"@,
            InputField::PortRangeStart => "port_range_start"@,
            InputField::PortRangeEnd => "port_range_end"@,
        }
    }

    /// The name of the field in messages.
    pub fn label(self) -> (r: &'static str)
        ensures
            r@ == self.spec_label(),
    {
        match self {
            InputField::NetworkId => "network id",
            InputField::NetworkCidr => "network cir",
            InputField::PortInput => "port input",
            InputField::PortRangeStart => "port_range_start",
            InputField::PortRangeEnd => "port_range_end",
        }
    }
}

/// What can go wrong before any probe is sent.
#[derive(Clone, Copy, Debug, PartialEq, Eq, Structural)]
pub enum ScanError {
    /// An input does not have the shape it must have.
    InvalidVariable(InputField),
    /// An input could not be read at all.
    InvalidInput,
    /// Base address and prefix length do not form a CIDR block.
    InvalidNetworkConfiguration,
    /// A port that had passed validation is no 16-bit number.
    PortParseFailure,
    /// Address and port could not be combined into an endpoint.
    EndpointConstructionFailed,
    /// A message was given a verbosity level that does not exist.
    InvalidVerbosityLevel,
}

impl ScanError {
    pub open spec fn spec_code(self) -> i32 {
        match self {
            ScanError::InvalidVariable(_) => ErrorCodes::INVALID_VARIABLE,
            ScanError::InvalidInput => ErrorCodes::INVALID_INPUT,
            ScanError::InvalidNetworkConfiguration => ErrorCodes::IMPOSSIBLE_CIDR,
            ScanError::PortParseFailure => ErrorCodes::VALID_PORT_PARSE_FAILURE,
            ScanError::EndpointConstructionFailed => ErrorCodes::SOCKET_ADDRESS_FAILED_TO_SET,
            ScanError::InvalidVerbosityLevel => ErrorCodes::INVALID_VERBOSITY_LEVEL,
        }
    }

    pub open spec fn spec_field(self) -> Option<InputField> {
        match self {
            ScanError::InvalidVariable(field) => Some(field),
            _ => None,
        }
    }

    /// The exit code of this failure.
    pub fn code(self) -> (r: i32)
        ensures
            r == self.spec_code(),
    {
        match self {
            ScanError::InvalidVariable(_) => ErrorCodes::INVALID_VARIABLE,
            ScanError::InvalidInput => ErrorCodes::INVALID_INPUT,
            ScanError::InvalidNetworkConfiguration => ErrorCodes::IMPOSSIBLE_CIDR,
            ScanError::PortParseFailure => ErrorCodes::VALID_PORT_PARSE_FAILURE,
            ScanError::EndpointConstructionFailed => ErrorCodes::SOCKET_ADDRESS_FAILED_TO_SET,
            ScanError::InvalidVerbosityLevel => ErrorCodes::INVALID_VERBOSITY_LEVEL,
        }
    }

    /// The input that the failure is about, if it is about one.
    pub fn field(self) -> (r: Option<InputField>)
        ensures
            r == self.spec_field(),
    {
        match self {
            ScanError::InvalidVariable(field) => Some(field),
            _ => None,
        }
    }

    /// The report for this failure, raised at `line_num`.
    pub fn report(self, line_num: u32) -> (r: ErrorReport)
        ensures
            r.exit_code == self.spec_code(),
            r.message@ == error_text(self.spec_code(), line_num, self.spec_field()),
    {
        error_report(self.code(), self.field(), line_num)
    }
}

/// A failure as the user sees it: the line to print and the code to exit with.
pub struct ErrorReport {
    pub exit_code: i32,
    pub message: String,
}

/// Whether `code` is one of the codes that has a message of its own.
pub open spec fn is_known_code(code: i32) -> bool {
    ||| code == ErrorCodes::TEST_ERROR
    ||| code == ErrorCodes::INVALID_VARIABLE
    ||| code == ErrorCodes::INVALID_INPUT
    ||| code == ErrorCodes::IMPOSSIBLE_CIDR
    ||| code == ErrorCodes::VALID_PORT_PARSE_FAILURE
    ||| code == ErrorCodes::SOCKET_ADDRESS_FAILED_TO_SET
    ||| code == ErrorCodes::INVALID_VERBOSITY_LEVEL
    ||| code == ErrorCodes::NO_VARIABLE_FOR_ERROR
    ||| code == ErrorCodes::NO_ERROR_CODE_GIVEN
}

/// The code that is reported for `error_code`: an unknown code becomes
/// `NO_ERROR_CODE_GIVEN`, and `INVALID_VARIABLE` without the name of a variable
/// becomes `NO_VARIABLE_FOR_ERROR`.
pub open spec fn resolved_code(error_code: i32, named: bool) -> i32 {
    if !is_known_code(error_code) {
        ErrorCodes::NO_ERROR_CODE_GIVEN
    } else if error_code == ErrorCodes::INVALID_VARIABLE && !named {
        ErrorCodes::NO_VARIABLE_FOR_ERROR
    } else {
        error_code
    }
}

/// How the name of a variable is written in a message.
pub open spec fn quoted_field(field: Option<InputField>) -> Seq<char> {
    match field {
        Some(f) => "Some(\""@ + f.spec_label() + "\")"@,
        None => "None"@,
    }
}

/// The message for the known code `code`: the code, ` : `, and a sentence that
/// for some codes ends with the line number.
pub open spec fn error_text(code: i32, line_num: u32, field: Option<InputField>) -> Seq<char> {
    let head = decimal_text(code as nat);
    let line = decimal_text(line_num as nat);
    if code == ErrorCodes::TEST_ERROR {
        head + " : Test error. Hello and goodbye"@
    } else if code == ErrorCodes::INVALID_VARIABLE {
        head + " : An invalid value was found for "@ + quoted_field(field) + " on line "@ + line
    } else if code == ErrorCodes::INVALID_INPUT {
        head + " : A non-valid input has been entered. Line: "@ + line
    } else if code == ErrorCodes::IMPOSSIBLE_CIDR {
        head + " : An impossible cidr combination was entered."@
    } else if code == ErrorCodes::VALID_PORT_PARSE_FAILURE {
        head + " : A port that was deemed valid has failed to parse. Consult a developer."@
    } else if code == ErrorCodes::SOCKET_ADDRESS_FAILED_TO_SET {
        head + " : Failed to assign socket."@
    } else if code == ErrorCodes::INVALID_VERBOSITY_LEVEL {
        head
            + " : An invalid verbosity level was passed to the print_to_terminal function. Please contact a developer. Line: "@
            + line
    } else if code == ErrorCodes::NO_VARIABLE_FOR_ERROR {
        head
            + " : An error was caught that requires a value for \"error_var_name\", but none was given. Please contact a developer. Line "@
            + line
    } else {
        head
            + " : An error was caught, but an invalid error code was given. Please consult a developer. Line: "@
            + line
    }
}

/// Resolves `error_code` as `resolved_code` says.
pub fn resolve_code(error_code: i32, named: bool) -> (code: i32)
    ensures
        code == resolved_code(error_code, named),
        is_known_code(code),
        code == ErrorCodes::INVALID_VARIABLE ==> named,
{
    let known = error_code == ErrorCodes::TEST_ERROR || error_code == ErrorCodes::INVALID_VARIABLE
        || error_code == ErrorCodes::INVALID_INPUT || error_code == ErrorCodes::IMPOSSIBLE_CIDR
        || error_code == ErrorCodes::VALID_PORT_PARSE_FAILURE || error_code
        == ErrorCodes::SOCKET_ADDRESS_FAILED_TO_SET || error_code
        == ErrorCodes::INVALID_VERBOSITY_LEVEL || error_code == ErrorCodes::NO_VARIABLE_FOR_ERROR
        || error_code == ErrorCodes::NO_ERROR_CODE_GIVEN;
    if !known {
        ErrorCodes::NO_ERROR_CODE_GIVEN
    } else if error_code == ErrorCodes::INVALID_VARIABLE && !named {
        ErrorCodes::NO_VARIABLE_FOR_ERROR
    } else {
        error_code
    }
}

/// The report for `error_code`, raised at `line_num` about `error_var_name`:
/// the code is resolved first, and the message is that of the resolved code.
pub fn error_report(error_code: i32, error_var_name: Option<InputField>, line_num: u32) -> (r:
    ErrorReport)
    ensures
        r.exit_code == resolved_code(error_code, error_var_name is Some),
        r.message@ == error_text(r.exit_code, line_num, error_var_name),
{
    let code = resolve_code(error_code, error_var_name.is_some());
    let mut message = String::new();
    append_decimal(&mut message, code as u64);
    if code == ErrorCodes::TEST_ERROR {
        message.append(" : Test error. Hello and goodbye");
    } else if code == ErrorCodes::INVALID_VARIABLE {
        message.append(" : An invalid value was found for ");
        match error_var_name {
            Some(field) => {
                message.append("Some(\"");
                message.append(field.label());
                message.append("\")");
            },
            None => {
                message.append("None");
            },
        }
        message.append(" on line ");
        append_decimal(&mut message, line_num as u64);
    } else if code == ErrorCodes::INVALID_INPUT {
        message.append(" : A non-valid input has been entered. Line: ");
        append_decimal(&mut message, line_num as u64);
    } else if code == ErrorCodes::IMPOSSIBLE_CIDR {
        message.append(" : An impossible cidr combination was entered.");
    } else if code == ErrorCodes::VALID_PORT_PARSE_FAILURE {
        message.append(
            " : A port that was deemed valid has failed to parse. Consult a developer.",
        );
    } else if code == ErrorCodes::SOCKET_ADDRESS_FAILED_TO_SET {
        message.append(" : Failed to assign socket.");
    } else if code == ErrorCodes::INVALID_VERBOSITY_LEVEL {
        message.append(
            " : An invalid verbosity level was passed to the print_to_terminal function. Please contact a developer. Line: ",
        );
        append_decimal(&mut message, line_num as u64);
    } else if code == ErrorCodes::NO_VARIABLE_FOR_ERROR {
        message.append(
            " : An error was caught that requires a value for \"error_var_name\", but none was given. Please contact a developer. Line ",
        );
        append_decimal(&mut message, line_num as u64);
    } else {
        message.append(
            " : An error was caught, but an invalid error code was given. Please consult a developer. Line: ",
        );
        append_decimal(&mut message, line_num as u64);
    }
    assert(message@ =~= error_text(code, line_num, error_var_name));
    ErrorReport { exit_code: code, message }
}

} // verus!
