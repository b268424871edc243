//! Error codes and the error value that the stream framework hands back.
use vstd::prelude::*;

verus! {

/// What went wrong.
#[derive(Debug, Clone, Copy, PartialEq, Eq, Structural)]
pub enum K2ErrorCode {
    NotAllowed,
    NotFound,
    ErrorRange,
    AlreadyExists,
    InvalidValue,
    BadFormat,
    Uninitialized,
    LockError,
    ProcessError,
    OutOfRange,
    InvalidOperation,
    GenericError,
}

/// The name under which a code is shown.
pub open spec fn code_name(c: K2ErrorCode) -> Seq<char> {
    match c {
        K2ErrorCode::NotAllowed => "NotAllowed"@,
        K2ErrorCode::NotFound => "NotFound"@,
        K2ErrorCode::ErrorRange => "ErrorRange"@,
        K2ErrorCode::AlreadyExists => "AlreadyExists"@,
        K2ErrorCode::InvalidValue => "InvalidValue"@,
        K2ErrorCode::BadFormat => "BadFormat"@,
        K2ErrorCode::Uninitialized => "Uninitialized"@,
        K2ErrorCode::LockError => "LockError"@,
        K2ErrorCode::ProcessError => "ProcessError"@,
        K2ErrorCode::OutOfRange => "OutOfRange"@,
        K2ErrorCode::InvalidOperation => "InvalidOperation"@,
        K2ErrorCode::GenericError => "GenericError"@,
    }
}

impl K2ErrorCode {
    /// The name under which the code is shown.
    pub fn to_string(&self) -> (r: String)
        ensures
            r@ == code_name(*self),
    {
        let s = match self {
            K2ErrorCode::NotAllowed => "NotAllowed",
            K2ErrorCode::NotFound => "NotFound",
            K2ErrorCode::ErrorRange => "ErrorRange",
            K2ErrorCode::AlreadyExists => "AlreadyExists",
            K2ErrorCode::InvalidValue => "InvalidValue",
            K2ErrorCode::BadFormat => "BadFormat",
            K2ErrorCode::Uninitialized => "Uninitialized",
            K2ErrorCode::LockError => "LockError",
            K2ErrorCode::ProcessError => "ProcessError",
            K2ErrorCode::OutOfRange => "OutOfRange",
            K2ErrorCode::InvalidOperation => "InvalidOperation",
            K2ErrorCode::GenericError => "GenericError",
        };
        s.to_owned()
    }
}

/// An error: its code and a message for people.
#[derive(Debug, Clone)]
pub struct K2Error {
    pub code: K2ErrorCode,
    pub message: String,
}

/// An error with the given code and a message of the given text.
pub open spec fn error_with(code: K2ErrorCode, message: Seq<char>) -> K2Error {
    choose|e: K2Error| e.code == code && e.message@ == message
}

impl K2Error {
    /// An error with the given code and message.
    pub fn new(code: K2ErrorCode, message: &str) -> (r: Self)
        ensures
            r.code == code,
            r.message@ == message@,
    {
        K2Error { code, message: message.to_owned() }
    }
}

/// What went wrong in a processor, in the older form of the framework.
#[derive(Debug, Clone, Copy, PartialEq, Eq, Structural)]
pub enum ProcessorError {
    NoError,
    RangeValueError,
    VariableAlreadyExists,
    VariableNotFound,
    MemoryAlreadyExists,
    MemoryNotFound,
    ReceivingError,
    SendingError,
    LockError,
}

/// The text that describes a processor error.
pub open spec fn processor_error_text(err: ProcessorError) -> Seq<char> {
    match err {
        ProcessorError::NoError => "No error"@,
        ProcessorError::RangeValueError => "Value out of range"@,
        ProcessorError::VariableAlreadyExists => "Variable already exists"@,
        ProcessorError::VariableNotFound => "Variable not found"@,
        ProcessorError::MemoryAlreadyExists => "Memory already exists"@,
        ProcessorError::MemoryNotFound => "Memory not found"@,
        ProcessorError::ReceivingError => "Error receiving data"@,
        ProcessorError::SendingError => "Error sending data"@,
        ProcessorError::LockError => "Error locking resource"@,
    }
}

/// The text that describes a processor error.
pub fn processor_error_to_str(err: &ProcessorError) -> (r: &'static str)
    ensures
        r@ == processor_error_text(*err),
{
    match err {
        ProcessorError::NoError => "No error",
        ProcessorError::RangeValueError => "Value out of range",
        ProcessorError::VariableAlreadyExists => "Variable already exists",
        ProcessorError::VariableNotFound => "Variable not found",
        ProcessorError::MemoryAlreadyExists => "Memory already exists",
        ProcessorError::MemoryNotFound => "Memory not found",
        ProcessorError::ReceivingError => "Error receiving data",
        ProcessorError::SendingError => "Error sending data",
        ProcessorError::LockError => "Error locking resource",
    }
}

} // verus!
