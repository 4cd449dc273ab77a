use vstd::prelude::*;
use vstd::string::*;

verus! {

/// What can end a run of the agent.
#[derive(Debug)]
pub enum Error {
    /// The target specification does not name exactly one of a process and
    /// an executable: it names neither, or both.
    InvalidTarget(String),
    /// No live process answers to the requested identifier.
    ProcessNotFound(String),
    /// The executable image could not be opened, mapped or parsed.
    BinaryAnalysis(String),
    /// Reserved for the attachment layer of an instrumentor.
    Ebpf(String),
    /// The telemetry sink could not be built or refused an export.
    OpenTelemetry(String),
    /// A low-level input/output failure, by its text.
    Io(String),
    /// Cooperative shutdown was observed; this is the expected end of a run.
    Interrupted,
}

/// The mathematical value of an [`Error`]: its kind and the characters of its detail.
pub enum ErrorModel {
    InvalidTarget(Seq<char>),
    ProcessNotFound(Seq<char>),
    BinaryAnalysis(Seq<char>),
    Ebpf(Seq<char>),
    OpenTelemetry(Seq<char>),
    Io(Seq<char>),
    Interrupted,
}

impl View for Error {
    type V = ErrorModel;

    open spec fn view(&self) -> ErrorModel {
        match self {
            Error::InvalidTarget(m) => ErrorModel::InvalidTarget(m@),
            Error::ProcessNotFound(m) => ErrorModel::ProcessNotFound(m@),
            Error::BinaryAnalysis(m) => ErrorModel::BinaryAnalysis(m@),
            Error::Ebpf(m) => ErrorModel::Ebpf(m@),
            Error::OpenTelemetry(m) => ErrorModel::OpenTelemetry(m@),
            Error::Io(m) => ErrorModel::Io(m@),
            Error::Interrupted => ErrorModel::Interrupted,
        }
    }
}

/// The line that describes an error to the operator.
pub open spec fn error_text(error: ErrorModel) -> Seq<char> {
    match error {
        ErrorModel::InvalidTarget(detail) => "Invalid target arguments: "@ + detail,
        ErrorModel::ProcessNotFound(detail) => "Process not found: "@ + detail,
        ErrorModel::BinaryAnalysis(detail) => "Failed to analyze binary: "@ + detail,
        ErrorModel::Ebpf(detail) => "eBPF error: "@ + detail,
        ErrorModel::OpenTelemetry(detail) => "OpenTelemetry error: "@ + detail,
        ErrorModel::Io(detail) => "IO error: "@ + detail,
        ErrorModel::Interrupted => "Agent interrupted"@,
    }
}

impl Error {
    /// The line that describes this error to the operator.
    pub fn message(&self) -> (line: String)
        ensures
            line@ == error_text(self@),
    {
        match self {
            Error::InvalidTarget(detail) => String::from_str("Invalid target arguments: ").concat(
                detail.as_str(),
            ),
            Error::ProcessNotFound(detail) => String::from_str("Process not found: ").concat(
                detail.as_str(),
            ),
            Error::BinaryAnalysis(detail) => String::from_str("Failed to analyze binary: ").concat(
                detail.as_str(),
            ),
            Error::Ebpf(detail) => String::from_str("eBPF error: ").concat(detail.as_str()),
            Error::OpenTelemetry(detail) => String::from_str("OpenTelemetry error: ").concat(
                detail.as_str(),
            ),
            Error::Io(detail) => String::from_str("IO error: ").concat(detail.as_str()),
            Error::Interrupted => String::from_str("Agent interrupted"),
        }
    }

    /// Whether this is the expected end of a run by cooperative shutdown,
    /// which is no failure and is not reported as one.
    pub fn is_interrupted(&self) -> (interrupted: bool)
        ensures
            interrupted == (self@ is Interrupted),
    {
        match self {
            Error::Interrupted => true,
            _ => false,
        }
    }
}

} // verus!
