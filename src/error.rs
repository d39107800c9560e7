//! The ways in which reading a fact about the host can fail.
use vstd::prelude::*;

verus! {

/// A failed read of one fact about the host.
#[derive(Debug, Clone, PartialEq, Eq, Hash)]
pub enum InfoError {
    /// A required source path does not exist.
    MissingFile { path: String },
    /// A source exists but could not be read.
    FileRead { path: String },
    /// A source was read but a required field did not parse.
    FileParseError { path: String, reason: String },
    /// A named kernel parameter or management query failed.
    Sysctl { name: String },
    /// Anything else, with a message.
    General(String),
}

/// `InfoError` with its texts as character sequences.
pub enum ErrorView {
    MissingFile { path: Seq<char> },
    FileRead { path: Seq<char> },
    FileParseError { path: Seq<char>, reason: Seq<char> },
    Sysctl { name: Seq<char> },
    General(Seq<char>),
}

impl View for InfoError {
    type V = ErrorView;

    open spec fn view(&self) -> ErrorView {
        match self {
            InfoError::MissingFile { path } => ErrorView::MissingFile { path: path@ },
            InfoError::FileRead { path } => ErrorView::FileRead { path: path@ },
            InfoError::FileParseError { path, reason } => ErrorView::FileParseError {
                path: path@,
                reason: reason@,
            },
            InfoError::Sysctl { name } => ErrorView::Sysctl { name: name@ },
            InfoError::General(m) => ErrorView::General(m@),
        }
    }
}

/// A result with its error replaced by the error's view.
pub open spec fn err_view<T>(r: Result<T, InfoError>) -> Result<T, ErrorView> {
    match r {
        Ok(v) => Ok(v),
        Err(e) => Err(e@),
    }
}

/// A result whose value is a string, with everything in it as views.
pub open spec fn text_view(r: Result<String, InfoError>) -> Result<Seq<char>, ErrorView> {
    match r {
        Ok(s) => Ok(s@),
        Err(e) => Err(e@),
    }
}

pub open spec fn exit_code_of(e: ErrorView) -> i32 {
    match e {
        ErrorView::FileParseError { .. } => 65,
        ErrorView::Sysctl { .. } => 71,
        ErrorView::MissingFile { .. } => 72,
        ErrorView::FileRead { .. } => 74,
        ErrorView::General(_) => 64,
    }
}

pub open spec fn message_of(e: ErrorView) -> Seq<char> {
    match e {
        ErrorView::MissingFile { path } => "MissingFileError: '"@ + path
            + "' isn't an existing file"@,
        ErrorView::FileRead { path } => "ReadError: couldn't read file '"@ + path + "'"@,
        ErrorView::FileParseError { path, reason } => "FileParseError: couldn't parse from file '"@
            + path + "': "@ + reason,
        ErrorView::Sysctl { name } => "SysctlError: couldn't get '"@ + name + "'"@,
        ErrorView::General(m) => "Error: Unexpected Error: "@ + m,
    }
}

impl InfoError {
    /// The process exit code that reports this error.
    pub fn exit_code(&self) -> (r: i32)
        ensures
            r == exit_code_of(self@),
    {
        match self {
            InfoError::FileParseError { .. } => 65,
            InfoError::Sysctl { .. } => 71,
            InfoError::MissingFile { .. } => 72,
            InfoError::FileRead { .. } => 74,
            InfoError::General(_) => 64,
        }
    }

    /// The one-line message that reports this error.
    pub fn message(&self) -> (r: String)
        ensures
            r@ == message_of(self@),
    {
        match self {
            InfoError::MissingFile { path } => {
                let mut s = String::from_str("MissingFileError: '");
                s.append(path.as_str());
                s.append("' isn't an existing file");
                s
            },
            InfoError::FileRead { path } => {
                let mut s = String::from_str("ReadError: couldn't read file '");
                s.append(path.as_str());
                s.append("'");
                s
            },
            InfoError::FileParseError { path, reason } => {
                let mut s = String::from_str("FileParseError: couldn't parse from file '");
                s.append(path.as_str());
                s.append("': ");
                s.append(reason.as_str());
                s
            },
            InfoError::Sysctl { name } => {
                let mut s = String::from_str("SysctlError: couldn't get '");
                s.append(name.as_str());
                s.append("'");
                s
            },
            InfoError::General(m) => {
                let mut s = String::from_str("Error: Unexpected Error: ");
                s.append(m.as_str());
                s
            },
        }
    }
}

} // verus!
