//! The error type of the library.

use vstd::prelude::*;
use vstd::string::*;

verus! {

/// What went wrong. User errors are mistakes in input or configuration,
/// runtime errors come from the machine, internal errors are broken
/// assumptions of the program itself. The remaining kinds carry the text of a
/// failure in one of the collaborators.
#[derive(Debug, PartialEq, Eq)]
pub enum AppError {
    Io(String),
    UserError(String),
    RuntimeError(String),
    BadJson(String),
    InternalError(&'static str),
    GitError(String),
    Regex(String),
    TomlSerError(String),
    TomlDeError(String),
    WalkdirError(String),
    ReqwestError(String),
}

/// An error as its kind and text.
pub enum ErrorView {
    Io(Seq<char>),
    UserError(Seq<char>),
    RuntimeError(Seq<char>),
    BadJson(Seq<char>),
    InternalError(Seq<char>),
    GitError(Seq<char>),
    Regex(Seq<char>),
    TomlSerError(Seq<char>),
    TomlDeError(Seq<char>),
    WalkdirError(Seq<char>),
    ReqwestError(Seq<char>),
}

impl ErrorView {
    /// The text that the error carries.
    pub open spec fn detail(self) -> Seq<char> {
        match self {
            ErrorView::Io(t) => t,
            ErrorView::UserError(t) => t,
            ErrorView::RuntimeError(t) => t,
            ErrorView::BadJson(t) => t,
            ErrorView::InternalError(t) => t,
            ErrorView::GitError(t) => t,
            ErrorView::Regex(t) => t,
            ErrorView::TomlSerError(t) => t,
            ErrorView::TomlDeError(t) => t,
            ErrorView::WalkdirError(t) => t,
            ErrorView::ReqwestError(t) => t,
        }
    }

    /// The words that introduce an error of this kind.
    pub open spec fn label(self) -> Seq<char> {
        match self {
            ErrorView::Io(_) => "Io error: "@,
            ErrorView::UserError(_) => "User error: "@,
            ErrorView::RuntimeError(_) => "Runtime error: "@,
            ErrorView::BadJson(_) => "JSON error: "@,
            ErrorView::InternalError(_) => "Internal error: "@,
            ErrorView::GitError(_) => "Git error: "@,
            ErrorView::Regex(_) => "Regex error: "@,
            ErrorView::TomlSerError(_) => "toml serialization error: "@,
            ErrorView::TomlDeError(_) => "toml read error: "@,
            ErrorView::WalkdirError(_) => "walkdir error: "@,
            ErrorView::ReqwestError(_) => "reqwest error: "@,
        }
    }

    /// The full line shown to the user.
    pub open spec fn message(self) -> Seq<char> {
        self.label() + self.detail()
    }

    /// Whether the error wraps a failure of a collaborator.
    pub open spec fn wraps(self) -> bool {
        !(self is UserError || self is RuntimeError || self is InternalError)
    }
}

impl View for AppError {
    type V = ErrorView;

    open spec fn view(&self) -> ErrorView {
        match self {
            AppError::Io(t) => ErrorView::Io(t@),
            AppError::UserError(t) => ErrorView::UserError(t@),
            AppError::RuntimeError(t) => ErrorView::RuntimeError(t@),
            AppError::BadJson(t) => ErrorView::BadJson(t@),
            AppError::InternalError(t) => ErrorView::InternalError(t@),
            AppError::GitError(t) => ErrorView::GitError(t@),
            AppError::Regex(t) => ErrorView::Regex(t@),
            AppError::TomlSerError(t) => ErrorView::TomlSerError(t@),
            AppError::TomlDeError(t) => ErrorView::TomlDeError(t@),
            AppError::WalkdirError(t) => ErrorView::WalkdirError(t@),
            AppError::ReqwestError(t) => ErrorView::ReqwestError(t@),
        }
    }
}

impl Clone for AppError {
    fn clone(&self) -> (copy: Self)
        ensures
            copy@ == self@,
    {
        match self {
            AppError::Io(t) => AppError::Io(t.clone()),
            AppError::UserError(t) => AppError::UserError(t.clone()),
            AppError::RuntimeError(t) => AppError::RuntimeError(t.clone()),
            AppError::BadJson(t) => AppError::BadJson(t.clone()),
            AppError::InternalError(t) => AppError::InternalError(*t),
            AppError::GitError(t) => AppError::GitError(t.clone()),
            AppError::Regex(t) => AppError::Regex(t.clone()),
            AppError::TomlSerError(t) => AppError::TomlSerError(t.clone()),
            AppError::TomlDeError(t) => AppError::TomlDeError(t.clone()),
            AppError::WalkdirError(t) => AppError::WalkdirError(t.clone()),
            AppError::ReqwestError(t) => AppError::ReqwestError(t.clone()),
        }
    }
}

/// The code with which the program ends: 0 after a success, 1 after a
/// failure.
pub fn exit_code(result: &Result<(), AppError>) -> (code: i32)
    ensures
        code == (if result is Ok {
            0i32
        } else {
            1i32
        }),
{
    match result {
        Ok(_) => 0,
        Err(_) => 1,
    }
}

impl AppError {
    /// The value of `option`, or `app_error` where there is none.
    pub fn require<T>(option: Option<T>, app_error: AppError) -> (result: Result<T, AppError>)
        ensures
            option matches Some(value) ==> result == Ok::<T, AppError>(value),
            option is None ==> result == Err::<T, AppError>(app_error),
    {
        if let Some(value) = option {
            Result::Ok(value)
        } else {
            Result::Err(app_error)
        }
    }

    /// The text that the error carries, without the words for its kind.
    pub fn detail(&self) -> (text: &str)
        ensures
            text@ == self@.detail(),
    {
        match self {
            AppError::Io(t) => t.as_str(),
            AppError::UserError(t) => t.as_str(),
            AppError::RuntimeError(t) => t.as_str(),
            AppError::BadJson(t) => t.as_str(),
            AppError::InternalError(t) => t,
            AppError::GitError(t) => t.as_str(),
            AppError::Regex(t) => t.as_str(),
            AppError::TomlSerError(t) => t.as_str(),
            AppError::TomlDeError(t) => t.as_str(),
            AppError::WalkdirError(t) => t.as_str(),
            AppError::ReqwestError(t) => t.as_str(),
        }
    }

    /// The line shown to the user: the kind in words, then the text.
    pub fn message(&self) -> (line: String)
        ensures
            line@ == self@.message(),
    {
        let label: &str = match self {
            AppError::Io(_) => "Io error: ",
            AppError::UserError(_) => "User error: ",
            AppError::RuntimeError(_) => "Runtime error: ",
            AppError::BadJson(_) => "JSON error: ",
            AppError::InternalError(_) => "Internal error: ",
            AppError::GitError(_) => "Git error: ",
            AppError::Regex(_) => "Regex error: ",
            AppError::TomlSerError(_) => "toml serialization error: ",
            AppError::TomlDeError(_) => "toml read error: ",
            AppError::WalkdirError(_) => "walkdir error: ",
            AppError::ReqwestError(_) => "reqwest error: ",
        };
        let mut line = String::from_str(label);
        line.append(self.detail());
        line
    }

    /// The text of the failure that this error wraps, if it wraps one.
    pub fn cause(&self) -> (inner: Option<&str>)
        ensures
            inner is Some <==> self@.wraps(),
            inner matches Some(text) ==> text@ == self@.detail(),
    {
        match self {
            AppError::UserError(_) | AppError::RuntimeError(_) | AppError::InternalError(_) => None,
            _ => Some(self.detail()),
        }
    }
}

} // verus!
