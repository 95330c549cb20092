use vstd::prelude::*;
use vstd::string::StringExecFns;

use crate::contest::{Contest, Language, Task};
use crate::text::{decimal, decimal_of};

verus! {

/// Why a submission was not taken.
#[derive(Clone, Debug, PartialEq, Eq)]
pub enum SubmitError {
    ContestNotFound(String),
    TaskNotFound(String, usize),
    UnsupportedLanguage(String),
    Io(String),
}

/// The answer to a request that names something unknown.
pub const NOT_FOUND: u16 = 404;

/// The answer to a request that is wrong in itself.
pub const BAD_REQUEST: u16 = 400;

/// The answer to a request that the judge failed to take.
pub const INTERNAL_SERVER_ERROR: u16 = 500;

impl SubmitError {
    /// The status that answers the request.
    pub open spec fn spec_status(self) -> u16 {
        match self {
            SubmitError::ContestNotFound(_) => NOT_FOUND,
            SubmitError::TaskNotFound(_, _) => NOT_FOUND,
            SubmitError::UnsupportedLanguage(_) => BAD_REQUEST,
            SubmitError::Io(_) => INTERNAL_SERVER_ERROR,
        }
    }

    /// The error in words.
    pub open spec fn spec_message(self) -> Seq<char> {
        match self {
            SubmitError::ContestNotFound(contest) => "contest "@ + contest@ + " not found"@,
            SubmitError::TaskNotFound(contest, task) => "task #"@ + decimal_of(task as nat)
                + " for contest "@ + contest@ + " not found"@,
            SubmitError::UnsupportedLanguage(language) => "unsupported language: "@ + language@,
            SubmitError::Io(cause) => "IO error: "@ + cause@,
        }
    }

    /// The status that answers the request: an unknown contest or task is
    /// not found, an unknown language is a bad request, and a failure to
    /// set the submission up is the judge's own.
    pub fn status(&self) -> (status: u16)
        ensures
            status == self.spec_status(),
    {
        match self {
            SubmitError::ContestNotFound(_) => NOT_FOUND,
            SubmitError::TaskNotFound(_, _) => NOT_FOUND,
            SubmitError::UnsupportedLanguage(_) => BAD_REQUEST,
            SubmitError::Io(_) => INTERNAL_SERVER_ERROR,
        }
    }

    /// The error in words.
    pub fn message(&self) -> (text: String)
        ensures
            text@ == self.spec_message(),
    {
        match self {
            SubmitError::ContestNotFound(contest) => {
                let mut text = "contest ".to_owned();
                text.append(contest.as_str());
                text.append(" not found");
                text
            },
            SubmitError::TaskNotFound(contest, task) => {
                let mut text = "task #".to_owned();
                let number = decimal(*task);
                text.append(number.as_str());
                text.append(" for contest ");
                text.append(contest.as_str());
                text.append(" not found");
                text
            },
            SubmitError::UnsupportedLanguage(language) => {
                let mut text = "unsupported language: ".to_owned();
                text.append(language.as_str());
                text
            },
            SubmitError::Io(cause) => {
                let mut text = "IO error: ".to_owned();
                text.append(cause.as_str());
                text
            },
        }
    }
}

/// What a request asks to be judged.
pub struct Request<'a> {
    pub task: &'a Task,
    pub language: &'a Language,
}

/// Resolves a request against the contest that was found under its name, if
/// one was. Tasks are numbered from 1. An unknown contest is reported
/// before an unknown task, and that before an unknown language.
pub fn resolve<'a>(
    contest: Option<&'a Contest>,
    contest_name: &str,
    task_number: usize,
    language_name: &str,
) -> (result: Result<Request<'a>, SubmitError>)
    ensures
        match result {
            Ok(request) => {
                &&& contest matches Some(found)
                &&& 1 <= task_number <= found.tasks@.len()
                &&& *request.task == found.tasks@[task_number - 1]
                &&& exists|at: int|
                    found.config.first_named(language_name@, at) && *request.language
                        == found.config.languages@[at]
            },
            Err(SubmitError::ContestNotFound(name)) => contest is None && name@ == contest_name@,
            Err(SubmitError::TaskNotFound(name, number)) => {
                &&& contest matches Some(found)
                &&& !(1 <= task_number <= found.tasks@.len())
                &&& name@ == contest_name@
                &&& number == task_number
            },
            Err(SubmitError::UnsupportedLanguage(name)) => {
                &&& contest matches Some(found)
                &&& 1 <= task_number <= found.tasks@.len()
                &&& !found.config.supports(language_name@)
                &&& name@ == language_name@
            },
            Err(SubmitError::Io(_)) => false,
        },
{
    let found = match contest {
        Some(found) => found,
        None => {
            return Err(SubmitError::ContestNotFound(contest_name.to_owned()));
        },
    };
    let task = match found.task(task_number) {
        Some(task) => task,
        None => {
            return Err(SubmitError::TaskNotFound(contest_name.to_owned(), task_number));
        },
    };
    let language = match found.config.language(language_name) {
        Some(language) => language,
        None => {
            return Err(SubmitError::UnsupportedLanguage(language_name.to_owned()));
        },
    };
    Ok(Request { task, language })
}

} // verus!
