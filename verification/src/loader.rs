//! Resolving languages strictly: a command whose executable cannot be
//! found is refused when the settings are loaded, not when it is first run.

use vstd::prelude::*;
use vstd::string::StringExecFns;

use crate::config::{Language, LanguageView};
use crate::contest;
use crate::sandbox::command::{find_executable, place, texts, words_from, Command, CommandView};

verus! {

/// Why a language could not be loaded.
#[derive(Clone, Debug, PartialEq, Eq)]
pub enum LoadError {
    /// A command has no words.
    EmptyCommand,
    /// The executable of the compile command was not found.
    BuildCommandNotFound { executable: String, language: String },
    /// The executable of the run command was not found.
    RunCommandNotFound { executable: String, language: String },
}

/// A [`LoadError`] as plain values.
pub enum LoadErrorView {
    EmptyCommand,
    BuildCommandNotFound { executable: Seq<char>, language: Seq<char> },
    RunCommandNotFound { executable: Seq<char>, language: Seq<char> },
}

impl View for LoadError {
    type V = LoadErrorView;

    open spec fn view(&self) -> LoadErrorView {
        match self {
            LoadError::EmptyCommand => LoadErrorView::EmptyCommand,
            LoadError::BuildCommandNotFound { executable, language } => {
                LoadErrorView::BuildCommandNotFound { executable: executable@, language: language@ }
            },
            LoadError::RunCommandNotFound { executable, language } => {
                LoadErrorView::RunCommandNotFound { executable: executable@, language: language@ }
            },
        }
    }
}

impl LoadError {
    /// The error in words.
    pub fn message(&self) -> (text: String)
        ensures
            text@ == match self@ {
                LoadErrorView::EmptyCommand => "empty command"@,
                LoadErrorView::BuildCommandNotFound { executable, language } => {
                    "failed to find build command "@ + executable + " for language "@ + language
                },
                LoadErrorView::RunCommandNotFound { executable, language } => {
                    "failed to find run command "@ + executable + " for language "@ + language
                },
            },
    {
        match self {
            LoadError::EmptyCommand => "empty command".to_owned(),
            LoadError::BuildCommandNotFound { executable, language } => {
                let mut text = "failed to find build command ".to_owned();
                text.append(executable.as_str());
                text.append(" for language ");
                text.append(language.as_str());
                text
            },
            LoadError::RunCommandNotFound { executable, language } => {
                let mut text = "failed to find run command ".to_owned();
                text.append(executable.as_str());
                text.append(" for language ");
                text.append(language.as_str());
                text
            },
        }
    }
}

/// What a language as written is loaded as, given where its executables
/// were found.
///
/// The compile command comes first: it must have words, and its executable
/// must have been found. The run command must have words. Its executable
/// must have been found only if nothing is compiled: what a compiler
/// produces is not there yet, and is run as written.
pub open spec fn located(
    written: contest::Language,
    build_found: Option<Seq<char>>,
    run_found: Option<Seq<char>>,
) -> Result<LanguageView, LoadErrorView> {
    if written.compile is Some && written.compile->0@.len() == 0 {
        Err(LoadErrorView::EmptyCommand)
    } else if written.compile is Some && build_found is None {
        Err(
            LoadErrorView::BuildCommandNotFound {
                executable: written.compile->0@[0]@,
                language: written.name@,
            },
        )
    } else if written.run@.len() == 0 {
        Err(LoadErrorView::EmptyCommand)
    } else if written.compile is None && run_found is None {
        Err(
            LoadErrorView::RunCommandNotFound {
                executable: written.run@[0]@,
                language: written.name@,
            },
        )
    } else {
        Ok(
            LanguageView {
                filename: written.filename@,
                compile: match written.compile {
                    Some(words) => Some(
                        CommandView {
                            executable: build_found->Some_0,
                            args: texts(words@).skip(1),
                        },
                    ),
                    None => None,
                },
                run: CommandView {
                    executable: if written.compile is None {
                        run_found->Some_0
                    } else {
                        written.run@[0]@
                    },
                    args: texts(written.run@).skip(1),
                },
            },
        )
    }
}

/// The result of loading a language as plain values.
pub open spec fn loaded_view(result: Result<Language, LoadError>) -> Result<
    LanguageView,
    LoadErrorView,
> {
    match result {
        Ok(language) => Ok(language@),
        Err(error) => Err(error@),
    }
}

/// Loads a language as written, given where the executables of its commands
/// were found, if they were.
pub fn load_language(
    written: &contest::Language,
    build_found: Option<String>,
    run_found: Option<String>,
) -> (result: Result<Language, LoadError>)
    ensures
        loaded_view(result) == located(*written, place(build_found), place(run_found)),
{
    let compile = match &written.compile {
        Some(words) => {
            if words.len() == 0 {
                return Err(LoadError::EmptyCommand);
            }
            match build_found {
                Some(executable) => Some(Command::new(executable, words_from(words.as_slice(), 1))),
                None => {
                    return Err(
                        LoadError::BuildCommandNotFound {
                            executable: words[0].clone(),
                            language: written.name.clone(),
                        },
                    );
                },
            }
        },
        None => None,
    };
    if written.run.len() == 0 {
        return Err(LoadError::EmptyCommand);
    }
    let executable = if compile.is_none() {
        match run_found {
            Some(executable) => executable,
            None => {
                return Err(
                    LoadError::RunCommandNotFound {
                        executable: written.run[0].clone(),
                        language: written.name.clone(),
                    },
                );
            },
        }
    } else {
        written.run[0].clone()
    };
    let run = Command::new(executable, words_from(written.run.as_slice(), 1));
    Ok(Language { filename: written.filename.clone(), compile, run })
}

/// Loads a language as written, looking its executables up on the search
/// path.
pub fn find_language(written: &contest::Language) -> (result: Result<Language, LoadError>)
    ensures
        exists|build_found: Option<Seq<char>>, run_found: Option<Seq<char>>|
            loaded_view(result) == located(*written, build_found, run_found),
        (written.compile matches Some(words) && words@.len() == 0) ==> result matches Err(
            LoadError::EmptyCommand,
        ),
{
    let build_found = match &written.compile {
        Some(words) => if words.len() > 0 {
            find_executable(words[0].as_str())
        } else {
            None
        },
        None => None,
    };
    let run_found = if written.compile.is_none() && written.run.len() > 0 {
        find_executable(written.run[0].as_str())
    } else {
        None
    };
    let ghost build_place = place(build_found);
    let ghost run_place = place(run_found);
    let result = load_language(written, build_found, run_found);
    assert(loaded_view(result) == located(*written, build_place, run_place));
    result
}

} // verus!
