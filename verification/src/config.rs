//! The judge's own settings, with every command resolved to the executable
//! that it will run.

use vstd::prelude::*;

use crate::contest;
use crate::sandbox::command::{
    find_executable, place, resolution, texts, Command, CommandView,
};
use crate::sandbox::resource::ResourceLimits;
use crate::text::same_text;

verus! {

/// A language with its commands resolved.
#[derive(Clone, Debug, PartialEq, Eq)]
pub struct Language {
    pub filename: String,
    pub compile: Option<Command>,
    pub run: Command,
}

/// A [`Language`] as plain values.
pub struct LanguageView {
    pub filename: Seq<char>,
    pub compile: Option<CommandView>,
    pub run: CommandView,
}

impl View for Language {
    type V = LanguageView;

    open spec fn view(&self) -> LanguageView {
        LanguageView {
            filename: self.filename@,
            compile: match self.compile {
                Some(command) => Some(command@),
                None => None,
            },
            run: self.run@,
        }
    }
}

/// Why settings could not be loaded.
#[derive(Clone, Debug, PartialEq, Eq)]
pub enum ConfigLoadError {
    /// A language has a command without words.
    EmptyCommand,
    /// The text is not a valid settings file.
    ParseError { message: String },
}

impl ConfigLoadError {
    /// The error in words.
    pub fn message(&self) -> (text: String)
        ensures
            text@ == match *self {
                ConfigLoadError::EmptyCommand => "empty command"@,
                ConfigLoadError::ParseError { message } => "failed to parse config: "@ + message@,
            },
    {
        match self {
            ConfigLoadError::EmptyCommand => "empty command".to_owned(),
            ConfigLoadError::ParseError { message } => {
                let mut text = "failed to parse config: ".to_owned();
                vstd::string::StringExecFns::append(&mut text, message.as_str());
                text
            },
        }
    }
}

/// The words of a compile command, if there is one.
pub open spec fn compile_words(language: contest::Language) -> Option<Seq<Seq<char>>> {
    match language.compile {
        Some(words) => Some(texts(words@)),
        None => None,
    }
}

/// Whether a language as written can be resolved: none of its commands is
/// without words.
pub open spec fn resolvable(language: contest::Language) -> bool {
    &&& language.run@.len() > 0
    &&& language.compile matches Some(words) ==> words@.len() > 0
}

/// The language that a language as written stands for, once its
/// executables have been looked up.
pub open spec fn resolved_language(
    language: contest::Language,
    compile_found: Option<Seq<char>>,
    run_found: Option<Seq<char>>,
) -> LanguageView {
    LanguageView {
        filename: language.filename@,
        compile: match compile_words(language) {
            Some(words) => Some(resolution(words, compile_found)->Ok_0),
            None => None,
        },
        run: resolution(texts(language.run@), run_found)->Ok_0,
    }
}

/// Whether a resolved language is what the language as written stands for,
/// wherever its executables were found.
pub open spec fn resolves(resolved: LanguageView, language: contest::Language) -> bool {
    exists|compile_found: Option<Seq<char>>, run_found: Option<Seq<char>>|
        resolved == resolved_language(language, compile_found, run_found)
}

impl Language {
    /// Resolves a language as written, given where the executables of its
    /// commands were found, if they were.
    pub fn resolved(
        language: &contest::Language,
        compile_found: Option<String>,
        run_found: Option<String>,
    ) -> (result: Result<Language, ConfigLoadError>)
        ensures
            result is Ok <==> resolvable(*language),
            result matches Ok(resolved) ==> resolved@ == resolved_language(
                *language,
                place(compile_found),
                place(run_found),
            ),
            result matches Err(error) ==> error == ConfigLoadError::EmptyCommand,
    {
        let compile = match &language.compile {
            Some(words) => match Command::resolved(words.as_slice(), compile_found) {
                Ok(command) => Some(command),
                Err(_) => {
                    return Err(ConfigLoadError::EmptyCommand);
                },
            },
            None => None,
        };
        let run = match Command::resolved(language.run.as_slice(), run_found) {
            Ok(command) => command,
            Err(_) => {
                return Err(ConfigLoadError::EmptyCommand);
            },
        };
        Ok(Language { filename: language.filename.clone(), compile, run })
    }

    /// Resolves a language as written, looking its executables up on the
    /// search path. An executable that is not found is kept as written.
    pub fn load(language: &contest::Language) -> (result: Result<Language, ConfigLoadError>)
        ensures
            result is Ok <==> resolvable(*language),
            result matches Ok(resolved) ==> resolves(resolved@, *language),
            result matches Err(error) ==> error == ConfigLoadError::EmptyCommand,
    {
        let compile_found = match &language.compile {
            Some(words) => if words.len() > 0 {
                find_executable(words[0].as_str())
            } else {
                None
            },
            None => None,
        };
        let run_found = if language.run.len() > 0 {
            find_executable(language.run[0].as_str())
        } else {
            None
        };
        let ghost compile_place = place(compile_found);
        let ghost run_place = place(run_found);
        let result = Language::resolved(language, compile_found, run_found);
        proof {
            if result is Ok {
                assert(result->Ok_0@ == resolved_language(*language, compile_place, run_place));
            }
        }
        result
    }
}

/// The languages of the judge, by name. No name occurs twice.
#[derive(Clone, Debug)]
pub struct Languages {
    entries: Vec<(String, Language)>,
}

impl Languages {
    /// Whether a language of the given name is held at the given place.
    pub closed spec fn holds_at(&self, name: Seq<char>, at: int) -> bool {
        0 <= at < self.entries@.len() && self.entries@[at].0@ == name
    }

    /// No name occurs twice.
    pub closed spec fn well_formed(&self) -> bool {
        forall|i: int, j: int|
            0 <= i < self.entries@.len() && 0 <= j < self.entries@.len() && self.entries@[i].0@
                == self.entries@[j].0@ ==> i == j
    }

    /// No languages.
    pub fn new() -> (languages: Languages)
        ensures
            languages.well_formed(),
            languages@ == Map::<Seq<char>, LanguageView>::empty(),
            languages.spec_len() == 0,
    {
        let languages = Languages { entries: Vec::new() };
        proof {
            assert(languages@ =~= Map::<Seq<char>, LanguageView>::empty());
        }
        languages
    }

    /// The number of languages.
    pub fn len(&self) -> (n: usize)
        ensures
            n == self.spec_len(),
    {
        self.entries.len()
    }

    /// The number of languages.
    pub closed spec fn spec_len(&self) -> nat {
        self.entries@.len()
    }

    fn position(&self, name: &str) -> (found: Option<usize>)
        ensures
            found matches Some(at) ==> self.holds_at(name@, at as int),
            found is None ==> forall|k: int| !self.holds_at(name@, k),
    {
        let mut i: usize = 0;
        while i < self.entries.len()
            invariant
                i <= self.entries@.len(),
                forall|k: int| 0 <= k < i ==> self.entries@[k].0@ != name@,
            decreases self.entries@.len() - i,
        {
            if same_text(self.entries[i].0.as_str(), name) {
                return Some(i);
            }
            i += 1;
        }
        None
    }

    /// Finds a language by its name.
    pub fn get(&self, name: &str) -> (found: Option<&Language>)
        requires
            self.well_formed(),
        ensures
            found is Some <==> self@.dom().contains(name@),
            found matches Some(language) ==> language@ == self@[name@],
    {
        match self.position(name) {
            Some(at) => {
                proof {
                    let chosen = choose|k: int| self.holds_at(name@, k);
                    assert(self.holds_at(name@, at as int));
                    assert(chosen == at);
                }
                Some(&self.entries[at].1)
            },
            None => None,
        }
    }

    /// Puts a language under a name. A language that was there under the
    /// same name is replaced.
    pub fn insert(&mut self, name: String, language: Language)
        requires
            old(self).well_formed(),
        ensures
            final(self).well_formed(),
            final(self)@ == old(self)@.insert(name@, language@),
            final(self).spec_len() == if old(self)@.dom().contains(name@) {
                old(self).spec_len()
            } else {
                old(self).spec_len() + 1
            },
    {
        let ghost added = language@;
        match self.position(name.as_str()) {
            Some(at) => {
                self.entries.set(at, (name, language));
                proof {
                    assert(old(self).holds_at(name@, at as int));
                    assert(old(self)@.dom().contains(name@));
                    lemma_put(*old(self), *self, name@, added, at as int);
                }
            },
            None => {
                let ghost at = self.entries@.len() as int;
                self.entries.push((name, language));
                proof {
                    assert(!old(self)@.dom().contains(name@));
                    assert(!old(self).holds_at(name@, at));
                    lemma_put(*old(self), *self, name@, added, at);
                }
            },
        }
    }
}

/// Putting a language at the place of its name, or behind all others if its
/// name is new, keeps the names distinct and changes what is held as an
/// insertion into a map does.
proof fn lemma_put(
    before: Languages,
    after: Languages,
    name: Seq<char>,
    added: LanguageView,
    at: int,
)
    requires
        before.well_formed(),
        0 <= at <= before.entries@.len(),
        forall|k: int| before.holds_at(name, k) ==> k == at,
        at < before.entries@.len() ==> before.holds_at(name, at),
        after.entries@.len() == if at < before.entries@.len() {
            before.entries@.len()
        } else {
            before.entries@.len() + 1
        },
        after.entries@[at].0@ == name,
        after.entries@[at].1@ == added,
        forall|k: int|
            0 <= k < before.entries@.len() && k != at ==> after.entries@[k] == before.entries@[k],
    ensures
        after.well_formed(),
        after@ == before@.insert(name, added),
{
    assert forall|i: int, j: int|
        0 <= i < after.entries@.len() && 0 <= j < after.entries@.len() && after.entries@[i].0@
            == after.entries@[j].0@ implies i == j by {
        if i != at && j != at {
            assert(before.entries@[i].0@ == before.entries@[j].0@);
        } else if i != at {
            assert(before.holds_at(name, i));
        } else if j != at {
            assert(before.holds_at(name, j));
        }
    }
    assert(after.holds_at(name, at));
    assert forall|key: Seq<char>| #[trigger]
        after@.dom().contains(key) <==> before@.insert(name, added).dom().contains(key) by {
        if after@.dom().contains(key) && key != name {
            let k = choose|k: int| after.holds_at(key, k);
            assert(after.holds_at(key, k));
            assert(before.holds_at(key, k));
        }
        if before@.dom().contains(key) && key != name {
            let k = choose|k: int| before.holds_at(key, k);
            assert(before.holds_at(key, k));
            assert(after.holds_at(key, k));
        }
    }
    assert forall|key: Seq<char>| #[trigger] after@.dom().contains(key) implies after@[key]
        == before@.insert(name, added)[key] by {
        let k = choose|k: int| after.holds_at(key, k);
        assert(after.holds_at(key, k));
        if key != name {
            assert(before.holds_at(key, k));
            let held = choose|k: int| before.holds_at(key, k);
            assert(before.holds_at(key, held));
        }
    }
    assert(after@ =~= before@.insert(name, added));
}

/// The judge's settings with every language resolved.
#[derive(Clone, Debug)]
pub struct Config {
    pub skip_count: u8,
    pub resource_limits: ResourceLimits,
    pub languages: Languages,
}

/// Whether `at` is the place of the last language of the given name among
/// the first `upto` languages as written.
pub open spec fn last_named(
    written: Seq<contest::Language>,
    upto: int,
    name: Seq<char>,
    at: int,
) -> bool {
    &&& 0 <= at < upto
    &&& written[at].name@ == name
    &&& forall|k: int| at < k < upto ==> written[k].name@ != name
}

/// Whether the resolved languages are those of the first `upto` languages
/// as written: under each name that occurs stands what the last language of
/// that name resolves to, and nothing stands under any other name.
pub open spec fn loaded(
    languages: Map<Seq<char>, LanguageView>,
    written: Seq<contest::Language>,
    upto: int,
) -> bool {
    &&& forall|name: Seq<char>| #[trigger]
        languages.dom().contains(name) ==> exists|at: int| last_named(written, upto, name, at)
    &&& forall|name: Seq<char>, at: int| #[trigger]
        last_named(written, upto, name, at) ==> languages.dom().contains(name) && resolves(
            languages[name],
            written[at],
        )
}

impl Config {
    /// Resolves settings as written: every command of every language is
    /// resolved against the search path, and the languages are put under
    /// their names, a later one replacing an earlier one of the same name.
    /// Fails if any command is without words.
    pub fn load(settings: &contest::Config) -> (result: Result<Config, ConfigLoadError>)
        ensures
            result is Ok <==> forall|k: int|
                0 <= k < settings.languages@.len() ==> resolvable(#[trigger] settings.languages@[k]),
            result matches Err(error) ==> error == ConfigLoadError::EmptyCommand,
            result matches Ok(config) ==> {
                &&& config.skip_count == settings.skip_count
                &&& config.resource_limits == settings.resource_limits
                &&& config.languages.well_formed()
                &&& loaded(
                    config.languages@,
                    settings.languages@,
                    settings.languages@.len() as int,
                )
            },
    {
        let mut languages = Languages::new();
        let mut i: usize = 0;
        while i < settings.languages.len()
            invariant
                i <= settings.languages@.len(),
                languages.well_formed(),
                loaded(languages@, settings.languages@, i as int),
                forall|k: int| 0 <= k < i ==> resolvable(#[trigger] settings.languages@[k]),
            decreases settings.languages@.len() - i,
        {
            let written = &settings.languages[i];
            let resolved = match Language::load(written) {
                Ok(resolved) => resolved,
                Err(error) => {
                    assert(!resolvable(settings.languages@[i as int]));
                    return Err(error);
                },
            };
            let ghost before = languages@;
            let ghost name = written.name@;
            languages.insert(written.name.clone(), resolved);
            proof {
                let all = settings.languages@;
                let next: int = i + 1;
                assert forall|key: Seq<char>| #[trigger]
                    languages@.dom().contains(key) implies exists|at: int|
                    last_named(all, next, key, at) by {
                    if key == name {
                        assert(last_named(all, next, key, i as int));
                    } else {
                        assert(before.dom().contains(key));
                        let at = choose|at: int| last_named(all, i as int, key, at);
                        assert(last_named(all, next, key, at));
                    }
                }
                assert forall|key: Seq<char>, at: int| #[trigger]
                    last_named(all, next, key, at) implies languages@.dom().contains(key)
                    && resolves(languages@[key], all[at]) by {
                    if key != name {
                        assert(last_named(all, i as int, key, at));
                    }
                }
                assert(loaded(languages@, all, next));
            }
            i += 1;
        }
        Ok(
            Config {
                skip_count: settings.skip_count,
                resource_limits: settings.resource_limits,
                languages,
            },
        )
    }
}

impl View for Languages {
    type V = Map<Seq<char>, LanguageView>;

    closed spec fn view(&self) -> Map<Seq<char>, LanguageView> {
        Map::new(
            |name: Seq<char>| exists|k: int| self.holds_at(name, k),
            |name: Seq<char>| self.entries@[choose|k: int| self.holds_at(name, k)].1@,
        )
    }
}

} // verus!
