use vstd::prelude::*;
use vstd::string::StringExecFns;

verus! {

/// The texts of a list of words.
pub open spec fn texts(words: Seq<String>) -> Seq<Seq<char>> {
    Seq::new(words.len(), |i: int| words[i]@)
}

/// Words joined by single spaces.
pub open spec fn joined(words: Seq<Seq<char>>) -> Seq<char>
    decreases words.len(),
{
    if words.len() == 0 {
        Seq::empty()
    } else if words.len() == 1 {
        words[0]
    } else {
        joined(words.drop_last()) + seq![' '] + words.last()
    }
}

/// A command has to name at least its executable.
#[derive(Clone, Copy, Debug, PartialEq, Eq, Hash, Structural)]
pub struct EmptyCommand;

impl EmptyCommand {
    /// The error in words.
    pub fn message(&self) -> (text: String)
        ensures
            text@ == "empty command"@,
    {
        "empty command".to_owned()
    }
}

/// A command to run: the executable and its arguments, in order.
#[derive(Clone, Debug, PartialEq, Eq, Hash)]
pub struct Command {
    pub executable: String,
    pub args: Vec<String>,
}

/// A [`Command`] as plain values.
pub struct CommandView {
    pub executable: Seq<char>,
    pub args: Seq<Seq<char>>,
}

impl View for Command {
    type V = CommandView;

    open spec fn view(&self) -> CommandView {
        CommandView { executable: self.executable@, args: texts(self.args@) }
    }
}

/// The command that a list of words stands for, once the executable has
/// been looked up: the first word names the executable and is replaced by
/// where it was found, if it was found; the other words are the arguments.
/// No words are no command.
pub open spec fn resolution(words: Seq<Seq<char>>, found: Option<Seq<char>>) -> Result<
    CommandView,
    EmptyCommand,
> {
    if words.len() == 0 {
        Err(EmptyCommand)
    } else {
        Ok(
            CommandView {
                executable: match found {
                    Some(path) => path,
                    None => words[0],
                },
                args: words.skip(1),
            },
        )
    }
}

/// Where an executable was found, as plain values.
pub open spec fn place(found: Option<String>) -> Option<Seq<char>> {
    match found {
        Some(path) => Some(path@),
        None => None,
    }
}

/// The result of a command resolution as plain values.
pub open spec fn resolved_view(result: Result<Command, EmptyCommand>) -> Result<
    CommandView,
    EmptyCommand,
> {
    match result {
        Ok(command) => Ok(command@),
        Err(error) => Err(error),
    }
}

/// Copies the words from the given place on.
pub fn words_from(words: &[String], from: usize) -> (rest: Vec<String>)
    requires
        from <= words@.len(),
    ensures
        texts(rest@) == texts(words@).skip(from as int),
{
    let mut rest: Vec<String> = Vec::new();
    let mut i: usize = from;
    while i < words.len()
        invariant
            from <= i <= words@.len(),
            rest@.len() == i - from,
            forall|k: int| 0 <= k < rest@.len() ==> rest@[k]@ == words@[from + k]@,
        decreases words@.len() - i,
    {
        rest.push(words[i].clone());
        i += 1;
    }
    proof {
        assert(texts(rest@) =~= texts(words@).skip(from as int));
    }
    rest
}

/// `which::which`: looks for an executable of the given name on the search
/// path, or at the given path, and gives the place where it was found.
/// What comes back depends on the environment and on what is on disk, so
/// nothing is promised of it. A place that is no valid text counts as not
/// found.
#[verifier::external_body]
pub(crate) fn find_executable(name: &str) -> Option<String> {
    match which::which(name) {
        Ok(path) => path.into_os_string().into_string().ok(),
        Err(_) => None,
    }
}

impl Command {
    pub fn new(executable: String, args: Vec<String>) -> (command: Command)
        ensures
            command@ == (CommandView { executable: executable@, args: texts(args@) }),
    {
        Command { executable, args }
    }

    /// Makes a command of a list of words, given where the executable that
    /// the first word names was found, if it was.
    pub fn resolved(words: &[String], found: Option<String>) -> (result: Result<
        Command,
        EmptyCommand,
    >)
        ensures
            resolved_view(result) == resolution(texts(words@), place(found)),
    {
        if words.len() == 0 {
            return Err(EmptyCommand);
        }
        let executable = match found {
            Some(path) => path,
            None => words[0].clone(),
        };
        Ok(Command { executable, args: words_from(words, 1) })
    }

    /// Makes a command of a list of words. The executable is looked up on
    /// the search path; if it is not found there, the first word is kept as
    /// it is.
    pub fn try_from(words: Vec<String>) -> (result: Result<Command, EmptyCommand>)
        ensures
            result is Err <==> words@.len() == 0,
            result matches Ok(command) ==> command@.args == texts(words@).skip(1),
            exists|found: Option<Seq<char>>|
                resolved_view(result) == resolution(texts(words@), found),
    {
        if words.len() == 0 {
            assert(resolved_view(Err::<Command, EmptyCommand>(EmptyCommand)) == resolution(
                texts(words@),
                None,
            ));
            return Err(EmptyCommand);
        }
        let found = find_executable(words[0].as_str());
        let ghost at = place(found);
        let result = Command::resolved(words.as_slice(), found);
        assert(resolved_view(result) == resolution(texts(words@), at));
        result
    }

    /// The command as one line: the executable and the arguments, with
    /// single spaces between them.
    pub fn render(&self) -> (line: String)
        ensures
            line@ == self@.executable + seq![' '] + joined(self@.args),
    {
        let mut line = self.executable.clone();
        proof {
            reveal_strlit(" ");
        }
        line.append(" ");
        let mut i: usize = 0;
        while i < self.args.len()
            invariant
                i <= self.args@.len(),
                " "@ == seq![' '],
                line@ == self@.executable + seq![' '] + joined(self@.args.take(i as int)),
            decreases self.args@.len() - i,
        {
            proof {
                assert(self@.args.take(i + 1).drop_last() =~= self@.args.take(i as int));
                assert(self@.args.take(i + 1).last() == self.args@[i as int]@);
            }
            if i > 0 {
                line.append(" ");
            }
            line.append(self.args[i].as_str());
            proof {
                if i == 0 {
                    assert(joined(self@.args.take(0)) =~= Seq::<char>::empty());
                    assert(joined(self@.args.take(1)) == self.args@[0]@);
                    assert(line@ =~= self@.executable + seq![' '] + joined(self@.args.take(1)));
                } else {
                    assert(line@ =~= self@.executable + seq![' '] + joined(
                        self@.args.take(i + 1),
                    ));
                }
            }
            i += 1;
        }
        proof {
            assert(self@.args.take(i as int) =~= self@.args);
        }
        line
    }
}

} // verus!
