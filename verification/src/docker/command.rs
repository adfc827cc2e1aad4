//! The `command` key of a service.

use crate::docker::definitions::{DockerErrorView, DockerModuleError};
use crate::docker::paths;
use crate::text;
use vstd::prelude::*;

verus! {

/// The words that `shlex::split` finds in a command line, or nothing where the
/// quoting is not closed.
pub uninterp spec fn shell_words(line: Seq<char>) -> Option<Seq<Seq<char>>>;

/// `shlex::split`: splits a command line into words as a POSIX shell does. The
/// result is a function of the line alone; which words it holds is left to the
/// name `shell_words`.
#[verifier::external_body]
fn split_words(line: &str) -> (words: Option<Vec<String>>)
    ensures
        match words {
            Some(list) => shell_words(line@) == Some(text::texts(list@)),
            None => shell_words(line@) is None,
        },
{
    shlex::split(line)
}

/// The argument vector of a command whose words are known. Quoting that is not
/// closed is an error that names the command.
pub open spec fn argv_of(command: Seq<char>, words: Option<Seq<Seq<char>>>) -> Result<
    Seq<Seq<char>>,
    DockerErrorView,
> {
    match words {
        Some(list) => Ok(list),
        None => Err(DockerErrorView::InvalidCommand(command)),
    }
}

/// The argument vector that a `command` key stands for. Without a command it is
/// empty, and the container runs what its image says.
pub open spec fn command_argv(command: Option<Seq<char>>) -> Result<
    Seq<Seq<char>>,
    DockerErrorView,
> {
    match command {
        None => Ok(Seq::empty()),
        Some(line) => argv_of(line, shell_words(line)),
    }
}

/// Takes the words of a command, or refuses a command whose quoting is not
/// closed.
pub fn argv_from_words(command: &str, words: Option<Vec<String>>) -> (result: Result<
    Vec<String>,
    DockerModuleError,
>)
    ensures
        match words {
            Some(list) => result == Ok::<Vec<String>, DockerModuleError>(list),
            None => result matches Err(error) && error@ == DockerErrorView::InvalidCommand(
                command@,
            ),
        },
{
    match words {
        Some(list) => Ok(list),
        None => Err(DockerModuleError::InvalidCommand(command.to_owned())),
    }
}

/// Splits the `command` key into an argument vector. A command whose quoting is
/// not closed is refused, so that no container runs something else in its
/// place.
pub fn resolve_command(command: Option<&str>) -> (result: Result<Vec<String>, DockerModuleError>)
    ensures
        match result {
            Ok(argv) => command_argv(paths::opt_str(command)) == Ok::<Seq<Seq<char>>, DockerErrorView>(
                text::texts(argv@),
            ),
            Err(error) => command_argv(paths::opt_str(command)) == Err::<
                Seq<Seq<char>>,
                DockerErrorView,
            >(error@),
        },
{
    match command {
        None => {
            let argv: Vec<String> = Vec::new();
            assert(text::texts(argv@) =~= Seq::empty());
            Ok(argv)
        },
        Some(line) => argv_from_words(line, split_words(line)),
    }
}

/// A command becomes its words, all of them, in order. Quoting that is not
/// closed is refused with the command; without a command there are no words.
pub proof fn command_becomes_its_words(line: Seq<char>)
    ensures
        command_argv(None) == Ok::<Seq<Seq<char>>, DockerErrorView>(Seq::empty()),
        shell_words(line) matches Some(words) ==> command_argv(Some(line)) == Ok::<
            Seq<Seq<char>>,
            DockerErrorView,
        >(words),
        shell_words(line) is None ==> command_argv(Some(line)) == Err::<
            Seq<Seq<char>>,
            DockerErrorView,
        >(DockerErrorView::InvalidCommand(line)),
{
}

} // verus!
