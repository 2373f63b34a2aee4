//! The git commands that fetch a marketplace, and what their failures say.

use crate::text::{
    copy_texts, decode_lossy, ends_with, join, joined, law_prefixes_come_first,
    law_suffixes_come_last, starts_with, trim, trimmed, utf8_lossy,
};
use vstd::prelude::*;
use vstd::utf8::{decode_utf8, valid_utf8};

verus! {

/// The directory that a git command runs in.
#[derive(Clone, Copy, Debug, PartialEq, Eq, Structural)]
pub enum GitDirectory {
    /// That of the calling process.
    Inherited,
    /// The clone, by the text that was handed to `git clone`.
    CloneText,
    /// The clone, by its path.
    ClonePath,
}

#[derive(Debug, PartialEq, Eq)]
pub struct GitCommand {
    pub args: Vec<String>,
    pub directory: GitDirectory,
}

pub struct CommandModel {
    pub args: Seq<Seq<char>>,
    pub directory: GitDirectory,
}

impl View for GitCommand {
    type V = CommandModel;

    open spec fn view(&self) -> CommandModel {
        CommandModel { args: self.args.deep_view(), directory: self.directory }
    }
}

pub open spec fn commands_of(commands: Seq<GitCommand>) -> Seq<CommandModel> {
    commands.map_values(|c: GitCommand| c@)
}

/// The commands that clone `url` into `destination`. Without sparse paths the
/// clone is whole, and a ref is checked out where one is named; with sparse
/// paths nothing is checked out before the paths are set.
pub open spec fn clone_commands(
    url: Seq<char>,
    ref_name: Option<Seq<char>>,
    sparse_paths: Seq<Seq<char>>,
    destination: Seq<char>,
) -> Seq<CommandModel> {
    if sparse_paths.len() == 0 {
        let clone = CommandModel {
            args: seq!["clone"@, url, destination],
            directory: GitDirectory::Inherited,
        };
        match ref_name {
            Some(name) => seq![
                clone,
                CommandModel {
                    args: seq!["checkout"@, name],
                    directory: GitDirectory::CloneText,
                },
            ],
            None => seq![clone],
        }
    } else {
        let target = match ref_name {
            Some(name) => name,
            None => "HEAD"@,
        };
        seq![
            CommandModel {
                args: seq!["clone"@, "--filter=blob:none"@, "--no-checkout"@, url, destination],
                directory: GitDirectory::Inherited,
            },
            CommandModel {
                args: seq!["sparse-checkout"@, "set"@] + sparse_paths,
                directory: GitDirectory::ClonePath,
            },
            CommandModel {
                args: seq!["checkout"@, target],
                directory: GitDirectory::ClonePath,
            },
        ]
    }
}

/// The commands that clone `url` into `destination`, in order. The first one
/// that fails ends the clone.
pub fn clone_git_source(
    url: &str,
    ref_name: Option<&str>,
    sparse_paths: &Vec<String>,
    destination: &str,
) -> (r: Vec<GitCommand>)
    ensures
        commands_of(r@) == clone_commands(
            url@,
            ref_name.deep_view(),
            sparse_paths.deep_view(),
            destination@,
        ),
{
    let mut commands: Vec<GitCommand> = Vec::new();
    if sparse_paths.len() == 0 {
        let clone = GitCommand {
            args: vec!["clone".to_owned(), url.to_owned(), destination.to_owned()],
            directory: GitDirectory::Inherited,
        };
        assert(clone@.args =~= seq!["clone"@, url@, destination@]);
        commands.push(clone);
        if let Some(name) = ref_name {
            let checkout = GitCommand {
                args: vec!["checkout".to_owned(), name.to_owned()],
                directory: GitDirectory::CloneText,
            };
            assert(checkout@.args =~= seq!["checkout"@, name@]);
            commands.push(checkout);
        }
        return commands;
    }
    let clone = GitCommand {
        args: vec![
            "clone".to_owned(),
            "--filter=blob:none".to_owned(),
            "--no-checkout".to_owned(),
            url.to_owned(),
            destination.to_owned(),
        ],
        directory: GitDirectory::Inherited,
    };
    assert(clone@.args =~= seq![
        "clone"@,
        "--filter=blob:none"@,
        "--no-checkout"@,
        url@,
        destination@,
    ]);
    commands.push(clone);
    let mut sparse_args: Vec<String> = vec!["sparse-checkout".to_owned(), "set".to_owned()];
    let mut paths = copy_texts(sparse_paths);
    sparse_args.append(&mut paths);
    let sparse = GitCommand { args: sparse_args, directory: GitDirectory::ClonePath };
    assert(sparse@.args =~= seq!["sparse-checkout"@, "set"@] + sparse_paths.deep_view());
    commands.push(sparse);
    let target = match ref_name {
        Some(name) => name.to_owned(),
        None => "HEAD".to_owned(),
    };
    let checkout = GitCommand {
        args: vec!["checkout".to_owned(), target],
        directory: GitDirectory::ClonePath,
    };
    assert(checkout@.args =~= seq!["checkout"@, target@]);
    commands.push(checkout);
    commands
}

/// How a git command ended.
#[derive(Debug, PartialEq, Eq)]
pub enum GitOutcome {
    /// The command could not be run.
    NotRun { error: String },
    Ended { success: bool, status: String, stdout: Vec<u8>, stderr: Vec<u8> },
}

/// What a command's failure says, or nothing where it succeeded.
pub open spec fn git_failure_text(args: Seq<Seq<char>>, outcome: GitOutcome) -> Option<Seq<char>> {
    match outcome {
        GitOutcome::NotRun { error } => Some(
            "failed to run git "@ + join(args, " "@) + ": "@ + error@,
        ),
        GitOutcome::Ended { success, status, stdout, stderr } => if success {
            None
        } else {
            Some(
                "git "@ + join(args, " "@) + " failed with status "@ + status@ + "\nstdout:\n"@
                    + trim(utf8_lossy(stdout@)) + "\nstderr:\n"@ + trim(utf8_lossy(stderr@)),
            )
        },
    }
}

/// What a command's failure says, or nothing where it succeeded.
pub fn git_failure(args: &Vec<String>, outcome: &GitOutcome) -> (r: Option<String>)
    ensures
        r.deep_view() == git_failure_text(args.deep_view(), *outcome),
        *outcome matches GitOutcome::Ended { success, stdout, stderr, .. } ==> !success ==> {
            &&& valid_utf8(stdout@) ==> utf8_lossy(stdout@) == decode_utf8(stdout@)
            &&& valid_utf8(stderr@) ==> utf8_lossy(stderr@) == decode_utf8(stderr@)
        },
{
    match outcome {
        GitOutcome::NotRun { error } => Some(
            "failed to run git ".to_owned().concat(joined(args, " ").as_str()).concat(": ").concat(
                error.as_str(),
            ),
        ),
        GitOutcome::Ended { success, status, stdout, stderr } => if *success {
            None
        } else {
            let out = trimmed(decode_lossy(stdout.as_slice()).as_str());
            let err = trimmed(decode_lossy(stderr.as_slice()).as_str());
            Some(
                "git ".to_owned().concat(joined(args, " ").as_str()).concat(
                    " failed with status ",
                ).concat(status.as_str()).concat("\nstdout:\n").concat(out.as_str()).concat(
                    "\nstderr:\n",
                ).concat(err.as_str()),
            )
        },
    }
}

/// How a clone goes on after a command.
#[derive(Debug, PartialEq, Eq)]
pub enum CloneStep {
    /// Run the command number `next`.
    Run { next: usize },
    /// The clone has failed.
    Failed { text: String },
    /// All commands have succeeded.
    Cloned,
}

pub enum CloneModel {
    Run { next: int },
    Failed { text: Seq<char> },
    Cloned,
}

impl View for CloneStep {
    type V = CloneModel;

    open spec fn view(&self) -> CloneModel {
        match *self {
            CloneStep::Run { next } => CloneModel::Run { next: next as int },
            CloneStep::Failed { text } => CloneModel::Failed { text: text@ },
            CloneStep::Cloned => CloneModel::Cloned,
        }
    }
}

/// The clone is to run the command number `next`, if there is one.
pub open spec fn runs_next(commands: Seq<CommandModel>, next: int) -> CloneModel {
    if next < commands.len() {
        CloneModel::Run { next }
    } else {
        CloneModel::Cloned
    }
}

/// How a clone goes on when the command number `ran` has ended so: the first
/// failure ends it.
pub open spec fn clone_step(
    commands: Seq<CommandModel>,
    ran: int,
    outcome: GitOutcome,
) -> CloneModel {
    if ran >= commands.len() {
        CloneModel::Cloned
    } else {
        match git_failure_text(commands[ran].args, outcome) {
            Some(text) => CloneModel::Failed { text },
            None => runs_next(commands, ran + 1),
        }
    }
}

/// How a clone begins.
pub fn begin_clone(commands: &Vec<GitCommand>) -> (r: CloneStep)
    ensures
        r@ == runs_next(commands_of(commands@), 0),
{
    if commands.len() > 0 {
        CloneStep::Run { next: 0 }
    } else {
        CloneStep::Cloned
    }
}

/// How a clone goes on when the command number `ran` has ended so.
pub fn after_command(commands: &Vec<GitCommand>, ran: usize, outcome: &GitOutcome) -> (r: CloneStep)
    ensures
        r@ == clone_step(commands_of(commands@), ran as int, *outcome),
{
    if ran >= commands.len() {
        return CloneStep::Cloned;
    }
    match git_failure(&commands[ran].args, outcome) {
        Some(text) => CloneStep::Failed { text },
        None => if ran + 1 < commands.len() {
            CloneStep::Run { next: ran + 1 }
        } else {
            CloneStep::Cloned
        },
    }
}

/// What a clone has come to when its commands have ended so, one after the other.
pub open spec fn clone_after(commands: Seq<CommandModel>, outcomes: Seq<GitOutcome>) -> CloneModel
    decreases outcomes.len(),
{
    if outcomes.len() == 0 {
        runs_next(commands, 0)
    } else {
        match clone_after(commands, outcomes.drop_last()) {
            CloneModel::Run { next } => clone_step(commands, next, outcomes.last()),
            ended => ended,
        }
    }
}

/// The command number `i` succeeded.
pub open spec fn succeeds_at(
    commands: Seq<CommandModel>,
    outcomes: Seq<GitOutcome>,
    i: int,
) -> bool {
    git_failure_text(commands[i].args, outcomes[i]) is None
}

/// While commands succeed, the next one is run; a clone is done when all have
/// succeeded.
pub proof fn law_a_clone_runs_all_its_commands(
    commands: Seq<CommandModel>,
    outcomes: Seq<GitOutcome>,
)
    requires
        outcomes.len() <= commands.len(),
        forall|i: int|
            0 <= i < outcomes.len() ==> #[trigger] succeeds_at(commands, outcomes, i),
    ensures
        clone_after(commands, outcomes) == runs_next(commands, outcomes.len() as int),
    decreases outcomes.len(),
{
    if outcomes.len() > 0 {
        let before = outcomes.drop_last();
        assert forall|i: int| 0 <= i < before.len() implies #[trigger] succeeds_at(
            commands,
            before,
            i,
        ) by {
            assert(succeeds_at(commands, outcomes, i));
        }
        law_a_clone_runs_all_its_commands(commands, before);
        assert(succeeds_at(commands, outcomes, outcomes.len() - 1));
    }
}

/// The first command that fails ends the clone with what its failure says; those
/// after it are not run.
pub proof fn law_the_first_failure_ends_a_clone(
    commands: Seq<CommandModel>,
    outcomes: Seq<GitOutcome>,
    k: int,
)
    requires
        0 <= k < outcomes.len(),
        k < commands.len(),
        forall|i: int| 0 <= i < k ==> #[trigger] succeeds_at(commands, outcomes, i),
        !succeeds_at(commands, outcomes, k),
    ensures
        git_failure_text(commands[k].args, outcomes[k]) matches Some(text) && clone_after(
            commands,
            outcomes,
        ) == (CloneModel::Failed { text }),
    decreases outcomes.len(),
{
    let before = outcomes.drop_last();
    assert forall|i: int| 0 <= i < k implies #[trigger] succeeds_at(commands, before, i) by {
        assert(succeeds_at(commands, outcomes, i));
    }
    if k < before.len() {
        assert(!succeeds_at(commands, before, k));
        law_the_first_failure_ends_a_clone(commands, before, k);
    } else {
        law_a_clone_runs_all_its_commands(commands, before);
    }
}

/// A clone is done only when all its commands have succeeded.
pub proof fn law_a_clone_that_is_done_has_succeeded(
    commands: Seq<CommandModel>,
    outcomes: Seq<GitOutcome>,
)
    requires
        clone_after(commands, outcomes) is Cloned,
    ensures
        outcomes.len() >= commands.len(),
        forall|i: int|
            0 <= i < commands.len() ==> #[trigger] succeeds_at(commands, outcomes, i),
{
    assert forall|i: int| 0 <= i < commands.len() && i < outcomes.len() implies #[trigger]
        succeeds_at(commands, outcomes, i) by {
        lemma_no_failure_before(commands, outcomes, i);
    }
    if outcomes.len() < commands.len() {
        law_a_clone_runs_all_its_commands(commands, outcomes);
    }
}

proof fn lemma_no_failure_before(commands: Seq<CommandModel>, outcomes: Seq<GitOutcome>, k: int)
    requires
        clone_after(commands, outcomes) is Cloned,
        0 <= k < commands.len(),
        k < outcomes.len(),
    ensures
        forall|i: int| 0 <= i <= k ==> #[trigger] succeeds_at(commands, outcomes, i),
    decreases k,
{
    if k > 0 {
        lemma_no_failure_before(commands, outcomes, k - 1);
    }
    if !succeeds_at(commands, outcomes, k) {
        law_the_first_failure_ends_a_clone(commands, outcomes, k);
    }
}

/// Whatever is asked for, the first command clones the URL, as it is, into the
/// destination; the ref, as it is, is checked out last and in the clone.
pub proof fn law_a_clone_is_of_the_url_and_the_ref(
    url: Seq<char>,
    ref_name: Option<Seq<char>>,
    sparse_paths: Seq<Seq<char>>,
    destination: Seq<char>,
)
    ensures
        ({
            let commands = clone_commands(url, ref_name, sparse_paths, destination);
            let first = commands[0].args;
            let last = commands.last();
            &&& commands.len() > 0
            &&& commands[0].directory == GitDirectory::Inherited
            &&& first.len() >= 3
            &&& first[0] == "clone"@
            &&& first[first.len() - 2] == url
            &&& first.last() == destination
            &&& ref_name matches Some(name) ==> {
                &&& commands.len() > 1
                &&& last.args == seq!["checkout"@, name]
                &&& last.directory != GitDirectory::Inherited
            }
        }),
{
}

/// Without sparse paths the clone is whole. With them, nothing is fetched or checked
/// out before exactly these paths, in their order, are set in the clone.
pub proof fn law_a_clone_has_the_paths_that_were_asked_for(
    url: Seq<char>,
    ref_name: Option<Seq<char>>,
    sparse_paths: Seq<Seq<char>>,
    destination: Seq<char>,
)
    ensures
        ({
            let commands = clone_commands(url, ref_name, sparse_paths, destination);
            &&& sparse_paths.len() == 0 ==> {
                &&& commands[0].args == seq!["clone"@, url, destination]
                &&& commands.len() == if ref_name is Some {
                    2
                } else {
                    1nat
                }
            }
            &&& sparse_paths.len() > 0 ==> {
                &&& commands.len() == 3
                &&& commands[0].args.take(3) == seq![
                    "clone"@,
                    "--filter=blob:none"@,
                    "--no-checkout"@,
                ]
                &&& commands[1].args.take(2) == seq!["sparse-checkout"@, "set"@]
                &&& commands[1].args.skip(2) == sparse_paths
                &&& commands[1].directory == GitDirectory::ClonePath
                &&& ref_name is None ==> commands[2].args == seq!["checkout"@, "HEAD"@]
            }
        }),
{
    if sparse_paths.len() > 0 {
        let commands = clone_commands(url, ref_name, sparse_paths, destination);
        assert(commands[1].args.take(2) =~= seq!["sparse-checkout"@, "set"@]);
        assert(commands[1].args.skip(2) =~= sparse_paths);
        assert(commands[0].args.take(3) =~= seq![
            "clone"@,
            "--filter=blob:none"@,
            "--no-checkout"@,
        ]);
    }
}

/// A command fails unless it ran and succeeded. What is said of the failure has the
/// whole command line, and why it was not run, or its status and all that it put
/// out but for white space around it.
pub proof fn law_failures_of_git_are_told_in_full(
    args: Seq<Seq<char>>,
    error: String,
    success: bool,
    status: String,
    stdout: Vec<u8>,
    stderr: Vec<u8>,
)
    ensures
        git_failure_text(args, GitOutcome::NotRun { error }) == Some(
            "failed to run git "@ + join(args, " "@) + ": "@ + error@,
        ),
        match git_failure_text(args, GitOutcome::Ended { success, status, stdout, stderr }) {
            None => success,
            Some(text) => {
                let out = trim(utf8_lossy(stdout@));
                let err = trim(utf8_lossy(stderr@));
                &&& !success
                &&& starts_with(text, "git "@ + join(args, " "@) + " failed with status "@ + status@)
                &&& ends_with(text, "\nstdout:\n"@ + out + "\nstderr:\n"@ + err)
                &&& text.len() == ("git "@ + join(args, " "@) + " failed with status "@
                    + status@).len() + ("\nstdout:\n"@ + out + "\nstderr:\n"@ + err).len()
            },
        },
{
    if !success {
        let out = trim(utf8_lossy(stdout@));
        let err = trim(utf8_lossy(stderr@));
        let head = "git "@ + join(args, " "@) + " failed with status "@ + status@;
        let tail = "\nstdout:\n"@ + out + "\nstderr:\n"@ + err;
        let text = head + "\nstdout:\n"@ + out + "\nstderr:\n"@ + err;
        assert(text =~= head + tail);
        law_prefixes_come_first(head, tail);
        law_suffixes_come_last(head, tail);
    }
}

} // verus!
