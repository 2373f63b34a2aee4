use codex_toolkit::marketplace_git::{
    after_command, begin_clone, clone_git_source, git_failure, CloneStep, GitDirectory, GitOutcome,
};

fn planned(ref_name: Option<&str>, sparse: &[&str]) -> Vec<(String, GitDirectory)> {
    let sparse: Vec<String> = sparse.iter().map(|path| path.to_string()).collect();
    clone_git_source("https://e.com/r", ref_name, &sparse, "/staged")
        .into_iter()
        .map(|command| (command.args.join(" "), command.directory))
        .collect()
}

fn command(args: &str, directory: GitDirectory) -> (String, GitDirectory) {
    (args.to_string(), directory)
}

#[test]
fn a_whole_clone_checks_out_a_named_ref_only() {
    let clone = command("clone https://e.com/r /staged", GitDirectory::Inherited);
    assert_eq!(planned(None, &[]), vec![clone.clone()]);
    assert_eq!(
        planned(Some("v1"), &[]),
        vec![clone, command("checkout v1", GitDirectory::CloneText)]
    );
}

#[test]
fn a_sparse_clone_sets_its_paths_before_it_checks_out() {
    let clone = command(
        "clone --filter=blob:none --no-checkout https://e.com/r /staged",
        GitDirectory::Inherited,
    );
    let set = command("sparse-checkout set plugins/foo skills/bar", GitDirectory::ClonePath);
    assert_eq!(
        planned(None, &["plugins/foo", "skills/bar"]),
        vec![clone.clone(), set.clone(), command("checkout HEAD", GitDirectory::ClonePath)]
    );
    assert_eq!(
        planned(Some("v1"), &["plugins/foo", "skills/bar"]),
        vec![clone, set, command("checkout v1", GitDirectory::ClonePath)]
    );
}

#[test]
fn failures_tell_the_command_and_its_output() {
    let args = vec!["checkout".to_string(), "v1".to_string()];
    let ended = |success: bool| GitOutcome::Ended {
        success,
        status: "exit status: 1".to_string(),
        stdout: b" out\n".to_vec(),
        stderr: b"err \xff\n".to_vec(),
    };
    assert_eq!(git_failure(&args, &ended(true)), None);
    assert_eq!(
        git_failure(&args, &ended(false)).unwrap(),
        "git checkout v1 failed with status exit status: 1\nstdout:\nout\nstderr:\nerr \u{fffd}"
    );
    assert_eq!(
        git_failure(&args, &GitOutcome::NotRun { error: "not found".to_string() }).unwrap(),
        "failed to run git checkout v1: not found"
    );
}

#[test]
fn the_first_failing_command_ends_a_clone() {
    let sparse = vec!["a".to_string()];
    let commands = clone_git_source("https://e.com/r", None, &sparse, "/staged");
    let ended = |success: bool| GitOutcome::Ended {
        success,
        status: "exit status: 1".to_string(),
        stdout: Vec::new(),
        stderr: Vec::new(),
    };
    assert_eq!(begin_clone(&commands), CloneStep::Run { next: 0 });
    assert_eq!(after_command(&commands, 0, &ended(true)), CloneStep::Run { next: 1 });
    assert_eq!(after_command(&commands, 1, &ended(true)), CloneStep::Run { next: 2 });
    assert_eq!(after_command(&commands, 2, &ended(true)), CloneStep::Cloned);
    assert_eq!(
        after_command(&commands, 1, &ended(false)),
        CloneStep::Failed {
            text: "git sparse-checkout set a failed with status exit status: 1\nstdout:\n\nstderr:\n".to_string()
        }
    );
    assert_eq!(begin_clone(&Vec::new()), CloneStep::Cloned);
}
