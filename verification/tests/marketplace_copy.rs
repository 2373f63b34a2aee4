use codex_toolkit::marketplace_cmd::{LocalKind, MarketplaceCmdError};
use codex_toolkit::marketplace_copy::{
    CopyAction, CopyAnswer, CopyFlow, CopyStep, EntryRead,
};
use std::collections::BTreeMap;

/// A tree in memory: each directory with its entries.
type Tree = BTreeMap<Vec<Vec<u8>>, Vec<(&'static str, LocalKind)>>;

fn names(path: &str) -> Vec<Vec<u8>> {
    path.split('/')
        .filter(|name| !name.is_empty())
        .map(|name| name.as_bytes().to_vec())
        .collect()
}

fn shown(path: &[Vec<u8>]) -> String {
    let names: Vec<String> =
        path.iter().map(|name| String::from_utf8_lossy(name).to_string()).collect();
    names.join("/")
}

/// Runs a copy on the tree; returns what it did.
fn run(tree: &Tree) -> Vec<String> {
    let mut log = Vec::new();
    let mut open: Vec<Vec<(&'static str, LocalKind)>> = Vec::new();
    let mut action = CopyFlow::begin();
    loop {
        let answer = match &action {
            CopyAction::CreateDirectory { dir } => {
                log.push(format!("mkdir {}", shown(dir)));
                CopyAnswer::Created(Ok(()))
            }
            CopyAction::OpenDirectory { dir } => {
                let mut entries = tree[dir].clone();
                entries.reverse();
                open.push(entries);
                assert_eq!(open.len(), dir.len() + 1);
                CopyAnswer::Opened { dir: shown(dir), result: Ok(()) }
            }
            CopyAction::NextEntry { dir } => {
                assert_eq!(open.len(), dir.len() + 1);
                match open.last_mut().unwrap().pop() {
                    None => {
                        open.pop();
                        CopyAnswer::Entry(EntryRead::End)
                    }
                    Some((name, kind)) => CopyAnswer::Entry(EntryRead::Found {
                        shown: name.to_string(),
                        name: name.as_bytes().to_vec(),
                        kind: Ok(kind),
                    }),
                }
            }
            CopyAction::CreateParent { .. } => CopyAnswer::Created(Ok(())),
            CopyAction::CopyFile { file } => {
                log.push(format!("copy {}", shown(file)));
                CopyAnswer::Copied { from: String::new(), to: String::new(), result: Ok(()) }
            }
        };
        match CopyFlow::advance(action, answer) {
            CopyStep::Continue(following) => action = following,
            CopyStep::Finished(result) => {
                assert_eq!(result, Ok(()));
                assert!(open.is_empty());
                return log;
            }
        }
    }
}

#[test]
fn a_copy_walks_the_whole_tree() {
    let mut tree = Tree::new();
    tree.insert(
        names(""),
        vec![
            ("a", LocalKind::Directory),
            ("link", LocalKind::Other),
            ("f", LocalKind::File),
        ],
    );
    tree.insert(names("a"), vec![("g", LocalKind::File), ("b", LocalKind::Directory)]);
    tree.insert(names("a/b"), vec![]);
    assert_eq!(run(&tree), ["mkdir ", "mkdir a", "copy a/g", "mkdir a/b", "copy f"]);
}

fn failure(action: CopyAction, answer: CopyAnswer) -> MarketplaceCmdError {
    match CopyFlow::advance(action, answer) {
        CopyStep::Finished(Err(error)) => error,
        other => panic!("{other:?}"),
    }
}

#[test]
fn a_copy_that_fails_tells_where() {
    let text = |text: &str| text.to_string();
    let broken = || "broken".to_string();
    let caused = |message: &str| MarketplaceCmdError::caused(message.to_string(), broken());
    assert_eq!(
        failure(CopyFlow::begin(), CopyAnswer::Created(Err(broken()))),
        MarketplaceCmdError::plain(broken())
    );
    assert_eq!(
        failure(
            CopyAction::OpenDirectory { dir: names("a") },
            CopyAnswer::Opened { dir: text("/m/a"), result: Err(broken()) }
        ),
        caused("failed to read local marketplace directory /m/a")
    );
    assert_eq!(
        failure(
            CopyAction::NextEntry { dir: names("a") },
            CopyAnswer::Entry(EntryRead::Failed { dir: text("/m/a"), error: broken() })
        ),
        caused("failed to read local marketplace entry in /m/a")
    );
    assert_eq!(
        failure(
            CopyAction::NextEntry { dir: names("a") },
            CopyAnswer::Entry(EntryRead::Found {
                shown: text("/m/a/x"),
                name: b"x".to_vec(),
                kind: Err(broken()),
            })
        ),
        caused("failed to read file type for local marketplace entry /m/a/x")
    );
    assert_eq!(
        failure(
            CopyAction::CreateParent { file: names("a/x") },
            CopyAnswer::Created(Err(broken()))
        ),
        MarketplaceCmdError::plain(broken())
    );
    assert_eq!(
        failure(
            CopyAction::CopyFile { file: names("a/x") },
            CopyAnswer::Copied { from: text("/m/a/x"), to: text("/s/a/x"), result: Err(broken()) }
        ),
        caused("failed to copy local marketplace file /m/a/x to /s/a/x")
    );
}
