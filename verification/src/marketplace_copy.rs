//! Copying a local marketplace: the walk through its directories.
//!
//! [`CopyFlow`] decides; its caller acts. Places are given by the names that lead
//! to them from the root of the tree, and are the same in the copy. Directories
//! that are open are those that lead to the one being read.

use crate::marketplace_cmd::{
    caused_error, plain_error, CmdErrorModel, LocalKind, MarketplaceCmdError,
};
use crate::text::{ends_with, law_suffixes_come_last};
use vstd::prelude::*;

verus! {

/// The names that lead from the root of the tree to a place in it, as raw bytes.
pub open spec fn names_of(path: Seq<Vec<u8>>) -> Seq<Seq<u8>> {
    path.map_values(|name: Vec<u8>| name@)
}

/// The place above `path`; above the root there is none but the root itself.
pub open spec fn up(path: Seq<Seq<u8>>) -> Seq<Seq<u8>> {
    if path.len() == 0 {
        path
    } else {
        path.drop_last()
    }
}

/// What is to be done next.
#[derive(Debug, PartialEq, Eq)]
pub enum CopyAction {
    /// Create the directory in the copy, and those above it.
    CreateDirectory { dir: Vec<Vec<u8>> },
    /// Open the directory of the tree.
    OpenDirectory { dir: Vec<Vec<u8>> },
    /// Read the next entry of the open directory.
    NextEntry { dir: Vec<Vec<u8>> },
    /// Create the directory of the file in the copy.
    CreateParent { file: Vec<Vec<u8>> },
    CopyFile { file: Vec<Vec<u8>> },
}

pub enum CopyModel {
    CreateDirectory { dir: Seq<Seq<u8>> },
    OpenDirectory { dir: Seq<Seq<u8>> },
    NextEntry { dir: Seq<Seq<u8>> },
    CreateParent { file: Seq<Seq<u8>> },
    CopyFile { file: Seq<Seq<u8>> },
}

impl View for CopyAction {
    type V = CopyModel;

    open spec fn view(&self) -> CopyModel {
        match *self {
            CopyAction::CreateDirectory { dir } => CopyModel::CreateDirectory {
                dir: names_of(dir@),
            },
            CopyAction::OpenDirectory { dir } => CopyModel::OpenDirectory { dir: names_of(dir@) },
            CopyAction::NextEntry { dir } => CopyModel::NextEntry { dir: names_of(dir@) },
            CopyAction::CreateParent { file } => CopyModel::CreateParent { file: names_of(file@) },
            CopyAction::CopyFile { file } => CopyModel::CopyFile { file: names_of(file@) },
        }
    }
}

/// What reading the next entry of a directory gave. Places are as they are shown.
#[derive(Debug, PartialEq, Eq)]
pub enum EntryRead {
    /// There is none left.
    End,
    Failed { dir: String, error: String },
    Found { shown: String, name: Vec<u8>, kind: Result<LocalKind, String> },
}

/// What came of an action. Places are as they are shown.
#[derive(Debug, PartialEq, Eq)]
pub enum CopyAnswer {
    /// Of `CreateDirectory` and `CreateParent`.
    Created(Result<(), String>),
    /// Of `OpenDirectory`.
    Opened { dir: String, result: Result<(), String> },
    /// Of `NextEntry`.
    Entry(EntryRead),
    /// Of `CopyFile`.
    Copied { from: String, to: String, result: Result<(), String> },
}

/// A copy goes on, or it has ended.
#[derive(Debug, PartialEq, Eq)]
pub enum CopyStep {
    Continue(CopyAction),
    Finished(Result<(), MarketplaceCmdError>),
}

pub enum CopyStepModel {
    Continue(CopyModel),
    Finished(Result<(), CmdErrorModel>),
}

impl View for CopyStep {
    type V = CopyStepModel;

    open spec fn view(&self) -> CopyStepModel {
        match *self {
            CopyStep::Continue(action) => CopyStepModel::Continue(action@),
            CopyStep::Finished(Ok(_)) => CopyStepModel::Finished(Ok(())),
            CopyStep::Finished(Err(error)) => CopyStepModel::Finished(Err(error@)),
        }
    }
}

pub open spec fn copy_fails(error: CmdErrorModel) -> CopyStepModel {
    CopyStepModel::Finished(Err(error))
}

/// What follows on an entry of a directory: directories are entered, files are
/// copied, anything else is passed over. The end of a directory leads back to
/// the one above it, and the end of the root ends the copy.
pub open spec fn after_entry(dir: Seq<Seq<u8>>, read: EntryRead) -> CopyStepModel {
    match read {
        EntryRead::End => if dir.len() == 0 {
            CopyStepModel::Finished(Ok(()))
        } else {
            CopyStepModel::Continue(CopyModel::NextEntry { dir: up(dir) })
        },
        EntryRead::Failed { dir: shown, error } => copy_fails(
            caused_error("failed to read local marketplace entry in "@ + shown@, error@),
        ),
        EntryRead::Found { shown, name, kind } => match kind {
            Err(error) => copy_fails(
                caused_error(
                    "failed to read file type for local marketplace entry "@ + shown@,
                    error@,
                ),
            ),
            Ok(LocalKind::Directory) => CopyStepModel::Continue(
                CopyModel::CreateDirectory { dir: dir.push(name@) },
            ),
            Ok(LocalKind::File) => CopyStepModel::Continue(
                CopyModel::CreateParent { file: dir.push(name@) },
            ),
            Ok(LocalKind::Other) => CopyStepModel::Continue(CopyModel::NextEntry { dir }),
        },
    }
}

/// What follows on an answer. One that is of another action changes nothing.
pub open spec fn copy_step(action: CopyModel, answer: CopyAnswer) -> CopyStepModel {
    match (action, answer) {
        (CopyModel::CreateDirectory { dir }, CopyAnswer::Created(Ok(_))) => {
            CopyStepModel::Continue(CopyModel::OpenDirectory { dir })
        },
        (CopyModel::CreateDirectory { dir }, CopyAnswer::Created(Err(error))) => copy_fails(
            plain_error(error@),
        ),
        (CopyModel::OpenDirectory { dir }, CopyAnswer::Opened { dir: shown, result }) => {
            match result {
                Ok(_) => CopyStepModel::Continue(CopyModel::NextEntry { dir }),
                Err(error) => copy_fails(
                    caused_error("failed to read local marketplace directory "@ + shown@, error@),
                ),
            }
        },
        (CopyModel::NextEntry { dir }, CopyAnswer::Entry(read)) => after_entry(dir, read),
        (CopyModel::CreateParent { file }, CopyAnswer::Created(Ok(_))) => CopyStepModel::Continue(
            CopyModel::CopyFile { file },
        ),
        (CopyModel::CreateParent { file }, CopyAnswer::Created(Err(error))) => copy_fails(
            plain_error(error@),
        ),
        (CopyModel::CopyFile { file }, CopyAnswer::Copied { from, to, result }) => match result {
            Ok(_) => CopyStepModel::Continue(CopyModel::NextEntry { dir: up(file) }),
            Err(error) => copy_fails(
                caused_error(
                    "failed to copy local marketplace file "@ + from@ + " to "@ + to@,
                    error@,
                ),
            ),
        },
        (action, _) => CopyStepModel::Continue(action),
    }
}

/// The copy of a tree.
#[derive(Debug, PartialEq, Eq)]
pub struct CopyFlow;

fn failed(message: String, cause: String) -> (r: CopyStep)
    ensures
        r@ == copy_fails(caused_error(message@, cause@)),
{
    CopyStep::Finished(Err(MarketplaceCmdError::caused(message, cause)))
}

fn below(dir: Vec<Vec<u8>>, name: Vec<u8>) -> (r: Vec<Vec<u8>>)
    ensures
        names_of(r@) == names_of(dir@).push(name@),
{
    let mut path = dir;
    path.push(name);
    assert(names_of(path@) =~= names_of(dir@).push(name@));
    path
}

fn above(path: Vec<Vec<u8>>) -> (r: Vec<Vec<u8>>)
    ensures
        names_of(r@) == up(names_of(path@)),
{
    let mut dir = path;
    dir.pop();
    assert(names_of(dir@) =~= up(names_of(path@)));
    dir
}

impl CopyFlow {
    /// Begins at the root of the tree.
    pub fn begin() -> (r: CopyAction)
        ensures
            r@ == (CopyModel::CreateDirectory { dir: Seq::<Seq<u8>>::empty() }),
    {
        let root: Vec<Vec<u8>> = Vec::new();
        assert(names_of(root@) =~= Seq::<Seq<u8>>::empty());
        CopyAction::CreateDirectory { dir: root }
    }

    /// Takes the answer to an action. One that is of another action changes
    /// nothing.
    pub fn advance(action: CopyAction, answer: CopyAnswer) -> (r: CopyStep)
        ensures
            r@ == copy_step(action@, answer),
    {
        match (action, answer) {
            (CopyAction::CreateDirectory { dir }, CopyAnswer::Created(Ok(_))) => {
                CopyStep::Continue(CopyAction::OpenDirectory { dir })
            },
            (CopyAction::CreateDirectory { .. }, CopyAnswer::Created(Err(error))) => {
                CopyStep::Finished(Err(MarketplaceCmdError::plain(error)))
            },
            (CopyAction::OpenDirectory { dir }, CopyAnswer::Opened { dir: shown, result }) => {
                match result {
                    Ok(_) => CopyStep::Continue(CopyAction::NextEntry { dir }),
                    Err(error) => failed(
                        "failed to read local marketplace directory ".to_owned().concat(
                            shown.as_str(),
                        ),
                        error,
                    ),
                }
            },
            (CopyAction::NextEntry { dir }, CopyAnswer::Entry(read)) => Self::after_entry(
                dir,
                read,
            ),
            (CopyAction::CreateParent { file }, CopyAnswer::Created(Ok(_))) => CopyStep::Continue(
                CopyAction::CopyFile { file },
            ),
            (CopyAction::CreateParent { .. }, CopyAnswer::Created(Err(error))) => {
                CopyStep::Finished(Err(MarketplaceCmdError::plain(error)))
            },
            (CopyAction::CopyFile { file }, CopyAnswer::Copied { from, to, result }) => {
                match result {
                    Ok(_) => CopyStep::Continue(CopyAction::NextEntry { dir: above(file) }),
                    Err(error) => failed(
                        "failed to copy local marketplace file ".to_owned().concat(
                            from.as_str(),
                        ).concat(" to ").concat(to.as_str()),
                        error,
                    ),
                }
            },
            (action, _) => CopyStep::Continue(action),
        }
    }

    fn after_entry(dir: Vec<Vec<u8>>, read: EntryRead) -> (r: CopyStep)
        ensures
            r@ == after_entry(names_of(dir@), read),
    {
        match read {
            EntryRead::End => if dir.len() == 0 {
                CopyStep::Finished(Ok(()))
            } else {
                CopyStep::Continue(CopyAction::NextEntry { dir: above(dir) })
            },
            EntryRead::Failed { dir: shown, error } => failed(
                "failed to read local marketplace entry in ".to_owned().concat(shown.as_str()),
                error,
            ),
            EntryRead::Found { shown, name, kind } => match kind {
                Err(error) => failed(
                    "failed to read file type for local marketplace entry ".to_owned().concat(
                        shown.as_str(),
                    ),
                    error,
                ),
                Ok(LocalKind::Directory) => CopyStep::Continue(
                    CopyAction::CreateDirectory { dir: below(dir, name) },
                ),
                Ok(LocalKind::File) => CopyStep::Continue(
                    CopyAction::CreateParent { file: below(dir, name) },
                ),
                Ok(LocalKind::Other) => CopyStep::Continue(CopyAction::NextEntry { dir }),
            },
        }
    }
}

/// The directory that is open while an action is done: the one that the place of
/// the action lies in, or the one that is being read.
pub open spec fn open_dir(action: CopyModel) -> Option<Seq<Seq<u8>>> {
    match action {
        CopyModel::CreateDirectory { dir } | CopyModel::OpenDirectory { dir } => if dir.len() == 0 {
            None
        } else {
            Some(dir.drop_last())
        },
        CopyModel::NextEntry { dir } => Some(dir),
        CopyModel::CreateParent { file } | CopyModel::CopyFile { file } => Some(file.drop_last()),
    }
}

/// A file lies in a directory.
pub open spec fn has_place(action: CopyModel) -> bool {
    match action {
        CopyModel::CreateParent { file } | CopyModel::CopyFile { file } => file.len() > 0,
        _ => true,
    }
}

/// The walk stays in the tree and keeps to its directories. From one action to
/// the next the open directory stays the same, is one that was entered below it,
/// or is the one above it.
pub proof fn law_the_copy_keeps_to_the_tree(action: CopyModel, answer: CopyAnswer)
    requires
        has_place(action),
    ensures
        copy_step(action, answer) matches CopyStepModel::Continue(next) ==> {
            &&& has_place(next)
            &&& {
                ||| open_dir(next) == open_dir(action)
                ||| action matches CopyModel::OpenDirectory { dir } && open_dir(next) == Some(dir)
                ||| action matches CopyModel::NextEntry { dir } && dir.len() > 0 && open_dir(next)
                    == Some(dir.drop_last())
            }
        },
{
    if let CopyModel::NextEntry { dir } = action {
        if let CopyAnswer::Entry(EntryRead::Found { name, .. }) = answer {
            assert(dir.push(name@).drop_last() =~= dir);
        }
    }
}

/// A directory whose files and other entries have been dealt with is left when
/// it ends, and the walk goes on in the directory above: what follows the end of
/// a directory that was entered is what would have followed on an entry that is
/// passed over.
pub proof fn law_a_directory_returns_to_where_it_was_entered(
    dir: Seq<Seq<u8>>,
    shown: String,
    name: Vec<u8>,
)
    ensures
        ({
            let inside = dir.push(name@);
            let passed = EntryRead::Found { shown, name, kind: Ok(LocalKind::Other) };
            let entered = EntryRead::Found { shown, name, kind: Ok(LocalKind::Directory) };
            &&& after_entry(dir, entered) == CopyStepModel::Continue(
                CopyModel::CreateDirectory { dir: inside },
            )
            &&& after_entry(inside, EntryRead::End) == after_entry(dir, passed)
        }),
{
    assert(dir.push(name@).drop_last() =~= dir);
}

/// What lies at a place of a tree.
pub enum TreeNode {
    /// A directory, with its entries in the order in which they are read.
    Directory(Seq<TreeEntry>),
    File,
    Other,
}

/// An entry of a directory.
pub struct TreeEntry {
    pub name: Vec<u8>,
    pub node: TreeNode,
}

pub open spec fn kind_of(node: TreeNode) -> LocalKind {
    match node {
        TreeNode::Directory(_) => LocalKind::Directory,
        TreeNode::File => LocalKind::File,
        TreeNode::Other => LocalKind::Other,
    }
}

/// How places of the tree and of the copy are shown.
pub struct Shown {
    pub source: spec_fn(Seq<Seq<u8>>) -> String,
    pub target: spec_fn(Seq<Seq<u8>>) -> String,
}

/// The answer that reads an entry.
pub open spec fn reads_entry(shown: Shown, dir: Seq<Seq<u8>>, entry: TreeEntry) -> CopyAnswer {
    CopyAnswer::Entry(
        EntryRead::Found {
            shown: (shown.source)(dir.push(entry.name@)),
            name: entry.name,
            kind: Ok(kind_of(entry.node)),
        },
    )
}

/// The answers that create and open a directory.
pub open spec fn entering_answers(shown: Shown, dir: Seq<Seq<u8>>) -> Seq<CopyAnswer> {
    seq![
        CopyAnswer::Created(Ok(())),
        CopyAnswer::Opened { dir: (shown.source)(dir), result: Ok(()) },
    ]
}

/// The answers of reading the entries of a directory and of what follows on each,
/// when nothing fails.
pub open spec fn entries_answers(
    shown: Shown,
    dir: Seq<Seq<u8>>,
    entries: Seq<TreeEntry>,
) -> Seq<CopyAnswer>
    decreases entries,
{
    if entries.len() == 0 {
        Seq::empty()
    } else {
        let entry = entries[0];
        let place = dir.push(entry.name@);
        let follows = match entry.node {
            TreeNode::Directory(inner) => entering_answers(shown, place) + entries_answers(
                shown,
                place,
                inner,
            ) + seq![CopyAnswer::Entry(EntryRead::End)],
            TreeNode::File => seq![
                CopyAnswer::Created(Ok(())),
                CopyAnswer::Copied {
                    from: (shown.source)(place),
                    to: (shown.target)(place),
                    result: Ok(()),
                },
            ],
            TreeNode::Other => Seq::empty(),
        };
        seq![reads_entry(shown, dir, entry)] + follows + entries_answers(
            shown,
            dir,
            entries.subrange(1, entries.len() as int),
        )
    }
}

/// The answers of copying a tree when nothing fails.
pub open spec fn tree_answers(shown: Shown, entries: Seq<TreeEntry>) -> Seq<CopyAnswer> {
    entering_answers(shown, Seq::empty()) + entries_answers(shown, Seq::empty(), entries)
        + seq![CopyAnswer::Entry(EntryRead::End)]
}

/// The action changes the copy.
pub open spec fn changes_copy(action: CopyModel) -> bool {
    action is CreateDirectory || action is CopyFile
}

/// What a copy has come to after some answers.
pub open spec fn copied_after(action: CopyModel, answers: Seq<CopyAnswer>) -> CopyStepModel
    decreases answers.len(),
{
    if answers.len() == 0 {
        CopyStepModel::Continue(action)
    } else {
        match copy_step(action, answers[0]) {
            CopyStepModel::Continue(next) => copied_after(
                next,
                answers.subrange(1, answers.len() as int),
            ),
            finished => finished,
        }
    }
}

/// The directories that were created and the files that were copied on the way, in
/// order.
pub open spec fn changes_made(action: CopyModel, answers: Seq<CopyAnswer>) -> Seq<CopyModel>
    decreases answers.len(),
{
    if answers.len() == 0 {
        Seq::empty()
    } else {
        let first = if changes_copy(action) {
            seq![action]
        } else {
            Seq::empty()
        };
        match copy_step(action, answers[0]) {
            CopyStepModel::Continue(next) => first + changes_made(
                next,
                answers.subrange(1, answers.len() as int),
            ),
            CopyStepModel::Finished(_) => first,
        }
    }
}

/// The directories and files below a directory, in the order in which they come to
/// the copy.
pub open spec fn copied_below(dir: Seq<Seq<u8>>, entries: Seq<TreeEntry>) -> Seq<CopyModel>
    decreases entries,
{
    if entries.len() == 0 {
        Seq::empty()
    } else {
        let entry = entries[0];
        let place = dir.push(entry.name@);
        let first = match entry.node {
            TreeNode::Directory(inner) => seq![CopyModel::CreateDirectory { dir: place }]
                + copied_below(place, inner),
            TreeNode::File => seq![CopyModel::CopyFile { file: place }],
            TreeNode::Other => Seq::empty(),
        };
        first + copied_below(dir, entries.subrange(1, entries.len() as int))
    }
}

proof fn lemma_copied_parts(action: CopyModel, a: Seq<CopyAnswer>, b: Seq<CopyAnswer>)
    ensures
        match copied_after(action, a) {
            CopyStepModel::Continue(next) => {
                &&& copied_after(action, a + b) == copied_after(next, b)
                &&& changes_made(action, a + b) == changes_made(action, a) + changes_made(next, b)
            },
            finished => {
                &&& copied_after(action, a + b) == finished
                &&& changes_made(action, a + b) == changes_made(action, a)
            },
        },
    decreases a.len(),
{
    if a.len() == 0 {
        assert(a + b =~= b);
        assert(changes_made(action, a) + changes_made(action, b) =~= changes_made(action, b));
    } else {
        let rest = a.subrange(1, a.len() as int);
        assert((a + b).subrange(1, (a + b).len() as int) =~= rest + b);
        if let CopyStepModel::Continue(next) = copy_step(action, a[0]) {
            lemma_copied_parts(next, rest, b);
            if let CopyStepModel::Continue(last) = copied_after(next, rest) {
                let first = if changes_copy(action) {
                    seq![action]
                } else {
                    Seq::empty()
                };
                assert(first + (changes_made(next, rest) + changes_made(last, b)) =~= (first
                    + changes_made(next, rest)) + changes_made(last, b));
            }
        }
    }
}

/// One answer.
proof fn lemma_one_answer(action: CopyModel, answer: CopyAnswer)
    ensures
        copied_after(action, seq![answer]) == copy_step(action, answer),
        changes_made(action, seq![answer]) == if changes_copy(action) {
            seq![action]
        } else {
            Seq::<CopyModel>::empty()
        },
{
    let one = seq![answer];
    assert(one.subrange(1, 1) =~= Seq::<CopyAnswer>::empty());
    reveal_with_fuel(copied_after, 2);
    reveal_with_fuel(changes_made, 2);
    assert(changes_made(action, one) =~= if changes_copy(action) {
        seq![action]
    } else {
        Seq::<CopyModel>::empty()
    });
}

/// Two answers.
proof fn lemma_two_answers(action: CopyModel, a: CopyAnswer, b: CopyAnswer)
    requires
        copy_step(action, a) is Continue,
    ensures
        ({
            let next = copy_step(action, a)->Continue_0;
            &&& copied_after(action, seq![a, b]) == copy_step(next, b)
            &&& changes_made(action, seq![a, b]) == changes_made(action, seq![a]) + changes_made(
                next,
                seq![b],
            )
        }),
{
    lemma_one_answer(action, a);
    lemma_copied_parts(action, seq![a], seq![b]);
    lemma_one_answer(copy_step(action, a)->Continue_0, b);
    assert(seq![a] + seq![b] =~= seq![a, b]);
}

/// Entering a directory creates it and leads to its first entry.
proof fn lemma_entering(shown: Shown, dir: Seq<Seq<u8>>)
    ensures
        copied_after(CopyModel::CreateDirectory { dir }, entering_answers(shown, dir))
            == CopyStepModel::Continue(CopyModel::NextEntry { dir }),
        changes_made(CopyModel::CreateDirectory { dir }, entering_answers(shown, dir)) == seq![
            CopyModel::CreateDirectory { dir },
        ],
{
    let create = CopyModel::CreateDirectory { dir };
    let open = CopyModel::OpenDirectory { dir };
    let answers = entering_answers(shown, dir);
    lemma_two_answers(create, answers[0], answers[1]);
    lemma_one_answer(create, answers[0]);
    lemma_one_answer(open, answers[1]);
    assert(answers =~= seq![answers[0], answers[1]]);
    assert(seq![create] + Seq::<CopyModel>::empty() =~= seq![create]);
}

/// Reading the entries of a directory copies what lies below it and leads to the
/// end of the directory.
proof fn lemma_entries(shown: Shown, dir: Seq<Seq<u8>>, entries: Seq<TreeEntry>)
    ensures
        copied_after(CopyModel::NextEntry { dir }, entries_answers(shown, dir, entries))
            == CopyStepModel::Continue(CopyModel::NextEntry { dir }),
        changes_made(CopyModel::NextEntry { dir }, entries_answers(shown, dir, entries))
            == copied_below(dir, entries),
    decreases entries,
{
    let at = CopyModel::NextEntry { dir };
    if entries.len() > 0 {
        let entry = entries[0];
        let place = dir.push(entry.name@);
        let rest = entries.subrange(1, entries.len() as int);
        let read = reads_entry(shown, dir, entry);
        let end = CopyAnswer::Entry(EntryRead::End);
        let none = Seq::<CopyModel>::empty();
        lemma_entries(shown, dir, rest);
        lemma_one_answer(at, read);
        assert(up(place) =~= dir);
        match entry.node {
            TreeNode::Directory(inner) => {
                let create = CopyModel::CreateDirectory { dir: place };
                let inside = CopyModel::NextEntry { dir: place };
                let entering = entering_answers(shown, place);
                let below = entries_answers(shown, place, inner);
                lemma_entering(shown, place);
                lemma_entries(shown, place, inner);
                lemma_one_answer(inside, end);
                lemma_copied_parts(create, entering, below);
                lemma_copied_parts(create, entering + below, seq![end]);
                let follows = entering + below + seq![end];
                assert(changes_made(create, follows) =~= seq![create] + copied_below(place, inner));
                lemma_copied_parts(at, seq![read], follows);
                lemma_copied_parts(at, seq![read] + follows, entries_answers(shown, dir, rest));
                assert(none + (seq![create] + copied_below(place, inner)) =~= seq![create]
                    + copied_below(place, inner));
            },
            TreeNode::File => {
                let parent = CopyModel::CreateParent { file: place };
                let copy = CopyModel::CopyFile { file: place };
                let made = CopyAnswer::Created(Ok(()));
                let copied = CopyAnswer::Copied {
                    from: (shown.source)(place),
                    to: (shown.target)(place),
                    result: Ok(()),
                };
                lemma_one_answer(parent, made);
                lemma_one_answer(copy, copied);
                lemma_two_answers(parent, made, copied);
                let follows = seq![made, copied];
                assert(changes_made(parent, follows) =~= seq![copy]);
                lemma_copied_parts(at, seq![read], follows);
                lemma_copied_parts(at, seq![read] + follows, entries_answers(shown, dir, rest));
                assert(none + seq![copy] =~= seq![copy]);
            },
            TreeNode::Other => {
                let follows = Seq::<CopyAnswer>::empty();
                assert(seq![read] + follows =~= seq![read]);
                lemma_copied_parts(at, seq![read], entries_answers(shown, dir, rest));
            },
        }
    }
}

/// A copy of a tree, when nothing fails, succeeds, and has created and copied what
/// lies in the tree, from the root on.
pub proof fn law_a_copy_walks_the_whole_tree(shown: Shown, entries: Seq<TreeEntry>)
    ensures
        ({
            let root = CopyModel::CreateDirectory { dir: Seq::<Seq<u8>>::empty() };
            &&& copied_after(root, tree_answers(shown, entries)) == CopyStepModel::Finished(Ok(()))
            &&& changes_made(root, tree_answers(shown, entries)) == seq![root] + copied_below(
                Seq::empty(),
                entries,
            )
        }),
{
    let top = Seq::<Seq<u8>>::empty();
    let root = CopyModel::CreateDirectory { dir: top };
    let at = CopyModel::NextEntry { dir: top };
    let end = CopyAnswer::Entry(EntryRead::End);
    let entering = entering_answers(shown, top);
    let below = entries_answers(shown, top, entries);
    lemma_entering(shown, top);
    lemma_entries(shown, top, entries);
    lemma_one_answer(at, end);
    lemma_copied_parts(root, entering, below);
    lemma_copied_parts(root, entering + below, seq![end]);
    assert(seq![root] + copied_below(top, entries) + Seq::<CopyModel>::empty() =~= seq![root]
        + copied_below(top, entries));
}

/// The place that a change is made at.
pub open spec fn place_of(change: CopyModel) -> Seq<Seq<u8>> {
    match change {
        CopyModel::CreateDirectory { dir }
        | CopyModel::OpenDirectory { dir }
        | CopyModel::NextEntry { dir } => dir,
        CopyModel::CreateParent { file } | CopyModel::CopyFile { file } => file,
    }
}

/// The change that brings what is of that kind to the copy.
pub open spec fn change_for(kind: LocalKind, place: Seq<Seq<u8>>) -> CopyModel {
    match kind {
        LocalKind::Directory => CopyModel::CreateDirectory { dir: place },
        _ => CopyModel::CopyFile { file: place },
    }
}

/// Something of that kind lies at that place of a tree.
pub open spec fn lies_at(entries: Seq<TreeEntry>, path: Seq<Seq<u8>>, kind: LocalKind) -> bool
    decreases path.len(),
{
    path.len() > 0 && exists|i: int|
        #![trigger entries[i]]
        0 <= i < entries.len() && entries[i].name@ == path[0] && if path.len() == 1 {
            kind_of(entries[i].node) == kind
        } else {
            match entries[i].node {
                TreeNode::Directory(inner) => lies_at(
                    inner,
                    path.subrange(1, path.len() as int),
                    kind,
                ),
                _ => false,
            }
        }
}

/// No directory has two entries of one name.
pub open spec fn distinct_names(entries: Seq<TreeEntry>) -> bool
    decreases entries,
{
    entries.len() == 0 || {
        &&& forall|j: int|
            0 < j < entries.len() ==> (#[trigger] entries[j]).name@ != entries[0].name@
        &&& match entries[0].node {
            TreeNode::Directory(inner) => distinct_names(inner),
            _ => true,
        }
        &&& distinct_names(entries.subrange(1, entries.len() as int))
    }
}

/// What lies among the later entries lies among all.
proof fn lemma_lies_later(entries: Seq<TreeEntry>, path: Seq<Seq<u8>>, kind: LocalKind)
    requires
        entries.len() > 0,
        lies_at(entries.subrange(1, entries.len() as int), path, kind),
    ensures
        lies_at(entries, path, kind),
        exists|j: int| 0 < j < entries.len() && (#[trigger] entries[j]).name@ == path[0],
{
    let rest = entries.subrange(1, entries.len() as int);
    let i = choose|i: int|
        #![trigger rest[i]]
        0 <= i < rest.len() && rest[i].name@ == path[0] && if path.len() == 1 {
            kind_of(rest[i].node) == kind
        } else {
            match rest[i].node {
                TreeNode::Directory(inner) => lies_at(
                    inner,
                    path.subrange(1, path.len() as int),
                    kind,
                ),
                _ => false,
            }
        };
    assert(entries[i + 1] == rest[i]);
}

/// What comes to the copy lies in the tree, below the directory.
proof fn lemma_copied_lies_below(
    dir: Seq<Seq<u8>>,
    entries: Seq<TreeEntry>,
    change: CopyModel,
) -> (below: Seq<Seq<u8>>)
    requires
        copied_below(dir, entries).contains(change),
    ensures
        below.len() > 0,
        change == change_for(LocalKind::Directory, dir + below) && lies_at(
            entries,
            below,
            LocalKind::Directory,
        ) || change == change_for(LocalKind::File, dir + below) && lies_at(
            entries,
            below,
            LocalKind::File,
        ),
    decreases entries,
{
    let entry = entries[0];
    let place = dir.push(entry.name@);
    let rest = entries.subrange(1, entries.len() as int);
    let all = copied_below(dir, entries);
    let later = copied_below(dir, rest);
    let at = choose|at: int| 0 <= at < all.len() && all[at] == change;
    let firsts = all.len() - later.len();
    if at >= firsts {
        assert(later[at - firsts] == change);
        let below = lemma_copied_lies_below(dir, rest, change);
        if lies_at(rest, below, LocalKind::Directory) {
            lemma_lies_later(entries, below, LocalKind::Directory);
        }
        if lies_at(rest, below, LocalKind::File) {
            lemma_lies_later(entries, below, LocalKind::File);
        }
        below
    } else if at == 0 {
        let below = seq![entry.name@];
        assert(dir + below =~= place);
        assert(entries[0].name@ == below[0]);
        below
    } else {
        let inner = entry.node->Directory_0;
        assert(copied_below(place, inner)[at - 1] == change);
        let deeper = lemma_copied_lies_below(place, inner, change);
        let below = seq![entry.name@] + deeper;
        assert(dir + below =~= place + deeper);
        assert(below.subrange(1, below.len() as int) =~= deeper);
        assert(entries[0].name@ == below[0]);
        below
    }
}

/// What lies in the tree below the directory comes to the copy.
proof fn lemma_what_lies_below_is_copied(
    dir: Seq<Seq<u8>>,
    entries: Seq<TreeEntry>,
    below: Seq<Seq<u8>>,
    kind: LocalKind,
)
    requires
        kind != LocalKind::Other,
        lies_at(entries, below, kind),
    ensures
        copied_below(dir, entries).contains(change_for(kind, dir + below)),
    decreases entries,
{
    let i = choose|i: int|
        #![trigger entries[i]]
        0 <= i < entries.len() && entries[i].name@ == below[0] && if below.len() == 1 {
            kind_of(entries[i].node) == kind
        } else {
            match entries[i].node {
                TreeNode::Directory(inner) => lies_at(
                    inner,
                    below.subrange(1, below.len() as int),
                    kind,
                ),
                _ => false,
            }
        };
    let change = change_for(kind, dir + below);
    let place = dir.push(entries[0].name@);
    let rest = entries.subrange(1, entries.len() as int);
    let all = copied_below(dir, entries);
    let later = copied_below(dir, rest);
    let firsts = all.len() - later.len();
    if i > 0 {
        assert(rest[i - 1] == entries[i]);
        lemma_what_lies_below_is_copied(dir, rest, below, kind);
        let at = choose|at: int| 0 <= at < later.len() && later[at] == change;
        assert(all[firsts + at] == change);
    } else if below.len() == 1 {
        assert(dir + below =~= place);
        assert(all[0] == change);
    } else {
        let inner = entries[0].node->Directory_0;
        let deeper = below.subrange(1, below.len() as int);
        assert(dir + below =~= place + deeper);
        lemma_what_lies_below_is_copied(place, inner, deeper, kind);
        let inside = copied_below(place, inner);
        let at = choose|at: int| 0 <= at < inside.len() && inside[at] == change;
        assert(all[at + 1] == change);
    }
}

/// Nothing comes to the copy twice.
proof fn lemma_copied_once(dir: Seq<Seq<u8>>, entries: Seq<TreeEntry>)
    requires
        distinct_names(entries),
    ensures
        copied_below(dir, entries).no_duplicates(),
    decreases entries,
{
    if entries.len() > 0 {
        let entry = entries[0];
        let place = dir.push(entry.name@);
        let rest = entries.subrange(1, entries.len() as int);
        let all = copied_below(dir, entries);
        let later = copied_below(dir, rest);
        let firsts = all.len() - later.len();
        lemma_copied_once(dir, rest);
        if let TreeNode::Directory(inner) = entry.node {
            lemma_copied_once(place, inner);
        }
        assert forall|i: int, j: int| 0 <= i < j < all.len() implies all[i] != all[j] by {
            if i >= firsts {
                assert(all[i] == later[i - firsts] && all[j] == later[j - firsts]);
            } else {
                if i > 0 {
                    let inside = copied_below(place, entry.node->Directory_0);
                    assert(all[i] == inside[i - 1]);
                    lemma_first_place(place, entry.node->Directory_0, all[i]);
                }
                if j >= firsts {
                    assert(all[j] == later[j - firsts]);
                    assert(later.contains(all[j]));
                    let below = lemma_copied_lies_below(dir, rest, all[j]);
                    assert((dir + below)[dir.len() as int] == below[0]);
                    if lies_at(rest, below, LocalKind::Directory) {
                        lemma_lies_later(entries, below, LocalKind::Directory);
                    } else {
                        lemma_lies_later(entries, below, LocalKind::File);
                    }
                    assert(below[0] != entry.name@);
                    assert(place[dir.len() as int] == entry.name@);
                    assert(place_of(all[i])[dir.len() as int] == entry.name@);
                } else {
                    let inside = copied_below(place, entry.node->Directory_0);
                    assert(all[j] == inside[j - 1]);
                    lemma_first_place(place, entry.node->Directory_0, all[j]);
                    if i > 0 {
                        assert(inside[i - 1] != inside[j - 1]);
                    }
                }
            }
        }
    }
}

/// What comes to the copy below a directory has a place below it.
proof fn lemma_first_place(dir: Seq<Seq<u8>>, entries: Seq<TreeEntry>, change: CopyModel)
    requires
        copied_below(dir, entries).contains(change),
    ensures
        place_of(change).len() > dir.len(),
        place_of(change).subrange(0, dir.len() as int) == dir,
        forall|i: int| 0 <= i < dir.len() ==> #[trigger] place_of(change)[i] == dir[i],
{
    let below = lemma_copied_lies_below(dir, entries, change);
    assert((dir + below).subrange(0, dir.len() as int) =~= dir);
}

/// A copy of a tree, when nothing fails, creates each directory of the tree and
/// copies each of its files exactly once, at its own place, and does nothing else.
pub proof fn law_a_copy_brings_everything_once(shown: Shown, entries: Seq<TreeEntry>)
    requires
        distinct_names(entries),
    ensures
        ({
            let root = CopyModel::CreateDirectory { dir: Seq::<Seq<u8>>::empty() };
            let made = changes_made(root, tree_answers(shown, entries));
            &&& copied_after(root, tree_answers(shown, entries)) == CopyStepModel::Finished(Ok(()))
            &&& made.no_duplicates()
            &&& forall|dir: Seq<Seq<u8>>|
                #[trigger] made.contains(CopyModel::CreateDirectory { dir }) <==> (dir.len() == 0
                    || lies_at(entries, dir, LocalKind::Directory))
            &&& forall|file: Seq<Seq<u8>>|
                #[trigger] made.contains(CopyModel::CopyFile { file }) <==> lies_at(
                    entries,
                    file,
                    LocalKind::File,
                )
            &&& forall|change: CopyModel| #[trigger] made.contains(change) ==> changes_copy(change)
        }),
{
    let top = Seq::<Seq<u8>>::empty();
    let root = CopyModel::CreateDirectory { dir: top };
    let made = changes_made(root, tree_answers(shown, entries));
    let below = copied_below(top, entries);
    law_a_copy_walks_the_whole_tree(shown, entries);
    lemma_copied_once(top, entries);
    assert forall|change: CopyModel| made.contains(change) implies change == root
        || #[trigger] below.contains(change) by {
        let at = choose|at: int| 0 <= at < made.len() && made[at] == change;
        if at > 0 {
            assert(below[at - 1] == change);
        }
    }
    assert forall|change: CopyModel| below.contains(change) implies #[trigger] made.contains(
        change,
    ) by {
        let at = choose|at: int| 0 <= at < below.len() && below[at] == change;
        assert(made[at + 1] == change);
    }
    assert(made[0] == root);
    assert forall|i: int, j: int| 0 <= i < j < made.len() implies made[i] != made[j] by {
        assert(made[j] == below[j - 1]);
        if i == 0 {
            lemma_first_place(top, entries, below[j - 1]);
        } else {
            assert(made[i] == below[i - 1]);
        }
    }
    assert(made.no_duplicates());
    assert forall|dir: Seq<Seq<u8>>|
        #[trigger] made.contains(CopyModel::CreateDirectory { dir }) <==> (dir.len() == 0
            || lies_at(entries, dir, LocalKind::Directory)) by {
        lemma_made(entries, LocalKind::Directory, dir);
        if dir.len() == 0 {
            assert(dir =~= top);
        }
    }
    assert forall|file: Seq<Seq<u8>>|
        #[trigger] made.contains(CopyModel::CopyFile { file }) <==> lies_at(
            entries,
            file,
            LocalKind::File,
        ) by {
        lemma_made(entries, LocalKind::File, file);
    }
    assert forall|change: CopyModel| #[trigger] made.contains(change) implies changes_copy(
        change,
    ) by {
        if change != root {
            assert(below.contains(change));
            let path = lemma_copied_lies_below(top, entries, change);
        }
    }
}

/// What comes to the copy from the root is what lies in the tree.
proof fn lemma_made(entries: Seq<TreeEntry>, kind: LocalKind, path: Seq<Seq<u8>>)
    requires
        kind != LocalKind::Other,
    ensures
        copied_below(Seq::empty(), entries).contains(change_for(kind, path)) <==> lies_at(
            entries,
            path,
            kind,
        ),
{
    let top = Seq::<Seq<u8>>::empty();
    assert(top + path =~= path);
    if lies_at(entries, path, kind) {
        lemma_what_lies_below_is_copied(top, entries, path, kind);
    }
    if copied_below(top, entries).contains(change_for(kind, path)) {
        let below = lemma_copied_lies_below(top, entries, change_for(kind, path));
        assert(top + below =~= below);
    }
}

/// Whatever fails while a tree is copied ends the copy with an error that has the
/// cause in it, and, but for directories that could not be created, the place.
pub proof fn law_a_copy_ends_with_the_first_failure(
    place: Seq<Seq<u8>>,
    cause: String,
    from: String,
    to: String,
    name: Vec<u8>,
)
    ensures
        copy_step(
            CopyModel::CreateDirectory { dir: place },
            CopyAnswer::Created(Err(cause)),
        ) == CopyStepModel::Finished(Err(CmdErrorModel { message: cause@, cause: None })),
        copy_step(
            CopyModel::CreateParent { file: place },
            CopyAnswer::Created(Err(cause)),
        ) == CopyStepModel::Finished(Err(CmdErrorModel { message: cause@, cause: None })),
        copy_step(
            CopyModel::OpenDirectory { dir: place },
            CopyAnswer::Opened { dir: from, result: Err(cause) },
        ) matches CopyStepModel::Finished(Err(error)) && error.cause == Some(cause@) && ends_with(
            error.message,
            from@,
        ),
        copy_step(
            CopyModel::NextEntry { dir: place },
            CopyAnswer::Entry(EntryRead::Failed { dir: from, error: cause }),
        ) matches CopyStepModel::Finished(Err(error)) && error.cause == Some(cause@) && ends_with(
            error.message,
            from@,
        ),
        copy_step(
            CopyModel::NextEntry { dir: place },
            CopyAnswer::Entry(EntryRead::Found { shown: from, name, kind: Err(cause) }),
        ) matches CopyStepModel::Finished(Err(error)) && error.cause == Some(cause@) && ends_with(
            error.message,
            from@,
        ),
        copy_step(
            CopyModel::CopyFile { file: place },
            CopyAnswer::Copied { from, to, result: Err(cause) },
        ) matches CopyStepModel::Finished(Err(error)) && error.cause == Some(cause@) && ends_with(
            error.message,
            from@ + " to "@ + to@,
        ),
{
    law_suffixes_come_last("failed to read local marketplace directory "@, from@);
    law_suffixes_come_last("failed to read local marketplace entry in "@, from@);
    law_suffixes_come_last("failed to read file type for local marketplace entry "@, from@);
    let copy = "failed to copy local marketplace file "@;
    assert(copy + from@ + " to "@ + to@ =~= copy + (from@ + " to "@ + to@));
    law_suffixes_come_last(copy, from@ + " to "@ + to@);
}

/// An answer that is of another action changes nothing.
pub proof fn law_answers_of_other_actions_change_nothing(action: CopyModel, answer: CopyAnswer)
    requires
        match action {
            CopyModel::CreateDirectory { .. } | CopyModel::CreateParent { .. } => !(
            answer is Created),
            CopyModel::OpenDirectory { .. } => !(answer is Opened),
            CopyModel::NextEntry { .. } => !(answer is Entry),
            CopyModel::CopyFile { .. } => !(answer is Copied),
        },
    ensures
        copy_step(action, answer) == CopyStepModel::Continue(action),
{
}

} // verus!
