//! The `watch` tools: an agent asks for a command to be polled in the
//! background, and is given a new turn when the command's output has changed.

use crate::text::{
    blank, chars_of, decimal, decimal_of, decode_lossy, is_among, lemma_blank_is_trimmed_away, lines,
    lines_of, same_text, string_of, trim, trimmed, utf8_lossy,
};
use crate::watch_spec::{create_watch_tool, is_watch_tool, ToolSpec, WATCH_TOOL_NAME};
use vstd::prelude::*;
use vstd::utf8::{decode_utf8, valid_utf8};

verus! {

pub const MIN_INTERVAL_SECS: u64 = 2;

pub const DEFAULT_INTERVAL_SECS: u64 = 10;

/// Cap on the changed output that is delivered to the model, so that one watch
/// tick cannot blow the context window.
pub const MAX_OUTPUT_CHARS: usize = 4000;

/// Maximum concurrent watches per session.
pub const MAX_WATCHES: usize = 8;

/// A watch stops after this many consecutive command failures.
pub const MAX_CONSECUTIVE_FAILURES: u32 = 5;

/// After a reaction the next poll waits this many intervals more, so that
/// reactions do not stack while one is in flight.
pub const COOLDOWN_INTERVALS: u64 = 3;

/// `text`, or its first `max` characters and a mark.
pub open spec fn truncated(text: Seq<char>, max: nat) -> Seq<char> {
    if text.len() <= max {
        text
    } else {
        text.take(max as int) + "…[truncated]"@
    }
}

/// The lines of `of` that `other` lacks, each once, in the order in which they
/// first come.
pub open spec fn lines_only_in(of: Seq<Seq<char>>, other: Seq<Seq<char>>) -> Seq<Seq<char>>
    decreases of.len(),
{
    if of.len() == 0 {
        Seq::empty()
    } else {
        let before = lines_only_in(of.drop_last(), other);
        if other.contains(of.last()) || before.contains(of.last()) {
            before
        } else {
            before.push(of.last())
        }
    }
}

/// The lines, each with `mark` before it and a line feed after it.
pub open spec fn marked(mark: Seq<char>, lines: Seq<Seq<char>>) -> Seq<char>
    decreases lines.len(),
{
    if lines.len() == 0 {
        Seq::empty()
    } else {
        marked(mark, lines.drop_last()) + mark + lines.last() + seq!['\n']
    }
}

/// The lines of a text without the white space at their ends.
pub open spec fn trimmed_lines(text: Seq<char>) -> Seq<Seq<char>> {
    lines(text).map_values(|line: Seq<char>| trim(line))
}

/// What changed from `old_text` to `new_text`: added lines, then removed lines;
/// `new_text` itself where only the order, the number or the white space of the
/// lines changed.
pub open spec fn line_diff(old_text: Seq<char>, new_text: Seq<char>) -> Seq<char> {
    if trimmed_lines(old_text).to_set() == trimmed_lines(new_text).to_set() {
        new_text
    } else {
        marked("+ "@, lines_only_in(lines(new_text), lines(old_text))) + marked(
            "- "@,
            lines_only_in(lines(old_text), lines(new_text)),
        )
    }
}

pub fn truncate_chars(text: &str, max: usize) -> (r: String)
    ensures
        r@ == truncated(text@, max as nat),
{
    let chars = chars_of(text);
    if chars.len() <= max {
        text.to_owned()
    } else {
        string_of(chars.as_slice(), 0, max).concat("…[truncated]")
    }
}

/// The lines of `of` that `other` lacks, each once.
fn only_in(of: &Vec<String>, other: &Vec<String>) -> (r: Vec<String>)
    ensures
        r.deep_view() == lines_only_in(of.deep_view(), other.deep_view()),
{
    let mut out: Vec<String> = Vec::new();
    let mut i: usize = 0;
    let ghost all = of.deep_view();
    assert(out.deep_view() == Seq::<Seq<char>>::empty());
    while i < of.len()
        invariant
            i <= of@.len(),
            all == of.deep_view(),
            out.deep_view() == lines_only_in(all.subrange(0, i as int), other.deep_view()),
        decreases of.len() - i,
    {
        let ghost before = out.deep_view();
        assert(all.subrange(0, i + 1).drop_last() == all.subrange(0, i as int));
        assert(all.subrange(0, i + 1).last() == of@[i as int]@);
        let line = of[i].as_str();
        if !is_among(other, line) && !is_among(&out, line) {
            let copy = line.to_owned();
            out.push(copy);
            assert(out.deep_view() == before.push(copy@));
        }
        i = i + 1;
    }
    assert(all.subrange(0, i as int) == all);
    out
}

/// The lines, each with `mark` before it and a line feed after it.
fn with_mark(mark: &str, lines: &Vec<String>) -> (r: String)
    ensures
        r@ == marked(mark@, lines.deep_view()),
{
    let mut out = String::new();
    let mut i: usize = 0;
    let ghost all = lines.deep_view();
    while i < lines.len()
        invariant
            i <= lines@.len(),
            all == lines.deep_view(),
            out@ == marked(mark@, all.subrange(0, i as int)),
        decreases lines.len() - i,
    {
        assert(all.subrange(0, i + 1).drop_last() == all.subrange(0, i as int));
        assert(all.subrange(0, i + 1).last() == lines@[i as int]@);
        out.append(mark);
        out.append(lines[i].as_str());
        let ghost before = out@;
        out.push('\n');
        assert(out@ == before + seq!['\n']);
        i = i + 1;
    }
    assert(all.subrange(0, i as int) == all);
    out
}

/// The lines without the white space at their ends.
fn trim_each(lines: &Vec<String>) -> (r: Vec<String>)
    ensures
        r.deep_view() == lines.deep_view().map_values(|line: Seq<char>| trim(line)),
{
    let mut out: Vec<String> = Vec::new();
    let mut i: usize = 0;
    while i < lines.len()
        invariant
            i <= lines@.len(),
            out@.len() == i,
            forall|j: int| 0 <= j < i ==> (#[trigger] out@[j])@ == trim(lines@[j]@),
        decreases lines.len() - i,
    {
        out.push(trimmed(lines[i].as_str()));
        i = i + 1;
    }
    assert(out.deep_view() =~= lines.deep_view().map_values(|line: Seq<char>| trim(line)));
    out
}

/// Whether each of the lines is among the others.
fn all_among(lines: &Vec<String>, others: &Vec<String>) -> (r: bool)
    ensures
        r == lines.deep_view().to_set().subset_of(others.deep_view().to_set()),
{
    let mut i: usize = 0;
    while i < lines.len()
        invariant
            i <= lines@.len(),
            forall|j: int|
                0 <= j < i ==> others.deep_view().contains(#[trigger] lines.deep_view()[j]),
        decreases lines.len() - i,
    {
        if !is_among(others, lines[i].as_str()) {
            assert(lines.deep_view().to_set().contains(lines.deep_view()[i as int]));
            return false;
        }
        i = i + 1;
    }
    true
}

/// Compact line diff (added `+`/removed `-` lines) between two captures, so the
/// agent receives what CHANGED rather than the whole output. Falls back to the
/// new output when the change is only reordering/whitespace.
pub fn diff_lines(old_text: &str, new_text: &str) -> (r: String)
    ensures
        r@ == line_diff(old_text@, new_text@),
{
    let old_lines = lines_of(old_text);
    let new_lines = lines_of(new_text);
    let old_trimmed = trim_each(&old_lines);
    let new_trimmed = trim_each(&new_lines);
    if all_among(&old_trimmed, &new_trimmed) && all_among(&new_trimmed, &old_trimmed) {
        assert(trimmed_lines(old_text@).to_set() =~= trimmed_lines(new_text@).to_set());
        return new_text.to_owned();
    }
    let added = only_in(&new_lines, &old_lines);
    let removed = only_in(&old_lines, &new_lines);
    with_mark("+ ", &added).concat(with_mark("- ", &removed).as_str())
}

/// A diff's lines are those that one side has and the other lacks, each once.
pub proof fn law_diff_holds_each_change_once(of: Seq<Seq<char>>, other: Seq<Seq<char>>)
    ensures
        lines_only_in(of, other).no_duplicates(),
        forall|line: Seq<char>|
            #![trigger lines_only_in(of, other).contains(line)]
            lines_only_in(of, other).contains(line) <==> of.contains(line) && !other.contains(line),
    decreases of.len(),
{
    if of.len() > 0 {
        let head = of.drop_last();
        let before = lines_only_in(head, other);
        let all = lines_only_in(of, other);
        law_diff_holds_each_change_once(head, other);
        assert(of == head.push(of.last()));
        assert forall|line: Seq<char>|
            #![trigger all.contains(line)]
            all.contains(line) <==> of.contains(line) && !other.contains(line) by {
            assert(of.contains(line) <==> head.contains(line) || line == of.last()) by {
                if head.contains(line) {
                    let i = choose|i: int| 0 <= i < head.len() && head[i] == line;
                    assert(of[i] == line);
                }
                if line == of.last() {
                    assert(of[of.len() - 1] == line);
                }
            }
            if all != before {
                assert(all.contains(line) <==> before.contains(line) || line == of.last()) by {
                    if before.contains(line) {
                        let i = choose|i: int| 0 <= i < before.len() && before[i] == line;
                        assert(all[i] == line);
                    }
                    if line == of.last() {
                        assert(all[all.len() - 1] == line);
                    }
                }
            }
            assert(before.contains(line) <==> head.contains(line) && !other.contains(line));
        }
    }
}

/// Two captures with the same lines, in whatever order and number and with
/// whatever white space at the ends of the lines, differ in no line: the new
/// capture is delivered as it is.
pub proof fn law_reordering_delivers_the_new_output(old_text: Seq<char>, new_text: Seq<char>)
    requires
        trimmed_lines(old_text).to_set() == trimmed_lines(new_text).to_set(),
    ensures
        line_diff(old_text, new_text) == new_text,
{
}

/// Any other change is told by at least one line that was added or removed.
pub proof fn law_other_changes_are_told_by_their_lines(old_text: Seq<char>, new_text: Seq<char>)
    requires
        trimmed_lines(old_text).to_set() != trimmed_lines(new_text).to_set(),
    ensures
        lines_only_in(lines(new_text), lines(old_text)).len() + lines_only_in(
            lines(old_text),
            lines(new_text),
        ).len() > 0,
{
    let a = lines(old_text);
    let b = lines(new_text);
    law_diff_holds_each_change_once(a, b);
    law_diff_holds_each_change_once(b, a);
    if lines_only_in(a, b).len() == 0 && lines_only_in(b, a).len() == 0 {
        lemma_trimmed_among(a, b);
        lemma_trimmed_among(b, a);
        assert(trimmed_lines(old_text).to_set() =~= trimmed_lines(new_text).to_set());
    }
}

/// Lines that are all among others are so too when they are trimmed.
proof fn lemma_trimmed_among(a: Seq<Seq<char>>, b: Seq<Seq<char>>)
    requires
        lines_only_in(a, b).len() == 0,
    ensures
        a.map_values(|line: Seq<char>| trim(line)).to_set().subset_of(
            b.map_values(|line: Seq<char>| trim(line)).to_set(),
        ),
{
    law_diff_holds_each_change_once(a, b);
    let ta = a.map_values(|line: Seq<char>| trim(line));
    let tb = b.map_values(|line: Seq<char>| trim(line));
    assert forall|line: Seq<char>| ta.to_set().contains(line) implies tb.to_set().contains(line) by {
        let i = choose|i: int| 0 <= i < ta.len() && ta[i] == line;
        assert(a.contains(a[i]));
        assert(!lines_only_in(a, b).contains(a[i]));
        let j = choose|j: int| 0 <= j < b.len() && b[j] == a[i];
        assert(tb[j] == line);
    }
}

/// What running the poll command came to.
#[derive(Clone, Debug, PartialEq, Eq)]
pub enum PollOutcome {
    /// The command ran to its end.
    Ran { success: bool, stdout: Vec<u8>, stderr: Vec<u8> },
    /// The command could not be run.
    NotRun { error: String },
}

/// Whether a poll succeeded, and its output: standard output, then standard
/// error, or why the command could not be run.
pub open spec fn poll_reading(outcome: PollOutcome) -> (bool, Seq<char>) {
    match outcome {
        PollOutcome::Ran { success, stdout, stderr } => (
            success,
            utf8_lossy(stdout@) + utf8_lossy(stderr@),
        ),
        PollOutcome::NotRun { error } => (false, error@),
    }
}

/// Whether a poll succeeded, and its output.
pub fn read_poll(outcome: &PollOutcome) -> (r: (bool, String))
    ensures
        (r.0, r.1@) == poll_reading(*outcome),
        *outcome matches PollOutcome::Ran { stdout, stderr, .. } ==> {
            &&& valid_utf8(stdout@) ==> utf8_lossy(stdout@) == decode_utf8(stdout@)
            &&& valid_utf8(stderr@) ==> utf8_lossy(stderr@) == decode_utf8(stderr@)
        },
{
    match outcome {
        PollOutcome::Ran { success, stdout, stderr } => {
            let mut combined = decode_lossy(stdout.as_slice());
            combined.append(decode_lossy(stderr.as_slice()).as_str());
            (*success, combined)
        },
        PollOutcome::NotRun { error } => (false, error.clone()),
    }
}

/// `listed` holds the lines of `of` that `other` lacks: all of them, each once, and
/// one before another where it comes first in `of`.
pub open spec fn lists_what_one_lacks(
    listed: Seq<Seq<char>>,
    of: Seq<Seq<char>>,
    other: Seq<Seq<char>>,
) -> bool {
    &&& forall|i: int|
        0 <= i < listed.len() ==> of.contains(#[trigger] listed[i]) && !other.contains(listed[i])
    &&& forall|q: int|
        0 <= q < of.len() && !other.contains(#[trigger] of[q]) ==> listed.contains(of[q])
    &&& forall|i: int, j: int| 0 <= i < j < listed.len() ==> listed[i] != listed[j]
    &&& forall|i: int, j: int, q: int|
        0 <= i < j < listed.len() && 0 <= q < of.len() && #[trigger] listed[j] == #[trigger] of[q]
            ==> of.take(q).contains(#[trigger] listed[i])
}

/// The lines, each on a line of its own behind `mark`.
pub open spec fn told(mark: Seq<char>, lines: Seq<Seq<char>>) -> Seq<char> {
    lines.map_values(|line: Seq<char>| mark + line + seq!['\n']).flatten()
}

/// `line` is, but for white space at its ends, one of `lines`.
pub open spec fn one_of_but_for_space(line: Seq<char>, lines: Seq<Seq<char>>) -> bool {
    exists|j: int| 0 <= j < lines.len() && trim(#[trigger] lines[j]) == trim(line)
}

/// Each of the lines is, but for white space at its ends, one of the others.
pub open spec fn among_but_for_space(lines: Seq<Seq<char>>, others: Seq<Seq<char>>) -> bool {
    forall|i: int| 0 <= i < lines.len() ==> one_of_but_for_space(#[trigger] lines[i], others)
}

proof fn lemma_lists_what_one_lacks(of: Seq<Seq<char>>, other: Seq<Seq<char>>)
    ensures
        lists_what_one_lacks(lines_only_in(of, other), of, other),
    decreases of.len(),
{
    law_diff_holds_each_change_once(of, other);
    let all = lines_only_in(of, other);
    assert forall|i: int| 0 <= i < all.len() implies of.contains(#[trigger] all[i])
        && !other.contains(all[i]) by {
        assert(all.contains(all[i]));
    }
    assert forall|q: int|
        0 <= q < of.len() && !other.contains(#[trigger] of[q]) implies all.contains(of[q]) by {
        assert(of.contains(of[q]));
    }
    if of.len() > 0 {
        let head = of.drop_last();
        let before = lines_only_in(head, other);
        lemma_lists_what_one_lacks(head, other);
        assert forall|i: int, j: int, q: int|
            0 <= i < j < all.len() && 0 <= q < of.len() && #[trigger] all[j] == #[trigger] of[q]
            implies of.take(q).contains(#[trigger] all[i]) by {
            assert(all[i] == before[i]);
            if j < before.len() && q < head.len() {
                assert(before[j] == head[q]);
                assert(head.take(q).contains(before[i]));
                assert(head.take(q) =~= of.take(q));
            } else {
                if q < head.len() {
                    assert(head[q] == of.last());
                    assert(before.contains(head[q]));
                }
                assert(of.take(q) =~= head);
                assert(head.contains(before[i]));
            }
        }
    }
}

proof fn lemma_marked_is_told(mark: Seq<char>, lines: Seq<Seq<char>>)
    ensures
        marked(mark, lines) == told(mark, lines),
    decreases lines.len(),
{
    let f = |line: Seq<char>| mark + line + seq!['\n'];
    if lines.len() == 0 {
        assert(lines.map_values(f) =~= Seq::<Seq<char>>::empty());
    } else {
        let head = lines.drop_last();
        lemma_marked_is_told(mark, head);
        assert(lines.map_values(f) =~= head.map_values(f).push(f(lines.last())));
        head.map_values(f).lemma_flatten_push(f(lines.last()));
        assert(marked(mark, head) + mark + lines.last() + seq!['\n'] =~= marked(mark, head) + f(
            lines.last(),
        ));
    }
}

/// Where two captures differ in more than the order, the number and the white
/// space of their lines, what is delivered is exactly this: every line that only
/// the new one has, behind `+ `, and then every line that only the old one has,
/// behind `- `, each once and in the order in which they first come.
pub proof fn law_a_diff_tells_every_line_that_came_or_went(
    old_text: Seq<char>,
    new_text: Seq<char>,
)
    requires
        !(among_but_for_space(lines(old_text), lines(new_text)) && among_but_for_space(
            lines(new_text),
            lines(old_text),
        )),
    ensures
        exists|added: Seq<Seq<char>>, removed: Seq<Seq<char>>|
            #![trigger told("+ "@, added), told("- "@, removed)]
            {
                &&& lists_what_one_lacks(added, lines(new_text), lines(old_text))
                &&& lists_what_one_lacks(removed, lines(old_text), lines(new_text))
                &&& line_diff(old_text, new_text) == told("+ "@, added) + told("- "@, removed)
            },
{
    let a = lines(old_text);
    let b = lines(new_text);
    lemma_same_trimmed(a, b);
    lemma_same_trimmed(b, a);
    let added = lines_only_in(b, a);
    let removed = lines_only_in(a, b);
    lemma_lists_what_one_lacks(b, a);
    lemma_lists_what_one_lacks(a, b);
    lemma_marked_is_told("+ "@, added);
    lemma_marked_is_told("- "@, removed);
    assert(line_diff(old_text, new_text) == told("+ "@, added) + told("- "@, removed));
}

/// Where they differ in no more than that, the new capture is delivered as it is.
pub proof fn law_same_lines_deliver_the_new_output(old_text: Seq<char>, new_text: Seq<char>)
    requires
        among_but_for_space(lines(old_text), lines(new_text)),
        among_but_for_space(lines(new_text), lines(old_text)),
    ensures
        line_diff(old_text, new_text) == new_text,
{
    lemma_same_trimmed(lines(old_text), lines(new_text));
    lemma_same_trimmed(lines(new_text), lines(old_text));
    assert(trimmed_lines(old_text).to_set() =~= trimmed_lines(new_text).to_set());
}

proof fn lemma_same_trimmed(a: Seq<Seq<char>>, b: Seq<Seq<char>>)
    ensures
        among_but_for_space(a, b) <==> a.map_values(
            |line: Seq<char>| trim(line),
        ).to_set().subset_of(b.map_values(|line: Seq<char>| trim(line)).to_set()),
{
    let ta = a.map_values(|line: Seq<char>| trim(line));
    let tb = b.map_values(|line: Seq<char>| trim(line));
    if among_but_for_space(a, b) {
        assert forall|line: Seq<char>| ta.to_set().contains(line) implies tb.to_set().contains(
            line,
        ) by {
            let i = choose|i: int| 0 <= i < ta.len() && ta[i] == line;
            assert(trim(a[i]) == line);
            assert(one_of_but_for_space(a[i], b));
            let j = choose|j: int| 0 <= j < b.len() && trim(#[trigger] b[j]) == trim(a[i]);
            assert(tb[j] == line);
        }
    }
    if ta.to_set().subset_of(tb.to_set()) {
        assert forall|i: int| 0 <= i < a.len() implies one_of_but_for_space(
            #[trigger] a[i],
            b,
        ) by {
            assert(ta[i] == trim(a[i]));
            assert(ta.to_set().contains(ta[i]));
            assert(tb.to_set().contains(ta[i]));
            let j = choose|j: int| 0 <= j < tb.len() && tb[j] == ta[i];
            assert(trim(b[j]) == trim(a[i]));
        }
    }
}

/// A text is delivered whole where it has no more characters than are allowed, and
/// otherwise by exactly that many from its beginning, and a mark.
pub proof fn law_only_what_is_too_long_is_cut(head: Seq<char>, tail: Seq<char>, max: nat)
    requires
        head.len() <= max,
        tail.len() > 0 ==> head.len() == max,
    ensures
        truncated(head + tail, max) == if tail.len() > 0 {
            head + "…[truncated]"@
        } else {
            head
        },
{
    assert((head + tail).take(head.len() as int) =~= head);
    if tail.len() == 0 {
        assert(head + tail =~= head);
    }
}

/// A poll's output is all of the command's standard output and then all of its
/// standard error, whether it succeeded or not.
pub proof fn law_a_poll_reads_both_outputs(success: bool, stdout: Vec<u8>, stderr: Vec<u8>)
    ensures
        ({
            let (read_success, output) = poll_reading(PollOutcome::Ran { success, stdout, stderr });
            let out = utf8_lossy(stdout@).len() as int;
            &&& read_success == success
            &&& output.len() == out + utf8_lossy(stderr@).len()
            &&& output.take(out) == utf8_lossy(stdout@)
            &&& output.skip(out) == utf8_lossy(stderr@)
        }),
{
    let out = utf8_lossy(stdout@);
    let err = utf8_lossy(stderr@);
    assert((out + err).take(out.len() as int) =~= out);
    assert((out + err).skip(out.len() as int) =~= err);
}

/// A command that could not be run is a failed poll, and its output says why.
pub proof fn law_a_command_that_is_not_run_fails(error: String)
    ensures
        poll_reading(PollOutcome::NotRun { error }) == (false, error@),
{
}

/// What a watch is to do after a poll.
#[derive(Clone, Debug, PartialEq, Eq)]
pub enum WatchAction {
    /// Poll again after the interval.
    Continue,
    /// Deliver `text` as a new turn, wait for the cooldown, then poll again.
    React { text: String },
    /// Deliver `notice` as a new turn, give the watch's slot back, and end.
    AutoStop { notice: String },
}

pub enum ActionModel {
    Continue,
    React { text: Seq<char> },
    AutoStop { notice: Seq<char> },
}

impl View for WatchAction {
    type V = ActionModel;

    open spec fn view(&self) -> ActionModel {
        match *self {
            WatchAction::Continue => ActionModel::Continue,
            WatchAction::React { text } => ActionModel::React { text: text@ },
            WatchAction::AutoStop { notice } => ActionModel::AutoStop { notice: notice@ },
        }
    }
}

/// A watch on the output of a command.
#[derive(Clone, Debug, PartialEq, Eq)]
pub struct CommandWatch {
    command: String,
    instruction: String,
    prev_poll: Option<String>,
    last_fired: Option<String>,
    consecutive_failures: u32,
}

/// What a watch remembers of its polls.
pub struct WatchModel {
    pub command: Seq<char>,
    pub instruction: Seq<char>,
    /// The output of the last successful poll.
    pub prev_poll: Option<Seq<char>>,
    /// The settled output that was last reacted to, or the first settled one.
    pub last_fired: Option<Seq<char>>,
    pub consecutive_failures: int,
}

impl View for CommandWatch {
    type V = WatchModel;

    closed spec fn view(&self) -> WatchModel {
        WatchModel {
            command: self.command@,
            instruction: self.instruction@,
            prev_poll: self.prev_poll.deep_view(),
            last_fired: self.last_fired.deep_view(),
            consecutive_failures: self.consecutive_failures as int,
        }
    }
}

impl WatchModel {
    /// The watch has not ended.
    pub open spec fn active(self) -> bool {
        0 <= self.consecutive_failures < MAX_CONSECUTIVE_FAILURES
    }
}

/// A watch that has not polled.
pub open spec fn fresh_watch(command: Seq<char>, instruction: Seq<char>) -> WatchModel {
    WatchModel {
        command,
        instruction,
        prev_poll: None,
        last_fired: None,
        consecutive_failures: 0,
    }
}

/// The turn that tells the agent that a watch has ended.
pub open spec fn auto_stop_notice(command: Seq<char>) -> Seq<char> {
    "[watch auto-stopped after "@ + decimal(MAX_CONSECUTIVE_FAILURES as nat)
        + " consecutive failures: `"@ + command
        + "`] No further action needed; this watch will no longer poll."@
}

/// The turn that makes the agent react to a change from `before` to `after`.
pub open spec fn reaction_text(
    instruction: Seq<char>,
    command: Seq<char>,
    before: Seq<char>,
    after: Seq<char>,
) -> Seq<char> {
    instruction + "\n\n[watch fired — `"@ + command + "` output changed]\n"@ + truncated(
        line_diff(before, after),
        MAX_OUTPUT_CHARS as nat,
    )
}

/// What a watch remembers after a poll, and what it is to do.
pub open spec fn polled(m: WatchModel, success: bool, output: Seq<char>) -> (
    WatchModel,
    ActionModel,
) {
    if !success {
        let failed = WatchModel { consecutive_failures: m.consecutive_failures + 1, ..m };
        if failed.active() {
            (failed, ActionModel::Continue)
        } else {
            (failed, ActionModel::AutoStop { notice: auto_stop_notice(m.command) })
        }
    } else {
        let seen = WatchModel { prev_poll: Some(output), consecutive_failures: 0, ..m };
        if m.prev_poll != Some(output) {
            // Not settled: the output differs from that of the poll before.
            (seen, ActionModel::Continue)
        } else {
            let settled = WatchModel { last_fired: Some(output), ..seen };
            match m.last_fired {
                // The first settled output is the baseline.
                None => (settled, ActionModel::Continue),
                Some(before) => if before == output {
                    (settled, ActionModel::Continue)
                } else {
                    (
                        settled,
                        ActionModel::React {
                            text: reaction_text(m.instruction, m.command, before, output),
                        },
                    )
                },
            }
        }
    }
}

impl CommandWatch {
    pub fn new(command: String, instruction: String) -> (r: Self)
        ensures
            r@ == fresh_watch(command@, instruction@),
            r@.active(),
    {
        CommandWatch {
            command,
            instruction,
            prev_poll: None,
            last_fired: None,
            consecutive_failures: 0,
        }
    }

    /// Whether the watch has not ended.
    pub fn is_active(&self) -> (r: bool)
        ensures
            r == self@.active(),
    {
        self.consecutive_failures < MAX_CONSECUTIVE_FAILURES
    }

    /// How many polls have failed since the last one that succeeded.
    pub fn consecutive_failures(&self) -> (r: u32)
        ensures
            r == self@.consecutive_failures,
    {
        self.consecutive_failures
    }

    /// Takes in the result of a poll.
    pub fn observe(&mut self, success: bool, output: String) -> (r: WatchAction)
        requires
            old(self)@.active(),
        ensures
            (final(self)@, r@) == polled(old(self)@, success, output@),
    {
        if !success {
            self.consecutive_failures = self.consecutive_failures + 1;
            if self.consecutive_failures >= MAX_CONSECUTIVE_FAILURES {
                let mut notice = "[watch auto-stopped after ".to_owned();
                notice.append(decimal_of(MAX_CONSECUTIVE_FAILURES as u64).as_str());
                notice.append(" consecutive failures: `");
                notice.append(self.command.as_str());
                notice.append("`] No further action needed; this watch will no longer poll.");
                return WatchAction::AutoStop { notice };
            }
            return WatchAction::Continue;
        }
        self.consecutive_failures = 0;
        let settled = match &self.prev_poll {
            Some(prev) => same_text(prev.as_str(), output.as_str()),
            None => false,
        };
        self.prev_poll = Some(output.clone());
        if !settled {
            return WatchAction::Continue;
        }
        let action = match &self.last_fired {
            None => WatchAction::Continue,
            Some(before) => {
                if same_text(before.as_str(), output.as_str()) {
                    WatchAction::Continue
                } else {
                    let diff = diff_lines(before.as_str(), output.as_str());
                    let mut text = self.instruction.clone();
                    text.append("\n\n[watch fired — `");
                    text.append(self.command.as_str());
                    text.append("` output changed]\n");
                    text.append(truncate_chars(diff.as_str(), MAX_OUTPUT_CHARS).as_str());
                    WatchAction::React { text }
                }
            },
        };
        self.last_fired = Some(output);
        action
    }
}

/// The seconds to wait after a reaction.
pub fn cooldown_secs(interval_secs: u64) -> (r: u64)
    requires
        interval_secs * 3 <= u64::MAX,
    ensures
        r == interval_secs * 3,
{
    interval_secs * COOLDOWN_INTERVALS
}

/// How long a watch waits before its next poll: the cooldown, and then the
/// interval.
#[derive(Clone, Copy, Debug, PartialEq, Eq, Structural)]
pub struct PollWait {
    pub cooldown_secs: u64,
    pub interval_secs: u64,
}

/// How long a watch that polls every `interval_secs` waits after an action: the
/// interval, and three intervals more after a reaction only. A watch that has
/// ended polls no more.
pub open spec fn waits(action: ActionModel, interval_secs: int) -> Option<int> {
    match action {
        ActionModel::Continue => Some(interval_secs),
        ActionModel::React { .. } => Some(COOLDOWN_INTERVALS * interval_secs + interval_secs),
        ActionModel::AutoStop { .. } => None,
    }
}

impl WatchAction {
    /// How long a watch that polls every `interval_secs` waits after the action
    /// before it polls again, if it does.
    pub fn wait(&self, interval_secs: u64) -> (r: Option<PollWait>)
        requires
            self is React ==> interval_secs * 3 <= u64::MAX,
        ensures
            match r {
                Some(wait) => {
                    &&& waits(self@, interval_secs as int) == Some(
                        wait.cooldown_secs + wait.interval_secs,
                    )
                    &&& wait.interval_secs == interval_secs
                },
                None => waits(self@, interval_secs as int) is None,
            },
    {
        match self {
            WatchAction::Continue => Some(PollWait { cooldown_secs: 0, interval_secs }),
            WatchAction::React { .. } => Some(
                PollWait { cooldown_secs: cooldown_secs(interval_secs), interval_secs },
            ),
            WatchAction::AutoStop { .. } => None,
        }
    }
}

/// A poll: whether it succeeded, and its output.
pub type Poll = (bool, Seq<char>);

/// What a watch remembers after `polls`.
pub open spec fn watch_after(m: WatchModel, polls: Seq<Poll>) -> WatchModel
    decreases polls.len(),
{
    if polls.len() == 0 {
        m
    } else {
        polled(watch_after(m, polls.drop_last()), polls.last().0, polls.last().1).0
    }
}

/// What a watch is to do after poll `k` of `polls`.
pub open spec fn action_at(m: WatchModel, polls: Seq<Poll>, k: int) -> ActionModel {
    polled(watch_after(m, polls.take(k)), polls[k].0, polls[k].1).1
}

/// How many failures `polls` ends in.
pub open spec fn trailing_failures(polls: Seq<Poll>) -> int
    decreases polls.len(),
{
    if polls.len() == 0 || polls.last().0 {
        0
    } else {
        trailing_failures(polls.drop_last()) + 1
    }
}

proof fn lemma_failures_are_trailing(
    command: Seq<char>,
    instruction: Seq<char>,
    polls: Seq<Poll>,
)
    ensures
        watch_after(fresh_watch(command, instruction), polls).consecutive_failures
            == trailing_failures(polls),
        trailing_failures(polls) >= 0,
    decreases polls.len(),
{
    if polls.len() > 0 {
        lemma_failures_are_trailing(command, instruction, polls.drop_last());
    }
}

/// A watch ends exactly at the poll with which five have failed in a row; one
/// success starts the count anew.
pub proof fn law_five_failures_in_a_row_end_a_watch(
    command: Seq<char>,
    instruction: Seq<char>,
    polls: Seq<Poll>,
    k: int,
)
    requires
        0 <= k < polls.len(),
    ensures
        action_at(fresh_watch(command, instruction), polls, k) is AutoStop <==> trailing_failures(
            polls.take(k + 1),
        ) >= MAX_CONSECUTIVE_FAILURES,
{
    lemma_failures_are_trailing(command, instruction, polls.take(k));
    assert(polls.take(k + 1).drop_last() == polls.take(k));
}

proof fn lemma_prev_poll(command: Seq<char>, instruction: Seq<char>, polls: Seq<Poll>)
    ensures
        watch_after(fresh_watch(command, instruction), polls).prev_poll matches Some(output)
            ==> exists|j: int| #[trigger] last_success(polls, j) && polls[j].1 == output,
    decreases polls.len(),
{
    if polls.len() > 0 {
        let head = polls.drop_last();
        lemma_prev_poll(command, instruction, head);
        if polls.last().0 {
            assert(last_success(polls, polls.len() - 1));
        } else if let Some(output) = watch_after(
            fresh_watch(command, instruction),
            head,
        ).prev_poll {
            let j = choose|j: int| #[trigger] last_success(head, j) && head[j].1 == output;
            assert forall|i: int| j < i < polls.len() implies !(#[trigger] polls[i]).0 by {
                if i < head.len() {
                    assert(head[i] == polls[i]);
                }
            }
            assert(last_success(polls, j) && polls[j].1 == output);
        }
    }
}

/// Poll `j` of `polls` is the last that succeeded.
pub open spec fn last_success(polls: Seq<Poll>, j: int) -> bool {
    &&& 0 <= j < polls.len()
    &&& polls[j].0
    &&& forall|i: int| j < i < polls.len() ==> !(#[trigger] polls[i]).0
}

/// A watch reacts only to an output that the successful poll before had too:
/// output that still changes from poll to poll starts no turn.
pub proof fn law_reactions_wait_for_settled_output(
    command: Seq<char>,
    instruction: Seq<char>,
    polls: Seq<Poll>,
    k: int,
)
    requires
        0 <= k < polls.len(),
        action_at(fresh_watch(command, instruction), polls, k) is React,
    ensures
        polls[k].0,
        exists|j: int| #[trigger]
            last_success(polls.take(k), j) && polls[j].1 == polls[k].1,
{
    lemma_prev_poll(command, instruction, polls.take(k));
    let j = choose|j: int| #[trigger]
        last_success(polls.take(k), j) && polls.take(k)[j].1 == polls[k].1;
    assert(last_success(polls.take(k), j) && polls[j].1 == polls[k].1);
}

proof fn lemma_baseline_stays(m: WatchModel, polls: Seq<Poll>, from: int, output: Seq<char>)
    requires
        0 <= from <= polls.len(),
        watch_after(m, polls.take(from)).last_fired == Some(output),
        forall|i: int| from <= i < polls.len() ==> !(#[trigger] action_at(m, polls, i) is React),
    ensures
        watch_after(m, polls).last_fired == Some(output),
    decreases polls.len(),
{
    if from == polls.len() {
        assert(polls.take(from) == polls);
    } else {
        let head = polls.drop_last();
        assert(head.take(from) == polls.take(from));
        assert forall|i: int| from <= i < head.len() implies !(#[trigger] action_at(
            m,
            head,
            i,
        ) is React) by {
            assert(head.take(i) == polls.take(i));
            assert(!(action_at(m, polls, i) is React));
        }
        lemma_baseline_stays(m, head, from, output);
        assert(polls.take(polls.len() - 1) == head);
        assert(!(action_at(m, polls, polls.len() - 1) is React));
    }
}

/// Two reactions, one after the other, are to different outputs: an output that
/// stays as it is starts one turn.
pub proof fn law_one_reaction_per_output(m: WatchModel, polls: Seq<Poll>, i: int, k: int)
    requires
        0 <= i < k < polls.len(),
        action_at(m, polls, i) is React,
        action_at(m, polls, k) is React,
        forall|j: int| i < j < k ==> !(#[trigger] action_at(m, polls, j) is React),
    ensures
        polls[i].1 != polls[k].1,
{
    let upto = polls.take(k);
    assert(upto.take(i + 1).drop_last() == polls.take(i));
    assert(upto.take(i + 1).last() == polls[i]);
    assert forall|j: int| i + 1 <= j < upto.len() implies !(#[trigger] action_at(
        m,
        upto,
        j,
    ) is React) by {
        assert(upto.take(j) == polls.take(j));
        assert(!(action_at(m, polls, j) is React));
    }
    lemma_baseline_stays(m, upto, i + 1, polls[i].1);
}

/// The polls of a burst, each of which succeeds.
pub open spec fn successful(outputs: Seq<Seq<char>>) -> Seq<Poll> {
    outputs.map_values(|output: Seq<char>| (true, output))
}

/// `outputs`, which come after `before`, change from each poll to the next.
pub open spec fn changing(before: Option<Seq<char>>, outputs: Seq<Seq<char>>) -> bool {
    &&& outputs.len() > 0
    &&& before != Some(outputs[0])
    &&& forall|i: int| 0 < i < outputs.len() ==> #[trigger] outputs[i] != outputs[i - 1]
}

proof fn lemma_burst(m: WatchModel, burst: Seq<Seq<char>>)
    requires
        changing(m.prev_poll, burst),
    ensures
        watch_after(m, successful(burst)) == (WatchModel {
            prev_poll: Some(burst.last()),
            consecutive_failures: 0,
            ..m
        }),
        forall|k: int|
            0 <= k < burst.len() ==> #[trigger] action_at(m, successful(burst), k)
                == ActionModel::Continue,
    decreases burst.len(),
{
    let polls = successful(burst);
    let head = burst.drop_last();
    assert(polls.drop_last() == successful(head));
    assert(polls.last() == (true, burst.last()));
    if burst.len() == 1 {
        assert(successful(head) == Seq::<Poll>::empty());
        assert(watch_after(m, Seq::<Poll>::empty()) == m);
        assert(burst.last() == burst[0]);
        assert(polls.take(0) == Seq::<Poll>::empty());
    } else {
        assert(changing(m.prev_poll, head));
        lemma_burst(m, head);
        assert(burst[burst.len() - 1] != burst[burst.len() - 2]);
        assert(head.last() == burst[burst.len() - 2]);
        assert forall|k: int| 0 <= k < burst.len() implies #[trigger] action_at(m, polls, k)
            == ActionModel::Continue by {
            if k < head.len() {
                assert(successful(head).take(k) == polls.take(k));
                assert(action_at(m, successful(head), k) == ActionModel::Continue);
            } else {
                assert(polls.take(k) == successful(head));
            }
        }
    }
}

/// A burst of changes is one reaction: nothing happens while the output
/// changes, and once it has settled in a new state the change since the last
/// settled state is delivered; none, where it has settled in that same state.
pub proof fn law_a_burst_is_one_reaction(
    m: WatchModel,
    before: Seq<char>,
    burst: Seq<Seq<char>>,
)
    requires
        m.last_fired == Some(before),
        changing(m.prev_poll, burst),
    ensures
        ({
            let after = burst.last();
            let polls = successful(burst.push(after));
            let last = burst.len() as int;
            &&& forall|k: int|
                0 <= k < last ==> #[trigger] action_at(m, polls, k) == ActionModel::Continue
            &&& action_at(m, polls, last) == if after == before {
                ActionModel::Continue
            } else {
                ActionModel::React {
                    text: reaction_text(m.instruction, m.command, before, after),
                }
            }
        }),
{
    let polls = successful(burst.push(burst.last()));
    lemma_burst(m, burst);
    assert(polls.take(burst.len() as int) == successful(burst));
    assert forall|k: int| 0 <= k < burst.len() implies #[trigger] action_at(m, polls, k)
        == ActionModel::Continue by {
        assert(polls.take(k) == successful(burst).take(k));
        assert(action_at(m, successful(burst), k) == ActionModel::Continue);
    }
}

/// Poll `k` succeeded with the output that the successful poll before it had: the
/// output has settled.
pub open spec fn settled_at(polls: Seq<Poll>, k: int) -> bool {
    &&& 0 <= k < polls.len()
    &&& polls[k].0
    &&& exists|j: int| #[trigger] last_success(polls.take(k), j) && polls[j].1 == polls[k].1
}

/// Of the polls before `k`, poll `j` is the last at which the output had settled.
pub open spec fn last_settled(polls: Seq<Poll>, k: int, j: int) -> bool {
    &&& 0 <= j < k
    &&& settled_at(polls, j)
    &&& forall|i: int| j < i < k ==> !(#[trigger] settled_at(polls, i))
}

proof fn lemma_prev_poll_is_last_success(
    command: Seq<char>,
    instruction: Seq<char>,
    polls: Seq<Poll>,
    j: int,
)
    requires
        last_success(polls, j),
    ensures
        watch_after(fresh_watch(command, instruction), polls).prev_poll == Some(polls[j].1),
    decreases polls.len(),
{
    if !polls.last().0 {
        let head = polls.drop_last();
        assert(last_success(head, j)) by {
            assert forall|i: int| j < i < head.len() implies !(#[trigger] head[i]).0 by {
                assert(head[i] == polls[i]);
            }
        }
        lemma_prev_poll_is_last_success(command, instruction, head, j);
    } else {
        assert(j == polls.len() - 1) by {
            if j < polls.len() - 1 {
                assert(!polls[polls.len() - 1].0);
            }
        }
    }
}

proof fn lemma_settles(command: Seq<char>, instruction: Seq<char>, polls: Seq<Poll>, k: int)
    requires
        0 <= k < polls.len(),
    ensures
        settled_at(polls, k) <==> polls[k].0 && watch_after(
            fresh_watch(command, instruction),
            polls.take(k),
        ).prev_poll == Some(polls[k].1),
{
    let head = polls.take(k);
    lemma_prev_poll(command, instruction, head);
    if settled_at(polls, k) {
        let j = choose|j: int| #[trigger] last_success(head, j) && polls[j].1 == polls[k].1;
        lemma_prev_poll_is_last_success(command, instruction, head, j);
    } else if polls[k].0 {
        if let Some(output) = watch_after(fresh_watch(command, instruction), head).prev_poll {
            let j = choose|j: int| #[trigger] last_success(head, j) && head[j].1 == output;
            assert(last_success(polls.take(k), j));
            assert(head[j] == polls[j]);
        }
    }
}

proof fn lemma_last_fired(command: Seq<char>, instruction: Seq<char>, polls: Seq<Poll>, k: int)
    requires
        0 <= k <= polls.len(),
    ensures
        match watch_after(fresh_watch(command, instruction), polls.take(k)).last_fired {
            Some(output) => exists|j: int| #[trigger]
                last_settled(polls, k, j) && polls[j].1 == output,
            None => forall|j: int| 0 <= j < k ==> !(#[trigger] settled_at(polls, j)),
        },
    decreases k,
{
    let fresh = fresh_watch(command, instruction);
    if k == 0 {
        assert(polls.take(0) =~= Seq::<Poll>::empty());
    } else {
        lemma_last_fired(command, instruction, polls, k - 1);
        lemma_settles(command, instruction, polls, k - 1);
        assert(polls.take(k).drop_last() =~= polls.take(k - 1));
        assert(polls.take(k).last() == polls[k - 1]);
        let before = watch_after(fresh, polls.take(k - 1));
        if settled_at(polls, k - 1) {
            assert(last_settled(polls, k, k - 1));
        } else {
            match before.last_fired {
                Some(output) => {
                    let j = choose|j: int| #[trigger]
                        last_settled(polls, k - 1, j) && polls[j].1 == output;
                    assert(last_settled(polls, k, j));
                },
                None => {},
            }
        }
    }
}

/// A watch reacts at a poll exactly where the output has settled there, had settled
/// before, and differs from the one in which it last did. It then delivers the
/// instruction, the command and what changed between these two outputs, of which
/// no more than 4000 characters. The first settled output starts no turn.
pub proof fn law_each_settled_change_is_delivered(
    command: Seq<char>,
    instruction: Seq<char>,
    polls: Seq<Poll>,
    k: int,
    j: int,
)
    requires
        0 <= k < polls.len(),
    ensures
        action_at(fresh_watch(command, instruction), polls, k) is React <==> settled_at(polls, k)
            && exists|i: int| #[trigger]
            last_settled(polls, k, i) && polls[i].1 != polls[k].1,
        settled_at(polls, k) && last_settled(polls, k, j) && polls[j].1 != polls[k].1 ==> action_at(
            fresh_watch(command, instruction),
            polls,
            k,
        ) == (ActionModel::React {
            text: instruction + "\n\n[watch fired — `"@ + command + "` output changed]\n"@
                + truncated(line_diff(polls[j].1, polls[k].1), 4000),
        }),
{
    let m = watch_after(fresh_watch(command, instruction), polls.take(k));
    lemma_watch_keeps_its_task(command, instruction, polls.take(k));
    lemma_settles(command, instruction, polls, k);
    lemma_last_fired(command, instruction, polls, k);
    assert forall|a: int, b: int| #[trigger] last_settled(polls, k, a) && #[trigger] last_settled(
        polls,
        k,
        b,
    ) implies a == b by {}
    if let Some(before) = m.last_fired {
        let i = choose|i: int| #[trigger] last_settled(polls, k, i) && polls[i].1 == before;
        assert(last_settled(polls, k, i));
    } else {
        assert forall|i: int| !(#[trigger] last_settled(polls, k, i)) by {}
    }
}

proof fn lemma_watch_keeps_its_task(
    command: Seq<char>,
    instruction: Seq<char>,
    polls: Seq<Poll>,
)
    ensures
        ({
            let m = watch_after(fresh_watch(command, instruction), polls);
            m.command == command && m.instruction == instruction
        }),
    decreases polls.len(),
{
    if polls.len() > 0 {
        lemma_watch_keeps_its_task(command, instruction, polls.drop_last());
    }
}

/// A watch ends at the fifth failure in a row, and tells so with its command. It
/// does not end otherwise.
pub proof fn law_a_watch_that_ends_names_its_command(
    command: Seq<char>,
    instruction: Seq<char>,
    polls: Seq<Poll>,
    k: int,
)
    requires
        0 <= k < polls.len(),
    ensures
        action_at(fresh_watch(command, instruction), polls, k) is AutoStop <==> k >= 4 && (forall|
            i: int,
        |
            k - 5 < i <= k ==> !(#[trigger] polls[i]).0),
        action_at(fresh_watch(command, instruction), polls, k) matches ActionModel::AutoStop {
            notice,
        } ==> notice == "[watch auto-stopped after 5 consecutive failures: `"@ + command
            + "`] No further action needed; this watch will no longer poll."@,
{
    lemma_failures_are_trailing(command, instruction, polls.take(k));
    lemma_watch_keeps_its_task(command, instruction, polls.take(k));
    let upto = polls.take(k + 1);
    assert(upto.drop_last() =~= polls.take(k));
    assert(upto.last() == polls[k]);
    lemma_five_fail(upto);
    if forall|i: int| upto.len() - 5 <= i < upto.len() ==> !(#[trigger] upto[i]).0 {
        assert forall|i: int| k - 5 < i <= k && k >= 4 implies !(#[trigger] polls[i]).0 by {
            assert(upto[i] == polls[i]);
        }
    }
    if k >= 4 && (forall|i: int| k - 5 < i <= k ==> !(#[trigger] polls[i]).0) {
        assert forall|i: int| upto.len() - 5 <= i < upto.len() implies !(#[trigger] upto[i]).0 by {
            assert(upto[i] == polls[i]);
        }
    }
    reveal_strlit("[watch auto-stopped after ");
    reveal_strlit(" consecutive failures: `");
    reveal_strlit("[watch auto-stopped after 5 consecutive failures: `");
    assert(decimal(5) =~= seq!['5']);
    assert("[watch auto-stopped after "@ + decimal(5) + " consecutive failures: `"@
        =~= "[watch auto-stopped after 5 consecutive failures: `"@);
}

proof fn lemma_five_fail(polls: Seq<Poll>)
    ensures
        trailing_failures(polls) >= 5 <==> polls.len() >= 5 && forall|i: int|
            polls.len() - 5 <= i < polls.len() ==> !(#[trigger] polls[i]).0,
{
    lemma_failing_run(polls, 5);
}

proof fn lemma_failing_run(polls: Seq<Poll>, n: int)
    requires
        n >= 0,
    ensures
        trailing_failures(polls) >= 0,
        trailing_failures(polls) >= n <==> polls.len() >= n && forall|i: int|
            polls.len() - n <= i < polls.len() ==> !(#[trigger] polls[i]).0,
    decreases polls.len(),
{
    if polls.len() > 0 {
        let head = polls.drop_last();
        if n > 0 {
            lemma_failing_run(head, n - 1);
        } else {
            lemma_failing_run(head, 0);
        }
        if !polls.last().0 && n > 0 {
            assert(polls[polls.len() - 1] == polls.last());
            if trailing_failures(polls) >= n {
                assert forall|i: int| polls.len() - n <= i < polls.len() implies !(
                #[trigger] polls[i]).0 by {
                    if i < head.len() {
                        assert(head[i] == polls[i]);
                    }
                }
            }
            if polls.len() >= n && (forall|i: int|
                polls.len() - n <= i < polls.len() ==> !(#[trigger] polls[i]).0) {
                assert forall|i: int| head.len() - (n - 1) <= i < head.len() implies !(
                #[trigger] head[i]).0 by {
                    assert(head[i] == polls[i]);
                }
            }
        } else if n > 0 {
            assert(polls[polls.len() - 1].0);
        }
    }
}

/// After a reaction a watch waits four intervals in all, after any other poll one;
/// after it has ended it waits for nothing.
pub proof fn law_reactions_are_followed_by_three_intervals_more(
    text: Seq<char>,
    interval_secs: int,
)
    ensures
        waits(ActionModel::React { text }, interval_secs) == Some(interval_secs * 4),
        waits(ActionModel::Continue, interval_secs) == Some(interval_secs),
        waits(ActionModel::AutoStop { notice: text }, interval_secs) is None,
{
}

/// Why a tool call failed.
#[derive(Clone, Debug, PartialEq, Eq)]
pub enum FunctionCallError {
    /// The model is told the message.
    RespondToModel(String),
}

impl View for FunctionCallError {
    type V = Seq<char>;

    open spec fn view(&self) -> Seq<char> {
        let FunctionCallError::RespondToModel(message) = *self;
        message@
    }
}

/// The arguments of `watch`.
#[derive(Clone, Debug, PartialEq, Eq)]
pub struct WatchArgs {
    pub command: String,
    pub instruction: String,
    pub interval_seconds: Option<u64>,
}

/// A call of `watch`.
#[derive(Debug, PartialEq, Eq)]
pub enum WatchRequest {
    /// A function call, with what parsing its arguments gave.
    Function { arguments: Result<WatchArgs, FunctionCallError> },
    /// A call of another kind.
    Unsupported,
}

/// A watch that a session is to start.
#[derive(Clone, Debug, PartialEq, Eq)]
pub struct WatchPlan {
    pub command: String,
    pub instruction: String,
    pub interval_secs: u64,
}

pub struct PlanModel {
    pub command: Seq<char>,
    pub instruction: Seq<char>,
    pub interval_secs: int,
}

impl View for WatchPlan {
    type V = PlanModel;

    open spec fn view(&self) -> PlanModel {
        PlanModel {
            command: self.command@,
            instruction: self.instruction@,
            interval_secs: self.interval_secs as int,
        }
    }
}

/// The seconds between two polls: as asked for, with a default and a minimum.
pub open spec fn poll_interval(interval_seconds: Option<u64>) -> int {
    let asked = match interval_seconds {
        Some(n) => n,
        None => DEFAULT_INTERVAL_SECS,
    };
    if asked < MIN_INTERVAL_SECS {
        MIN_INTERVAL_SECS as int
    } else {
        asked as int
    }
}

/// What the model is told when no more watches can be started.
pub open spec fn limit_message() -> Seq<char> {
    "watch limit reached ("@ + decimal(MAX_WATCHES as nat)
        + " active); stop one with watch_stop first."@
}

/// The watch that a call asks for while `watch_count` watches are active, or
/// what the model is told.
pub open spec fn planned(request: WatchRequest, watch_count: int) -> Result<PlanModel, Seq<char>> {
    match request {
        WatchRequest::Unsupported => Err("watch handler received unsupported payload"@),
        WatchRequest::Function { arguments } => if watch_count >= MAX_WATCHES {
            Err(limit_message())
        } else {
            match arguments {
                Err(e) => Err(e@),
                Ok(args) => if trim(args.command@).len() == 0 {
                    Err("watch.command must not be empty"@)
                } else if trim(args.instruction@).len() == 0 {
                    Err("watch.instruction must not be empty"@)
                } else {
                    Ok(
                        PlanModel {
                            command: args.command@,
                            instruction: args.instruction@,
                            interval_secs: poll_interval(args.interval_seconds),
                        },
                    )
                },
            }
        },
    }
}

/// What the user is told of a watch that has started.
pub open spec fn active_text(id: u64, command: Seq<char>, watch_count: usize) -> Seq<char> {
    "👁 watch ["@ + decimal(id as nat) + "] active: `"@ + command + "` — "@ + decimal(
        watch_count as nat,
    ) + " watch(es) running"@
}

/// What the model is told of a watch that has started.
pub open spec fn started_text(id: u64, plan: PlanModel) -> Seq<char> {
    "Watching `"@ + plan.command + "` (id "@ + decimal(id as nat) + ") every "@ + decimal(
        plan.interval_secs as nat,
    ) + "s. When its output changes I will: "@ + plan.instruction
}

/// The tool that starts a watch.
#[derive(Clone, Copy, Debug, Default, PartialEq, Eq)]
pub struct WatchHandler;

fn refusal<T>(message: &str) -> (r: Result<T, FunctionCallError>)
    ensures
        r matches Err(e) && e@ == message@,
{
    Err(FunctionCallError::RespondToModel(message.to_owned()))
}

impl WatchHandler {
    pub fn tool_name(&self) -> (r: &'static str)
        ensures
            r@ == "watch"@,
    {
        WATCH_TOOL_NAME
    }

    /// What the model is told of the tool.
    pub fn spec(&self) -> (r: Option<ToolSpec>)
        ensures
            r matches Some(tool) && is_watch_tool(tool),
    {
        Some(create_watch_tool())
    }

    pub fn supports_parallel_tool_calls(&self) -> (r: bool)
        ensures
            r,
    {
        true
    }

    /// Decides on a call of `watch` while `watch_count` watches are active.
    pub fn handle(&self, request: WatchRequest, watch_count: usize) -> (r: Result<
        WatchPlan,
        FunctionCallError,
    >)
        ensures
            match r {
                Ok(plan) => planned(request, watch_count as int) == Ok::<PlanModel, Seq<char>>(plan@),
                Err(e) => planned(request, watch_count as int) == Err::<PlanModel, Seq<char>>(e@),
            },
    {
        let arguments = match request {
            WatchRequest::Function { arguments } => arguments,
            WatchRequest::Unsupported => {
                return refusal("watch handler received unsupported payload");
            },
        };
        if watch_count >= MAX_WATCHES {
            let mut message = "watch limit reached (".to_owned();
            message.append(decimal_of(MAX_WATCHES as u64).as_str());
            message.append(" active); stop one with watch_stop first.");
            return refusal(message.as_str());
        }
        let args = match arguments {
            Ok(args) => args,
            Err(e) => {
                return Err(e);
            },
        };
        if trimmed(args.command.as_str()).as_str().is_empty() {
            return refusal("watch.command must not be empty");
        }
        if trimmed(args.instruction.as_str()).as_str().is_empty() {
            return refusal("watch.instruction must not be empty");
        }
        let asked = match args.interval_seconds {
            Some(n) => n,
            None => DEFAULT_INTERVAL_SECS,
        };
        let interval_secs = if asked < MIN_INTERVAL_SECS {
            MIN_INTERVAL_SECS
        } else {
            asked
        };
        Ok(WatchPlan { command: args.command, instruction: args.instruction, interval_secs })
    }

    /// What the user is told of a watch that has started, with `watch_count`
    /// watches now active.
    pub fn active_notice(&self, id: u64, command: &str, watch_count: usize) -> (r: String)
        ensures
            r@ == active_text(id, command@, watch_count),
    {
        let mut out = "👁 watch [".to_owned();
        out.append(decimal_of(id).as_str());
        out.append("] active: `");
        out.append(command);
        out.append("` — ");
        out.append(decimal_of(watch_count as u64).as_str());
        out.append(" watch(es) running");
        out
    }

    /// What the model is told of a watch that has started.
    pub fn started_message(&self, id: u64, plan: &WatchPlan) -> (r: String)
        ensures
            r@ == started_text(id, plan@),
    {
        let mut out = "Watching `".to_owned();
        out.append(plan.command.as_str());
        out.append("` (id ");
        out.append(decimal_of(id).as_str());
        out.append(") every ");
        out.append(decimal_of(plan.interval_secs).as_str());
        out.append("s. When its output changes I will: ");
        out.append(plan.instruction.as_str());
        out
    }
}

/// However much changed, a reaction delivers the instruction, the command and a
/// bounded part of the change.
pub proof fn law_reactions_are_bounded(
    instruction: Seq<char>,
    command: Seq<char>,
    before: Seq<char>,
    after: Seq<char>,
)
    ensures
        reaction_text(instruction, command, before, after).len() <= instruction.len()
            + command.len() + MAX_OUTPUT_CHARS + 64,
        line_diff(before, after).len() <= MAX_OUTPUT_CHARS ==> reaction_text(
            instruction,
            command,
            before,
            after,
        ) == instruction + "\n\n[watch fired — `"@ + command + "` output changed]\n"@ + line_diff(
            before,
            after,
        ),
{
    reveal_strlit("\n\n[watch fired — `");
    reveal_strlit("` output changed]\n");
    reveal_strlit("…[truncated]");
}

/// Starting a watch that the handler allows leaves at most eight active.
pub proof fn law_at_most_eight_watches(request: WatchRequest, watch_count: int)
    requires
        planned(request, watch_count) is Ok,
    ensures
        watch_count + 1 <= MAX_WATCHES,
{
}

/// No watch polls more often than every two seconds.
pub proof fn law_polls_are_two_seconds_apart(request: WatchRequest, watch_count: int)
    ensures
        planned(request, watch_count) matches Ok(plan) ==> plan.interval_secs >= MIN_INTERVAL_SECS,
{
}

/// While fewer than eight watches are active, a call with a command and an
/// instruction that are not blank is granted as it stands, with the interval that
/// it asks for: ten seconds where it names none, and never less than two.
pub proof fn law_sound_calls_are_granted_as_they_stand(args: WatchArgs, watch_count: int)
    requires
        watch_count < 8,
        !blank(args.command@),
        !blank(args.instruction@),
    ensures
        planned(WatchRequest::Function { arguments: Ok(args) }, watch_count) == Ok::<
            PlanModel,
            Seq<char>,
        >(
            PlanModel {
                command: args.command@,
                instruction: args.instruction@,
                interval_secs: match args.interval_seconds {
                    None => 10,
                    Some(asked) => if asked >= 2 {
                        asked as int
                    } else {
                        2
                    },
                },
            },
        ),
{
    lemma_blank_is_trimmed_away(args.command@);
    lemma_blank_is_trimmed_away(args.instruction@);
}

/// Any other call is refused, and the model is told why.
pub proof fn law_other_calls_are_refused(
    arguments: Result<WatchArgs, FunctionCallError>,
    watch_count: int,
)
    ensures
        planned(WatchRequest::Unsupported, watch_count) == Err::<PlanModel, Seq<char>>(
            "watch handler received unsupported payload"@,
        ),
        watch_count >= 8 ==> planned(WatchRequest::Function { arguments }, watch_count) == Err::<
            PlanModel,
            Seq<char>,
        >("watch limit reached (8 active); stop one with watch_stop first."@),
        watch_count < 8 ==> match arguments {
            Err(e) => planned(WatchRequest::Function { arguments }, watch_count) == Err::<
                PlanModel,
                Seq<char>,
            >(e@),
            Ok(args) => {
                &&& blank(args.command@) ==> planned(
                    WatchRequest::Function { arguments },
                    watch_count,
                ) == Err::<PlanModel, Seq<char>>("watch.command must not be empty"@)
                &&& !blank(args.command@) && blank(args.instruction@) ==> planned(
                    WatchRequest::Function { arguments },
                    watch_count,
                ) == Err::<PlanModel, Seq<char>>("watch.instruction must not be empty"@)
            },
        },
{
    if let Ok(args) = arguments {
        lemma_blank_is_trimmed_away(args.command@);
        lemma_blank_is_trimmed_away(args.instruction@);
    }
    reveal_strlit("watch limit reached (");
    reveal_strlit(" active); stop one with watch_stop first.");
    reveal_strlit("watch limit reached (8 active); stop one with watch_stop first.");
    assert(decimal(8) =~= seq!['8']);
    assert("watch limit reached ("@ + decimal(8) + " active); stop one with watch_stop first."@
        =~= "watch limit reached (8 active); stop one with watch_stop first."@);
}

/// An active watch of a session.
#[derive(Clone, Debug, PartialEq, Eq)]
pub struct WatchEntry {
    pub id: u64,
    pub command: String,
    pub instruction: String,
}

/// One line for each watch.
pub open spec fn watch_listing(watches: Seq<WatchEntry>) -> Seq<char>
    decreases watches.len(),
{
    if watches.len() == 0 {
        "Active watches:"@
    } else {
        watch_listing(watches.drop_last()) + "\n  ["@ + decimal(watches.last().id as nat) + "] `"@
            + watches.last().command@ + "` -> "@ + watches.last().instruction@
    }
}

/// What the model is told of the active watches.
pub open spec fn watches_text(watches: Seq<WatchEntry>) -> Seq<char> {
    if watches.len() == 0 {
        "No active watches."@
    } else {
        watch_listing(watches)
    }
}

/// The tool that reports the active watches, so that the user and the agent can
/// see what is being monitored.
#[derive(Clone, Copy, Debug, Default, PartialEq, Eq)]
pub struct WatchListHandler;

impl WatchListHandler {
    pub fn tool_name(&self) -> (r: &'static str)
        ensures
            r@ == "watch_list"@,
    {
        "watch_list"
    }

    pub fn supports_parallel_tool_calls(&self) -> (r: bool)
        ensures
            r,
    {
        true
    }

    /// What the model is told of the active watches.
    pub fn handle(&self, watches: &Vec<WatchEntry>) -> (r: String)
        ensures
            r@ == watches_text(watches@),
    {
        if watches.len() == 0 {
            return "No active watches.".to_owned();
        }
        let mut out = "Active watches:".to_owned();
        let mut i: usize = 0;
        while i < watches.len()
            invariant
                i <= watches@.len(),
                out@ == watch_listing(watches@.subrange(0, i as int)),
            decreases watches.len() - i,
        {
            assert(watches@.subrange(0, i + 1).drop_last() == watches@.subrange(0, i as int));
            let watch = &watches[i];
            out.append("\n  [");
            out.append(decimal_of(watch.id).as_str());
            out.append("] `");
            out.append(watch.command.as_str());
            out.append("` -> ");
            out.append(watch.instruction.as_str());
            i = i + 1;
        }
        assert(watches@.subrange(0, i as int) == watches@);
        out
    }
}

/// A call of `watch_stop`.
#[derive(Debug, PartialEq, Eq)]
pub enum WatchStopRequest {
    /// A function call, with what parsing its argument `id` gave.
    Function { id: Result<u64, FunctionCallError> },
    /// A call of another kind.
    Unsupported,
}

/// What the model is told of an attempt to stop a watch.
pub open spec fn stop_text(id: u64, stopped: bool) -> Seq<char> {
    if stopped {
        "Stopped watch ["@ + decimal(id as nat) + "]."@
    } else {
        "No active watch with id "@ + decimal(id as nat) + "."@
    }
}

/// What the user is told of a watch that was stopped.
pub open spec fn stopped_text(id: u64, watch_count: usize) -> Seq<char> {
    "👁 watch ["@ + decimal(id as nat) + "] stopped — "@ + decimal(watch_count as nat)
        + " watch(es) running"@
}

/// The tool that stops an active watch by id.
#[derive(Clone, Copy, Debug, Default, PartialEq, Eq)]
pub struct WatchStopHandler;

impl WatchStopHandler {
    pub fn tool_name(&self) -> (r: &'static str)
        ensures
            r@ == "watch_stop"@,
    {
        "watch_stop"
    }

    pub fn supports_parallel_tool_calls(&self) -> (r: bool)
        ensures
            r,
    {
        true
    }

    /// The watch that a call asks to stop.
    pub fn handle(&self, request: WatchStopRequest) -> (r: Result<u64, FunctionCallError>)
        ensures
            match request {
                WatchStopRequest::Function { id } => r == id,
                WatchStopRequest::Unsupported => r matches Err(e) && e@
                    == "watch_stop received unsupported payload"@,
            },
    {
        match request {
            WatchStopRequest::Function { id } => id,
            WatchStopRequest::Unsupported => refusal("watch_stop received unsupported payload"),
        }
    }

    /// What the model is told, where `stopped` says whether the session had a
    /// watch of that id.
    pub fn stop_message(&self, id: u64, stopped: bool) -> (r: String)
        ensures
            r@ == stop_text(id, stopped),
    {
        let mut out = if stopped {
            "Stopped watch [".to_owned()
        } else {
            "No active watch with id ".to_owned()
        };
        out.append(decimal_of(id).as_str());
        out.append(if stopped { "]." } else { "." });
        out
    }

    /// What the model is told, and the notice for the user, with `watch_count`
    /// watches still active. There is a notice exactly where a watch was stopped.
    pub fn stop_reply(&self, id: u64, stopped: bool, watch_count: usize) -> (r: (
        String,
        Option<String>,
    ))
        ensures
            r.0@ == stop_text(id, stopped),
            r.1.deep_view() == if stopped {
                Some(stopped_text(id, watch_count))
            } else {
                None
            },
    {
        let notice = if stopped {
            Some(self.stopped_notice(id, watch_count))
        } else {
            None
        };
        (self.stop_message(id, stopped), notice)
    }

    /// What the user is told of a watch that was stopped, with `watch_count`
    /// watches still active.
    pub fn stopped_notice(&self, id: u64, watch_count: usize) -> (r: String)
        ensures
            r@ == stopped_text(id, watch_count),
    {
        let mut out = "👁 watch [".to_owned();
        out.append(decimal_of(id).as_str());
        out.append("] stopped — ");
        out.append(decimal_of(watch_count as u64).as_str());
        out.append(" watch(es) running");
        out
    }
}

/// Every watch is listed on a line of its own, in the order of the session: with its
/// id, its command and its instruction. What is listed of one does not depend on
/// the others.
pub proof fn law_every_watch_is_listed(watches: Seq<WatchEntry>, more: Seq<WatchEntry>)
    ensures
        watch_listing(Seq::empty()) == "Active watches:"@,
        watch_listing(watches + more) == watch_listing(watches) + more.map_values(
            |watch: WatchEntry|
                "\n  ["@ + decimal(watch.id as nat) + "] `"@ + watch.command@ + "` -> "@
                    + watch.instruction@,
        ).flatten(),
    decreases more.len(),
{
    let f = |watch: WatchEntry|
        "\n  ["@ + decimal(watch.id as nat) + "] `"@ + watch.command@ + "` -> "@
            + watch.instruction@;
    if more.len() == 0 {
        assert(watches + more =~= watches);
        assert(more.map_values(f) =~= Seq::<Seq<char>>::empty());
        assert(watch_listing(watches) + Seq::<char>::empty() =~= watch_listing(watches));
    } else {
        let head = more.drop_last();
        let last = more.last();
        law_every_watch_is_listed(watches, head);
        assert((watches + more).drop_last() =~= watches + head);
        assert((watches + more).last() == last);
        assert(more.map_values(f) =~= head.map_values(f).push(f(last)));
        head.map_values(f).lemma_flatten_push(f(last));
        let listed = watch_listing(watches + head);
        assert(listed + "\n  ["@ + decimal(last.id as nat) + "] `"@ + last.command@ + "` -> "@
            + last.instruction@ =~= listed + f(last));
        assert(listed + f(last) =~= watch_listing(watches) + (head.map_values(f).flatten() + f(
            last,
        )));
    }
}

/// What is told of a watch that has started, or was stopped, names it by its id, and
/// says how many watches are running; what the model is told of a start has the
/// command, the interval and the instruction, as they are. An id under which there
/// is no watch is named too.
pub proof fn law_watches_are_named_by_their_id(id: u64, plan: PlanModel, watch_count: usize)
    ensures
        active_text(id, plan.command, watch_count) == "👁 watch ["@ + decimal(id as nat)
            + "] active: `"@ + plan.command + "` — "@ + decimal(watch_count as nat)
            + " watch(es) running"@,
        started_text(id, plan) == "Watching `"@ + plan.command + "` (id "@ + decimal(id as nat)
            + ") every "@ + decimal(plan.interval_secs as nat)
            + "s. When its output changes I will: "@ + plan.instruction,
        stop_text(id, true) == "Stopped watch ["@ + decimal(id as nat) + "]."@,
        stop_text(id, false) == "No active watch with id "@ + decimal(id as nat) + "."@,
        stopped_text(id, watch_count) == "👁 watch ["@ + decimal(id as nat) + "] stopped — "@
            + decimal(watch_count as nat) + " watch(es) running"@,
{
}

/// Where there are watches they are listed; where there is none, that is told.
pub proof fn law_no_watches_are_told_as_none(watches: Seq<WatchEntry>)
    ensures
        watches.len() > 0 ==> watches_text(watches) == watch_listing(watches),
        watches.len() == 0 ==> watches_text(watches) == "No active watches."@,
{
}

} // verus!
