//! Watching the output of a background terminal: which lines it has completed,
//! whether it is ready or has failed, and what to tell the user.

use crate::text::{
    ascii_lower, ascii_lowercase, blank, borrowed, chars_of, contains, decode_lossy, has_prefix,
    has_text, law_trimming_leaves_what_space_surrounds, law_what_stands_inside_is_held,
    lemma_blank_is_trimmed_away, lemma_nothing_to_trim, lemma_trim, occurs_at, same_text,
    starts_with, string_of, trim, trimmed, utf8_lossy, white_space,
};
use vstd::prelude::*;
use vstd::utf8::{decode_utf8, valid_utf8};

verus! {

#[derive(Clone, Copy, Debug, PartialEq, Eq, Structural)]
pub enum UnifiedExecMonitorStatus {
    Starting,
    Running,
    Ready,
    Warning,
    Error,
}

#[derive(Clone, Copy, Debug, PartialEq, Eq, Structural)]
pub enum UnifiedExecMonitorNotificationLevel {
    Info,
    Error,
}

#[derive(Clone, Debug, PartialEq, Eq)]
pub struct UnifiedExecMonitorNotification {
    pub level: UnifiedExecMonitorNotificationLevel,
    pub message: String,
}

#[derive(Clone, Debug, PartialEq, Eq)]
pub struct UnifiedExecMonitorUpdate {
    pub completed_lines: Vec<String>,
    pub notification: Option<UnifiedExecMonitorNotification>,
}

#[derive(Clone, Debug, PartialEq, Eq)]
pub struct UnifiedExecMonitorState {
    status: UnifiedExecMonitorStatus,
    pending_line: String,
    ready_reported: bool,
    last_error_signature: Option<String>,
    last_warning_signature: Option<String>,
    last_event_summary: Option<String>,
}

/// What a monitor knows of its terminal.
pub struct MonitorModel {
    pub status: UnifiedExecMonitorStatus,
    /// The output since the last line break.
    pub pending_line: Seq<char>,
    pub ready_reported: bool,
    pub last_error_signature: Option<Seq<char>>,
    pub last_warning_signature: Option<Seq<char>>,
    pub last_event_summary: Option<Seq<char>>,
}

/// A notification's level and message.
pub type NoticeModel = (UnifiedExecMonitorNotificationLevel, Seq<char>);

impl View for UnifiedExecMonitorNotification {
    type V = NoticeModel;

    open spec fn view(&self) -> NoticeModel {
        (self.level, self.message@)
    }
}

impl View for UnifiedExecMonitorState {
    type V = MonitorModel;

    closed spec fn view(&self) -> MonitorModel {
        MonitorModel {
            status: self.status,
            pending_line: self.pending_line@,
            ready_reported: self.ready_reported,
            last_error_signature: self.last_error_signature.deep_view(),
            last_warning_signature: self.last_warning_signature.deep_view(),
            last_event_summary: self.last_event_summary.deep_view(),
        }
    }
}

/// The level and message of an optional notification.
pub open spec fn notice(n: Option<UnifiedExecMonitorNotification>) -> Option<NoticeModel> {
    match n {
        Some(n) => Some(n@),
        None => None,
    }
}

/// A line stripped of what does not tell two reports of one event apart.
pub open spec fn signature(line: Seq<char>) -> Seq<char> {
    trim(line).map_values(|c: char| ascii_lower(c))
}

/// At most the first 120 characters of the trimmed text, and dots where more
/// follow.
pub open spec fn summary(text: Seq<char>) -> Seq<char> {
    let t = trim(text);
    if t.len() > 120 {
        t.take(120) + "..."@
    } else {
        t
    }
}

/// A signature that reports that the terminal's program is ready.
pub open spec fn ready_signature(line: Seq<char>) -> bool {
    ||| contains(line, "compiled successfully"@)
    ||| contains(line, "ready in "@)
    ||| contains(line, "ready on "@)
    ||| contains(line, "ready at "@)
    ||| contains(line, "server started"@)
    ||| contains(line, "listening on"@)
    ||| contains(line, "listening at"@)
    ||| contains(line, "running at"@)
    ||| contains(line, "available at"@)
    ||| contains(line, "local:"@)
    ||| contains(line, "http://localhost"@)
    ||| contains(line, "https://localhost"@)
    ||| contains(line, "started on port"@)
}

/// A signature that reports an error.
pub open spec fn error_signature(line: Seq<char>) -> bool {
    &&& !contains(line, "0 errors"@)
    &&& !contains(line, "without errors"@)
    &&& {
        ||| starts_with(line, "error"@)
        ||| contains(line, " error:"@)
        ||| contains(line, " failed"@)
        ||| contains(line, "failed to compile"@)
        ||| contains(line, "compilation failed"@)
        ||| contains(line, "traceback"@)
        ||| contains(line, "unhandled"@)
        ||| contains(line, "exception"@)
        ||| contains(line, "panic"@)
    }
}

/// A signature that reports a warning.
pub open spec fn warning_signature(line: Seq<char>) -> bool {
    starts_with(line, "warning"@) || contains(line, " warning:"@)
}

/// The text of a notification that `action` happened, as `line` shows.
pub open spec fn notification_message(
    process_id: Option<Seq<char>>,
    command: Seq<char>,
    action: Seq<char>,
    line: Seq<char>,
) -> Seq<char> {
    let process = match process_id {
        Some(id) => "background terminal "@ + id,
        None => "background terminal"@,
    };
    "Monitor: "@ + process + " "@ + action + " for `"@ + summary(command) + "` ("@ + summary(line)
        + ")"@
}

/// What a monitor knows after it has seen the completed line `line`, and what
/// it tells the user. An error counts before readiness, readiness before a
/// warning.
pub open spec fn observed(
    m: MonitorModel,
    line: Seq<char>,
    command: Seq<char>,
    process_id: Option<Seq<char>>,
) -> (MonitorModel, Option<NoticeModel>) {
    let sig = signature(line);
    if error_signature(sig) {
        (
            MonitorModel {
                status: UnifiedExecMonitorStatus::Error,
                last_error_signature: Some(sig),
                last_event_summary: Some("error: "@ + summary(line)),
                ..m
            },
            if m.last_error_signature == Some(sig) {
                None
            } else {
                Some(
                    (
                        UnifiedExecMonitorNotificationLevel::Error,
                        notification_message(process_id, command, "reported an error"@, line),
                    ),
                )
            },
        )
    } else if ready_signature(sig) {
        (
            MonitorModel {
                status: UnifiedExecMonitorStatus::Ready,
                ready_reported: true,
                last_event_summary: Some("ready: "@ + summary(line)),
                ..m
            },
            if m.ready_reported {
                None
            } else {
                Some(
                    (
                        UnifiedExecMonitorNotificationLevel::Info,
                        notification_message(process_id, command, "is ready"@, line),
                    ),
                )
            },
        )
    } else if warning_signature(sig) {
        if m.last_warning_signature == Some(sig) {
            (m, None)
        } else {
            (
                MonitorModel {
                    status: UnifiedExecMonitorStatus::Warning,
                    last_warning_signature: Some(sig),
                    last_event_summary: Some("warning: "@ + summary(line)),
                    ..m
                },
                None,
            )
        }
    } else {
        (running_if_starting(m), None)
    }
}

/// The monitor with a start that is over.
pub open spec fn running_if_starting(m: MonitorModel) -> MonitorModel {
    if m.status == UnifiedExecMonitorStatus::Starting {
        MonitorModel { status: UnifiedExecMonitorStatus::Running, ..m }
    } else {
        m
    }
}

pub open spec fn line_break(c: char) -> bool {
    c == '\n' || c == '\r'
}

/// The output after the last line break, where `text` follows `pending`.
pub open spec fn unfinished_line(pending: Seq<char>, text: Seq<char>) -> Seq<char>
    decreases text.len(),
{
    if text.len() == 0 {
        pending
    } else if line_break(text.last()) {
        Seq::empty()
    } else {
        unfinished_line(pending, text.drop_last()).push(text.last())
    }
}

/// The lines, trimmed and without empty ones, that are complete where `text`
/// follows `pending`.
pub open spec fn finished_lines(pending: Seq<char>, text: Seq<char>) -> Seq<Seq<char>>
    decreases text.len(),
{
    if text.len() == 0 {
        Seq::empty()
    } else {
        let before = finished_lines(pending, text.drop_last());
        let line = trim(unfinished_line(pending, text.drop_last()));
        if line_break(text.last()) && line.len() > 0 {
            before.push(line)
        } else {
            before
        }
    }
}

/// What a monitor knows after the lines `lines`, and the first notification
/// among them. Lines after that one are not looked at.
pub open spec fn observed_lines(
    m: MonitorModel,
    lines: Seq<Seq<char>>,
    command: Seq<char>,
    process_id: Option<Seq<char>>,
) -> (MonitorModel, Option<NoticeModel>)
    decreases lines.len(),
{
    if lines.len() == 0 {
        (m, None)
    } else {
        let (seen, note) = observed_lines(m, lines.drop_last(), command, process_id);
        if note is Some {
            (seen, note)
        } else {
            observed(seen, lines.last(), command, process_id)
        }
    }
}

/// What a monitor knows after the output `text`, and what it tells the user.
pub open spec fn ingested(
    m: MonitorModel,
    text: Seq<char>,
    command: Seq<char>,
    process_id: Option<Seq<char>>,
) -> (MonitorModel, Option<NoticeModel>) {
    let lines = finished_lines(m.pending_line, text);
    let (seen, note) = observed_lines(m, lines, command, process_id);
    let pending = MonitorModel { pending_line: unfinished_line(m.pending_line, text), ..seen };
    if note is None && lines.len() > 0 {
        (running_if_starting(pending), note)
    } else {
        (pending, note)
    }
}

impl UnifiedExecMonitorStatus {
    pub open spec fn label_text(self) -> Seq<char> {
        match self {
            UnifiedExecMonitorStatus::Starting => "STARTING"@,
            UnifiedExecMonitorStatus::Running => "RUNNING"@,
            UnifiedExecMonitorStatus::Ready => "READY"@,
            UnifiedExecMonitorStatus::Warning => "WARNING"@,
            UnifiedExecMonitorStatus::Error => "ERROR"@,
        }
    }

    pub fn label(self) -> (r: &'static str)
        ensures
            r@ == self.label_text(),
    {
        match self {
            UnifiedExecMonitorStatus::Starting => "STARTING",
            UnifiedExecMonitorStatus::Running => "RUNNING",
            UnifiedExecMonitorStatus::Ready => "READY",
            UnifiedExecMonitorStatus::Warning => "WARNING",
            UnifiedExecMonitorStatus::Error => "ERROR",
        }
    }
}

/// A monitor that has seen no output.
pub open spec fn fresh_monitor() -> MonitorModel {
    MonitorModel {
        status: UnifiedExecMonitorStatus::Starting,
        pending_line: Seq::empty(),
        ready_reported: false,
        last_error_signature: None,
        last_warning_signature: None,
        last_event_summary: None,
    }
}

impl Default for UnifiedExecMonitorState {
    fn default() -> (r: Self)
        ensures
            r@ == fresh_monitor(),
    {
        UnifiedExecMonitorState {
            status: UnifiedExecMonitorStatus::Starting,
            pending_line: String::new(),
            ready_reported: false,
            last_error_signature: None,
            last_warning_signature: None,
            last_event_summary: None,
        }
    }
}

impl UnifiedExecMonitorState {
    pub fn status(&self) -> (r: UnifiedExecMonitorStatus)
        ensures
            r == self@.status,
    {
        self.status
    }

    pub fn last_event_summary(&self) -> (r: Option<&str>)
        ensures
            r.deep_view() == self@.last_event_summary,
    {
        borrowed(&self.last_event_summary)
    }

    /// Takes in a chunk of the terminal's output. Bytes that are no UTF-8 are
    /// replaced.
    pub fn ingest_chunk(
        &mut self,
        chunk: &[u8],
        command_display: &str,
        process_id: Option<&str>,
    ) -> (r: UnifiedExecMonitorUpdate)
        ensures
            r.completed_lines.deep_view() == finished_lines(
                old(self)@.pending_line,
                utf8_lossy(chunk@),
            ),
            (final(self)@, notice(r.notification)) == ingested(
                old(self)@,
                utf8_lossy(chunk@),
                command_display@,
                process_id.deep_view(),
            ),
            valid_utf8(chunk@) ==> utf8_lossy(chunk@) == decode_utf8(chunk@),
    {
        let text = decode_lossy(chunk);
        self.ingest_text(text.as_str(), command_display, process_id)
    }

    /// Takes in decoded output of the terminal.
    pub fn ingest_text(
        &mut self,
        text: &str,
        command_display: &str,
        process_id: Option<&str>,
    ) -> (r: UnifiedExecMonitorUpdate)
        ensures
            r.completed_lines.deep_view() == finished_lines(old(self)@.pending_line, text@),
            (final(self)@, notice(r.notification)) == ingested(
                old(self)@,
                text@,
                command_display@,
                process_id.deep_view(),
            ),
    {
        let chars = chars_of(text);
        let mut completed_lines: Vec<String> = Vec::new();
        let mut notification: Option<UnifiedExecMonitorNotification> = None;
        let ghost start = self@;
        let ghost pid = process_id.deep_view();
        let mut i: usize = 0;
        assert(completed_lines.deep_view() == Seq::<Seq<char>>::empty());
        while i < chars.len()
            invariant
                i <= chars@.len(),
                pid == process_id.deep_view(),
                completed_lines.deep_view() == finished_lines(
                    start.pending_line,
                    chars@.subrange(0, i as int),
                ),
                self@ == (MonitorModel {
                    pending_line: unfinished_line(start.pending_line, chars@.subrange(0, i as int)),
                    ..observed_lines(start, completed_lines.deep_view(), command_display@, pid).0
                }),
                notice(notification) == observed_lines(
                    start,
                    completed_lines.deep_view(),
                    command_display@,
                    pid,
                ).1,
            decreases chars.len() - i,
        {
            let ghost done = chars@.subrange(0, i as int);
            let ghost next = chars@.subrange(0, i + 1);
            assert(next.drop_last() == done);
            let ghost seen = completed_lines.deep_view();
            let c = chars[i];
            if c == '\n' || c == '\r' {
                if let Some(line) = self.take_completed_line() {
                    if notification.is_none() {
                        notification =
                        self.observe_line(line.as_str(), command_display, process_id);
                    }
                    completed_lines.push(line);
                    assert(completed_lines.deep_view() == seen.push(line@));
                    assert(completed_lines.deep_view().drop_last() == seen);
                }
            } else {
                self.pending_line.push(c);
            }
            i = i + 1;
        }
        assert(chars@.subrange(0, i as int) == chars@);
        if notification.is_none() && completed_lines.len() > 0 && self.status
            == UnifiedExecMonitorStatus::Starting {
            self.status = UnifiedExecMonitorStatus::Running;
        }
        UnifiedExecMonitorUpdate { completed_lines, notification }
    }

    /// Ends the pending line. Gives it trimmed, unless nothing is left of it.
    fn take_completed_line(&mut self) -> (r: Option<String>)
        ensures
            final(self)@ == (MonitorModel { pending_line: Seq::empty(), ..old(self)@ }),
            r.deep_view() == if trim(old(self)@.pending_line).len() > 0 {
                Some(trim(old(self)@.pending_line))
            } else {
                None
            },
    {
        let line = trimmed(self.pending_line.as_str());
        self.pending_line = String::new();
        if line.as_str().is_empty() {
            None
        } else {
            Some(line)
        }
    }

    /// Takes in one completed line.
    fn observe_line(
        &mut self,
        line: &str,
        command_display: &str,
        process_id: Option<&str>,
    ) -> (r: Option<UnifiedExecMonitorNotification>)
        ensures
            ({
                // The pending line has no part in what is observed.
                let (m, n) = observed(
                    old(self)@,
                    line@,
                    command_display@,
                    process_id.deep_view(),
                );
                final(self)@ == m && notice(r) == n
            }),
    {
        let normalized = normalize_signature(line);

        if is_error_line(normalized.as_str()) {
            let should_notify = match &self.last_error_signature {
                Some(last) => !same_text(last.as_str(), normalized.as_str()),
                None => true,
            };
            self.status = UnifiedExecMonitorStatus::Error;
            self.last_error_signature = Some(normalized);
            self.last_event_summary =
            Some("error: ".to_owned().concat(summarize_line(line).as_str()));
            if should_notify {
                return Some(
                    UnifiedExecMonitorNotification {
                        level: UnifiedExecMonitorNotificationLevel::Error,
                        message: format_notification_message(
                            process_id,
                            command_display,
                            "reported an error",
                            line,
                        ),
                    },
                );
            }
            return None;
        }
        if is_ready_line(normalized.as_str()) {
            self.status = UnifiedExecMonitorStatus::Ready;
            self.last_event_summary =
            Some("ready: ".to_owned().concat(summarize_line(line).as_str()));
            if !self.ready_reported {
                self.ready_reported = true;
                return Some(
                    UnifiedExecMonitorNotification {
                        level: UnifiedExecMonitorNotificationLevel::Info,
                        message: format_notification_message(
                            process_id,
                            command_display,
                            "is ready",
                            line,
                        ),
                    },
                );
            }
            return None;
        }
        if is_warning_line(normalized.as_str()) {
            let should_update = match &self.last_warning_signature {
                Some(last) => !same_text(last.as_str(), normalized.as_str()),
                None => true,
            };
            self.last_warning_signature = Some(normalized);
            if should_update {
                self.status = UnifiedExecMonitorStatus::Warning;
                self.last_event_summary =
                Some("warning: ".to_owned().concat(summarize_line(line).as_str()));
            }
            return None;
        }
        if self.status == UnifiedExecMonitorStatus::Starting {
            self.status = UnifiedExecMonitorStatus::Running;
        }
        None
    }
}

/// The text of a notification.
pub fn format_notification_message(
    process_id: Option<&str>,
    command_display: &str,
    action: &str,
    line: &str,
) -> (r: String)
    ensures
        r@ == notification_message(process_id.deep_view(), command_display@, action@, line@),
{
    let process_label = match process_id {
        Some(id) => "background terminal ".to_owned().concat(id),
        None => "background terminal".to_owned(),
    };
    let mut out = "Monitor: ".to_owned();
    out.append(process_label.as_str());
    out.append(" ");
    out.append(action);
    out.append(" for `");
    out.append(summarize_line(command_display).as_str());
    out.append("` (");
    out.append(summarize_line(line).as_str());
    out.append(")");
    out
}

/// At most the first 120 characters of the trimmed text, and dots where more
/// follow.
pub fn summarize_line(input: &str) -> (r: String)
    ensures
        r@ == summary(input@),
{
    let t = trimmed(input);
    let chars = chars_of(t.as_str());
    if chars.len() > 120 {
        string_of(chars.as_slice(), 0, 120).concat("...")
    } else {
        t
    }
}

/// A line stripped of what does not tell two reports of one event apart.
pub fn normalize_signature(line: &str) -> (r: String)
    ensures
        r@ == signature(line@),
{
    ascii_lowercase(trimmed(line).as_str())
}

pub fn is_ready_line(line: &str) -> (r: bool)
    ensures
        r == ready_signature(line@),
{
    has_text(line, "compiled successfully") || has_text(line, "ready in ") || has_text(
        line,
        "ready on ",
    ) || has_text(line, "ready at ") || has_text(line, "server started") || has_text(
        line,
        "listening on",
    ) || has_text(line, "listening at") || has_text(line, "running at") || has_text(
        line,
        "available at",
    ) || has_text(line, "local:") || has_text(line, "http://localhost") || has_text(
        line,
        "https://localhost",
    ) || has_text(line, "started on port")
}

pub fn is_error_line(line: &str) -> (r: bool)
    ensures
        r == error_signature(line@),
{
    if has_text(line, "0 errors") || has_text(line, "without errors") {
        return false;
    }
    has_prefix(line, "error") || has_text(line, " error:") || has_text(line, " failed") || has_text(
        line,
        "failed to compile",
    ) || has_text(line, "compilation failed") || has_text(line, "traceback") || has_text(
        line,
        "unhandled",
    ) || has_text(line, "exception") || has_text(line, "panic")
}

pub fn is_warning_line(line: &str) -> (r: bool)
    ensures
        r == warning_signature(line@),
{
    has_prefix(line, "warning") || has_text(line, " warning:")
}

/// How the output is cut into chunks has no part in which lines it has: a line
/// waits until its line break comes.
pub proof fn law_lines_do_not_depend_on_chunks(pending: Seq<char>, a: Seq<char>, b: Seq<char>)
    ensures
        finished_lines(pending, a + b) == finished_lines(pending, a) + finished_lines(
            unfinished_line(pending, a),
            b,
        ),
        unfinished_line(pending, a + b) == unfinished_line(unfinished_line(pending, a), b),
    decreases b.len(),
{
    if b.len() == 0 {
        assert(a + b == a);
    } else {
        law_lines_do_not_depend_on_chunks(pending, a, b.drop_last());
        assert((a + b).drop_last() == a + b.drop_last());
        assert((a + b).last() == b.last());
    }
}

/// Output without a line break completes no line, tells nothing and changes
/// nothing but the pending line.
pub proof fn law_partial_lines_wait(
    m: MonitorModel,
    text: Seq<char>,
    command: Seq<char>,
    process_id: Option<Seq<char>>,
)
    requires
        forall|i: int| 0 <= i < text.len() ==> !line_break(#[trigger] text[i]),
    ensures
        finished_lines(m.pending_line, text).len() == 0,
        ingested(m, text, command, process_id) == (
            MonitorModel { pending_line: m.pending_line + text, ..m },
            None::<NoticeModel>,
        ),
{
    lemma_no_break(m.pending_line, text);
}

proof fn lemma_no_break(pending: Seq<char>, text: Seq<char>)
    requires
        forall|i: int| 0 <= i < text.len() ==> !line_break(#[trigger] text[i]),
    ensures
        finished_lines(pending, text).len() == 0,
        unfinished_line(pending, text) == pending + text,
    decreases text.len(),
{
    if text.len() > 0 {
        let head = text.drop_last();
        assert forall|i: int| 0 <= i < head.len() implies !line_break(#[trigger] head[i]) by {
            assert(head[i] == text[i]);
        }
        lemma_no_break(pending, head);
        assert(!line_break(text[text.len() - 1]));
        assert(pending + text == (pending + head).push(text.last()));
    } else {
        assert(pending + text == pending);
    }
}

/// What a monitor knows after the outputs `texts`.
pub open spec fn known_after(
    m: MonitorModel,
    texts: Seq<Seq<char>>,
    command: Seq<char>,
    process_id: Option<Seq<char>>,
) -> MonitorModel
    decreases texts.len(),
{
    if texts.len() == 0 {
        m
    } else {
        ingested(
            known_after(m, texts.drop_last(), command, process_id),
            texts.last(),
            command,
            process_id,
        ).0
    }
}

/// What a monitor tells the user when output `k` of `texts` comes.
pub open spec fn notice_at(
    m: MonitorModel,
    texts: Seq<Seq<char>>,
    k: int,
    command: Seq<char>,
    process_id: Option<Seq<char>>,
) -> Option<NoticeModel> {
    ingested(
        known_after(m, texts.take(k), command, process_id),
        texts[k],
        command,
        process_id,
    ).1
}

proof fn lemma_lines_keep_ready(
    m: MonitorModel,
    lines: Seq<Seq<char>>,
    command: Seq<char>,
    process_id: Option<Seq<char>>,
)
    ensures
        ({
            let (seen, note) = observed_lines(m, lines, command, process_id);
            &&& m.ready_reported ==> seen.ready_reported
            &&& (note matches Some(n) && n.0 == UnifiedExecMonitorNotificationLevel::Info)
                ==> !m.ready_reported && seen.ready_reported
        }),
    decreases lines.len(),
{
    if lines.len() > 0 {
        lemma_lines_keep_ready(m, lines.drop_last(), command, process_id);
    }
}

proof fn lemma_known_after_keeps_ready(
    m: MonitorModel,
    texts: Seq<Seq<char>>,
    k: int,
    command: Seq<char>,
    process_id: Option<Seq<char>>,
)
    requires
        0 <= k <= texts.len(),
        known_after(m, texts.take(k), command, process_id).ready_reported,
    ensures
        known_after(m, texts, command, process_id).ready_reported,
    decreases texts.len(),
{
    if k == texts.len() {
        assert(texts.take(k) == texts);
    } else {
        assert(texts.drop_last().take(k) == texts.take(k));
        lemma_known_after_keeps_ready(m, texts.drop_last(), k, command, process_id);
        let before = known_after(m, texts.drop_last(), command, process_id);
        lemma_lines_keep_ready(
            before,
            finished_lines(before.pending_line, texts.last()),
            command,
            process_id,
        );
    }
}

/// However much output comes, the user is told at most once that the terminal
/// is ready.
pub proof fn law_ready_is_told_once(
    m: MonitorModel,
    texts: Seq<Seq<char>>,
    i: int,
    j: int,
    command: Seq<char>,
    process_id: Option<Seq<char>>,
)
    requires
        0 <= i < j < texts.len(),
        notice_at(m, texts, i, command, process_id) matches Some(n) && n.0
            == UnifiedExecMonitorNotificationLevel::Info,
    ensures
        notice_at(m, texts, j, command, process_id) matches Some(n) ==> n.0
            == UnifiedExecMonitorNotificationLevel::Error,
{
    let first = known_after(m, texts.take(i), command, process_id);
    lemma_lines_keep_ready(
        first,
        finished_lines(first.pending_line, texts[i]),
        command,
        process_id,
    );
    let upto = texts.take(j);
    assert(upto.take(i + 1).drop_last() == texts.take(i));
    assert(upto.take(i + 1).last() == texts[i]);
    lemma_known_after_keeps_ready(m, upto, i + 1, command, process_id);
    let second = known_after(m, upto, command, process_id);
    lemma_lines_keep_ready(
        second,
        finished_lines(second.pending_line, texts[j]),
        command,
        process_id,
    );
}

/// An error is told once: while no other error comes, lines with its signature
/// tell the user nothing more.
pub proof fn law_repeated_errors_are_silent(
    m: MonitorModel,
    line: Seq<char>,
    between: Seq<Seq<char>>,
    again: Seq<char>,
    command: Seq<char>,
    process_id: Option<Seq<char>>,
)
    requires
        error_signature(signature(line)),
        signature(again) == signature(line),
        forall|k: int|
            0 <= k < between.len() && error_signature(signature(#[trigger] between[k]))
                ==> signature(between[k]) == signature(line),
    ensures
        observed(
            observed_lines(
                observed(m, line, command, process_id).0,
                between,
                command,
                process_id,
            ).0,
            again,
            command,
            process_id,
        ).1 is None,
{
    let told = observed(m, line, command, process_id).0;
    lemma_keeps_error_signature(told, between, signature(line), command, process_id);
}

proof fn lemma_keeps_error_signature(
    m: MonitorModel,
    lines: Seq<Seq<char>>,
    sig: Seq<char>,
    command: Seq<char>,
    process_id: Option<Seq<char>>,
)
    requires
        m.last_error_signature == Some(sig),
        forall|k: int|
            0 <= k < lines.len() && error_signature(signature(#[trigger] lines[k])) ==> signature(
                lines[k],
            ) == sig,
    ensures
        observed_lines(m, lines, command, process_id).0.last_error_signature == Some(sig),
    decreases lines.len(),
{
    if lines.len() > 0 {
        let head = lines.drop_last();
        assert forall|k: int|
            0 <= k < head.len() && error_signature(
                signature(#[trigger] head[k]),
            ) implies signature(head[k]) == sig by {
            assert(head[k] == lines[k]);
        }
        lemma_keeps_error_signature(m, head, sig, command, process_id);
        assert(lines.last() == lines[lines.len() - 1]);
    }
}

/// The user is told of errors and of readiness only, and then the status says
/// the same: a warning or an ordinary line is never told.
pub proof fn law_notices_are_errors_or_readiness(
    m: MonitorModel,
    line: Seq<char>,
    command: Seq<char>,
    process_id: Option<Seq<char>>,
)
    ensures
        observed(m, line, command, process_id).1 matches Some(n) ==> match n.0 {
            UnifiedExecMonitorNotificationLevel::Error => error_signature(signature(line))
                && observed(m, line, command, process_id).0.status
                == UnifiedExecMonitorStatus::Error,
            UnifiedExecMonitorNotificationLevel::Info => ready_signature(signature(line))
                && !error_signature(signature(line)) && observed(
                m,
                line,
                command,
                process_id,
            ).0.status == UnifiedExecMonitorStatus::Ready,
        },
{
}

/// `pattern`, in whatever case of its ASCII letters, stands in `line` from position
/// `at` on.
pub open spec fn stands_in_any_case(line: Seq<char>, pattern: Seq<char>, at: int) -> bool {
    &&& 0 <= at
    &&& at + pattern.len() <= line.len()
    &&& forall|i: int| 0 <= i < pattern.len() ==> ascii_lower(line[at + i]) == #[trigger] pattern[i]
}

/// `line` holds `pattern`, in whatever case of its ASCII letters.
pub open spec fn holds_in_any_case(line: Seq<char>, pattern: Seq<char>) -> bool {
    exists|at: int| stands_in_any_case(line, pattern, at)
}

/// A line as a monitor completes it: not empty, and without white space at its ends.
pub open spec fn is_completed(line: Seq<char>) -> bool {
    line.len() > 0 && !white_space(line[0]) && !white_space(line.last())
}

proof fn lemma_signature_of_completed(line: Seq<char>)
    requires
        is_completed(line),
    ensures
        signature(line) == line.map_values(|c: char| ascii_lower(c)),
        forall|p: Seq<char>|
            #![trigger contains(signature(line), p)]
            #![trigger holds_in_any_case(line, p)]
            contains(signature(line), p) <==> holds_in_any_case(line, p),
        forall|p: Seq<char>|
            #![trigger starts_with(signature(line), p)]
            #![trigger stands_in_any_case(line, p, 0)]
            starts_with(signature(line), p) <==> stands_in_any_case(line, p, 0),
{
    lemma_nothing_to_trim(line);
    let sig = signature(line);
    assert forall|p: Seq<char>, at: int| #[trigger] occurs_at(sig, p, at) <==> stands_in_any_case(
        line,
        p,
        at,
    ) by {
        if occurs_at(sig, p, at) {
            assert forall|i: int| 0 <= i < p.len() implies ascii_lower(line[at + i])
                == #[trigger] p[i] by {
                assert(sig.subrange(at, at + p.len())[i] == p[i]);
            }
        }
        if stands_in_any_case(line, p, at) {
            assert forall|i: int| 0 <= i < p.len() implies sig.subrange(at, at + p.len())[i]
                == p[i] by {
                assert(ascii_lower(line[at + i]) == p[i]);
            }
            assert(sig.subrange(at, at + p.len()) =~= p);
        }
    }
    assert forall|p: Seq<char>|
        #![trigger contains(sig, p)]
        #![trigger holds_in_any_case(line, p)]
        contains(sig, p) <==> holds_in_any_case(line, p) by {
        if contains(sig, p) {
            let at = choose|at: int| occurs_at(sig, p, at);
            assert(stands_in_any_case(line, p, at));
        }
        if holds_in_any_case(line, p) {
            let at = choose|at: int| stands_in_any_case(line, p, at);
            assert(occurs_at(sig, p, at));
        }
    }
    assert forall|p: Seq<char>|
        #![trigger starts_with(sig, p)]
        #![trigger stands_in_any_case(line, p, 0)]
        starts_with(sig, p) <==> stands_in_any_case(line, p, 0) by {
        assert(occurs_at(sig, p, 0) <==> stands_in_any_case(line, p, 0));
    }
}

/// What a line that is no error and tells of none looks like: it holds none of the
/// patterns of errors, or says that there were none.
pub open spec fn tells_of_no_error(line: Seq<char>) -> bool {
    ||| holds_in_any_case(line, "0 errors"@)
    ||| holds_in_any_case(line, "without errors"@)
    ||| {
        &&& !stands_in_any_case(line, "error"@, 0)
        &&& !holds_in_any_case(line, " error:"@)
        &&& !holds_in_any_case(line, " failed"@)
        &&& !holds_in_any_case(line, "failed to compile"@)
        &&& !holds_in_any_case(line, "compilation failed"@)
        &&& !holds_in_any_case(line, "traceback"@)
        &&& !holds_in_any_case(line, "unhandled"@)
        &&& !holds_in_any_case(line, "exception"@)
        &&& !holds_in_any_case(line, "panic"@)
    }
}

/// A completed line that starts with `error`, or holds any other pattern of errors,
/// in whatever case, and says neither `0 errors` nor `without errors`, is an error:
/// the status says so, and the user is told of it with the command and the line,
/// unless the last error was the same line but for the case of its letters.
pub proof fn law_lines_with_a_pattern_of_errors_are_told(
    m: MonitorModel,
    line: Seq<char>,
    pattern: Seq<char>,
    command: Seq<char>,
    process_id: Option<Seq<char>>,
)
    requires
        is_completed(line),
        !holds_in_any_case(line, "0 errors"@),
        !holds_in_any_case(line, "without errors"@),
        ({
            ||| stands_in_any_case(line, "error"@, 0)
            ||| holds_in_any_case(line, pattern) && {
                ||| pattern == " error:"@
                ||| pattern == " failed"@
                ||| pattern == "failed to compile"@
                ||| pattern == "compilation failed"@
                ||| pattern == "traceback"@
                ||| pattern == "unhandled"@
                ||| pattern == "exception"@
                ||| pattern == "panic"@
            }
        }),
    ensures
        ({
            let (seen, note) = observed(m, line, command, process_id);
            let lowered = line.map_values(|c: char| ascii_lower(c));
            &&& seen == (MonitorModel {
                status: UnifiedExecMonitorStatus::Error,
                last_error_signature: Some(lowered),
                last_event_summary: Some("error: "@ + summary(line)),
                ..m
            })
            &&& note == if m.last_error_signature == Some(lowered) {
                None
            } else {
                Some(
                    (
                        UnifiedExecMonitorNotificationLevel::Error,
                        match process_id {
                            Some(id) => "Monitor: background terminal "@ + id
                                + " reported an error for `"@ + summary(command) + "` ("@ + summary(
                                line,
                            ) + ")"@,
                            None => "Monitor: background terminal reported an error for `"@
                                + summary(command) + "` ("@ + summary(line) + ")"@,
                        },
                    ),
                )
            }
        }),
{
    lemma_signature_of_completed(line);
    lemma_message(process_id, command, "reported an error"@, line);
    reveal_strlit(" reported an error for `");
    reveal_strlit("Monitor: background terminal reported an error for `");
    reveal_strlit("reported an error");
    reveal_strlit("Monitor: background terminal");
    assert(" "@ + "reported an error"@ + " for `"@ =~= " reported an error for `"@) by {
        reveal_strlit(" ");
        reveal_strlit(" for `");
    }
    assert("Monitor: background terminal"@ + " reported an error for `"@
        =~= "Monitor: background terminal reported an error for `"@);
}

/// A notification names the terminal, what happened, the command and the line.
proof fn lemma_message(
    process_id: Option<Seq<char>>,
    command: Seq<char>,
    action: Seq<char>,
    line: Seq<char>,
)
    ensures
        notification_message(process_id, command, action, line) == match process_id {
            Some(id) => "Monitor: background terminal "@ + id + (" "@ + action + " for `"@)
                + summary(command) + "` ("@ + summary(line) + ")"@,
            None => "Monitor: background terminal"@ + (" "@ + action + " for `"@) + summary(command)
                + "` ("@ + summary(line) + ")"@,
        },
{
    reveal_strlit("Monitor: ");
    reveal_strlit("background terminal ");
    reveal_strlit("background terminal");
    reveal_strlit("Monitor: background terminal ");
    reveal_strlit("Monitor: background terminal");
    assert("Monitor: "@ + "background terminal "@ =~= "Monitor: background terminal "@);
    assert("Monitor: "@ + "background terminal"@ =~= "Monitor: background terminal"@);
    let rest = summary(command) + "` ("@ + summary(line) + ")"@;
    match process_id {
        Some(id) => {
            assert(notification_message(process_id, command, action, line) =~= (
            "Monitor: background terminal "@ + id + (" "@ + action + " for `"@)) + rest) by {
                let named = "Monitor: background terminal "@ + id;
                assert("Monitor: "@ + ("background terminal "@ + id) =~= named);
            }
        },
        None => {
            assert(notification_message(process_id, command, action, line) =~= (
            "Monitor: background terminal"@ + (" "@ + action + " for `"@)) + rest);
        },
    }
}

/// A completed line that tells of no error and holds a pattern of readiness, in
/// whatever case, makes the terminal ready; the user is told of it with the command
/// and the line, the first time only.
pub proof fn law_lines_with_a_pattern_of_readiness_are_told(
    m: MonitorModel,
    line: Seq<char>,
    pattern: Seq<char>,
    command: Seq<char>,
    process_id: Option<Seq<char>>,
)
    requires
        is_completed(line),
        tells_of_no_error(line),
        holds_in_any_case(line, pattern),
        ({
            ||| pattern == "compiled successfully"@
            ||| pattern == "ready in "@
            ||| pattern == "ready on "@
            ||| pattern == "ready at "@
            ||| pattern == "server started"@
            ||| pattern == "listening on"@
            ||| pattern == "listening at"@
            ||| pattern == "running at"@
            ||| pattern == "available at"@
            ||| pattern == "local:"@
            ||| pattern == "http://localhost"@
            ||| pattern == "https://localhost"@
            ||| pattern == "started on port"@
        }),
    ensures
        ({
            let (seen, note) = observed(m, line, command, process_id);
            &&& seen == (MonitorModel {
                status: UnifiedExecMonitorStatus::Ready,
                ready_reported: true,
                last_event_summary: Some("ready: "@ + summary(line)),
                ..m
            })
            &&& note == if m.ready_reported {
                None
            } else {
                Some(
                    (
                        UnifiedExecMonitorNotificationLevel::Info,
                        match process_id {
                            Some(id) => "Monitor: background terminal "@ + id + " is ready for `"@
                                + summary(command) + "` ("@ + summary(line) + ")"@,
                            None => "Monitor: background terminal is ready for `"@
                                + summary(command) + "` ("@ + summary(line) + ")"@,
                        },
                    ),
                )
            }
        }),
{
    lemma_signature_of_completed(line);
    lemma_message(process_id, command, "is ready"@, line);
    reveal_strlit(" is ready for `");
    reveal_strlit("Monitor: background terminal is ready for `");
    reveal_strlit("is ready");
    reveal_strlit("Monitor: background terminal");
    assert(" "@ + "is ready"@ + " for `"@ =~= " is ready for `"@) by {
        reveal_strlit(" ");
        reveal_strlit(" for `");
    }
    assert("Monitor: background terminal"@ + " is ready for `"@
        =~= "Monitor: background terminal is ready for `"@);
}

/// A line holds no pattern of readiness.
pub open spec fn tells_of_no_readiness(line: Seq<char>) -> bool {
    &&& !holds_in_any_case(line, "compiled successfully"@)
    &&& !holds_in_any_case(line, "ready in "@)
    &&& !holds_in_any_case(line, "ready on "@)
    &&& !holds_in_any_case(line, "ready at "@)
    &&& !holds_in_any_case(line, "server started"@)
    &&& !holds_in_any_case(line, "listening on"@)
    &&& !holds_in_any_case(line, "listening at"@)
    &&& !holds_in_any_case(line, "running at"@)
    &&& !holds_in_any_case(line, "available at"@)
    &&& !holds_in_any_case(line, "local:"@)
    &&& !holds_in_any_case(line, "http://localhost"@)
    &&& !holds_in_any_case(line, "https://localhost"@)
    &&& !holds_in_any_case(line, "started on port"@)
}

/// Of any other completed line the user is told nothing. One that starts with
/// `warning`, or holds ` warning:`, is remembered as a warning, unless it was the
/// last one; one that does neither ends the start and changes nothing else.
pub proof fn law_other_lines_are_not_told(
    m: MonitorModel,
    line: Seq<char>,
    command: Seq<char>,
    process_id: Option<Seq<char>>,
)
    requires
        is_completed(line),
        tells_of_no_error(line),
        tells_of_no_readiness(line),
    ensures
        ({
            let lowered = line.map_values(|c: char| ascii_lower(c));
            observed(m, line, command, process_id) == (
                if stands_in_any_case(line, "warning"@, 0) || holds_in_any_case(
                    line,
                    " warning:"@,
                ) {
                    if m.last_warning_signature == Some(lowered) {
                        m
                    } else {
                        MonitorModel {
                            status: UnifiedExecMonitorStatus::Warning,
                            last_warning_signature: Some(lowered),
                            last_event_summary: Some("warning: "@ + summary(line)),
                            ..m
                        }
                    }
                } else {
                    MonitorModel {
                        status: match m.status {
                            UnifiedExecMonitorStatus::Starting => UnifiedExecMonitorStatus::Running,
                            other => other,
                        },
                        ..m
                    }
                },
                None::<NoticeModel>,
            )
        }),
{
    lemma_signature_of_completed(line);
}

/// A summary is the text without the white space around it: whole where it has no
/// more than 120 characters, and otherwise its first 120 and dots.
pub proof fn law_summaries_keep_120_characters(
    before: Seq<char>,
    head: Seq<char>,
    tail: Seq<char>,
    after: Seq<char>,
)
    requires
        blank(before),
        blank(after),
        (head + tail).len() > 0 ==> !white_space((head + tail)[0]) && !white_space(
            (head + tail).last(),
        ),
        head.len() <= 120,
        tail.len() > 0 ==> head.len() == 120,
    ensures
        summary(before + (head + tail) + after) == if tail.len() > 0 {
            head + "..."@
        } else {
            head
        },
{
    law_trimming_leaves_what_space_surrounds(before, head + tail, after);
    assert((head + tail).take(head.len() as int) =~= head);
    if tail.len() == 0 {
        assert(head + tail =~= head);
    }
}

/// A line feed or a carriage return completes the line that was pending, trimmed,
/// unless nothing is left of it. What follows starts a line anew.
pub proof fn law_line_breaks_complete_lines(
    pending: Seq<char>,
    text: Seq<char>,
    end: char,
    rest: Seq<char>,
)
    requires
        !text.contains('\n'),
        !text.contains('\r'),
        end == '\n' || end == '\r',
    ensures
        unfinished_line(pending, text) == pending + text,
        finished_lines(pending, text) == Seq::<Seq<char>>::empty(),
        unfinished_line(pending, text.push(end) + rest) == unfinished_line(Seq::empty(), rest),
        finished_lines(pending, text.push(end) + rest) == if blank(pending + text) {
            finished_lines(Seq::empty(), rest)
        } else {
            seq![trim(pending + text)] + finished_lines(Seq::empty(), rest)
        },
{
    assert forall|i: int| 0 <= i < text.len() implies !line_break(#[trigger] text[i]) by {
        assert(text.contains(text[i]));
    }
    lemma_no_break(pending, text);
    lemma_blank_is_trimmed_away(pending + text);
    law_lines_do_not_depend_on_chunks(pending, text.push(end), rest);
    assert(text.push(end).drop_last() =~= text);
    if blank(pending + text) {
        assert(Seq::<Seq<char>>::empty() + finished_lines(Seq::empty(), rest) =~= finished_lines(
            Seq::empty(),
            rest,
        ));
    } else {
        assert(Seq::<Seq<char>>::empty().push(trim(pending + text)) =~= seq![trim(pending + text)]);
    }
}

/// Completed lines are looked at one after the other, up to the first of which the
/// user is told; those after it are not.
pub proof fn law_lines_are_looked_at_until_one_is_told(
    m: MonitorModel,
    lines: Seq<Seq<char>>,
    line: Seq<char>,
    more: Seq<Seq<char>>,
    command: Seq<char>,
    process_id: Option<Seq<char>>,
)
    ensures
        observed_lines(m, Seq::empty(), command, process_id) == (m, None::<NoticeModel>),
        observed_lines(m, seq![line], command, process_id) == observed(
            m,
            line,
            command,
            process_id,
        ),
        ({
            let (seen, note) = observed_lines(m, lines, command, process_id);
            observed_lines(m, lines + more, command, process_id) == if note is Some {
                (seen, note)
            } else {
                observed_lines(seen, more, command, process_id)
            }
        }),
    decreases more.len(),
{
    assert(seq![line].drop_last() =~= Seq::<Seq<char>>::empty());
    assert(observed_lines(m, Seq::<Seq<char>>::empty(), command, process_id) == (
        m,
        None::<NoticeModel>,
    ));
    if more.len() == 0 {
        assert(lines + more =~= lines);
    } else {
        assert((lines + more).drop_last() =~= lines + more.drop_last());
        assert((lines + more).last() == more.last());
        law_lines_are_looked_at_until_one_is_told(
            m,
            lines,
            line,
            more.drop_last(),
            command,
            process_id,
        );
    }
}

/// Output that completes one line has the monitor look at that line, trimmed, and
/// tells the user what there is to tell of it. Whatever line it is, the start is
/// over. Output that completes a blank line has no effect but to end that line.
pub proof fn law_output_that_ends_a_line_has_it_looked_at(
    m: MonitorModel,
    text: Seq<char>,
    end: char,
    command: Seq<char>,
    process_id: Option<Seq<char>>,
)
    requires
        !text.contains('\n'),
        !text.contains('\r'),
        end == '\n' || end == '\r',
    ensures
        ({
            let line = m.pending_line + text;
            let (seen, note) = observed(m, trim(line), command, process_id);
            ingested(m, text.push(end), command, process_id) == if blank(line) {
                (MonitorModel { pending_line: Seq::empty(), ..m }, None)
            } else {
                (
                    MonitorModel {
                        pending_line: Seq::empty(),
                        status: match seen.status {
                            UnifiedExecMonitorStatus::Starting => UnifiedExecMonitorStatus::Running,
                            other => other,
                        },
                        ..seen
                    },
                    note,
                )
            }
        }),
{
    let line = m.pending_line + text;
    law_line_breaks_complete_lines(m.pending_line, text, end, Seq::empty());
    assert(text.push(end) + Seq::<char>::empty() =~= text.push(end));
    let none = Seq::<Seq<char>>::empty();
    law_lines_are_looked_at_until_one_is_told(m, none, trim(line), none, command, process_id);
    if !blank(line) {
        assert(seq![trim(line)] + none =~= seq![trim(line)]);
    }
}

/// Every status has a label of its own, which is its name in capital letters.
pub proof fn law_labels_tell_the_status(a: UnifiedExecMonitorStatus, b: UnifiedExecMonitorStatus)
    ensures
        a.label_text() == b.label_text() ==> a == b,
        a is Starting ==> a.label_text() == "STARTING"@,
        a is Error ==> a.label_text() == "ERROR"@,
{
    reveal_strlit("STARTING");
    reveal_strlit("RUNNING");
    reveal_strlit("READY");
    reveal_strlit("WARNING");
    reveal_strlit("ERROR");
    assert("STARTING"@.len() == 8);
    assert("RUNNING"@.len() == 7 && "RUNNING"@[0] == 'R');
    assert("WARNING"@.len() == 7 && "WARNING"@[0] == 'W');
    assert("READY"@.len() == 5 && "READY"@[0] == 'R');
    assert("ERROR"@.len() == 5 && "ERROR"@[0] == 'E');
}

/// Output that completes a line with a pattern of errors tells the user of that line,
/// and the status says error, however the line came in chunks; unless the last error
/// was the same line but for the case of its letters, or the line says that there
/// were no errors.
pub proof fn law_errors_in_the_output_are_told(
    m: MonitorModel,
    text: Seq<char>,
    end: char,
    pattern: Seq<char>,
    command: Seq<char>,
    process_id: Option<Seq<char>>,
)
    requires
        !text.contains('\n'),
        !text.contains('\r'),
        end == '\n' || end == '\r',
        !blank(m.pending_line + text),
        ({
            let line = trim(m.pending_line + text);
            &&& !holds_in_any_case(line, "0 errors"@)
            &&& !holds_in_any_case(line, "without errors"@)
            &&& {
                ||| stands_in_any_case(line, "error"@, 0)
                ||| holds_in_any_case(line, pattern) && {
                    ||| pattern == " error:"@
                    ||| pattern == " failed"@
                    ||| pattern == "failed to compile"@
                    ||| pattern == "compilation failed"@
                    ||| pattern == "traceback"@
                    ||| pattern == "unhandled"@
                    ||| pattern == "exception"@
                    ||| pattern == "panic"@
                }
            }
        }),
    ensures
        ({
            let line = trim(m.pending_line + text);
            let lowered = line.map_values(|c: char| ascii_lower(c));
            let (seen, note) = ingested(m, text.push(end), command, process_id);
            &&& seen.status == UnifiedExecMonitorStatus::Error
            &&& seen.last_error_signature == Some(lowered)
            &&& m.last_error_signature == Some(lowered) ==> note is None
            &&& m.last_error_signature != Some(lowered) ==> (note matches Some(told) && told.0
                == UnifiedExecMonitorNotificationLevel::Error && contains(told.1, summary(line)))
        }),
{
    let line = trim(m.pending_line + text);
    lemma_blank_is_trimmed_away(m.pending_line + text);
    lemma_trim(m.pending_line + text);
    law_output_that_ends_a_line_has_it_looked_at(m, text, end, command, process_id);
    law_lines_with_a_pattern_of_errors_are_told(m, line, pattern, command, process_id);
    let before = match process_id {
        Some(id) => "Monitor: background terminal "@ + id + " reported an error for `"@ + summary(
            command,
        ) + "` ("@,
        None => "Monitor: background terminal reported an error for `"@ + summary(command) + "` ("@,
    };
    law_what_stands_inside_is_held(before, summary(line), ")"@);
}

} // verus!
