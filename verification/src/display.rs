//! What the screen shows, as text: the help line of each mode, the lines of
//! the preview panels, and how far the log panel is scrolled. Drawing is left
//! to the terminal program, which styles each span by its kind.

use vstd::prelude::*;
use crate::diff::{result_summary, result_target, DiffLine, DiffLineTag, DiffLineView, DiffResult, DiffResultView};
use crate::restore::{size_text, BackupEntry, BackupEntryView};
use crate::tui::{App, AppMode};

verus! {

/// How a span of text is shown.
#[derive(PartialEq, Eq, Structural, Clone, Copy, Debug)]
pub enum SpanKind {
    /// The notice that an operation is running.
    Busy,
    /// A key binding.
    Key,
    /// Ordinary text.
    Plain,
    /// A line a sync would add.
    Added,
    /// A line a sync would remove.
    Removed,
}

/// A piece of text and how it is shown.
pub struct TextSpan {
    pub kind: SpanKind,
    pub text: String,
}

impl View for TextSpan {
    type V = (SpanKind, Seq<char>);

    open spec fn view(&self) -> (SpanKind, Seq<char>) {
        (self.kind, self.text@)
    }
}

/// Spans as plain values.
pub open spec fn spans_view(v: Seq<TextSpan>) -> Seq<(SpanKind, Seq<char>)> {
    v.map_values(|s: TextSpan| s@)
}

/// Strings as plain values.
pub open spec fn strings_view(v: Seq<String>) -> Seq<Seq<char>> {
    v.map_values(|s: String| s@)
}

/// The help line of a mode: a notice while a sync (or, in restore mode, a
/// restore) runs, else the keys of the mode.
pub open spec fn help_text(mode: AppMode, sync_busy: bool, restore_busy: bool) -> Seq<(SpanKind, Seq<char>)> {
    match mode {
        AppMode::Sync => if sync_busy {
            seq![(SpanKind::Busy, "SYNC IN PROGRESS..."@), (SpanKind::Plain, "Please wait."@)]
        } else {
            seq![
                (SpanKind::Key, "  (q) "@), (SpanKind::Plain, "Quit"@),
                (SpanKind::Key, "  (j/k) "@), (SpanKind::Plain, "Navigate"@),
                (SpanKind::Key, "  (s) "@), (SpanKind::Plain, "Sync"@),
                (SpanKind::Key, "  (d) "@), (SpanKind::Plain, "Dry Run"@),
                (SpanKind::Key, "  (r) "@), (SpanKind::Plain, "Restore Mode"@),
            ]
        },
        AppMode::Restore => if restore_busy {
            seq![(SpanKind::Busy, "RESTORE IN PROGRESS..."@), (SpanKind::Plain, "Please wait."@)]
        } else {
            seq![
                (SpanKind::Key, "  (r) "@), (SpanKind::Plain, "Restore"@),
                (SpanKind::Key, "  (d) "@), (SpanKind::Plain, "Dry Run"@),
                (SpanKind::Key, "  (Del) "@), (SpanKind::Plain, "Delete"@),
                (SpanKind::Key, "  (b) "@), (SpanKind::Plain, "Back"@),
            ]
        },
        AppMode::DiffPreview => seq![
            (SpanKind::Key, "  (q) "@), (SpanKind::Plain, "Back"@),
            (SpanKind::Key, "  (j/k) "@), (SpanKind::Plain, "Scroll"@),
            (SpanKind::Key, "  (n/N) "@), (SpanKind::Plain, "Next/Previous diff"@),
        ],
    }
}

/// The title of the help panel of a mode.
pub open spec fn help_title_text(mode: AppMode) -> Seq<char> {
    match mode {
        AppMode::Sync => " Help "@,
        AppMode::Restore => " Help - Restore Mode "@,
        AppMode::DiffPreview => " Help - Diff Preview "@,
    }
}

/// How many lines of the log are scrolled past so that its last lines fill a
/// bordered panel of the given height (taken to 16 bits, as the panel takes
/// it).
pub open spec fn scroll_offset(n_logs: nat, height: nat) -> u16 {
    let inner = height - 2;
    (if n_logs > inner { n_logs - inner } else { 0 }) as u16
}

/// The first lines of the preview of a backup, before its content.
pub open spec fn preview_head(b: BackupEntryView, time_text: Seq<char>) -> Seq<Seq<char>> {
    seq![
        "Original: "@ + b.original_name,
        "Target: "@ + b.target_path,
        "Timestamp: "@ + time_text,
        "Size: "@ + size_text(b.file_size),
        ""@,
        "Content Preview:"@,
    ]
}

/// The preview of a backup: its details, then the first lines of its content,
/// or a note when the content could not be read as text.
pub open spec fn preview_text(b: BackupEntryView, time_text: Seq<char>, content: Option<Seq<Seq<char>>>) -> Seq<Seq<char>> {
    preview_head(b, time_text) + match content {
        Some(lines) => lines,
        None => seq!["[Binary file or read error]"@],
    }
}

/// A diff line as it is shown: marked `-`, `+` or a space, by its change.
pub open spec fn marked_line(l: DiffLineView) -> (SpanKind, Seq<char>) {
    match l.tag {
        DiffLineTag::Equal => (SpanKind::Plain, " "@ + l.content),
        DiffLineTag::Delete => (SpanKind::Removed, "-"@ + l.content),
        DiffLineTag::Insert => (SpanKind::Added, "+"@ + l.content),
    }
}

/// The lines of a diff panel: the marked lines of a file diff, the lines of a
/// new file marked as added, else the result's summary.
pub open spec fn diff_text(d: DiffResultView) -> Seq<(SpanKind, Seq<char>)> {
    match d {
        DiffResultView::FileDiff { diff_lines, .. } => diff_lines.map_values(|l: DiffLineView| marked_line(l)),
        DiffResultView::NewFile { content_preview, .. } => content_preview.map_values(
            |l: Seq<char>| (SpanKind::Added, "+"@ + l),
        ),
        _ => seq![(SpanKind::Plain, result_summary(d))],
    }
}

fn push_span(v: &mut Vec<TextSpan>, kind: SpanKind, text: &str)
    ensures
        spans_view(final(v)@) == spans_view(old(v)@).push((kind, text@)),
{
    v.push(TextSpan { kind, text: text.to_owned() });
    assert(spans_view(v@) =~= spans_view(old(v)@).push((kind, text@)));
}

fn push_line(v: &mut Vec<String>, line: String)
    ensures
        strings_view(final(v)@) == strings_view(old(v)@).push(line@),
{
    v.push(line);
    assert(strings_view(v@) =~= strings_view(old(v)@).push(line@));
}

fn joined(a: &str, b: &str) -> (r: String)
    ensures
        r@ == a@ + b@,
{
    let mut s = a.to_owned();
    s.append(b);
    s
}

/// The help line of the interface's current mode.
pub fn help_spans(app: &App) -> (r: Vec<TextSpan>)
    ensures
        spans_view(r@) == help_text(app.mode, app.sync_in_progress, app.restore_in_progress),
{
    let mut v: Vec<TextSpan> = Vec::new();
    let ghost expected = help_text(app.mode, app.sync_in_progress, app.restore_in_progress);
    match app.mode {
        AppMode::Sync => {
            if app.sync_in_progress {
                push_span(&mut v, SpanKind::Busy, "SYNC IN PROGRESS...");
                push_span(&mut v, SpanKind::Plain, "Please wait.");
            } else {
                push_span(&mut v, SpanKind::Key, "  (q) ");
                push_span(&mut v, SpanKind::Plain, "Quit");
                push_span(&mut v, SpanKind::Key, "  (j/k) ");
                push_span(&mut v, SpanKind::Plain, "Navigate");
                push_span(&mut v, SpanKind::Key, "  (s) ");
                push_span(&mut v, SpanKind::Plain, "Sync");
                push_span(&mut v, SpanKind::Key, "  (d) ");
                push_span(&mut v, SpanKind::Plain, "Dry Run");
                push_span(&mut v, SpanKind::Key, "  (r) ");
                push_span(&mut v, SpanKind::Plain, "Restore Mode");
            }
        },
        AppMode::Restore => {
            if app.restore_in_progress {
                push_span(&mut v, SpanKind::Busy, "RESTORE IN PROGRESS...");
                push_span(&mut v, SpanKind::Plain, "Please wait.");
            } else {
                push_span(&mut v, SpanKind::Key, "  (r) ");
                push_span(&mut v, SpanKind::Plain, "Restore");
                push_span(&mut v, SpanKind::Key, "  (d) ");
                push_span(&mut v, SpanKind::Plain, "Dry Run");
                push_span(&mut v, SpanKind::Key, "  (Del) ");
                push_span(&mut v, SpanKind::Plain, "Delete");
                push_span(&mut v, SpanKind::Key, "  (b) ");
                push_span(&mut v, SpanKind::Plain, "Back");
            }
        },
        AppMode::DiffPreview => {
            push_span(&mut v, SpanKind::Key, "  (q) ");
            push_span(&mut v, SpanKind::Plain, "Back");
            push_span(&mut v, SpanKind::Key, "  (j/k) ");
            push_span(&mut v, SpanKind::Plain, "Scroll");
            push_span(&mut v, SpanKind::Key, "  (n/N) ");
            push_span(&mut v, SpanKind::Plain, "Next/Previous diff");
        },
    }
    assert(spans_view(v@) =~= expected);
    v
}

/// The title of the help panel of a mode.
pub fn help_title(mode: AppMode) -> (r: String)
    ensures
        r@ == help_title_text(mode),
{
    match mode {
        AppMode::Sync => " Help ".to_owned(),
        AppMode::Restore => " Help - Restore Mode ".to_owned(),
        AppMode::DiffPreview => " Help - Diff Preview ".to_owned(),
    }
}

/// How far to scroll a log of `n_logs` lines in a bordered panel of the given
/// height, which has room for its borders.
pub fn log_scroll(n_logs: usize, height: u16) -> (r: u16)
    requires
        height >= 2,
    ensures
        r == scroll_offset(n_logs as nat, height as nat),
{
    let inner: usize = (height - 2) as usize;
    let offset: usize = if n_logs > inner { n_logs - inner } else { 0 };
    offset as u16
}

/// The line of a backup in the backup list: its name and the time given.
pub fn backup_item(b: &BackupEntry, time_text: &str) -> (r: String)
    ensures
        r@ == b.original_name@ + " - "@ + time_text@,
{
    let mut s = b.original_name.clone();
    s.append(" - ");
    s.append(time_text);
    s
}

/// The backup that is selected, if the selection points at one.
pub fn selected_backup(app: &App) -> (r: Option<&BackupEntry>)
    ensures
        r is Some <==> (app.selected_backup is Some && app.selected_backup->0 < app.backups@.len()),
        r matches Some(b) ==> *b == app.backups@[app.selected_backup->0 as int],
{
    match app.selected_backup {
        Some(i) => if i < app.backups.len() {
            Some(&app.backups[i])
        } else {
            None
        },
        None => None,
    }
}

/// The preview panel when no backup is selected.
pub fn no_selection_lines() -> (r: Vec<String>)
    ensures
        strings_view(r@) == seq!["No backup selected"@],
{
    let mut v: Vec<String> = Vec::new();
    push_line(&mut v, "No backup selected".to_owned());
    assert(strings_view(v@) =~= seq!["No backup selected"@]);
    v
}

/// The preview panel of a backup, given the time to show for it and the first
/// lines of its content (`None` when it could not be read as text).
pub fn backup_preview_lines(b: &BackupEntry, time_text: &str, content: Option<Vec<String>>) -> (r: Vec<String>)
    ensures
        strings_view(r@) == preview_text(b@, time_text@, match content {
            Some(lines) => Some(strings_view(lines@)),
            None => None,
        }),
{
    let mut v: Vec<String> = Vec::new();
    push_line(&mut v, joined("Original: ", b.original_name.as_str()));
    push_line(&mut v, joined("Target: ", b.target_path.as_str()));
    push_line(&mut v, joined("Timestamp: ", time_text));
    let size = b.format_size();
    push_line(&mut v, joined("Size: ", size.as_str()));
    push_line(&mut v, String::new());
    push_line(&mut v, "Content Preview:".to_owned());
    let ghost head = strings_view(v@);
    proof {
        reveal_strlit("");
    }
    assert(head[4] == ""@);
    assert(head =~= preview_head(b@, time_text@));
    match content {
        Some(lines) => {
            let ghost lv = strings_view(lines@);
            let n = lines.len();
            for k in 0..n
                invariant
                    n == lines@.len(),
                    lv == strings_view(lines@),
                    strings_view(v@) == head + lv.take(k as int),
            {
                push_line(&mut v, lines[k].clone());
                assert(lv.take(k + 1) =~= lv.take(k as int).push(lv[k as int]));
            }
            assert(lv.take(n as int) =~= lv);
        },
        None => {
            push_line(&mut v, "[Binary file or read error]".to_owned());
            assert(strings_view(v@) =~= head + seq!["[Binary file or read error]"@]);
        },
    }
    v
}

/// The title of a diff panel: the target and the summary of the result.
pub fn diff_title(d: &DiffResult) -> (r: String)
    ensures
        r@ == " "@ + result_target(d@) + " ("@ + result_summary(d@) + ") "@,
{
    let mut s = " ".to_owned();
    s.append(d.target_path().as_str());
    s.append(" (");
    let summary = d.summary();
    s.append(summary.as_str());
    s.append(") ");
    s
}

fn marked(l: &DiffLine) -> (r: TextSpan)
    ensures
        r@ == marked_line(l@),
{
    match l.tag {
        DiffLineTag::Equal => TextSpan { kind: SpanKind::Plain, text: joined(" ", l.content.as_str()) },
        DiffLineTag::Delete => TextSpan { kind: SpanKind::Removed, text: joined("-", l.content.as_str()) },
        DiffLineTag::Insert => TextSpan { kind: SpanKind::Added, text: joined("+", l.content.as_str()) },
    }
}

/// The lines of the diff panel of a result.
pub fn diff_spans(d: &DiffResult) -> (r: Vec<TextSpan>)
    ensures
        spans_view(r@) == diff_text(d@),
{
    let mut v: Vec<TextSpan> = Vec::new();
    match d {
        DiffResult::FileDiff { diff_lines, .. } => {
            let ghost lv = diff_lines@.map_values(|l: DiffLine| l@);
            let ghost want = lv.map_values(|l: DiffLineView| marked_line(l));
            let n = diff_lines.len();
            for k in 0..n
                invariant
                    n == diff_lines@.len(),
                    lv == diff_lines@.map_values(|l: DiffLine| l@),
                    want == lv.map_values(|l: DiffLineView| marked_line(l)),
                    spans_view(v@) == want.take(k as int),
            {
                let span = marked(&diff_lines[k]);
                let ghost before = spans_view(v@);
                let ghost sv = span@;
                v.push(span);
                assert(spans_view(v@) =~= before.push(sv));
                assert(want[k as int] == marked_line(diff_lines@[k as int]@));
                assert(want.take(k + 1) =~= want.take(k as int).push(want[k as int]));
            }
            assert(want.take(n as int) =~= want);
        },
        DiffResult::NewFile { content_preview, .. } => {
            let ghost want = content_preview@.map_values(|l: String| l@).map_values(
                |l: Seq<char>| (SpanKind::Added, "+"@ + l),
            );
            let n = content_preview.len();
            for k in 0..n
                invariant
                    n == content_preview@.len(),
                    want == content_preview@.map_values(|l: String| l@).map_values(
                        |l: Seq<char>| (SpanKind::Added, "+"@ + l),
                    ),
                    spans_view(v@) == want.take(k as int),
            {
                let text = joined("+", content_preview[k].as_str());
                push_span(&mut v, SpanKind::Added, text.as_str());
                assert(want[k as int] == (SpanKind::Added, "+"@ + content_preview@[k as int]@));
                assert(want.take(k + 1) =~= want.take(k as int).push(want[k as int]));
            }
            assert(want.take(n as int) =~= want);
        },
        _ => {
            let summary = d.summary();
            push_span(&mut v, SpanKind::Plain, summary.as_str());
            assert(spans_view(v@) =~= seq![(SpanKind::Plain, result_summary(d@))]);
        },
    }
    v
}

/// The log panel ends with the newest message: when the log is longer than
/// the panel holds, the lines scrolled past and the lines shown add up to the
/// whole log (as long as the offset fits in 16 bits), and a shorter log is
/// not scrolled at all.
pub proof fn lemma_log_shows_latest(n_logs: nat, height: nat)
    requires
        height >= 2,
        n_logs <= height - 2 + u16::MAX,
    ensures
        n_logs > height - 2 ==> scroll_offset(n_logs, height) + (height - 2) == n_logs,
        n_logs <= height - 2 ==> scroll_offset(n_logs, height) == 0,
{
}

} // verus!
