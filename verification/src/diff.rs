//! Previews of what a sync would change: for each link, whether the target is
//! already linked, new, binary, unreadable, or differs line by line.

use similar::ChangeTag;
use vstd::prelude::*;
use crate::text::{decimal, find_from, lemma_find_from_bounds, lemma_trim_end_prefix, lines, lines_from, strip_cr, trim_end};

verus! {

/// The kind of change of one line of a diff.
#[derive(PartialEq, Eq, Structural, Clone, Copy, Debug)]
pub enum DiffLineTag {
    /// The line is in both files.
    Equal,
    /// The line is only in the target (it would be removed).
    Delete,
    /// The line is only in the source (it would be added).
    Insert,
}

/// One line of a diff, without trailing white space.
pub struct DiffLine {
    pub tag: DiffLineTag,
    pub content: String,
}

/// What comparing a source file with its target found.
pub enum DiffResult {
    /// The target is already a link to the source.
    NoDiff { path: String, reason: String },
    /// Both are text; the lines that differ and those that do not.
    FileDiff { source: String, target: String, diff_lines: Vec<DiffLine> },
    /// The target does not exist; the source's lines.
    NewFile { source: String, target: String, content_preview: Vec<String> },
    /// One of the files is binary.
    BinaryFile { source: String, target: String },
    /// A file could not be read.
    Error { source: String, target: String, error: String },
}

/// A diff line as plain values.
pub struct DiffLineView {
    pub tag: DiffLineTag,
    pub content: Seq<char>,
}

/// A diff result as plain values.
pub enum DiffResultView {
    NoDiff { path: Seq<char>, reason: Seq<char> },
    FileDiff { source: Seq<char>, target: Seq<char>, diff_lines: Seq<DiffLineView> },
    NewFile { source: Seq<char>, target: Seq<char>, content_preview: Seq<Seq<char>> },
    BinaryFile { source: Seq<char>, target: Seq<char> },
    Error { source: Seq<char>, target: Seq<char>, error: Seq<char> },
}

impl View for DiffLine {
    type V = DiffLineView;

    open spec fn view(&self) -> DiffLineView {
        DiffLineView { tag: self.tag, content: self.content@ }
    }
}

impl View for DiffResult {
    type V = DiffResultView;

    open spec fn view(&self) -> DiffResultView {
        match self {
            DiffResult::NoDiff { path, reason } => DiffResultView::NoDiff {
                path: path@,
                reason: reason@,
            },
            DiffResult::FileDiff { source, target, diff_lines } => DiffResultView::FileDiff {
                source: source@,
                target: target@,
                diff_lines: diff_lines@.map_values(|l: DiffLine| l@),
            },
            DiffResult::NewFile { source, target, content_preview } => DiffResultView::NewFile {
                source: source@,
                target: target@,
                content_preview: content_preview@.map_values(|l: String| l@),
            },
            DiffResult::BinaryFile { source, target } => DiffResultView::BinaryFile {
                source: source@,
                target: target@,
            },
            DiffResult::Error { source, target, error } => DiffResultView::Error {
                source: source@,
                target: target@,
                error: error@,
            },
        }
    }
}

/// The target path of a result.
pub open spec fn result_target(r: DiffResultView) -> Seq<char> {
    match r {
        DiffResultView::NoDiff { path, .. } => path,
        DiffResultView::FileDiff { target, .. } => target,
        DiffResultView::NewFile { target, .. } => target,
        DiffResultView::BinaryFile { target, .. } => target,
        DiffResultView::Error { target, .. } => target,
    }
}

/// How many lines carry `tag`.
pub open spec fn count_tag(lines: Seq<DiffLineView>, tag: DiffLineTag) -> nat
    decreases lines.len(),
{
    if lines.len() == 0 {
        0
    } else {
        count_tag(lines.drop_last(), tag) + if lines.last().tag == tag { 1nat } else { 0nat }
    }
}

/// The one-line summary of a result.
pub open spec fn result_summary(r: DiffResultView) -> Seq<char> {
    match r {
        DiffResultView::NoDiff { reason, .. } => reason,
        DiffResultView::FileDiff { diff_lines, .. } => "+"@ + decimal(
            count_tag(diff_lines, DiffLineTag::Insert),
        ) + " -"@ + decimal(count_tag(diff_lines, DiffLineTag::Delete)) + " lines"@,
        DiffResultView::NewFile { content_preview, .. } => "New file ("@ + decimal(
            content_preview.len(),
        ) + " lines)"@,
        DiffResultView::BinaryFile { .. } => "Binary file"@,
        DiffResultView::Error { error, .. } => "Error: "@ + error,
    }
}

fn count_lines_tagged(lines: &Vec<DiffLine>, tag: DiffLineTag) -> (n: u64)
    ensures
        n == count_tag(lines@.map_values(|l: DiffLine| l@), tag),
{
    let mut n: u64 = 0;
    let len = lines.len();
    let ghost v = lines@.map_values(|l: DiffLine| l@);
    for i in 0..len
        invariant
            len == lines@.len(),
            v == lines@.map_values(|l: DiffLine| l@),
            n == count_tag(v.take(i as int), tag),
            n <= i,
    {
        assert(v.take(i + 1).drop_last() =~= v.take(i as int));
        if lines[i].tag == tag {
            n = n + 1;
        }
    }
    assert(v.take(len as int) =~= v);
    n
}

impl DiffResult {
    /// The target path of this result.
    pub fn target_path(&self) -> (p: &String)
        ensures
            p@ == result_target(self@),
    {
        match self {
            DiffResult::NoDiff { path, .. } => path,
            DiffResult::FileDiff { target, .. } => target,
            DiffResult::NewFile { target, .. } => target,
            DiffResult::BinaryFile { target, .. } => target,
            DiffResult::Error { target, .. } => target,
        }
    }

    /// A one-line summary: the reason for no diff, `+a -d lines` for a file
    /// diff, `New file (n lines)`, `Binary file`, or `Error: ...`.
    pub fn summary(&self) -> (s: String)
        ensures
            s@ == result_summary(self@),
    {
        match self {
            DiffResult::NoDiff { reason, .. } => reason.clone(),
            DiffResult::FileDiff { diff_lines, .. } => {
                let additions = count_lines_tagged(diff_lines, DiffLineTag::Insert);
                let deletions = count_lines_tagged(diff_lines, DiffLineTag::Delete);
                let mut s = "+".to_owned();
                crate::text::push_decimal(&mut s, additions);
                s.append(" -");
                crate::text::push_decimal(&mut s, deletions);
                s.append(" lines");
                s
            },
            DiffResult::NewFile { content_preview, .. } => {
                let mut s = "New file (".to_owned();
                crate::text::push_decimal(&mut s, content_preview.len() as u64);
                s.append(" lines)");
                proof {
                    assert(content_preview@.map_values(|l: String| l@).len()
                        == content_preview@.len());
                }
                s
            },
            DiffResult::BinaryFile { .. } => "Binary file".to_owned(),
            DiffResult::Error { error, .. } => {
                let mut s = "Error: ".to_owned();
                s.append(error.as_str());
                s
            },
        }
    }
}


/// What the file system showed of a source and its target when they were read
/// for comparison. The reads have no effect, so they are all made up front.
pub struct DiffObservation {
    /// Whether the target exists (following links).
    pub target_exists: bool,
    /// Where the target points, when it is a symbolic link.
    pub target_link: Option<String>,
    /// The source read as UTF-8 text, or the message of the read error.
    pub source_text: Result<String, String>,
    /// The bytes of the source, when they could be read.
    pub source_bytes: Option<Vec<u8>>,
    /// The target read as UTF-8 text, or the message of the read error.
    pub target_text: Result<String, String>,
    /// The bytes of the target, when they could be read.
    pub target_bytes: Option<Vec<u8>>,
}

/// The index of the first line break (`\n` or `\r`) of `s` at or after `from`.
pub open spec fn first_break(s: Seq<char>, from: int) -> Option<int>
    decreases s.len() - from,
{
    if from >= s.len() || from < 0 {
        None
    } else if s[from] == '\n' || s[from] == '\r' {
        Some(from)
    } else {
        first_break(s, from + 1)
    }
}

/// The first line break is a `\n` or `\r`, with none before it.
pub proof fn lemma_first_break_bounds(s: Seq<char>, from: int)
    ensures
        first_break(s, from) matches Some(i) ==> from <= i < s.len() && (s[i] == '\n' || s[i] == '\r')
            && forall|j: int| from <= j < i ==> s[j] != '\n' && s[j] != '\r',
        from >= 0 && first_break(s, from) is None ==> forall|j: int|
            from <= j < s.len() ==> s[j] != '\n' && s[j] != '\r',
    decreases s.len() - from,
{
    if from >= 0 && from < s.len() && s[from] != '\n' && s[from] != '\r' {
        lemma_first_break_bounds(s, from + 1);
    }
}

/// The lines of `s[from..]` as `similar` splits a text into lines: each ends
/// after `\n`, after `\r\n`, or after a `\r` alone, terminator kept; the
/// rest after the last terminator, if any, is the last line.
pub open spec fn line_tokens_from(s: Seq<char>, from: int) -> Seq<Seq<char>>
    decreases s.len() - from,
{
    if from < 0 || from >= s.len() {
        seq![]
    } else {
        match first_break(s, from) {
            None => seq![s.subrange(from, s.len() as int)],
            Some(i) => {
                proof {
                    lemma_first_break_bounds(s, from);
                }
                let e = if s[i] == '\r' && i + 1 < s.len() && s[i + 1] == '\n' { i + 2 } else { i + 1 };
                seq![s.subrange(from, e)] + line_tokens_from(s, e)
            },
        }
    }
}

/// The lines of `s` as `similar` splits a text into lines.
pub open spec fn line_tokens(s: Seq<char>) -> Seq<Seq<char>> {
    line_tokens_from(s, 0)
}

/// The texts of the changes that are not tagged `skip`, in order: with `skip`
/// `Insert` the old side of a diff, with `Delete` the new side.
pub open spec fn side(cs: Seq<(DiffLineTag, Seq<char>)>, skip: DiffLineTag) -> Seq<Seq<char>>
    decreases cs.len(),
{
    if cs.len() == 0 {
        seq![]
    } else {
        side(cs.drop_last(), skip) + if cs.last().0 != skip { seq![cs.last().1] } else { seq![] }
    }
}

/// The contents of the diff lines that are not tagged `skip`, in order.
pub open spec fn kept(ls: Seq<DiffLineView>, skip: DiffLineTag) -> Seq<Seq<char>>
    decreases ls.len(),
{
    if ls.len() == 0 {
        seq![]
    } else {
        kept(ls.drop_last(), skip) + if ls.last().tag != skip { seq![ls.last().content] } else { seq![] }
    }
}

/// Each text without its trailing white space.
pub open spec fn trimmed(ts: Seq<Seq<char>>) -> Seq<Seq<char>> {
    ts.map_values(|t: Seq<char>| trim_end(t))
}

/// Every `\r` of `s` is followed by `\n`.
pub open spec fn no_lone_cr(s: Seq<char>) -> bool {
    forall|i: int| 0 <= i < s.len() && #[trigger] s[i] == '\r' ==> i + 1 < s.len() && s[i + 1] == '\n'
}

proof fn lemma_trimmed_concat(a: Seq<Seq<char>>, b: Seq<Seq<char>>)
    ensures
        trimmed(a + b) == trimmed(a) + trimmed(b),
{
    assert(trimmed(a + b) =~= trimmed(a) + trimmed(b));
}

/// The kept contents of the lines of a diff are the texts of its kept
/// changes, trimmed.
proof fn lemma_kept_of_lines(cs: Seq<(DiffLineTag, Seq<char>)>, skip: DiffLineTag)
    ensures
        kept(diff_lines_of(cs), skip) == trimmed(side(cs, skip)),
    decreases cs.len(),
{
    if cs.len() == 0 {
        assert(diff_lines_of(cs) =~= Seq::<DiffLineView>::empty());
        assert(trimmed(side(cs, skip)) =~= Seq::<Seq<char>>::empty());
    } else {
        lemma_kept_of_lines(cs.drop_last(), skip);
        assert(diff_lines_of(cs).drop_last() =~= diff_lines_of(cs.drop_last()));
        let last: Seq<Seq<char>> = if cs.last().0 != skip { seq![cs.last().1] } else { seq![] };
        lemma_trimmed_concat(side(cs.drop_last(), skip), last);
        assert(trimmed(last) =~= if cs.last().0 != skip { seq![trim_end(cs.last().1)] } else { seq![] });
    }
}

/// Where no `\r` stands alone, the lines as `similar` splits them and the
/// lines as `str::lines` gives them are the same once trimmed.
proof fn lemma_tokens_trim_like_lines(s: Seq<char>, from: int)
    requires
        no_lone_cr(s),
        from >= 0,
    ensures
        trimmed(line_tokens_from(s, from)) == trimmed(lines_from(s, from)),
    decreases s.len() - from,
{
    if from >= s.len() {
        assert(trimmed(line_tokens_from(s, from)) =~= trimmed(lines_from(s, from)));
    } else {
        lemma_first_break_bounds(s, from);
        lemma_find_from_bounds(s, '\n', from);
        match first_break(s, from) {
            None => {
                assert(find_from(s, '\n', from) is None);
                assert(trimmed(line_tokens_from(s, from)) =~= trimmed(lines_from(s, from)));
            },
            Some(i) => {
                if s[i] == '\r' {
                    assert(s[i + 1] == '\n');
                    assert(find_from(s, '\n', from) == Some(i + 1));
                    let tok = s.subrange(from, i + 2);
                    let line = strip_cr(s.subrange(from, i + 1));
                    assert(line =~= s.subrange(from, i));
                    assert(crate::text::is_white_space(tok[i - from]));
                    assert(crate::text::is_white_space(tok[i + 1 - from]));
                    lemma_trim_end_prefix(tok, i - from);
                    assert(tok.take(i - from) =~= line);
                    lemma_tokens_trim_like_lines(s, i + 2);
                    lemma_trimmed_concat(seq![tok], line_tokens_from(s, i + 2));
                    lemma_trimmed_concat(seq![line], lines_from(s, i + 2));
                    assert(trimmed(seq![tok]) =~= trimmed(seq![line]));
                } else {
                    assert(find_from(s, '\n', from) == Some(i));
                    let tok = s.subrange(from, i + 1);
                    let line = strip_cr(s.subrange(from, i));
                    assert(line =~= s.subrange(from, i));
                    assert(crate::text::is_white_space(tok[i - from]));
                    lemma_trim_end_prefix(tok, i - from);
                    assert(tok.take(i - from) =~= line);
                    lemma_tokens_trim_like_lines(s, i + 1);
                    lemma_trimmed_concat(seq![tok], line_tokens_from(s, i + 1));
                    lemma_trimmed_concat(seq![line], lines_from(s, i + 1));
                    assert(trimmed(seq![tok]) =~= trimmed(seq![line]));
                }
            },
        }
    }
}

/// The changes that `similar` finds between the lines of `old` and those of
/// `new`, in order: each with its tag and its text (the line as written,
/// terminator included).
pub uninterp spec fn line_changes(old: Seq<char>, new: Seq<char>) -> Seq<(DiffLineTag, Seq<char>)>;

/// `TextDiff::from_lines(old, new).iter_all_changes()` of similar, each change
/// taken as its tag and its value. The default configuration has no deadline,
/// so the result is a function of the two texts; the contract names it
/// `line_changes`. It also claims what every diff of the lines gives: the
/// values of the equal and deleted changes, in order, are the lines of `old`
/// as `tokenize_lines` splits it, and those of the equal and inserted changes
/// the lines of `new`. Which lines are matched is not claimed.
#[verifier::external_body]
fn diff_changes(old: &str, new: &str) -> (r: Vec<(DiffLineTag, String)>)
    ensures
        r@.map_values(|c: (DiffLineTag, String)| (c.0, c.1@)) == line_changes(old@, new@),
        side(r@.map_values(|c: (DiffLineTag, String)| (c.0, c.1@)), DiffLineTag::Insert) == line_tokens(old@),
        side(r@.map_values(|c: (DiffLineTag, String)| (c.0, c.1@)), DiffLineTag::Delete) == line_tokens(new@),
{
    let diff = similar::TextDiff::from_lines(old, new);
    let mut r = Vec::new();
    for change in diff.iter_all_changes() {
        let tag = match change.tag() {
            ChangeTag::Equal => DiffLineTag::Equal,
            ChangeTag::Delete => DiffLineTag::Delete,
            ChangeTag::Insert => DiffLineTag::Insert,
        };
        r.push((tag, change.value().to_string()));
    }
    r
}

/// The lines of a file diff: the changes, each without trailing white space.
pub open spec fn diff_lines_of(changes: Seq<(DiffLineTag, Seq<char>)>) -> Seq<DiffLineView> {
    changes.map_values(|c: (DiffLineTag, Seq<char>)| DiffLineView { tag: c.0, content: trim_end(c.1) })
}

/// A file looks binary when its first 8 KiB hold a zero byte; a file that
/// cannot be read does not.
pub open spec fn looks_binary(bytes: Option<Seq<u8>>) -> bool {
    match bytes {
        Some(b) => zero_in_head(b),
        None => false,
    }
}

/// A zero byte occurs among the first 8192 bytes of `b`.
pub open spec fn zero_in_head(b: Seq<u8>) -> bool {
    exists|i: int| 0 <= i < b.len() && i < 8192 && #[trigger] b[i] == 0
}

/// The bytes of an optional vector, as plain values.
pub open spec fn bytes_view(b: Option<Vec<u8>>) -> Option<Seq<u8>> {
    match b {
        Some(v) => Some(v@),
        None => None,
    }
}

/// What comparing `source` with `target` gives, from what was observed of them.
pub open spec fn diff_outcome(source: Seq<char>, target: Seq<char>, obs: DiffObservation) -> DiffResultView {
    if !obs.target_exists {
        match obs.source_text {
            Ok(c) => DiffResultView::NewFile { source, target, content_preview: lines(c@) },
            Err(e) => if looks_binary(bytes_view(obs.source_bytes)) {
                DiffResultView::BinaryFile { source, target }
            } else {
                DiffResultView::Error { source, target, error: "Failed to read source: "@ + e@ }
            },
        }
    } else if obs.target_link matches Some(l) && crate::path::path_equal(l@, source) {
        DiffResultView::NoDiff { path: target, reason: "Already linked to "@ + source }
    } else {
        match obs.source_text {
            Err(e) => if looks_binary(bytes_view(obs.source_bytes)) {
                DiffResultView::BinaryFile { source, target }
            } else {
                DiffResultView::Error { source, target, error: "Failed to read source: "@ + e@ }
            },
            Ok(sc) => match obs.target_text {
                Err(e) => if looks_binary(bytes_view(obs.target_bytes)) {
                    DiffResultView::BinaryFile { source, target }
                } else {
                    DiffResultView::Error { source, target, error: "Failed to read target: "@ + e@ }
                },
                Ok(tc) => DiffResultView::FileDiff {
                    source,
                    target,
                    diff_lines: diff_lines_of(line_changes(tc@, sc@)),
                },
            },
        }
    }
}

/// A file that cannot be read as text is reported as binary exactly when its
/// own first 8 KiB hold a zero byte, and otherwise as an error with its read
/// message: the target's bytes decide for an unreadable target (once the
/// source was read), the source's bytes for an unreadable source.
pub proof fn lemma_unreadable_file_is_judged_by_its_bytes(source: Seq<char>, target: Seq<char>, obs: DiffObservation)
    ensures
        obs.target_text matches Err(e) ==> (obs.target_exists && !(obs.target_link matches Some(l)
            && crate::path::path_equal(l@, source)) && obs.source_text is Ok ==> {
            &&& (diff_outcome(source, target, obs) is BinaryFile <==> (obs.target_bytes matches Some(b) && exists|i: int|
                0 <= i < b@.len() && i < 8192 && #[trigger] b@[i] == 0))
            &&& !(diff_outcome(source, target, obs) is BinaryFile) ==> diff_outcome(source, target, obs)
                == (DiffResultView::Error { source, target, error: "Failed to read target: "@ + e@ })
        }),
        obs.source_text matches Err(e) ==> ((!obs.target_exists || !(obs.target_link matches Some(l)
            && crate::path::path_equal(l@, source))) ==> {
            &&& (diff_outcome(source, target, obs) is BinaryFile <==> (obs.source_bytes matches Some(b) && exists|i: int|
                0 <= i < b@.len() && i < 8192 && #[trigger] b@[i] == 0))
            &&& !(diff_outcome(source, target, obs) is BinaryFile) ==> diff_outcome(source, target, obs)
                == (DiffResultView::Error { source, target, error: "Failed to read source: "@ + e@ })
        }),
{
}

/// Whether a zero byte occurs in the first 8 KiB of `bytes`.
pub fn is_binary_content(bytes: &Option<Vec<u8>>) -> (b: bool)
    ensures
        b == looks_binary(bytes_view(*bytes)),
{
    match bytes {
        None => false,
        Some(v) => {
            let n = if v.len() < 8192 { v.len() } else { 8192 };
            for i in 0..n
                invariant
                    bytes_view(*bytes) == Some(v@),
                    n <= v@.len(),
                    n <= 8192,
                    n == v@.len() || n == 8192,
                    forall|j: int| 0 <= j < i ==> v@[j] != 0,
            {
                if v[i] == 0 {
                    assert(v@[i as int] == 0);
                    assert(zero_in_head(v@));
                    return true;
                }
            }
            false
        },
    }
}

fn text_lines(text: &String) -> (r: Vec<String>)
    ensures
        r@.map_values(|l: String| l@) == lines(text@),
{
    let cs = crate::text::chars_of(text.as_str());
    proof {
        crate::text::lemma_lines_bounded(cs@);
    }
    crate::text::first_lines(&cs, cs.len())
}

fn file_diff_lines(old: &String, new: &String) -> (r: Vec<DiffLine>)
    ensures
        r@.map_values(|l: DiffLine| l@) == diff_lines_of(line_changes(old@, new@)),
        no_lone_cr(old@) ==> kept(r@.map_values(|l: DiffLine| l@), DiffLineTag::Insert) == trimmed(lines(old@)),
        no_lone_cr(new@) ==> kept(r@.map_values(|l: DiffLine| l@), DiffLineTag::Delete) == trimmed(lines(new@)),
{
    let changes = diff_changes(old.as_str(), new.as_str());
    proof {
        let cs = line_changes(old@, new@);
        lemma_kept_of_lines(cs, DiffLineTag::Insert);
        lemma_kept_of_lines(cs, DiffLineTag::Delete);
        if no_lone_cr(old@) {
            lemma_tokens_trim_like_lines(old@, 0);
        }
        if no_lone_cr(new@) {
            lemma_tokens_trim_like_lines(new@, 0);
        }
    }
    let ghost cv = changes@.map_values(|c: (DiffLineTag, String)| (c.0, c.1@));
    let mut r: Vec<DiffLine> = Vec::new();
    let n = changes.len();
    for i in 0..n
        invariant
            n == changes@.len(),
            cv == changes@.map_values(|c: (DiffLineTag, String)| (c.0, c.1@)),
            r@.map_values(|l: DiffLine| l@) == diff_lines_of(cv.take(i as int)),
    {
        let cs = crate::text::chars_of(changes[i].1.as_str());
        let content = crate::text::trim_end_of(&cs);
        let ghost before = r@.map_values(|l: DiffLine| l@);
        r.push(DiffLine { tag: changes[i].0, content });
        assert(r@.map_values(|l: DiffLine| l@) =~= before.push(r@.last()@));
        assert(diff_lines_of(cv.take(i + 1)) =~= diff_lines_of(cv.take(i as int)).push(
            DiffLineView { tag: cv[i as int].0, content: trim_end(cv[i as int].1) },
        ));
    }
    assert(cv.take(n as int) =~= cv);
    r
}

fn source_unreadable(source: &str, target: &str, error: &String, bytes: &Option<Vec<u8>>, what: &str) -> (r: DiffResult)
    ensures
        r@ == (if looks_binary(bytes_view(*bytes)) {
            DiffResultView::BinaryFile { source: source@, target: target@ }
        } else {
            DiffResultView::Error { source: source@, target: target@, error: what@ + error@ }
        }),
{
    if is_binary_content(bytes) {
        DiffResult::BinaryFile { source: source.to_owned(), target: target.to_owned() }
    } else {
        let mut e = what.to_owned();
        e.append(error.as_str());
        DiffResult::Error { source: source.to_owned(), target: target.to_owned(), error: e }
    }
}

/// Compares the source file of a link with its target, from what was observed
/// of both: `NewFile` with the source's lines when the target does not exist,
/// `NoDiff` when the target already links to the source, otherwise the line
/// diff from the target to the source; a file that cannot be read as text is
/// `BinaryFile` when it looks binary and `Error` otherwise.
pub fn generate_diff(source: &str, target: &str, obs: &DiffObservation) -> (r: DiffResult)
    ensures
        r@ == diff_outcome(source@, target@, *obs),
        r@ matches DiffResultView::FileDiff { diff_lines, .. } ==> (obs.target_text matches Ok(t)
            && obs.source_text matches Ok(src) && (no_lone_cr(t@) ==> kept(diff_lines, DiffLineTag::Insert)
            == trimmed(lines(t@))) && (no_lone_cr(src@) ==> kept(diff_lines, DiffLineTag::Delete) == trimmed(
            lines(src@),
        ))),
{
    if !obs.target_exists {
        return match &obs.source_text {
            Ok(c) => DiffResult::NewFile {
                source: source.to_owned(),
                target: target.to_owned(),
                content_preview: text_lines(c),
            },
            Err(e) => source_unreadable(source, target, e, &obs.source_bytes, "Failed to read source: "),
        };
    }
    if let Some(l) = &obs.target_link {
        if crate::path::paths_equal(l.as_str(), source) {
            let mut reason = "Already linked to ".to_owned();
            reason.append(source);
            return DiffResult::NoDiff { path: target.to_owned(), reason };
        }
    }
    match &obs.source_text {
        Err(e) => source_unreadable(source, target, e, &obs.source_bytes, "Failed to read source: "),
        Ok(sc) => match &obs.target_text {
            Err(e) => source_unreadable(source, target, e, &obs.target_bytes, "Failed to read target: "),
            Ok(tc) => DiffResult::FileDiff {
                source: source.to_owned(),
                target: target.to_owned(),
                diff_lines: file_diff_lines(tc, sc),
            },
        },
    }
}

} // verus!
