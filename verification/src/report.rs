//! Leak records, read from the report of the analysis tool.

use vstd::prelude::*;
use vstd::string::*;
use crate::scan::{
    chars_of, element, element_from, lemma_element_bounds, number, number_of, unescape,
    unescaped, Element, Span,
};

verus! {

/// One frame of a call stack.
#[derive(Debug)]
pub struct Frame {
    /// The function that the frame lies in.
    pub function: String,
    /// The source file, where the tool knows it.
    pub file: Option<String>,
    /// The line in the source file, where the tool knows it.
    pub line: Option<u64>,
}

/// The mathematical value of a [`Frame`].
pub struct FrameView {
    pub function: Seq<char>,
    pub file: Option<Seq<char>>,
    pub line: Option<u64>,
}

impl View for Frame {
    type V = FrameView;

    open spec fn view(&self) -> FrameView {
        FrameView {
            function: self.function@,
            file: match self.file {
                Some(file) => Some(file@),
                None => None,
            },
            line: self.line,
        }
    }
}

impl Clone for Frame {
    fn clone(&self) -> (copy: Frame)
        ensures
            copy@ == self@,
    {
        Frame {
            function: self.function.clone(),
            file: match &self.file {
                Some(file) => Some(file.clone()),
                None => None,
            },
            line: self.line,
        }
    }
}

/// The views of `frames`, in order.
pub open spec fn frame_views(frames: Seq<Frame>) -> Seq<FrameView> {
    Seq::new(frames.len(), |i: int| frames[i]@)
}

/// One entry of the tool's report, as decoded from its document: a field
/// that the document lacks is absent here.
#[derive(Debug)]
pub struct LeakEntry {
    /// The number of leaked bytes, where the entry gives it.
    pub leaked_bytes: Option<u64>,
    /// The call stack, in the order of the document.
    pub frames: Vec<Frame>,
}

/// The mathematical value of a [`LeakEntry`].
pub struct LeakEntryView {
    pub leaked_bytes: Option<u64>,
    pub frames: Seq<FrameView>,
}

impl View for LeakEntry {
    type V = LeakEntryView;

    open spec fn view(&self) -> LeakEntryView {
        LeakEntryView { leaked_bytes: self.leaked_bytes, frames: frame_views(self.frames@) }
    }
}

/// A leak: the number of bytes that were not released, and the call stack of
/// their allocation.
#[derive(Debug)]
pub struct Leak {
    bytes: u64,
    stack: Vec<Frame>,
}

/// The mathematical value of a [`Leak`].
pub struct LeakView {
    pub bytes: u64,
    pub stack: Seq<FrameView>,
}

impl View for Leak {
    type V = LeakView;

    closed spec fn view(&self) -> LeakView {
        LeakView { bytes: self.bytes, stack: frame_views(self.stack@) }
    }
}

impl Leak {
    /// Makes a leak of `bytes` bytes with the call stack `stack`.
    pub fn new(bytes: u64, stack: Vec<Frame>) -> (leak: Leak)
        ensures
            leak@ == (LeakView { bytes, stack: frame_views(stack@) }),
    {
        Leak { bytes, stack }
    }

    /// The number of leaked bytes.
    pub fn leaked_bytes(&self) -> (bytes: u64)
        ensures
            bytes == self@.bytes,
    {
        self.bytes
    }

    /// The call stack, in the order in which the tool gave it.
    pub fn back_trace(&self) -> (stack: &Vec<Frame>)
        ensures
            frame_views(stack@) == self@.stack,
    {
        &self.stack
    }
}

/// Why a report was refused.
#[derive(Debug, Clone, Copy, PartialEq, Eq, Structural)]
pub enum ReportParseError {
    /// The report is not a well-formed document.
    Malformed,
    /// An entry of the report does not say how many bytes leaked.
    MissingByteCount,
}

impl ReportParseError {
    /// A message for the user.
    pub fn message(&self) -> (text: &'static str)
        ensures
            text@ == match self {
                ReportParseError::Malformed => "Invalid report: not a well-formed document"@,
                ReportParseError::MissingByteCount =>
                    "Invalid report: a leak without its byte count"@,
            },
    {
        match self {
            ReportParseError::Malformed => "Invalid report: not a well-formed document",
            ReportParseError::MissingByteCount => "Invalid report: a leak without its byte count",
        }
    }
}

/// Whether every entry says how many bytes leaked.
pub open spec fn is_complete(entries: Seq<LeakEntryView>) -> bool {
    forall|i: int| 0 <= i < entries.len() ==> (#[trigger] entries[i]).leaked_bytes is Some
}

/// The leak that a complete entry reports: its byte count and its frames, as
/// they stand.
pub open spec fn leak_of(entry: LeakEntryView) -> LeakView
    recommends
        entry.leaked_bytes is Some,
{
    LeakView { bytes: entry.leaked_bytes->Some_0, stack: entry.frames }
}

/// What a report gives: one leak for each entry, in order, where every entry
/// is complete; an error otherwise.
pub open spec fn report_of(entries: Seq<LeakEntryView>) -> Result<
    Seq<LeakView>,
    ReportParseError,
> {
    if is_complete(entries) {
        Ok(Seq::new(entries.len(), |i: int| leak_of(entries[i])))
    } else {
        Err(ReportParseError::MissingByteCount)
    }
}

/// The views of `entries`, in order.
pub open spec fn entry_views(entries: Seq<LeakEntry>) -> Seq<LeakEntryView> {
    Seq::new(entries.len(), |i: int| entries[i]@)
}

/// The views of `leaks`, in order.
pub open spec fn leak_views(leaks: Seq<Leak>) -> Seq<LeakView> {
    Seq::new(leaks.len(), |i: int| leaks[i]@)
}

/// The view of the outcome of reading a report.
pub open spec fn report_view(outcome: Result<Vec<Leak>, ReportParseError>) -> Result<
    Seq<LeakView>,
    ReportParseError,
> {
    match outcome {
        Ok(leaks) => Ok(leak_views(leaks@)),
        Err(error) => Err(error),
    }
}

/// Copies a call stack, frame by frame.
fn copy_frames(frames: &Vec<Frame>) -> (copy: Vec<Frame>)
    ensures
        frame_views(copy@) == frame_views(frames@),
{
    let mut copy: Vec<Frame> = Vec::new();
    let mut i: usize = 0;
    while i < frames.len()
        invariant
            i <= frames.len(),
            copy@.len() == i,
            forall|j: int| 0 <= j < i ==> (#[trigger] copy@[j])@ == frames@[j]@,
        decreases frames.len() - i,
    {
        copy.push(frames[i].clone());
        i += 1;
    }
    assert(frame_views(copy@) =~= frame_views(frames@));
    copy
}

/// Turns the entries of a report into leaks: one for each entry, in the
/// order of the report, each with the byte count and the frames of its
/// entry, unchanged. An entry without a byte count makes the report invalid;
/// no count is made up for it.
pub fn parse_report(entries: &Vec<LeakEntry>) -> (outcome: Result<Vec<Leak>, ReportParseError>)
    ensures
        report_view(outcome) == report_of(entry_views(entries@)),
{
    let mut leaks: Vec<Leak> = Vec::new();
    let mut i: usize = 0;
    while i < entries.len()
        invariant
            i <= entries.len(),
            leaks@.len() == i,
            forall|j: int| 0 <= j < i ==> (#[trigger] entries@[j])@.leaked_bytes is Some,
            forall|j: int| 0 <= j < i ==> (#[trigger] leaks@[j])@ == leak_of(entries@[j]@),
        decreases entries.len() - i,
    {
        match entries[i].leaked_bytes {
            Some(bytes) => {
                leaks.push(Leak::new(bytes, copy_frames(&entries[i].frames)));
            },
            None => {
                assert(entry_views(entries@)[i as int].leaked_bytes is None);
                return Err(ReportParseError::MissingByteCount);
            },
        }
        i += 1;
    }
    proof {
        let views = entry_views(entries@);
        assert forall|j: int| 0 <= j < views.len() implies (#[trigger] views[j]).leaked_bytes
            is Some by {
            assert(entries@[j]@.leaked_bytes is Some);
        }
        assert(leak_views(leaks@) =~= Seq::new(views.len(), |i: int| leak_of(views[i])));
    }
    Ok(leaks)
}

/// A report has as many leaks as entries, each with its entry's byte count
/// and frames.
pub proof fn lemma_report_keeps_entries(entries: Seq<LeakEntryView>)
    requires
        is_complete(entries),
    ensures
        report_of(entries) is Ok,
        report_of(entries)->Ok_0.len() == entries.len(),
        forall|i: int|
            0 <= i < entries.len() ==> {
                &&& (#[trigger] report_of(entries)->Ok_0[i]).bytes
                    == entries[i].leaked_bytes->Some_0
                &&& report_of(entries)->Ok_0[i].stack == entries[i].frames
            },
{
}

/// A report with an entry that lacks its byte count is refused.
pub proof fn lemma_incomplete_report_fails(entries: Seq<LeakEntryView>, i: int)
    requires
        0 <= i < entries.len(),
        entries[i].leaked_bytes is None,
    ensures
        report_of(entries) == Err::<Seq<LeakView>, ReportParseError>(
            ReportParseError::MissingByteCount,
        ),
{
}

/// The content of the first element of `body` that opens with `open` and
/// closes with `close`; none where `body` has no such element.
pub open spec fn content_of(body: Seq<char>, open: Seq<char>, close: Seq<char>) -> Result<
    Option<Seq<char>>,
    ReportParseError,
> {
    match element_from(body, open, close, 0) {
        Element::Absent => Ok(None),
        Element::Unterminated => Err(ReportParseError::Malformed),
        Element::Found { start, end, after } => Ok(Some(body.subrange(start, end))),
    }
}

/// The number in the first element of `body` that opens with `open` and
/// closes with `close`; none where `body` has no such element.
pub open spec fn count_of(body: Seq<char>, open: Seq<char>, close: Seq<char>) -> Result<
    Option<u64>,
    ReportParseError,
> {
    match content_of(body, open, close) {
        Ok(Some(digits)) => match number_of(digits) {
            Some(count) => Ok(Some(count)),
            None => Err(ReportParseError::Malformed),
        },
        Ok(None) => Ok(None),
        Err(error) => Err(error),
    }
}

/// The text of the content `content`, where there is one, with its
/// character references replaced.
pub open spec fn plain_of(content: Option<Seq<char>>) -> Option<Seq<char>> {
    match content {
        Some(text) => Some(unescaped(text)),
        None => None,
    }
}

/// The frame that the content `body` of a `frame` element describes: its
/// function is the text of `fn`, or of `ip` where it has no `fn`; `file`
/// and `line` are kept where they are given.
pub open spec fn frame_of(body: Seq<char>) -> Result<FrameView, ReportParseError> {
    match (
        content_of(body, "<fn>"@, "</fn>"@),
        content_of(body, "<ip>"@, "</ip>"@),
        content_of(body, "<file>"@, "</file>"@),
        count_of(body, "<line>"@, "</line>"@),
    ) {
        (Ok(Some(function)), Ok(_), Ok(file), Ok(line)) => Ok(
            FrameView { function: unescaped(function), file: plain_of(file), line },
        ),
        (Ok(None), Ok(Some(function)), Ok(file), Ok(line)) => Ok(
            FrameView { function: unescaped(function), file: plain_of(file), line },
        ),
        _ => Err(ReportParseError::Malformed),
    }
}

/// `before`, followed by what `rest` gives.
pub open spec fn prepend<T>(before: Seq<T>, rest: Result<Seq<T>, ReportParseError>) -> Result<
    Seq<T>,
    ReportParseError,
> {
    match rest {
        Ok(rest) => Ok(before + rest),
        Err(error) => Err(error),
    }
}

/// The frames that the `frame` elements of `body` at or after `from`
/// describe, in order. An element that is found ends behind `from` and within
/// `body`, so the search goes on in a shorter rest.
pub open spec fn frames_from(body: Seq<char>, from: int) -> Result<
    Seq<FrameView>,
    ReportParseError,
>
    decreases body.len() - from,
{
    match element_from(body, "<frame>"@, "</frame>"@, from) {
        Element::Absent => Ok(Seq::empty()),
        Element::Unterminated => Err(ReportParseError::Malformed),
        Element::Found { start, end, after } => match frame_of(body.subrange(start, end)) {
            Ok(frame) => if from < after <= body.len() {
                prepend(seq![frame], frames_from(body, after))
            } else {
                Err(ReportParseError::Malformed)
            },
            Err(error) => Err(error),
        },
    }
}

/// The entry that the content `body` of an `error` element describes: the
/// number of `leakedbytes` where it is given, and the frames.
pub open spec fn entry_of(body: Seq<char>) -> Result<LeakEntryView, ReportParseError> {
    match (count_of(body, "<leakedbytes>"@, "</leakedbytes>"@), frames_from(body, 0)) {
        (Ok(leaked_bytes), Ok(frames)) => Ok(LeakEntryView { leaked_bytes, frames }),
        _ => Err(ReportParseError::Malformed),
    }
}

/// The entries that the `error` elements of `text` at or after `from`
/// describe, in order. An element that is found ends behind `from` and within
/// `text`, so the search goes on in a shorter rest.
pub open spec fn entries_from(text: Seq<char>, from: int) -> Result<
    Seq<LeakEntryView>,
    ReportParseError,
>
    decreases text.len() - from,
{
    match element_from(text, "<error>"@, "</error>"@, from) {
        Element::Absent => Ok(Seq::empty()),
        Element::Unterminated => Err(ReportParseError::Malformed),
        Element::Found { start, end, after } => match entry_of(text.subrange(start, end)) {
            Ok(entry) => if from < after <= text.len() {
                prepend(seq![entry], entries_from(text, after))
            } else {
                Err(ReportParseError::Malformed)
            },
            Err(error) => Err(error),
        },
    }
}

/// The content of the document element of `text`, the element
/// `valgrindoutput` that holds the whole report; none where `text` does not
/// hold it, opened and closed.
pub open spec fn document_body(text: Seq<char>) -> Option<Seq<char>> {
    match content_of(text, "<valgrindoutput>"@, "</valgrindoutput>"@) {
        Ok(Some(body)) => Some(body),
        _ => None,
    }
}

/// The leaks that the report `text` holds: one for each `error` element
/// within its document element, in order. A text without the document
/// element, opened and closed, is no report.
pub open spec fn report_in(text: Seq<char>) -> Result<Seq<LeakView>, ReportParseError> {
    match document_body(text) {
        Some(body) => match entries_from(body, 0) {
            Ok(entries) => report_of(entries),
            Err(error) => Err(error),
        },
        None => Err(ReportParseError::Malformed),
    }
}

/// Finds the content of the first element of `body` that opens with `open`
/// and closes with `close`.
fn content<'a>(body: &'a str, open: &str, close: &str) -> (found: Result<
    Option<&'a str>,
    ReportParseError,
>)
    ensures
        match found {
            Ok(Some(text)) => content_of(body@, open@, close@) == Ok::<
                Option<Seq<char>>,
                ReportParseError,
            >(Some(text@)),
            Ok(None) => content_of(body@, open@, close@) == Ok::<
                Option<Seq<char>>,
                ReportParseError,
            >(None),
            Err(error) => content_of(body@, open@, close@) == Err::<
                Option<Seq<char>>,
                ReportParseError,
            >(error),
        },
{
    let chars = chars_of(body);
    let opening = chars_of(open);
    let closing = chars_of(close);
    proof {
        lemma_element_bounds(body@, open@, close@, 0);
    }
    match element(&chars, &opening, &closing, 0) {
        Span::Absent => Ok(None),
        Span::Unterminated => Err(ReportParseError::Malformed),
        Span::Found { start, end, after } => Ok(Some(body.substring_char(start, end))),
    }
}

/// Reads the number in the first element of `body` that opens with `open`
/// and closes with `close`.
fn count(body: &str, open: &str, close: &str) -> (found: Result<Option<u64>, ReportParseError>)
    ensures
        found == count_of(body@, open@, close@),
{
    match content(body, open, close) {
        Ok(Some(digits)) => match number(&chars_of(digits)) {
            Some(count) => Ok(Some(count)),
            None => Err(ReportParseError::Malformed),
        },
        Ok(None) => Ok(None),
        Err(error) => Err(error),
    }
}

/// Reads the frame that the content `body` of a `frame` element describes.
pub fn frame_from(body: &str) -> (outcome: Result<Frame, ReportParseError>)
    ensures
        match outcome {
            Ok(frame) => frame_of(body@) == Ok::<FrameView, ReportParseError>(frame@),
            Err(error) => frame_of(body@) == Err::<FrameView, ReportParseError>(error),
        },
{
    let function = content(body, "<fn>", "</fn>");
    let address = content(body, "<ip>", "</ip>");
    let file = content(body, "<file>", "</file>");
    let line = count(body, "<line>", "</line>");
    match (function, address, file, line) {
        (Ok(function), Ok(address), Ok(file), Ok(line)) => {
            let name = match (function, address) {
                (Some(name), _) => name,
                (None, Some(name)) => name,
                (None, None) => {
                    return Err(ReportParseError::Malformed);
                },
            };
            let file = match file {
                Some(file) => Some(unescape(file)),
                None => None,
            };
            Ok(Frame { function: unescape(name), file, line })
        },
        _ => Err(ReportParseError::Malformed),
    }
}

/// Reads the frames that the `frame` elements of `body` describe.
pub fn frames_in(body: &str) -> (outcome: Result<Vec<Frame>, ReportParseError>)
    ensures
        match outcome {
            Ok(frames) => frames_from(body@, 0) == Ok::<Seq<FrameView>, ReportParseError>(
                frame_views(frames@),
            ),
            Err(error) => frames_from(body@, 0) == Err::<Seq<FrameView>, ReportParseError>(error),
        },
{
    let chars = chars_of(body);
    let open = chars_of("<frame>");
    let close = chars_of("</frame>");
    let mut frames: Vec<Frame> = Vec::new();
    let mut from: usize = 0;
    proof {
        reveal_strlit("<frame>");
        assert(frame_views(frames@) =~= Seq::<FrameView>::empty());
        assert(match frames_from(body@, 0) {
            Ok(rest) => Seq::<FrameView>::empty() + rest =~= rest,
            Err(_) => true,
        });
    }
    loop
        invariant
            chars@ == body@,
            open@ == "<frame>"@,
            close@ == "</frame>"@,
            open@.len() > 0,
            from <= chars.len(),
            frames_from(body@, 0) == prepend(
                frame_views(frames@),
                frames_from(body@, from as int),
            ),
        decreases chars.len() - from,
    {
        proof {
            lemma_element_bounds(body@, open@, close@, from as int);
        }
        match element(&chars, &open, &close, from) {
            Span::Absent => {
                assert(frame_views(frames@) + Seq::<FrameView>::empty() =~= frame_views(frames@));
                return Ok(frames);
            },
            Span::Unterminated => {
                return Err(ReportParseError::Malformed);
            },
            Span::Found { start, end, after } => {
                match frame_from(body.substring_char(start, end)) {
                    Ok(frame) => {
                        proof {
                            let before = frame_views(frames@);
                            let after_push = frame_views(frames@.push(frame));
                            assert(after_push =~= before.push(frame@));
                            match frames_from(body@, after as int) {
                                Ok(rest) => {
                                    assert(before.push(frame@) + rest =~= before + (seq![frame@]
                                        + rest));
                                },
                                Err(_) => {},
                            }
                        }
                        frames.push(frame);
                        from = after;
                    },
                    Err(error) => {
                        return Err(error);
                    },
                }
            },
        }
    }
}

/// Reads the entry that the content `body` of an `error` element describes.
pub fn entry_from(body: &str) -> (outcome: Result<LeakEntry, ReportParseError>)
    ensures
        match outcome {
            Ok(entry) => entry_of(body@) == Ok::<LeakEntryView, ReportParseError>(entry@),
            Err(error) => entry_of(body@) == Err::<LeakEntryView, ReportParseError>(error),
        },
{
    let leaked_bytes = count(body, "<leakedbytes>", "</leakedbytes>");
    let frames = frames_in(body);
    match (leaked_bytes, frames) {
        (Ok(leaked_bytes), Ok(frames)) => Ok(LeakEntry { leaked_bytes, frames }),
        _ => Err(ReportParseError::Malformed),
    }
}

/// Reads the entries that the `error` elements of `document` describe.
pub fn entries_in(document: &str) -> (outcome: Result<Vec<LeakEntry>, ReportParseError>)
    ensures
        match outcome {
            Ok(entries) => entries_from(document@, 0) == Ok::<
                Seq<LeakEntryView>,
                ReportParseError,
            >(entry_views(entries@)),
            Err(error) => entries_from(document@, 0) == Err::<
                Seq<LeakEntryView>,
                ReportParseError,
            >(error),
        },
{
    let chars = chars_of(document);
    let open = chars_of("<error>");
    let close = chars_of("</error>");
    let mut entries: Vec<LeakEntry> = Vec::new();
    let mut from: usize = 0;
    proof {
        reveal_strlit("<error>");
        assert(entry_views(entries@) =~= Seq::<LeakEntryView>::empty());
        assert(match entries_from(document@, 0) {
            Ok(rest) => Seq::<LeakEntryView>::empty() + rest =~= rest,
            Err(_) => true,
        });
    }
    loop
        invariant
            chars@ == document@,
            open@ == "<error>"@,
            close@ == "</error>"@,
            open@.len() > 0,
            from <= chars.len(),
            entries_from(document@, 0) == prepend(
                entry_views(entries@),
                entries_from(document@, from as int),
            ),
        decreases chars.len() - from,
    {
        proof {
            lemma_element_bounds(document@, open@, close@, from as int);
        }
        match element(&chars, &open, &close, from) {
            Span::Absent => {
                assert(entry_views(entries@) + Seq::<LeakEntryView>::empty() =~= entry_views(
                    entries@,
                ));
                return Ok(entries);
            },
            Span::Unterminated => {
                return Err(ReportParseError::Malformed);
            },
            Span::Found { start, end, after } => {
                match entry_from(document.substring_char(start, end)) {
                    Ok(entry) => {
                        proof {
                            let before = entry_views(entries@);
                            let after_push = entry_views(entries@.push(entry));
                            assert(after_push =~= before.push(entry@));
                            match entries_from(document@, after as int) {
                                Ok(rest) => {
                                    assert(before.push(entry@) + rest =~= before + (seq![entry@]
                                        + rest));
                                },
                                Err(_) => {},
                            }
                        }
                        entries.push(entry);
                        from = after;
                    },
                    Err(error) => {
                        return Err(error);
                    },
                }
            },
        }
    }
}

/// Reads the report `document` of the analysis tool: one leak for each
/// `error` element within the document element, in the order of the
/// document, each with the byte count and the frames that its element gives.
/// A text without the document element, opened and closed, is refused as
/// malformed, and so is one with an element that is not closed or with a
/// count that is no number; one with an entry without a byte count is
/// refused for that.
pub fn report_from(document: &str) -> (outcome: Result<Vec<Leak>, ReportParseError>)
    ensures
        report_view(outcome) == report_in(document@),
{
    match content(document, "<valgrindoutput>", "</valgrindoutput>") {
        Ok(Some(body)) => match entries_in(body) {
            Ok(entries) => parse_report(&entries),
            Err(error) => Err(error),
        },
        _ => Err(ReportParseError::Malformed),
    }
}

/// A text that does not hold the document element, opened and closed, is
/// refused: it is never taken for a report without leaks.
pub proof fn lemma_no_document_is_refused(text: Seq<char>)
    requires
        !(element_from(text, "<valgrindoutput>"@, "</valgrindoutput>"@, 0) is Found),
    ensures
        report_in(text) == Err::<Seq<LeakView>, ReportParseError>(ReportParseError::Malformed),
{
}

/// The empty text is refused.
pub proof fn lemma_empty_text_is_refused()
    ensures
        report_in(Seq::<char>::empty()) == Err::<Seq<LeakView>, ReportParseError>(
            ReportParseError::Malformed,
        ),
{
    reveal_strlit("<valgrindoutput>");
    lemma_no_document_is_refused(Seq::<char>::empty());
}

/// A report is clean only where the text holds the document element and
/// every entry within it was read: a report that is read has a document
/// element, and its entries are complete.
pub proof fn lemma_clean_report_is_a_document(text: Seq<char>)
    requires
        report_in(text) is Ok,
    ensures
        element_from(text, "<valgrindoutput>"@, "</valgrindoutput>"@, 0) is Found,
        document_body(text) is Some,
        entries_from(document_body(text)->Some_0, 0) is Ok,
{
}

/// A document whose document element holds no `error` element is a clean
/// report.
pub proof fn lemma_report_without_errors(text: Seq<char>)
    requires
        document_body(text) is Some,
        element_from(document_body(text)->Some_0, "<error>"@, "</error>"@, 0) is Absent,
    ensures
        report_in(text) == Ok::<Seq<LeakView>, ReportParseError>(Seq::empty()),
{
    let body = document_body(text)->Some_0;
    let entries = Seq::<LeakEntryView>::empty();
    assert(entries_from(body, 0) == Ok::<Seq<LeakEntryView>, ReportParseError>(entries));
    assert(Seq::new(entries.len(), |i: int| leak_of(entries[i])) =~= Seq::<LeakView>::empty());
}

/// A report that is read holds one leak for each entry of the document, in
/// order, with the byte count and the frames of its entry: no count is made
/// up and nothing is moved.
pub proof fn lemma_report_follows_document(text: Seq<char>)
    requires
        report_in(text) is Ok,
    ensures
        document_body(text) is Some,
        entries_from(document_body(text)->Some_0, 0) is Ok,
        is_complete(entries_from(document_body(text)->Some_0, 0)->Ok_0),
        report_in(text)->Ok_0.len() == entries_from(document_body(text)->Some_0, 0)->Ok_0.len(),
        forall|i: int|
            0 <= i < report_in(text)->Ok_0.len() ==> {
                &&& (#[trigger] report_in(text)->Ok_0[i]).bytes == entries_from(
                    document_body(text)->Some_0,
                    0,
                )->Ok_0[i].leaked_bytes->Some_0
                &&& report_in(text)->Ok_0[i].stack == entries_from(
                    document_body(text)->Some_0,
                    0,
                )->Ok_0[i].frames
            },
{
}

} // verus!
