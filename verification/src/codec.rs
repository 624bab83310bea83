//! The line codec: requests out, responses in.

use vstd::prelude::*;
use vstd::string::*;
use vstd::std_specs::iter::IteratorSpec;
use crate::error::{ApiError, DecodeError, ErrorKind, violation_message};
use crate::json::{
    Json, JsonView, items_view, json_document, lemma_array_view, lemma_object_view, members_view,
    parse,
};

verus! {

/// Text submitted for checking. Only its first line reaches the worker.
#[derive(Debug)]
pub struct GramcheckRequest {
    text: String,
}

/// Index of the first newline in `s`, or the length of `s` if it has none.
pub open spec fn first_line_len(s: Seq<char>) -> nat
    decreases s.len(),
{
    if s.len() == 0 || s[0] == '\n' {
        0
    } else {
        1 + first_line_len(s.drop_first())
    }
}

/// The part of `s` before its first newline; all of `s` if it has none.
pub open spec fn first_line(s: Seq<char>) -> Seq<char> {
    s.subrange(0, first_line_len(s) as int)
}

/// `first_line_len` is the position of the first newline: nothing before it
/// is a newline, and it is either the end of `s` or a newline itself.
pub proof fn lemma_first_line_len(s: Seq<char>)
    ensures
        first_line_len(s) <= s.len(),
        forall|i: int| 0 <= i < first_line_len(s) ==> s[i] != '\n',
        first_line_len(s) < s.len() ==> s[first_line_len(s) as int] == '\n',
    decreases s.len(),
{
    if s.len() > 0 && s[0] != '\n' {
        let t = s.drop_first();
        lemma_first_line_len(t);
        assert forall|i: int| 0 <= i < first_line_len(s) implies s[i] != '\n' by {
            if i > 0 {
                assert(s[i] == t[i - 1]);
            }
        }
    }
}

/// What stands before a newline is all that is sent: the first line of
/// `head`, a newline and `tail` is `head`, provided `head` has no newline.
/// A text without a newline is sent whole.
pub proof fn lemma_first_line_cut(head: Seq<char>, tail: Seq<char>)
    requires
        forall|i: int| 0 <= i < head.len() ==> head[i] != '\n',
    ensures
        first_line(head + seq!['\n'] + tail) == head,
        first_line(head) == head,
{
    let whole = head + seq!['\n'] + tail;
    lemma_first_line_len(whole);
    lemma_first_line_len(head);
    assert(whole[head.len() as int] == '\n');
}

impl GramcheckRequest {
    pub fn new(text: String) -> (r: GramcheckRequest)
        ensures
            r.text_view() == text@,
    {
        GramcheckRequest { text }
    }

    /// The submitted text, unabridged.
    pub closed spec fn text_view(&self) -> Seq<char> {
        self.text@
    }

    pub fn text(&self) -> (t: &str)
        ensures
            t@ == self.text_view(),
    {
        self.text.as_str()
    }
}

/// Encodes a request for the wire: the text up to, and without, its first
/// newline. Whatever follows that newline is never sent.
pub fn encode_request(request: &GramcheckRequest) -> (line: String)
    ensures
        line@ == first_line(request.text_view()),
{
    broadcast use vstd::string::group_string_axioms;

    let text = request.text();
    let total = text.unicode_len();
    let mut chars = text.chars();
    let mut k: usize = 0;
    assert(text@.skip(0) == text@);
    loop
        invariant_except_break
            chars.remaining() == text@.skip(k as int),
            first_line_len(text@) == k + first_line_len(text@.skip(k as int)),
        invariant
            total == text@.len(),
            k <= total,
        ensures
            k == first_line_len(text@),
            k <= total,
        decreases total - k,
    {
        match chars.next() {
            Some(c) => {
                if c == '\n' {
                    break;
                }
                k = k + 1;
            },
            None => {
                break;
            },
        }
    }
    String::from_str(text.substring_char(0, k))
}

/// One flagged span of the checked text.
#[derive(Debug)]
pub struct GramcheckErrResponse {
    /// The flagged text itself.
    pub error_text: String,
    /// Where the span starts and ends, as character offsets into the text.
    pub start_index: u32,
    pub end_index: u32,
    /// A short machine-readable code.
    pub error_code: String,
    pub description: String,
    /// Replacements, best first.
    pub suggestions: Vec<String>,
    pub title: String,
}

/// A worker's answer: the text as the worker saw it, and what it found.
#[derive(Debug)]
pub struct GramcheckOutput {
    pub text: String,
    pub errs: Vec<GramcheckErrResponse>,
}

/// The mathematical value of a finding.
pub ghost struct FindingView {
    pub error_text: Seq<char>,
    pub start_index: u32,
    pub end_index: u32,
    pub error_code: Seq<char>,
    pub description: Seq<char>,
    pub suggestions: Seq<Seq<char>>,
    pub title: Seq<char>,
}

/// The mathematical value of a worker's answer.
pub ghost struct OutputView {
    pub text: Seq<char>,
    pub errs: Seq<FindingView>,
}

/// The texts held by a sequence of strings.
pub open spec fn texts(strings: Seq<String>) -> Seq<Seq<char>> {
    Seq::new(strings.len(), |i: int| strings[i]@)
}

impl View for GramcheckErrResponse {
    type V = FindingView;

    open spec fn view(&self) -> FindingView {
        FindingView {
            error_text: self.error_text@,
            start_index: self.start_index,
            end_index: self.end_index,
            error_code: self.error_code@,
            description: self.description@,
            suggestions: texts(self.suggestions@),
            title: self.title@,
        }
    }
}

impl View for GramcheckOutput {
    type V = OutputView;

    open spec fn view(&self) -> OutputView {
        OutputView {
            text: self.text@,
            errs: Seq::new(self.errs@.len(), |i: int| self.errs@[i]@),
        }
    }
}

/// The value of the last member of an object that is called `key`.
pub open spec fn member(members: Seq<(Seq<char>, JsonView)>, key: Seq<char>) -> Option<JsonView>
    decreases members.len(),
{
    if members.len() == 0 {
        None
    } else if members.last().0 == key {
        Some(members.last().1)
    } else {
        member(members.drop_last(), key)
    }
}

/// One field of a record. A record is written either as an array that holds
/// exactly `arity` fields in their fixed order, or as an object that names
/// them; in an object, members with other names are ignored.
pub open spec fn field(record: JsonView, position: int, name: Seq<char>, arity: int) -> Option<
    JsonView,
> {
    match record {
        JsonView::Array(items) => if items.len() == arity && 0 <= position < arity {
            Some(items[position])
        } else {
            None
        },
        JsonView::Object(members) => member(members, name),
        _ => None,
    }
}

/// A document that is a string.
pub open spec fn as_text(doc: JsonView) -> Option<Seq<char>> {
    match doc {
        JsonView::Text(s) => Some(s),
        _ => None,
    }
}

/// A document that is a non-negative integer of 32 bits.
pub open spec fn as_offset(doc: JsonView) -> Option<u32> {
    match doc {
        JsonView::Number(Some(n)) => if n <= u32::MAX {
            Some(n as u32)
        } else {
            None
        },
        _ => None,
    }
}

/// A document that is an array of strings.
pub open spec fn as_texts(doc: JsonView) -> Option<Seq<Seq<char>>> {
    match doc {
        JsonView::Array(items) => if forall|i: int|
            0 <= i < items.len() ==> (#[trigger] as_text(items[i])) is Some {
            Some(Seq::new(items.len(), |i: int| as_text(items[i])->0))
        } else {
            None
        },
        _ => None,
    }
}

/// A text field of a record.
pub open spec fn text_field(record: JsonView, position: int, name: Seq<char>, arity: int) -> Option<
    Seq<char>,
> {
    match field(record, position, name, arity) {
        Some(doc) => as_text(doc),
        None => None,
    }
}

/// An offset field of a record.
pub open spec fn offset_field(record: JsonView, position: int, name: Seq<char>, arity: int) -> Option<
    u32,
> {
    match field(record, position, name, arity) {
        Some(doc) => as_offset(doc),
        None => None,
    }
}

/// The finding that a document describes: a record of seven fields, which are
/// the flagged text, the start and end offsets, the code, the description,
/// the suggestions and the title.
pub open spec fn finding_of(doc: JsonView) -> Option<FindingView> {
    let error_text = text_field(doc, 0, "error_text"@, 7);
    let start_index = offset_field(doc, 1, "start_index"@, 7);
    let end_index = offset_field(doc, 2, "end_index"@, 7);
    let error_code = text_field(doc, 3, "error_code"@, 7);
    let description = text_field(doc, 4, "description"@, 7);
    let suggestions = match field(doc, 5, "suggestions"@, 7) {
        Some(list) => as_texts(list),
        None => None,
    };
    let title = text_field(doc, 6, "title"@, 7);
    if error_text is Some && start_index is Some && end_index is Some && error_code is Some
        && description is Some && suggestions is Some && title is Some {
        Some(
            FindingView {
                error_text: error_text->0,
                start_index: start_index->0,
                end_index: end_index->0,
                error_code: error_code->0,
                description: description->0,
                suggestions: suggestions->0,
                title: title->0,
            },
        )
    } else {
        None
    }
}

/// The findings that a document lists: an array of findings.
pub open spec fn findings_of(doc: JsonView) -> Option<Seq<FindingView>> {
    match doc {
        JsonView::Array(items) => if forall|i: int|
            0 <= i < items.len() ==> (#[trigger] finding_of(items[i])) is Some {
            Some(Seq::new(items.len(), |i: int| finding_of(items[i])->0))
        } else {
            None
        },
        _ => None,
    }
}

/// The answer that a document holds: a record of two fields, the text and the
/// findings.
pub open spec fn output_of(doc: JsonView) -> Option<OutputView> {
    let text = text_field(doc, 0, "text"@, 2);
    let errs = match field(doc, 1, "errs"@, 2) {
        Some(list) => findings_of(list),
        None => None,
    };
    if text is Some && errs is Some {
        Some(OutputView { text: text->0, errs: errs->0 })
    } else {
        None
    }
}

/// An answer holds exactly as many findings as its document lists.
pub proof fn lemma_findings_count(doc: JsonView)
    requires
        output_of(doc) is Some,
    ensures
        field(doc, 1, "errs"@, 2) matches Some(JsonView::Array(items)) && output_of(doc)->0.errs.len()
            == items.len(),
{
}

/// The cause reported for a document that is valid JSON but not an answer.
pub const SHAPE_CAUSE: &'static str = "payload is not a check result";

/// The text of [`SHAPE_CAUSE`].
pub open spec fn shape_cause() -> Seq<char> {
    SHAPE_CAUSE@
}

fn find_member<'a>(members: &'a Vec<(String, Json)>, key: &String) -> (found: Option<&'a Json>)
    ensures
        match found {
            Some(doc) => member(members_view(members@), key@) == Some(doc@),
            None => member(members_view(members@), key@) is None,
        },
{
    let ghost all = members_view(members@);
    let mut i = members.len();
    assert(all.subrange(0, i as int) == all);
    while i > 0
        invariant
            i <= members.len(),
            all == members_view(members@),
            member(all, key@) == member(all.subrange(0, i as int), key@),
        decreases i,
    {
        i = i - 1;
        assert(all.subrange(0, i + 1).drop_last() == all.subrange(0, i as int));
        if members[i].0 == *key {
            return Some(&members[i].1);
        }
    }
    None
}

fn find_field<'a>(record: &'a Json, position: usize, name: &str, arity: usize) -> (found: Option<
    &'a Json,
>)
    ensures
        match found {
            Some(doc) => field(record@, position as int, name@, arity as int) == Some(doc@),
            None => field(record@, position as int, name@, arity as int) is None,
        },
{
    match record {
        Json::Array(items) => {
            proof {
                lemma_array_view(record);
            }
            if items.len() == arity && position < arity {
                Some(&items[position])
            } else {
                None
            }
        },
        Json::Object(members) => {
            proof {
                lemma_object_view(record);
            }
            let key = String::from_str(name);
            find_member(members, &key)
        },
        _ => None,
    }
}

fn read_text(doc: &Json) -> (text: Option<String>)
    ensures
        match text {
            Some(s) => as_text(doc@) == Some(s@),
            None => as_text(doc@) is None,
        },
{
    match doc {
        Json::Text(s) => Some(s.clone()),
        _ => None,
    }
}

fn read_offset(doc: &Json) -> (offset: Option<u32>)
    ensures
        offset == as_offset(doc@),
{
    match doc {
        Json::Number(Some(n)) => if *n <= 0xFFFF_FFFF {
            Some(*n as u32)
        } else {
            None
        },
        _ => None,
    }
}

fn read_texts(doc: &Json) -> (list: Option<Vec<String>>)
    ensures
        match list {
            Some(v) => as_texts(doc@) == Some(texts(v@)),
            None => as_texts(doc@) is None,
        },
{
    match doc {
        Json::Array(items) => {
            proof {
                lemma_array_view(doc);
            }
            let ghost views = items_view(items@);
            let mut out: Vec<String> = Vec::new();
            let mut i: usize = 0;
            while i < items.len()
                invariant
                    i <= items.len(),
                    views == items_view(items@),
                    doc@ == JsonView::Array(views),
                    out@.len() == i,
                    forall|j: int| 0 <= j < i ==> as_text(#[trigger] views[j]) == Some(out@[j]@),
                decreases items.len() - i,
            {
                match read_text(&items[i]) {
                    Some(s) => {
                        out.push(s);
                    },
                    None => {
                        assert(as_text(views[i as int]) is None);
                        return None;
                    },
                }
                i = i + 1;
            }
            Some(out)
        },
        _ => None,
    }
}

fn read_text_field(record: &Json, position: usize, name: &str, arity: usize) -> (text: Option<
    String,
>)
    ensures
        match text {
            Some(s) => text_field(record@, position as int, name@, arity as int) == Some(s@),
            None => text_field(record@, position as int, name@, arity as int) is None,
        },
{
    match find_field(record, position, name, arity) {
        Some(doc) => read_text(doc),
        None => None,
    }
}

fn read_offset_field(record: &Json, position: usize, name: &str, arity: usize) -> (offset: Option<
    u32,
>)
    ensures
        offset == offset_field(record@, position as int, name@, arity as int),
{
    match find_field(record, position, name, arity) {
        Some(doc) => read_offset(doc),
        None => None,
    }
}

fn read_finding(doc: &Json) -> (finding: Option<GramcheckErrResponse>)
    ensures
        match finding {
            Some(f) => finding_of(doc@) == Some(f@),
            None => finding_of(doc@) is None,
        },
{
    let error_text = read_text_field(doc, 0, "error_text", 7);
    let start_index = read_offset_field(doc, 1, "start_index", 7);
    let end_index = read_offset_field(doc, 2, "end_index", 7);
    let error_code = read_text_field(doc, 3, "error_code", 7);
    let description = read_text_field(doc, 4, "description", 7);
    let suggestions = match find_field(doc, 5, "suggestions", 7) {
        Some(list) => read_texts(list),
        None => None,
    };
    let title = read_text_field(doc, 6, "title", 7);
    match (error_text, start_index, end_index, error_code, description, suggestions, title) {
        (
            Some(error_text),
            Some(start_index),
            Some(end_index),
            Some(error_code),
            Some(description),
            Some(suggestions),
            Some(title),
        ) => Some(
            GramcheckErrResponse {
                error_text,
                start_index,
                end_index,
                error_code,
                description,
                suggestions,
                title,
            },
        ),
        _ => None,
    }
}

fn read_findings(doc: &Json) -> (list: Option<Vec<GramcheckErrResponse>>)
    ensures
        match list {
            Some(v) => findings_of(doc@) == Some(Seq::new(v@.len(), |i: int| v@[i]@)),
            None => findings_of(doc@) is None,
        },
{
    match doc {
        Json::Array(items) => {
            proof {
                lemma_array_view(doc);
            }
            let ghost views = items_view(items@);
            let mut out: Vec<GramcheckErrResponse> = Vec::new();
            let mut i: usize = 0;
            while i < items.len()
                invariant
                    i <= items.len(),
                    views == items_view(items@),
                    doc@ == JsonView::Array(views),
                    out@.len() == i,
                    forall|j: int| 0 <= j < i ==> finding_of(#[trigger] views[j]) == Some(out@[j]@),
                decreases items.len() - i,
            {
                match read_finding(&items[i]) {
                    Some(f) => {
                        out.push(f);
                    },
                    None => {
                        assert(finding_of(views[i as int]) is None);
                        return None;
                    },
                }
                i = i + 1;
            }
            Some(out)
        },
        _ => None,
    }
}

/// Reads a worker's answer out of a parsed document. Fails, with
/// `shape_cause` as the cause, exactly when the document is not an answer.
pub fn decode_output(doc: &Json) -> (r: Result<GramcheckOutput, String>)
    ensures
        match r {
            Ok(output) => output_of(doc@) == Some(output@),
            Err(cause) => output_of(doc@) is None && cause@ == shape_cause(),
        },
{
    let text = read_text_field(doc, 0, "text", 2);
    let errs = match find_field(doc, 1, "errs", 2) {
        Some(list) => read_findings(list),
        None => None,
    };
    match (text, errs) {
        (Some(text), Some(errs)) => Ok(GramcheckOutput { text, errs }),
        _ => Err(String::from_str(SHAPE_CAUSE)),
    }
}

/// What decoding `line` yields, given what the JSON parser makes of it.
pub open spec fn decoded(line: Seq<char>) -> Option<OutputView> {
    match json_document(line) {
        Some(doc) => output_of(doc),
        None => None,
    }
}

/// Decodes one response line. The line must be a single JSON document that
/// holds an answer; anything else is an error that carries the line
/// unchanged, together with the cause.
pub fn decode_result(line: &str) -> (r: Result<GramcheckOutput, DecodeError>)
    ensures
        match r {
            Ok(output) => decoded(line@) == Some(output@),
            Err(error) => {
                &&& decoded(line@) is None
                &&& error.raw_line@ == line@
                &&& json_document(line@) is Some ==> error.cause@ == shape_cause()
            },
        },
{
    let parsed = match parse(line) {
        Ok(doc) => decode_output(&doc),
        Err(cause) => Err(cause),
    };
    match parsed {
        Ok(output) => Ok(output),
        Err(cause) => Err(DecodeError { raw_line: String::from_str(line), cause }),
    }
}

/// Whether `result` is what a caller is owed for the response line `line`:
/// the decoded answer, or else a `ProtocolViolation` whose message quotes the
/// line in full after some cause.
pub open spec fn resolves(result: Result<GramcheckOutput, ApiError>, line: Seq<char>) -> bool {
    match result {
        Ok(output) => decoded(line) == Some(output@),
        Err(error) => {
            &&& decoded(line) is None
            &&& error.kind == ErrorKind::ProtocolViolation
            &&& exists|cause: Seq<char>| error.message@ == #[trigger] violation_message(cause, line)
            &&& json_document(line) is Some ==> error.message@ == violation_message(
                shape_cause(),
                line,
            )
        },
    }
}

/// Turns a response line into the result for the caller who is waiting for it.
pub fn resolve_response(line: &str) -> (result: Result<GramcheckOutput, ApiError>)
    ensures
        resolves(result, line@),
{
    match decode_result(line) {
        Ok(output) => Ok(output),
        Err(error) => {
            let failure = ApiError::protocol_violation(&error);
            Err(failure)
        },
    }
}

} // verus!
