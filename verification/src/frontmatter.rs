//! Response files: an optional metadata header between two `---`
//! delimiters, followed by the response body.

use crate::text::{
    begins_with, chars_of, concat, find, find_in, is_whitespace, leading_whitespace,
    lemma_find_from, lemma_find_from_hits, occurs_at,
    optional_result_view, result_view, same_chars, skip_leading_whitespace, slice_of, starts_with,
    string_of, trim, trim_start, trimmed,
};
use vstd::prelude::*;

verus! {

/// The status a response has when its file names none.
pub const DEFAULT_STATUS: u16 = 200;

/// The model of a header collection: its entries, in the order in which
/// their names were first set.
pub type HeaderEntries = Seq<(Seq<char>, Seq<char>)>;

/// Whether no name occurs twice among `entries`.
pub open spec fn names_distinct(entries: HeaderEntries) -> bool {
    forall|i: int, j: int| 0 <= i < j < entries.len() ==> entries[i].0 != entries[j].0
}

/// The index of the entry of `entries` that is named `name`.
pub open spec fn position(entries: HeaderEntries, name: Seq<char>) -> Option<int>
    decreases entries.len(),
{
    if entries.len() == 0 {
        None
    } else {
        match position(entries.drop_last(), name) {
            Some(i) => Some(i),
            None => if entries.last().0 == name {
                Some(entries.len() - 1)
            } else {
                None
            },
        }
    }
}

/// The value that `entries` holds under `name`.
pub open spec fn lookup(entries: HeaderEntries, name: Seq<char>) -> Option<Seq<char>> {
    match position(entries, name) {
        Some(i) => Some(entries[i].1),
        None => None,
    }
}

/// `entries` after `name` was set to `value`: the entry of that name holds the
/// new value in its old place, or a new entry stands at the end.
pub open spec fn inserted(entries: HeaderEntries, name: Seq<char>, value: Seq<char>)
    -> HeaderEntries {
    match position(entries, name) {
        Some(i) => entries.update(i, (name, value)),
        None => entries.push((name, value)),
    }
}

/// `position` finds the first entry of the name, and finds one whenever there
/// is one.
pub proof fn lemma_position(entries: HeaderEntries, name: Seq<char>)
    ensures
        match position(entries, name) {
            Some(i) => {
                &&& 0 <= i < entries.len()
                &&& entries[i].0 == name
                &&& forall|j: int| 0 <= j < i ==> entries[j].0 != name
            },
            None => forall|j: int| 0 <= j < entries.len() ==> entries[j].0 != name,
        },
    decreases entries.len(),
{
    if entries.len() > 0 {
        let front = entries.drop_last();
        lemma_position(front, name);
        assert(forall|j: int| 0 <= j < front.len() ==> front[j] == entries[j]);
    }
}

/// Setting a name keeps the names distinct, and the name then holds the value.
pub proof fn lemma_inserted(entries: HeaderEntries, name: Seq<char>, value: Seq<char>)
    requires
        names_distinct(entries),
    ensures
        names_distinct(inserted(entries, name, value)),
        lookup(inserted(entries, name, value), name) == Some(value),
{
    lemma_position(entries, name);
    let after = inserted(entries, name, value);
    lemma_position(after, name);
    match position(entries, name) {
        Some(i) => {
            assert(after[i].0 == name);
        },
        None => {
            assert(after[entries.len() as int].0 == name);
        },
    }
}

/// Response headers: header names with their values, no name twice.
#[derive(Debug)]
pub struct Headers {
    entries: Vec<(String, String)>,
}

impl View for Headers {
    type V = HeaderEntries;

    closed spec fn view(&self) -> HeaderEntries {
        self.entries.deep_view()
    }
}

impl DeepView for Headers {
    type V = HeaderEntries;

    open spec fn deep_view(&self) -> HeaderEntries {
        self@
    }
}

impl Headers {
    #[verifier::type_invariant]
    spec fn names_are_distinct(self) -> bool {
        names_distinct(self.entries.deep_view())
    }

    /// No headers.
    pub fn new() -> (r: Headers)
        ensures
            r@ == HeaderEntries::empty(),
    {
        let entries: Vec<(String, String)> = Vec::new();
        assert(entries.deep_view() =~= HeaderEntries::empty());
        Headers { entries }
    }

    /// The number of headers.
    pub fn len(&self) -> (n: usize)
        ensures
            n == self@.len(),
    {
        self.entries.len()
    }

    /// Whether there is no header.
    pub fn is_empty(&self) -> (r: bool)
        ensures
            r == (self@.len() == 0),
    {
        self.entries.len() == 0
    }

    /// The name of the header at `index`.
    pub fn name_at(&self, index: usize) -> (r: &String)
        requires
            index < self@.len(),
        ensures
            r@ == self@[index as int].0,
    {
        &self.entries[index].0
    }

    /// The value of the header at `index`.
    pub fn value_at(&self, index: usize) -> (r: &String)
        requires
            index < self@.len(),
        ensures
            r@ == self@[index as int].1,
    {
        &self.entries[index].1
    }

    fn find_index(&self, name: &Vec<char>) -> (r: Option<usize>)
        ensures
            match r {
                Some(i) => position(self@, name@) == Some(i as int) && i < self@.len(),
                None => position(self@, name@) is None,
            },
    {
        let mut i: usize = 0;
        while i < self.entries.len()
            invariant
                i <= self.entries.len(),
                forall|j: int| 0 <= j < i ==> self@[j].0 != name@,
            decreases self.entries.len() - i,
        {
            let candidate: Vec<char> = chars_of(self.entries[i].0.as_str());
            assert(self@[i as int].0 == candidate@);
            if same_chars(&candidate, name) {
                proof {
                    lemma_position(self@, name@);
                }
                return Some(i);
            }
            i += 1;
        }
        proof {
            lemma_position(self@, name@);
        }
        None
    }

    /// The value of the header named `name`.
    pub fn get(&self, name: &str) -> (r: Option<&String>)
        ensures
            r.deep_view() == lookup(self@, name@),
    {
        let wanted: Vec<char> = chars_of(name);
        match self.find_index(&wanted) {
            Some(i) => Some(&self.entries[i].1),
            None => None,
        }
    }

    /// These headers with `name` set to `value`. A header of that name keeps
    /// its place and takes the new value; a new name goes to the end.
    pub fn with(&self, name: String, value: String) -> (r: Headers)
        ensures
            r@ == inserted(self@, name@, value@),
            names_distinct(r@),
    {
        proof {
            use_type_invariant(self);
            lemma_inserted(self@, name@, value@);
            lemma_position(self@, name@);
        }
        let wanted: Vec<char> = chars_of(name.as_str());
        let found: Option<usize> = self.find_index(&wanted);
        let ghost target = inserted(self@, name@, value@);
        let mut entries: Vec<(String, String)> = Vec::new();
        let mut i: usize = 0;
        assert(entries.deep_view() =~= target.take(0));
        while i < self.entries.len()
            invariant
                i <= self.entries.len(),
                self.entries.len() == self@.len(),
                target == inserted(self@, name@, value@),
                match found {
                    Some(at) => position(self@, name@) == Some(at as int) && at < self@.len(),
                    None => position(self@, name@) is None,
                },
                entries.deep_view() == target.take(i as int),
            decreases self.entries.len() - i,
        {
            let ghost before = entries.deep_view();
            if found == Some(i) {
                entries.push((name.clone(), value.clone()));
                assert(entries.deep_view() =~= before.push((name@, value@)));
            } else {
                entries.push((self.entries[i].0.clone(), self.entries[i].1.clone()));
                assert(entries.deep_view() =~= before.push(self@[i as int]));
            }
            assert(entries.deep_view() =~= target.take(i + 1));
            i += 1;
        }
        match found {
            Some(at) => {
                assert(entries.deep_view() =~= target);
            },
            None => {
                let ghost before = entries.deep_view();
                entries.push((name, value));
                assert(entries.deep_view() =~= before.push((name@, value@)));
                assert(entries.deep_view() =~= target);
            },
        }
        Headers { entries }
    }

    /// Sets the header `name` to `value`. A header of that name keeps its
    /// place and takes the new value; a new name goes to the end.
    pub fn insert(&mut self, name: String, value: String)
        ensures
            final(self)@ == inserted(old(self)@, name@, value@),
            names_distinct(final(self)@),
    {
        let updated: Headers = self.with(name, value);
        *self = updated;
    }

    /// A copy that holds the same headers.
    pub fn duplicate(&self) -> (r: Headers)
        ensures
            r@ == self@,
    {
        proof {
            use_type_invariant(self);
        }
        let mut entries: Vec<(String, String)> = Vec::new();
        let mut i: usize = 0;
        while i < self.entries.len()
            invariant
                i <= self.entries.len(),
                entries.deep_view() == self.entries.deep_view().take(i as int),
            decreases self.entries.len() - i,
        {
            let ghost before = entries.deep_view();
            entries.push((self.entries[i].0.clone(), self.entries[i].1.clone()));
            assert(entries.deep_view() =~= before.push(self.entries.deep_view()[i as int]));
            assert(self.entries.deep_view().take(i + 1) =~= before.push(
                self.entries.deep_view()[i as int],
            ));
            i += 1;
        }
        assert(self.entries.deep_view().take(self.entries.len() as int) =~= self.entries.deep_view());
        Headers { entries }
    }
}

impl Clone for Headers {
    fn clone(&self) -> (r: Self)
        ensures
            r@ == self@,
    {
        self.duplicate()
    }
}

/// The model of a [`ResponseMeta`].
pub struct MetaView {
    pub status: u16,
    pub headers: HeaderEntries,
    pub delay: u64,
}

/// What a response file says of its response besides the body.
#[derive(Debug)]
pub struct ResponseMeta {
    /// The HTTP status.
    pub status: u16,
    /// The headers to send.
    pub headers: Headers,
    /// Milliseconds to wait before the response is sent.
    pub delay: u64,
}

impl View for ResponseMeta {
    type V = MetaView;

    open spec fn view(&self) -> MetaView {
        MetaView { status: self.status, headers: self.headers@, delay: self.delay }
    }
}

impl DeepView for ResponseMeta {
    type V = MetaView;

    open spec fn deep_view(&self) -> MetaView {
        self@
    }
}

/// The metadata of a file that gives none: status 200, no headers, no delay.
pub open spec fn default_meta() -> MetaView {
    MetaView { status: DEFAULT_STATUS, headers: HeaderEntries::empty(), delay: 0 }
}

impl Default for ResponseMeta {
    fn default() -> (r: Self)
        ensures
            r@ == default_meta(),
    {
        ResponseMeta { status: DEFAULT_STATUS, headers: Headers::new(), delay: 0 }
    }
}

impl Clone for ResponseMeta {
    fn clone(&self) -> (r: Self)
        ensures
            r@ == self@,
    {
        ResponseMeta { status: self.status, headers: self.headers.duplicate(), delay: self.delay }
    }
}

/// The model of a [`ParsedResponse`].
pub struct ParsedView {
    pub meta: MetaView,
    pub body: Seq<char>,
}

/// A response file taken apart: its metadata and its body.
#[derive(Debug)]
pub struct ParsedResponse {
    pub meta: ResponseMeta,
    pub body: String,
}

impl View for ParsedResponse {
    type V = ParsedView;

    open spec fn view(&self) -> ParsedView {
        ParsedView { meta: self.meta@, body: self.body@ }
    }
}

impl DeepView for ParsedResponse {
    type V = ParsedView;

    open spec fn deep_view(&self) -> ParsedView {
        self@
    }
}

impl Clone for ParsedResponse {
    fn clone(&self) -> (r: Self)
        ensures
            r@ == self@,
    {
        ParsedResponse { meta: self.meta.clone(), body: self.body.clone() }
    }
}

/// Why a response file could not be taken apart.
#[derive(Debug)]
pub enum FrontmatterError {
    /// The file opens a metadata header and never closes it.
    MissingClosingDelimiter,
    /// The metadata header is no valid metadata; the text says why.
    InvalidYaml(String),
}

/// The model of a [`FrontmatterError`].
pub enum FrontmatterErrorView {
    MissingClosingDelimiter,
    InvalidYaml(Seq<char>),
}

impl View for FrontmatterError {
    type V = FrontmatterErrorView;

    open spec fn view(&self) -> FrontmatterErrorView {
        match self {
            FrontmatterError::MissingClosingDelimiter => {
                FrontmatterErrorView::MissingClosingDelimiter
            },
            FrontmatterError::InvalidYaml(detail) => FrontmatterErrorView::InvalidYaml(detail@),
        }
    }
}

impl DeepView for FrontmatterError {
    type V = FrontmatterErrorView;

    open spec fn deep_view(&self) -> FrontmatterErrorView {
        self@
    }
}

/// The text of a [`FrontmatterError`].
pub open spec fn frontmatter_error_text(error: FrontmatterErrorView) -> Seq<char> {
    match error {
        FrontmatterErrorView::MissingClosingDelimiter => {
            "Missing closing frontmatter delimiter '---'"@
        },
        FrontmatterErrorView::InvalidYaml(detail) => "Failed to parse YAML frontmatter: "@ + detail,
    }
}

impl FrontmatterError {
    /// The error as a sentence.
    pub fn message(&self) -> (r: String)
        ensures
            r@ == frontmatter_error_text(self@),
    {
        match self {
            FrontmatterError::MissingClosingDelimiter => {
                "Missing closing frontmatter delimiter '---'".to_owned()
            },
            FrontmatterError::InvalidYaml(detail) => {
                let head: Vec<char> = chars_of("Failed to parse YAML frontmatter: ");
                let tail: Vec<char> = chars_of(detail.as_str());
                string_of(&concat(&head, &tail))
            },
        }
    }

    /// A copy of the error.
    pub fn duplicate(&self) -> (r: FrontmatterError)
        ensures
            r@ == self@,
    {
        match self {
            FrontmatterError::MissingClosingDelimiter => FrontmatterError::MissingClosingDelimiter,
            FrontmatterError::InvalidYaml(detail) => FrontmatterError::InvalidYaml(detail.clone()),
        }
    }
}

/// The model of a [`Frontmatter`].
pub struct FrontmatterView {
    pub yaml: Seq<char>,
    pub body: Seq<char>,
}

/// The two parts of a response file: the text of its metadata header,
/// trimmed, and its body.
#[derive(Debug)]
pub struct Frontmatter {
    /// The metadata between the delimiters, without surrounding whitespace;
    /// empty where the file has no header or an empty one.
    pub yaml: String,
    /// The response body.
    pub body: String,
}

impl View for Frontmatter {
    type V = FrontmatterView;

    open spec fn view(&self) -> FrontmatterView {
        FrontmatterView { yaml: self.yaml@, body: self.body@ }
    }
}

impl DeepView for Frontmatter {
    type V = FrontmatterView;

    open spec fn deep_view(&self) -> FrontmatterView {
        self@
    }
}

/// The delimiter that opens a metadata header: `---`.
pub open spec fn opening_delimiter() -> Seq<char> {
    seq!['-', '-', '-']
}

/// What closes a metadata header: a line break and `---`.
pub open spec fn closing_delimiter() -> Seq<char> {
    seq!['\n', '-', '-', '-']
}

/// The body that follows a closing delimiter: one line break, if the text
/// begins with one, is not part of it.
pub open spec fn body_after(rest: Seq<char>) -> Seq<char> {
    if rest.len() > 0 && rest[0] == '\n' {
        rest.drop_first()
    } else {
        rest
    }
}

/// The parts of a file's content, or `None` where its metadata header is
/// never closed.
///
/// Leading whitespace does not count. A content that does not begin with
/// `---` is all body. Otherwise the header runs up to the next line that
/// begins with `---`, and the body begins after that delimiter.
pub open spec fn split_spec(content: Seq<char>) -> Option<FrontmatterView> {
    let text = trim_start(content);
    if !starts_with(text, opening_delimiter()) {
        Some(FrontmatterView { yaml: Seq::empty(), body: text })
    } else {
        let rest = text.skip(3);
        match find(rest, closing_delimiter()) {
            None => None,
            Some(at) => Some(
                FrontmatterView {
                    yaml: trim(rest.take(at)),
                    body: body_after(rest.skip(at + 4)),
                },
            ),
        }
    }
}

/// Takes a file's content apart into metadata text and body.
pub fn split_frontmatter(content: &str) -> (r: Result<Frontmatter, FrontmatterError>)
    ensures
        match split_spec(content@) {
            Some(parts) => r matches Ok(found) && found@ == parts,
            None => r matches Err(e) && e@ == FrontmatterErrorView::MissingClosingDelimiter,
        },
{
    let all: Vec<char> = chars_of(content);
    let start: usize = skip_leading_whitespace(&all);
    let text: Vec<char> = slice_of(&all, start, all.len());
    assert(text@ == trim_start(content@));
    let mut opening: Vec<char> = Vec::new();
    opening.push('-');
    opening.push('-');
    opening.push('-');
    assert(opening@ =~= opening_delimiter());
    if !begins_with(&text, &opening) {
        let yaml: Vec<char> = Vec::new();
        return Ok(Frontmatter { yaml: string_of(&yaml), body: string_of(&text) });
    }
    let rest: Vec<char> = slice_of(&text, 3, text.len());
    assert(rest@ == text@.skip(3));
    let mut closing: Vec<char> = Vec::new();
    closing.push('\n');
    closing.push('-');
    closing.push('-');
    closing.push('-');
    assert(closing@ =~= closing_delimiter());
    match find_in(&rest, &closing) {
        None => Err(FrontmatterError::MissingClosingDelimiter),
        Some(at) => {
            proof {
                lemma_find_from(rest@, closing@, 0);
            }
            let region: Vec<char> = slice_of(&rest, 0, at);
            assert(region@ == rest@.take(at as int));
            let yaml: Vec<char> = trimmed(&region);
            let after: Vec<char> = slice_of(&rest, at + 4, rest.len());
            assert(after@ == rest@.skip(at + 4));
            let body: Vec<char> = if after.len() > 0 && after[0] == '\n' {
                slice_of(&after, 1, after.len())
            } else {
                after
            };
            assert(body@ == body_after(rest@.skip(at + 4)));
            Ok(Frontmatter { yaml: string_of(&yaml), body: string_of(&body) })
        },
    }
}

/// The model of what a metadata decoder answered: nothing where it was not
/// asked, else the metadata or the reason why the text is none.
pub type DecodedView = Option<Result<MetaView, Seq<char>>>;

/// What a file's content parses to, given what the decoder answered for its
/// metadata text.
///
/// An empty metadata text gives the default metadata, whatever the decoder
/// would say. Otherwise the decoder's metadata is taken, and its refusal is
/// the error.
pub open spec fn parse_spec(content: Seq<char>, decoded: DecodedView) -> Result<
    ParsedView,
    FrontmatterErrorView,
> {
    match split_spec(content) {
        None => Err(FrontmatterErrorView::MissingClosingDelimiter),
        Some(parts) => assemble_spec(parts, decoded),
    }
}

/// The response that the parts of a file and the decoder's answer make.
pub open spec fn assemble_spec(parts: FrontmatterView, decoded: DecodedView) -> Result<
    ParsedView,
    FrontmatterErrorView,
> {
    if parts.yaml.len() == 0 {
        Ok(ParsedView { meta: default_meta(), body: parts.body })
    } else {
        match decoded {
            Some(Ok(meta)) => Ok(ParsedView { meta, body: parts.body }),
            Some(Err(detail)) => Err(FrontmatterErrorView::InvalidYaml(detail)),
            None => Ok(ParsedView { meta: default_meta(), body: parts.body }),
        }
    }
}

/// Whether a file with this content has metadata text for a decoder to read.
pub open spec fn needs_decoding(content: Seq<char>) -> bool {
    split_spec(content) matches Some(parts) && parts.yaml.len() > 0
}

/// Puts the parts of a file and the decoder's answer together.
pub fn assemble_response(parts: Frontmatter, decoded: Option<Result<ResponseMeta, String>>) -> (r:
    Result<ParsedResponse, FrontmatterError>)
    ensures
        result_view(r) == assemble_spec(parts@, optional_result_view(decoded)),
{
    if parts.yaml.as_str().unicode_len() == 0 {
        return Ok(ParsedResponse { meta: ResponseMeta::default(), body: parts.body });
    }
    match decoded {
        Some(Ok(meta)) => Ok(ParsedResponse { meta, body: parts.body }),
        Some(Err(detail)) => Err(FrontmatterError::InvalidYaml(detail)),
        None => Ok(ParsedResponse { meta: ResponseMeta::default(), body: parts.body }),
    }
}

/// Whether `answer` is what `decode` may have said of the metadata text of
/// `content`: nothing where there is no such text, else one of its results
/// for that text.
pub open spec fn decoder_answer<F: Fn(&str) -> Result<ResponseMeta, String>>(
    decode: F,
    content: Seq<char>,
    answer: Option<Result<ResponseMeta, String>>,
) -> bool {
    if needs_decoding(content) {
        answer matches Some(outcome) && exists|yaml: &str|
            yaml@ == split_spec(content)->0.yaml && #[trigger] call_ensures(
                decode,
                (yaml,),
                outcome,
            )
    } else {
        answer is None
    }
}

/// Parses a file's content into metadata and body. `decode` turns the
/// metadata text into metadata; it is asked only where there is such text.
pub fn parse_frontmatter<F: Fn(&str) -> Result<ResponseMeta, String>>(content: &str, decode: F) -> (r:
    Result<ParsedResponse, FrontmatterError>)
    requires
        forall|yaml: &str| call_requires(decode, (yaml,)),
    ensures
        exists|answer: Option<Result<ResponseMeta, String>>|
            #[trigger] decoder_answer(decode, content@, answer) && result_view(r) == parse_spec(
                content@,
                optional_result_view(answer),
            ),
{
    match split_frontmatter(content) {
        Err(e) => {
            proof {
                let answer: Option<Result<ResponseMeta, String>> = None;
                assert(decoder_answer(decode, content@, answer));
            }
            Err(e)
        },
        Ok(parts) => {
            if parts.yaml.as_str().unicode_len() == 0 {
                proof {
                    let answer: Option<Result<ResponseMeta, String>> = None;
                    assert(decoder_answer(decode, content@, answer));
                }
                assemble_response(parts, None)
            } else {
                let yaml: &str = parts.yaml.as_str();
                let outcome = decode(yaml);
                let ghost answer = Some(outcome);
                proof {
                    assert(call_ensures(decode, (yaml,), outcome));
                    assert(decoder_answer(decode, content@, answer));
                }
                let r = assemble_response(parts, Some(outcome));
                assert(result_view(r) == parse_spec(content@, optional_result_view(answer)));
                r
            }
        },
    }
}

/// A file that is written as `---`, a metadata region, a line break and
/// `---`, a line break and a body.
pub open spec fn written_file(region: Seq<char>, body: Seq<char>) -> Seq<char> {
    opening_delimiter() + region + closing_delimiter() + seq!['\n'] + body
}

/// Whether a metadata region holds no line that begins with `---`.
pub open spec fn region_is_closed(region: Seq<char>) -> bool {
    forall|at: int| !occurs_at(region, closing_delimiter(), at)
}

/// Before the end of a closed region no closing delimiter begins, whatever
/// follows the region.
proof fn lemma_no_early_delimiter(region: Seq<char>, tail: Seq<char>, j: int)
    requires
        !occurs_at(region, closing_delimiter(), j),
        0 <= j < region.len(),
    ensures
        !occurs_at(region + closing_delimiter() + tail, closing_delimiter(), j),
{
    let closing = closing_delimiter();
    let rest = region + closing + tail;
    let at = region.len() as int;
    assert(closing.len() == 4);
    assert(rest.len() == region.len() + 4 + tail.len());
    if occurs_at(rest, closing, j) {
        let window = rest.subrange(j, j + 4);
        assert(window == closing);
        if j + 4 <= at {
            assert(region.subrange(j, j + 4) =~= window) by {
                assert forall|k: int| 0 <= k < 4 implies region.subrange(j, j + 4)[k]
                    == window[k] by {
                    assert(rest[j + k] == region[j + k]);
                }
            }
        } else {
            let k = at - j;
            assert(window[k] == rest[at]);
            assert(rest[at] == closing[0]);
            assert(closing[k] == '-');
            assert(closing[0] == '\n');
        }
    }
}

/// In a closed region followed by the closing delimiter and anything else,
/// the first closing delimiter is the one after the region.
pub proof fn lemma_first_closing_delimiter(region: Seq<char>, tail: Seq<char>)
    requires
        region_is_closed(region),
    ensures
        find(region + closing_delimiter() + tail, closing_delimiter()) == Some(region.len() as int),
{
    let closing = closing_delimiter();
    let rest = region + closing + tail;
    let at = region.len() as int;
    assert(closing.len() == 4);
    assert(occurs_at(rest, closing, at)) by {
        assert(rest.subrange(at, at + 4) =~= closing);
    }
    assert forall|j: int| 0 <= j < at implies !occurs_at(rest, closing, j) by {
        assert(!occurs_at(region, closing, j));
        lemma_no_early_delimiter(region, tail, j);
    }
    lemma_find_from_hits(rest, closing, 0, at);
}

/// Writing and splitting undo each other: a file written from a metadata
/// region without a line that begins with `---`, and from any body, splits
/// into that region, trimmed, and that body, character for character.
pub proof fn lemma_split_of_written_file(region: Seq<char>, body: Seq<char>)
    requires
        region_is_closed(region),
    ensures
        split_spec(written_file(region, body)) == Some(
            FrontmatterView { yaml: trim(region), body },
        ),
{
    let content = written_file(region, body);
    let closing = closing_delimiter();
    let tail = seq!['\n'] + body;
    let rest = region + closing + tail;
    let at = region.len() as int;
    assert(trim_start(content) == content) by {
        assert(content[0] == '-');
        assert(!is_whitespace('-'));
        assert(leading_whitespace(content) == 0);
        assert(content.skip(0) =~= content);
    }
    assert(starts_with(content, opening_delimiter())) by {
        assert(content.take(3) =~= opening_delimiter());
    }
    assert(content.skip(3) == rest) by {
        assert(content.skip(3) =~= rest);
    }
    lemma_first_closing_delimiter(region, tail);
    assert(rest.take(at) == region) by {
        assert(rest.take(at) =~= region);
    }
    assert(rest.skip(at + 4) == tail) by {
        assert(rest.skip(at + 4) =~= tail);
    }
    assert(body_after(tail) == body) by {
        assert(tail[0] == '\n');
        assert(tail.drop_first() =~= body);
    }
}

/// Round trip: a file written from a metadata region and a body parses to
/// the metadata that the decoder reads from the region, and to that body.
/// So where the region is one that the decoder reads as `meta`, the file
/// parses to `meta` and the body.
pub proof fn lemma_parse_of_written_file(region: Seq<char>, body: Seq<char>, meta: MetaView)
    requires
        region_is_closed(region),
        trim(region).len() > 0,
    ensures
        needs_decoding(written_file(region, body)),
        parse_spec(written_file(region, body), Some(Ok(meta))) == Ok::<
            ParsedView,
            FrontmatterErrorView,
        >(ParsedView { meta, body }),
{
    lemma_split_of_written_file(region, body);
}

} // verus!
