//! From a listing of response files to routes: which files are routes, what
//! path and content type each has, and what stops the compilation.

use crate::frontmatter::{
    assemble_response, needs_decoding, parse_spec, split_frontmatter, split_spec, DecodedView,
    FrontmatterError, FrontmatterErrorView, ResponseMeta,
};
use crate::routes::{
    method_named, segment_of, segments_of, HttpMethod, PathSegment, Route, RouteView,
};
use crate::text::{
    chars_of, concat, eq_ignore_ascii_case, optional_result_view, result_view,
    same_ignoring_ascii_case, slice_of, string_of,
};
use vstd::prelude::*;

verus! {

/// The index of the last `c` in `s`.
pub open spec fn last_index_of(s: Seq<char>, c: char) -> Option<int>
    decreases s.len(),
{
    if s.len() == 0 {
        None
    } else if s.last() == c {
        Some(s.len() - 1)
    } else {
        last_index_of(s.drop_last(), c)
    }
}

/// Where a file name is cut into stem and extension: at its last dot, unless
/// that dot opens the name or the name is `..`.
pub open spec fn extension_dot(name: Seq<char>) -> Option<int> {
    if name == seq!['.', '.'] {
        None
    } else {
        match last_index_of(name, '.') {
            Some(at) => if at > 0 {
                Some(at)
            } else {
                None
            },
            None => None,
        }
    }
}

/// A file name without its extension.
pub open spec fn file_stem(name: Seq<char>) -> Seq<char> {
    match extension_dot(name) {
        Some(at) => name.take(at),
        None => name,
    }
}

/// The extension of a file name, without the dot; empty where it has none.
pub open spec fn file_extension(name: Seq<char>) -> Seq<char> {
    match extension_dot(name) {
        Some(at) => name.skip(at + 1),
        None => Seq::empty(),
    }
}

/// The content type that a file extension stands for, whatever the case of
/// its letters.
pub open spec fn content_type_of(extension: Seq<char>) -> Seq<char> {
    if eq_ignore_ascii_case(extension, "json"@) {
        "application/json"@
    } else if eq_ignore_ascii_case(extension, "html"@) || eq_ignore_ascii_case(
        extension,
        "htm"@,
    ) {
        "text/html"@
    } else if eq_ignore_ascii_case(extension, "xml"@) {
        "application/xml"@
    } else if eq_ignore_ascii_case(extension, "txt"@) {
        "text/plain"@
    } else if eq_ignore_ascii_case(extension, "css"@) {
        "text/css"@
    } else if eq_ignore_ascii_case(extension, "js"@) {
        "application/javascript"@
    } else {
        "application/octet-stream"@
    }
}

/// The parts of a relative path, each after the other with a slash between.
pub open spec fn joined(parts: Seq<Seq<char>>) -> Seq<char>
    decreases parts.len(),
{
    if parts.len() == 0 {
        Seq::empty()
    } else if parts.len() == 1 {
        parts[0]
    } else {
        joined(parts.drop_last()) + seq!['/'] + parts.last()
    }
}

/// Where the last dot of `name` stands.
pub fn find_last_dot(name: &Vec<char>) -> (r: Option<usize>)
    ensures
        match r {
            Some(at) => last_index_of(name@, '.') == Some(at as int) && at < name.len(),
            None => last_index_of(name@, '.') is None,
        },
{
    let mut n: usize = name.len();
    assert(name@.take(n as int) == name@);
    while n > 0
        invariant
            n <= name.len(),
            last_index_of(name@, '.') == last_index_of(name@.take(n as int), '.'),
        decreases n,
    {
        let ghost head = name@.take(n as int);
        assert(head.last() == name@[n - 1]);
        if name[n - 1] == '.' {
            return Some(n - 1);
        }
        assert(head.drop_last() == name@.take(n - 1));
        n -= 1;
    }
    None
}

/// The stem and the extension of a file name.
pub fn split_file_name(name: &str) -> (r: (String, String))
    ensures
        r.0@ == file_stem(name@),
        r.1@ == file_extension(name@),
{
    let all: Vec<char> = chars_of(name);
    let is_dots: bool = all.len() == 2 && all[0] == '.' && all[1] == '.';
    assert(is_dots == (all@ == seq!['.', '.'])) by {
        if is_dots {
            assert(all@ =~= seq!['.', '.']);
        }
    }
    let cut: Option<usize> = if is_dots {
        None
    } else {
        match find_last_dot(&all) {
            Some(at) => if at > 0 {
                Some(at)
            } else {
                None
            },
            None => None,
        }
    };
    match cut {
        Some(at) => {
            let stem: Vec<char> = slice_of(&all, 0, at);
            let extension: Vec<char> = slice_of(&all, at + 1, all.len());
            assert(stem@ == all@.take(at as int));
            assert(extension@ == all@.skip(at + 1));
            (string_of(&stem), string_of(&extension))
        },
        None => {
            let extension: Vec<char> = Vec::new();
            (string_of(&all), string_of(&extension))
        },
    }
}

/// The content type that a file extension stands for.
pub fn infer_content_type(extension: &str) -> (r: String)
    ensures
        r@ == content_type_of(extension@),
{
    let ext: Vec<char> = chars_of(extension);
    let name: &'static str = if same_ignoring_ascii_case(&ext, &chars_of("json")) {
        "application/json"
    } else if same_ignoring_ascii_case(&ext, &chars_of("html")) || same_ignoring_ascii_case(
        &ext,
        &chars_of("htm"),
    ) {
        "text/html"
    } else if same_ignoring_ascii_case(&ext, &chars_of("xml")) {
        "application/xml"
    } else if same_ignoring_ascii_case(&ext, &chars_of("txt")) {
        "text/plain"
    } else if same_ignoring_ascii_case(&ext, &chars_of("css")) {
        "text/css"
    } else if same_ignoring_ascii_case(&ext, &chars_of("js")) {
        "application/javascript"
    } else {
        "application/octet-stream"
    };
    name.to_owned()
}

/// The segment that a directory name stands for.
pub fn segment_from(component: &str) -> (r: PathSegment)
    ensures
        r@ == segment_of(component@),
{
    let all: Vec<char> = chars_of(component);
    if all.len() >= 2 && all[0] == '[' && all[all.len() - 1] == ']' {
        let name: Vec<char> = slice_of(&all, 1, all.len() - 1);
        PathSegment::Dynamic(string_of(&name))
    } else {
        PathSegment::Static(string_of(&all))
    }
}

/// The segments that the names of a file's directories stand for.
pub fn segments_from(directory: &Vec<String>) -> (r: Vec<PathSegment>)
    ensures
        r.deep_view() == segments_of(directory.deep_view()),
{
    let mut r: Vec<PathSegment> = Vec::new();
    let mut i: usize = 0;
    while i < directory.len()
        invariant
            i <= directory.len(),
            r.len() == i,
            forall|j: int| 0 <= j < i ==> r@[j]@ == segment_of(directory@[j]@),
        decreases directory.len() - i,
    {
        r.push(segment_from(directory[i].as_str()));
        i += 1;
    }
    assert(r.deep_view() =~= segments_of(directory.deep_view()));
    r
}

/// The parts of a relative path as one text, with slashes between them.
pub fn join_path(parts: &Vec<String>) -> (r: String)
    ensures
        r@ == joined(parts.deep_view()),
{
    let mut out: Vec<char> = Vec::new();
    let ghost all = parts.deep_view();
    let mut i: usize = 0;
    assert(all.take(0) =~= Seq::<Seq<char>>::empty());
    while i < parts.len()
        invariant
            i <= parts.len(),
            all == parts.deep_view(),
            out@ == joined(all.take(i as int)),
        decreases parts.len() - i,
    {
        let ghost before = out@;
        if i > 0 {
            out.push('/');
        }
        out = concat(&out, &chars_of(parts[i].as_str()));
        proof {
            let upto = all.take(i + 1);
            assert(upto.drop_last() =~= all.take(i as int));
            assert(upto.last() == all[i as int]);
            if i == 0 {
                assert(upto[0] == all[0]);
                assert(out@ =~= all[0]);
            } else {
                assert(out@ =~= before + seq!['/'] + all[i as int]);
            }
        }
        i += 1;
    }
    assert(all.take(i as int) =~= all);
    string_of(&out)
}

/// The model of a [`SourceFile`].
pub struct SourceFileView {
    pub directory: Seq<Seq<char>>,
    pub file_name: Seq<char>,
    pub content: Result<Seq<char>, Seq<char>>,
}

/// One file of the served directory, as it was found and read.
#[derive(Debug)]
pub struct SourceFile {
    /// The names of the directories from the served directory down to the
    /// file.
    pub directory: Vec<String>,
    /// The name of the file.
    pub file_name: String,
    /// The text of the file, or why it could not be read.
    pub content: Result<String, String>,
}

impl View for SourceFile {
    type V = SourceFileView;

    open spec fn view(&self) -> SourceFileView {
        SourceFileView {
            directory: self.directory.deep_view(),
            file_name: self.file_name@,
            content: result_view(self.content),
        }
    }
}

impl DeepView for SourceFile {
    type V = SourceFileView;

    open spec fn deep_view(&self) -> SourceFileView {
        self@
    }
}

/// The model of a [`SourceEntry`].
pub enum SourceEntryView {
    File(SourceFileView),
    Failure { path: Seq<char>, cause: Seq<char> },
}

/// One step of walking the served directory: a file, or a place that could
/// not be walked.
#[derive(Debug)]
pub enum SourceEntry {
    File(SourceFile),
    Failure { path: String, cause: String },
}

impl View for SourceEntry {
    type V = SourceEntryView;

    open spec fn view(&self) -> SourceEntryView {
        match self {
            SourceEntry::File(file) => SourceEntryView::File(file@),
            SourceEntry::Failure { path, cause } => SourceEntryView::Failure {
                path: path@,
                cause: cause@,
            },
        }
    }
}

impl DeepView for SourceEntry {
    type V = SourceEntryView;

    open spec fn deep_view(&self) -> SourceEntryView {
        self@
    }
}

/// The model of a [`CompileCause`].
pub enum CompileCauseView {
    Traversal(Seq<char>),
    Read(Seq<char>),
    Frontmatter(FrontmatterErrorView),
}

/// What went wrong at a path of the served directory.
#[derive(Debug)]
pub enum CompileCause {
    /// The directory could not be walked.
    Traversal(String),
    /// The file could not be read.
    Read(String),
    /// The file could not be taken apart.
    Frontmatter(FrontmatterError),
}

impl View for CompileCause {
    type V = CompileCauseView;

    open spec fn view(&self) -> CompileCauseView {
        match self {
            CompileCause::Traversal(cause) => CompileCauseView::Traversal(cause@),
            CompileCause::Read(cause) => CompileCauseView::Read(cause@),
            CompileCause::Frontmatter(error) => CompileCauseView::Frontmatter(error@),
        }
    }
}

/// The model of a [`CompileError`].
pub struct CompileErrorView {
    pub path: Seq<char>,
    pub cause: CompileCauseView,
}

/// Why the served directory could not be compiled: the path and the cause.
#[derive(Debug)]
pub struct CompileError {
    pub path: String,
    pub cause: CompileCause,
}

impl View for CompileError {
    type V = CompileErrorView;

    open spec fn view(&self) -> CompileErrorView {
        CompileErrorView { path: self.path@, cause: self.cause@ }
    }
}

impl DeepView for CompileError {
    type V = CompileErrorView;

    open spec fn deep_view(&self) -> CompileErrorView {
        self@
    }
}

/// The relative path of a file: its directories and its name, with slashes.
pub open spec fn file_path(file: SourceFileView) -> Seq<char> {
    joined(file.directory.push(file.file_name))
}

/// The method that a file answers: the one that its stem names, if any.
pub open spec fn file_method(file: SourceFileView) -> Option<HttpMethod> {
    method_named(file_stem(file.file_name))
}

/// Whether a decoder has to read the metadata of a file: the file is a
/// route, it was read, and it holds metadata text.
pub open spec fn file_needs_decoding(file: SourceFileView) -> bool {
    match file.content {
        Ok(text) => file_method(file) is Some && needs_decoding(text),
        Err(_) => false,
    }
}

/// The metadata text of a file that needs decoding.
pub open spec fn file_yaml(file: SourceFileView) -> Seq<char> {
    split_spec(file.content->Ok_0)->0.yaml
}

/// What a file compiles to, given what the decoder answered for it.
///
/// A file whose stem names no method is no route. A route file that could not
/// be read, or whose content cannot be parsed, stops the compilation with its
/// path. Otherwise the route has the method of the stem, one segment for each
/// directory, the parsed response, and the content type of the extension.
pub open spec fn route_spec(file: SourceFileView, decoded: DecodedView) -> Result<
    Option<RouteView>,
    CompileErrorView,
> {
    match file_method(file) {
        None => Ok(None),
        Some(method) => match file.content {
            Err(cause) => Err(
                CompileErrorView { path: file_path(file), cause: CompileCauseView::Read(cause) },
            ),
            Ok(text) => match parse_spec(text, decoded) {
                Err(error) => Err(
                    CompileErrorView {
                        path: file_path(file),
                        cause: CompileCauseView::Frontmatter(error),
                    },
                ),
                Ok(parsed) => Ok(
                    Some(
                        RouteView {
                            method,
                            path_segments: segments_of(file.directory),
                            response: parsed,
                            content_type: content_type_of(file_extension(file.file_name)),
                        },
                    ),
                ),
            },
        },
    }
}

/// The model of what compiling one file gave.
pub open spec fn route_result_view(r: Result<Option<Route>, CompileError>) -> Result<
    Option<RouteView>,
    CompileErrorView,
> {
    match r {
        Ok(Some(route)) => Ok(Some(route@)),
        Ok(None) => Ok(None),
        Err(error) => Err(error@),
    }
}

/// The relative path of a file as text.
pub fn path_of(file: &SourceFile) -> (r: String)
    ensures
        r@ == file_path(file@),
{
    let mut parts: Vec<String> = Vec::new();
    let mut i: usize = 0;
    while i < file.directory.len()
        invariant
            i <= file.directory.len(),
            parts.len() == i,
            forall|j: int| 0 <= j < i ==> parts@[j]@ == file.directory@[j]@,
        decreases file.directory.len() - i,
    {
        parts.push(file.directory[i].clone());
        i += 1;
    }
    parts.push(file.file_name.clone());
    assert(parts.deep_view() =~= file.directory.deep_view().push(file.file_name@));
    join_path(&parts)
}

/// Compiles one file into its route, given what the decoder answered for its
/// metadata text. The answer is not looked at where the file has no such
/// text.
pub fn compile_route(file: &SourceFile, decoded: Option<Result<ResponseMeta, String>>) -> (r:
    Result<Option<Route>, CompileError>)
    ensures
        route_result_view(r) == route_spec(file@, optional_result_view(decoded)),
{
    let (stem, extension) = split_file_name(file.file_name.as_str());
    let method: HttpMethod = match HttpMethod::from_str(stem.as_str()) {
        None => {
            return Ok(None);
        },
        Some(method) => method,
    };
    match &file.content {
        Err(cause) => Err(
            CompileError { path: path_of(file), cause: CompileCause::Read(cause.clone()) },
        ),
        Ok(text) => match split_frontmatter(text.as_str()) {
            Err(error) => Err(
                CompileError { path: path_of(file), cause: CompileCause::Frontmatter(error) },
            ),
            Ok(parts) => match assemble_response(parts, decoded) {
                Err(error) => Err(
                    CompileError { path: path_of(file), cause: CompileCause::Frontmatter(error) },
                ),
                Ok(response) => Ok(
                    Some(
                        Route {
                            method,
                            path_segments: segments_from(&file.directory),
                            response,
                            content_type: infer_content_type(extension.as_str()),
                        },
                    ),
                ),
            },
        },
    }
}

/// The metadata text of a file, where a decoder has to read it.
pub fn yaml_to_decode(file: &SourceFile) -> (r: Option<String>)
    ensures
        match r {
            Some(yaml) => file_needs_decoding(file@) && yaml@ == file_yaml(file@),
            None => !file_needs_decoding(file@),
        },
{
    let (stem, _extension) = split_file_name(file.file_name.as_str());
    if HttpMethod::from_str(stem.as_str()).is_none() {
        return None;
    }
    match &file.content {
        Err(_) => None,
        Ok(text) => match split_frontmatter(text.as_str()) {
            Err(_) => None,
            Ok(parts) => if parts.yaml.as_str().unicode_len() == 0 {
                None
            } else {
                Some(parts.yaml)
            },
        },
    }
}

/// Whether `answer` is what `decode` may have said of a file: nothing where
/// the file has no metadata text to decode, else one of its results for that
/// text.
pub open spec fn file_answer<F: Fn(&str) -> Result<ResponseMeta, String>>(
    decode: F,
    file: SourceFileView,
    answer: Option<Result<ResponseMeta, String>>,
) -> bool {
    if file_needs_decoding(file) {
        answer matches Some(outcome) && exists|yaml: &str|
            yaml@ == file_yaml(file) && #[trigger] call_ensures(decode, (yaml,), outcome)
    } else {
        answer is None
    }
}

/// Compiles one file into its route. `decode` turns metadata text into
/// metadata; it is asked only where the file is a route with such text.
pub fn parse_route_file<F: Fn(&str) -> Result<ResponseMeta, String>>(
    file: &SourceFile,
    decode: &F,
) -> (r: Result<Option<Route>, CompileError>)
    requires
        forall|yaml: &str| call_requires(*decode, (yaml,)),
    ensures
        exists|answer: Option<Result<ResponseMeta, String>>|
            #[trigger] file_answer(*decode, file@, answer) && route_result_view(r) == route_spec(
                file@,
                optional_result_view(answer),
            ),
{
    match yaml_to_decode(file) {
        None => {
            proof {
                let answer: Option<Result<ResponseMeta, String>> = None;
                assert(file_answer(*decode, file@, answer));
            }
            compile_route(file, None)
        },
        Some(text) => {
            let yaml: &str = text.as_str();
            let outcome = decode(yaml);
            let ghost answer = Some(outcome);
            proof {
                assert(call_ensures(*decode, (yaml,), outcome));
                assert(file_answer(*decode, file@, answer));
            }
            compile_route(file, Some(outcome))
        },
    }
}

/// What one step of the walk compiles to, given the decoder's answer for it.
pub open spec fn entry_spec(entry: SourceEntryView, decoded: DecodedView) -> Result<
    Option<RouteView>,
    CompileErrorView,
> {
    match entry {
        SourceEntryView::File(file) => route_spec(file, decoded),
        SourceEntryView::Failure { path, cause } => Err(
            CompileErrorView { path, cause: CompileCauseView::Traversal(cause) },
        ),
    }
}

/// The answer for the entry at `index`; nothing where none was recorded.
pub open spec fn answer_at(answers: Seq<DecodedView>, index: int) -> DecodedView {
    if 0 <= index < answers.len() {
        answers[index]
    } else {
        None
    }
}

/// What the first `count` entries compile to: the routes of the route files
/// among them, in their order, or the first error among them.
pub open spec fn scan_prefix(
    entries: Seq<SourceEntryView>,
    answers: Seq<DecodedView>,
    count: nat,
) -> Result<Seq<RouteView>, CompileErrorView>
    decreases count,
{
    if count == 0 {
        Ok(Seq::empty())
    } else {
        match scan_prefix(entries, answers, (count - 1) as nat) {
            Err(error) => Err(error),
            Ok(routes) => match entry_spec(entries[count - 1], answer_at(answers, count - 1)) {
                Err(error) => Err(error),
                Ok(None) => Ok(routes),
                Ok(Some(route)) => Ok(routes.push(route)),
            },
        }
    }
}

/// What a listing compiles to, given the decoder's answers, entry by entry.
pub open spec fn scan_spec(entries: Seq<SourceEntryView>, answers: Seq<DecodedView>) -> Result<
    Seq<RouteView>,
    CompileErrorView,
> {
    scan_prefix(entries, answers, entries.len())
}

/// The models of the decoder's answers.
pub open spec fn answer_views(answers: Seq<Option<Result<ResponseMeta, String>>>) -> Seq<
    DecodedView,
> {
    answers.map_values(|answer: Option<Result<ResponseMeta, String>>| optional_result_view(answer))
}

/// Whether `answer` is what `decode` may have said of an entry.
pub open spec fn entry_answer<F: Fn(&str) -> Result<ResponseMeta, String>>(
    decode: F,
    entry: SourceEntryView,
    answer: Option<Result<ResponseMeta, String>>,
) -> bool {
    match entry {
        SourceEntryView::File(file) => file_answer(decode, file, answer),
        SourceEntryView::Failure { .. } => answer is None,
    }
}

/// Whether `answers` are what `decode` may have said of the entries that
/// were compiled: one answer for each entry up to where the compilation
/// stopped.
pub open spec fn answers_from<F: Fn(&str) -> Result<ResponseMeta, String>>(
    decode: F,
    entries: Seq<SourceEntryView>,
    answers: Seq<Option<Result<ResponseMeta, String>>>,
) -> bool {
    &&& answers.len() <= entries.len()
    &&& forall|i: int|
        0 <= i < answers.len() ==> entry_answer(decode, entries[i], #[trigger] answers[i])
}

/// The model of what compiling a listing gave.
pub open spec fn scan_result_view(r: Result<Vec<Route>, CompileError>) -> Result<
    Seq<RouteView>,
    CompileErrorView,
> {
    match r {
        Ok(routes) => Ok(routes.deep_view()),
        Err(error) => Err(error@),
    }
}

/// The first entries of a listing compile to the same, whatever is answered
/// for the entries after them.
pub proof fn lemma_scan_prefix_reads_prefix(
    entries: Seq<SourceEntryView>,
    first: Seq<DecodedView>,
    second: Seq<DecodedView>,
    count: nat,
)
    requires
        forall|i: int| 0 <= i < count ==> answer_at(first, i) == answer_at(second, i),
    ensures
        scan_prefix(entries, first, count) == scan_prefix(entries, second, count),
    decreases count,
{
    if count > 0 {
        lemma_scan_prefix_reads_prefix(entries, first, second, (count - 1) as nat);
    }
}

/// An error stops the compilation: once the first entries fail, the whole
/// listing fails with the same error.
pub proof fn lemma_scan_error_stays(
    entries: Seq<SourceEntryView>,
    answers: Seq<DecodedView>,
    count: nat,
    more: nat,
)
    requires
        scan_prefix(entries, answers, count) is Err,
        count <= more,
    ensures
        scan_prefix(entries, answers, more) == scan_prefix(entries, answers, count),
    decreases more,
{
    if more > count {
        lemma_scan_error_stays(entries, answers, count, (more - 1) as nat);
    }
}

/// Compiles one step of the walk. `decode` is asked only for a route file
/// with metadata text.
pub fn compile_entry<F: Fn(&str) -> Result<ResponseMeta, String>>(
    entry: &SourceEntry,
    decode: &F,
) -> (r: Result<Option<Route>, CompileError>)
    requires
        forall|yaml: &str| call_requires(*decode, (yaml,)),
    ensures
        exists|answer: Option<Result<ResponseMeta, String>>|
            #[trigger] entry_answer(*decode, entry@, answer) && route_result_view(r) == entry_spec(
                entry@,
                optional_result_view(answer),
            ),
{
    match entry {
        SourceEntry::File(file) => {
            let r = parse_route_file(file, decode);
            proof {
                let answer = choose|answer: Option<Result<ResponseMeta, String>>|
                    #[trigger] file_answer(*decode, file@, answer) && route_result_view(r)
                        == route_spec(file@, optional_result_view(answer));
                assert(entry_answer(*decode, entry@, answer));
            }
            r
        },
        SourceEntry::Failure { path, cause } => {
            proof {
                let answer: Option<Result<ResponseMeta, String>> = None;
                assert(entry_answer(*decode, entry@, answer));
            }
            Err(CompileError { path: path.clone(), cause: CompileCause::Traversal(cause.clone()) })
        },
    }
}

/// Compiles the listing of a served directory into its routes: one route for
/// each file whose stem names a method, in the order of the listing. The
/// first route file that cannot be read or parsed, or the first place that
/// could not be walked, stops the compilation with its path. `decode` turns
/// metadata text into metadata.
pub fn scan_directory<F: Fn(&str) -> Result<ResponseMeta, String>>(
    entries: &Vec<SourceEntry>,
    decode: F,
) -> (r: Result<Vec<Route>, CompileError>)
    requires
        forall|yaml: &str| call_requires(decode, (yaml,)),
    ensures
        exists|answers: Seq<Option<Result<ResponseMeta, String>>>|
            #[trigger] answers_from(decode, entries.deep_view(), answers) && scan_result_view(r)
                == scan_spec(entries.deep_view(), answer_views(answers)),
{
    let mut routes: Vec<Route> = Vec::new();
    let ghost listing = entries.deep_view();
    let ghost mut answers: Seq<Option<Result<ResponseMeta, String>>> = Seq::empty();
    let mut i: usize = 0;
    assert(routes.deep_view() =~= Seq::<RouteView>::empty());
    while i < entries.len()
        invariant
            i <= entries.len(),
            listing == entries.deep_view(),
            forall|yaml: &str| call_requires(decode, (yaml,)),
            answers.len() == i,
            answers_from(decode, listing, answers),
            scan_prefix(listing, answer_views(answers), i as nat) == Ok::<
                Seq<RouteView>,
                CompileErrorView,
            >(routes.deep_view()),
        decreases entries.len() - i,
    {
        let outcome = compile_entry(&entries[i], &decode);
        let ghost before = answers;
        let ghost answer = choose|answer: Option<Result<ResponseMeta, String>>|
            #[trigger] entry_answer(decode, entries[i as int]@, answer) && route_result_view(
                outcome,
            ) == entry_spec(entries[i as int]@, optional_result_view(answer));
        proof {
            answers = before.push(answer);
            assert(listing[i as int] == entries[i as int]@);
            lemma_scan_prefix_reads_prefix(
                listing,
                answer_views(before),
                answer_views(answers),
                i as nat,
            );
            assert(answer_at(answer_views(answers), i as int) == optional_result_view(answer));
            assert(answers_from(decode, listing, answers)) by {
                assert forall|j: int| 0 <= j < answers.len() implies entry_answer(
                    decode,
                    listing[j],
                    #[trigger] answers[j],
                ) by {
                    if j < i {
                        assert(answers[j] == before[j]);
                    }
                }
            }
            assert(scan_prefix(listing, answer_views(answers), (i + 1) as nat) == match entry_spec(
                listing[i as int],
                optional_result_view(answer),
            ) {
                Err(error) => Err(error),
                Ok(None) => Ok(routes.deep_view()),
                Ok(Some(route)) => Ok(routes.deep_view().push(route)),
            });
        }
        match outcome {
            Err(error) => {
                proof {
                    lemma_scan_error_stays(
                        listing,
                        answer_views(answers),
                        (i + 1) as nat,
                        listing.len(),
                    );
                }
                return Err(error);
            },
            Ok(None) => {},
            Ok(Some(route)) => {
                let ghost old_routes = routes.deep_view();
                routes.push(route);
                assert(routes.deep_view() =~= old_routes.push(route@));
            },
        }
        i += 1;
    }
    Ok(routes)
}

} // verus!
