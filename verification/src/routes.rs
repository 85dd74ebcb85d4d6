//! Routes: what a directory of response files serves, and which request
//! each of them answers.

use crate::frontmatter::{ParsedResponse, ParsedView};
use crate::text::{
    chars_of, concat, eq_ignore_ascii_case, lemma_tokens_are_clean, same_chars,
    same_ignoring_ascii_case, split_tokens, string_of, texts, tokens,
};
use vstd::prelude::*;

verus! {

/// The HTTP methods that a route can answer.
#[derive(Debug, Clone, Copy, PartialEq, Eq, Hash, Structural)]
pub enum HttpMethod {
    Get,
    Post,
    Put,
    Delete,
    Patch,
    Head,
    Options,
}

impl DeepView for HttpMethod {
    type V = HttpMethod;

    open spec fn deep_view(&self) -> HttpMethod {
        *self
    }
}

/// The name of a method, in capitals.
pub open spec fn method_name(method: HttpMethod) -> Seq<char> {
    match method {
        HttpMethod::Get => "GET"@,
        HttpMethod::Post => "POST"@,
        HttpMethod::Put => "PUT"@,
        HttpMethod::Delete => "DELETE"@,
        HttpMethod::Patch => "PATCH"@,
        HttpMethod::Head => "HEAD"@,
        HttpMethod::Options => "OPTIONS"@,
    }
}

/// The method that `name` names, in capitals or small letters or both.
pub open spec fn method_named(name: Seq<char>) -> Option<HttpMethod> {
    if eq_ignore_ascii_case(name, "GET"@) {
        Some(HttpMethod::Get)
    } else if eq_ignore_ascii_case(name, "POST"@) {
        Some(HttpMethod::Post)
    } else if eq_ignore_ascii_case(name, "PUT"@) {
        Some(HttpMethod::Put)
    } else if eq_ignore_ascii_case(name, "DELETE"@) {
        Some(HttpMethod::Delete)
    } else if eq_ignore_ascii_case(name, "PATCH"@) {
        Some(HttpMethod::Patch)
    } else if eq_ignore_ascii_case(name, "HEAD"@) {
        Some(HttpMethod::Head)
    } else if eq_ignore_ascii_case(name, "OPTIONS"@) {
        Some(HttpMethod::Options)
    } else {
        None
    }
}

/// The method that `name` is the name of, letter for letter in capitals.
pub open spec fn method_exactly_named(name: Seq<char>) -> Option<HttpMethod> {
    if name == "GET"@ {
        Some(HttpMethod::Get)
    } else if name == "POST"@ {
        Some(HttpMethod::Post)
    } else if name == "PUT"@ {
        Some(HttpMethod::Put)
    } else if name == "DELETE"@ {
        Some(HttpMethod::Delete)
    } else if name == "PATCH"@ {
        Some(HttpMethod::Patch)
    } else if name == "HEAD"@ {
        Some(HttpMethod::Head)
    } else if name == "OPTIONS"@ {
        Some(HttpMethod::Options)
    } else {
        None
    }
}

impl HttpMethod {
    /// The method that `s` names, whatever the case of its letters.
    pub fn from_str(s: &str) -> (r: Option<HttpMethod>)
        ensures
            r == method_named(s@),
    {
        let name: Vec<char> = chars_of(s);
        if same_ignoring_ascii_case(&name, &chars_of("GET")) {
            Some(HttpMethod::Get)
        } else if same_ignoring_ascii_case(&name, &chars_of("POST")) {
            Some(HttpMethod::Post)
        } else if same_ignoring_ascii_case(&name, &chars_of("PUT")) {
            Some(HttpMethod::Put)
        } else if same_ignoring_ascii_case(&name, &chars_of("DELETE")) {
            Some(HttpMethod::Delete)
        } else if same_ignoring_ascii_case(&name, &chars_of("PATCH")) {
            Some(HttpMethod::Patch)
        } else if same_ignoring_ascii_case(&name, &chars_of("HEAD")) {
            Some(HttpMethod::Head)
        } else if same_ignoring_ascii_case(&name, &chars_of("OPTIONS")) {
            Some(HttpMethod::Options)
        } else {
            None
        }
    }

    /// The method whose name in capitals is `s`, letter for letter.
    pub fn from_exact_name(s: &str) -> (r: Option<HttpMethod>)
        ensures
            r == method_exactly_named(s@),
    {
        let name: Vec<char> = chars_of(s);
        if same_chars(&name, &chars_of("GET")) {
            Some(HttpMethod::Get)
        } else if same_chars(&name, &chars_of("POST")) {
            Some(HttpMethod::Post)
        } else if same_chars(&name, &chars_of("PUT")) {
            Some(HttpMethod::Put)
        } else if same_chars(&name, &chars_of("DELETE")) {
            Some(HttpMethod::Delete)
        } else if same_chars(&name, &chars_of("PATCH")) {
            Some(HttpMethod::Patch)
        } else if same_chars(&name, &chars_of("HEAD")) {
            Some(HttpMethod::Head)
        } else if same_chars(&name, &chars_of("OPTIONS")) {
            Some(HttpMethod::Options)
        } else {
            None
        }
    }

    /// The name of the method, in capitals.
    pub fn as_str(&self) -> (r: &'static str)
        ensures
            r@ == method_name(*self),
    {
        match self {
            HttpMethod::Get => "GET",
            HttpMethod::Post => "POST",
            HttpMethod::Put => "PUT",
            HttpMethod::Delete => "DELETE",
            HttpMethod::Patch => "PATCH",
            HttpMethod::Head => "HEAD",
            HttpMethod::Options => "OPTIONS",
        }
    }
}

/// The model of a [`PathSegment`].
pub enum SegmentView {
    Static(Seq<char>),
    Dynamic(Seq<char>),
}

/// One part of a route's path between two slashes.
#[derive(Debug)]
pub enum PathSegment {
    /// The request must hold exactly this text here.
    Static(String),
    /// The request may hold any text here; the segment has a parameter name.
    Dynamic(String),
}

impl View for PathSegment {
    type V = SegmentView;

    open spec fn view(&self) -> SegmentView {
        match self {
            PathSegment::Static(literal) => SegmentView::Static(literal@),
            PathSegment::Dynamic(name) => SegmentView::Dynamic(name@),
        }
    }
}

impl DeepView for PathSegment {
    type V = SegmentView;

    open spec fn deep_view(&self) -> SegmentView {
        self@
    }
}

impl Clone for PathSegment {
    fn clone(&self) -> (r: Self)
        ensures
            r@ == self@,
    {
        match self {
            PathSegment::Static(literal) => PathSegment::Static(literal.clone()),
            PathSegment::Dynamic(name) => PathSegment::Dynamic(name.clone()),
        }
    }
}

/// The segment that a directory name stands for: `[name]` is the dynamic
/// segment `name`, anything else is itself.
pub open spec fn segment_of(component: Seq<char>) -> SegmentView {
    if component.len() >= 2 && component[0] == '[' && component.last() == ']' {
        SegmentView::Dynamic(component.subrange(1, component.len() - 1))
    } else {
        SegmentView::Static(component)
    }
}

/// The segments that a sequence of directory names stands for.
pub open spec fn segments_of(directory: Seq<Seq<char>>) -> Seq<SegmentView> {
    directory.map_values(|component: Seq<char>| segment_of(component))
}

/// How a segment is shown: a static one as it is, a dynamic one as a colon
/// and its name.
pub open spec fn segment_text(segment: SegmentView) -> Seq<char> {
    match segment {
        SegmentView::Static(literal) => literal,
        SegmentView::Dynamic(name) => seq![':'] + name,
    }
}

/// Each segment after a slash, one after the other.
pub open spec fn segments_text(segments: Seq<SegmentView>) -> Seq<char>
    decreases segments.len(),
{
    if segments.len() == 0 {
        Seq::empty()
    } else {
        segments_text(segments.drop_last()) + seq!['/'] + segment_text(segments.last())
    }
}

/// How a path pattern is shown: `/` for the empty pattern, else each segment
/// after a slash.
pub open spec fn display_text(segments: Seq<SegmentView>) -> Seq<char> {
    if segments.len() == 0 {
        seq!['/']
    } else {
        segments_text(segments)
    }
}

/// Whether a segment accepts a token of the request path.
pub open spec fn segment_matches(segment: SegmentView, token: Seq<char>) -> bool {
    match segment {
        SegmentView::Static(literal) => literal == token,
        SegmentView::Dynamic(_) => true,
    }
}

/// Whether a pattern accepts the tokens of a request path: one token for
/// each segment, each accepted by its segment.
pub open spec fn tokens_match(pattern: Seq<SegmentView>, request: Seq<Seq<char>>) -> bool {
    &&& request.len() == pattern.len()
    &&& forall|i: int| 0 <= i < pattern.len() ==> segment_matches(#[trigger] pattern[i], request[i])
}

/// Whether a pattern accepts a request path. The path is cut at its slashes,
/// and empty pieces do not count.
pub open spec fn pattern_matches(pattern: Seq<SegmentView>, path: Seq<char>) -> bool {
    tokens_match(pattern, tokens(path, '/'))
}

/// The model of a [`Route`].
pub struct RouteView {
    pub method: HttpMethod,
    pub path_segments: Seq<SegmentView>,
    pub response: ParsedView,
    pub content_type: Seq<char>,
}

/// One response file, ready to answer requests.
#[derive(Debug)]
pub struct Route {
    /// The method that the route answers.
    pub method: HttpMethod,
    /// The path that the route answers, segment by segment.
    pub path_segments: Vec<PathSegment>,
    /// What the route answers with.
    pub response: ParsedResponse,
    /// The content type that the file's extension stands for.
    pub content_type: String,
}

impl View for Route {
    type V = RouteView;

    open spec fn view(&self) -> RouteView {
        RouteView {
            method: self.method,
            path_segments: self.path_segments.deep_view(),
            response: self.response@,
            content_type: self.content_type@,
        }
    }
}

impl DeepView for Route {
    type V = RouteView;

    open spec fn deep_view(&self) -> RouteView {
        self@
    }
}

/// A copy of the segments.
pub fn clone_segments(segments: &Vec<PathSegment>) -> (r: Vec<PathSegment>)
    ensures
        r.deep_view() == segments.deep_view(),
{
    let mut r: Vec<PathSegment> = Vec::new();
    let mut i: usize = 0;
    while i < segments.len()
        invariant
            i <= segments.len(),
            r.len() == i,
            forall|j: int| 0 <= j < i ==> r@[j]@ == segments@[j]@,
        decreases segments.len() - i,
    {
        r.push(segments[i].clone());
        i += 1;
    }
    assert(r.deep_view() =~= segments.deep_view());
    r
}

impl Clone for Route {
    fn clone(&self) -> (r: Self)
        ensures
            r@ == self@,
    {
        Route {
            method: self.method,
            path_segments: clone_segments(&self.path_segments),
            response: self.response.clone(),
            content_type: self.content_type.clone(),
        }
    }
}

impl Route {
    /// The route's path for a reader, such as `/users/:id`.
    pub fn display_path(&self) -> (r: String)
        ensures
            r@ == display_text(self@.path_segments),
    {
        let mut out: Vec<char> = Vec::new();
        if self.path_segments.len() == 0 {
            out.push('/');
            assert(out@ =~= seq!['/']);
            return string_of(&out);
        }
        let ghost segments = self.path_segments.deep_view();
        let mut i: usize = 0;
        assert(segments.take(0) =~= Seq::<SegmentView>::empty());
        while i < self.path_segments.len()
            invariant
                i <= self.path_segments.len(),
                segments == self.path_segments.deep_view(),
                out@ == segments_text(segments.take(i as int)),
            decreases self.path_segments.len() - i,
        {
            let ghost before = out@;
            out.push('/');
            match &self.path_segments[i] {
                PathSegment::Static(literal) => {
                    out = concat(&out, &chars_of(literal.as_str()));
                },
                PathSegment::Dynamic(name) => {
                    out.push(':');
                    out = concat(&out, &chars_of(name.as_str()));
                },
            }
            proof {
                let upto = segments.take(i + 1);
                assert(upto.drop_last() =~= segments.take(i as int));
                assert(upto.last() == segments[i as int]);
                assert(out@ =~= before + seq!['/'] + segment_text(segments[i as int]));
            }
            i += 1;
        }
        assert(segments.take(i as int) =~= segments);
        string_of(&out)
    }

    /// Whether the route's path accepts `request_path`.
    pub fn matches(&self, request_path: &str) -> (r: bool)
        ensures
            r == pattern_matches(self@.path_segments, request_path@),
    {
        let path: Vec<char> = chars_of(request_path);
        let request: Vec<Vec<char>> = split_tokens(&path, '/');
        segments_accept(&self.path_segments, &request)
    }
}

/// Whether `pattern` accepts the tokens `request`.
pub fn segments_accept(pattern: &Vec<PathSegment>, request: &Vec<Vec<char>>) -> (r: bool)
    ensures
        r == tokens_match(pattern.deep_view(), texts(request@)),
{
    if request.len() != pattern.len() {
        return false;
    }
    let mut i: usize = 0;
    while i < pattern.len()
        invariant
            i <= pattern.len(),
            request.len() == pattern.len(),
            forall|j: int|
                0 <= j < i ==> segment_matches(
                    #[trigger] pattern.deep_view()[j],
                    texts(request@)[j],
                ),
        decreases pattern.len() - i,
    {
        match &pattern[i] {
            PathSegment::Static(literal) => {
                let wanted: Vec<char> = chars_of(literal.as_str());
                if !same_chars(&wanted, &request[i]) {
                    assert(!segment_matches(pattern.deep_view()[i as int], texts(request@)[i as int]));
                    return false;
                }
            },
            PathSegment::Dynamic(_) => {},
        }
        i += 1;
    }
    true
}

/// A dynamic segment stands for exactly one token of the request path, and
/// that token is never empty and never holds a slash: where a pattern
/// accepts a path, the path has one token for each segment.
pub proof fn lemma_dynamic_segment_takes_one_token(
    pattern: Seq<SegmentView>,
    path: Seq<char>,
    index: int,
)
    requires
        pattern_matches(pattern, path),
        0 <= index < pattern.len(),
        pattern[index] is Dynamic,
    ensures
        tokens(path, '/').len() == pattern.len(),
        tokens(path, '/')[index].len() > 0,
        !tokens(path, '/')[index].contains('/'),
{
    lemma_tokens_are_clean(path, '/');
}

/// A dynamic segment accepts any token: where a pattern accepts a request,
/// it accepts the request with any other text in the place of a dynamic
/// segment.
pub proof fn lemma_dynamic_segment_accepts_any_token(
    pattern: Seq<SegmentView>,
    request: Seq<Seq<char>>,
    index: int,
    token: Seq<char>,
)
    requires
        tokens_match(pattern, request),
        0 <= index < pattern.len(),
        pattern[index] is Dynamic,
    ensures
        tokens_match(pattern, request.update(index, token)),
{
    let changed = request.update(index, token);
    assert forall|i: int| 0 <= i < pattern.len() implies segment_matches(
        #[trigger] pattern[i],
        changed[i],
    ) by {
        if i != index {
            assert(changed[i] == request[i]);
        }
    }
}

/// A pattern never accepts a request with more or fewer tokens than it has
/// segments; the empty pattern accepts exactly the paths without a token.
pub proof fn lemma_pattern_counts_tokens(pattern: Seq<SegmentView>, path: Seq<char>)
    ensures
        pattern_matches(pattern, path) ==> tokens(path, '/').len() == pattern.len(),
        pattern.len() == 0 ==> (pattern_matches(pattern, path) <==> tokens(path, '/').len() == 0),
{
}

} // verus!
