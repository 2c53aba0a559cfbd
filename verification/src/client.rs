//! The server handle, the paths of its resources, and the requests made to
//! them.

use crate::encoding::{
    encode, is_encoded_char, lemma_encoded_chars, lemma_encoded_len, percent_encoded,
};
use crate::text::chars_of;
use vstd::prelude::*;
use vstd::string::{StrSliceExecFns, StringExecFns};

verus! {

/// The name of a job or of a view, as part of a path.
#[derive(Debug, Clone, Copy, PartialEq, Eq)]
pub enum Name<'a> {
    /// A name as a person writes it; it is percent-encoded when the path is
    /// written out.
    Name(&'a str),
    /// A name taken from a URL, already percent-encoded.
    UrlEncodedName(&'a str),
}

/// The mathematical value of a [`Name`].
pub enum NameView {
    Name(Seq<char>),
    UrlEncodedName(Seq<char>),
}

impl NameView {
    /// The text that stands for this name in a path.
    pub open spec fn rendered(self) -> Seq<char> {
        match self {
            NameView::Name(name) => percent_encoded(name),
            NameView::UrlEncodedName(name) => name,
        }
    }
}

impl<'a> View for Name<'a> {
    type V = NameView;

    open spec fn view(&self) -> NameView {
        match *self {
            Name::Name(name) => NameView::Name(name@),
            Name::UrlEncodedName(name) => NameView::UrlEncodedName(name@),
        }
    }
}

impl<'a> Name<'a> {
    /// Writes the name out as it stands in a path.
    pub fn to_string(&self) -> (r: String)
        ensures
            r@ == self@.rendered(),
    {
        match *self {
            Name::Name(name) => encode(name),
            Name::UrlEncodedName(name) => String::from_str(name),
        }
    }
}

/// The path of a resource, relative to the server's base URL.
#[derive(Debug, Clone, Copy, PartialEq, Eq)]
pub enum Path<'a> {
    /// The index of the server.
    Home,
    /// A view.
    View { name: Name<'a> },
    /// The action that adds a job to a view.
    AddJobToView { job_name: Name<'a>, view_name: Name<'a> },
    /// The action that removes a job from a view.
    RemoveJobFromView { job_name: Name<'a>, view_name: Name<'a> },
    /// Any other path, kept as it was found.
    Raw { path: &'a str },
}

/// The mathematical value of a [`Path`].
pub enum PathView {
    Home,
    View { name: NameView },
    AddJobToView { job_name: NameView, view_name: NameView },
    RemoveJobFromView { job_name: NameView, view_name: NameView },
    Raw { path: Seq<char> },
}

impl PathView {
    /// The text of this path: what follows the server's base URL.
    pub open spec fn rendered(self) -> Seq<char> {
        match self {
            PathView::Home => Seq::empty(),
            PathView::View { name } => "/view/"@ + name.rendered(),
            PathView::AddJobToView { job_name, view_name } => "/view/"@ + view_name.rendered()
                + "/addJobToView?name="@ + job_name.rendered(),
            PathView::RemoveJobFromView { job_name, view_name } => "/view/"@
                + view_name.rendered() + "/removeJobFromView?name="@ + job_name.rendered(),
            PathView::Raw { path } => path,
        }
    }
}

impl<'a> View for Path<'a> {
    type V = PathView;

    open spec fn view(&self) -> PathView {
        match *self {
            Path::Home => PathView::Home,
            Path::View { name } => PathView::View { name: name@ },
            Path::AddJobToView { job_name, view_name } => PathView::AddJobToView {
                job_name: job_name@,
                view_name: view_name@,
            },
            Path::RemoveJobFromView { job_name, view_name } => PathView::RemoveJobFromView {
                job_name: job_name@,
                view_name: view_name@,
            },
            Path::Raw { path } => PathView::Raw { path: path@ },
        }
    }
}

impl<'a> Path<'a> {
    /// Writes the path out: what follows the server's base URL.
    pub fn to_string(&self) -> (r: String)
        ensures
            r@ == self@.rendered(),
    {
        match *self {
            Path::Home => String::new(),
            Path::View { name } => {
                let mut out = String::from_str("/view/");
                out.append(name.to_string().as_str());
                out
            },
            Path::AddJobToView { job_name, view_name } => {
                let mut out = String::from_str("/view/");
                out.append(view_name.to_string().as_str());
                out.append("/addJobToView?name=");
                out.append(job_name.to_string().as_str());
                out
            },
            Path::RemoveJobFromView { job_name, view_name } => {
                let mut out = String::from_str("/view/");
                out.append(view_name.to_string().as_str());
                out.append("/removeJobFromView?name=");
                out.append(job_name.to_string().as_str());
                out
            },
            Path::Raw { path } => String::from_str(path),
        }
    }
}

/// How a request is made.
#[derive(Debug, Clone, Copy, PartialEq, Eq, Structural)]
pub enum Method {
    Get,
    Post,
}

/// A request to the server: what the caller has to send.
#[derive(Debug, Clone, PartialEq, Eq)]
pub struct Request {
    pub method: Method,
    pub url: String,
}

/// The mathematical value of a [`Request`].
pub struct RequestView {
    pub method: Method,
    pub url: Seq<char>,
}

impl View for Request {
    type V = RequestView;

    open spec fn view(&self) -> RequestView {
        RequestView { method: self.method, url: self.url@ }
    }
}

/// Why a request could not be made.
#[derive(Debug, Clone, PartialEq, Eq)]
pub enum Error {
    /// A link between two resources does not point to the kind of
    /// resource that was expected.
    InvalidUrl { url: String, expected: String },
}

/// The mathematical value of an [`Error`].
pub enum ErrorView {
    InvalidUrl { url: Seq<char>, expected: Seq<char> },
}

impl ErrorView {
    /// The message that describes this error.
    pub open spec fn message(self) -> Seq<char> {
        match self {
            ErrorView::InvalidUrl { url, expected } => "invalid url for "@ + expected + ": "@ + url,
        }
    }
}

impl View for Error {
    type V = ErrorView;

    open spec fn view(&self) -> ErrorView {
        match self {
            Error::InvalidUrl { url, expected } => ErrorView::InvalidUrl {
                url: url@,
                expected: expected@,
            },
        }
    }
}

impl Error {
    /// The message that describes this error.
    pub fn to_string(&self) -> (r: String)
        ensures
            r@ == self@.message(),
    {
        match self {
            Error::InvalidUrl { url, expected } => {
                let mut out = String::from_str("invalid url for ");
                out.append(expected.as_str());
                out.append(": ");
                out.append(url.as_str());
                out
            },
        }
    }
}

/// The request that reads the resource at `path` from the server at
/// `base`, as JSON.
pub open spec fn get_request(base: Seq<char>, path: PathView) -> RequestView {
    RequestView { method: Method::Get, url: base + path.rendered() + "/api/json"@ }
}

/// The request that triggers the action at `path` on the server at `base`.
pub open spec fn post_request(base: Seq<char>, path: PathView) -> RequestView {
    RequestView { method: Method::Post, url: base + path.rendered() }
}

/// A text without the slashes at its end.
pub open spec fn trimmed(text: Seq<char>) -> Seq<char>
    decreases text.len(),
{
    if text.len() > 0 && text.last() == '/' {
        trimmed(text.drop_last())
    } else {
        text
    }
}

/// Whether a text can be one segment of a path: it is not empty and holds
/// no slash.
pub open spec fn is_segment(name: Seq<char>) -> bool {
    &&& name.len() > 0
    &&& forall|i: int| 0 <= i < name.len() ==> name[i] != '/'
}

/// What is left of `url` once the server's base URL is taken from its
/// front; a URL that does not start with the base is left as it is.
pub open spec fn relative_to(base: Seq<char>, url: Seq<char>) -> Seq<char> {
    if base.is_prefix_of(url) {
        url.skip(base.len() as int)
    } else {
        url
    }
}

/// The name of the view that `path` points to: `path` is `/view/`, one
/// segment, and at most one closing slash. `None` for any other path.
pub open spec fn view_name_in(path: Seq<char>) -> Option<Seq<char>> {
    if "/view/"@.is_prefix_of(path) {
        let rest = path.skip("/view/"@.len() as int);
        let name = if rest.len() > 0 && rest.last() == '/' {
            rest.drop_last()
        } else {
            rest
        };
        if is_segment(name) {
            Some(name)
        } else {
            None
        }
    } else {
        None
    }
}

/// The resource that `url` points to on the server at `base`.
pub open spec fn resolved(base: Seq<char>, url: Seq<char>) -> PathView {
    let path = relative_to(base, url);
    if path.len() == 0 || path == seq!['/'] {
        PathView::Home
    } else {
        match view_name_in(path) {
            Some(name) => PathView::View { name: NameView::UrlEncodedName(name) },
            None => PathView::Raw { path },
        }
    }
}

/// The encoded form of a name that is not empty is one segment of a path.
pub proof fn lemma_encoded_is_segment(name: Seq<char>)
    requires
        name.len() > 0,
    ensures
        is_segment(percent_encoded(name)),
{
    lemma_encoded_len(name);
    lemma_encoded_chars(name);
    assert forall|i: int| 0 <= i < percent_encoded(name).len() implies percent_encoded(name)[i]
        != '/' by {
        assert(is_encoded_char(percent_encoded(name)[i]));
    }
}

/// A link made of the server's base URL, `/view/` and one segment points
/// to the view of that name, with or without a closing slash.
pub proof fn lemma_view_link_resolves(base: Seq<char>, segment: Seq<char>)
    requires
        is_segment(segment),
    ensures
        resolved(base, base + "/view/"@ + segment) == (PathView::View {
            name: NameView::UrlEncodedName(segment),
        }),
        resolved(base, base + "/view/"@ + segment + seq!['/']) == (PathView::View {
            name: NameView::UrlEncodedName(segment),
        }),
{
    reveal_strlit("/view/");
    let open_path = "/view/"@ + segment;
    let closed_path = open_path + seq!['/'];
    let open_url = base + "/view/"@ + segment;
    let closed_url = open_url + seq!['/'];
    assert(base =~= open_url.subrange(0, base.len() as int));
    assert(base =~= closed_url.subrange(0, base.len() as int));
    assert(relative_to(base, open_url) =~= open_path);
    assert(relative_to(base, closed_url) =~= closed_path);
    assert("/view/"@ =~= open_path.subrange(0, 6));
    assert("/view/"@ =~= closed_path.subrange(0, 6));
    assert(open_path.skip(6) =~= segment);
    assert(closed_path.skip(6) =~= segment + seq!['/']);
    assert(segment.last() != '/');
    assert((segment + seq!['/']).drop_last() =~= segment);
    assert(view_name_in(open_path) == Some(segment));
    assert(view_name_in(closed_path) == Some(segment));
    assert(open_path[1] == 'v');
    assert(closed_path[1] == 'v');
}

/// Whether `prefix` stands in `text` at position `at`.
fn has_prefix_at(text: &Vec<char>, at: usize, prefix: &Vec<char>) -> (b: bool)
    requires
        at <= text@.len(),
    ensures
        b == prefix@.is_prefix_of(text@.skip(at as int)),
{
    if prefix.len() > text.len() - at {
        return false;
    }
    let mut i: usize = 0;
    while i < prefix.len()
        invariant
            at <= text.len(),
            prefix.len() <= text.len() - at,
            i <= prefix.len(),
            forall|j: int| 0 <= j < i ==> prefix@[j] == text@[at + j],
        decreases prefix.len() - i,
    {
        if prefix[i] != text[at + i] {
            assert(text@.skip(at as int)[i as int] != prefix@[i as int]);
            return false;
        }
        i += 1;
    }
    assert(prefix@ =~= text@.skip(at as int).subrange(0, prefix@.len() as int));
    true
}

/// A handle on one server, known by its base URL.
#[derive(Debug, PartialEq, Eq)]
pub struct Jenkins {
    url: String,
}

impl Jenkins {
    #[verifier::type_invariant]
    spec fn well_formed(&self) -> bool {
        self.url@.len() == 0 || self.url@.last() != '/'
    }

    /// The server's base URL. It never ends with a slash.
    pub closed spec fn base(&self) -> Seq<char> {
        self.url@
    }

    /// A handle on the server at `url`. Slashes at the end of `url` are
    /// dropped.
    pub fn new(url: &str) -> (jenkins: Jenkins)
        ensures
            jenkins.base() == trimmed(url@),
    {
        let text = chars_of(url);
        let mut end: usize = text.len();
        assert(text@.take(end as int) == text@);
        while end > 0 && text[end - 1] == '/'
            invariant
                end <= text@.len(),
                trimmed(text@) == trimmed(text@.take(end as int)),
            decreases end,
        {
            assert(text@.take(end as int).drop_last() == text@.take(end - 1));
            end -= 1;
        }
        Jenkins { url: String::from_str(url.substring_char(0, end)) }
    }

    /// The server's base URL.
    pub fn url(&self) -> (r: &str)
        ensures
            r@ == self.base(),
            r@.len() == 0 || r@.last() != '/',
    {
        proof {
            use_type_invariant(self);
        }
        self.url.as_str()
    }

    /// Tells which resource of this server `url` points to.
    pub fn url_to_path<'a>(&self, url: &'a str) -> (path: Path<'a>)
        ensures
            path@ == resolved(self.base(), url@),
    {
        let base = chars_of(self.url.as_str());
        let text = chars_of(url);
        let n: usize = text.len();
        let start: usize = if has_prefix_at(&text, 0, &base) {
            base.len()
        } else {
            0
        };
        assert(text@.skip(0) == text@);
        let ghost rel = relative_to(self.base(), url@);
        assert(rel == url@.skip(start as int));
        if start == n || (start + 1 == n && text[start] == '/') {
            assert(rel.len() == 0 || rel =~= seq!['/']);
            return Path::Home;
        }
        assert(!(rel =~= seq!['/'])) by {
            if rel =~= seq!['/'] {
                assert(rel.len() == 1);
                assert(rel[0] == '/');
            }
        }
        let marker = chars_of("/view/");
        if has_prefix_at(&text, start, &marker) {
            let from: usize = start + marker.len();
            let mut k: usize = from;
            while k < n && text[k] != '/'
                invariant
                    from <= k <= n,
                    n == text@.len(),
                    forall|j: int| from <= j < k ==> text@[j] != '/',
                decreases n - k,
            {
                k += 1;
            }
            let ghost rest = rel.skip("/view/"@.len() as int);
            assert(rest =~= url@.subrange(from as int, n as int));
            if k > from && (k == n || k + 1 == n) {
                let name = url.substring_char(from, k);
                proof {
                    if k == n {
                        assert(rest.last() != '/');
                        assert(name@ =~= rest);
                    } else {
                        assert(rest.last() == '/');
                        assert(name@ =~= rest.drop_last());
                    }
                    assert(is_segment(name@));
                }
                return Path::View { name: Name::UrlEncodedName(name) };
            }
            proof {
                let candidate = if rest.len() > 0 && rest.last() == '/' {
                    rest.drop_last()
                } else {
                    rest
                };
                if is_segment(candidate) {
                    if k < n {
                        assert(rest[k - from] == '/');
                        if k + 1 < n {
                            assert(candidate[k - from] == '/');
                        }
                    }
                    assert(false);
                }
            }
        }
        Path::Raw { path: url.substring_char(start, n) }
    }

    /// The request that reads the resource at `path`.
    pub fn get(&self, path: &Path) -> (request: Request)
        ensures
            request@ == get_request(self.base(), path@),
    {
        let mut url = self.url.clone();
        url.append(path.to_string().as_str());
        url.append("/api/json");
        Request { method: Method::Get, url }
    }

    /// The request that triggers the action at `path`.
    pub fn post(&self, path: &Path) -> (request: Request)
        ensures
            request@ == post_request(self.base(), path@),
    {
        let mut url = self.url.clone();
        url.append(path.to_string().as_str());
        Request { method: Method::Post, url }
    }
}

impl Clone for Jenkins {
    fn clone(&self) -> (r: Self)
        ensures
            r.base() == self.base(),
    {
        proof {
            use_type_invariant(self);
        }
        Jenkins { url: self.url.clone() }
    }
}

} // verus!
