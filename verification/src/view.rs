//! Views of a server, the index that lists them, and the requests that read
//! a view or change the jobs it lists.

use crate::client::{
    get_request, lemma_encoded_is_segment, lemma_view_link_resolves, post_request, resolved, Error,
    ErrorView, Jenkins, Name, NameView, Path, PathView, Request, RequestView,
};
use crate::encoding::percent_encoded;
use crate::job::ShortJob;
use vstd::prelude::*;
use vstd::string::StringExecFns;
use vstd::view::View as _;

verus! {

/// How the server allocates jobs to agents.
#[derive(Debug, Clone, Copy, PartialEq, Eq, Structural)]
pub enum Mode {
    Normal,
    Exclusive,
}

/// The index of a server: details about the controller, its jobs and its
/// views.
#[derive(Debug, Clone, PartialEq, Eq)]
pub struct Home {
    pub mode: Mode,
    pub node_description: String,
    pub node_name: String,
    pub num_executors: u32,
    pub description: Option<String>,
    pub jobs: Vec<ShortJob>,
    pub quieting_down: bool,
    pub slave_agent_port: u32,
    pub use_crumbs: bool,
    pub use_security: bool,
    pub views: Vec<ShortView>,
}

/// A link to a view, as lists and other resources carry it.
#[derive(Debug, Clone, PartialEq, Eq)]
pub struct ShortView {
    pub name: String,
    pub url: String,
}

/// A view with the jobs it lists.
#[derive(Debug, Clone, PartialEq, Eq)]
pub struct View {
    pub description: Option<String>,
    pub name: String,
    pub url: String,
    pub jobs: Vec<ShortJob>,
}

/// The mathematical value of what a request builder hands back.
pub open spec fn outcome(r: Result<Request, Error>) -> Result<RequestView, ErrorView> {
    match r {
        Ok(request) => Ok(request@),
        Err(error) => Err(error@),
    }
}

/// The error for a link that was expected to point to a view.
pub open spec fn not_a_view(url: Seq<char>) -> ErrorView {
    ErrorView::InvalidUrl { url, expected: "View"@ }
}

/// What reading the view behind the link `url` asks of the server at
/// `base`: a request where the link points to a view, an error where it
/// does not.
pub open spec fn full_view_request(base: Seq<char>, url: Seq<char>) -> Result<
    RequestView,
    ErrorView,
> {
    match resolved(base, url) {
        PathView::View { name } => Ok(get_request(base, PathView::View { name })),
        _ => Err(not_a_view(url)),
    }
}

/// What adding the job `job_name` to the view at `url` asks of the server
/// at `base`.
pub open spec fn add_job_request(base: Seq<char>, url: Seq<char>, job_name: Seq<char>) -> Result<
    RequestView,
    ErrorView,
> {
    match resolved(base, url) {
        PathView::View { name } => Ok(
            post_request(
                base,
                PathView::AddJobToView { job_name: NameView::Name(job_name), view_name: name },
            ),
        ),
        _ => Err(not_a_view(url)),
    }
}

/// What removing the job `job_name` from the view at `url` asks of the
/// server at `base`.
pub open spec fn remove_job_request(
    base: Seq<char>,
    url: Seq<char>,
    job_name: Seq<char>,
) -> Result<RequestView, ErrorView> {
    match resolved(base, url) {
        PathView::View { name } => Ok(
            post_request(
                base,
                PathView::RemoveJobFromView { job_name: NameView::Name(job_name), view_name: name },
            ),
        ),
        _ => Err(not_a_view(url)),
    }
}

/// The link under which the server at `base` lists the view named
/// `view_name`.
pub open spec fn view_link(base: Seq<char>, view_name: Seq<char>) -> Seq<char> {
    base + "/view/"@ + percent_encoded(view_name) + seq!['/']
}

/// Going through the link of a view asks for the same requests as naming
/// the view: reading it, adding a job to it and removing a job from it.
pub proof fn lemma_link_agrees_with_name(
    base: Seq<char>,
    view_name: Seq<char>,
    job_name: Seq<char>,
)
    requires
        view_name.len() > 0,
    ensures
        full_view_request(base, view_link(base, view_name)) == Ok::<RequestView, ErrorView>(
            get_request(base, PathView::View { name: NameView::Name(view_name) }),
        ),
        add_job_request(base, view_link(base, view_name), job_name) == Ok::<
            RequestView,
            ErrorView,
        >(
            post_request(
                base,
                PathView::AddJobToView {
                    job_name: NameView::Name(job_name),
                    view_name: NameView::Name(view_name),
                },
            ),
        ),
        remove_job_request(base, view_link(base, view_name), job_name) == Ok::<
            RequestView,
            ErrorView,
        >(
            post_request(
                base,
                PathView::RemoveJobFromView {
                    job_name: NameView::Name(job_name),
                    view_name: NameView::Name(view_name),
                },
            ),
        ),
{
    lemma_encoded_is_segment(view_name);
    lemma_view_link_resolves(base, percent_encoded(view_name));
}

fn invalid_view_url(url: &String) -> (error: Error)
    ensures
        error@ == not_a_view(url@),
{
    Error::InvalidUrl { url: url.clone(), expected: String::from_str("View") }
}

impl ShortView {
    /// The request that reads the full details of the view behind this
    /// link.
    pub fn get_full_view(&self, jenkins_client: &Jenkins) -> (r: Result<Request, Error>)
        ensures
            outcome(r) == full_view_request(jenkins_client.base(), self.url@),
    {
        let path = jenkins_client.url_to_path(self.url.as_str());
        if let Path::View { .. } = path {
            Ok(jenkins_client.get(&path))
        } else {
            Err(invalid_view_url(&self.url))
        }
    }
}

impl View {
    /// The request that adds the job `job_name` to this view.
    pub fn add_job(&self, jenkins_client: &Jenkins, job_name: &str) -> (r: Result<Request, Error>)
        ensures
            outcome(r) == add_job_request(jenkins_client.base(), self.url@, job_name@),
    {
        let path = jenkins_client.url_to_path(self.url.as_str());
        if let Path::View { name } = path {
            Ok(
                jenkins_client.post(
                    &Path::AddJobToView { job_name: Name::Name(job_name), view_name: name },
                ),
            )
        } else {
            Err(invalid_view_url(&self.url))
        }
    }

    /// The request that removes the job `job_name` from this view.
    pub fn remove_job(&self, jenkins_client: &Jenkins, job_name: &str) -> (r: Result<
        Request,
        Error,
    >)
        ensures
            outcome(r) == remove_job_request(jenkins_client.base(), self.url@, job_name@),
    {
        let path = jenkins_client.url_to_path(self.url.as_str());
        if let Path::View { name } = path {
            Ok(
                jenkins_client.post(
                    &Path::RemoveJobFromView { job_name: Name::Name(job_name), view_name: name },
                ),
            )
        } else {
            Err(invalid_view_url(&self.url))
        }
    }
}

impl Jenkins {
    /// The request that reads the index of the server.
    pub fn get_home(&self) -> (request: Request)
        ensures
            request@ == get_request(self.base(), PathView::Home),
    {
        self.get(&Path::Home)
    }

    /// The request that reads the view named `view_name`.
    pub fn get_view(&self, view_name: &str) -> (request: Request)
        ensures
            request@ == get_request(self.base(), PathView::View { name: NameView::Name(view_name@) }),
    {
        self.get(&Path::View { name: Name::Name(view_name) })
    }

    /// The request that adds the job `job_name` to the view `view_name`.
    pub fn add_job(&self, view_name: &str, job_name: &str) -> (request: Request)
        ensures
            request@ == post_request(
                self.base(),
                PathView::AddJobToView {
                    job_name: NameView::Name(job_name@),
                    view_name: NameView::Name(view_name@),
                },
            ),
    {
        self.post(
            &Path::AddJobToView { job_name: Name::Name(job_name), view_name: Name::Name(view_name) },
        )
    }

    /// The request that removes the job `job_name` from the view
    /// `view_name`.
    pub fn remove_job(&self, view_name: &str, job_name: &str) -> (request: Request)
        ensures
            request@ == post_request(
                self.base(),
                PathView::RemoveJobFromView {
                    job_name: NameView::Name(job_name@),
                    view_name: NameView::Name(view_name@),
                },
            ),
    {
        self.post(
            &Path::RemoveJobFromView {
                job_name: Name::Name(job_name),
                view_name: Name::Name(view_name),
            },
        )
    }
}

} // verus!
