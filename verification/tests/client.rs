use jenkins_api::client::{Error, Jenkins, Method, Name, Path, Request};

#[test]
fn plain_name_is_encoded_when_written_out() {
    assert_eq!(Name::Name("my job").to_string(), "my%20job");
    assert_eq!(Name::Name("folder/job").to_string(), "folder%2Fjob");
    assert_eq!(Name::Name("all").to_string(), "all");
}

#[test]
fn encoded_name_is_written_out_as_it_is() {
    assert_eq!(Name::UrlEncodedName("my%20job").to_string(), "my%20job");
    assert_eq!(Name::UrlEncodedName("a b").to_string(), "a b");
    assert_eq!(Name::UrlEncodedName("").to_string(), "");
}

#[test]
fn home_path_is_empty() {
    assert_eq!(Path::Home.to_string(), "");
}

#[test]
fn view_path() {
    assert_eq!(Path::View { name: Name::Name("nightly builds") }.to_string(), "/view/nightly%20builds");
    assert_eq!(
        Path::View { name: Name::UrlEncodedName("nightly%20builds") }.to_string(),
        "/view/nightly%20builds"
    );
}

#[test]
fn add_job_to_view_path() {
    let path = Path::AddJobToView {
        job_name: Name::Name("my job"),
        view_name: Name::UrlEncodedName("my%20view"),
    };
    assert_eq!(path.to_string(), "/view/my%20view/addJobToView?name=my%20job");
}

#[test]
fn remove_job_from_view_path() {
    let path = Path::RemoveJobFromView {
        job_name: Name::Name("a&b"),
        view_name: Name::Name("v"),
    };
    assert_eq!(path.to_string(), "/view/v/removeJobFromView?name=a%26b");
}

#[test]
fn raw_path_is_written_out_as_it_is() {
    assert_eq!(Path::Raw { path: "/job/some job/3/" }.to_string(), "/job/some job/3/");
}

#[test]
fn new_drops_closing_slashes() {
    assert_eq!(Jenkins::new("http://localhost:8080").url(), "http://localhost:8080");
    assert_eq!(Jenkins::new("http://localhost:8080/").url(), "http://localhost:8080");
    assert_eq!(Jenkins::new("http://localhost:8080///").url(), "http://localhost:8080");
    assert_eq!(Jenkins::new("http://host/jenkins/").url(), "http://host/jenkins");
}

#[test]
fn new_keeps_inner_slashes() {
    assert_eq!(Jenkins::new("http://a//b").url(), "http://a//b");
}

#[test]
fn new_on_empty_and_on_slashes_only() {
    assert_eq!(Jenkins::new("").url(), "");
    assert_eq!(Jenkins::new("/").url(), "");
    assert_eq!(Jenkins::new("//").url(), "");
}

#[test]
fn new_counts_characters_not_bytes() {
    assert_eq!(Jenkins::new("http://hôte/é/").url(), "http://hôte/é");
}

#[test]
fn clone_keeps_the_base_url() {
    let jenkins = Jenkins::new("http://localhost:8080/");
    assert_eq!(jenkins.clone().url(), "http://localhost:8080");
    assert_eq!(jenkins.clone(), jenkins);
}

#[test]
fn link_to_a_view_resolves_to_the_view() {
    let jenkins = Jenkins::new("http://localhost:8080");
    assert_eq!(
        jenkins.url_to_path("http://localhost:8080/view/all/"),
        Path::View { name: Name::UrlEncodedName("all") }
    );
    assert_eq!(
        jenkins.url_to_path("http://localhost:8080/view/all"),
        Path::View { name: Name::UrlEncodedName("all") }
    );
}

#[test]
fn name_in_a_link_stays_encoded() {
    let jenkins = Jenkins::new("http://localhost:8080");
    assert_eq!(
        jenkins.url_to_path("http://localhost:8080/view/my%20view/"),
        Path::View { name: Name::UrlEncodedName("my%20view") }
    );
}

#[test]
fn link_without_the_base_is_read_as_a_path() {
    let jenkins = Jenkins::new("http://localhost:8080");
    assert_eq!(
        jenkins.url_to_path("/view/all/"),
        Path::View { name: Name::UrlEncodedName("all") }
    );
}

#[test]
fn link_on_a_server_below_a_prefix() {
    let jenkins = Jenkins::new("https://ci.example.org/jenkins/");
    assert_eq!(
        jenkins.url_to_path("https://ci.example.org/jenkins/view/release/"),
        Path::View { name: Name::UrlEncodedName("release") }
    );
}

#[test]
fn link_with_characters_of_several_bytes() {
    let jenkins = Jenkins::new("http://hôte");
    assert_eq!(
        jenkins.url_to_path("http://hôte/view/été/"),
        Path::View { name: Name::UrlEncodedName("été") }
    );
}

#[test]
fn base_url_resolves_to_home() {
    let jenkins = Jenkins::new("http://localhost:8080");
    assert_eq!(jenkins.url_to_path("http://localhost:8080"), Path::Home);
    assert_eq!(jenkins.url_to_path("http://localhost:8080/"), Path::Home);
    assert_eq!(jenkins.url_to_path(""), Path::Home);
    assert_eq!(jenkins.url_to_path("/"), Path::Home);
}

#[test]
fn view_without_a_name_is_a_raw_path() {
    let jenkins = Jenkins::new("http://localhost:8080");
    assert_eq!(jenkins.url_to_path("http://localhost:8080/view/"), Path::Raw { path: "/view/" });
    assert_eq!(jenkins.url_to_path("http://localhost:8080/view//"), Path::Raw { path: "/view//" });
    assert_eq!(jenkins.url_to_path("http://localhost:8080/view"), Path::Raw { path: "/view" });
}

#[test]
fn path_below_a_view_is_a_raw_path() {
    let jenkins = Jenkins::new("http://localhost:8080");
    assert_eq!(
        jenkins.url_to_path("http://localhost:8080/view/a/view/b/"),
        Path::Raw { path: "/view/a/view/b/" }
    );
    assert_eq!(
        jenkins.url_to_path("http://localhost:8080/view/a/job/j/"),
        Path::Raw { path: "/view/a/job/j/" }
    );
    assert_eq!(
        jenkins.url_to_path("http://localhost:8080/view/a//"),
        Path::Raw { path: "/view/a//" }
    );
}

#[test]
fn other_resources_are_raw_paths() {
    let jenkins = Jenkins::new("http://localhost:8080");
    assert_eq!(
        jenkins.url_to_path("http://localhost:8080/job/build%20it/"),
        Path::Raw { path: "/job/build%20it/" }
    );
    assert_eq!(jenkins.url_to_path("/views/all/"), Path::Raw { path: "/views/all/" });
    assert_eq!(jenkins.url_to_path("view/all/"), Path::Raw { path: "view/all/" });
}

#[test]
fn link_to_another_server_is_kept_whole() {
    let jenkins = Jenkins::new("http://localhost:8080");
    assert_eq!(
        jenkins.url_to_path("http://elsewhere/view/all/"),
        Path::Raw { path: "http://elsewhere/view/all/" }
    );
}

#[test]
fn link_shorter_than_the_base() {
    let jenkins = Jenkins::new("http://localhost:8080");
    assert_eq!(jenkins.url_to_path("http://local"), Path::Raw { path: "http://local" });
}

#[test]
fn get_asks_for_json() {
    let jenkins = Jenkins::new("http://localhost:8080/");
    assert_eq!(
        jenkins.get(&Path::Home),
        Request { method: Method::Get, url: "http://localhost:8080/api/json".to_string() }
    );
    assert_eq!(
        jenkins.get(&Path::View { name: Name::Name("my view") }),
        Request { method: Method::Get, url: "http://localhost:8080/view/my%20view/api/json".to_string() }
    );
    assert_eq!(
        jenkins.get(&Path::Raw { path: "/job/j" }),
        Request { method: Method::Get, url: "http://localhost:8080/job/j/api/json".to_string() }
    );
}

#[test]
fn post_goes_to_the_path_itself() {
    let jenkins = Jenkins::new("http://localhost:8080/");
    let path = Path::AddJobToView { job_name: Name::Name("j 1"), view_name: Name::Name("v") };
    assert_eq!(
        jenkins.post(&path),
        Request {
            method: Method::Post,
            url: "http://localhost:8080/view/v/addJobToView?name=j%201".to_string()
        }
    );
}

#[test]
fn invalid_url_message() {
    let error = Error::InvalidUrl {
        url: "http://localhost:8080/job/j/".to_string(),
        expected: "View".to_string(),
    };
    assert_eq!(error.to_string(), "invalid url for View: http://localhost:8080/job/j/");
}
