//! The addresses of the hosting service that an invocation calls.

use vstd::prelude::*;

verus! {

/// Where the repositories of the hosting service are found.
pub const API_ROOT: &'static str = "https://api.gitcode.com/api/v5/repos/";

/// The address of a resource of a pull request, with the access token as its
/// query.
pub open spec fn pull_endpoint(
    repository: Seq<char>,
    pull_number: Seq<char>,
    resource: Seq<char>,
    access_token: Seq<char>,
) -> Seq<char> {
    API_ROOT@ + repository + "/pulls/"@ + pull_number + "/"@ + resource + "?access_token="@
        + access_token
}

/// Builds the address of a resource of a pull request.
fn pull_url(repository: &str, pull_number: &str, resource: &str, access_token: &str) -> (url:
    String)
    ensures
        url@ == pull_endpoint(repository@, pull_number@, resource@, access_token@),
{
    let mut url = String::new();
    url.append(API_ROOT);
    url.append(repository);
    url.append("/pulls/");
    url.append(pull_number);
    url.append("/");
    url.append(resource);
    url.append("?access_token=");
    url.append(access_token);
    assert(url@ =~= pull_endpoint(repository@, pull_number@, resource@, access_token@));
    url
}

/// The address that lists the changed files of a pull request.
pub fn files_url(path_with_namespace: &str, pull_number: &str, access_token: &str) -> (url:
    String)
    ensures
        url@ == pull_endpoint(path_with_namespace@, pull_number@, "files"@, access_token@),
{
    pull_url(path_with_namespace, pull_number, "files", access_token)
}

/// The address that takes a comment on a pull request.
pub fn comments_url(path_with_namespace: &str, pull_number: &str, access_token: &str) -> (url:
    String)
    ensures
        url@ == pull_endpoint(path_with_namespace@, pull_number@, "comments"@, access_token@),
{
    pull_url(path_with_namespace, pull_number, "comments", access_token)
}

} // verus!
