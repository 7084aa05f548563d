//! Release resolution: where a release is asked for, what is sent along,
//! and what the answer means.

use vstd::prelude::*;
use vstd::string::*;

use crate::error::{Error, ErrorView};
use crate::text::{concat2, concat3, opt_str_view, same};

verus! {

/// One downloadable file of a release.
#[derive(Clone, Debug, PartialEq, Eq)]
pub struct Asset {
    pub name: String,
    pub download_url: String,
}

/// The mathematical value of an [`Asset`].
pub struct AssetView {
    pub name: Seq<char>,
    pub download_url: Seq<char>,
}

impl View for Asset {
    type V = AssetView;

    open spec fn view(&self) -> AssetView {
        AssetView { name: self.name@, download_url: self.download_url@ }
    }
}

/// What the release API says of one release.
#[derive(Clone, Debug, PartialEq, Eq)]
pub struct ReleaseMetadata {
    pub tag: String,
    pub assets: Vec<Asset>,
}

/// The mathematical value of a [`ReleaseMetadata`].
pub struct ReleaseView {
    pub tag: Seq<char>,
    pub assets: Seq<AssetView>,
}

/// The values of a sequence of assets.
pub open spec fn asset_views(assets: Seq<Asset>) -> Seq<AssetView> {
    assets.map_values(|a: Asset| a@)
}

impl View for ReleaseMetadata {
    type V = ReleaseView;

    open spec fn view(&self) -> ReleaseView {
        ReleaseView { tag: self.tag@, assets: asset_views(self.assets@) }
    }
}

/// One header of a request.
#[derive(Clone, Debug, PartialEq, Eq)]
pub struct Header {
    pub name: String,
    pub value: String,
}

/// The mathematical value of a [`Header`]: its name and its value.
pub open spec fn header_views(headers: Seq<Header>) -> Seq<(Seq<char>, Seq<char>)> {
    headers.map_values(|h: Header| (h.name@, h.value@))
}

/// The address of a release: the tagged one, or the latest.
pub open spec fn release_url_of(repo: Seq<char>, version: Option<Seq<char>>) -> Seq<char> {
    match version {
        Some(v) => "https://api.github.com/repos/"@ + repo + "/releases/tags/"@ + v,
        None => "https://api.github.com/repos/"@ + repo + "/releases/latest"@,
    }
}

/// The headers of a metadata request, with the bearer token last where there
/// is one.
pub open spec fn request_headers_of(token: Option<Seq<char>>) -> Seq<(Seq<char>, Seq<char>)> {
    let fixed = seq![
        ("user-agent"@, "reqwest"@),
        ("accept"@, "application/vnd.github+json"@),
        ("X-GitHub-Api-Version"@, "2022-11-28"@),
    ];
    match token {
        Some(t) => fixed.push(("authorization"@, "Bearer "@ + t)),
        None => fixed,
    }
}

/// The text of a refused metadata request.
pub open spec fn http_failure_of(version: Option<Seq<char>>, reason: Option<Seq<char>>) -> Seq<
    char,
> {
    "Failed to fetch "@ + (match version {
        Some(v) => v,
        None => "latest"@,
    }) + ": "@ + (match reason {
        Some(r) => r,
        None => "Unknown"@,
    })
}

/// The address at which the metadata of a release is asked for: the release
/// tagged `version`, or the latest one of `repo`.
pub fn release_url(repo: &str, version: Option<&str>) -> (url: String)
    ensures
        url@ == release_url_of(repo@, opt_str_view(version)),
{
    let mut url = concat2("https://api.github.com/repos/", repo);
    match version {
        Some(v) => {
            url.append("/releases/tags/");
            url.append(v);
        },
        None => {
            url.append("/releases/latest");
        },
    }
    url
}

/// The headers sent with a metadata request.
pub fn request_headers(token: Option<&str>) -> (headers: Vec<Header>)
    ensures
        header_views(headers@) == request_headers_of(opt_str_view(token)),
{
    let mut headers: Vec<Header> = Vec::new();
    headers.push(Header { name: "user-agent".to_owned(), value: "reqwest".to_owned() });
    headers.push(
        Header { name: "accept".to_owned(), value: "application/vnd.github+json".to_owned() },
    );
    headers.push(
        Header { name: "X-GitHub-Api-Version".to_owned(), value: "2022-11-28".to_owned() },
    );
    match token {
        Some(t) => {
            headers.push(
                Header { name: "authorization".to_owned(), value: concat2("Bearer ", t) },
            );
        },
        None => {},
    }
    assert(header_views(headers@) =~= request_headers_of(opt_str_view(token)));
    headers
}

/// The error for a metadata request that the API refused, with the reason
/// phrase of its status where it has one.
pub fn http_failure(version: Option<&str>, reason: Option<&str>) -> (e: Error)
    ensures
        e@ == ErrorView::HttpError(http_failure_of(opt_str_view(version), opt_str_view(reason))),
{
    let wanted = match version {
        Some(v) => v,
        None => "latest",
    };
    let why = match reason {
        Some(r) => r,
        None => "Unknown",
    };
    let mut text = concat3("Failed to fetch ", wanted, ": ");
    text.append(why);
    Error::HttpError(text)
}

/// Whether a resolved tag is the version already installed, so that nothing
/// is to be downloaded.
pub fn is_current(tag: &str, current: Option<&str>) -> (r: bool)
    ensures
        r == (opt_str_view(current) == Some(tag@)),
{
    match current {
        Some(c) => same(tag, c),
        None => false,
    }
}

} // verus!
