//! Deciding the response for a resolved path: files are streamed,
//! directories are listed, everything else collapses to not-found.

use crate::listing::{render_listing, render_listing_html, url_base, DirEntry};
use crate::resolve::{candidate_path, rel_segments};
use vstd::prelude::*;

verus! {

/// What the filesystem reports a resolved path to be. Anything that is
/// neither a regular file nor a directory (a device, a socket, a symlink
/// loop) is `Other`, and is served as not-found.
#[derive(Clone, Copy, Debug, PartialEq, Eq, Structural)]
pub enum FsKind {
    File,
    Directory,
    Missing,
    Other,
}

/// The two client-visible statuses. Every failure — missing path,
/// traversal attempt, unreadable object — collapses to `NotFound`, so a
/// response never reveals whether anything exists outside the root.
#[derive(Clone, Copy, Debug, PartialEq, Eq, Structural)]
pub enum Status {
    Success,
    NotFound,
}

/// What the caller should send back: the bytes of the resolved file
/// (streamed by the caller, so large files are never buffered here), an
/// HTML document, or nothing.
#[derive(Clone, Debug, PartialEq, Eq)]
pub enum ResponseBody {
    FileStream,
    Html(String),
    Empty,
}

/// A decided response: a status and what to send.
#[derive(Clone, Debug, PartialEq, Eq)]
pub struct HttpResponse {
    pub status: Status,
    pub body: ResponseBody,
}

/// Decides the response once the filesystem has classified the resolved
/// path: a regular file is served as a stream, a directory as the listing
/// of `entries` rendered under `base`, and anything else as not-found with
/// an empty body.
pub fn build_response(kind: FsKind, base: &str, entries: &Vec<DirEntry>) -> (r: HttpResponse)
    ensures
        kind is File ==> r.status is Success && r.body is FileStream,
        kind is Directory ==> r.status is Success && r.body is Html && r.body->Html_0@
            == render_listing(base@, entries@),
        kind is Missing || kind is Other ==> r.status is NotFound && r.body is Empty,
{
    match kind {
        FsKind::File => HttpResponse { status: Status::Success, body: ResponseBody::FileStream },
        FsKind::Directory => HttpResponse {
            status: Status::Success,
            body: ResponseBody::Html(render_listing_html(base, entries)),
        },
        FsKind::Missing | FsKind::Other => HttpResponse {
            status: Status::NotFound,
            body: ResponseBody::Empty,
        },
    }
}

/// Identical requests against an unchanged filesystem get identical
/// responses: resolution and rendering are functions of the request path,
/// the mount, and what the filesystem reported — nothing else enters.
pub proof fn lemma_same_request_same_response(
    root: Seq<char>,
    prefix: Seq<char>,
    raw1: Seq<char>,
    raw2: Seq<char>,
    entries1: Seq<DirEntry>,
    entries2: Seq<DirEntry>,
)
    requires
        raw1 == raw2,
        entries1 == entries2,
    ensures
        candidate_path(root, prefix, raw1) == candidate_path(root, prefix, raw2),
        render_listing(url_base(prefix, rel_segments(prefix, raw1)), entries1) == render_listing(
            url_base(prefix, rel_segments(prefix, raw2)),
            entries2,
        ),
{
}

} // verus!
