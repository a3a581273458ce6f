//! A small static-file endpoint core: request paths are resolved against a
//! configured root directory, kept inside it, and directories are rendered
//! as browsable HTML listings. All filesystem and network work stays with
//! the caller; this crate holds the logic that decides what to serve.

pub mod listing;
pub mod resolve;
pub mod response;

use crate::listing::{listing_base, render_listing, url_base, DirEntry};
use crate::resolve::{
    all_plain, apply_segments, candidate_path, is_within, join_under_root, normalize_root,
    rel_segments, root_wf, segments_of, strip_mount_prefix, trim_trailing_slashes,
};
use crate::response::{build_response, FsKind, HttpResponse};
use vstd::prelude::*;

verus! {

/// A directory-serving endpoint: the URL prefix it is mounted under and
/// the root directory it exposes. The root is held in normal form (no
/// trailing separator; the filesystem root is the empty string), so the
/// boundary checks are exact.
pub struct ServeDir {
    pub prefix: String,
    pub dir: String,
}

impl ServeDir {
    /// The root is kept normalized.
    pub open spec fn wf(&self) -> bool {
        root_wf(self.dir@)
    }

    /// Create a new instance of `ServeDir` for a mount prefix and a root
    /// directory; the root is brought to normal form.
    pub fn new(prefix: String, dir: String) -> (s: Self)
        ensures
            s.prefix == prefix,
            s.dir@ == trim_trailing_slashes(dir@),
            s.wf(),
    {
        let dir = normalize_root(dir.as_str());
        ServeDir { prefix, dir }
    }

    /// Resolves a raw request path: the mount prefix is stripped, `.` and
    /// `..` segments are applied against the accumulated relative path —
    /// never against anything above the root — and the result is joined
    /// under the root. Returns the resolved relative segments and the
    /// candidate filesystem path, which is always the root or one of its
    /// descendants; the caller canonicalizes the candidate and must then
    /// re-check the boundary with `path_within_root`, which is what closes
    /// symlink escapes.
    pub fn resolve_candidate(&self, raw_path: &str) -> (r: (Vec<String>, String))
        ensures
            r.0.deep_view() == rel_segments(self.prefix@, raw_path@),
            r.1@ == candidate_path(self.dir@, self.prefix@, raw_path@),
            is_within(self.dir@, r.1@),
            all_plain(r.0.deep_view()),
    {
        let sub = strip_mount_prefix(raw_path, self.prefix.as_str());
        let segs = segments_of(sub.as_str());
        let rel = apply_segments(&segs);
        let cand = join_under_root(self.dir.as_str(), &rel);
        proof {
            crate::resolve::lemma_resolution_stays_within_root(
                self.dir@,
                self.prefix@,
                raw_path@,
            );
            crate::resolve::lemma_resolved_segments_plain(self.prefix@, raw_path@);
        }
        (rel, cand)
    }

    /// Decides the response for a request that resolved to relative
    /// segments `rel` and whose candidate path the filesystem classified
    /// as `kind` (with `entries` its children when it is a directory): a
    /// file is streamed, a directory is rendered as a listing whose links
    /// are derived from the mount prefix and the root-relative path alone,
    /// and everything else is not-found.
    pub fn respond(&self, rel: &Vec<String>, kind: FsKind, entries: &Vec<DirEntry>) -> (r:
        HttpResponse)
        ensures
            kind is File ==> r.status is Success && r.body is FileStream,
            kind is Directory ==> r.status is Success && r.body is Html && r.body->Html_0@
                == render_listing(url_base(self.prefix@, rel.deep_view()), entries@),
            kind is Missing || kind is Other ==> r.status is NotFound && r.body is Empty,
    {
        let base = listing_base(self.prefix.as_str(), rel);
        build_response(kind, base.as_str(), entries)
    }
}

} // verus!
