//! Rendering a resolved directory as a browsable HTML listing whose links
//! are derived purely from the mount prefix and the root-relative path,
//! never from filesystem-absolute strings.

use crate::resolve::{normalize_root, rel_string, trim_trailing_slashes};
use vstd::prelude::*;

verus! {

/// One immediate child of a listed directory: its name and whether it is
/// itself a directory.
#[derive(Clone, Debug, PartialEq, Eq)]
pub struct DirEntry {
    pub name: String,
    pub is_dir: bool,
}

impl DirEntry {
    pub fn new(name: String, is_dir: bool) -> (e: Self)
        ensures
            e.name == name,
            e.is_dir == is_dir,
    {
        DirEntry { name, is_dir }
    }
}

/// The URL path of the directory a request's segments name, ending with a
/// separator so that child names can be appended directly.
pub open spec fn url_base(prefix: Seq<char>, segs: Seq<Seq<char>>) -> Seq<char> {
    trim_trailing_slashes(prefix) + rel_string(segs) + seq!['/']
}

/// Where an entry's anchor points: the listed directory's URL path joined
/// with the entry's name; directories carry a trailing separator.
pub open spec fn entry_link(base: Seq<char>, name: Seq<char>, is_dir: bool) -> Seq<char> {
    if is_dir {
        base + name + seq!['/']
    } else {
        base + name
    }
}

pub open spec fn render_entry(base: Seq<char>, name: Seq<char>, is_dir: bool) -> Seq<char> {
    "<li><a href=\""@ + entry_link(base, name, is_dir) + "\">"@ + name + "</a></li>"@
}

pub open spec fn render_entries(base: Seq<char>, entries: Seq<DirEntry>) -> Seq<char>
    decreases entries.len(),
{
    if entries.len() == 0 {
        Seq::empty()
    } else {
        render_entries(base, entries.drop_last()) + render_entry(
            base,
            entries.last().name@,
            entries.last().is_dir,
        )
    }
}

/// The whole listing document for the directory reachable at URL path
/// `base`: one anchor per entry, in enumeration order, nothing hidden.
pub open spec fn render_listing(base: Seq<char>, entries: Seq<DirEntry>) -> Seq<char> {
    "<ul>"@ + render_entries(base, entries) + "</ul>"@
}

/// Builds the URL path under which a resolved directory is listed: the
/// normalized mount prefix, one `/segment` per resolved segment, and a
/// closing separator.
pub fn listing_base(prefix: &str, segs: &Vec<String>) -> (r: String)
    ensures
        r@ == url_base(prefix@, segs.deep_view()),
{
    let mut r = normalize_root(prefix);
    let ghost base0 = r@;
    let mut i: usize = 0;
    proof {
        assert(rel_string(segs.deep_view().take(0)) =~= Seq::<char>::empty());
        assert(r@ =~= base0 + rel_string(segs.deep_view().take(0)));
    }
    while i < segs.len()
        invariant
            i <= segs.len(),
            r@ == base0 + rel_string(segs.deep_view().take(i as int)),
        decreases segs.len() - i,
    {
        r.append("/");
        r.append(segs[i].as_str());
        proof {
            reveal_strlit("/");
            let dv = segs.deep_view();
            assert("/"@ =~= seq!['/']);
            assert(dv.take(i + 1).drop_last() =~= dv.take(i as int));
            assert(dv.take(i + 1).last() == dv[i as int]);
            assert(r@ =~= base0 + rel_string(dv.take(i + 1)));
        }
        i = i + 1;
    }
    r.append("/");
    proof {
        reveal_strlit("/");
        assert("/"@ =~= seq!['/']);
        assert(segs.deep_view().take(segs.len() as int) =~= segs.deep_view());
        assert(r@ =~= url_base(prefix@, segs.deep_view()));
    }
    r
}

/// Renders the immediate children of the directory reachable at URL path
/// `base` (which must end with a separator to be meaningful) as an HTML
/// unordered list. Each anchor's target is the base joined with the entry's
/// name — directories get a trailing separator — and its text is the name.
pub fn render_listing_html(base: &str, entries: &Vec<DirEntry>) -> (r: String)
    ensures
        r@ == render_listing(base@, entries@),
{
    let mut html = String::from_str("<ul>");
    let mut i: usize = 0;
    proof {
        assert(render_entries(base@, entries@.take(0)) =~= Seq::<char>::empty());
        assert(html@ =~= "<ul>"@ + render_entries(base@, entries@.take(0)));
    }
    while i < entries.len()
        invariant
            i <= entries.len(),
            html@ == "<ul>"@ + render_entries(base@, entries@.take(i as int)),
        decreases entries.len() - i,
    {
        html.append("<li><a href=\"");
        html.append(base);
        html.append(entries[i].name.as_str());
        if entries[i].is_dir {
            html.append("/");
        }
        html.append("\">");
        html.append(entries[i].name.as_str());
        html.append("</a></li>");
        proof {
            reveal_strlit("/");
            assert("/"@ =~= seq!['/']);
            assert(entries@.take(i + 1).drop_last() =~= entries@.take(i as int));
            assert(entries@.take(i + 1).last() == entries@[i as int]);
            assert(html@ =~= "<ul>"@ + render_entries(base@, entries@.take(i + 1)));
        }
        i = i + 1;
    }
    html.append("</ul>");
    proof {
        assert(entries@.take(entries.len() as int) =~= entries@);
        assert(html@ =~= render_listing(base@, entries@));
    }
    html
}

} // verus!
