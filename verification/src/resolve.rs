//! Path resolution: turning an attacker-controlled request path into a
//! candidate filesystem path that never escapes the configured root.

use vstd::prelude::*;

verus! {

/// The textual form of a root: an empty root stands for the filesystem
/// root itself, whose path is the single separator.
pub open spec fn root_path(root: Seq<char>) -> Seq<char> {
    if root.len() == 0 {
        "/"@
    } else {
        root
    }
}

/// A root is kept in normalized form: no trailing separator. The filesystem
/// root is represented by the empty sequence.
pub open spec fn root_wf(root: Seq<char>) -> bool {
    root.len() == 0 || root[root.len() - 1] != '/'
}

/// The boundary predicate: `cand` is the root itself, or a descendant of it.
/// The separator immediately after the root is required, so a sibling whose
/// name merely extends the root's (`/srv/www-evil` against `/srv/www`) is
/// outside.
pub open spec fn is_within(root: Seq<char>, cand: Seq<char>) -> bool {
    ||| cand == root_path(root)
    ||| (cand.len() > root.len() && cand.subrange(0, root.len() as int) == root
        && cand[root.len() as int] == '/')
}

/// Index of the first separator in `s`, or `s.len()` when there is none.
pub open spec fn first_slash(s: Seq<char>) -> int
    decreases s.len(),
{
    if s.len() == 0 {
        0
    } else if s[0] == '/' {
        0
    } else {
        1 + first_slash(s.subrange(1, s.len() as int))
    }
}

proof fn lemma_first_slash_bounds(s: Seq<char>)
    ensures
        0 <= first_slash(s) <= s.len(),
        first_slash(s) < s.len() ==> s[first_slash(s)] == '/',
        forall|t: int| 0 <= t < first_slash(s) ==> s[t] != '/',
    decreases s.len(),
{
    if s.len() == 0 {
    } else if s[0] == '/' {
    } else {
        let sub = s.subrange(1, s.len() as int);
        lemma_first_slash_bounds(sub);
        assert forall|t: int| 1 <= t < first_slash(s) implies s[t] != '/' by {
            assert(sub[t - 1] != '/');
            assert(s[t] == sub[t - 1]);
        }
    }
}

proof fn lemma_first_slash_at(s: Seq<char>, k: int)
    requires
        0 <= k <= s.len(),
        forall|t: int| 0 <= t < k ==> s[t] != '/',
        k < s.len() ==> s[k] == '/',
    ensures
        first_slash(s) == k,
    decreases k,
{
    if k == 0 {
    } else {
        let sub = s.subrange(1, s.len() as int);
        assert(forall|t: int| 0 <= t < k - 1 ==> sub[t] == s[t + 1] && sub[t] != '/');
        lemma_first_slash_at(sub, k - 1);
    }
}

/// The request subpath split on separators; empty segments (from doubled,
/// leading or trailing separators) disappear, as they do under the
/// platform's own path iteration.
pub open spec fn split_segments(s: Seq<char>) -> Seq<Seq<char>>
    decreases s.len() via split_segments_decreases
{
    if s.len() == 0 {
        Seq::empty()
    } else {
        let k = first_slash(s);
        let head = s.subrange(0, k);
        let tail = if k == s.len() {
            Seq::<char>::empty()
        } else {
            s.subrange(k + 1, s.len() as int)
        };
        if head.len() == 0 {
            split_segments(tail)
        } else {
            seq![head] + split_segments(tail)
        }
    }
}

#[via_fn]
proof fn split_segments_decreases(s: Seq<char>) {
    lemma_first_slash_bounds(s);
}

/// One traversal step: `.` is a no-op, `..` pops the last accumulated
/// segment and never climbs above the root (the empty accumulator), any
/// other segment is appended.
pub open spec fn step_segment(acc: Seq<Seq<char>>, seg: Seq<char>) -> Seq<Seq<char>> {
    if seg == "."@ {
        acc
    } else if seg == ".."@ {
        if acc.len() == 0 {
            acc
        } else {
            acc.drop_last()
        }
    } else {
        acc.push(seg)
    }
}

pub open spec fn resolve_from(acc: Seq<Seq<char>>, segs: Seq<Seq<char>>) -> Seq<Seq<char>>
    decreases segs.len(),
{
    if segs.len() == 0 {
        acc
    } else {
        resolve_from(step_segment(acc, segs[0]), segs.drop_first())
    }
}

/// The stack of plain segments a request subpath resolves to, once `.` and
/// `..` have been applied.
pub open spec fn resolve_segments(segs: Seq<Seq<char>>) -> Seq<Seq<char>> {
    resolve_from(Seq::empty(), segs)
}

/// The characters of a relative path: one separator before each segment.
pub open spec fn rel_string(segs: Seq<Seq<char>>) -> Seq<char>
    decreases segs.len(),
{
    if segs.len() == 0 {
        Seq::empty()
    } else {
        rel_string(segs.drop_last()) + seq!['/'] + segs.last()
    }
}

/// The candidate filesystem path for resolved segments under a root.
pub open spec fn joined_path(root: Seq<char>, segs: Seq<Seq<char>>) -> Seq<char> {
    if segs.len() == 0 {
        root_path(root)
    } else {
        root + rel_string(segs)
    }
}

/// `raw` with the mount prefix (when it is present at the front) removed.
pub open spec fn strip_prefix_spec(raw: Seq<char>, prefix: Seq<char>) -> Seq<char> {
    if prefix.len() <= raw.len() && raw.subrange(0, prefix.len() as int) == prefix {
        raw.skip(prefix.len() as int)
    } else {
        raw
    }
}

pub open spec fn strip_leading_slashes(s: Seq<char>) -> Seq<char>
    decreases s.len(),
{
    if s.len() > 0 && s[0] == '/' {
        strip_leading_slashes(s.drop_first())
    } else {
        s
    }
}

/// The relative request subpath: the mount prefix and any leading
/// separators removed from the raw request path.
pub open spec fn rel_subpath(raw: Seq<char>, prefix: Seq<char>) -> Seq<char> {
    strip_leading_slashes(strip_prefix_spec(raw, prefix))
}

/// The resolved relative segments of a raw request path under a mount
/// prefix.
pub open spec fn rel_segments(prefix: Seq<char>, raw: Seq<char>) -> Seq<Seq<char>> {
    resolve_segments(split_segments(rel_subpath(raw, prefix)))
}

/// The candidate filesystem path of a raw request path: resolved segments
/// joined under the root.
pub open spec fn candidate_path(root: Seq<char>, prefix: Seq<char>, raw: Seq<char>) -> Seq<char> {
    joined_path(root, rel_segments(prefix, raw))
}

/// Decides the boundary predicate on canonical path strings: the check that
/// runs after canonicalization, so symlink escapes are caught as well.
pub fn path_within_root(root: &str, cand: &str) -> (r: bool)
    ensures
        r == is_within(root@, cand@),
{
    let rl = root.unicode_len();
    let cl = cand.unicode_len();
    let cand_s = cand.to_owned();
    let full_root: String = if rl == 0 {
        String::from_str("/")
    } else {
        root.to_owned()
    };
    if cand_s == full_root {
        return true;
    }
    if cl > rl {
        let pre = cand.substring_char(0, rl).to_owned();
        let root_s = root.to_owned();
        if pre == root_s && cand.get_char(rl) == '/' {
            return true;
        }
    }
    false
}

/// `s` with every trailing separator removed.
pub open spec fn trim_trailing_slashes(s: Seq<char>) -> Seq<char>
    decreases s.len(),
{
    if s.len() > 0 && s[s.len() - 1] == '/' {
        trim_trailing_slashes(s.drop_last())
    } else {
        s
    }
}

/// Brings a root path to normal form: trailing separators are removed, so
/// `/srv/www/` and `/srv/www` name the same root, and the filesystem root
/// `/` becomes the empty normal-form root.
pub fn normalize_root(root: &str) -> (r: String)
    ensures
        r@ == trim_trailing_slashes(root@),
        root_wf(r@),
{
    let n = root.unicode_len();
    let mut end = n;
    proof {
        assert(root@.take(n as int) =~= root@);
    }
    while end > 0 && root.get_char(end - 1) == '/'
        invariant
            end <= n,
            n == root@.len(),
            trim_trailing_slashes(root@) == trim_trailing_slashes(root@.take(end as int)),
        decreases end,
    {
        proof {
            assert(root@.take(end as int).drop_last() =~= root@.take(end - 1));
        }
        end = end - 1;
    }
    let r = root.substring_char(0, end).to_owned();
    proof {
        assert(r@ =~= root@.take(end as int));
    }
    r
}

/// Strips the mount prefix (when the raw path starts with it) and then any
/// leading separators, yielding the relative request subpath.
pub fn strip_mount_prefix(raw: &str, prefix: &str) -> (r: String)
    ensures
        r@ == rel_subpath(raw@, prefix@),
{
    let rl = raw.unicode_len();
    let pl = prefix.unicode_len();
    let mut start: usize = 0;
    if pl <= rl {
        let head = raw.substring_char(0, pl).to_owned();
        if head == prefix.to_owned() {
            start = pl;
        }
    }
    proof {
        assert(raw@.skip(start as int) =~= strip_prefix_spec(raw@, prefix@));
    }
    while start < rl && raw.get_char(start) == '/'
        invariant
            start <= rl,
            rl == raw@.len(),
            strip_leading_slashes(raw@.skip(start as int)) == rel_subpath(raw@, prefix@),
        decreases rl - start,
    {
        proof {
            assert(raw@.skip(start as int).drop_first() =~= raw@.skip(start + 1));
        }
        start = start + 1;
    }
    let r = raw.substring_char(start, rl).to_owned();
    proof {
        assert(r@ =~= raw@.skip(start as int));
    }
    r
}

/// Splits a request subpath into its non-empty segments.
pub fn segments_of(s: &str) -> (r: Vec<String>)
    ensures
        r.deep_view() == split_segments(s@),
{
    let n = s.unicode_len();
    let mut r: Vec<String> = Vec::new();
    let mut i: usize = 0;
    proof {
        assert(s@.subrange(0, n as int) =~= s@);
        assert(r.deep_view() =~= Seq::<Seq<char>>::empty());
    }
    while i < n
        invariant
            i <= n,
            n == s@.len(),
            split_segments(s@) == r.deep_view() + split_segments(
                s@.subrange(i as int, n as int),
            ),
        decreases n - i,
    {
        let mut j: usize = i;
        while j < n && s.get_char(j) != '/'
            invariant
                i <= j <= n,
                n == s@.len(),
                forall|k: int| i <= k < j ==> s@[k] != '/',
            decreases n - j,
        {
            j = j + 1;
        }
        let ghost w = s@.subrange(i as int, n as int);
        proof {
            assert forall|t: int| 0 <= t < j - i implies w[t] != '/' by {
                assert(w[t] == s@[i + t]);
            }
            lemma_first_slash_at(w, j - i);
        }
        let ghost old_full = r.deep_view();
        if j > i {
            let seg = s.substring_char(i, j).to_owned();
            proof {
                assert(seg@ =~= w.subrange(0, j - i));
            }
            r.push(seg);
            proof {
                assert(r.deep_view() =~= old_full + seq![w.subrange(0, j - i)]);
            }
        }
        proof {
            let k: int = j - i;
            let head = w.subrange(0, k);
            let tail: Seq<char> = if k == w.len() {
                Seq::empty()
            } else {
                w.subrange(k + 1, w.len() as int)
            };
            if j < n {
                assert(tail =~= s@.subrange(j + 1, n as int));
            } else {
                assert(tail =~= s@.subrange(n as int, n as int));
            }
            if j == i {
                assert(head.len() == 0);
                assert(split_segments(w) == split_segments(tail));
            } else {
                assert(head.len() > 0);
                assert(split_segments(w) == seq![head] + split_segments(tail));
                assert((old_full + seq![head]) + split_segments(tail) =~= old_full + (seq![head]
                    + split_segments(tail)));
            }
        }
        i = if j < n {
            j + 1
        } else {
            n
        };
    }
    proof {
        assert(s@.subrange(n as int, n as int) =~= Seq::<char>::empty());
        assert(r.deep_view() + Seq::<Seq<char>>::empty() =~= r.deep_view());
    }
    r
}

/// Applies `.` and `..` segments; the returned stack of plain segments is
/// all the request may reference below the root.
pub fn apply_segments(segs: &Vec<String>) -> (r: Vec<String>)
    ensures
        r.deep_view() == resolve_segments(segs.deep_view()),
{
    let dot = String::from_str(".");
    let dotdot = String::from_str("..");
    let mut acc: Vec<String> = Vec::new();
    let mut i: usize = 0;
    proof {
        assert(acc.deep_view() =~= Seq::<Seq<char>>::empty());
        assert(segs.deep_view().skip(0) =~= segs.deep_view());
    }
    while i < segs.len()
        invariant
            i <= segs.len(),
            dot@ == "."@,
            dotdot@ == ".."@,
            resolve_from(acc.deep_view(), segs.deep_view().skip(i as int)) == resolve_segments(
                segs.deep_view(),
            ),
        decreases segs.len() - i,
    {
        let ghost rest = segs.deep_view().skip(i as int);
        proof {
            assert(rest[0] == segs.deep_view()[i as int]);
            assert(rest.drop_first() =~= segs.deep_view().skip(i + 1));
        }
        let seg = &segs[i];
        let ghost old_dv = acc.deep_view();
        if *seg == dot {
        } else if *seg == dotdot {
            if acc.len() > 0 {
                acc.pop();
                proof {
                    assert(acc.deep_view() =~= old_dv.drop_last());
                }
            }
        } else {
            acc.push(seg.clone());
            proof {
                assert(acc.deep_view() =~= old_dv.push(seg@));
            }
        }
        proof {
            assert(acc.deep_view() == step_segment(old_dv, rest[0]));
        }
        i = i + 1;
    }
    proof {
        assert(segs.deep_view().skip(segs.len() as int) =~= Seq::<Seq<char>>::empty());
    }
    acc
}

/// Joins resolved segments under the root, yielding the candidate
/// filesystem path that is handed to canonicalization.
pub fn join_under_root(root: &str, segs: &Vec<String>) -> (r: String)
    ensures
        r@ == joined_path(root@, segs.deep_view()),
{
    if segs.len() == 0 {
        if root.unicode_len() == 0 {
            return String::from_str("/");
        }
        return root.to_owned();
    }
    let mut r = root.to_owned();
    let mut i: usize = 0;
    proof {
        assert(rel_string(segs.deep_view().take(0)) =~= Seq::<char>::empty());
        assert(r@ =~= root@ + rel_string(segs.deep_view().take(0)));
    }
    while i < segs.len()
        invariant
            i <= segs.len(),
            r@ == root@ + rel_string(segs.deep_view().take(i as int)),
        decreases segs.len() - i,
    {
        r.append("/");
        r.append(segs[i].as_str());
        proof {
            reveal_strlit("/");
            let dv = segs.deep_view();
            assert("/"@ =~= seq!['/']);
            assert(dv.take(i + 1).drop_last() =~= dv.take(i as int));
            assert(dv.take(i + 1).last() == dv[i as int]);
            assert(r@ =~= root@ + rel_string(dv.take(i + 1)));
        }
        i = i + 1;
    }
    proof {
        assert(segs.deep_view().take(segs.len() as int) =~= segs.deep_view());
    }
    r
}

proof fn lemma_rel_string_head(segs: Seq<Seq<char>>)
    requires
        segs.len() > 0,
    ensures
        rel_string(segs).len() > 0,
        rel_string(segs)[0] == '/',
    decreases segs.len(),
{
    if segs.len() == 1 {
        assert(rel_string(segs.drop_last()) =~= Seq::<char>::empty());
    } else {
        lemma_rel_string_head(segs.drop_last());
    }
}

/// Traversal safety: whatever the raw request path holds — `..` runs
/// included — the candidate path the resolver produces is the root itself
/// or a descendant of it.
pub proof fn lemma_resolution_stays_within_root(root: Seq<char>, prefix: Seq<char>, raw: Seq<char>)
    ensures
        is_within(root, candidate_path(root, prefix, raw)),
{
    let segs = rel_segments(prefix, raw);
    if segs.len() > 0 {
        lemma_rel_string_head(segs);
        let cand = root + rel_string(segs);
        assert(cand.subrange(0, root.len() as int) =~= root);
        assert(cand[root.len() as int] == '/');
    }
}

/// A segment that can stand as one path component: non-empty and free of
/// separators.
pub open spec fn no_sep_segment(seg: Seq<char>) -> bool {
    seg.len() > 0 && forall|t: int| 0 <= t < seg.len() ==> seg[t] != '/'
}

/// A segment the resolver may hand back: one path component that is
/// neither `.` nor `..`.
pub open spec fn plain_segment(seg: Seq<char>) -> bool {
    no_sep_segment(seg) && seg != "."@ && seg != ".."@
}

pub open spec fn all_no_sep(segs: Seq<Seq<char>>) -> bool {
    forall|k: int| 0 <= k < segs.len() ==> no_sep_segment(#[trigger] segs[k])
}

pub open spec fn all_plain(segs: Seq<Seq<char>>) -> bool {
    forall|k: int| 0 <= k < segs.len() ==> plain_segment(#[trigger] segs[k])
}

proof fn lemma_split_segments_no_sep(s: Seq<char>)
    ensures
        all_no_sep(split_segments(s)),
    decreases s.len(),
{
    if s.len() == 0 {
    } else {
        lemma_first_slash_bounds(s);
        let k = first_slash(s);
        let head = s.subrange(0, k);
        let tail: Seq<char> = if k == s.len() {
            Seq::empty()
        } else {
            s.subrange(k + 1, s.len() as int)
        };
        lemma_split_segments_no_sep(tail);
        if head.len() > 0 {
            assert(no_sep_segment(head));
            assert forall|j: int|
                0 <= j < split_segments(s).len() implies no_sep_segment(
                #[trigger] split_segments(s)[j],
            ) by {
                if j > 0 {
                    assert(split_segments(s)[j] == split_segments(tail)[j - 1]);
                }
            }
        }
    }
}

proof fn lemma_resolve_from_plain(acc: Seq<Seq<char>>, segs: Seq<Seq<char>>)
    requires
        all_plain(acc),
        all_no_sep(segs),
    ensures
        all_plain(resolve_from(acc, segs)),
    decreases segs.len(),
{
    if segs.len() > 0 {
        let next = step_segment(acc, segs[0]);
        assert(all_plain(next)) by {
            if segs[0] == "."@ {
            } else if segs[0] == ".."@ {
                if acc.len() > 0 {
                    assert(forall|k: int|
                        0 <= k < acc.drop_last().len() ==> acc.drop_last()[k] == acc[k]);
                }
            } else {
                assert(plain_segment(segs[0]));
                assert(forall|k: int| 0 <= k < acc.len() ==> next[k] == acc[k]);
            }
        }
        assert(all_no_sep(segs.drop_first())) by {
            assert(forall|k: int|
                0 <= k < segs.drop_first().len() ==> segs.drop_first()[k] == segs[k + 1]);
        }
        lemma_resolve_from_plain(next, segs.drop_first());
    }
}

/// Every segment the resolver hands back is plain: non-empty, free of
/// separators, and neither `.` nor `..`. The candidate path's components
/// below the root are therefore exactly the resolved segments, which is
/// what lets the textual boundary check stand for the component-wise one.
pub proof fn lemma_resolved_segments_plain(prefix: Seq<char>, raw: Seq<char>)
    ensures
        all_plain(rel_segments(prefix, raw)),
{
    let sub = rel_subpath(raw, prefix);
    lemma_split_segments_no_sep(sub);
    lemma_resolve_from_plain(Seq::empty(), split_segments(sub));
}

/// `segs` with every `.` segment removed.
pub open spec fn drop_dot_segments(segs: Seq<Seq<char>>) -> Seq<Seq<char>>
    decreases segs.len(),
{
    if segs.len() == 0 {
        Seq::empty()
    } else if segs[0] == "."@ {
        drop_dot_segments(segs.drop_first())
    } else {
        seq![segs[0]] + drop_dot_segments(segs.drop_first())
    }
}

proof fn lemma_resolve_from_ignores_dots(acc: Seq<Seq<char>>, segs: Seq<Seq<char>>)
    ensures
        resolve_from(acc, drop_dot_segments(segs)) == resolve_from(acc, segs),
    decreases segs.len(),
{
    if segs.len() == 0 {
    } else if segs[0] == "."@ {
        lemma_resolve_from_ignores_dots(acc, segs.drop_first());
    } else {
        lemma_resolve_from_ignores_dots(step_segment(acc, segs[0]), segs.drop_first());
        assert((seq![segs[0]] + drop_dot_segments(segs.drop_first())).drop_first()
            =~= drop_dot_segments(segs.drop_first()));
    }
}

/// `.` segments are ignored: a path with `.` segments interleaved resolves
/// to exactly the segments of the path without them.
pub proof fn lemma_dot_segments_ignored(segs: Seq<Seq<char>>)
    ensures
        resolve_segments(segs) == resolve_segments(drop_dot_segments(segs)),
{
    lemma_resolve_from_ignores_dots(Seq::empty(), segs);
}

} // verus!
