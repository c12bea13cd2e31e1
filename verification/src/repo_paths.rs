//! Paths inside a Holium project: the absolute form of a possibly relative path, and the path of
//! a location relative to the project root, refused when the location is outside the project.
//!
//! A path is modelled by its text and by its components, as `std::path::Path::components` reads
//! them on a Unix system: the root `/` first where the path starts with it, then the texts between
//! the separators, without empty ones and without `.` (but a leading one of a relative path).
use vstd::prelude::*;
use crate::multiformats::view_path;
use crate::values::str_eq;

verus! {

broadcast use vstd::std_specs::vec::group_vec_axioms;

/// The text that `path_clean::clean` makes of a path, lexically: multiple slashes reduced to one,
/// `.` elements removed, `..` elements removed with the element before them (or at the start of a
/// rooted path), and `.` for an empty result.
pub uninterp spec fn path_cleaning(path: Seq<char>) -> Seq<char>;

/// A rooted path with no `.` nor `..` between its separators.
pub open spec fn rooted_without_dots(p: Seq<char>) -> bool {
    &&& is_rooted(p)
    &&& forall|j: int| 0 <= j < split_slash(p).len() ==>
        #[trigger] split_slash(p)[j] != ".."@ && split_slash(p)[j] != "."@
}

/// Clean a path lexically with `path_clean::clean`. A rooted path stays rooted, and keeps no `.`
/// nor `..` element: a `..` at the start of a rooted path is dropped, and `.` is kept only in a
/// relative path of one element.
#[verifier::external_body]
fn clean(path: &str) -> (r: String)
    ensures
        r@ == path_cleaning(path@),
        is_rooted(path@) ==> rooted_without_dots(r@),
{
    path_clean::clean(path)
}

/// Whether a path starts at the root.
pub open spec fn is_rooted(p: Seq<char>) -> bool {
    p.len() > 0 && p[0] == '/'
}

/// The path `PathBuf::join` makes of a directory and a path: the path itself where it is rooted
/// or the directory is empty; else the two, with a separator between them where the directory
/// does not end with one.
pub open spec fn spec_join(dir: Seq<char>, path: Seq<char>) -> Seq<char> {
    if is_rooted(path) || dir.len() == 0 {
        path
    } else if dir.last() == '/' {
        dir + path
    } else {
        dir + "/"@ + path
    }
}

/// The absolute form of a path: joined to the current directory where it is relative, then
/// cleaned lexically. The path need not exist.
pub open spec fn spec_absolute_path(path: Seq<char>, current_dir: Seq<char>) -> Seq<char> {
    path_cleaning(spec_join(current_dir, path))
}

/// The texts between the separators `/` of a path, empty ones included.
pub open spec fn split_slash(p: Seq<char>) -> Seq<Seq<char>>
    decreases p.len(),
{
    if p.len() == 0 {
        seq![Seq::empty()]
    } else {
        let s = split_slash(p.drop_last());
        if p.last() == '/' {
            s.push(Seq::empty())
        } else {
            s.update(s.len() - 1, s.last().push(p.last()))
        }
    }
}

/// Whether the text at position `i` between the separators of a path is one of its components:
/// it is not empty, and it is not `.` unless it leads a relative path.
pub open spec fn kept_segment(seg: Seq<char>, i: int, rooted: bool) -> bool {
    seg.len() > 0 && (seg != "."@ || (i == 0 && !rooted))
}

/// The texts between the separators that are components, in order.
pub open spec fn kept_segments(segs: Seq<Seq<char>>, rooted: bool) -> Seq<Seq<char>>
    decreases segs.len(),
{
    if segs.len() == 0 {
        Seq::empty()
    } else {
        let k = kept_segments(segs.drop_last(), rooted);
        if kept_segment(segs.last(), segs.len() - 1, rooted) {
            k.push(segs.last())
        } else {
            k
        }
    }
}

/// The components of a path: `/` first where it is rooted, then the components between its
/// separators.
pub open spec fn path_components(p: Seq<char>) -> Seq<Seq<char>> {
    (if is_rooted(p) { seq!["/"@] } else { Seq::empty() }) + kept_segments(split_slash(p), is_rooted(p))
}

/// Texts joined with `/` between them.
pub open spec fn join_slash(s: Seq<Seq<char>>) -> Seq<char>
    decreases s.len(),
{
    if s.len() == 0 {
        Seq::empty()
    } else if s.len() == 1 {
        s[0]
    } else {
        join_slash(s.drop_last()) + "/"@ + s.last()
    }
}

/// The text of a path made of some components.
pub open spec fn render_components(c: Seq<Seq<char>>) -> Seq<char> {
    if c.len() > 0 && c[0] == "/"@ {
        "/"@ + join_slash(c.drop_first())
    } else {
        join_slash(c)
    }
}

/// The path of a location relative to a root, where the components of the root start the
/// components of the location; `None` where they do not.
pub open spec fn spec_strip_prefix(path: Seq<char>, root: Seq<char>) -> Option<Seq<char>> {
    let cp = path_components(path);
    let cr = path_components(root);
    if cr.len() <= cp.len() && cp.subrange(0, cr.len() as int) == cr {
        Some(render_components(cp.subrange(cr.len() as int, cp.len() as int)))
    } else {
        None
    }
}

/// Errors of the paths of a project.
#[derive(Debug, PartialEq, Eq, Structural)]
pub enum PathError {
    UnsecureFilePath,
    NonUnicodeFilePath,
}

impl PathError {
    /// Human readable description of the error.
    pub fn message(&self) -> (r: String)
        ensures
            r@ == match self {
                PathError::UnsecureFilePath => "file path outside the project directory"@,
                PathError::NonUnicodeFilePath => "invalid unicode characters in the file path"@,
            },
    {
        match self {
            PathError::UnsecureFilePath => String::from_str("file path outside the project directory"),
            PathError::NonUnicodeFilePath => String::from_str("invalid unicode characters in the file path"),
        }
    }
}

/// Get the absolute form of a possibly relative path, even if the path does not exist:
/// `current_dir` is the current directory of the process.
pub fn absolute_path(path: &str, current_dir: &str) -> (r: String)
    ensures
        r@ == spec_absolute_path(path@, current_dir@),
        is_rooted(spec_join(current_dir@, path@)) ==> rooted_without_dots(r@),
{
    let n = path.unicode_len();
    let m = current_dir.unicode_len();
    let rooted = n > 0 && path.get_char(0) == '/';
    let joined = if rooted || m == 0 {
        String::from_str(path)
    } else if current_dir.get_char(m - 1) == '/' {
        let mut j = String::from_str(current_dir);
        j.append(path);
        j
    } else {
        let mut j = String::from_str(current_dir);
        j.append("/");
        j.append(path);
        j
    };
    clean(joined.as_str())
}

/// The texts between the separators of a path, empty ones included.
fn split_at_slashes(p: &str) -> (r: Vec<String>)
    ensures view_path(r@) == split_slash(p@),
{
    let n = p.unicode_len();
    let mut segs: Vec<String> = Vec::new();
    let mut start: usize = 0;
    let mut i: usize = 0;
    proof { assert(p@.subrange(0, 0) =~= Seq::<char>::empty()); }
    while i < n
        invariant
            n == p@.len(),
            start <= i <= n,
            split_slash(p@.subrange(0, i as int)) == view_path(segs@).push(p@.subrange(start as int, i as int)),
        decreases n - i,
    {
        let c = p.get_char(i);
        proof {
            let q = p@.subrange(0, i as int + 1);
            assert(q.drop_last() =~= p@.subrange(0, i as int));
            assert(q.last() == c);
        }
        if c == '/' {
            let seg = String::from_str(p.substring_char(start, i));
            proof {
                assert(view_path(segs@.push(seg)) =~= view_path(segs@).push(seg@));
                assert(p@.subrange(i as int + 1, i as int + 1) =~= Seq::<char>::empty());
            }
            segs.push(seg);
            start = i + 1;
        } else {
            proof {
                assert(p@.subrange(start as int, i as int).push(c) =~= p@.subrange(start as int, i as int + 1));
            }
        }
        i = i + 1;
    }
    let last = String::from_str(p.substring_char(start, n));
    proof {
        assert(p@.subrange(0, n as int) =~= p@);
        assert(view_path(segs@.push(last)) =~= view_path(segs@).push(last@));
    }
    segs.push(last);
    segs
}

/// The components of a path.
fn components(p: &str) -> (r: Vec<String>)
    ensures view_path(r@) == path_components(p@),
{
    let segs = split_at_slashes(p);
    let rooted = p.unicode_len() > 0 && p.get_char(0) == '/';
    let mut out: Vec<String> = Vec::new();
    if rooted {
        out.push(String::from_str("/"));
    }
    let ghost head: Seq<Seq<char>> = if rooted { seq!["/"@] } else { Seq::empty() };
    proof {
        assert(view_path(out@) =~= head);
        assert(view_path(segs@).subrange(0, 0) =~= Seq::<Seq<char>>::empty());
        assert(head + Seq::<Seq<char>>::empty() =~= head);
    }
    let mut i: usize = 0;
    while i < segs.len()
        invariant
            i <= segs.len(),
            rooted == is_rooted(p@),
            view_path(out@) == head + kept_segments(view_path(segs@).subrange(0, i as int), rooted),
        decreases segs.len() - i,
    {
        let seg = segs[i].as_str();
        let keep = seg.unicode_len() > 0 && (!str_eq(seg, ".") || (i == 0 && !rooted));
        proof {
            let s = view_path(segs@).subrange(0, i as int + 1);
            assert(s.drop_last() =~= view_path(segs@).subrange(0, i as int));
            assert(s.last() == segs@[i as int]@);
            assert(keep == kept_segment(s.last(), s.len() - 1, rooted));
        }
        if keep {
            let copy = String::from_str(seg);
            proof {
                assert(view_path(out@.push(copy)) =~= view_path(out@).push(copy@));
            }
            out.push(copy);
        }
        i = i + 1;
    }
    proof { assert(view_path(segs@).subrange(0, segs@.len() as int) =~= view_path(segs@)); }
    out
}

/// Texts joined with `/` between them: those of `c` from position `from` on.
fn join_from(c: &Vec<String>, from: usize) -> (r: String)
    requires from <= c.len(),
    ensures r@ == join_slash(view_path(c@).subrange(from as int, c.len() as int)),
{
    let mut acc = String::from_str("");
    let mut j: usize = from;
    proof { reveal_strlit(""); assert(view_path(c@).subrange(from as int, from as int) =~= Seq::<Seq<char>>::empty()); }
    while j < c.len()
        invariant
            from <= j <= c.len(),
            acc@ == join_slash(view_path(c@).subrange(from as int, j as int)),
        decreases c.len() - j,
    {
        proof {
            let s = view_path(c@).subrange(from as int, j as int + 1);
            assert(s.drop_last() =~= view_path(c@).subrange(from as int, j as int));
            assert(s.last() == c@[j as int]@);
        }
        if j == from {
            acc = String::from_str(c[j].as_str());
            proof {
                assert(view_path(c@).subrange(from as int, j as int + 1) =~= seq![c@[j as int]@]);
            }
        } else {
            acc.append("/");
            acc.append(c[j].as_str());
        }
        j = j + 1;
    }
    acc
}

/// The text of the path made of the components of `c` from position `from` on.
fn render_from(c: &Vec<String>, from: usize) -> (r: String)
    requires from <= c.len(),
    ensures r@ == render_components(view_path(c@).subrange(from as int, c.len() as int)),
{
    let ghost rest = view_path(c@).subrange(from as int, c.len() as int);
    if from < c.len() && str_eq(c[from].as_str(), "/") {
        let mut r = String::from_str("/");
        let tail = join_from(c, from + 1);
        r.append(tail.as_str());
        proof {
            assert(rest[0] == "/"@);
            assert(rest.drop_first() =~= view_path(c@).subrange(from as int + 1, c.len() as int));
        }
        r
    } else {
        proof {
            if from < c.len() {
                assert(rest[0] == c@[from as int]@);
            }
        }
        join_from(c, from)
    }
}

/// Check that a path leads to a location that is part of the project, and give the path of that
/// location relative to the project root. `current_dir` is the current directory of the process,
/// against which a relative path is read, and `root_path` the root directory of the project.
pub fn to_relative_path_to_project_root(tested_path: &str, current_dir: &str, root_path: &str)
    -> (r: Result<String, PathError>)
    ensures
        match spec_strip_prefix(spec_absolute_path(tested_path@, current_dir@), root_path@) {
            Some(rel) => r is Ok && r->Ok_0@ == rel,
            None => r == Err::<String, PathError>(PathError::UnsecureFilePath),
        },
        r is Ok && is_rooted(spec_join(current_dir@, tested_path@)) && path_components(root_path@).len() > 0
            ==> stays_inside(r->Ok_0@),
{
    let path = absolute_path(tested_path, current_dir);
    proof {
        if is_rooted(spec_join(current_dir@, tested_path@)) && path_components(root_path@).len() > 0
            && spec_strip_prefix(path@, root_path@) is Some {
            lemma_relative_path_stays_inside(path@, root_path@);
        }
    }
    let cp = components(path.as_str());
    let cr = components(root_path);
    if cr.len() > cp.len() {
        return Err(PathError::UnsecureFilePath);
    }
    let mut i: usize = 0;
    while i < cr.len()
        invariant
            i <= cr.len() <= cp.len(),
            view_path(cp@) == path_components(spec_absolute_path(tested_path@, current_dir@)),
            view_path(cr@) == path_components(root_path@),
            forall|k: int| 0 <= k < i ==> view_path(cp@)[k] == view_path(cr@)[k],
        decreases cr.len() - i,
    {
        proof {
            assert(view_path(cp@)[i as int] == cp@[i as int]@);
            assert(view_path(cr@)[i as int] == cr@[i as int]@);
        }
        if !str_eq(cp[i].as_str(), cr[i].as_str()) {
            proof {
                assert(view_path(cp@)[i as int] == cp@[i as int]@);
                assert(view_path(cr@)[i as int] == cr@[i as int]@);
                assert(view_path(cp@).subrange(0, cr.len() as int)[i as int] != view_path(cr@)[i as int]);
            }
            return Err(PathError::UnsecureFilePath);
        }
        i = i + 1;
    }
    proof { assert(view_path(cp@).subrange(0, cr.len() as int) =~= view_path(cr@)); }
    Ok(render_from(&cp, cr.len()))
}

/*********************************************
 * Relative paths lead back to their location
 *********************************************/

/// A text without separator.
pub open spec fn no_slash(s: Seq<char>) -> bool {
    forall|i: int| 0 <= i < s.len() ==> s[i] != '/'
}

/// A component between separators: not empty, without separator, not `.`.
pub open spec fn normal_component(s: Seq<char>) -> bool {
    s.len() > 0 && no_slash(s) && s != "."@
}

proof fn lemma_split_len(p: Seq<char>)
    ensures split_slash(p).len() >= 1,
    decreases p.len(),
{
    if p.len() > 0 {
        lemma_split_len(p.drop_last());
    }
}

proof fn lemma_split_no_slash(b: Seq<char>)
    requires no_slash(b),
    ensures split_slash(b) == seq![b],
    decreases b.len(),
{
    if b.len() == 0 {
        assert(b =~= Seq::<char>::empty());
    } else {
        let c = b.drop_last();
        lemma_split_no_slash(c);
        assert(c.push(b.last()) =~= b);
        assert(seq![c].update(0, c.push(b.last())) =~= seq![b]);
    }
}

/// Splitting a text that ends with a separator and a part without separator.
proof fn lemma_split_append(a: Seq<char>, b: Seq<char>)
    requires no_slash(b),
    ensures split_slash(a + seq!['/'] + b) == split_slash(a).push(b),
    decreases b.len(),
{
    let p = a + seq!['/'] + b;
    if b.len() == 0 {
        assert(p.drop_last() =~= a);
        assert(b =~= Seq::<char>::empty());
    } else {
        let c = b.drop_last();
        lemma_split_append(a, c);
        assert(p.drop_last() =~= a + seq!['/'] + c);
        lemma_split_len(a);
        let s = split_slash(a).push(c);
        assert(s.update(s.len() - 1, s.last().push(b.last())) =~= split_slash(a).push(b)) by {
            assert(c.push(b.last()) =~= b);
        }
    }
}

/// Splitting a text that ends with a separator and joined components.
proof fn lemma_split_append_joined(a: Seq<char>, k: Seq<Seq<char>>)
    requires
        k.len() >= 1,
        forall|j: int| 0 <= j < k.len() ==> no_slash(#[trigger] k[j]),
    ensures split_slash(a + seq!['/'] + join_slash(k)) == split_slash(a) + k,
    decreases k.len(),
{
    reveal_strlit("/");
    if k.len() == 1 {
        assert(no_slash(k[0]));
        lemma_split_append(a, k[0]);
        assert(split_slash(a).push(k[0]) =~= split_slash(a) + k);
    } else {
        let k2 = k.drop_last();
        assert forall|j: int| 0 <= j < k2.len() implies no_slash(#[trigger] k2[j]) by {
            assert(no_slash(k[j]));
        }
        lemma_split_append_joined(a, k2);
        assert(no_slash(k[k.len() - 1]));
        let q = a + seq!['/'] + join_slash(k2);
        lemma_split_append(q, k.last());
        assert(a + seq!['/'] + join_slash(k) =~= q + seq!['/'] + k.last());
        assert((split_slash(a) + k2).push(k.last()) =~= split_slash(a) + k);
    }
}

/// Joined components without separator split back into them.
proof fn lemma_split_join(c: Seq<Seq<char>>)
    requires
        c.len() >= 1,
        forall|j: int| 0 <= j < c.len() ==> no_slash(#[trigger] c[j]),
    ensures split_slash(join_slash(c)) == c,
{
    reveal_strlit("/");
    assert(no_slash(c[0]));
    if c.len() == 1 {
        lemma_split_no_slash(c[0]);
        assert(seq![c[0]] =~= c);
    } else {
        let rest = c.drop_first();
        assert forall|j: int| 0 <= j < rest.len() implies no_slash(#[trigger] rest[j]) by {
            assert(no_slash(c[j + 1]));
        }
        lemma_join_first(c);
        lemma_split_append_joined(c[0], rest);
        lemma_split_no_slash(c[0]);
        assert(seq![c[0]] + rest =~= c);
    }
}

/// Joining components is the first one, a separator, and the rest joined.
proof fn lemma_join_first(c: Seq<Seq<char>>)
    requires c.len() >= 2,
    ensures join_slash(c) == c[0] + seq!['/'] + join_slash(c.drop_first()),
    decreases c.len(),
{
    reveal_strlit("/");
    assert("/"@ =~= seq!['/']);
    if c.len() == 2 {
        assert(c.drop_first() =~= seq![c[1]]);
        assert(c.drop_last() =~= seq![c[0]]);
        assert(join_slash(seq![c[0]]) == c[0]);
        assert(join_slash(seq![c[1]]) == c[1]);
        assert(join_slash(c) =~= c[0] + seq!['/'] + join_slash(c.drop_first()));
    } else {
        let d = c.drop_last();
        lemma_join_first(d);
        let f = c.drop_first();
        assert(d.drop_first() =~= f.drop_last());
        assert(f.last() == c.last());
        assert(join_slash(f) == join_slash(f.drop_last()) + "/"@ + f.last());
        assert(join_slash(c) == join_slash(d) + "/"@ + c.last());
        assert(join_slash(c) =~= c[0] + seq!['/'] + join_slash(c.drop_first()));
    }
}

/// A text of joined components starts with the first one.
proof fn lemma_join_starts(c: Seq<Seq<char>>)
    requires c.len() >= 1, c[0].len() > 0,
    ensures join_slash(c).len() > 0, join_slash(c)[0] == c[0][0],
    decreases c.len(),
{
    if c.len() > 1 {
        lemma_join_starts(c.drop_last());
    }
}

/// An empty text is no component.
proof fn lemma_kept_single_empty(rooted: bool)
    ensures kept_segments(seq![Seq::<char>::empty()], rooted) == Seq::<Seq<char>>::empty(),
{
    let c = seq![Seq::<char>::empty()];
    assert(kept_segments(Seq::<Seq<char>>::empty(), rooted) =~= Seq::<Seq<char>>::empty());
    assert(c.drop_last() =~= Seq::<Seq<char>>::empty());
    assert(c.last() == Seq::<char>::empty());
}

/// The components kept out of texts that all are components.
proof fn lemma_kept_all(c: Seq<Seq<char>>, rooted: bool)
    requires
        forall|j: int| 0 <= j < c.len() ==> (#[trigger] c[j]).len() > 0,
        forall|j: int| 1 <= j < c.len() ==> #[trigger] c[j] != "."@,
        c.len() > 0 && c[0] == "."@ ==> !rooted,
    ensures kept_segments(c, rooted) == c,
    decreases c.len(),
{
    if c.len() > 0 {
        let d = c.drop_last();
        lemma_kept_all(d, rooted);
        assert(c[c.len() - 1].len() > 0);
        assert(d.push(c.last()) =~= c);
    }
}

/// The components kept out of an empty text followed by components of a rooted path.
proof fn lemma_kept_after_empty(k: Seq<Seq<char>>)
    requires forall|j: int| 0 <= j < k.len() ==> normal_component(#[trigger] k[j]),
    ensures kept_segments(seq![Seq::<char>::empty()] + k, true) == k,
    decreases k.len(),
{
    let c = seq![Seq::<char>::empty()] + k;
    if k.len() == 0 {
        lemma_kept_single_empty(true);
        assert(c =~= seq![Seq::<char>::empty()]);
        assert(kept_segments(c, true) =~= k);
    } else {
        let k2 = k.drop_last();
        assert forall|j: int| 0 <= j < k2.len() implies normal_component(#[trigger] k2[j]) by {
            assert(normal_component(k[j]));
        }
        lemma_kept_after_empty(k2);
        assert(c.drop_last() =~= seq![Seq::<char>::empty()] + k2);
        assert(normal_component(k[k.len() - 1]));
        assert(c.last() == k.last());
        assert(kept_segment(c.last(), c.len() - 1, true));
        assert(k2.push(k.last()) =~= k);
    }
}

/// The texts between the separators hold no separator.
proof fn lemma_split_no_slashes(p: Seq<char>)
    ensures forall|j: int| 0 <= j < split_slash(p).len() ==> no_slash(#[trigger] split_slash(p)[j]),
    decreases p.len(),
{
    if p.len() > 0 {
        let q = p.drop_last();
        lemma_split_no_slashes(q);
        lemma_split_len(q);
        let s = split_slash(q);
        if p.last() != '/' {
            assert forall|j: int| 0 <= j < split_slash(p).len() implies no_slash(#[trigger] split_slash(p)[j]) by {
                if j == s.len() - 1 {
                    assert(no_slash(s[j]));
                    let t = s.last().push(p.last());
                    assert forall|i: int| 0 <= i < t.len() implies t[i] != '/' by {
                        if i < s.last().len() {
                            assert(s.last()[i] != '/');
                        }
                    }
                } else {
                    assert(no_slash(s[j]));
                }
            }
        } else {
            assert forall|j: int| 0 <= j < split_slash(p).len() implies no_slash(#[trigger] split_slash(p)[j]) by {
                if j < s.len() {
                    assert(no_slash(s[j]));
                }
            }
        }
    }
}

/// The components kept out of texts without separator are such texts; only the first one can be
/// `.`, and only in a relative path.
proof fn lemma_kept_shape(s: Seq<Seq<char>>, rooted: bool)
    requires forall|j: int| 0 <= j < s.len() ==> no_slash(#[trigger] s[j]),
    ensures
        forall|j: int| 0 <= j < kept_segments(s, rooted).len() ==> (#[trigger] kept_segments(s, rooted)[j]).len() > 0
            && no_slash(kept_segments(s, rooted)[j]),
        forall|j: int| 1 <= j < kept_segments(s, rooted).len() ==> #[trigger] kept_segments(s, rooted)[j] != "."@,
        kept_segments(s, rooted).len() > 0 && kept_segments(s, rooted)[0] == "."@ ==> !rooted,
        kept_segments(s, rooted).len() <= s.len(),
    decreases s.len(),
{
    if s.len() > 0 {
        let d = s.drop_last();
        assert forall|j: int| 0 <= j < d.len() implies no_slash(#[trigger] d[j]) by {
            assert(no_slash(s[j]));
        }
        lemma_kept_shape(d, rooted);
        assert(no_slash(s[s.len() - 1]));
    }
}

/// The components of joined components, none of which is `.` but the first, are these
/// components; and they are also the text of these components.
proof fn lemma_components_of_joined(rest: Seq<Seq<char>>)
    requires
        forall|j: int| 0 <= j < rest.len() ==> (#[trigger] rest[j]).len() > 0 && no_slash(rest[j]),
        forall|j: int| 1 <= j < rest.len() ==> #[trigger] rest[j] != "."@,
    ensures
        render_components(rest) == join_slash(rest),
        path_components(join_slash(rest)) == rest,
{
    reveal_strlit("/");
    reveal_strlit(".");
    if rest.len() == 0 {
        let e = join_slash(rest);
        assert(e =~= Seq::<char>::empty());
        assert(split_slash(e) =~= seq![Seq::<char>::empty()]);
        assert(seq![Seq::<char>::empty()].drop_last() =~= Seq::<Seq<char>>::empty());
        lemma_kept_single_empty(false);
        assert(!is_rooted(e));
        assert(path_components(e) =~= rest);
    } else {
        assert(rest[0].len() > 0 && no_slash(rest[0]));
        assert(rest[0][0] != '/');
        lemma_join_starts(rest);
        let t = join_slash(rest);
        assert(!is_rooted(t));
        assert(rest[0] != "/"@);
        assert forall|j: int| 0 <= j < rest.len() implies no_slash(#[trigger] rest[j]) by {
            assert(rest[j].len() > 0 && no_slash(rest[j]));
        }
        lemma_split_join(rest);
        assert forall|j: int| 0 <= j < rest.len() implies (#[trigger] rest[j]).len() > 0 by {
            assert(rest[j].len() > 0 && no_slash(rest[j]));
        }
        lemma_kept_all(rest, false);
        assert(path_components(t) =~= rest);
    }
}

/// The text of the components of a path from any position on has exactly these components.
proof fn lemma_components_of_rest(p: Seq<char>, k: int)
    requires 0 <= k <= path_components(p).len(),
    ensures ({
        let ca = path_components(p);
        path_components(render_components(ca.subrange(k, ca.len() as int))) == ca.subrange(k, ca.len() as int)
    }),
{
    reveal_strlit("/");
    reveal_strlit(".");
    let ca = path_components(p);
    let rooted = is_rooted(p);
    let kept = kept_segments(split_slash(p), rooted);
    lemma_split_no_slashes(p);
    lemma_kept_shape(split_slash(p), rooted);
    let rest = ca.subrange(k, ca.len() as int);
    if rooted {
        assert(ca =~= seq!["/"@] + kept);
        if k == 0 {
            assert(rest =~= ca);
            assert(ca[0] == "/"@);
            assert(ca.drop_first() =~= kept);
            let t = render_components(rest);
            assert(t == "/"@ + join_slash(kept));
            assert forall|j: int| 0 <= j < kept.len() implies normal_component(#[trigger] kept[j]) by {
                assert(kept[j].len() > 0 && no_slash(kept[j]));
                if j == 0 {
                    assert(kept[0] != "."@);
                } else {
                    assert(kept[j] != "."@);
                }
            }
            if kept.len() == 0 {
                let e = Seq::<char>::empty();
                assert(join_slash(kept) =~= e);
                assert(t =~= e + seq!['/'] + e);
                lemma_split_append(e, e);
                assert(split_slash(e) =~= seq![e]);
                let ss = seq![e, e];
                assert(split_slash(t) =~= ss);
                assert(ss.drop_last() =~= seq![e]);
                assert(seq![e].drop_last() =~= Seq::<Seq<char>>::empty());
                lemma_kept_single_empty(true);
                assert(kept_segments(ss, true) =~= Seq::<Seq<char>>::empty());
                assert(is_rooted(t));
                assert(path_components(t) =~= ca);
            } else {
                assert forall|j: int| 0 <= j < kept.len() implies no_slash(#[trigger] kept[j]) by {
                    assert(normal_component(kept[j]));
                }
                assert(t =~= Seq::<char>::empty() + seq!['/'] + join_slash(kept));
                lemma_split_append_joined(Seq::<char>::empty(), kept);
                assert(split_slash(Seq::<char>::empty()) =~= seq![Seq::<char>::empty()]);
                lemma_kept_after_empty(kept);
                assert(is_rooted(t));
                assert(path_components(t) =~= ca);
            }
        } else {
            assert(rest =~= kept.subrange(k - 1, kept.len() as int));
            assert forall|j: int| 0 <= j < rest.len() implies (#[trigger] rest[j]).len() > 0 && no_slash(rest[j]) by {
                assert(rest[j] == kept[k - 1 + j]);
            }
            assert forall|j: int| 1 <= j < rest.len() implies #[trigger] rest[j] != "."@ by {
                assert(rest[j] == kept[k - 1 + j]);
            }
            lemma_components_of_joined(rest);
        }
    } else {
        assert(ca =~= kept);
        assert forall|j: int| 0 <= j < rest.len() implies (#[trigger] rest[j]).len() > 0 && no_slash(rest[j]) by {
            assert(rest[j] == kept[k + j]);
        }
        assert forall|j: int| 1 <= j < rest.len() implies #[trigger] rest[j] != "."@ by {
            assert(rest[j] == kept[k + j]);
        }
        lemma_components_of_joined(rest);
    }
}

/// A location inside the project is where its relative path leads from the root: the components
/// of the root, then those of the relative path, are the components of the location.
pub proof fn law_relative_path_leads_back(path: Seq<char>, root: Seq<char>)
    requires spec_strip_prefix(path, root) is Some,
    ensures path_components(root) + path_components(spec_strip_prefix(path, root)->0) == path_components(path),
{
    let ca = path_components(path);
    let cr = path_components(root);
    lemma_components_of_rest(path, cr.len() as int);
    assert(cr + ca.subrange(cr.len() as int, ca.len() as int) =~= ca);
}

/// A relative path that never leaves the directory it is read from: it is not rooted, and none of
/// its components is `..`, `.` or the root.
pub open spec fn stays_inside(p: Seq<char>) -> bool {
    &&& !is_rooted(p)
    &&& forall|j: int| 0 <= j < path_components(p).len() ==>
        #[trigger] path_components(p)[j] != ".."@ && path_components(p)[j] != "."@ && path_components(p)[j] != "/"@
}

/// The components kept out of texts none of which is `.` nor `..` are none of these either.
proof fn lemma_kept_no_dots(s: Seq<Seq<char>>, rooted: bool)
    requires forall|j: int| 0 <= j < s.len() ==> #[trigger] s[j] != ".."@ && s[j] != "."@,
    ensures forall|j: int| 0 <= j < kept_segments(s, rooted).len() ==>
        #[trigger] kept_segments(s, rooted)[j] != ".."@ && kept_segments(s, rooted)[j] != "."@,
    decreases s.len(),
{
    if s.len() > 0 {
        let d = s.drop_last();
        assert forall|j: int| 0 <= j < d.len() implies #[trigger] d[j] != ".."@ && d[j] != "."@ by {
            assert(s[j] != ".."@ && s[j] != "."@);
        }
        lemma_kept_no_dots(d, rooted);
        assert(s[s.len() - 1] != ".."@ && s[s.len() - 1] != "."@);
        let kd = kept_segments(d, rooted);
        let ks = kept_segments(s, rooted);
        assert forall|j: int| 0 <= j < ks.len() implies #[trigger] ks[j] != ".."@ && ks[j] != "."@ by {
            if j < kd.len() {
                assert(ks[j] == kd[j]);
            } else {
                assert(ks[j] == s.last());
            }
        }
    }
}

/// The path of a location relative to a root that has components, read from a rooted path with no
/// `.` nor `..` element, stays inside the root.
pub proof fn lemma_relative_path_stays_inside(path: Seq<char>, root: Seq<char>)
    requires
        rooted_without_dots(path),
        spec_strip_prefix(path, root) is Some,
        path_components(root).len() > 0,
    ensures stays_inside(spec_strip_prefix(path, root)->0),
{
    reveal_strlit("/");
    let ca = path_components(path);
    let cr = path_components(root);
    let k = cr.len() as int;
    let kept = kept_segments(split_slash(path), true);
    lemma_split_no_slashes(path);
    lemma_kept_shape(split_slash(path), true);
    lemma_kept_no_dots(split_slash(path), true);
    assert(ca =~= seq!["/"@] + kept);
    let rest = ca.subrange(k, ca.len() as int);
    assert forall|j: int| 0 <= j < rest.len() implies #[trigger] rest[j] != ".."@ && rest[j] != "."@
        && rest[j] != "/"@ && no_slash(rest[j]) by {
        assert(rest[j] == kept[k - 1 + j]);
        assert(no_slash(kept[k - 1 + j]));
        if rest[j] == "/"@ {
            assert(rest[j][0] == '/');
        }
    }
    lemma_components_of_rest(path, k);
    let rel = render_components(rest);
    assert(path_components(rel) == rest);
    if is_rooted(rel) {
        assert(path_components(rel)[0] == "/"@);
        assert(rest.len() > 0);
        assert(rest[0] != "/"@);
    }
}

} // verus!
