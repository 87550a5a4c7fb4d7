//! File paths as the library speaks of them: a starting path and what is joined on to it.
//!
//! How two path parts are joined depends on the platform, so the program around the library does
//! the joining.

use crate::text::{copy_texts, texts};
use vstd::prelude::*;

verus! {

/// `base` with each of `parts` joined on to it, from the first to the last.
#[derive(Debug)]
pub struct JoinedPath {
    pub base: String,
    pub parts: Vec<String>,
}

/// [`JoinedPath`] with its texts as character sequences.
#[verifier::ext_equal]
pub struct PathView {
    pub base: Seq<char>,
    pub parts: Seq<Seq<char>>,
}

impl PathView {
    /// This path with one more part joined on.
    pub open spec fn join(self, part: Seq<char>) -> PathView {
        PathView { base: self.base, parts: self.parts.push(part) }
    }
}

/// The path that a text alone stands for.
pub open spec fn path_at(base: Seq<char>) -> PathView {
    PathView { base, parts: Seq::empty() }
}

impl View for JoinedPath {
    type V = PathView;

    open spec fn view(&self) -> PathView {
        PathView { base: self.base@, parts: texts(self.parts@) }
    }
}

/// The views of a list of paths.
pub open spec fn path_views(v: Seq<JoinedPath>) -> Seq<PathView> {
    v.map_values(|p: JoinedPath| p@)
}

/// Lists of texts with the same characters hold the same texts, one by one.
proof fn lemma_same_texts(a: Seq<String>, b: Seq<String>)
    requires
        texts(a) == texts(b),
    ensures
        a.len() == b.len(),
        forall|i: int| 0 <= i < a.len() ==> (#[trigger] a[i])@ == b[i]@,
{
    assert(texts(a).len() == a.len());
    assert(texts(b).len() == b.len());
    assert forall|i: int| 0 <= i < a.len() implies (#[trigger] a[i])@ == b[i]@ by {
        assert(texts(a)[i] == texts(b)[i]);
    }
}

impl JoinedPath {
    /// The path that a text alone stands for.
    pub fn at(base: &str) -> (r: JoinedPath)
        ensures
            r@ == path_at(base@),
            r.base@ == base@,
            r.parts@.len() == 0,
    {
        let r = JoinedPath { base: base.to_owned(), parts: Vec::new() };
        assert(r@.parts =~= Seq::<Seq<char>>::empty());
        r
    }

    pub fn copy(&self) -> (r: JoinedPath)
        ensures
            r@ == self@,
            r.base@ == self.base@,
            r.parts@.len() == self.parts@.len(),
            forall|i: int|
                0 <= i < self.parts@.len() ==> (#[trigger] r.parts@[i])@ == self.parts@[i]@,
    {
        let r = JoinedPath { base: self.base.clone(), parts: copy_texts(&self.parts) };
        proof {
            lemma_same_texts(r.parts@, self.parts@);
        }
        r
    }

    /// This path with one more part joined on.
    pub fn join(&self, part: &str) -> (r: JoinedPath)
        ensures
            r@ == self@.join(part@),
            r.base@ == self.base@,
            r.parts@.len() == self.parts@.len() + 1,
            r.parts@.last()@ == part@,
            forall|i: int|
                0 <= i < self.parts@.len() ==> (#[trigger] r.parts@[i])@ == self.parts@[i]@,
    {
        let mut r = self.copy();
        let ghost before = texts(r.parts@);
        let p = part.to_owned();
        r.parts.push(p);
        assert(texts(r.parts@) =~= before.push(part@));
        r
    }
}

/// A copy of a list of paths.
pub fn copy_paths(v: &Vec<JoinedPath>) -> (r: Vec<JoinedPath>)
    ensures
        path_views(r@) == path_views(v@),
        r@.len() == v@.len(),
        forall|i: int| 0 <= i < v@.len() ==> (#[trigger] r@[i])@ == v@[i]@,
{
    let mut out: Vec<JoinedPath> = Vec::new();
    let mut i: usize = 0;
    while i < v.len()
        invariant
            i <= v@.len(),
            path_views(out@) == path_views(v@).take(i as int),
        decreases v@.len() - i,
    {
        let ghost before = path_views(out@);
        let p = v[i].copy();
        out.push(p);
        assert(path_views(out@) =~= before.push(p@));
        assert(path_views(v@).take(i + 1) =~= path_views(v@).take(i as int).push(v@[i as int]@));
        i += 1;
    }
    assert(path_views(v@).take(v@.len() as int) =~= path_views(v@));
    assert(path_views(out@).len() == out@.len());
    assert forall|j: int| 0 <= j < v@.len() implies (#[trigger] out@[j])@ == v@[j]@ by {
        assert(path_views(out@)[j] == path_views(v@)[j]);
    }
    out
}

/// A text alone stands for a path without parts, and joining puts one more part behind those that
/// are there.
pub proof fn law_joining(p: PathView, base: Seq<char>, part: Seq<char>)
    ensures
        path_at(base).base == base,
        path_at(base).parts.len() == 0,
        p.join(part).base == p.base,
        p.join(part).parts.len() == p.parts.len() + 1,
        p.join(part).parts.last() == part,
        p.join(part).parts.drop_last() == p.parts,
{
    assert(p.join(part).parts.drop_last() =~= p.parts);
}

/// The views of paths leave nothing out.
pub proof fn law_path_views(p: JoinedPath, v: Seq<JoinedPath>)
    ensures
        p@.base == p.base@,
        p@.parts.len() == p.parts@.len(),
        forall|i: int| 0 <= i < p.parts@.len() ==> #[trigger] p@.parts[i] == p.parts@[i]@,
        path_views(v).len() == v.len(),
        forall|i: int| 0 <= i < v.len() ==> #[trigger] path_views(v)[i] == v[i]@,
{
}

} // verus!
