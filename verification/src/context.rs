//! The position of the compiler within a schema document.

use vstd::prelude::*;
use vstd::string::StringExecFns;

verus! {

/// The segments joined by `/`.
pub open spec fn joined(segments: Seq<Seq<char>>) -> Seq<char>
    decreases segments.len(),
{
    if segments.len() == 0 {
        Seq::empty()
    } else if segments.len() == 1 {
        segments[0]
    } else {
        joined(segments.drop_last()) + seq!['/'] + segments.last()
    }
}

/// The characters of each string.
pub open spec fn texts(strings: Seq<String>) -> Seq<Seq<char>> {
    Seq::new(strings.len(), |i: int| strings[i]@)
}

/// Where the compiler stands: the path from the root of the document being
/// compiled down to the current keyword, and which document that is.
pub struct WalkContext {
    pub path: Vec<String>,
    pub scope_id: usize,
}

impl WalkContext {
    /// The path, segment by segment.
    pub open spec fn segments(&self) -> Seq<Seq<char>> {
        texts(self.path@)
    }

    /// The context at the root of the document `scope_id`.
    pub fn root(scope_id: usize) -> (context: WalkContext)
        ensures
            context.segments() == Seq::<Seq<char>>::empty(),
            context.scope_id == scope_id,
    {
        let context = WalkContext { path: Vec::new(), scope_id };
        context
    }

    /// The context one step further down. `self` stays as it is.
    pub fn descend(&self, segment: &str) -> (child: WalkContext)
        ensures
            child.segments() == self.segments().push(segment@),
            child.scope_id == self.scope_id,
    {
        WalkContext { path: extended(&self.path, segment), scope_id: self.scope_id }
    }

    /// The path as one string, its segments joined by `/`.
    pub fn path_string(&self) -> (path: String)
        ensures
            path@ == joined(self.segments()),
    {
        join(&self.path)
    }
}

/// A copy of `path` with `segment` behind it.
pub(crate) fn extended(path: &Vec<String>, segment: &str) -> (longer: Vec<String>)
    ensures
        texts(longer@) == texts(path@).push(segment@),
{
    let mut longer: Vec<String> = Vec::new();
    let mut i: usize = 0;
    while i < path.len()
        invariant
            i <= path.len(),
            longer@.len() == i,
            forall|k: int| 0 <= k < i ==> longer@[k]@ == path@[k]@,
        decreases path.len() - i,
    {
        longer.push(path[i].clone());
        i = i + 1;
    }
    longer.push(segment.to_owned());
    longer
}

/// The segments of `path` joined by `/`.
pub(crate) fn join(path: &Vec<String>) -> (text: String)
    ensures
        text@ == joined(texts(path@)),
{
    let ghost segments = texts(path@);
    let mut text = String::new();
    let mut i: usize = 0;
    while i < path.len()
        invariant
            i <= path.len(),
            segments == texts(path@),
            text@ == joined(segments.take(i as int)),
        decreases path.len() - i,
    {
        let ghost before = segments.take(i as int);
        let ghost after = segments.take(i + 1);
        proof {
            assert(after.drop_last() =~= before);
            reveal_strlit("/");
        }
        if i > 0 {
            text.append("/");
        }
        text.append(path[i].as_str());
        i = i + 1;
    }
    assert(segments.take(i as int) =~= segments);
    text
}

} // verus!
