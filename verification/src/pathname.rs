//! Paths as plain values.
//!
//! The engine never touches the filesystem, so a path is modelled as a list
//! of components together with an absolute-or-relative flag.  The view of a
//! path is the pair of that flag and the sequence of component character
//! sequences, which is what every contract in the crate speaks about.

use vstd::prelude::*;

verus! {

/// A filesystem path held as plain components.
///
/// `/test/source1` is `absolute == true`, `parts == ["test", "source1"]`;
/// a relative pattern such as `temp/x.log` is `absolute == false`,
/// `parts == ["temp", "x.log"]`.  The empty relative path stands for "no
/// path", as a `Delete` action's source does.
#[derive(Debug)]
pub struct BackupPath {
    pub absolute: bool,
    pub parts: Vec<String>,
}

impl View for BackupPath {
    type V = (bool, Seq<Seq<char>>);

    open spec fn view(&self) -> (bool, Seq<Seq<char>>) {
        (self.absolute, self.parts.deep_view())
    }
}

impl DeepView for BackupPath {
    type V = (bool, Seq<Seq<char>>);

    open spec fn deep_view(&self) -> (bool, Seq<Seq<char>>) {
        self@
    }
}

impl Clone for BackupPath {
    /// A clone holds the same flag and the same components.
    fn clone(&self) -> (r: Self)
        ensures
            r@ == self@,
    {
        BackupPath { absolute: self.absolute, parts: clone_parts(&self.parts) }
    }
}

impl BackupPath {
    /// The empty relative path.
    pub fn empty() -> (r: BackupPath)
        ensures
            r@ == (false, Seq::<Seq<char>>::empty()),
    {
        let r = BackupPath { absolute: false, parts: Vec::new() };
        assert(r.parts.deep_view() =~= Seq::<Seq<char>>::empty());
        r
    }

    /// Builds a path from its components.
    pub fn from_parts(absolute: bool, parts: Vec<String>) -> (r: BackupPath)
        ensures
            r@ == (absolute, parts.deep_view()),
    {
        BackupPath { absolute, parts }
    }

    /// The last component, if any: the file or directory name the path ends in.
    pub fn base_name(&self) -> (r: Option<&String>)
        ensures
            match r {
                Some(s) => self.parts.deep_view().len() > 0 && s.deep_view()
                    == self.parts.deep_view().last(),
                None => self.parts.deep_view().len() == 0,
            },
    {
        if self.parts.len() == 0 {
            None
        } else {
            let s = &self.parts[self.parts.len() - 1];
            assert(s.deep_view() == self.parts.deep_view().last());
            Some(s)
        }
    }
}

/// Copies a component list.
pub fn clone_parts(parts: &Vec<String>) -> (r: Vec<String>)
    ensures
        r.deep_view() == parts.deep_view(),
{
    let mut r: Vec<String> = Vec::new();
    let mut i: usize = 0;
    while i < parts.len()
        invariant
            i <= parts.len(),
            r.deep_view() =~= parts.deep_view().take(i as int),
        decreases parts.len() - i,
    {
        let ghost prev = r.deep_view();
        r.push(parts[i].clone());
        proof {
            assert(r.deep_view() =~= prev.push(parts.deep_view()[i as int]));
            assert(parts.deep_view().take(i + 1)
                =~= parts.deep_view().take(i as int).push(parts.deep_view()[i as int]));
        }
        i = i + 1;
    }
    assert(parts.deep_view().take(parts.len() as int) =~= parts.deep_view());
    r
}

/// Appends copies of `tail`'s components to `head`'s, giving the components
/// of `head` followed by `tail`.
pub fn concat_parts(head: &Vec<String>, tail: &Vec<String>) -> (r: Vec<String>)
    ensures
        r.deep_view() == head.deep_view() + tail.deep_view(),
{
    let mut r = clone_parts(head);
    let mut i: usize = 0;
    while i < tail.len()
        invariant
            i <= tail.len(),
            r.deep_view() =~= head.deep_view() + tail.deep_view().take(i as int),
        decreases tail.len() - i,
    {
        let ghost prev = r.deep_view();
        r.push(tail[i].clone());
        proof {
            assert(r.deep_view() =~= prev.push(tail.deep_view()[i as int]));
            assert(head.deep_view() + tail.deep_view().take(i + 1)
                =~= (head.deep_view() + tail.deep_view().take(i as int)).push(
                tail.deep_view()[i as int]));
        }
        i = i + 1;
    }
    assert(head.deep_view() + tail.deep_view().take(tail.len() as int)
        =~= head.deep_view() + tail.deep_view());
    r
}

/// Component-wise equality of two component lists.
pub fn parts_eq(a: &Vec<String>, b: &Vec<String>) -> (r: bool)
    ensures
        r == (a.deep_view() == b.deep_view()),
{
    if a.len() != b.len() {
        assert(a.deep_view().len() != b.deep_view().len());
        return false;
    }
    let mut i: usize = 0;
    while i < a.len()
        invariant
            i <= a.len(),
            a.len() == b.len(),
            forall|j: int| 0 <= j < i ==> a.deep_view()[j] == b.deep_view()[j],
        decreases a.len() - i,
    {
        if !a[i].eq(&b[i]) {
            assert(a.deep_view()[i as int] != b.deep_view()[i as int]);
            return false;
        }
        i = i + 1;
    }
    assert(a.deep_view() =~= b.deep_view());
    true
}

/// Does `pat` stand at the front of `rel`?  An ignore pattern matches a
/// path exactly when the pattern's components are a prefix of the path's.
pub open spec fn is_prefix_of(pat: Seq<Seq<char>>, rel: Seq<Seq<char>>) -> bool {
    pat.len() <= rel.len() && pat == rel.take(pat.len() as int)
}

/// Prefix test on component lists.
pub fn parts_prefix_of(pat: &Vec<String>, rel: &Vec<String>) -> (r: bool)
    ensures
        r == is_prefix_of(pat.deep_view(), rel.deep_view()),
{
    if pat.len() > rel.len() {
        return false;
    }
    let mut i: usize = 0;
    while i < pat.len()
        invariant
            i <= pat.len(),
            pat.len() <= rel.len(),
            forall|j: int| 0 <= j < i ==> pat.deep_view()[j] == rel.deep_view()[j],
        decreases pat.len() - i,
    {
        if !pat[i].eq(&rel[i]) {
            assert(pat.deep_view()[i as int] != rel.deep_view()[i as int]);
            assert(!is_prefix_of(pat.deep_view(), rel.deep_view())) by {
                if is_prefix_of(pat.deep_view(), rel.deep_view()) {
                    assert(pat.deep_view()[i as int]
                        == rel.deep_view().take(pat.deep_view().len() as int)[i as int]);
                }
            }
            return false;
        }
        i = i + 1;
    }
    assert(pat.deep_view() =~= rel.deep_view().take(pat.deep_view().len() as int));
    true
}

} // verus!
