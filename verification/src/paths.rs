//! Request paths exercised by the benchmark modes.

use vstd::prelude::*;
use vstd::string::*;

verus! {

/// Defines a test path.
#[derive(Debug, PartialEq, Eq, Hash)]
pub struct TestPath {
    /// The path to test, not including the domain.
    pub path: String,
    /// The name of this path, for use in metrics.
    pub name: String,
}

/// The texts of a [`TestPath`].
pub struct PathText {
    pub path: Seq<char>,
    pub name: Seq<char>,
}

impl View for TestPath {
    type V = PathText;

    open spec fn view(&self) -> PathText {
        PathText { path: self.path@, name: self.name@ }
    }
}

impl TestPath {
    /// Builds a path entry that owns copies of `path` and `name`.
    pub fn new(path: &str, name: &str) -> (result: TestPath)
        ensures
            result@ == (PathText { path: path@, name: name@ }),
    {
        TestPath { path: path.to_owned(), name: name.to_owned() }
    }
}

/// The texts of a list of paths, in order.
pub open spec fn path_texts(paths: Seq<TestPath>) -> Seq<PathText> {
    Seq::new(paths.len(), |i: int| paths[i]@)
}

/// A path entry with the given texts.
pub open spec fn entry(path: Seq<char>, name: Seq<char>) -> PathText {
    PathText { path, name }
}

/// The greeting path with a name of `n` letters `a`.
pub open spec fn long_hello_path(n: nat) -> Seq<char> {
    "/strings/hello?name="@ + Seq::new(n, |i: int| 'a')
}

/// Builds the greeting path with a name of `n` letters `a`.
pub fn long_hello(n: usize) -> (path: String)
    ensures
        path@ == long_hello_path(n as nat),
{
    let mut path = String::new();
    path.append("/strings/hello?name=");
    let ghost head = path@;
    let mut k: usize = 0;
    while k < n
        invariant
            k <= n,
            head == "/strings/hello?name="@,
            path@ == head + Seq::new(k as nat, |i: int| 'a'),
        decreases n - k,
    {
        path.push('a');
        assert(path@ =~= head + Seq::new((k + 1) as nat, |i: int| 'a'));
        k += 1;
    }
    path
}

/// Appends an entry with the given texts to a list of paths.
pub(crate) fn push_path(paths: &mut Vec<TestPath>, path: &str, name: &str)
    ensures
        path_texts(final(paths)@) == path_texts(old(paths)@).push(entry(path@, name@)),
{
    paths.push(TestPath::new(path, name));
    assert(path_texts(paths@) =~= path_texts(old(paths)@).push(entry(path@, name@)));
}

} // verus!
