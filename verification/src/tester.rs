use vstd::prelude::*;

verus! {

/// Holds the root directory of the tested workspace.
///
/// The root is kept as the text of the path: the local validator that a
/// test starts is launched from this directory.
pub struct Tester {
    root: String,
}

impl View for Tester {
    type V = Seq<char>;

    closed spec fn view(&self) -> Seq<char> {
        self.root@
    }
}

impl Tester {
    /// A tester rooted two directories above the test crate.
    pub fn new() -> (t: Self)
        ensures
            t@ == "../../"@,
    {
        Tester { root: String::from_str("../../") }
    }

    /// A tester rooted at `root`.
    pub fn with_root(root: &str) -> (t: Self)
        ensures
            t@ == root@,
    {
        Tester { root: String::from_str(root) }
    }

    /// The root directory as text.
    pub fn root(&self) -> (r: &str)
        ensures
            r@ == self@,
    {
        self.root.as_str()
    }
}

impl Default for Tester {
    fn default() -> (t: Self)
        ensures
            t@ == Seq::<char>::empty(),
    {
        Tester { root: String::new() }
    }
}

} // verus!
