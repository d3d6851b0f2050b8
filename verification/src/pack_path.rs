//! Path of a file inside a pack, matching the http request path.

use vstd::prelude::*;
use vstd::string::StringExecFns;

verus! {

/// Path under which a file is stored in a pack. It corresponds to the http
/// request path (uri) directly.
///
/// Producing a key is a pure wrapping operation: no normalization is
/// performed here. Building well-formed paths (leading `/`, no `.` or `..`
/// segments) is the responsibility of the component that derives paths from
/// a filesystem tree.
#[derive(PartialEq, Eq, Hash, Debug)]
pub struct PackPath {
    inner: String,
}

impl View for PackPath {
    type V = Seq<char>;

    closed spec fn view(&self) -> Seq<char> {
        self.inner@
    }
}

impl PackPath {
    /// Wraps a string as a pack path.
    pub fn from_string(inner: String) -> (r: Self)
        ensures
            r@ == inner@,
    {
        Self { inner }
    }

    /// The path as a string slice.
    pub fn as_str(&self) -> (r: &str)
        ensures
            r@ == self@,
    {
        self.inner.as_str()
    }

    /// Clones the path.
    pub fn clone_path(&self) -> (r: Self)
        ensures
            r@ == self@,
    {
        Self { inner: String::from_str(self.inner.as_str()) }
    }
}

/// View of a list of owned path components.
pub open spec fn components_view(v: Seq<String>) -> Seq<Seq<char>> {
    Seq::new(v.len(), |i: int| v[i]@)
}

/// The pack path a list of components joins to: a `/` before each
/// component, so `["dir", "file.html"]` becomes `/dir/file.html` and an
/// empty list becomes the empty path.
pub open spec fn spec_joined_path(components: Seq<Seq<char>>) -> Seq<char>
    decreases components.len(),
{
    if components.len() == 0 {
        Seq::empty()
    } else {
        seq!['/'] + components[0] + spec_joined_path(components.skip(1))
    }
}

/// Appending one component appends a slash and the component.
proof fn lemma_joined_path_push(components: Seq<Seq<char>>, c: Seq<char>)
    ensures
        spec_joined_path(components.push(c)) == spec_joined_path(components) + seq!['/'] + c,
    decreases components.len(),
{
    if components.len() == 0 {
        assert(components.push(c)[0] == c);
        assert(components.push(c).skip(1) =~= Seq::<Seq<char>>::empty());
        assert(spec_joined_path(Seq::<Seq<char>>::empty()) == Seq::<char>::empty());
        assert(spec_joined_path(components.push(c)) =~= spec_joined_path(components) + seq!['/']
            + c);
    } else {
        assert(components.push(c)[0] == components[0]);
        assert(components.push(c).skip(1) =~= components.skip(1).push(c));
        lemma_joined_path_push(components.skip(1), c);
        assert(spec_joined_path(components.push(c)) =~= spec_joined_path(components) + seq!['/']
            + c);
    }
}

/// Creates the pack path for a file whose path, relative to the packed
/// base directory, has the given components: `/`-rooted, `/`-separated.
pub fn from_components(components: &Vec<String>) -> (r: PackPath)
    ensures
        r@ == spec_joined_path(components_view(components@)),
{
    let ghost cv = components_view(components@);
    let mut joined = String::new();
    proof {
        assert(cv.take(0) =~= Seq::<Seq<char>>::empty());
        assert(joined@ =~= spec_joined_path(cv.take(0)));
    }
    let mut i: usize = 0;
    while i < components.len()
        invariant
            i <= components@.len(),
            cv == components_view(components@),
            cv.len() == components@.len(),
            joined@ == spec_joined_path(cv.take(i as int)),
        decreases components@.len() - i,
    {
        joined.append("/");
        joined.append(components[i].as_str());
        proof {
            reveal_strlit("/");
            assert("/"@ =~= seq!['/']);
            lemma_joined_path_push(cv.take(i as int), cv[i as int]);
            assert(cv.take(i as int).push(cv[i as int]) =~= cv.take(i as int + 1));
            assert(joined@ =~= spec_joined_path(cv.take(i as int + 1)));
        }
        i = i + 1;
    }
    proof {
        assert(cv.take(cv.len() as int) =~= cv);
    }
    PackPath::from_string(joined)
}

} // verus!
