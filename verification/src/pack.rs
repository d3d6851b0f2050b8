//! The pack: an immutable mapping from path to file.

use vstd::prelude::*;
use crate::file::{File, FileView};
use crate::pack_path::PackPath;
use crate::text::str_eq_chars;

verus! {

/// View of a sequence of owned pack entries.
pub open spec fn entries_seq_view(v: Seq<(PackPath, File)>) -> Seq<(Seq<char>, FileView)> {
    Seq::new(v.len(), |i: int| (v[i].0@, v[i].1@))
}

/// Whether a path occurs among the entries.
pub open spec fn contains_path(s: Seq<(Seq<char>, FileView)>, path: Seq<char>) -> bool {
    exists|i: int| 0 <= i < s.len() && s[i].0 == path
}

/// Whether all entry paths are pairwise distinct.
pub open spec fn unique_paths(s: Seq<(Seq<char>, FileView)>) -> bool {
    forall|i: int, j: int| 0 <= i < j < s.len() ==> s[i].0 != s[j].0
}

/// The mapping from path to file described by a sequence of entries; later
/// entries win, which is irrelevant under [`unique_paths`].
pub open spec fn entries_map(s: Seq<(Seq<char>, FileView)>) -> Map<Seq<char>, FileView>
    decreases s.len(),
{
    if s.len() == 0 {
        Map::empty()
    } else {
        entries_map(s.drop_last()).insert(s.last().0, s.last().1)
    }
}

/// A path is in the map exactly when some entry carries it.
pub proof fn lemma_entries_map_domain(s: Seq<(Seq<char>, FileView)>, path: Seq<char>)
    ensures
        entries_map(s).contains_key(path) == contains_path(s, path),
    decreases s.len(),
{
    if s.len() > 0 {
        lemma_entries_map_domain(s.drop_last(), path);
        if contains_path(s.drop_last(), path) {
            assert(contains_path(s, path)) by {
                let i = choose|i: int| 0 <= i < s.drop_last().len() && s.drop_last()[i].0 == path;
                assert(s[i].0 == path);
            }
        }
        if contains_path(s, path) && s.last().0 != path {
            let i = choose|i: int| 0 <= i < s.len() && s[i].0 == path;
            assert(s.drop_last()[i].0 == path);
        }
    }
}

/// Under unique paths, the map sends each entry's path to its file.
pub proof fn lemma_entries_map_value(s: Seq<(Seq<char>, FileView)>, i: int)
    requires
        unique_paths(s),
        0 <= i < s.len(),
    ensures
        entries_map(s).contains_key(s[i].0),
        entries_map(s)[s[i].0] == s[i].1,
    decreases s.len(),
{
    lemma_entries_map_domain(s, s[i].0);
    if i < s.len() - 1 {
        assert(s[i].0 != s.last().0);
        assert(s.drop_last()[i] == s[i]);
        lemma_entries_map_value(s.drop_last(), i);
    }
}

/// A pack: a group of files distinguished by their paths.
///
/// A pack is built once with [`crate::pack::Builder`], possibly serialized
/// with [`crate::serialize::store_memory`] and loaded back with
/// [`crate::loader::load`]; afterwards it is immutable, and any number of
/// concurrent readers may look files up in it.
#[derive(Debug)]
pub struct Pack {
    entries: Vec<(PackPath, File)>,
}

impl View for Pack {
    type V = Map<Seq<char>, FileView>;

    open spec fn view(&self) -> Map<Seq<char>, FileView> {
        entries_map(self.entries_view())
    }
}

impl Pack {
    /// The entries of the pack, in their stored order.
    pub closed spec fn entries_view(self) -> Seq<(Seq<char>, FileView)> {
        entries_seq_view(self.entries@)
    }

    /// Paths of a pack's entries are pairwise distinct.
    #[verifier::type_invariant]
    pub open spec fn type_inv(self) -> bool {
        unique_paths(self.entries_view())
    }

    /// Wraps entries whose paths are pairwise distinct as a pack.
    pub(crate) fn from_entries(entries: Vec<(PackPath, File)>) -> (r: Pack)
        requires
            unique_paths(entries_seq_view(entries@)),
        ensures
            r.entries_view() == entries_seq_view(entries@),
    {
        Pack { entries }
    }

    /// How many files the pack holds.
    pub fn len(&self) -> (r: usize)
        ensures
            r == self.entries_view().len(),
    {
        self.entries.len()
    }

    /// The entries of the pack, for crate-internal traversal.
    pub(crate) fn raw_entries(&self) -> (r: &Vec<(PackPath, File)>)
        ensures
            entries_seq_view(r@) == self.entries_view(),
    {
        &self.entries
    }

    /// Looks the file up under the given request path. The path is used
    /// raw: no normalization is performed here.
    pub fn get_file_by_path(&self, path: &str) -> (r: Option<&File>)
        ensures
            match r {
                Some(f) => self@.contains_key(path@) && f@ == self@[path@],
                None => !self@.contains_key(path@),
            },
    {
        proof {
            use_type_invariant(self);
        }
        let ghost s = self.entries_view();
        let mut i: usize = 0;
        while i < self.entries.len()
            invariant
                i <= self.entries@.len(),
                s == self.entries_view(),
                unique_paths(s),
                s.len() == self.entries@.len(),
                forall|j: int| 0 <= j < i ==> s[j].0 != path@,
            decreases self.entries@.len() - i,
        {
            let entry = &self.entries[i];
            if str_eq_chars(entry.0.as_str(), path) {
                proof {
                    lemma_entries_map_value(s, i as int);
                }
                return Some(&entry.1);
            }
            i = i + 1;
        }
        proof {
            lemma_entries_map_domain(s, path@);
        }
        None
    }
}

} // verus!
