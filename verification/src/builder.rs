//! Builder accumulating files under paths, finalized into a [`Pack`].

use vstd::prelude::*;
use crate::file::{File, FileView};
use crate::pack::{contains_path, entries_map, entries_seq_view, unique_paths, Pack};
use crate::pack_path::PackPath;

verus! {

/// A file together with the path it will be served under: the unit that is
/// added to a [`Builder`].
#[derive(Debug)]
pub struct FilePackPath {
    /// The file.
    pub file: File,
    /// The path inside the pack, matching the http request path.
    pub pack_path: PackPath,
}

impl FilePackPath {
    /// View of the entry as a path/file pair.
    pub open spec fn entry_view(self) -> (Seq<char>, FileView) {
        (self.pack_path@, self.file@)
    }
}

/// View of a sequence of [`FilePackPath`] items.
pub open spec fn file_pack_paths_view(v: Seq<FilePackPath>) -> Seq<(Seq<char>, FileView)> {
    Seq::new(v.len(), |i: int| v[i].entry_view())
}

/// Error of adding a file to a [`Builder`].
#[derive(Clone, Copy, PartialEq, Eq, Structural, Debug)]
pub enum BuilderError {
    /// A file already exists under the given path; nothing is overwritten.
    DuplicatePath,
}

/// What a sequence of adds leaves behind: entries are added in order until
/// the first duplicate path, which stops the sequence with an error and
/// keeps the entries added before it.
pub open spec fn spec_add_many(
    s: Seq<(Seq<char>, FileView)>,
    items: Seq<(Seq<char>, FileView)>,
) -> (Seq<(Seq<char>, FileView)>, Result<(), BuilderError>)
    decreases items.len(),
{
    if items.len() == 0 {
        (s, Ok(()))
    } else if contains_path(s, items[0].0) {
        (s, Err(BuilderError::DuplicatePath))
    } else {
        spec_add_many(s.push(items[0]), items.skip(1))
    }
}

/// Builder for a [`Pack`]: accumulates files under their paths, rejecting
/// duplicates, and is consumed by [`Builder::finalize`].
#[derive(Debug)]
pub struct Builder {
    entries: Vec<(PackPath, File)>,
}

impl Builder {
    /// The entries accumulated so far, in insertion order.
    pub closed spec fn entries_view(self) -> Seq<(Seq<char>, FileView)> {
        entries_seq_view(self.entries@)
    }

    /// The builder never holds two entries under one path.
    pub open spec fn wf(self) -> bool {
        unique_paths(self.entries_view())
    }

    /// Creates an empty builder.
    pub fn new() -> (r: Self)
        ensures
            r.wf(),
            r.entries_view() == Seq::<(Seq<char>, FileView)>::empty(),
    {
        let entries = Vec::<(PackPath, File)>::new();
        proof {
            assert(entries_seq_view(entries@) =~= Seq::<(Seq<char>, FileView)>::empty());
        }
        Self { entries }
    }

    /// Adds one file under its path. Fails with
    /// [`BuilderError::DuplicatePath`], leaving the builder unchanged, when
    /// a file already sits under that path; there is no implicit overwrite.
    pub fn file_pack_path_add(&mut self, file_pack_path: FilePackPath) -> (r: Result<
        (),
        BuilderError,
    >)
        requires
            old(self).wf(),
        ensures
            final(self).wf(),
            match r {
                Ok(()) => !contains_path(old(self).entries_view(), file_pack_path.pack_path@)
                    && final(self).entries_view() == old(self).entries_view().push(
                    file_pack_path.entry_view(),
                ),
                Err(BuilderError::DuplicatePath) => contains_path(
                    old(self).entries_view(),
                    file_pack_path.pack_path@,
                ) && final(self).entries_view() == old(self).entries_view(),
            },
    {
        let ghost s = self.entries_view();
        let mut i: usize = 0;
        while i < self.entries.len()
            invariant
                i <= self.entries@.len(),
                *self == *old(self),
                old(self).wf(),
                s == self.entries_view(),
                s.len() == self.entries@.len(),
                forall|j: int| 0 <= j < i ==> s[j].0 != file_pack_path.pack_path@,
            decreases self.entries@.len() - i,
        {
            let entry = &self.entries[i];
            if crate::text::str_eq_chars(entry.0.as_str(), file_pack_path.pack_path.as_str()) {
                proof {
                    assert(s[i as int].0 == file_pack_path.pack_path@);
                    assert(contains_path(s, file_pack_path.pack_path@));
                }
                return Err(BuilderError::DuplicatePath);
            }
            i = i + 1;
        }
        self.entries.push((file_pack_path.pack_path, file_pack_path.file));
        proof {
            assert(final(self).entries_view() =~= s.push(file_pack_path.entry_view()));
        }
        Ok(())
    }

    /// Adds a collection of files in order. Fails at the first duplicate
    /// path; entries added before the failure stay in the builder.
    pub fn file_pack_paths_add(&mut self, file_pack_paths: Vec<FilePackPath>) -> (r: Result<
        (),
        BuilderError,
    >)
        requires
            old(self).wf(),
        ensures
            final(self).wf(),
            (final(self).entries_view(), r) == spec_add_many(
                old(self).entries_view(),
                file_pack_paths_view(file_pack_paths@),
            ),
    {
        let ghost items = file_pack_paths_view(file_pack_paths@);
        let mut rest = file_pack_paths;
        proof {
            assert(items.skip(0) =~= items);
        }
        while rest.len() > 0
            invariant
                self.wf(),
                items == file_pack_paths_view(file_pack_paths@),
                file_pack_paths_view(rest@) =~= items.skip(items.len() - rest@.len()),
                rest@.len() <= items.len(),
                spec_add_many(old(self).entries_view(), items) == spec_add_many(
                    self.entries_view(),
                    items.skip(items.len() - rest@.len()),
                ),
            decreases rest@.len(),
        {
            let ghost k = items.len() - rest@.len();
            let ghost prev = rest@;
            let ghost before = self.entries_view();
            let entry = rest.remove(0);
            proof {
                assert(file_pack_paths_view(prev)[0] == entry.entry_view());
                assert(items.skip(k)[0] == entry.entry_view());
                assert forall|n: int| 0 <= n < rest@.len() implies file_pack_paths_view(rest@)[n]
                    == items.skip(k + 1)[n] by {
                    assert(rest@[n] == prev[n + 1]);
                    assert(file_pack_paths_view(prev)[n + 1] == items.skip(k)[n + 1]);
                }
                assert(file_pack_paths_view(rest@) =~= items.skip(k + 1));
            }
            match self.file_pack_path_add(entry) {
                Ok(()) => {}
                Err(e) => {
                    proof {
                        assert(items.skip(k)[0].0 == entry.pack_path@);
                        assert(contains_path(before, items.skip(k)[0].0));
                        assert(spec_add_many(before, items.skip(k)) == (
                            before,
                            Err::<(), BuilderError>(BuilderError::DuplicatePath),
                        ));
                    }
                    return Err(e);
                }
            }
            proof {
                assert(items.skip(k).skip(1) =~= items.skip(k + 1));
            }
        }
        proof {
            let k = items.len() - rest@.len();
            assert(items.skip(k).len() == 0);
            assert(spec_add_many(self.entries_view(), items.skip(k)) == (
                self.entries_view(),
                Ok::<(), BuilderError>(()),
            ));
        }
        Ok(())
    }

    /// Consumes the builder and yields the finished, immutable pack.
    pub fn finalize(self) -> (r: Pack)
        requires
            self.wf(),
        ensures
            r.entries_view() == self.entries_view(),
    {
        Pack::from_entries(self.entries)
    }
}

/// After an entry for a path is added, a second add under the same path
/// fails, and the finished pack still maps the path to the first file.
pub proof fn lemma_duplicate_path_rejected(
    s: Seq<(Seq<char>, FileView)>,
    path: Seq<char>,
    first: FileView,
)
    requires
        unique_paths(s),
        !contains_path(s, path),
    ensures
        contains_path(s.push((path, first)), path),
        unique_paths(s.push((path, first))),
        entries_map(s.push((path, first)))[path] == first,
{
    let s1 = s.push((path, first));
    assert(s1[s.len() as int].0 == path);
    assert forall|i: int, j: int| 0 <= i < j < s1.len() implies s1[i].0 != s1[j].0 by {
        if j < s.len() {
            assert(s1[i] == s[i] && s1[j] == s[j]);
        } else {
            assert(s1[i] == s[i]);
            assert(s1[j].0 == path);
        }
    }
    crate::pack::lemma_entries_map_value(s1, s.len() as int);
}

} // verus!
