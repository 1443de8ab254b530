//! A model of the directory the log files live in: a map from path to
//! contents, advanced by applying [`FileOp`] effects.  A host applies the
//! same effects to the real file system; tests apply them here and read
//! the files back.

use vstd::prelude::*;
use vstd::string::StringExecFns;
use crate::writer::{spec_op_path, spec_op_text, spec_ops_text, FileOp, FileOpModel};

verus! {

/// The files written so far, by path.
pub struct FileStore {
    entries: Vec<(String, String)>,
}

/// The map an entry list denotes; later entries would win, though a
/// well-formed store never repeats a path.
pub open spec fn spec_entries_map(entries: Seq<(String, String)>) -> Map<Seq<char>, Seq<char>>
    decreases entries.len(),
{
    if entries.len() == 0 {
        Map::empty()
    } else {
        spec_entries_map(entries.drop_last()).insert(entries.last().0@, entries.last().1@)
    }
}

impl View for FileStore {
    type V = Map<Seq<char>, Seq<char>>;

    closed spec fn view(&self) -> Map<Seq<char>, Seq<char>> {
        spec_entries_map(self.entries@)
    }
}

/// No path occurs twice.
pub open spec fn spec_entries_distinct(entries: Seq<(String, String)>) -> bool {
    forall|i: int, j: int|
        0 <= i < j < entries.len() ==> #[trigger] entries[i].0@ != #[trigger] entries[j].0@
}

/// An entry present in a distinct list is what the map holds for its path.
proof fn lemma_entries_map_lookup(entries: Seq<(String, String)>, i: int)
    requires
        spec_entries_distinct(entries),
        0 <= i < entries.len(),
    ensures
        spec_entries_map(entries).contains_key(entries[i].0@),
        spec_entries_map(entries)[entries[i].0@] == entries[i].1@,
    decreases entries.len(),
{
    if i == entries.len() - 1 {
    } else {
        lemma_entries_map_lookup(entries.drop_last(), i);
    }
}

/// A path on no entry of the list is not in the map.
proof fn lemma_entries_map_missing(entries: Seq<(String, String)>, path: Seq<char>)
    requires
        forall|j: int| 0 <= j < entries.len() ==> #[trigger] entries[j].0@ != path,
    ensures
        !spec_entries_map(entries).contains_key(path),
    decreases entries.len(),
{
    if entries.len() > 0 {
        lemma_entries_map_missing(entries.drop_last(), path);
    }
}

/// Replacing the contents of entry `i` in place updates the map at its
/// path and nothing else.
proof fn lemma_entries_map_update(entries: Seq<(String, String)>, i: int, v: (String, String))
    requires
        spec_entries_distinct(entries),
        0 <= i < entries.len(),
        v.0@ == entries[i].0@,
    ensures
        spec_entries_map(entries.update(i, v)) == spec_entries_map(entries).insert(v.0@, v.1@),
        spec_entries_distinct(entries.update(i, v)),
    decreases entries.len(),
{
    let updated = entries.update(i, v);
    if i == entries.len() - 1 {
        assert(updated.drop_last() =~= entries.drop_last());
        assert(spec_entries_map(updated) =~= spec_entries_map(entries).insert(v.0@, v.1@));
    } else {
        lemma_entries_map_update(entries.drop_last(), i, v);
        assert(updated.drop_last() =~= entries.drop_last().update(i, v));
        assert(updated.last() == entries.last());
        // the untouched last entry and the updated one have different paths
        assert(entries[i].0@ != entries.last().0@);
        assert(spec_entries_map(updated) =~= spec_entries_map(entries).insert(v.0@, v.1@));
    }
}

/// How one operation advances the directory: an `Open` creates a missing
/// file empty, an `Append` adds its text at the end, creating the file if
/// it is missing.
pub open spec fn spec_apply_op(files: Map<Seq<char>, Seq<char>>, op: FileOpModel) -> Map<
    Seq<char>,
    Seq<char>,
> {
    match op {
        FileOpModel::Open { path, .. } => {
            if files.contains_key(path) {
                files
            } else {
                files.insert(path, Seq::empty())
            }
        },
        FileOpModel::Append { path, data } => {
            if files.contains_key(path) {
                files.insert(path, files[path] + data)
            } else {
                files.insert(path, data)
            }
        },
    }
}

/// How a whole list of operations advances the directory, in order.
pub open spec fn spec_apply_ops(files: Map<Seq<char>, Seq<char>>, ops: Seq<FileOpModel>) -> Map<
    Seq<char>,
    Seq<char>,
>
    decreases ops.len(),
{
    if ops.len() == 0 {
        files
    } else {
        spec_apply_op(spec_apply_ops(files, ops.drop_last()), ops.last())
    }
}

impl FileStore {
    /// Each path occurs on one entry at most.
    pub closed spec fn wf(&self) -> bool {
        spec_entries_distinct(self.entries@)
    }

    /// An empty directory.
    pub fn new() -> (r: FileStore)
        ensures
            r@ == Map::<Seq<char>, Seq<char>>::empty(),
            r.wf(),
    {
        FileStore { entries: Vec::new() }
    }

    /// The index of the entry for `path`, if the file exists.
    fn position(&self, path: &String) -> (r: Option<usize>)
        ensures
            match r {
                Some(i) => i < self.entries@.len() && self.entries@[i as int].0@ == path@,
                None => forall|j: int|
                    0 <= j < self.entries@.len() ==> #[trigger] self.entries@[j].0@ != path@,
            },
    {
        let mut k: usize = 0;
        while k < self.entries.len()
            invariant
                k <= self.entries@.len(),
                forall|j: int| 0 <= j < k ==> #[trigger] self.entries@[j].0@ != path@,
            decreases self.entries@.len() - k,
        {
            if self.entries[k].0 == *path {
                return Some(k);
            }
            k += 1;
        }
        None
    }

    /// Applies one operation to the directory.
    pub fn apply(&mut self, op: &FileOp)
        requires
            old(self).wf(),
        ensures
            final(self).wf(),
            final(self)@ == spec_apply_op(old(self)@, op@),
    {
        match op {
            FileOp::Open { path, .. } => {
                match self.position(path) {
                    Some(i) => {
                        proof {
                            lemma_entries_map_lookup(self.entries@, i as int);
                        }
                    },
                    None => {
                        proof {
                            lemma_entries_map_missing(self.entries@, path@);
                        }
                        self.entries.push((path.clone(), String::new()));
                        proof {
                            assert(self.entries@.drop_last() =~= old(self).entries@);
                        }
                    },
                }
            },
            FileOp::Append { path, data } => {
                match self.position(path) {
                    Some(i) => {
                        proof {
                            lemma_entries_map_lookup(self.entries@, i as int);
                        }
                        let pair = &mut self.entries[i];
                        pair.1.append(data.as_str());
                        proof {
                            lemma_entries_map_update(
                                old(self).entries@,
                                i as int,
                                self.entries@[i as int],
                            );
                            assert(self.entries@ =~= old(self).entries@.update(
                                i as int,
                                self.entries@[i as int],
                            ));
                        }
                    },
                    None => {
                        proof {
                            lemma_entries_map_missing(self.entries@, path@);
                        }
                        self.entries.push((path.clone(), data.clone()));
                        proof {
                            assert(self.entries@.drop_last() =~= old(self).entries@);
                        }
                    },
                }
            },
        }
    }

    /// Applies a list of operations, in order.
    pub fn apply_all(&mut self, ops: &Vec<FileOp>)
        requires
            old(self).wf(),
        ensures
            final(self).wf(),
            final(self)@ == spec_apply_ops(old(self)@, ops.deep_view()),
    {
        let mut k: usize = 0;
        while k < ops.len()
            invariant
                k <= ops@.len(),
                self.wf(),
                self@ == spec_apply_ops(old(self)@, ops.deep_view().subrange(0, k as int)),
            decreases ops@.len() - k,
        {
            self.apply(&ops[k]);
            k += 1;
            proof {
                let pre = ops.deep_view().subrange(0, k as int);
                assert(pre.drop_last() =~= ops.deep_view().subrange(0, k - 1));
                assert(pre.last() == ops.deep_view()[k - 1]);
            }
        }
        proof {
            assert(ops.deep_view().subrange(0, ops@.len() as int) =~= ops.deep_view());
        }
    }

    /// The contents of the file at `path`, if it exists.
    pub fn contents(&self, path: &String) -> (r: Option<&String>)
        requires
            self.wf(),
        ensures
            match r {
                Some(s) => self@.contains_key(path@) && s@ == self@[path@],
                None => !self@.contains_key(path@),
            },
    {
        match self.position(path) {
            Some(i) => {
                proof {
                    lemma_entries_map_lookup(self.entries@, i as int);
                }
                Some(&self.entries[i].1)
            },
            None => {
                proof {
                    lemma_entries_map_missing(self.entries@, path@);
                }
                None
            },
        }
    }
}

/// One operation never shrinks a file: existing contents stay as a prefix.
proof fn lemma_apply_op_extends_file(
    files: Map<Seq<char>, Seq<char>>,
    op: FileOpModel,
    path: Seq<char>,
)
    requires
        files.contains_key(path),
    ensures
        spec_apply_op(files, op).contains_key(path),
        files[path].is_prefix_of(spec_apply_op(files, op)[path]),
{
    assert(files[path].is_prefix_of(files[path])) by {
        assert(files[path] =~= files[path].subrange(0, files[path].len() as int));
    }
    match op {
        FileOpModel::Open { .. } => {},
        FileOpModel::Append { path: p, data } => {
            if p == path {
                assert(files[path] =~= (files[path] + data).subrange(
                    0,
                    files[path].len() as int,
                ));
            }
        },
    }
}

/// Law: a file only ever grows — applying any list of effects keeps a
/// file's existing contents as a contiguous prefix, so records already
/// written are never reordered, truncated or corrupted by later activity.
pub proof fn lemma_apply_ops_extend_files(
    files: Map<Seq<char>, Seq<char>>,
    ops: Seq<FileOpModel>,
    path: Seq<char>,
)
    requires
        files.contains_key(path),
    ensures
        spec_apply_ops(files, ops).contains_key(path),
        files[path].is_prefix_of(spec_apply_ops(files, ops)[path]),
    decreases ops.len(),
{
    if ops.len() == 0 {
        assert(files[path] =~= files[path].subrange(0, files[path].len() as int));
    } else {
        lemma_apply_ops_extend_files(files, ops.drop_last(), path);
        let mid = spec_apply_ops(files, ops.drop_last());
        lemma_apply_op_extends_file(mid, ops.last(), path);
        let a = files[path];
        let b = mid[path];
        let c = spec_apply_op(mid, ops.last())[path];
        assert(a =~= b.subrange(0, a.len() as int));
        assert(b =~= c.subrange(0, b.len() as int));
        assert(a =~= c.subrange(0, a.len() as int));
    }
}

/// Law: effects aimed at one path touch that file alone, and grow it by
/// exactly their concatenated text, in order.  Every other file — present
/// or absent — is left as it was.
pub proof fn lemma_apply_ops_one_path(
    files: Map<Seq<char>, Seq<char>>,
    ops: Seq<FileOpModel>,
    path: Seq<char>,
)
    requires
        forall|k: int| 0 <= k < ops.len() ==> spec_op_path(#[trigger] ops[k]) == path,
    ensures
        forall|q: Seq<char>|
            q != path ==> #[trigger] spec_apply_ops(files, ops).contains_key(q)
                == files.contains_key(q),
        forall|q: Seq<char>|
            q != path && files.contains_key(q) ==> #[trigger] spec_apply_ops(files, ops)[q]
                == files[q],
        files.contains_key(path) ==> spec_apply_ops(files, ops).contains_key(path)
            && spec_apply_ops(files, ops)[path] == files[path] + spec_ops_text(ops),
        !files.contains_key(path) && ops.len() > 0 ==> spec_apply_ops(files, ops).contains_key(
            path,
        ) && spec_apply_ops(files, ops)[path] == spec_ops_text(ops),
    decreases ops.len(),
{
    if ops.len() == 0 {
        if files.contains_key(path) {
            assert(files[path] + spec_ops_text(ops) =~= files[path]);
        }
    } else {
        let front = ops.drop_last();
        let op = ops.last();
        lemma_apply_ops_one_path(files, front, path);
        let mid = spec_apply_ops(files, front);
        assert(spec_op_path(op) == path);
        if files.contains_key(path) {
            assert(mid[path] + spec_op_text(op) =~= files[path] + spec_ops_text(ops)) by {
                assert(mid[path] == files[path] + spec_ops_text(front));
            }
        } else if front.len() > 0 {
            assert(mid[path] + spec_op_text(op) =~= spec_ops_text(ops)) by {
                assert(mid[path] == spec_ops_text(front));
            }
        } else {
            assert(mid =~= files);
            assert(spec_ops_text(ops) =~= Seq::<char>::empty() + spec_op_text(op)) by {
                reveal_with_fuel(spec_ops_text, 2);
            }
            assert(Seq::<char>::empty() + spec_op_text(op) =~= spec_op_text(op));
        }
    }
}

} // verus!
