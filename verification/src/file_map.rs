//! Values by the file that they belong to.

use crate::path;
use crate::path::same_path;
use std::path::PathBuf;
use vstd::prelude::*;

verus! {

/// No path occurs twice.
pub open spec fn has_distinct_paths<T>(pairs: Seq<(PathBuf, T)>) -> bool {
    forall|i: int, j: int|
        0 <= i < j < pairs.len() ==> path::path_components((#[trigger] pairs[i]).0)
            != path::path_components((#[trigger] pairs[j]).0)
}

/// The position of `path` among the pairs.
pub open spec fn is_position<T>(pairs: Seq<(PathBuf, T)>, path: PathBuf, i: int) -> bool {
    0 <= i < pairs.len() && path::path_components(pairs[i].0) == path::path_components(path)
}

/// Pairs of files and values, in which no file occurs twice.
#[derive(Debug)]
pub struct FileMap<T> {
    pairs: Vec<(PathBuf, T)>,
}

impl<T> FileMap<T> {
    #[verifier::type_invariant]
    spec fn type_invariant(self) -> bool {
        has_distinct_paths(self.pairs@)
    }

    /// The files with their values, in the order in which the files were added.
    pub closed spec fn pairs(&self) -> Seq<(PathBuf, T)> {
        self.pairs@
    }

    /// A map without files.
    pub fn new() -> (map: Self)
        ensures
            map.pairs() == Seq::<(PathBuf, T)>::empty(),
    {
        FileMap { pairs: Vec::new() }
    }

    /// The number of files.
    pub fn len(&self) -> (len: usize)
        ensures
            len == self.pairs().len(),
            has_distinct_paths(self.pairs()),
    {
        proof {
            use_type_invariant(self);
        }
        self.pairs.len()
    }

    /// The file at a position and its value.
    pub fn at(&self, i: usize) -> (pair: &(PathBuf, T))
        requires
            i < self.pairs().len(),
        ensures
            *pair == self.pairs()[i as int],
    {
        &self.pairs[i]
    }

    /// Gives `path` the value, in place of the one that it may have.
    pub fn insert(&mut self, path: PathBuf, value: T)
        ensures
            exists|i: int|
                0 <= i < final(self).pairs().len() && path::path_components(
                    (#[trigger] final(self).pairs()[i]).0,
                ) == path::path_components(path) && final(self).pairs()[i].1 == value,
            forall|i: int|
                0 <= i < old(self).pairs().len() && path::path_components(
                    (#[trigger] old(self).pairs()[i]).0,
                ) != path::path_components(path) ==> final(self).pairs()[i]
                    == old(self).pairs()[i],
            forall|i: int|
                0 <= i < final(self).pairs().len() && path::path_components(
                    (#[trigger] final(self).pairs()[i]).0,
                ) != path::path_components(path) ==> i < old(self).pairs().len()
                    && final(self).pairs()[i] == old(self).pairs()[i],
            forall|i: int, j: int|
                0 <= i < j < final(self).pairs().len() ==> path::path_components(
                    (#[trigger] final(self).pairs()[i]).0,
                ) != path::path_components((#[trigger] final(self).pairs()[j]).0),
            has_distinct_paths(final(self).pairs()),
            (forall|i: int| !is_position(old(self).pairs(), path, i)) ==> final(self).pairs()
                == old(self).pairs().push((path, value)),
            forall|i: int| #[trigger]
                is_position(old(self).pairs(), path, i) ==> final(self).pairs()
                    == old(self).pairs().update(i, (old(self).pairs()[i].0, value)),
    {
        proof {
            use_type_invariant(&*self);
        }
        let ghost before = self.pairs@;
        let ghost wanted = value;
        let mut pairs: Vec<(PathBuf, T)> = Vec::new();
        std::mem::swap(&mut pairs, &mut self.pairs);
        let mut i: usize = 0;
        while i < pairs.len()
            invariant
                pairs@ == before,
                i <= pairs@.len(),
                forall|j: int| 0 <= j < i ==> !is_position(before, path, j),
            ensures
                pairs@ == before,
                i <= pairs@.len(),
                forall|j: int| 0 <= j < i ==> !is_position(before, path, j),
                i < pairs@.len() ==> is_position(before, path, i as int),
            decreases pairs@.len() - i,
        {
            if same_path(&pairs[i].0, &path) {
                break;
            }
            i += 1;
        }
        if i < pairs.len() {
            let known = pairs[i].0.clone();
            pairs.set(i, (known, value));
            assert(forall|j: int| is_position(before, path, j) ==> j == i);
            assert forall|j: int, k: int| 0 <= j < k < pairs@.len() implies path::path_components(
                (#[trigger] pairs@[j]).0,
            ) != path::path_components((#[trigger] pairs@[k]).0) by {
                assert(pairs@[j].0 == before[j].0 && pairs@[k].0 == before[k].0);
            }
        } else {
            pairs.push((path, value));
            assert forall|j: int, k: int| 0 <= j < k < pairs@.len() implies path::path_components(
                (#[trigger] pairs@[j]).0,
            ) != path::path_components((#[trigger] pairs@[k]).0) by {
                assert(!is_position(before, path, j));
                assert(pairs@[j] == before[j]);
            }
        }
        self.pairs = pairs;
        assert(self.pairs()[i as int].1 == wanted);
    }
}

} // verus!
