use vstd::prelude::*;

verus! {

/// The files already imported, by canonical path, each recorded once.
pub struct ImportSet {
    pub seen: Vec<String>,
}

impl ImportSet {
    /// The recorded paths.
    pub open spec fn paths(&self) -> Set<Seq<char>> {
        Set::new(|p: Seq<char>| exists|i: int| 0 <= i < self.seen@.len() && #[trigger] self.seen@[i]@ == p)
    }

    /// No path is recorded twice.
    pub open spec fn wf(&self) -> bool {
        forall|i: int, j: int| 0 <= i < j < self.seen@.len() ==> #[trigger] self.seen@[i]@ != #[trigger] self.seen@[j]@
    }

    /// Nothing imported yet.
    pub fn new() -> (r: ImportSet)
        ensures
            r.wf(),
            r.paths() == Set::<Seq<char>>::empty(),
    {
        let r = ImportSet { seen: Vec::new() };
        assert(r.paths() =~= Set::<Seq<char>>::empty());
        r
    }

    /// Whether `path` was already imported.
    pub fn contains(&self, path: &String) -> (r: bool)
        ensures
            r == self.paths().contains(path@),
    {
        let mut i: usize = 0;
        while i < self.seen.len()
            invariant
                i <= self.seen@.len(),
                forall|k: int| 0 <= k < i ==> self.seen@[k]@ != path@,
            decreases self.seen.len() - i,
        {
            if self.seen[i].eq(path) {
                return true;
            }
            i = i + 1;
        }
        false
    }

    /// Records `path`; `true` when it had not been imported before (the file
    /// is then to be read and parsed), `false` when it had (the import is
    /// skipped).
    pub fn first_visit(&mut self, path: &String) -> (r: bool)
        requires
            old(self).wf(),
        ensures
            final(self).wf(),
            r == !old(self).paths().contains(path@),
            final(self).paths() == old(self).paths().insert(path@),
    {
        if self.contains(path) {
            assert(self.paths() =~= self.paths().insert(path@));
            return false;
        }
        let ghost before = self.seen@;
        self.seen.push(path.clone());
        assert forall|i: int| 0 <= i < before.len() implies #[trigger] self.seen@[i] == before[i] by {}
        assert(self.paths() =~= old(self).paths().insert(path@)) by {
            assert forall|p: Seq<char>| self.paths().contains(p) implies old(self).paths().insert(path@).contains(p) by {
                let i = choose|i: int| 0 <= i < self.seen@.len() && #[trigger] self.seen@[i]@ == p;
                if i < before.len() {
                    assert(old(self).seen@[i]@ == p);
                }
            }
            assert forall|p: Seq<char>| old(self).paths().insert(path@).contains(p) implies self.paths().contains(p) by {
                if p == path@ {
                    assert(self.seen@[before.len() as int]@ == p);
                } else {
                    let i = choose|i: int| 0 <= i < old(self).seen@.len() && #[trigger] old(self).seen@[i]@ == p;
                    assert(self.seen@[i]@ == p);
                }
            }
        }
        true
    }
}

/// A file is imported at most once: after a path has been visited, visiting
/// it again reports that it was seen.
pub proof fn lemma_import_once(before: Set<Seq<char>>, path: Seq<char>)
    ensures
        before.insert(path).contains(path),
        !before.contains(path) || before.insert(path) == before,
{
    if before.contains(path) {
        assert(before.insert(path) =~= before);
    }
}

} // verus!
