use vstd::prelude::*;
use crate::error::ErrorType;
use crate::migration::MigrationFile;
use crate::text::text_equal;

verus! {

/// The versions kept of one migration, oldest first.
pub struct ArchiveEntry {
    pub name: String,
    pub versions: Vec<MigrationFile>,
}

/// Index of the first entry at or after `i` named `name`, or -1.
pub open spec fn entry_index_from(entries: Seq<ArchiveEntry>, name: Seq<char>, i: int) -> int
    decreases entries.len() - i,
{
    if i >= entries.len() {
        -1
    } else if entries[i].name@ == name {
        i
    } else {
        entry_index_from(entries, name, i + 1)
    }
}

/// The migrations named `name` among the first `n` of `files`, in order.
pub open spec fn named_upto(files: Seq<MigrationFile>, name: Seq<char>, n: int) -> Seq<MigrationFile>
    decreases n,
{
    if n <= 0 {
        Seq::empty()
    } else {
        let prev = named_upto(files, name, n - 1);
        if files[n - 1].name@ == name {
            prev.push(files[n - 1])
        } else {
            prev
        }
    }
}

/// The versions that `files` hold of the migration `name`, if any.
pub open spec fn grouped(files: Seq<MigrationFile>, name: Seq<char>) -> Option<Seq<MigrationFile>> {
    let v = named_upto(files, name, files.len() as int);
    if v.len() == 0 {
        None
    } else {
        Some(v)
    }
}

/// The versions `known` with `m` added as the newest.
pub open spec fn with_version(known: Option<Seq<MigrationFile>>, m: MigrationFile) -> Option<
    Seq<MigrationFile>,
> {
    match known {
        Some(v) => Some(v.push(m)),
        None => Some(seq![m]),
    }
}

proof fn lemma_entry_index_bounds(entries: Seq<ArchiveEntry>, name: Seq<char>, i: int)
    requires
        0 <= i,
    ensures
        entry_index_from(entries, name, i) == -1 || (i <= entry_index_from(entries, name, i)
            < entries.len() && entries[entry_index_from(entries, name, i)].name@ == name),
        entry_index_from(entries, name, i) == -1 ==> forall|j: int|
            i <= j < entries.len() ==> entries[j].name@ != name,
    decreases entries.len() - i,
{
    if i < entries.len() && entries[i].name@ != name {
        lemma_entry_index_bounds(entries, name, i + 1);
    }
}

proof fn lemma_entry_index_same_names(a: Seq<ArchiveEntry>, b: Seq<ArchiveEntry>, name: Seq<char>, i: int)
    requires
        0 <= i,
        a.len() == b.len(),
        forall|j: int| 0 <= j < a.len() ==> (#[trigger] a[j]).name@ == b[j].name@,
    ensures
        entry_index_from(a, name, i) == entry_index_from(b, name, i),
    decreases a.len() - i,
{
    if i < a.len() {
        assert(a[i].name@ == b[i].name@);
        lemma_entry_index_same_names(a, b, name, i + 1);
    }
}

proof fn lemma_entry_index_push(s: Seq<ArchiveEntry>, e: ArchiveEntry, name: Seq<char>, i: int)
    requires
        0 <= i <= s.len(),
    ensures
        entry_index_from(s.push(e), name, i) == if entry_index_from(s, name, i) >= 0 {
            entry_index_from(s, name, i)
        } else if e.name@ == name {
            s.len() as int
        } else {
            -1
        },
    decreases s.len() - i,
{
    if i < s.len() {
        assert(s.push(e)[i] == s[i]);
        lemma_entry_index_push(s, e, name, i + 1);
    } else {
        assert(s.push(e)[i] == e);
        assert(entry_index_from(s, name, i) == -1);
        assert(entry_index_from(s.push(e), name, i + 1) == -1);
    }
}

/// Earlier versions of migrations, grouped by migration name.
pub struct LocalVersionArchive {
    dir: Vec<ArchiveEntry>,
}

impl LocalVersionArchive {
    /// The entries, one per migration name.
    pub closed spec fn entries(&self) -> Seq<ArchiveEntry> {
        self.dir@
    }

    /// No two entries share a name.
    pub open spec fn wf(&self) -> bool {
        forall|i: int, j: int|
            0 <= i < j < self.entries().len() ==> #[trigger] self.entries()[i].name@
                != #[trigger] self.entries()[j].name@
    }

    /// The versions kept of the migration `name`, oldest first, if any.
    pub open spec fn versions(&self, name: Seq<char>) -> Option<Seq<MigrationFile>> {
        let k = entry_index_from(self.entries(), name, 0);
        if k >= 0 {
            Some(self.entries()[k].versions@)
        } else {
            None
        }
    }

    /// An empty archive.
    pub fn default() -> (r: LocalVersionArchive)
        ensures
            r.wf(),
            forall|name: Seq<char>| r.versions(name) is None,
    {
        LocalVersionArchive { dir: Vec::new() }
    }

    /// An archive of `files`, grouped by name, each group in the order given.
    pub fn new(files: Vec<MigrationFile>) -> (r: LocalVersionArchive)
        ensures
            r.wf(),
            forall|name: Seq<char>| #[trigger] r.versions(name) == grouped(files@, name),
    {
        let mut r = LocalVersionArchive::default();
        let mut i: usize = 0;
        while i < files.len()
            invariant
                i <= files@.len(),
                r.wf(),
                forall|name: Seq<char>|
                    #[trigger] r.versions(name) == grouped(files@.take(i as int), name),
            decreases files@.len() - i,
        {
            let ghost before = r;
            let _ = r.add_migration_version(files[i].copy());
            proof {
                let t = files@.take(i as int);
                let u = files@.take(i + 1);
                assert forall|name: Seq<char>| #[trigger] r.versions(name) == grouped(u, name) by {
                    assert(u.drop_last() =~= t);
                    assert(named_upto(u, name, i as int) == named_upto(t, name, i as int)) by {
                        lemma_named_prefix(u, t, name, i as int);
                    }
                    assert(before.versions(name) == grouped(t, name));
                }
            }
            i += 1;
        }
        assert(files@.take(files@.len() as int) =~= files@);
        r
    }

    /// Every version of the migration `migration`, oldest first.
    pub fn get_migration_files(&self, migration: &str) -> (r: Option<Vec<MigrationFile>>)
        ensures
            r matches Some(v) ==> self.versions(migration@) == Some(v@),
            r is None ==> self.versions(migration@) is None,
    {
        match self.find(migration) {
            Some(k) => {
                let versions = &self.dir[k].versions;
                let mut out: Vec<MigrationFile> = Vec::new();
                let mut j: usize = 0;
                while j < versions.len()
                    invariant
                        j <= versions@.len(),
                        out@ == versions@.take(j as int),
                    decreases versions@.len() - j,
                {
                    out.push(versions[j].copy());
                    j += 1;
                    assert(out@ =~= versions@.take(j as int));
                }
                assert(versions@.take(versions@.len() as int) =~= versions@);
                Some(out)
            },
            None => None,
        }
    }

    /// Nothing to reset: the archive keeps no directory of its own.
    pub fn reset_migration_dir(&self) -> (r: Result<(), ErrorType>)
        ensures
            r is Ok,
    {
        Ok(())
    }

    /// Adds `migration` as the newest version of its name.
    pub fn add_migration_version(&mut self, migration: MigrationFile) -> (r: Result<(), ErrorType>)
        requires
            old(self).wf(),
        ensures
            r is Ok,
            final(self).wf(),
            forall|name: Seq<char>|
                #[trigger] final(self).versions(name) == if name == migration.name@ {
                    with_version(old(self).versions(name), migration)
                } else {
                    old(self).versions(name)
                },
    {
        let ghost old_entries = self.dir@;
        let ghost m = migration;
        proof {
            lemma_entry_index_bounds(old_entries, m.name@, 0);
        }
        match self.find(migration.name.as_str()) {
            Some(k) => {
                let mut entry = self.dir.remove(k);
                entry.versions.push(migration);
                self.dir.insert(k, entry);
                proof {
                    let new_entries = self.dir@;
                    assert(new_entries.len() == old_entries.len());
                    assert forall|j: int| 0 <= j < new_entries.len() implies (#[trigger] new_entries[j]).name@
                        == old_entries[j].name@ by {
                        if j != k {
                            assert(new_entries[j] == old_entries[j]);
                        }
                    }
                    assert forall|name: Seq<char>| #[trigger] self.versions(name) == if name == m.name@ {
                        with_version(old(self).versions(name), m)
                    } else {
                        old(self).versions(name)
                    } by {
                        lemma_entry_index_same_names(new_entries, old_entries, name, 0);
                        lemma_entry_index_bounds(old_entries, name, 0);
                        let idx = entry_index_from(old_entries, name, 0);
                        if idx >= 0 && idx != k {
                            assert(new_entries[idx] == old_entries[idx]);
                        }
                    }
                }
            },
            None => {
                let name = migration.name.clone();
                let versions = vec![migration];
                self.dir.push(ArchiveEntry { name, versions });
                proof {
                    assert forall|name: Seq<char>| #[trigger] self.versions(name) == if name == m.name@ {
                        with_version(old(self).versions(name), m)
                    } else {
                        old(self).versions(name)
                    } by {
                        lemma_entry_index_push(old_entries, self.dir@.last(), name, 0);
                        assert(self.dir@ == old_entries.push(self.dir@.last()));
                        lemma_entry_index_bounds(old_entries, name, 0);
                        let idx = entry_index_from(old_entries, name, 0);
                        if idx >= 0 {
                            assert(self.dir@[idx] == old_entries[idx]);
                        }
                        assert(self.dir@.last().versions@ =~= seq![m]);
                    }
                }
            },
        }
        Ok(())
    }

    /// Index of the entry named `name`.
    fn find(&self, name: &str) -> (r: Option<usize>)
        ensures
            match r {
                Some(k) => k == entry_index_from(self.entries(), name@, 0) && k < self.entries().len(),
                None => entry_index_from(self.entries(), name@, 0) == -1,
            },
    {
        proof {
            lemma_entry_index_bounds(self.dir@, name@, 0);
        }
        let mut j: usize = 0;
        while j < self.dir.len()
            invariant
                j <= self.dir@.len(),
                entry_index_from(self.dir@, name@, j as int) == entry_index_from(self.dir@, name@, 0),
            decreases self.dir@.len() - j,
        {
            if text_equal(self.dir[j].name.as_str(), name) {
                return Some(j);
            }
            j += 1;
        }
        None
    }
}

proof fn lemma_named_prefix(u: Seq<MigrationFile>, t: Seq<MigrationFile>, name: Seq<char>, n: int)
    requires
        0 <= n <= t.len(),
        t.len() <= u.len(),
        forall|j: int| 0 <= j < t.len() ==> u[j] == t[j],
    ensures
        named_upto(u, name, n) == named_upto(t, name, n),
    decreases n,
{
    if n > 0 {
        lemma_named_prefix(u, t, name, n - 1);
    }
}

} // verus!
