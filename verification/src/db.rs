//! Database migrations: which files run, and in which order.

use vstd::prelude::*;
use crate::path::{extension, extension_of};
use crate::sort::{key_less, key_lt, key_of, same_key_order, sorted_by_key, stable_sort, SortKey};
use crate::text::{chars_eq, chars_of, lex_lt};

verus! {

broadcast use vstd::string::group_string_axioms;

/// A file of the migrations directory.
#[derive(Clone, Debug)]
pub struct MigrationFile {
    pub name: String,
}

impl SortKey for MigrationFile {
    /// Ordered by file name.
    open spec fn sort_key(&self) -> (u8, Seq<char>) {
        (0u8, self.name@)
    }

    fn key_below(&self, other: &Self) -> (r: bool) {
        let a = chars_of(self.name.as_str());
        let b = chars_of(other.name.as_str());
        key_less(0, &a, 0, &b)
    }
}

/// Migration scripts: files with the extension `sql`.
pub open spec fn is_migration(f: MigrationFile) -> bool {
    extension(f.name@) == Some("sql"@)
}

/// The migration scripts among `files`, in directory order.
pub open spec fn scripts(files: Seq<MigrationFile>) -> Seq<MigrationFile> {
    files.filter(|f: MigrationFile| is_migration(f))
}

/// Migrations ordered by file name: no file comes before one whose name is
/// lexicographically smaller.
pub proof fn lemma_migration_order(s: Seq<MigrationFile>)
    requires
        sorted_by_key(s),
    ensures
        forall|i: int, j: int| #![trigger s[i], s[j]] 0 <= i < j < s.len() ==> !lex_lt(s[j].name@, s[i].name@),
{
    assert forall|i: int, j: int| #![trigger s[i], s[j]] 0 <= i < j < s.len() implies !lex_lt(s[j].name@, s[i].name@) by {
        assert(!key_lt(key_of(s[j]), key_of(s[i])));
    }
}

/// The migrations to run, from the files of the migrations directory: the
/// `.sql` files, ordered by file name.
pub fn select_migrations(files: Vec<MigrationFile>) -> (r: Vec<MigrationFile>)
    ensures
        sorted_by_key(r@),
        same_key_order(r@, scripts(files@)),
        forall|i: int, j: int| #![trigger r@[i], r@[j]] 0 <= i < j < r@.len() ==> !lex_lt(r@[j].name@, r@[i].name@),
{
    let sql = chars_of("sql");
    let mut keep: Vec<MigrationFile> = Vec::new();
    let mut i: usize = 0;
    proof { reveal(Seq::filter); }
    assert(files@.take(0) =~= Seq::<MigrationFile>::empty());
    while i < files.len()
        invariant
            i <= files@.len(),
            sql@ == "sql"@,
            keep@ == scripts(files@.take(i as int)),
        decreases files@.len() - i,
    {
        proof { reveal(Seq::filter); }
        assert(files@.take(i + 1).drop_last() =~= files@.take(i as int));
        let f = &files[i];
        let nc = chars_of(f.name.as_str());
        let is_sql = match extension_of(&nc) {
            Some(e) => chars_eq(&e, &sql),
            None => false,
        };
        if is_sql {
            keep.push(MigrationFile { name: f.name.clone() });
        }
        i = i + 1;
    }
    assert(files@.take(files@.len() as int) =~= files@);
    let r = stable_sort(keep);
    proof {
        lemma_migration_order(r@);
    }
    r
}

} // verus!
