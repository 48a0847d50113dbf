//! What this crate knows of an open database: which instance it is, and
//! which column families were registered with it.
use vstd::prelude::*;

verus! {

/// The name of the column family that is used where none is given.
pub open spec fn default_column_family_name() -> Seq<char> {
    "default"@
}

/// The name of the column family that is used where none is given.
pub fn default_column_family() -> (name: String)
    ensures
        name@ == default_column_family_name(),
{
    "default".to_string()
}

/// The names in `names`, as mathematical strings.
pub open spec fn names_of(names: Seq<String>) -> Seq<Seq<char>> {
    names.map_values(|name: String| name@)
}

/// The names in `names`, as mathematical strings.
pub open spec fn strs_of(names: Seq<&str>) -> Seq<Seq<char>> {
    names.map_values(|name: &str| name@)
}

/// `existing`, followed by those of `requested` that are not in it yet, each
/// once, in the order in which they are first asked for.
pub open spec fn with_requested(existing: Seq<Seq<char>>, requested: Seq<Seq<char>>) -> Seq<
    Seq<char>,
>
    decreases requested.len(),
{
    if requested.len() == 0 {
        existing
    } else if existing.contains(requested[0]) {
        with_requested(existing, requested.skip(1))
    } else {
        with_requested(existing.push(requested[0]), requested.skip(1))
    }
}

/// The column families of `with_requested` are those that were there and
/// those that were asked for, and what was there keeps its place.
pub proof fn lemma_with_requested(existing: Seq<Seq<char>>, requested: Seq<Seq<char>>)
    ensures
        existing.len() <= with_requested(existing, requested).len(),
        with_requested(existing, requested).subrange(0, existing.len() as int) == existing,
        forall|name: Seq<char>|
            with_requested(existing, requested).contains(name) <==> (existing.contains(name)
                || requested.contains(name)),
    decreases requested.len(),
{
    let all = with_requested(existing, requested);
    if requested.len() == 0 {
        assert(all.subrange(0, existing.len() as int) =~= existing);
    } else {
        let head = requested[0];
        let rest = requested.skip(1);
        let next = if existing.contains(head) {
            existing
        } else {
            existing.push(head)
        };
        lemma_with_requested(next, rest);
        assert(all.subrange(0, existing.len() as int) =~= existing) by {
            assert(all.subrange(0, next.len() as int) == next);
            assert forall|i: int| 0 <= i < existing.len() implies all[i] == existing[i] by {
                assert(all.subrange(0, next.len() as int)[i] == next[i]);
            }
        }
        assert forall|name: Seq<char>|
            all.contains(name) <==> (existing.contains(name) || requested.contains(name)) by {
            assert(requested.contains(name) <==> (name == head || rest.contains(name))) by {
                if requested.contains(name) {
                    let i = choose|i: int| 0 <= i < requested.len() && requested[i] == name;
                    if i > 0 {
                        assert(rest[i - 1] == name);
                    }
                }
                if rest.contains(name) {
                    let i = choose|i: int| 0 <= i < rest.len() && rest[i] == name;
                    assert(requested[i + 1] == name);
                }
            }
            assert(next.contains(name) <==> (existing.contains(name) || (name == head))) by {
                if existing.contains(head) {
                } else {
                    if existing.contains(name) {
                        let i = choose|i: int| 0 <= i < existing.len() && existing[i] == name;
                        assert(next[i] == name);
                    }
                    assert(next[existing.len() as int] == head);
                    if next.contains(name) {
                        let i = choose|i: int| 0 <= i < next.len() && next[i] == name;
                        if i < existing.len() {
                            assert(existing[i] == name);
                        }
                    }
                }
            }
        }
    }
}

/// An open database, as far as this crate needs to know it.
#[derive(Debug)]
pub struct Database {
    id: u64,
    column_families: Vec<String>,
}

impl Database {
    /// A number that tells this database from every other open one.
    pub closed spec fn identity(&self) -> u64 {
        self.id
    }

    /// The column families registered with the database, in order.
    pub closed spec fn registered(&self) -> Seq<Seq<char>> {
        names_of(self.column_families@)
    }

    /// A number that tells this database from every other open one.
    pub fn id(&self) -> (id: u64)
        ensures
            id == self.identity(),
    {
        self.id
    }

    /// The column families with which the database is to be opened.
    pub fn column_families(&self) -> (names: &Vec<String>)
        ensures
            names_of(names@) == self.registered(),
    {
        &self.column_families
    }

    /// Whether a column family of that name is registered.
    pub fn has_column_family(&self, name: &String) -> (found: bool)
        ensures
            found == self.registered().contains(name@),
    {
        let mut i: usize = 0;
        while i < self.column_families.len()
            invariant
                i <= self.column_families.len(),
                forall|j: int| 0 <= j < i ==> self.registered()[j] != name@,
            decreases self.column_families.len() - i,
        {
            if self.column_families[i] == *name {
                assert(self.registered()[i as int] == name@);
                return true;
            }
            i += 1;
        }
        false
    }
}

impl Clone for Database {
    fn clone(&self) -> (copy: Self)
        ensures
            copy.identity() == self.identity(),
            copy.registered() == self.registered(),
    {
        let mut names: Vec<String> = Vec::new();
        let mut i: usize = 0;
        while i < self.column_families.len()
            invariant
                i <= self.column_families.len(),
                names@.len() == i,
                forall|j: int| 0 <= j < i ==> names@[j]@ == self.column_families@[j]@,
            decreases self.column_families.len() - i,
        {
            names.push(self.column_families[i].clone());
            i += 1;
        }
        assert(names_of(names@) =~= names_of(self.column_families@));
        Database { id: self.id, column_families: names }
    }
}

/// Describes the database to open: the column families found on disk,
/// followed by those of `opt_cfs` that are missing, which are to be created.
///
/// `id` must differ from that of every other database that is open.
pub fn open_cf(id: u64, on_disk: Vec<String>, opt_cfs: &[&str]) -> (db: Database)
    ensures
        db.identity() == id,
        db.registered() == with_requested(names_of(on_disk@), strs_of(opt_cfs@)),
{
    let mut cfs = on_disk;
    let mut i: usize = 0;
    assert(strs_of(opt_cfs@).skip(0) =~= strs_of(opt_cfs@));
    while i < opt_cfs.len()
        invariant
            i <= opt_cfs.len(),
            with_requested(names_of(cfs@), strs_of(opt_cfs@).skip(i as int)) == with_requested(
                names_of(on_disk@),
                strs_of(opt_cfs@),
            ),
        decreases opt_cfs.len() - i,
    {
        let key = opt_cfs[i].to_string();
        let ghost before = names_of(cfs@);
        let ghost rest = strs_of(opt_cfs@).skip(i as int);
        assert(rest[0] == key@);
        assert(rest.skip(1) =~= strs_of(opt_cfs@).skip(i + 1));
        if !contains_name(&cfs, &key) {
            cfs.push(key);
            assert(names_of(cfs@) =~= before.push(rest[0]));
        }
        i += 1;
    }
    assert(strs_of(opt_cfs@).skip(i as int).len() == 0);
    Database { id, column_families: cfs }
}

/// Whether `name` is among `names`.
fn contains_name(names: &Vec<String>, name: &String) -> (found: bool)
    ensures
        found == names_of(names@).contains(name@),
{
    let mut i: usize = 0;
    while i < names.len()
        invariant
            i <= names.len(),
            forall|j: int| 0 <= j < i ==> names_of(names@)[j] != name@,
        decreases names.len() - i,
    {
        if names[i] == *name {
            assert(names_of(names@)[i as int] == name@);
            return true;
        }
        i += 1;
    }
    false
}

} // verus!
