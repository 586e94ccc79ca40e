//! The name table: an append-only, de-duplicating string interner.
//! Every identifier in a package is an index into it.

use vstd::prelude::*;
use crate::types::FName;

verus! {

/// The first index in `t` holding exactly `s`, or `-1`.
pub open spec fn name_index_of(t: Seq<Seq<char>>, s: Seq<char>) -> int
    decreases t.len(),
{
    if t.len() == 0 {
        -1
    } else if t[0] == s {
        0
    } else {
        let r = name_index_of(t.drop_first(), s);
        if r >= 0 {
            r + 1
        } else {
            -1
        }
    }
}

/// `name_index_of` finds an entry exactly when one exists, and then the
/// first one.
pub proof fn lemma_name_index_of(t: Seq<Seq<char>>, s: Seq<char>)
    ensures
        name_index_of(t, s) >= 0 ==> name_index_of(t, s) < t.len() && t[name_index_of(t, s)] == s,
        name_index_of(t, s) >= 0 ==> forall|i: int| 0 <= i < name_index_of(t, s) ==> t[i] != s,
        name_index_of(t, s) == -1 ==> forall|i: int| 0 <= i < t.len() ==> t[i] != s,
        name_index_of(t, s) >= 0 || name_index_of(t, s) == -1,
    decreases t.len(),
{
    if t.len() > 0 {
        lemma_name_index_of(t.drop_first(), s);
        if t[0] != s && name_index_of(t.drop_first(), s) == -1 {
            assert forall|i: int| 0 <= i < t.len() implies t[i] != s by {
                if i > 0 {
                    assert(t[i] == t.drop_first()[i - 1]);
                }
            }
        }
        if t[0] != s && name_index_of(t.drop_first(), s) >= 0 {
            assert forall|i: int| 0 <= i < name_index_of(t, s) implies t[i] != s by {
                if i > 0 {
                    assert(t[i] == t.drop_first()[i - 1]);
                }
            }
        }
    }
}

/// When the entry at `i` holds `s` and none before it does,
/// `name_index_of` returns `i`.
pub proof fn lemma_name_index_of_found(t: Seq<Seq<char>>, s: Seq<char>, i: int)
    requires
        0 <= i < t.len(),
        t[i] == s,
        forall|j: int| 0 <= j < i ==> t[j] != s,
    ensures
        name_index_of(t, s) == i,
    decreases t.len(),
{
    if i > 0 {
        lemma_name_index_of_found(t.drop_first(), s, i - 1);
    }
}

/// Appending entries does not move an existing first occurrence.
pub proof fn lemma_name_index_of_push(t: Seq<Seq<char>>, s: Seq<char>, x: Seq<char>)
    ensures
        name_index_of(t, s) >= 0 ==> name_index_of(t.push(x), s) == name_index_of(t, s),
        name_index_of(t, s) == -1 && x == s ==> name_index_of(t.push(x), s) == t.len(),
        name_index_of(t, s) == -1 && x != s ==> name_index_of(t.push(x), s) == -1,
{
    lemma_name_index_of(t, s);
    if name_index_of(t, s) >= 0 {
        let i = name_index_of(t, s);
        assert(t.push(x)[i] == s);
        assert forall|j: int| 0 <= j < i implies t.push(x)[j] != s by {
            assert(t[j] != s);
            assert(t.push(x)[j] == t[j]);
        }
        lemma_name_index_of_found(t.push(x), s, i);
    } else if x == s {
        assert(t.push(x)[t.len() as int] == s);
        assert forall|j: int| 0 <= j < t.len() implies t.push(x)[j] != s by {
            assert(t[j] != s);
            assert(t.push(x)[j] == t[j]);
        }
        lemma_name_index_of_found(t.push(x), s, t.len() as int);
    } else {
        lemma_name_index_of(t.push(x), s);
        if name_index_of(t.push(x), s) >= 0 {
            let i = name_index_of(t.push(x), s);
            assert(t.push(x)[i] == s);
            if i < t.len() {
                assert(t[i] == s);
            }
        }
    }
}

/// The hash variants offered for name lookup.
#[derive(Debug, Clone, Copy, PartialEq, Eq, Hash, Structural)]
pub enum NameHashAlgorithm {
    /// A Fowler-Noll-Vo fold.
    Fnv1a,
    /// A byte-fold in the style of a cyclic redundancy check.
    Crc32,
    /// A multiply-and-mix fold.
    XxHash,
    /// A length-seeded fold.
    CityHash,
}

/// One step of the Fowler-Noll-Vo fold.
pub open spec fn fnv1a_step(h: u64, c: char) -> u64 {
    (((h ^ ((c as u32) as u64)) * 0x100000001b3) as u64)
}

/// The Fowler-Noll-Vo hash of a character sequence.
pub open spec fn fnv1a_hash(s: Seq<char>) -> u64
    decreases s.len(),
{
    if s.len() == 0 {
        0xcbf29ce484222325u64
    } else {
        fnv1a_step(fnv1a_hash(s.drop_last()), s.last())
    }
}

/// The 32-bit verification hash written beside each name-table entry.
pub open spec fn name_table_hash(s: Seq<char>) -> u32 {
    (fnv1a_hash(s) & 0xffffffff) as u32
}

/// Computes the Fowler-Noll-Vo hash.
pub fn fnv1a_hash_exec(s: &str) -> (r: u64)
    ensures
        r == fnv1a_hash(s@),
{
    let n = s.unicode_len();
    let mut h: u64 = 0xcbf29ce484222325;
    let mut i: usize = 0;
    while i < n
        invariant
            i <= n,
            n == s@.len(),
            h == fnv1a_hash(s@.take(i as int)),
        decreases n - i,
    {
        let c = s.get_char(i);
        let x = (c as u32) as u64;
        let mixed = h ^ x;
        let prod = ((mixed as u128) * 0x100000001b3) as u64;
        h = prod;
        proof {
            assert(s@.take(i as int + 1).drop_last() =~= s@.take(i as int));
            assert(s@.take(i as int + 1).last() == s@[i as int]);
            assert(prod == fnv1a_step(fnv1a_hash(s@.take(i as int)), s@[i as int])) by {
                assert(((mixed as u128) * 0x100000001b3) as u64 == ((mixed * 0x100000001b3)
                    as u64)) by (bit_vector);
            }
        }
        i += 1;
    }
    proof {
        assert(s@.take(n as int) =~= s@);
    }
    h
}

/// Computes the 32-bit name-table verification hash.
pub fn name_table_hash_exec(s: &str) -> (r: u32)
    ensures
        r == name_table_hash(s@),
{
    let h = fnv1a_hash_exec(s);
    (h & 0xffffffff) as u32
}

/// The de-duplicating name table. Strings keep the index they were
/// first given: the table only ever grows.
#[derive(Debug, PartialEq)]
pub struct OptimizedNameMap {
    strings: Vec<String>,
    hash_algorithm: NameHashAlgorithm,
}

impl OptimizedNameMap {
    /// The number of table entries, tying the abstract length to the
    /// vector's.
    fn table_len(&self) -> (r: usize)
        ensures
            r == self.entries().len(),
            r == self.strings@.len(),
    {
        proof {
            assert(self.strings.deep_view().len() == self.strings@.len());
        }
        self.strings.len()
    }

    /// The table entries, in index order.
    pub closed spec fn entries(&self) -> Seq<Seq<char>> {
        self.strings.deep_view()
    }

    /// The configured hash variant.
    pub closed spec fn algorithm(&self) -> NameHashAlgorithm {
        self.hash_algorithm
    }

    /// An empty table.
    pub fn new(hash_algorithm: NameHashAlgorithm) -> (r: Self)
        ensures
            r.entries().len() == 0,
            r.algorithm() == hash_algorithm,
    {
        OptimizedNameMap { strings: Vec::new(), hash_algorithm }
    }

    /// A table holding the given strings at their positions, duplicates
    /// included.
    pub fn from_strings(strings: Vec<String>, hash_algorithm: NameHashAlgorithm) -> (r: Self)
        ensures
            r.entries() == strings.deep_view(),
            r.algorithm() == hash_algorithm,
    {
        OptimizedNameMap { strings, hash_algorithm }
    }

    /// The number of entries.
    pub fn len(&self) -> (r: usize)
        ensures
            r == self.entries().len(),
    {
        proof {
            assert(self.strings.deep_view().len() == self.strings@.len());
        }
        self.strings.len()
    }

    /// The first index holding exactly `s`, if any.
    pub fn find_string_index(&self, s: &str) -> (r: Option<usize>)
        ensures
            name_index_of(self.entries(), s@) >= 0 ==> r == Some(
                name_index_of(self.entries(), s@) as usize,
            ),
            name_index_of(self.entries(), s@) == -1 ==> r is None,
    {
        proof {
            lemma_name_index_of(self.entries(), s@);
            assert(self.strings.deep_view().len() == self.strings@.len());
        }
        let sought = s.to_owned();
        let n = self.strings.len();
        let mut i: usize = 0;
        while i < n
            invariant
                n == self.strings@.len(),
                self.entries().len() == n,
                i <= n,
                sought@ == s@,
                forall|j: int| 0 <= j < i ==> self.entries()[j] != s@,
                forall|j: int|
                    0 <= j < n ==> self.entries()[j] == self.strings@[j]@,
            decreases n - i,
        {
            if self.strings[i] == sought {
                proof {
                    lemma_name_index_of_found(self.entries(), s@, i as int);
                }
                return Some(i);
            }
            i += 1;
        }
        None
    }

    /// Adds a string: returns the existing first index when the string
    /// is already present and leaves the table unchanged, else appends
    /// it. Adding the same string twice gives the same index twice.
    pub fn add_string(&mut self, s: &str) -> (r: usize)
        ensures
            name_index_of(old(self).entries(), s@) >= 0 ==> r == name_index_of(
                old(self).entries(),
                s@,
            ) && final(self).entries() == old(self).entries(),
            name_index_of(old(self).entries(), s@) == -1 ==> r == old(self).entries().len()
                && final(self).entries() == old(self).entries().push(s@),
            final(self).entries()[r as int] == s@,
            r < final(self).entries().len(),
            final(self).algorithm() == old(self).algorithm(),
    {
        let table_len = self.table_len();
        proof {
            lemma_name_index_of(self.entries(), s@);
        }
        match self.find_string_index(s) {
            Some(i) => {
                proof {
                    assert(name_index_of(old(self).entries(), s@) >= 0);
                    assert(i == name_index_of(old(self).entries(), s@));
                    assert(self.entries() == old(self).entries());
                    assert(self.entries()[i as int] == s@);
                }
                i
            },
            None => {
                let i = self.strings.len();
                let sown = s.to_owned();
                self.strings.push(sown);
                proof {
                    assert(i == old(self).entries().len()) by {
                        assert(old(self).strings.deep_view().len() == old(self).strings@.len());
                    }
                    assert(self.strings.deep_view() =~~= old(self).strings.deep_view().push(s@))
                        by {
                        assert forall|k: int|
                            0 <= k < self.strings@.len() implies self.strings.deep_view()[k]
                            == old(self).strings.deep_view().push(s@)[k] by {
                            assert(self.strings.deep_view()[k] == self.strings@[k]@);
                            if k < i {
                                assert(self.strings@[k] == old(self).strings@[k]);
                                assert(old(self).strings.deep_view()[k] == old(
                                    self,
                                ).strings@[k]@);
                            } else {
                                assert(self.strings@[k]@ == s@);
                            }
                        }
                        assert(self.strings.deep_view().len() == old(
                            self,
                        ).strings.deep_view().push(s@).len());
                    }
                    assert(self.entries()[i as int] == s@);
                }
                i
            },
        }
    }

    /// The string at `index`, if the index is in range.
    pub fn get_string(&self, index: usize) -> (r: Option<&String>)
        ensures
            index < self.entries().len() ==> (r matches Some(s) && s@ == self.entries()[
                index as int
            ]),
            index >= self.entries().len() ==> r is None,
    {
        proof {
            assert(self.strings.deep_view().len() == self.strings@.len());
        }
        if index < self.strings.len() {
            proof {
                assert(self.entries()[index as int] == self.strings@[index as int]@);
            }
            Some(&self.strings[index])
        } else {
            None
        }
    }

    /// The hash of `s` under this table's configured variant. Only the
    /// Fowler-Noll-Vo fold and the table-verification fold are
    /// computed here: the two variants without a native fold fall back
    /// to Fowler-Noll-Vo, and lookups compare under that fold alone.
    pub fn calculate_hash(&self, s: &str) -> (r: u64)
        ensures
            self.algorithm() == NameHashAlgorithm::Fnv1a ==> r == fnv1a_hash(s@),
            self.algorithm() == NameHashAlgorithm::XxHash ==> r == fnv1a_hash(s@),
            self.algorithm() == NameHashAlgorithm::CityHash ==> r == fnv1a_hash(s@),
            self.algorithm() == NameHashAlgorithm::Crc32 ==> r == name_table_hash(s@) as u64,
    {
        match self.hash_algorithm {
            NameHashAlgorithm::Fnv1a => fnv1a_hash_exec(s),
            NameHashAlgorithm::Crc32 => (name_table_hash_exec(s) as u64),
            NameHashAlgorithm::XxHash => fnv1a_hash_exec(s),
            NameHashAlgorithm::CityHash => fnv1a_hash_exec(s),
        }
    }

    /// The first index whose entry hashes to `hash` under the
    /// Fowler-Noll-Vo fold, if any.
    pub fn find_by_hash(&self, hash: u64) -> (r: Option<usize>)
        ensures
            r matches Some(i) ==> i < self.entries().len() && fnv1a_hash(self.entries()[i as int])
                == hash,
            r is None ==> forall|i: int|
                0 <= i < self.entries().len() ==> fnv1a_hash(self.entries()[i]) != hash,
    {
        proof {
            assert(self.strings.deep_view().len() == self.strings@.len());
        }
        let n = self.strings.len();
        let mut i: usize = 0;
        while i < n
            invariant
                n == self.strings@.len(),
                self.entries().len() == n,
                i <= n,
                forall|j: int| 0 <= j < i ==> fnv1a_hash(self.entries()[j]) != hash,
                forall|j: int|
                    0 <= j < n ==> self.entries()[j] == self.strings@[j]@,
            decreases n - i,
        {
            let h = fnv1a_hash_exec(self.strings[i].as_str());
            if h == hash {
                return Some(i);
            }
            i += 1;
        }
        None
    }

    /// An engine name for `s`: interns the string and pairs it with the
    /// suffix.
    pub fn create_fname(&mut self, s: &str, number: u32) -> (r: FName)
        ensures
            r.name@ == s@,
            r.number == number,
            final(self).entries()[name_index_of(final(self).entries(), s@)] == s@,
            final(self).algorithm() == old(self).algorithm(),
    {
        proof {
            lemma_name_index_of(self.entries(), s@);
        }
        let i = self.add_string(s);
        proof {
            lemma_name_index_of(self.entries(), s@);
            if name_index_of(old(self).entries(), s@) == -1 {
                lemma_name_index_of_push(old(self).entries(), s@, s@);
            }
        }
        FName { name: s.to_owned(), number }
    }

    /// The engine name at `index` with the given suffix, if the index is
    /// in range.
    pub fn create_fname_from_index(&self, index: usize, number: u32) -> (r: Option<FName>)
        ensures
            index < self.entries().len() ==> (r matches Some(f) && f.name@ == self.entries()[
                index as int
            ] && f.number == number),
            index >= self.entries().len() ==> r is None,
    {
        match self.get_string(index) {
            Some(s) => Some(FName { name: s.clone(), number }),
            None => None,
        }
    }

    /// A copy of the table as a plain string vector.
    pub fn to_string_vector(&self) -> (r: Vec<String>)
        ensures
            r@.len() == self.entries().len(),
            forall|i: int| 0 <= i < r@.len() ==> r@[i]@ == self.entries()[i],
    {
        let n = self.table_len();
        proof {
            assert forall|j: int| 0 <= j < n implies self.entries()[j] == self.strings@[j]@ by {
                assert(self.strings.deep_view()[j] == self.strings@[j]@);
            }
        }
        let mut out: Vec<String> = Vec::new();
        let mut i: usize = 0;
        while i < n
            invariant
                n == self.strings@.len(),
                self.entries().len() == n,
                i <= n,
                out@.len() == i,
                forall|j: int| 0 <= j < n ==> self.entries()[j] == self.strings@[j]@,
                forall|k: int| 0 <= k < i ==> out@[k]@ == self.entries()[k],
            decreases n - i,
        {
            let c = self.strings[i].clone();
            out.push(c);
            i += 1;
        }
        out
    }
}

} // verus!
