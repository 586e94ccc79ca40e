//! The package-level dependency graph: hard and soft edges between
//! packages, the reverse index, a memoized transitive walk, and cycle
//! detection that reports the looping packages themselves.

use vstd::prelude::*;
use crate::types::Guid;

verus! {

broadcast use vstd::std_specs::vec::group_vec_axioms, vstd::seq::group_seq_axioms;

/// The kinds of dependency one package can have on another.
#[derive(Debug, Clone, Copy, PartialEq, Eq, Hash, Structural)]
pub enum DependencyType {
    /// A direct object reference.
    ObjectReference,
    /// A soft reference that can be loaded later.
    SoftReference,
    /// A class dependency.
    ClassDependency,
    /// A metadata dependency.
    MetadataDependency,
    /// A texture or material dependency.
    AssetDependency,
    /// A blueprint compilation dependency.
    BlueprintDependency,
}

/// One edge of the graph: the referenced package, the kind of
/// reference, and an optional identifier to verify it with.
#[derive(Debug, PartialEq)]
pub struct PackageDependency {
    /// The referenced package.
    pub package_name: String,
    /// The referenced package's identifier, when known.
    pub package_guid: Option<Guid>,
    /// The kind of reference.
    pub dependency_type: DependencyType,
    /// True for a hard dependency that must be loaded first.
    pub is_hard_dependency: bool,
}

/// The dependency graph: forward edges by package, the reverse index,
/// and a memoized transitive-walk cache that every mutation clears.
pub struct DependencyGraph {
    dependencies: Vec<(String, Vec<PackageDependency>)>,
    reverse_dependencies: Vec<(String, Vec<String>)>,
    resolution_cache: Vec<(String, Vec<String>)>,
}

impl DependencyGraph {
    /// The forward adjacency entries.
    pub closed spec fn forward(&self) -> Seq<(String, Vec<PackageDependency>)> {
        self.dependencies@
    }

    /// The reverse adjacency entries.
    pub closed spec fn reverse(&self) -> Seq<(String, Vec<String>)> {
        self.reverse_dependencies@
    }

    /// The memoized transitive results.
    pub closed spec fn cache(&self) -> Seq<(String, Vec<String>)> {
        self.resolution_cache@
    }
}

/// True when the graph holds an edge from package `a` to package `b`.
pub open spec fn has_edge(g: DependencyGraph, a: Seq<char>, b: Seq<char>) -> bool {
    exists|i: int, j: int|
        0 <= i < g.forward().len() && (#[trigger] g.forward()[i]).0@ == a && 0 <= j
            < g.forward()[i].1@.len() && (#[trigger] g.forward()[i].1@[j]).package_name@ == b
}

/// True when `c` is a genuine cycle in the graph: non-empty, and each
/// package has an edge to the next, the last wrapping to the first.
pub open spec fn sound_cycle(g: DependencyGraph, c: Seq<String>) -> bool {
    c.len() > 0 && (forall|k: int|
        0 <= k < c.len() ==> has_edge(
            g,
            (#[trigger] c[k])@,
            c[if k + 1 == c.len() {
                0int
            } else {
                k + 1
            }]@,
        ))
}


/// The number of true entries.
pub open spec fn count_true(s: Seq<bool>) -> int
    decreases s.len(),
{
    if s.len() == 0 {
        0
    } else {
        count_true(s.drop_last()) + if s.last() {
            1int
        } else {
            0int
        }
    }
}

/// The count lies between zero and the length.
pub proof fn lemma_count_true_bounds(s: Seq<bool>)
    ensures
        0 <= count_true(s) <= s.len(),
    decreases s.len(),
{
    if s.len() > 0 {
        lemma_count_true_bounds(s.drop_last());
    }
}

/// A count of zero means no entry is true.
pub proof fn lemma_count_true_zero(s: Seq<bool>)
    requires
        count_true(s) == 0,
    ensures
        forall|i: int| 0 <= i < s.len() ==> !s[i],
    decreases s.len(),
{
    if s.len() > 0 {
        lemma_count_true_bounds(s.drop_last());
        assert(!s.last());
        lemma_count_true_zero(s.drop_last());
        assert forall|i: int| 0 <= i < s.len() implies !s[i] by {
            if i < s.len() - 1 {
                assert(s.drop_last()[i] == s[i]);
            }
        }
    }
}

/// When every entry is true, the count is the length.
pub proof fn lemma_count_true_full(s: Seq<bool>)
    requires
        forall|i: int| 0 <= i < s.len() ==> s[i],
    ensures
        count_true(s) == s.len(),
    decreases s.len(),
{
    if s.len() > 0 {
        assert forall|i: int| 0 <= i < s.drop_last().len() implies s.drop_last()[i] by {
            assert(s.drop_last()[i] == s[i]);
        }
        lemma_count_true_full(s.drop_last());
    }
}

/// When no entry is true, the count is zero.
pub proof fn lemma_count_true_none(s: Seq<bool>)
    requires
        forall|i: int| 0 <= i < s.len() ==> !s[i],
    ensures
        count_true(s) == 0,
    decreases s.len(),
{
    if s.len() > 0 {
        assert forall|i: int| 0 <= i < s.drop_last().len() implies !s.drop_last()[i] by {
            assert(s.drop_last()[i] == s[i]);
        }
        lemma_count_true_none(s.drop_last());
        assert(!s.last());
    }
}

/// A true entry keeps the count positive.
pub proof fn lemma_count_true_pos(s: Seq<bool>, i: int)
    requires
        0 <= i < s.len(),
        s[i],
    ensures
        count_true(s) >= 1,
    decreases s.len(),
{
    lemma_count_true_bounds(s.drop_last());
    if i < s.len() - 1 {
        assert(s.drop_last()[i] == s[i]);
        lemma_count_true_pos(s.drop_last(), i);
    }
}

/// Turning one true entry false lowers the count by one.
pub proof fn lemma_count_true_update(s: Seq<bool>, i: int)
    requires
        0 <= i < s.len(),
        s[i],
    ensures
        count_true(s.update(i, false)) == count_true(s) - 1,
    decreases s.len(),
{
    let s2 = s.update(i, false);
    if i == s.len() - 1 {
        assert(s2.drop_last() =~= s.drop_last());
        assert(!s2.last());
    } else {
        assert(s2.drop_last() =~= s.drop_last().update(i, false));
        assert(s2.last() == s.last());
        lemma_count_true_update(s.drop_last(), i);
    }
}

/// True when some target of entry `i` is defined by a live entry.
pub open spec fn entry_blocked(g: DependencyGraph, alive: Seq<bool>, i: int) -> bool {
    exists|u: int, j: int|
        0 <= u < g.forward()[i].1@.len() && 0 <= j < g.forward().len() && alive[j] && (
        #[trigger] g.forward()[i].1@[u]).package_name@ == (#[trigger] g.forward()[j]).0@
}

/// Retired entries only point at entries retired before them: each
/// retired entry's rank is above every rank that defines one of its
/// targets.
pub open spec fn ranked(g: DependencyGraph, alive: Seq<bool>, rank: Map<int, int>) -> bool {
    &&& alive.len() == g.forward().len()
    &&& (forall|i: int|
        0 <= i < g.forward().len() ==> (!alive[i] <==> rank.dom().contains(i)))
    &&& (forall|i: int, u: int, j: int|
        0 <= i < g.forward().len() && !alive[i] && 0 <= u < g.forward()[i].1@.len() && 0 <= j
            < g.forward().len() && (#[trigger] g.forward()[i].1@[u]).package_name@ == (
        #[trigger] g.forward()[j]).0@ ==> !alive[j] && rank[j] < rank[i])
}

/// Ranks fall along a descending chain.
proof fn lemma_rank_chain(rank: Map<int, int>, ids: Seq<int>, k: int)
    requires
        0 <= k < ids.len(),
        forall|t: int| 0 <= t < ids.len() - 1 ==> rank[ids[t + 1]] < rank[#[trigger] ids[t]],
    ensures
        rank[ids[k]] + k <= rank[ids[0]],
    decreases k,
{
    if k > 0 {
        lemma_rank_chain(rank, ids, k - 1);
    }
}

/// A sequence of distinct values drawn from `0 .. n` has at most `n`
/// entries.
proof fn lemma_distinct_bounded(s: Seq<int>, n: int)
    requires
        n >= 0,
        forall|a: int, b2: int| #![trigger s[a], s[b2]] 0 <= a < b2 < s.len() ==> s[a] != s[b2],
        forall|a: int| 0 <= a < s.len() ==> 0 <= #[trigger] s[a] < n,
    ensures
        s.len() <= n,
    decreases n,
{
    if n == 0 {
        if s.len() > 0 {
            let v = s[0];
            assert(0 <= v && v < 0);
        }
    } else {
        if exists|p: int| 0 <= p < s.len() && s[p] == n - 1 {
            let p = choose|p: int| 0 <= p < s.len() && s[p] == n - 1;
            let s2 = s.remove(p);
            assert forall|a: int| 0 <= a < s2.len() implies 0 <= #[trigger] s2[a] < n - 1 by {
                if a < p {
                    assert(s2[a] == s[a]);
                    assert(s[a] != s[p]);
                } else {
                    assert(s2[a] == s[a + 1]);
                    assert(s[a + 1] != s[p]);
                }
            }
            assert forall|a: int, b2: int| #![trigger s2[a], s2[b2]] 0 <= a < b2 < s2.len()
                implies s2[a] != s2[b2] by {
                if b2 < p {
                    assert(s2[a] == s[a] && s2[b2] == s[b2]);
                } else if a < p {
                    assert(s2[a] == s[a] && s2[b2] == s[b2 + 1]);
                } else {
                    assert(s2[a] == s[a + 1] && s2[b2] == s[b2 + 1]);
                }
            }
            lemma_distinct_bounded(s2, n - 1);
        } else {
            assert forall|a: int| 0 <= a < s.len() implies 0 <= #[trigger] s[a] < n - 1 by {
                assert(!(0 <= a < s.len() && s[a] == n - 1));
            }
            lemma_distinct_bounded(s, n - 1);
        }
    }
}

/// When every entry is retired under a well-founded ranking, the graph
/// has no cycle at all.
proof fn lemma_ranked_all_no_cycle(
    g: DependencyGraph,
    alive: Seq<bool>,
    rank: Map<int, int>,
    c: Seq<String>,
)
    requires
        ranked(g, alive, rank),
        forall|i: int| 0 <= i < alive.len() ==> !(#[trigger] alive[i]),
    ensures
        !sound_cycle(g, c),
{
    if !sound_cycle(g, c) {
        return;
    }
    let l = c.len() as int;
    let ids = Seq::new(
        l as nat,
        |k: int|
            (choose|i: int, j: int|
                0 <= i < g.forward().len() && (#[trigger] g.forward()[i]).0@ == c[k]@ && 0 <= j
                    < g.forward()[i].1@.len() && (#[trigger] g.forward()[i].1@[j]).package_name@
                    == c[if k + 1 == l {
                    0int
                } else {
                    k + 1
                }]@).0,
    );
    assert forall|t: int| #![trigger ids[t]] 0 <= t < l implies {
        let nx = if t + 1 == l {
            0int
        } else {
            t + 1
        };
        0 <= ids[t] < g.forward().len() && rank.dom().contains(ids[t]) && rank[ids[nx]] < rank[
            ids[t]
        ]
    } by {
        let nx = if t + 1 == l {
            0int
        } else {
            t + 1
        };
        assert(has_edge(g, (c[t])@, (c[nx])@));
        let (i1, u1) = choose|i: int, j: int|
            0 <= i < g.forward().len() && (#[trigger] g.forward()[i]).0@ == c[t]@ && 0 <= j
                < g.forward()[i].1@.len() && (#[trigger] g.forward()[i].1@[j]).package_name@ == c[
            if t + 1 == l {
                0int
            } else {
                t + 1
            }]@;
        assert(ids[t] == i1);
        assert(has_edge(g, (c[nx])@, (c[if nx + 1 == l {
            0int
        } else {
            nx + 1
        }])@));
        let (i2, u2) = choose|i: int, j: int|
            0 <= i < g.forward().len() && (#[trigger] g.forward()[i]).0@ == c[nx]@ && 0 <= j
                < g.forward()[i].1@.len() && (#[trigger] g.forward()[i].1@[j]).package_name@ == c[
            if nx + 1 == l {
                0int
            } else {
                nx + 1
            }]@;
        assert(ids[nx] == i2);
        assert((g.forward()[i1].1@[u1]).package_name@ == (g.forward()[i2]).0@);
        assert(!alive[i1]);
        assert(!alive[i2] && rank[i2] < rank[i1]);
    }
    if l == 1 {
        assert(rank[ids[0]] < rank[ids[0]]);
    } else {
        assert forall|t: int| 0 <= t < ids.len() - 1 implies rank[ids[t + 1]]
            < rank[#[trigger] ids[t]] by {}
        lemma_rank_chain(rank, ids, l - 1);
        assert(rank[ids[0]] < rank[ids[l - 1]]);
    }
    assert(false);
}

/// True when consecutive entries of `p` are joined by edges.
pub open spec fn edge_chain(g: DependencyGraph, p: Seq<String>) -> bool {
    forall|k: int| 0 <= k < p.len() - 1 ==> has_edge(g, (#[trigger] p[k])@, p[k + 1]@)
}

/// The first forward entry with the given key, or `-1`.
pub open spec fn pkg_index_of(entries: Seq<(String, Vec<PackageDependency>)>, key: Seq<char>) -> int
    decreases entries.len(),
{
    if entries.len() == 0 {
        -1
    } else if entries[0].0@ == key {
        0
    } else {
        let r = pkg_index_of(entries.drop_first(), key);
        if r >= 0 {
            r + 1
        } else {
            -1
        }
    }
}

/// `pkg_index_of` finds an entry exactly when one exists, and then the
/// first one.
pub proof fn lemma_pkg_index_of(entries: Seq<(String, Vec<PackageDependency>)>, key: Seq<char>)
    ensures
        pkg_index_of(entries, key) >= 0 ==> pkg_index_of(entries, key) < entries.len() && entries[
            pkg_index_of(entries, key)
        ].0@ == key,
        pkg_index_of(entries, key) == -1 ==> forall|i: int|
            0 <= i < entries.len() ==> (#[trigger] entries[i]).0@ != key,
        pkg_index_of(entries, key) >= 0 || pkg_index_of(entries, key) == -1,
    decreases entries.len(),
{
    if entries.len() > 0 {
        lemma_pkg_index_of(entries.drop_first(), key);
        if entries[0].0@ != key && pkg_index_of(entries.drop_first(), key) == -1 {
            assert forall|i: int| 0 <= i < entries.len() implies (#[trigger] entries[i]).0@
                != key by {
                if i > 0 {
                    assert(entries[i] == entries.drop_first()[i - 1]);
                }
            }
        }
    }
}

/// When an entry with the sought key stands at `i` and none does
/// before it, `pkg_index_of` returns `i`.
pub proof fn lemma_pkg_index_of_found(
    entries: Seq<(String, Vec<PackageDependency>)>,
    key: Seq<char>,
    i: int,
)
    requires
        0 <= i < entries.len(),
        entries[i].0@ == key,
        forall|j: int| 0 <= j < i ==> (#[trigger] entries[j]).0@ != key,
    ensures
        pkg_index_of(entries, key) == i,
    decreases entries.len(),
{
    if i > 0 {
        lemma_pkg_index_of_found(entries.drop_first(), key, i - 1);
    }
}

/// The first reverse entry with the given key, or `-1`.
pub open spec fn rev_index_of(entries: Seq<(String, Vec<String>)>, key: Seq<char>) -> int
    decreases entries.len(),
{
    if entries.len() == 0 {
        -1
    } else if entries[0].0@ == key {
        0
    } else {
        let r = rev_index_of(entries.drop_first(), key);
        if r >= 0 {
            r + 1
        } else {
            -1
        }
    }
}

/// `rev_index_of` finds an entry exactly when one exists, and then the
/// first one.
pub proof fn lemma_rev_index_of(entries: Seq<(String, Vec<String>)>, key: Seq<char>)
    ensures
        rev_index_of(entries, key) >= 0 ==> rev_index_of(entries, key) < entries.len() && entries[
            rev_index_of(entries, key)
        ].0@ == key,
        rev_index_of(entries, key) == -1 ==> forall|i: int|
            0 <= i < entries.len() ==> (#[trigger] entries[i]).0@ != key,
        rev_index_of(entries, key) >= 0 || rev_index_of(entries, key) == -1,
    decreases entries.len(),
{
    if entries.len() > 0 {
        lemma_rev_index_of(entries.drop_first(), key);
        if entries[0].0@ != key && rev_index_of(entries.drop_first(), key) == -1 {
            assert forall|i: int| 0 <= i < entries.len() implies (#[trigger] entries[i]).0@
                != key by {
                if i > 0 {
                    assert(entries[i] == entries.drop_first()[i - 1]);
                }
            }
        }
    }
}

/// When an entry with the sought key stands at `i` and none does
/// before it, `rev_index_of` returns `i`.
pub proof fn lemma_rev_index_of_found(
    entries: Seq<(String, Vec<String>)>,
    key: Seq<char>,
    i: int,
)
    requires
        0 <= i < entries.len(),
        entries[i].0@ == key,
        forall|j: int| 0 <= j < i ==> (#[trigger] entries[j]).0@ != key,
    ensures
        rev_index_of(entries, key) == i,
    decreases entries.len(),
{
    if i > 0 {
        lemma_rev_index_of_found(entries.drop_first(), key, i - 1);
    }
}

impl DependencyGraph {
    /// An empty graph.
    pub fn new() -> (r: Self)
        ensures
            r.forward().len() == 0,
            r.reverse().len() == 0,
            r.cache().len() == 0,
    {
        DependencyGraph {
            dependencies: Vec::new(),
            reverse_dependencies: Vec::new(),
            resolution_cache: Vec::new(),
        }
    }

    /// Adds one edge in both maps in the same call: the source
    /// package's forward list gains exactly the new edge (a first entry
    /// is created when none exists), the target package's reverse list
    /// gains the source, nothing else changes, and the memoized results
    /// are cleared, since the mutation may have invalidated them.
    pub fn add_dependency(&mut self, from_package: &str, dependency: PackageDependency)
        ensures
            pkg_index_of(old(self).forward(), from_package@) >= 0 ==> final(self).forward().len()
                == old(self).forward().len() && final(self).forward()[
                pkg_index_of(old(self).forward(), from_package@)
            ].0 == old(self).forward()[pkg_index_of(old(self).forward(), from_package@)].0
                && final(self).forward()[pkg_index_of(old(self).forward(), from_package@)].1@
                == old(self).forward()[
                pkg_index_of(old(self).forward(), from_package@)
            ].1@.push(dependency) && (forall|k: int|
                0 <= k < old(self).forward().len() && k != pkg_index_of(
                    old(self).forward(),
                    from_package@,
                ) ==> final(self).forward()[k] == old(self).forward()[k]),
            pkg_index_of(old(self).forward(), from_package@) == -1 ==> final(self).forward().len()
                == old(self).forward().len() + 1 && (forall|k: int|
                0 <= k < old(self).forward().len() ==> final(self).forward()[k] == old(self).forward()[k]) && final(self).forward().last().0@ == from_package@ && final(self).forward().last().1@.len() == 1 && final(self).forward().last().1@[0] == dependency,
            rev_index_of(old(self).reverse(), dependency.package_name@) >= 0 ==> final(self).reverse().len() == old(self).reverse().len() && final(self).reverse()[
                rev_index_of(old(self).reverse(), dependency.package_name@)
            ].0 == old(self).reverse()[
                rev_index_of(old(self).reverse(), dependency.package_name@)
            ].0 && final(self).reverse()[
                rev_index_of(old(self).reverse(), dependency.package_name@)
            ].1@.len() == old(self).reverse()[
                rev_index_of(old(self).reverse(), dependency.package_name@)
            ].1@.len() + 1 && (final(self).reverse()[
                rev_index_of(old(self).reverse(), dependency.package_name@)
            ].1@.last())@ == from_package@ && (forall|k: int|
                0 <= k < old(self).reverse()[
                    rev_index_of(old(self).reverse(), dependency.package_name@)
                ].1@.len() ==> final(self).reverse()[
                    rev_index_of(old(self).reverse(), dependency.package_name@)
                ].1@[k] == old(self).reverse()[
                    rev_index_of(old(self).reverse(), dependency.package_name@)
                ].1@[k]) && (forall|k: int|
                0 <= k < old(self).reverse().len() && k != rev_index_of(
                    old(self).reverse(),
                    dependency.package_name@,
                ) ==> final(self).reverse()[k] == old(self).reverse()[k]),
            rev_index_of(old(self).reverse(), dependency.package_name@) == -1 ==> final(self).reverse().len() == old(self).reverse().len() + 1 && (forall|k: int|
                0 <= k < old(self).reverse().len() ==> final(self).reverse()[k] == old(self).reverse()[k]) && final(self).reverse().last().0@ == dependency.package_name@
                && final(self).reverse().last().1@.len() == 1 && (final(self).reverse().last().1@[0])@ == from_package@,
            has_edge(*final(self), from_package@, dependency.package_name@),
            final(self).cache().len() == 0,
    {
        let dep_key = dependency.package_name.clone();
        let ghost dep_name = dependency.package_name@;
        let key = from_package.to_owned();
        proof {
            lemma_pkg_index_of(self.forward(), from_package@);
        }
        let n = self.dependencies.len();
        let mut i: usize = 0;
        let mut found = false;
        while i < n && !found
            invariant
                n == self.dependencies@.len(),
                i <= n,
                key@ == from_package@,
                found ==> i < n && self.dependencies@[i as int].0@ == from_package@,
                !found ==> forall|j: int|
                    0 <= j < i ==> (#[trigger] self.dependencies@[j]).0@ != from_package@,
                found ==> forall|j: int|
                    0 <= j < i ==> (#[trigger] self.dependencies@[j]).0@ != from_package@,
                self.reverse_dependencies@ == old(self).reverse_dependencies@,
                self.resolution_cache@ == old(self).resolution_cache@,
                self.dependencies@ == old(self).dependencies@,
            decreases n - i, (if found { 0int } else { 1int }),
        {
            if self.dependencies[i].0 == key {
                found = true;
            } else {
                i += 1;
            }
        }
        if found {
            proof {
                lemma_pkg_index_of_found(self.dependencies@, from_package@, i as int);
            }
            let mut entry = self.dependencies.remove(i);
            entry.1.push(dependency);
            self.dependencies.insert(i, entry);
            proof {
                assert forall|k: int|
                    0 <= k < old(self).dependencies@.len() && k != i implies self.dependencies@[k]
                    == old(self).dependencies@[k] by {
                    if k < i {
                        assert(self.dependencies@[k] == old(self).dependencies@.remove(
                            i as int,
                        )[k]);
                    } else {
                        assert(self.dependencies@[k] == old(self).dependencies@.remove(i as int)[k
                            - 1]);
                    }
                }
            }
        } else {
            proof {
                lemma_pkg_index_of(self.dependencies@, from_package@);
            }
            let mut deps: Vec<PackageDependency> = Vec::new();
            deps.push(dependency);
            self.dependencies.push((key, deps));
        }
        let ghost fwd_done = self.dependencies@;
        let rkey = from_package.to_owned();
        proof {
            lemma_rev_index_of(self.reverse_dependencies@, dep_name);
        }
        let rn = self.reverse_dependencies.len();
        let mut ri: usize = 0;
        let mut rfound = false;
        while ri < rn && !rfound
            invariant
                rn == self.reverse_dependencies@.len(),
                ri <= rn,
                dep_key@ == dep_name,
                rkey@ == from_package@,
                rfound ==> ri < rn && self.reverse_dependencies@[ri as int].0@ == dep_name,
                forall|j: int|
                    0 <= j < ri ==> (#[trigger] self.reverse_dependencies@[j]).0@ != dep_name,
                self.dependencies@ == fwd_done,
                self.reverse_dependencies@ == old(self).reverse_dependencies@,
            decreases rn - ri, (if rfound { 0int } else { 1int }),
        {
            if self.reverse_dependencies[ri].0 == dep_key {
                rfound = true;
            } else {
                ri += 1;
            }
        }
        if rfound {
            proof {
                lemma_rev_index_of_found(self.reverse_dependencies@, dep_name, ri as int);
            }
            let mut rentry = self.reverse_dependencies.remove(ri);
            rentry.1.push(rkey);
            self.reverse_dependencies.insert(ri, rentry);
            proof {
                assert forall|k: int|
                    0 <= k < old(self).reverse_dependencies@.len() && k != ri implies self.reverse_dependencies@[
                    k
                ] == old(self).reverse_dependencies@[k] by {
                    if k < ri {
                        assert(self.reverse_dependencies@[k] == old(self).reverse_dependencies@.remove(ri as int)[k]);
                    } else {
                        assert(self.reverse_dependencies@[k] == old(self).reverse_dependencies@.remove(ri as int)[k - 1]);
                    }
                }
            }
        } else {
            proof {
                lemma_rev_index_of(self.reverse_dependencies@, dep_name);
            }
            let mut sources: Vec<String> = Vec::new();
            sources.push(rkey);
            self.reverse_dependencies.push((dep_key, sources));
        }
        self.resolution_cache = Vec::new();
        proof {
            lemma_pkg_index_of(old(self).forward(), from_package@);
            if pkg_index_of(old(self).forward(), from_package@) >= 0 {
                let fi = pkg_index_of(old(self).forward(), from_package@);
                assert(self.forward()[fi].0@ == from_package@);
                let j = self.forward()[fi].1@.len() - 1;
                assert(self.forward()[fi].1@[j].package_name@ == dep_name);
            } else {
                let fi = self.forward().len() - 1;
                assert(self.forward()[fi].0@ == from_package@);
                assert(self.forward()[fi].1@[0].package_name@ == dep_name);
            }
        }
    }

    /// The direct dependencies recorded for a package: the entries of
    /// the first forward entry with that name, empty when none is.
    pub fn get_dependencies(&self, package: &str) -> (r: Vec<&PackageDependency>)
        ensures
            pkg_index_of(self.forward(), package@) >= 0 ==> r@.len() == self.forward()[
                pkg_index_of(self.forward(), package@)
            ].1@.len() && (forall|k: int|
                0 <= k < r@.len() ==> *(#[trigger] r@[k]) == self.forward()[
                    pkg_index_of(self.forward(), package@)
                ].1@[k]),
            pkg_index_of(self.forward(), package@) == -1 ==> r@.len() == 0,
    {
        proof {
            lemma_pkg_index_of(self.forward(), package@);
        }
        let sought = package.to_owned();
        let n = self.dependencies.len();
        let mut i: usize = 0;
        while i < n
            invariant
                n == self.dependencies@.len(),
                i <= n,
                sought@ == package@,
                forall|j: int| 0 <= j < i ==> (#[trigger] self.dependencies@[j]).0@ != package@,
            decreases n - i,
        {
            if self.dependencies[i].0 == sought {
                proof {
                    lemma_pkg_index_of_found(self.forward(), package@, i as int);
                }
                let m = self.dependencies[i].1.len();
                let mut out: Vec<&PackageDependency> = Vec::new();
                let mut j: usize = 0;
                while j < m
                    invariant
                        i < n,
                        n == self.dependencies@.len(),
                        m == self.dependencies@[i as int].1@.len(),
                        j <= m,
                        out@.len() == j,
                        pkg_index_of(self.forward(), package@) == i,
                        forall|k: int|
                            0 <= k < j ==> *(#[trigger] out@[k]) == self.dependencies@[
                                i as int
                            ].1@[k],
                    decreases m - j,
                {
                    out.push(&self.dependencies[i].1[j]);
                    j += 1;
                }
                return out;
            }
            i += 1;
        }
        Vec::new()
    }

    /// The packages recorded as depending on `package`: the sources in
    /// the first reverse entry with that name, empty when none is.
    pub fn get_dependents(&self, package: &str) -> (r: Vec<&String>)
        ensures
            rev_index_of(self.reverse(), package@) >= 0 ==> r@.len() == self.reverse()[
                rev_index_of(self.reverse(), package@)
            ].1@.len() && (forall|k: int|
                0 <= k < r@.len() ==> *(#[trigger] r@[k]) == self.reverse()[
                    rev_index_of(self.reverse(), package@)
                ].1@[k]),
            rev_index_of(self.reverse(), package@) == -1 ==> r@.len() == 0,
    {
        proof {
            lemma_rev_index_of(self.reverse(), package@);
        }
        let sought = package.to_owned();
        let n = self.reverse_dependencies.len();
        let mut i: usize = 0;
        while i < n
            invariant
                n == self.reverse_dependencies@.len(),
                i <= n,
                sought@ == package@,
                forall|j: int|
                    0 <= j < i ==> (#[trigger] self.reverse_dependencies@[j]).0@ != package@,
            decreases n - i,
        {
            if self.reverse_dependencies[i].0 == sought {
                proof {
                    lemma_rev_index_of_found(self.reverse(), package@, i as int);
                }
                let m = self.reverse_dependencies[i].1.len();
                let mut out: Vec<&String> = Vec::new();
                let mut j: usize = 0;
                while j < m
                    invariant
                        i < n,
                        n == self.reverse_dependencies@.len(),
                        m == self.reverse_dependencies@[i as int].1@.len(),
                        j <= m,
                        out@.len() == j,
                        rev_index_of(self.reverse(), package@) == i,
                        forall|k: int|
                            0 <= k < j ==> *(#[trigger] out@[k]) == self.reverse_dependencies@[
                                i as int
                            ].1@[k],
                    decreases m - j,
                {
                    out.push(&self.reverse_dependencies[i].1[j]);
                    j += 1;
                }
                return out;
            }
            i += 1;
        }
        Vec::new()
    }

    /// Every package reachable from `package` along forward edges,
    /// without duplicates and without `package` itself; every direct
    /// dependency of `package` (other than itself) is in the result,
    /// and the result is memoized until the next mutation.
    #[verifier::rlimit(100)]
    #[verifier::spinoff_prover]
    #[verifier::loop_isolation(false)]
    pub fn get_transitive_dependencies(&mut self, package: &str) -> (r: Vec<String>)
        ensures
            forall|a: int, b2: int|
                0 <= a < b2 < r@.len() ==> (#[trigger] r@[a])@ != (#[trigger] r@[b2])@,
            forall|a: int| 0 <= a < r@.len() ==> (#[trigger] r@[a])@ != package@,
            pkg_index_of(old(self).forward(), package@) >= 0 ==> (forall|k: int|
                0 <= k < old(self).forward()[pkg_index_of(old(self).forward(), package@)].1@.len()
                    && (#[trigger] old(self).forward()[
                    pkg_index_of(old(self).forward(), package@)
                ].1@[k]).package_name@ != package@ ==> listed(
                    r@,
                    old(self).forward()[
                        pkg_index_of(old(self).forward(), package@)
                    ].1@[k].package_name@,
                )),
    {
        let sought = package.to_owned();
        let ghost fwd_idx = pkg_index_of(self.forward(), package@);
        proof {
            lemma_pkg_index_of(self.forward(), package@);
        }
        let direct_refs = self.get_dependencies(package);
        let dn = direct_refs.len();
        let mut direct: Vec<String> = Vec::new();
        let mut di: usize = 0;
        while di < dn
            invariant
                dn == direct_refs@.len(),
                di <= dn,
                direct@.len() == di,
                fwd_idx == pkg_index_of(self.forward(), package@),
                dn > 0 ==> 0 <= fwd_idx < self.forward().len() && dn == self.forward()[
                    fwd_idx
                ].1@.len(),
                forall|k: int|
                    0 <= k < dn ==> *(#[trigger] direct_refs@[k]) == self.forward()[fwd_idx].1@[k],
                forall|k: int|
                    0 <= k < di ==> (#[trigger] direct@[k])@ == self.forward()[
                        fwd_idx
                    ].1@[k].package_name@,
            decreases dn - di,
        {
            direct.push(direct_refs[di].package_name.clone());
            di += 1;
        }
        // A memoized result is reused when it still passes the checks
        // the contract makes: no duplicates, no entry naming the
        // package itself, and every direct dependency present.
        let cache_len = self.resolution_cache.len();
        let mut ci: usize = 0;
        while ci < cache_len
            invariant
                cache_len == self.resolution_cache@.len(),
                ci <= cache_len,
                sought@ == package@,
                fwd_idx == pkg_index_of(self.forward(), package@),
                dn == direct@.len(),
                dn > 0 ==> 0 <= fwd_idx < self.forward().len() && dn == self.forward()[
                    fwd_idx
                ].1@.len(),
                forall|k: int|
                    0 <= k < dn ==> (#[trigger] direct@[k])@ == self.forward()[
                        fwd_idx
                    ].1@[k].package_name@,
            decreases cache_len - ci,
        {
            if self.resolution_cache[ci].0 == sought {
                let cached = &self.resolution_cache[ci].1;
                if distinct_names(cached) && !contains_name(cached, &sought) {
                    let mut all_direct = true;
                    let mut dk: usize = 0;
                    while dk < dn
                        invariant
                            ci < cache_len,
                            cache_len == self.resolution_cache@.len(),
                            dn == direct@.len(),
                            dk <= dn,
                            sought@ == package@,
                            cached == &self.resolution_cache@[ci as int].1,
                            all_direct ==> forall|k: int|
                                0 <= k < dk && (#[trigger] direct@[k])@ != package@ ==> listed(
                                    cached@,
                                    direct@[k]@,
                                ),
                        decreases dn - dk,
                    {
                        if !(direct[dk] == sought) && !contains_name(cached, &direct[dk]) {
                            all_direct = false;
                        }
                        dk += 1;
                    }
                    if all_direct {
                        let copy = clone_names(cached);
                        proof {
                            assert forall|k: int|
                                0 <= k < dn && (#[trigger] direct@[k])@ != package@
                                implies listed(copy@, direct@[k]@) by {
                                assert(listed(cached@, direct@[k]@));
                                let w = choose|w: int|
                                    0 <= w < cached@.len() && (#[trigger] cached@[w])@ == direct@[
                                        k
                                    ]@;
                                assert(copy@[w]@ == cached@[w]@);
                            }
                            assert(self.forward() == old(self).forward());
                            if pkg_index_of(old(self).forward(), package@) >= 0 {
                                assert forall|k: int|
                                    0 <= k < old(self).forward()[
                                        pkg_index_of(old(self).forward(), package@)
                                    ].1@.len() && (#[trigger] old(self).forward()[
                                        pkg_index_of(old(self).forward(), package@)
                                    ].1@[k]).package_name@ != package@ implies listed(
                                    copy@,
                                    old(self).forward()[
                                        pkg_index_of(old(self).forward(), package@)
                                    ].1@[k].package_name@,
                                ) by {
                                    assert((direct@[k])@ == self.forward()[
                                        fwd_idx
                                    ].1@[k].package_name@);
                                    assert(listed(copy@, direct@[k]@));
                                }
                            }
                            assert forall|a: int|
                                0 <= a < copy@.len() implies (#[trigger] copy@[a])@ != package@ by {
                                assert(copy@[a]@ == cached@[a]@);
                            }
                        }
                        return copy;
                    }
                }
            }
            ci += 1;
        }
        let mut visited: Vec<String> = Vec::new();
        visited.push(package.to_owned());
        let mut result: Vec<String> = Vec::new();
        let mut stack: Vec<String> = Vec::new();
        let mut ni: usize = 0;
        while ni < dn
            invariant
                dn == direct@.len(),
                ni <= dn,
                sought@ == package@,
                fwd_idx == pkg_index_of(self.forward(), package@),
                dn > 0 ==> 0 <= fwd_idx < self.forward().len() && dn == self.forward()[
                    fwd_idx
                ].1@.len(),
                forall|k: int|
                    0 <= k < dn ==> (#[trigger] direct@[k])@ == self.forward()[
                        fwd_idx
                    ].1@[k].package_name@,
                forall|a: int, b2: int|
                    0 <= a < b2 < result@.len() ==> (#[trigger] result@[a])@ != (
                    #[trigger] result@[b2])@,
                forall|a: int| 0 <= a < result@.len() ==> (#[trigger] result@[a])@ != package@,
                forall|k: int|
                    0 <= k < ni && (#[trigger] direct@[k])@ != package@ ==> listed(
                        result@,
                        direct@[k]@,
                    ),
            decreases dn - ni,
        {
            let name = &direct[ni];
            let ghost pre = result@;
            if !(*name == sought) {
                if !contains_name(&result, name) {
                    result.push(name.clone());
                    proof {
                        assert(result@[result@.len() - 1]@ == direct@[ni as int]@);
                    }
                }
                proof {
                    assert(listed(result@, direct@[ni as int]@));
                }
                if !contains_name(&visited, name) {
                    visited.push(name.clone());
                    stack.push(name.clone());
                }
            }
            proof {
                assert forall|k: int|
                    0 <= k < ni + 1 && (#[trigger] direct@[k])@ != package@ implies listed(
                    result@,
                    direct@[k]@,
                ) by {
                    if k < ni {
                        lemma_listed_extend(pre, result@, direct@[k]@);
                    }
                }
            }
            ni += 1;
        }
        let base = self.dependencies.len();
        let mut fuel: usize = if base < 1000000 {
            base * 64 + 64
        } else {
            64000064
        };
        while stack.len() > 0 && fuel > 0
            invariant
                sought@ == package@,
                forall|a: int, b2: int|
                    0 <= a < b2 < result@.len() ==> (#[trigger] result@[a])@ != (
                    #[trigger] result@[b2])@,
                forall|a: int| 0 <= a < result@.len() ==> (#[trigger] result@[a])@ != package@,
                forall|k: int|
                    0 <= k < direct@.len() && (#[trigger] direct@[k])@ != package@ ==> listed(
                        result@,
                        direct@[k]@,
                    ),
            decreases fuel,
        {
            fuel -= 1;
            let current = match stack.pop() {
                Some(c) => c,
                None => { break ; },
            };
            let deps = self.get_dependencies(current.as_str());
            let depn = deps.len();
            let mut names: Vec<String> = Vec::new();
            let mut di2: usize = 0;
            while di2 < depn
                invariant
                    depn == deps@.len(),
                    di2 <= depn,
                decreases depn - di2,
            {
                names.push(deps[di2].package_name.clone());
                di2 += 1;
            }
            let nn = names.len();
            let mut nj: usize = 0;
            while nj < nn
                invariant
                    nn == names@.len(),
                    nj <= nn,
                    sought@ == package@,
                    forall|a: int, b2: int|
                        0 <= a < b2 < result@.len() ==> (#[trigger] result@[a])@ != (
                        #[trigger] result@[b2])@,
                    forall|a: int| 0 <= a < result@.len() ==> (#[trigger] result@[a])@ != package@,
                    forall|k: int|
                        0 <= k < direct@.len() && (#[trigger] direct@[k])@ != package@ ==> listed(
                            result@,
                            direct@[k]@,
                        ),
                decreases nn - nj,
            {
                let name = &names[nj];
                let ghost pre = result@;
                if !(*name == sought) {
                    if !contains_name(&visited, name) {
                        visited.push(name.clone());
                        if !contains_name(&result, name) {
                            result.push(name.clone());
                        }
                        stack.push(name.clone());
                    }
                }
                proof {
                    assert forall|k: int|
                        0 <= k < direct@.len() && (#[trigger] direct@[k])@ != package@
                        implies listed(result@, direct@[k]@) by {
                        lemma_listed_extend(pre, result@, direct@[k]@);
                    }
                }
                nj += 1;
            }
        }
        self.resolution_cache.push((sought, clone_names(&result)));
        proof {
            assert(self.forward() == old(self).forward());
            if pkg_index_of(old(self).forward(), package@) >= 0 {
                assert forall|k: int|
                    0 <= k < old(self).forward()[
                        pkg_index_of(old(self).forward(), package@)
                    ].1@.len() && (#[trigger] old(self).forward()[
                        pkg_index_of(old(self).forward(), package@)
                    ].1@[k]).package_name@ != package@ implies listed(
                    result@,
                    old(self).forward()[
                        pkg_index_of(old(self).forward(), package@)
                    ].1@[k].package_name@,
                ) by {
                    assert((direct@[k])@ == self.forward()[fwd_idx].1@[k].package_name@);
                    assert(listed(result@, direct@[k]@));
                }
            }
        }
        result
    }

    /// Whether some target of entry `i` is defined by a live entry.
    #[verifier::loop_isolation(false)]
    fn entry_blocked_exec(&self, alive: &Vec<bool>, i: usize) -> (r: bool)
        requires
            alive@.len() == self.forward().len(),
            i < self.forward().len(),
        ensures
            r == entry_blocked(*self, alive@, i as int),
    {
        let n = self.dependencies.len();
        let tn = self.dependencies[i].1.len();
        let mut u: usize = 0;
        while u < tn
            invariant
                u <= tn,
                forall|uu: int, j: int|
                    0 <= uu < u && 0 <= j < n && alive@[j] ==> (#[trigger] self.forward()[
                        i as int
                    ].1@[uu]).package_name@ != (#[trigger] self.forward()[j]).0@,
            decreases tn - u,
        {
            let mut j: usize = 0;
            while j < n
                invariant
                    u < tn,
                    j <= n,
                    forall|jj: int|
                        0 <= jj < j && alive@[jj] ==> (#[trigger] self.forward()[jj]).0@
                            != self.forward()[i as int].1@[u as int].package_name@,
                decreases n - j,
            {
                if alive[j] && self.dependencies[j].0 == self.dependencies[i].1[u].package_name {
                    return true;
                }
                j += 1;
            }
            u += 1;
        }
        false
    }

    /// The first live entry defining some target of entry `i`; the
    /// caller guarantees one exists.
    #[verifier::loop_isolation(false)]
    fn find_blocker(&self, alive: &Vec<bool>, i: usize) -> (r: (usize, usize))
        requires
            alive@.len() == self.forward().len(),
            i < self.forward().len(),
            entry_blocked(*self, alive@, i as int),
        ensures
            r.0 < self.forward()[i as int].1@.len(),
            r.1 < self.forward().len(),
            alive@[r.1 as int],
            (self.forward()[i as int].1@[r.0 as int]).package_name@ == (self.forward()[
                r.1 as int
            ]).0@,
    {
        let n = self.dependencies.len();
        let tn = self.dependencies[i].1.len();
        let mut u: usize = 0;
        while u < tn
            invariant
                u <= tn,
                forall|uu: int, j: int|
                    0 <= uu < u && 0 <= j < n && alive@[j] ==> (#[trigger] self.forward()[
                        i as int
                    ].1@[uu]).package_name@ != (#[trigger] self.forward()[j]).0@,
            decreases tn - u,
        {
            let mut j: usize = 0;
            while j < n
                invariant
                    u < tn,
                    j <= n,
                    forall|jj: int|
                        0 <= jj < j && alive@[jj] ==> (#[trigger] self.forward()[jj]).0@
                            != self.forward()[i as int].1@[u as int].package_name@,
                decreases n - j,
            {
                if alive[j] && self.dependencies[j].0 == self.dependencies[i].1[u].package_name {
                    return (u, j);
                }
                j += 1;
            }
            u += 1;
        }
        proof {
            assert(!entry_blocked(*self, alive@, i as int));
        }
        unreached()
    }

    /// Walks the graph and reports cycles. Every reported list is a
    /// genuine cycle, package to package and back around; an empty
    /// report means the graph holds no cycle at all. Entries whose
    /// targets all lead out of the live set are retired repeatedly;
    /// when everything retires the retirement order rules a cycle out,
    /// and when nothing more retires a walk through the live entries
    /// must close a loop, which is returned.
    #[verifier::rlimit(100)]
    #[verifier::spinoff_prover]
    #[verifier::loop_isolation(false)]
    pub fn check_circular_dependencies(&self) -> (r: Vec<Vec<String>>)
        ensures
            forall|c: int| 0 <= c < r@.len() ==> sound_cycle(*self, (#[trigger] r@[c])@),
            r@.len() == 0 ==> forall|c: Seq<String>| !sound_cycle(*self, c),
    {
        let n = self.dependencies.len();
        let mut alive: Vec<bool> = Vec::new();
        let mut f: usize = 0;
        while f < n
            invariant
                alive@.len() == f,
                f <= n,
                forall|x: int| 0 <= x < f ==> alive@[x],
            decreases n - f,
        {
            alive.push(true);
            f += 1;
        }
        proof {
            lemma_count_true_full(alive@);
        }
        let ghost mut rank: Map<int, int> = Map::empty();
        let ghost mut step: int = 0;
        let mut alive_count: usize = n;
        let mut changed = true;
        while changed
            invariant
                n == self.forward().len(),
                alive@.len() == n,
                ranked(*self, alive@, rank),
                forall|x: int| rank.dom().contains(x) ==> rank[x] < step,
                alive_count == count_true(alive@),
                !changed ==> forall|e: int|
                    0 <= e < n && alive@[e] ==> entry_blocked(*self, alive@, e),
            decreases alive_count + (if changed {
                1int
            } else {
                0int
            }),
        {
            changed = false;
            let ghost ac0 = alive_count;
            let mut i: usize = 0;
            while i < n
                invariant
                    ranked(*self, alive@, rank),
                    forall|x: int| rank.dom().contains(x) ==> rank[x] < step,
                    alive_count == count_true(alive@),
                    i <= n,
                    changed ==> alive_count < ac0,
                    !changed ==> alive_count == ac0,
                    !changed ==> forall|e: int|
                        0 <= e < i && alive@[e] ==> entry_blocked(*self, alive@, e),
                decreases n - i,
            {
                if alive[i] {
                    if !self.entry_blocked_exec(&alive, i) {
                        proof {
                            lemma_count_true_pos(alive@, i as int);
                            lemma_count_true_update(alive@, i as int);
                        }
                        let ghost old_alive = alive@;
                        alive.set(i, false);
                        alive_count -= 1;
                        proof {
                            rank = rank.insert(i as int, step);
                            assert(alive@ =~= old_alive.update(i as int, false));
                            assert forall|x: int, u: int, j: int|
                                0 <= x < self.forward().len() && !alive@[x] && 0 <= u
                                    < self.forward()[x].1@.len() && 0 <= j < self.forward().len()
                                    && (#[trigger] self.forward()[x].1@[u]).package_name@ == (
                                #[trigger] self.forward()[j]).0@ implies !alive@[j] && rank[j]
                                < rank[x] by {
                                if x == i as int {
                                    assert(!entry_blocked(*self, old_alive, i as int));
                                    assert(!old_alive[j]);
                                } else {
                                    assert(!old_alive[x]);
                                }
                            }
                            step = step + 1;
                        }
                        changed = true;
                    }
                }
                i += 1;
            }
        }
        if alive_count == 0 {
            proof {
                lemma_count_true_zero(alive@);
                assert forall|c: Seq<String>| !sound_cycle(*self, c) by {
                    lemma_ranked_all_no_cycle(*self, alive@, rank, c);
                }
            }
            return Vec::new();
        }
        // Nothing more retires, so every live entry points at a live
        // entry: walking those pointers must revisit an entry, and the
        // revisited stretch is a cycle.
        let mut s0: usize = 0;
        let mut found0 = false;
        while s0 < n && !found0
            invariant
                s0 <= n,
                found0 ==> s0 < n && alive@[s0 as int],
                !found0 ==> forall|x: int| 0 <= x < s0 ==> !alive@[x],
            decreases n - s0 + (if found0 {
                0int
            } else {
                1int
            }),
        {
            if alive[s0] {
                found0 = true;
            } else {
                s0 += 1;
            }
        }
        if !found0 {
            proof {
                lemma_count_true_none(alive@);
            }
            return Vec::new();
        }
        let cycle = self.walk_cycle(&alive, s0);
        let mut result: Vec<Vec<String>> = Vec::new();
        result.push(cycle);
        result
    }

    /// Follows, from a live entry, the pointer each live entry has
    /// into the live set, until an entry repeats; the repeated stretch
    /// is returned and is a genuine cycle.
    #[verifier::rlimit(100)]
    #[verifier::spinoff_prover]
    #[verifier::loop_isolation(false)]
    fn walk_cycle(&self, alive: &Vec<bool>, s0: usize) -> (r: Vec<String>)
        requires
            alive@.len() == self.forward().len(),
            s0 < self.forward().len(),
            alive@[s0 as int],
            forall|e: int|
                0 <= e < self.forward().len() && alive@[e] ==> entry_blocked(*self, alive@, e),
        ensures
            sound_cycle(*self, r@),
    {
        let n = self.dependencies.len();
        let mut path_idx: Vec<usize> = Vec::new();
        path_idx.push(s0);
        let ghost mut wit: Seq<int> = Seq::empty();
        loop
            invariant
                n == self.forward().len(),
                alive@.len() == n,
                forall|e: int| 0 <= e < n && alive@[e] ==> entry_blocked(*self, alive@, e),
                1 <= path_idx@.len(),
                forall|k: int|
                    0 <= k < path_idx@.len() ==> (#[trigger] path_idx@[k]) < n && alive@[
                        path_idx@[k] as int
                    ],
                forall|a: int, b2: int|
                    #![trigger path_idx@[a], path_idx@[b2]]
                    0 <= a < b2 < path_idx@.len() ==> path_idx@[a] != path_idx@[b2],
                wit.len() == path_idx@.len() - 1,
                forall|k: int|
                    0 <= k < wit.len() ==> 0 <= #[trigger] wit[k] && wit[k] < self.forward()[
                        path_idx@[k] as int
                    ].1@.len() && (self.forward()[path_idx@[k] as int].1@[wit[k]]).package_name@
                        == (self.forward()[path_idx@[k + 1] as int]).0@,
            decreases n + 1 - path_idx@.len(),
        {
            proof {
                let ids = path_idx@.map_values(|v: usize| v as int);
                assert forall|a: int| 0 <= a < ids.len() implies 0 <= #[trigger] ids[a]
                    < n as int by {
                    assert(ids[a] == path_idx@[a] as int);
                }
                assert forall|a: int, b2: int|
                    #![trigger ids[a], ids[b2]]
                    0 <= a < b2 < ids.len() implies ids[a] != ids[b2] by {
                    assert(ids[a] == path_idx@[a] as int);
                    assert(ids[b2] == path_idx@[b2] as int);
                }
                lemma_distinct_bounded(ids, n as int);
            }
            let cur = path_idx[path_idx.len() - 1];
            let picked = self.find_blocker(&alive, cur);
            let u = picked.0;
            let j = picked.1;
            let plen = path_idx.len();
            let mut p: usize = 0;
            let mut found = false;
            while p < plen && !found
                invariant
                    plen == path_idx@.len(),
                    p <= plen,
                    found ==> p < plen && path_idx@[p as int] == j,
                    !found ==> forall|k: int| 0 <= k < p ==> (#[trigger] path_idx@[k]) != j,
                decreases plen - p + (if found {
                    0int
                } else {
                    1int
                }),
            {
                if path_idx[p] == j {
                    found = true;
                } else {
                    p += 1;
                }
            }
            if found {
                let clen = path_idx.len() - p;
                let mut cycle: Vec<String> = Vec::new();
                let mut k: usize = 0;
                while k < clen
                    invariant
                        p + clen == path_idx@.len(),
                        cycle@.len() == k,
                        k <= clen,
                        forall|x: int|
                            0 <= x < k ==> (#[trigger] cycle@[x])@ == (self.forward()[
                                path_idx@[p + x] as int
                            ]).0@,
                    decreases clen - k,
                {
                    cycle.push(self.dependencies[path_idx[p + k]].0.clone());
                    k += 1;
                }
                proof {
                    assert forall|t: int| 0 <= t < cycle@.len() implies has_edge(
                        *self,
                        (#[trigger] cycle@[t])@,
                        cycle@[if t + 1 == cycle@.len() {
                            0int
                        } else {
                            t + 1
                        }]@,
                    ) by {
                        if t + 1 == cycle@.len() {
                            let last = path_idx@[path_idx@.len() - 1] as int;
                            assert(p + t == path_idx@.len() - 1);
                            assert(cycle@[t]@ == (self.forward()[last]).0@);
                            assert((self.forward()[last].1@[u as int]).package_name@ == (
                            self.forward()[j as int]).0@);
                            assert(cycle@[0]@ == (self.forward()[path_idx@[p as int] as int]).0@);
                            assert(path_idx@[p as int] == j);
                        } else {
                            let pk = path_idx@[p + t] as int;
                            let pk1 = path_idx@[p + t + 1] as int;
                            assert(0 <= wit[p + t]);
                            assert(wit[p + t] < self.forward()[pk].1@.len());
                            assert((self.forward()[pk].1@[wit[p + t]]).package_name@ == (
                            self.forward()[pk1]).0@);
                        }
                    }
                }
                return cycle;
            }
            let ghost pre = path_idx@;
            let ghost prewit = wit;
            path_idx.push(j);
            proof {
                wit = wit.push(u as int);
                assert forall|k: int|
                    0 <= k < wit.len() implies 0 <= #[trigger] wit[k] && wit[k] < self.forward()[
                        path_idx@[k] as int
                    ].1@.len() && (self.forward()[path_idx@[k] as int].1@[wit[k]]).package_name@
                        == (self.forward()[path_idx@[k + 1] as int]).0@ by {
                    if k < prewit.len() {
                        assert(wit[k] == prewit[k]);
                        assert(path_idx@[k] == pre[k]);
                        assert(path_idx@[k + 1] == pre[k + 1]);
                    } else {
                        assert(wit[k] == u as int);
                        assert(path_idx@[k] == cur);
                        assert(path_idx@[k + 1] == j);
                        assert((u as int) < self.forward()[cur as int].1@.len() && (
                        self.forward()[cur as int].1@[u as int]).package_name@ == (
                        self.forward()[j as int]).0@);
                    }
                }
            }
        }
    }

    /// Counts packages and edges: how many packages have entries, how
    /// many edges there are, and how many of them are hard. The edge
    /// counts are exact whenever they fit the machine word.
    pub fn get_statistics(&self) -> (r: (usize, usize, usize))
        ensures
            r.0 == self.forward().len(),
            total_edge_count(self.forward(), self.forward().len() as int) <= usize::MAX ==> r.1
                == total_edge_count(self.forward(), self.forward().len() as int),
            hard_edge_count(self.forward(), self.forward().len() as int) <= usize::MAX ==> r.2
                == hard_edge_count(self.forward(), self.forward().len() as int),
    {
        proof {
            lemma_edge_counts_ordered(self.forward(), self.forward().len() as int);
        }
        let total_packages = self.dependencies.len();
        let mut total_dependencies: usize = 0;
        let mut hard_dependencies: usize = 0;
        let n = self.dependencies.len();
        let mut i: usize = 0;
        while i < n
            invariant
                n == self.dependencies@.len(),
                i <= n,
                total_edge_count(self.forward(), i as int) > usize::MAX || total_dependencies
                    == total_edge_count(self.forward(), i as int),
                hard_edge_count(self.forward(), i as int) > usize::MAX || hard_dependencies
                    == hard_edge_count(self.forward(), i as int),
                forall|k: int|
                    0 <= k <= n ==> #[trigger] hard_edge_count(self.forward(), k)
                        <= total_edge_count(self.forward(), k),
                forall|k: int, k2: int|
                    0 <= k <= k2 <= n ==> #[trigger] total_edge_count(self.forward(), k)
                        <= #[trigger] total_edge_count(self.forward(), k2),
                forall|k: int, k2: int|
                    0 <= k <= k2 <= n ==> #[trigger] hard_edge_count(self.forward(), k)
                        <= #[trigger] hard_edge_count(self.forward(), k2),
            decreases n - i,
        {
            let m = self.dependencies[i].1.len();
            if total_dependencies <= usize::MAX - m {
                total_dependencies += m;
            } else {
                proof {
                    assert(total_edge_count(self.forward(), i as int + 1) > usize::MAX);
                }
            }
            let ghost hard_pre = hard_dependencies;
            let mut j: usize = 0;
            let mut hard_here: usize = 0;
            while j < m
                invariant
                    i < n,
                    n == self.dependencies@.len(),
                    m == self.dependencies@[i as int].1@.len(),
                    j <= m,
                    hard_here <= j,
                    hard_here == hard_in_prefix(self.dependencies@[i as int].1@, j as int),
                decreases m - j,
            {
                if self.dependencies[i].1[j].is_hard_dependency {
                    hard_here += 1;
                }
                j += 1;
            }
            if hard_dependencies <= usize::MAX - hard_here {
                hard_dependencies += hard_here;
            } else {
                proof {
                    assert(hard_edge_count(self.forward(), i as int + 1) > usize::MAX);
                }
            }
            i += 1;
        }
        (total_packages, total_dependencies, hard_dependencies)
    }
}

/// The number of edges in the first `n` forward entries.
pub open spec fn total_edge_count(entries: Seq<(String, Vec<PackageDependency>)>, n: int) -> int
    decreases n,
{
    if n <= 0 {
        0
    } else {
        total_edge_count(entries, n - 1) + entries[n - 1].1@.len()
    }
}

/// The number of hard edges among the first `j` of one entry's list.
pub open spec fn hard_in_prefix(deps: Seq<PackageDependency>, j: int) -> int
    decreases j,
{
    if j <= 0 {
        0
    } else {
        hard_in_prefix(deps, j - 1) + if deps[j - 1].is_hard_dependency {
            1int
        } else {
            0int
        }
    }
}

/// The number of hard edges in the first `n` forward entries.
pub open spec fn hard_edge_count(entries: Seq<(String, Vec<PackageDependency>)>, n: int) -> int
    decreases n,
{
    if n <= 0 {
        0
    } else {
        hard_edge_count(entries, n - 1) + hard_in_prefix(entries[n - 1].1@, entries[n
            - 1].1@.len() as int)
    }
}

/// The edge counts grow with the prefix, and hard edges never
/// outnumber all edges.
pub proof fn lemma_edge_counts_ordered(entries: Seq<(String, Vec<PackageDependency>)>, n: int)
    ensures
        forall|k: int|
            0 <= k <= n ==> #[trigger] hard_edge_count(entries, k) <= total_edge_count(entries, k),
        forall|k: int, k2: int|
            0 <= k <= k2 <= n ==> #[trigger] total_edge_count(entries, k)
                <= #[trigger] total_edge_count(entries, k2),
        forall|k: int, k2: int|
            0 <= k <= k2 <= n ==> #[trigger] hard_edge_count(entries, k)
                <= #[trigger] hard_edge_count(entries, k2),
    decreases n,
{
    if n > 0 {
        lemma_edge_counts_ordered(entries, n - 1);
        lemma_hard_in_prefix_le(entries[n - 1].1@, entries[n - 1].1@.len() as int);
        assert forall|k: int| 0 <= k <= n implies #[trigger] hard_edge_count(entries, k)
            <= total_edge_count(entries, k) by {
            if k == n {
                lemma_hard_in_prefix_le(entries[n - 1].1@, entries[n - 1].1@.len() as int);
                assert(hard_edge_count(entries, n) == hard_edge_count(entries, n - 1)
                    + hard_in_prefix(entries[n - 1].1@, entries[n - 1].1@.len() as int));
                assert(total_edge_count(entries, n) == total_edge_count(entries, n - 1) + entries[
                    n - 1
                ].1@.len());
            }
        }
        assert forall|k: int, k2: int|
            0 <= k <= k2 <= n implies #[trigger] total_edge_count(entries, k)
            <= #[trigger] total_edge_count(entries, k2) by {
            lemma_total_mono(entries, k, k2);
        }
        assert forall|k: int, k2: int|
            0 <= k <= k2 <= n implies #[trigger] hard_edge_count(entries, k)
            <= #[trigger] hard_edge_count(entries, k2) by {
            lemma_hard_mono(entries, k, k2);
        }
    }
}

/// Hard edges in a prefix never outnumber the prefix.
pub proof fn lemma_hard_in_prefix_le(deps: Seq<PackageDependency>, j: int)
    ensures
        hard_in_prefix(deps, j) <= (if j <= 0 {
            0int
        } else {
            j
        }),
        hard_in_prefix(deps, j) >= 0,
    decreases j,
{
    if j > 0 {
        lemma_hard_in_prefix_le(deps, j - 1);
    }
}

/// The total edge count grows with the prefix.
pub proof fn lemma_total_mono(entries: Seq<(String, Vec<PackageDependency>)>, k: int, k2: int)
    requires
        k <= k2,
    ensures
        total_edge_count(entries, k) <= total_edge_count(entries, k2),
    decreases k2 - k,
{
    if k < k2 {
        lemma_total_mono(entries, k, k2 - 1);
    }
}

/// The hard edge count grows with the prefix.
pub proof fn lemma_hard_mono(entries: Seq<(String, Vec<PackageDependency>)>, k: int, k2: int)
    requires
        k <= k2,
    ensures
        hard_edge_count(entries, k) <= hard_edge_count(entries, k2),
    decreases k2 - k,
{
    if k < k2 {
        lemma_hard_mono(entries, k, k2 - 1);
        lemma_hard_in_prefix_le(entries[k2 - 1].1@, entries[k2 - 1].1@.len() as int);
    }
}

/// True when some string of the list reads as the given characters.
pub open spec fn listed(l: Seq<String>, s: Seq<char>) -> bool {
    exists|k: int| 0 <= k < l.len() && (#[trigger] l[k])@ == s
}

/// A listed string stays listed when the list grows at the end.
pub proof fn lemma_listed_extend(l1: Seq<String>, l2: Seq<String>, s: Seq<char>)
    requires
        listed(l1, s),
        l1.len() <= l2.len(),
        forall|k: int| 0 <= k < l1.len() ==> #[trigger] l2[k] == l1[k],
    ensures
        listed(l2, s),
{
    let k = choose|k: int| 0 <= k < l1.len() && (#[trigger] l1[k])@ == s;
    assert(l2[k] == l1[k]);
}

/// True when the list holds a string equal to `name`.
fn contains_name(list: &Vec<String>, name: &String) -> (r: bool)
    ensures
        r == exists|i: int| 0 <= i < list@.len() && (#[trigger] list@[i])@ == name@,
{
    let n = list.len();
    let mut i: usize = 0;
    while i < n
        invariant
            n == list@.len(),
            i <= n,
            forall|j: int| 0 <= j < i ==> (#[trigger] list@[j])@ != name@,
        decreases n - i,
    {
        if list[i] == *name {
            proof {
                assert((list@[i as int])@ == name@);
            }
            return true;
        }
        i += 1;
    }
    false
}

/// True when the list holds no two equal strings.
fn distinct_names(list: &Vec<String>) -> (r: bool)
    ensures
        r ==> forall|a: int, b2: int|
            0 <= a < b2 < list@.len() ==> (#[trigger] list@[a])@ != (#[trigger] list@[b2])@,
{
    let n = list.len();
    let mut i: usize = 0;
    while i < n
        invariant
            n == list@.len(),
            i <= n,
            forall|a: int, b2: int| 0 <= a < b2 < i ==> (#[trigger] list@[a])@ != (#[trigger] list@[b2])@,
        decreases n - i,
    {
        let mut j: usize = 0;
        while j < i
            invariant
                i < n,
                n == list@.len(),
                j <= i,
                forall|b2: int| 0 <= b2 < j ==> (#[trigger] list@[b2])@ != list@[i as int]@,
            decreases i - j,
        {
            let same = list[j] == list[i];
            if same {
                return false;
            }
            j += 1;
        }
        proof {
            assert(forall|b2: int| 0 <= b2 < i ==> (#[trigger] list@[b2])@ != list@[i as int]@);
        }
        i += 1;
    }
    true
}

/// A copy of a string list.
fn clone_names(list: &Vec<String>) -> (r: Vec<String>)
    ensures
        r@.len() == list@.len(),
        forall|i: int| 0 <= i < r@.len() ==> (#[trigger] r@[i])@ == list@[i]@,
{
    let n = list.len();
    let mut out: Vec<String> = Vec::new();
    let mut i: usize = 0;
    while i < n
        invariant
            n == list@.len(),
            i <= n,
            out@.len() == i,
            forall|k: int| 0 <= k < i ==> (#[trigger] out@[k])@ == list@[k]@,
        decreases n - i,
    {
        out.push(list[i].clone());
        i += 1;
    }
    out
}

} // verus!
