//! The package-index resolution graph: turning signed table references
//! into object information, walking outer chains into full paths with
//! a fixed depth bound, and collecting the references an object
//! depends on.

use vstd::prelude::*;
use crate::asset::{Import, Export};
use crate::error::UnrealAssetError;
use crate::types::{PackageIndex, FName, Guid};

verus! {

broadcast use vstd::std_specs::vec::group_vec_axioms, vstd::seq::group_seq_axioms;

/// The most outer-chain hops a path resolution will follow before it
/// reports a cycle-or-depth error. Outer chains are expected to be
/// shallow trees; corrupt or adversarial input must not hang the
/// resolver.
pub const MAX_RESOLUTION_DEPTH: u32 = 100;

/// The result of resolving one package reference.
#[derive(Debug, PartialEq)]
pub enum ObjectReference {
    /// The null reference.
    Null,
    /// A resolved import-table entry.
    Import {
        /// The zero-based import index.
        index: usize,
        /// The package that defines the class.
        class_package: FName,
        /// The class of the object.
        class_name: FName,
        /// The name of the object.
        object_name: FName,
        /// The enclosing object.
        outer_index: PackageIndex,
        /// The defining package's identifier, when recorded.
        package_guid: Option<Guid>,
    },
    /// A resolved export-table entry.
    Export {
        /// The zero-based export index.
        index: usize,
        /// The class of the object.
        class_index: PackageIndex,
        /// The superclass.
        super_index: PackageIndex,
        /// The template object.
        template_index: PackageIndex,
        /// The enclosing object.
        outer_index: PackageIndex,
        /// The name of the object.
        object_name: FName,
        /// The object's flags.
        object_flags: u32,
    },
}

/// True when the raw reference value `v` can be resolved against the
/// tables: null, or an in-range import or export index.
pub open spec fn resolvable(imps: Seq<Import>, exps: Seq<Export>, v: int) -> bool {
    ||| v == 0
    ||| (v < 0 && -v - 1 < imps.len())
    ||| (v > 0 && v - 1 < exps.len())
}

/// The outer reference of the object `v` names, when `v` resolves to
/// an import or export.
pub open spec fn outer_of(imps: Seq<Import>, exps: Seq<Export>, v: int) -> Option<int> {
    if v < 0 && -v - 1 < imps.len() {
        Option::Some(imps[-v - 1].outer_index.0 as int)
    } else if v > 0 && v - 1 < exps.len() {
        Option::Some(exps[v - 1].outer_index.0 as int)
    } else {
        Option::None
    }
}

/// The object name of the object `v` names, when `v` resolves.
pub open spec fn name_of(imps: Seq<Import>, exps: Seq<Export>, v: int) -> Seq<char> {
    if v < 0 && -v - 1 < imps.len() {
        imps[-v - 1].object_name.name@
    } else if v > 0 && v - 1 < exps.len() {
        exps[v - 1].object_name.name@
    } else {
        Seq::empty()
    }
}

/// True when the outer chain starting at `v` reaches the null
/// reference within `k` hops, every link resolving.
pub open spec fn reaches_null(imps: Seq<Import>, exps: Seq<Export>, v: int, k: nat) -> bool
    decreases k,
{
    if v == 0 {
        true
    } else if k == 0 {
        false
    } else {
        match outer_of(imps, exps, v) {
            Option::Some(o) => reaches_null(imps, exps, o, (k - 1) as nat),
            Option::None => false,
        }
    }
}

/// The full path of `v`: the names from the root down to `v`, joined
/// with a slash. Meaningful when the chain reaches null within `k`
/// hops.
pub open spec fn path_of(imps: Seq<Import>, exps: Seq<Export>, v: int, k: nat) -> Seq<char>
    decreases k,
{
    if v == 0 || k == 0 {
        Seq::empty()
    } else {
        match outer_of(imps, exps, v) {
            Option::Some(o) => {
                let prefix = path_of(imps, exps, o, (k - 1) as nat);
                if o == 0 {
                    name_of(imps, exps, v)
                } else {
                    prefix + seq!['/'] + name_of(imps, exps, v)
                }
            },
            Option::None => Seq::empty(),
        }
    }
}

/// An outer chain that loops between two objects never reaches the
/// null reference, whatever hop budget it is given: a cycle always
/// ends in the depth error, not in a path.
pub proof fn lemma_outer_cycle_never_reaches_null(
    imps: Seq<Import>,
    exps: Seq<Export>,
    a: int,
    b: int,
    k: nat,
)
    requires
        a != 0,
        b != 0,
        outer_of(imps, exps, a) == Option::Some(b),
        outer_of(imps, exps, b) == Option::Some(a),
    ensures
        !reaches_null(imps, exps, a, k),
    decreases k,
{
    if k > 0 {
        lemma_outer_cycle_never_reaches_null(imps, exps, b, a, (k - 1) as nat);
    }
}

/// The class name an export reference resolves to: the base object
/// class for a null class, else the named class object's own name;
/// nothing when the class reference is outside both tables.
pub open spec fn export_class_name(imps: Seq<Import>, exps: Seq<Export>, k: int) -> Option<
    Seq<char>,
> {
    let ci = exps[k].class_index.0 as int;
    if ci == 0 {
        Option::Some("Object"@)
    } else if ci < 0 && -ci - 1 < imps.len() {
        Option::Some(imps[-ci - 1].object_name.name@)
    } else if ci > 0 && ci - 1 < exps.len() {
        Option::Some(exps[ci - 1].object_name.name@)
    } else {
        Option::None
    }
}

/// True when some result pair carries the raw reference value `v`.
pub open spec fn has_pair(r: Seq<(PackageIndex, ObjectReference)>, v: int) -> bool {
    exists|k: int| 0 <= k < r.len() && (#[trigger] r[k]).0.0 == v
}

/// A recorded pair stays recorded when the result list grows at the
/// end.
pub proof fn lemma_has_pair_extend(
    r1: Seq<(PackageIndex, ObjectReference)>,
    r2: Seq<(PackageIndex, ObjectReference)>,
    v: int,
)
    requires
        has_pair(r1, v),
        r1.len() <= r2.len(),
        forall|k: int| 0 <= k < r1.len() ==> #[trigger] r2[k] == r1[k],
    ensures
        has_pair(r2, v),
{
    let k = choose|k: int| 0 <= k < r1.len() && (#[trigger] r1[k]).0.0 == v;
    assert(r2[k] == r1[k]);
}

/// True when `p` stands somewhere inside `h`.
pub open spec fn contains_seq(h: Seq<char>, p: Seq<char>) -> bool {
    exists|k: int| 0 <= k && k + p.len() <= h.len() && #[trigger] h.subrange(k, k + p.len()) == p
}

/// True when the pattern stands somewhere inside the string.
pub fn str_contains(h: &str, p: &str) -> (r: bool)
    ensures
        r == contains_seq(h@, p@),
{
    let hn = h.unicode_len();
    let pn = p.unicode_len();
    if pn > hn {
        proof {
            assert forall|k: int| !(0 <= k && k + p@.len() <= h@.len() && #[trigger] h@.subrange(
                k,
                k + p@.len(),
            ) == p@) by {}
        }
        return false;
    }
    if pn == 0 {
        proof {
            assert(h@.subrange(0, 0 + p@.len() as int) =~= p@);
        }
        return true;
    }
    let mut k: usize = 0;
    while k <= hn - pn
        invariant
            hn == h@.len(),
            pn == p@.len(),
            0 < pn <= hn,
            k <= hn - pn + 1,
            forall|k2: int|
                0 <= k2 < k ==> #[trigger] h@.subrange(k2, k2 + p@.len()) != p@,
        decreases hn - pn + 1 - k,
    {
        let mut j: usize = 0;
        let mut matched = true;
        while j < pn && matched
            invariant
                hn == h@.len(),
                pn == p@.len(),
                pn <= hn,
                k <= hn - pn,
                j <= pn,
                matched ==> forall|j2: int| 0 <= j2 < j ==> h@[k + j2] == p@[j2],
                !matched ==> h@.subrange(k as int, k + p@.len()) != p@,
            decreases pn - j, (if matched { 1int } else { 0int }),
        {
            let hc = h.get_char(k + j);
            let pc = p.get_char(j);
            if hc != pc {
                proof {
                    assert(h@.subrange(k as int, k + p@.len())[j as int] == h@[k + j]);
                }
                matched = false;
            } else {
                j += 1;
            }
        }
        if matched {
            proof {
                assert(h@.subrange(k as int, k + p@.len()) =~= p@);
            }
            return true;
        }
        k += 1;
    }
    proof {
        assert forall|k2: int|
            !(0 <= k2 && k2 + p@.len() <= h@.len() && #[trigger] h@.subrange(k2, k2 + p@.len())
                == p@) by {
            if 0 <= k2 && k2 + p@.len() <= h@.len() {
                assert(k2 < k);
            }
        }
    }
    false
}

/// Resolves package references against one package's decoded tables.
pub struct PackageIndexResolver<'a> {
    /// The import table.
    pub imports: &'a Vec<Import>,
    /// The export table.
    pub exports: &'a Vec<Export>,
}

impl<'a> PackageIndexResolver<'a> {
    /// A resolver over the given tables.
    pub fn new(imports: &'a Vec<Import>, exports: &'a Vec<Export>) -> (r: Self)
        ensures
            r.imports@ == imports@,
            r.exports@ == exports@,
    {
        PackageIndexResolver { imports, exports }
    }

    /// Resolves one reference: null, an import entry or an export
    /// entry; a reference outside its table is the error the format
    /// calls out.
    pub fn resolve(&self, index: PackageIndex) -> (res: Result<ObjectReference, UnrealAssetError>)
        ensures
            resolvable(self.imports@, self.exports@, index.0 as int) <==> res is Ok,
            index.0 == 0 ==> res == Ok::<ObjectReference, UnrealAssetError>(ObjectReference::Null),
            (index.0 < 0 && -(index.0 as int) - 1 < self.imports@.len()) ==> (res matches Ok(o)
                && o matches ObjectReference::Import { index: k, class_package, class_name, object_name, outer_index, package_guid }
                && k == -(index.0 as int) - 1 && class_package == self.imports@[k as int].class_package
                && class_name == self.imports@[k as int].class_name
                && object_name == self.imports@[k as int].object_name
                && outer_index == self.imports@[k as int].outer_index
                && package_guid == self.imports@[k as int].package_guid),
            (index.0 > 0 && index.0 - 1 < self.exports@.len()) ==> (res matches Ok(o)
                && o matches ObjectReference::Export { index: k, class_index, super_index, template_index, outer_index, object_name, object_flags }
                && k == index.0 - 1 && class_index == self.exports@[k as int].class_index
                && super_index == self.exports@[k as int].super_index
                && template_index == self.exports@[k as int].template_index
                && outer_index == self.exports@[k as int].outer_index
                && object_name == self.exports@[k as int].object_name
                && object_flags == self.exports@[k as int].object_flags),
    {
        if index.0 == 0 {
            Ok(ObjectReference::Null)
        } else if index.0 < 0 {
            let k = (-(index.0 as i64) - 1) as usize;
            if k < self.imports.len() {
                let imp = &self.imports[k];
                Ok(
                    ObjectReference::Import {
                        index: k,
                        class_package: FName {
                            name: imp.class_package.name.clone(),
                            number: imp.class_package.number,
                        },
                        class_name: FName {
                            name: imp.class_name.name.clone(),
                            number: imp.class_name.number,
                        },
                        object_name: FName {
                            name: imp.object_name.name.clone(),
                            number: imp.object_name.number,
                        },
                        outer_index: imp.outer_index,
                        package_guid: imp.package_guid,
                    },
                )
            } else {
                Err(UnrealAssetError::InvalidIndex("import index out of bounds".to_owned()))
            }
        } else {
            let k = (index.0 - 1) as usize;
            if k < self.exports.len() {
                let ex = &self.exports[k];
                Ok(
                    ObjectReference::Export {
                        index: k,
                        class_index: ex.class_index,
                        super_index: ex.super_index,
                        template_index: ex.template_index,
                        outer_index: ex.outer_index,
                        object_name: FName {
                            name: ex.object_name.name.clone(),
                            number: ex.object_name.number,
                        },
                        object_flags: ex.object_flags,
                    },
                )
            } else {
                Err(UnrealAssetError::InvalidIndex("export index out of bounds".to_owned()))
            }
        }
    }

    /// The full object path of a reference: the outer chain's names
    /// from the root down, joined with a slash. The walk follows at
    /// most [`MAX_RESOLUTION_DEPTH`] hops: a chain that has not
    /// reached the root by then, a cycle in particular, is an error,
    /// never an endless walk.
    pub fn get_full_path(&self, index: PackageIndex) -> (res: Result<String, UnrealAssetError>)
        ensures
            res is Ok <==> reaches_null(
                self.imports@,
                self.exports@,
                index.0 as int,
                MAX_RESOLUTION_DEPTH as nat,
            ),
            res matches Ok(s) ==> s@ == path_of(
                self.imports@,
                self.exports@,
                index.0 as int,
                MAX_RESOLUTION_DEPTH as nat,
            ),
    {
        self.full_path_bounded(index, MAX_RESOLUTION_DEPTH)
    }

    /// The full object path of a reference, following at most `depth`
    /// hops.
    pub fn full_path_bounded(&self, index: PackageIndex, depth: u32) -> (res: Result<
        String,
        UnrealAssetError,
    >)
        ensures
            res is Ok <==> reaches_null(self.imports@, self.exports@, index.0 as int, depth as nat),
            res matches Ok(s) ==> s@ == path_of(
                self.imports@,
                self.exports@,
                index.0 as int,
                depth as nat,
            ),
        decreases depth,
    {
        if index.0 == 0 {
            return Ok(String::new());
        }
        if depth == 0 {
            return Err(
                UnrealAssetError::Custom(
                    "maximum depth reached while resolving object path".to_owned(),
                ),
            );
        }
        let (outer, name) = if index.0 < 0 {
            let k = (-(index.0 as i64) - 1) as usize;
            if k < self.imports.len() {
                (self.imports[k].outer_index, self.imports[k].object_name.name.clone())
            } else {
                return Err(
                    UnrealAssetError::InvalidIndex("import index out of bounds".to_owned()),
                );
            }
        } else {
            let k = (index.0 - 1) as usize;
            if k < self.exports.len() {
                (self.exports[k].outer_index, self.exports[k].object_name.name.clone())
            } else {
                return Err(
                    UnrealAssetError::InvalidIndex("export index out of bounds".to_owned()),
                );
            }
        };
        let prefix = match self.full_path_bounded(outer, depth - 1) {
            Ok(p) => p,
            Err(e) => {
                return Err(e);
            },
        };
        if outer.0 == 0 {
            Ok(name)
        } else {
            let mut s = prefix;
            s.push('/');
            s.append(name.as_str());
            Ok(s)
        }
    }

    /// The class name of the object a reference names: an import's
    /// class, or the class export's (or import's) own name, with the
    /// null class standing for the base object class.
    pub fn get_class_name(&self, index: PackageIndex) -> (res: Result<String, UnrealAssetError>)
        ensures
            index.0 == 0 ==> res is Err,
            (index.0 < 0 && -(index.0 as int) - 1 < self.imports@.len()) ==> (res matches Ok(s)
                && s@ == self.imports@[-(index.0 as int) - 1].class_name.name@),
            (index.0 < 0 && -(index.0 as int) - 1 >= self.imports@.len()) ==> res is Err,
            (index.0 > 0 && index.0 - 1 < self.exports@.len() && self.exports@[index.0
                - 1].class_index.0 == 0) ==> (res matches Ok(s) && s@ == "Object"@),
            (index.0 > 0 && index.0 - 1 < self.exports@.len() && self.exports@[index.0
                - 1].class_index.0 < 0 && -(self.exports@[index.0 - 1].class_index.0 as int) - 1
                < self.imports@.len()) ==> (res matches Ok(s) && s@ == self.imports@[-(
            self.exports@[index.0 - 1].class_index.0 as int) - 1].object_name.name@),
            (index.0 > 0 && index.0 - 1 < self.exports@.len() && self.exports@[index.0
                - 1].class_index.0 > 0 && self.exports@[index.0 - 1].class_index.0 - 1
                < self.exports@.len()) ==> (res matches Ok(s) && s@ == self.exports@[
                self.exports@[index.0 - 1].class_index.0 - 1
            ].object_name.name@),
            (index.0 > 0 && index.0 - 1 < self.exports@.len() && !resolvable(
                self.imports@,
                self.exports@,
                self.exports@[index.0 - 1].class_index.0 as int,
            )) ==> res is Err,
            (index.0 > 0 && index.0 - 1 >= self.exports@.len()) ==> res is Err,
    {
        if index.0 == 0 {
            return Err(
                UnrealAssetError::Custom("cannot get class name of null reference".to_owned()),
            );
        }
        if index.0 < 0 {
            let k = (-(index.0 as i64) - 1) as usize;
            if k < self.imports.len() {
                Ok(self.imports[k].class_name.name.clone())
            } else {
                Err(UnrealAssetError::InvalidIndex("import index out of bounds".to_owned()))
            }
        } else {
            let k = (index.0 - 1) as usize;
            if k < self.exports.len() {
                let class_index = self.exports[k].class_index;
                if class_index.0 == 0 {
                    Ok("Object".to_owned())
                } else if class_index.0 < 0 {
                    let c = (-(class_index.0 as i64) - 1) as usize;
                    if c < self.imports.len() {
                        Ok(self.imports[c].object_name.name.clone())
                    } else {
                        Err(
                            UnrealAssetError::InvalidIndex(
                                "import index out of bounds".to_owned(),
                            ),
                        )
                    }
                } else {
                    let c = (class_index.0 - 1) as usize;
                    if c < self.exports.len() {
                        Ok(self.exports[c].object_name.name.clone())
                    } else {
                        Err(
                            UnrealAssetError::InvalidIndex(
                                "export index out of bounds".to_owned(),
                            ),
                        )
                    }
                }
            } else {
                Err(UnrealAssetError::InvalidIndex("export index out of bounds".to_owned()))
            }
        }
    }

    /// The references an object depends on: the non-null class, super,
    /// template and outer references of an export, in that order, or
    /// the non-null outer of an import.
    pub fn get_dependencies(&self, index: PackageIndex) -> (res: Result<
        Vec<PackageIndex>,
        UnrealAssetError,
    >)
        ensures
            res is Ok <==> resolvable(self.imports@, self.exports@, index.0 as int),
            index.0 == 0 ==> (res matches Ok(v) && v@ =~= Seq::<PackageIndex>::empty()),
            (index.0 < 0 && -(index.0 as int) - 1 < self.imports@.len()) ==> (res matches Ok(v)
                && v@ =~= nonnull_one(self.imports@[-(index.0 as int) - 1].outer_index)),
            (index.0 > 0 && index.0 - 1 < self.exports@.len()) ==> (res matches Ok(v) && v@
                =~= nonnull_one(self.exports@[index.0 - 1].class_index) + nonnull_one(
                self.exports@[index.0 - 1].super_index,
            ) + nonnull_one(self.exports@[index.0 - 1].template_index) + nonnull_one(
                self.exports@[index.0 - 1].outer_index,
            )),
    {
        let mut deps: Vec<PackageIndex> = Vec::new();
        if index.0 == 0 {
            Ok(deps)
        } else if index.0 < 0 {
            let k = (-(index.0 as i64) - 1) as usize;
            if k < self.imports.len() {
                if self.imports[k].outer_index.0 != 0 {
                    deps.push(self.imports[k].outer_index);
                }
                Ok(deps)
            } else {
                Err(UnrealAssetError::InvalidIndex("import index out of bounds".to_owned()))
            }
        } else {
            let k = (index.0 - 1) as usize;
            if k < self.exports.len() {
                if self.exports[k].class_index.0 != 0 {
                    deps.push(self.exports[k].class_index);
                }
                if self.exports[k].super_index.0 != 0 {
                    deps.push(self.exports[k].super_index);
                }
                if self.exports[k].template_index.0 != 0 {
                    deps.push(self.exports[k].template_index);
                }
                if self.exports[k].outer_index.0 != 0 {
                    deps.push(self.exports[k].outer_index);
                }
                Ok(deps)
            } else {
                Err(UnrealAssetError::InvalidIndex("export index out of bounds".to_owned()))
            }
        }
    }

    /// Checks every export's class reference and reports each
    /// unresolvable one, without stopping at the first: one finding per
    /// bad reference.
    pub fn validate_all_indices(&self) -> (res: Vec<String>)
        ensures
            res@.len() == count_bad_class_refs(
                self.imports@,
                self.exports@,
                self.exports@.len() as int,
            ),
    {
        let mut errors: Vec<String> = Vec::new();
        let n = self.exports.len();
        let mut i: usize = 0;
        while i < n
            invariant
                n == self.exports@.len(),
                i <= n,
                errors@.len() == count_bad_class_refs(self.imports@, self.exports@, i as int),
            decreases n - i,
        {
            let ci = self.exports[i].class_index;
            let bad: bool = if ci.0 == 0 {
                false
            } else if ci.0 < 0 {
                ((-(ci.0 as i64) - 1) as usize) >= self.imports.len()
            } else {
                ((ci.0 - 1) as usize) >= self.exports.len()
            };
            if bad {
                let mut m = "export has an unresolvable class reference: ".to_owned();
                let digits = crate::error::i32_to_decimal(ci.0);
                m.append(digits.as_str());
                errors.push(m);
            }
            i += 1;
        }
        errors
    }

    /// All objects, import or export, whose class name equals
    /// `class_name`: imports compare their recorded class, exports
    /// resolve theirs as [`Self::get_class_name`] does. Every matching
    /// table entry yields one pair, and every pair is a genuine match;
    /// tables beyond the reference range give the empty result.
    #[verifier::rlimit(100)]
    #[verifier::spinoff_prover]
    #[verifier::loop_isolation(false)]
    pub fn get_objects_of_class(&self, class_name: &str) -> (res: Vec<(
        PackageIndex,
        ObjectReference,
    )>)
        ensures
            (self.imports@.len() <= 0x7fff_ffff && self.exports@.len() < 0x7fff_ffff) ==> (forall|
                i: int,
            |
                0 <= i < self.imports@.len() && (#[trigger] self.imports@[i]).class_name.name@
                    == class_name@ ==> has_pair(res@, -i - 1)) && (forall|j: int|
                0 <= j < self.exports@.len() && export_class_name(self.imports@, self.exports@, j)
                    == Option::Some(class_name@) ==> has_pair(res@, #[trigger] (j + 1))),
            forall|k: int|
                0 <= k < res@.len() ==> ((#[trigger] res@[k]).0.0 < 0 && -(res@[k].0.0 as int) - 1
                    < self.imports@.len() && self.imports@[-(res@[k].0.0 as int)
                    - 1].class_name.name@ == class_name@) || (res@[k].0.0 > 0 && res@[k].0.0 - 1
                    < self.exports@.len() && export_class_name(
                    self.imports@,
                    self.exports@,
                    res@[k].0.0 - 1,
                ) == Option::Some(class_name@)),
    {
        let mut results: Vec<(PackageIndex, ObjectReference)> = Vec::new();
        let sought = class_name.to_owned();
        let import_len = self.imports.len();
        let export_bound = self.exports.len();
        if import_len > 0x7fff_ffffusize || export_bound >= 0x7fff_ffffusize {
            return results;
        }
        let mut i: usize = 0;
        while i < import_len
            invariant
                import_len == self.imports@.len(),
                i <= import_len,
                forall|i2: int|
                    0 <= i2 < i && (#[trigger] self.imports@[i2]).class_name.name@ == class_name@
                        ==> has_pair(results@, -i2 - 1),
                forall|k: int|
                    0 <= k < results@.len() ==> (#[trigger] results@[k]).0.0 < 0 && -(results@[
                        k
                    ].0.0 as int) - 1 < self.imports@.len() && self.imports@[-(results@[
                        k
                    ].0.0 as int) - 1].class_name.name@ == class_name@,
            decreases import_len - i,
        {
            if self.imports[i].class_name.name == sought {
                let idx = PackageIndex::from_import(i);
                let ghost pre = results@;
                match self.resolve(idx) {
                    Ok(o) => {
                        results.push((idx, o));
                        proof {
                            assert(results@[results@.len() - 1].0.0 == -(i as int) - 1);
                            assert forall|i2: int|
                                0 <= i2 < i + 1 && (
                            #[trigger] self.imports@[i2]).class_name.name@ == class_name@
                                implies has_pair(results@, -i2 - 1) by {
                                if i2 < i {
                                    lemma_has_pair_extend(pre, results@, -i2 - 1);
                                }
                            }
                        }
                    },
                    Err(_) => {
                        proof {
                            assert(false);
                        }
                    },
                }
            }
            i += 1;
        }
        let ghost after_imports = results@;
        let export_len = self.exports.len();
        let mut j: usize = 0;
        while j < export_len
            invariant
                import_len == self.imports@.len(),
                export_len == self.exports@.len(),
                export_len <= 0x7fff_fffe,
                j <= export_len,
                forall|i2: int|
                    0 <= i2 < self.imports@.len() && (
                    #[trigger] self.imports@[i2]).class_name.name@ == class_name@ ==> has_pair(
                        results@,
                        -i2 - 1,
                    ),
                forall|j2: int|
                    0 <= j2 < j && export_class_name(self.imports@, self.exports@, j2)
                        == Option::Some(class_name@) ==> has_pair(results@, #[trigger] (j2 + 1)),
                forall|k: int|
                    0 <= k < results@.len() ==> ((#[trigger] results@[k]).0.0 < 0 && -(results@[
                        k
                    ].0.0 as int) - 1 < self.imports@.len() && self.imports@[-(results@[
                        k
                    ].0.0 as int) - 1].class_name.name@ == class_name@) || (results@[k].0.0 > 0
                        && results@[k].0.0 - 1 < self.exports@.len() && export_class_name(
                        self.imports@,
                        self.exports@,
                        results@[k].0.0 - 1,
                    ) == Option::Some(class_name@)),
            decreases export_len - j,
        {
            let idx = PackageIndex::from_export(j);
            let ghost pre = results@;
            match self.get_class_name(idx) {
                Ok(cn) => {
                    if cn == sought {
                        proof {
                            assert(export_class_name(self.imports@, self.exports@, j as int)
                                == Option::Some(class_name@));
                        }
                        match self.resolve(idx) {
                            Ok(o) => {
                                results.push((idx, o));
                                proof {
                                    assert(results@[results@.len() - 1].0.0 == j + 1);
                                    assert forall|i2: int|
                                        0 <= i2 < self.imports@.len() && (
                                    #[trigger] self.imports@[i2]).class_name.name@ == class_name@
                                        implies has_pair(results@, -i2 - 1) by {
                                        lemma_has_pair_extend(pre, results@, -i2 - 1);
                                    }
                                    assert forall|j2: int|
                                        0 <= j2 < j + 1 && export_class_name(
                                        self.imports@,
                                        self.exports@,
                                        j2,
                                    ) == Option::Some(class_name@) implies has_pair(
                                        results@,
                                        #[trigger] (j2 + 1),
                                    ) by {
                                        if j2 < j {
                                            lemma_has_pair_extend(pre, results@, j2 + 1);
                                        }
                                    }
                                }
                            },
                            Err(_) => {
                                proof {
                                    assert(false);
                                }
                            },
                        }
                    }
                },
                Err(_) => {
                    proof {
                        assert(!(export_class_name(self.imports@, self.exports@, j as int)
                            matches Option::Some(_)));
                    }
                },
            }
            j += 1;
        }
        results
    }

    /// The pair carries exactly the reference that resolving its index
    /// yields: the table row's fields behind an import or export tag.
    pub open spec fn pair_resolved(&self, p: (PackageIndex, ObjectReference)) -> bool {
        ((p.0.0 < 0 && -(p.0.0 as int) - 1 < self.imports@.len()) ==> (p.1 matches ObjectReference::Import { index: k, class_package, class_name, object_name, outer_index, package_guid }
            && k == -(p.0.0 as int) - 1 && class_package == self.imports@[k as int].class_package
            && class_name == self.imports@[k as int].class_name
            && object_name == self.imports@[k as int].object_name
            && outer_index == self.imports@[k as int].outer_index
            && package_guid == self.imports@[k as int].package_guid)) && ((p.0.0 > 0 && p.0.0 - 1
            < self.exports@.len()) ==> (p.1 matches ObjectReference::Export { index: k, class_index, super_index, template_index, outer_index, object_name, object_flags }
            && k == p.0.0 - 1 && class_index == self.exports@[k as int].class_index
            && super_index == self.exports@[k as int].super_index
            && template_index == self.exports@[k as int].template_index
            && outer_index == self.exports@[k as int].outer_index
            && object_name == self.exports@[k as int].object_name
            && object_flags == self.exports@[k as int].object_flags))
    }

    /// All objects, import or export, whose object name holds the
    /// pattern as a substring. Every matching table entry yields one
    /// pair carrying its resolved reference, imports before exports and
    /// each in table order; tables beyond the reference range give the
    /// empty result.
    #[verifier::rlimit(100)]
    #[verifier::spinoff_prover]
    #[verifier::loop_isolation(false)]
    pub fn find_objects_by_name(&self, pattern: &str) -> (res: Vec<(
        PackageIndex,
        ObjectReference,
    )>)
        ensures
            (self.imports@.len() <= 0x7fff_ffff && self.exports@.len() < 0x7fff_ffff) ==> (forall|
                i: int,
            |
                0 <= i < self.imports@.len() && contains_seq(
                    (#[trigger] self.imports@[i]).object_name.name@,
                    pattern@,
                ) ==> has_pair(res@, -i - 1)) && (forall|j: int|
                0 <= j < self.exports@.len() && contains_seq(
                    (#[trigger] self.exports@[j]).object_name.name@,
                    pattern@,
                ) ==> has_pair(res@, j + 1)),
            forall|k: int|
                0 <= k < res@.len() ==> ((#[trigger] res@[k]).0.0 < 0 && -(res@[k].0.0 as int) - 1
                    < self.imports@.len() && contains_seq(
                    self.imports@[-(res@[k].0.0 as int) - 1].object_name.name@,
                    pattern@,
                )) || (res@[k].0.0 > 0 && res@[k].0.0 - 1 < self.exports@.len() && contains_seq(
                    self.exports@[res@[k].0.0 - 1].object_name.name@,
                    pattern@,
                )),
            forall|k: int| 0 <= k < res@.len() ==> self.pair_resolved(#[trigger] res@[k]),
            forall|a: int, b2: int|
                #![trigger res@[a], res@[b2]]
                0 <= a < b2 < res@.len() ==> ((res@[a].0.0 < 0 && res@[b2].0.0 < 0 ==> res@[a].0.0
                    > res@[b2].0.0) && (res@[a].0.0 > 0 && res@[b2].0.0 > 0 ==> res@[a].0.0
                    < res@[b2].0.0) && (res@[a].0.0 > 0 ==> res@[b2].0.0 > 0)),
    {
        let mut results: Vec<(PackageIndex, ObjectReference)> = Vec::new();
        let import_len = self.imports.len();
        let export_bound = self.exports.len();
        if import_len > 0x7fff_ffffusize || export_bound >= 0x7fff_ffffusize {
            return results;
        }
        let mut i: usize = 0;
        while i < import_len
            invariant
                import_len == self.imports@.len(),
                i <= import_len,
                forall|i2: int|
                    0 <= i2 < i && contains_seq(
                        (#[trigger] self.imports@[i2]).object_name.name@,
                        pattern@,
                    ) ==> has_pair(results@, -i2 - 1),
                forall|k: int|
                    0 <= k < results@.len() ==> (#[trigger] results@[k]).0.0 < 0 && -(results@[
                        k
                    ].0.0 as int) - 1 < self.imports@.len() && contains_seq(
                        self.imports@[-(results@[k].0.0 as int) - 1].object_name.name@,
                        pattern@,
                    ),
                forall|k: int|
                    0 <= k < results@.len() ==> self.pair_resolved(#[trigger] results@[k]),
                forall|k: int|
                    0 <= k < results@.len() ==> -((#[trigger] results@[k]).0.0 as int) - 1 < i,
                forall|a: int, b2: int|
                    #![trigger results@[a], results@[b2]]
                    0 <= a < b2 < results@.len() ==> results@[a].0.0 > results@[b2].0.0,
            decreases import_len - i,
        {
            if str_contains(self.imports[i].object_name.name.as_str(), pattern) {
                let idx = PackageIndex::from_import(i);
                let ghost pre = results@;
                match self.resolve(idx) {
                    Ok(o) => {
                        results.push((idx, o));
                        proof {
                            assert(results@[results@.len() - 1].0.0 == -(i as int) - 1);
                            assert forall|i2: int|
                                0 <= i2 < i + 1 && contains_seq(
                                (#[trigger] self.imports@[i2]).object_name.name@,
                                pattern@,
                            ) implies has_pair(results@, -i2 - 1) by {
                                if i2 < i {
                                    lemma_has_pair_extend(pre, results@, -i2 - 1);
                                }
                            }
                        }
                    },
                    Err(_) => {
                        proof {
                            assert(false);
                        }
                    },
                }
            }
            i += 1;
        }
        let export_len = self.exports.len();
        let mut j: usize = 0;
        while j < export_len
            invariant
                import_len == self.imports@.len(),
                export_len == self.exports@.len(),
                export_len <= 0x7fff_fffe,
                j <= export_len,
                forall|i2: int|
                    0 <= i2 < self.imports@.len() && contains_seq(
                        (#[trigger] self.imports@[i2]).object_name.name@,
                        pattern@,
                    ) ==> has_pair(results@, -i2 - 1),
                forall|j2: int|
                    0 <= j2 < j && contains_seq(
                        (#[trigger] self.exports@[j2]).object_name.name@,
                        pattern@,
                    ) ==> has_pair(results@, j2 + 1),
                forall|k: int|
                    0 <= k < results@.len() ==> ((#[trigger] results@[k]).0.0 < 0 && -(results@[
                        k
                    ].0.0 as int) - 1 < self.imports@.len() && contains_seq(
                        self.imports@[-(results@[k].0.0 as int) - 1].object_name.name@,
                        pattern@,
                    )) || (results@[k].0.0 > 0 && results@[k].0.0 - 1 < self.exports@.len()
                        && contains_seq(
                        self.exports@[results@[k].0.0 - 1].object_name.name@,
                        pattern@,
                    )),
                forall|k: int|
                    0 <= k < results@.len() ==> self.pair_resolved(#[trigger] results@[k]),
                forall|k: int|
                    0 <= k < results@.len() && (#[trigger] results@[k]).0.0 > 0 ==> results@[
                        k
                    ].0.0 - 1 < j,
                forall|a: int, b2: int|
                    #![trigger results@[a], results@[b2]]
                    0 <= a < b2 < results@.len() ==> ((results@[a].0.0 < 0 && results@[b2].0.0 < 0
                        ==> results@[a].0.0 > results@[b2].0.0) && (results@[a].0.0 > 0
                        && results@[b2].0.0 > 0 ==> results@[a].0.0 < results@[b2].0.0) && (
                    results@[a].0.0 > 0 ==> results@[b2].0.0 > 0)),
            decreases export_len - j,
        {
            if str_contains(self.exports[j].object_name.name.as_str(), pattern) {
                let idx = PackageIndex::from_export(j);
                let ghost pre = results@;
                match self.resolve(idx) {
                    Ok(o) => {
                        results.push((idx, o));
                        proof {
                            assert(results@[results@.len() - 1].0.0 == j + 1);
                            assert forall|i2: int|
                                0 <= i2 < self.imports@.len() && contains_seq(
                                (#[trigger] self.imports@[i2]).object_name.name@,
                                pattern@,
                            ) implies has_pair(results@, -i2 - 1) by {
                                lemma_has_pair_extend(pre, results@, -i2 - 1);
                            }
                            assert forall|j2: int|
                                0 <= j2 < j + 1 && contains_seq(
                                (#[trigger] self.exports@[j2]).object_name.name@,
                                pattern@,
                            ) implies has_pair(results@, j2 + 1) by {
                                if j2 < j {
                                    lemma_has_pair_extend(pre, results@, j2 + 1);
                                }
                            }
                        }
                    },
                    Err(_) => {
                        proof {
                            assert(false);
                        }
                    },
                }
            }
            j += 1;
        }
        results
    }
}

impl ObjectReference {
    /// The object name under the reference, if it is not null.
    pub fn get_name(&self) -> (r: Option<&FName>)
        ensures
            *self matches ObjectReference::Import { object_name, .. } ==> (r matches Some(n) && *n
                == object_name),
            *self matches ObjectReference::Export { object_name, .. } ==> (r matches Some(n) && *n
                == object_name),
            *self == ObjectReference::Null ==> r is None,
    {
        match self {
            ObjectReference::Import { object_name, .. } => Some(object_name),
            ObjectReference::Export { object_name, .. } => Some(object_name),
            ObjectReference::Null => None,
        }
    }

    /// True when this resolved to an import entry.
    pub fn is_import(&self) -> (r: bool)
        ensures
            r == (*self matches ObjectReference::Import { .. }),
    {
        match self {
            ObjectReference::Import { .. } => true,
            _ => false,
        }
    }

    /// True when this resolved to an export entry.
    pub fn is_export(&self) -> (r: bool)
        ensures
            r == (*self matches ObjectReference::Export { .. }),
    {
        match self {
            ObjectReference::Export { .. } => true,
            _ => false,
        }
    }

    /// True when this is the null reference.
    pub fn is_null(&self) -> (r: bool)
        ensures
            r == (*self == ObjectReference::Null),
    {
        match self {
            ObjectReference::Null => true,
            _ => false,
        }
    }
}

/// The reference alone when it is non-null, else nothing.
pub open spec fn nonnull_one(p: PackageIndex) -> Seq<PackageIndex> {
    if p.0 != 0 {
        seq![p]
    } else {
        Seq::empty()
    }
}

/// How many of the first `n` exports hold a class reference that is
/// non-null and outside both tables.
pub open spec fn count_bad_class_refs(imps: Seq<Import>, exps: Seq<Export>, n: int) -> int
    decreases n,
{
    if n <= 0 {
        0
    } else {
        count_bad_class_refs(imps, exps, n - 1) + if !resolvable(
            imps,
            exps,
            exps[n - 1].class_index.0 as int,
        ) {
            1int
        } else {
            0int
        }
    }
}

} // verus!
