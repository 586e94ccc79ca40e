//! The package codec: the summary (header), name table, import table
//! and export table of one asset file, and the reader and writer that
//! move a whole package between memory and its byte layout.
//!
//! The layout is sequential: summary, name table, import table, export
//! table. The summary's count and offset fields are computed from the
//! real section positions when writing, and checked against them when
//! reading: an offset that does not match the section it names is a
//! format error. Each export carries its property stream inline,
//! closed by the name `None`.

use vstd::prelude::*;
use crate::archive::{
    dec_i32,
    dec_fstr,
    dec_u16,
    dec_u64,
    dec_i64,
    dec_guid,
    u16_le_bytes,
    u32_le_bytes,
    u64_le_bytes,
    enc_fstr,
    enc_guid,
    dec_u32,
    fstr_len_ok,
    BinaryArchive,
    BinaryArchiveWriter,
};
use crate::codec::{
    encode_fname,
    decode_fname,
    dec_fname,
    dec_u32s,
    dec_stream,
    FNameModel,
    PropEntryModel,
    fname_view,
    encode_stream,
    decode_stream,
    fits_fstr,
    enc_fname,
    enc_stream,
    prop_entry_views,
};
use crate::error::{Error, UnrealAssetError, lift_error};
use crate::names::{OptimizedNameMap, NameHashAlgorithm, name_table_hash, name_table_hash_exec};
use crate::property::{Property, PropertyEntry, find_property, insert_property, entry_index_of, fits_fstr_all};
use crate::names::name_index_of;
use crate::types::{PackageIndex, FName, Guid};
use crate::versions::{EngineVersion, ObjectVersion, ObjectVersionUE5, GenerationInfo, CustomVersion, engine_version_number};

verus! {

broadcast use vstd::std_specs::vec::group_vec_axioms, vstd::seq::group_seq_axioms;

/// The fixed 32-bit tag at the start of every package.
pub const PACKAGE_MAGIC: u32 = 0x9e2a83c1;

/// The first object version whose name-table entries carry a
/// verification hash.
pub const VER_HASHED_NAMES: i32 = 521;

/// The first object version whose imports carry a package identifier.
pub const VER_IMPORT_GUID: i32 = 516;

/// The first object version whose exports carry a template reference.
pub const VER_TEMPLATE_INDEX: i32 = 508;

/// An object defined in another package that this package refers to.
#[derive(Debug, PartialEq)]
pub struct Import {
    /// The package that defines the class of the object.
    pub class_package: FName,
    /// The class of the object.
    pub class_name: FName,
    /// The enclosing object, as a package reference.
    pub outer_index: PackageIndex,
    /// The name of the object.
    pub object_name: FName,
    /// The identifier of the defining package, when recorded.
    pub package_guid: Option<Guid>,
    /// The defining package's name.
    pub package_name: FName,
}

/// An object this package defines.
#[derive(Debug, PartialEq)]
pub struct Export {
    /// The class of this object.
    pub class_index: PackageIndex,
    /// The superclass of this object.
    pub super_index: PackageIndex,
    /// The template object.
    pub template_index: PackageIndex,
    /// The enclosing object.
    pub outer_index: PackageIndex,
    /// The name of this object.
    pub object_name: FName,
    /// The object's flags.
    pub object_flags: u32,
    /// The byte size of the object's serialized body.
    pub serial_size: u64,
    /// The byte offset of the object's serialized body.
    pub serial_offset: u64,
    /// The export's flags.
    pub export_flags: u32,
    /// The typed properties of this object, in insertion order.
    pub properties: Vec<PropertyEntry>,
    /// Raw data the typed model could not decode, kept verbatim.
    pub extras: Option<Vec<u8>>,
    /// References that must exist before this object is deserialized.
    pub create_before_serialization_dependencies: Vec<PackageIndex>,
}

impl Export {
    /// An export of the given name and class with empty tables.
    pub fn new(object_name: FName, class_index: PackageIndex) -> (r: Self)
        ensures
            r.object_name == object_name,
            r.class_index == class_index,
            r.super_index.0 == 0,
            r.template_index.0 == 0,
            r.outer_index.0 == 0,
            r.properties@.len() == 0,
            r.create_before_serialization_dependencies@.len() == 0,
            r.extras is None,
            r.object_flags == 0 && r.serial_size == 0 && r.serial_offset == 0 && r.export_flags
                == 0,
    {
        Export {
            class_index,
            super_index: PackageIndex(0),
            template_index: PackageIndex(0),
            outer_index: PackageIndex(0),
            object_name,
            object_flags: 0,
            serial_size: 0,
            serial_offset: 0,
            export_flags: 0,
            properties: Vec::new(),
            extras: None,
            create_before_serialization_dependencies: Vec::new(),
        }
    }

    /// The first property with the given name, if any.
    pub fn get_property(&self, name: &str) -> (r: Option<&Property>)
        ensures
            r matches Some(p) ==> exists|i: int|
                0 <= i < self.properties@.len() && self.properties@[i].name@ == name@
                    && *p == self.properties@[i].value,
            r is None ==> forall|i: int|
                0 <= i < self.properties@.len() ==> self.properties@[i].name@ != name@,
    {
        find_property(&self.properties, name)
    }

    /// Sets a property: the first entry with that name is replaced,
    /// else one is appended; every other entry is unchanged.
    pub fn set_property(&mut self, name: &str, value: Property)
        ensures
            entry_index_of(old(self).properties@, name@) >= 0 ==> final(self).properties@.len()
                == old(self).properties@.len() && final(self).properties@[
                entry_index_of(old(self).properties@, name@)
            ].name@ == name@ && final(self).properties@[
                entry_index_of(old(self).properties@, name@)
            ].value == value && (forall|k: int|
                0 <= k < old(self).properties@.len() && k != entry_index_of(
                    old(self).properties@,
                    name@,
                ) ==> final(self).properties@[k] == old(self).properties@[k]),
            entry_index_of(old(self).properties@, name@) == -1 ==> final(self).properties@.len()
                == old(self).properties@.len() + 1 && final(self).properties@.last().name@ == name@
                && final(self).properties@.last().value == value && (forall|k: int|
                0 <= k < old(self).properties@.len() ==> final(self).properties@[k] == old(
                    self,
                ).properties@[k]),
    {
        insert_property(&mut self.properties, name, value);
    }
}

/// The summary at the head of a package: version numbers, flags, table
/// counts and offsets, and the trailing bookkeeping fields.
#[derive(Debug, PartialEq)]
pub struct PackageSummary {
    /// The fixed package tag.
    pub tag: u32,
    /// The legacy file version.
    pub legacy_file_version: i32,
    /// The legacy third-generation version.
    pub legacy_ue3_version: i32,
    /// The object version that gates optional sections.
    pub file_version_ue4: i32,
    /// The fifth-generation object version.
    pub file_version_ue5: i32,
    /// The total header size in bytes.
    pub total_header_size: u32,
    /// The folder name.
    pub folder_name: String,
    /// The package flags.
    pub package_flags: u32,
    /// The number of name-table entries.
    pub name_count: u32,
    /// The byte offset of the name table.
    pub name_offset: u32,
    /// The number of gatherable-text entries (skipped by this codec).
    pub gatherable_text_data_count: u32,
    /// The byte offset of the gatherable-text section.
    pub gatherable_text_data_offset: u32,
    /// The number of exports.
    pub export_count: u32,
    /// The byte offset of the export table.
    pub export_offset: u32,
    /// The number of imports.
    pub import_count: u32,
    /// The byte offset of the import table.
    pub import_offset: u32,
    /// The byte offset of the depends section.
    pub depends_offset: u32,
    /// The number of soft package references.
    pub soft_package_references_count: u32,
    /// The byte offset of the soft package references.
    pub soft_package_references_offset: u32,
    /// The byte offset of the searchable-names section.
    pub searchable_names_offset: u32,
    /// The byte offset of the thumbnail table.
    pub thumbnail_table_offset: u32,
    /// The package identifier.
    pub guid: Guid,
    /// The generation records.
    pub generations: Vec<GenerationInfo>,
    /// The engine version that saved the package, as its serialization
    /// number.
    pub saved_by_version: i32,
    /// The oldest engine version able to read the package.
    pub compatible_with_version: i32,
    /// The compression flags.
    pub compression_flags: u32,
    /// The byte offset of the asset-registry data.
    pub asset_registry_data_offset: u32,
    /// The start of the bulk data.
    pub bulk_data_start_offset: i64,
    /// The byte offset of the world-tile info.
    pub world_tile_info_data_offset: u32,
    /// The chunk identifiers.
    pub chunk_ids: Vec<i32>,
    /// The number of preload dependencies.
    pub preload_dependency_count: u32,
    /// The byte offset of the preload dependencies.
    pub preload_dependency_offset: u32,
}

/// The decoded tables of one package, owned and independent of the
/// bytes they were read from.
#[derive(Debug, PartialEq)]
pub struct AssetData {
    /// The package's own name.
    pub object_name: String,
    /// The package identifier, when known.
    pub package_guid: Option<Guid>,
    /// The import table.
    pub imports: Vec<Import>,
    /// The export table.
    pub exports: Vec<Export>,
    /// The package flags.
    pub package_flags: u32,
    /// The total header size recorded in the summary.
    pub total_header_size: u32,
    /// The name table.
    pub name_map: OptimizedNameMap,
    /// Whether export body sizes and offsets are stored 64 bits wide.
    pub use_event_driven_loader: bool,
    /// The start of the bulk data.
    pub bulk_data_start_offset: u64,
}

impl AssetData {
    /// An empty asset: no names, imports or exports.
    pub fn new() -> (r: Self)
        ensures
            r.imports@.len() == 0,
            r.exports@.len() == 0,
            r.name_map.entries().len() == 0,
            r.package_flags == 0,
            r.total_header_size == 0,
            r.use_event_driven_loader == false,
            r.package_guid is None,
            r.object_name@.len() == 0,
    {
        AssetData {
            object_name: String::new(),
            package_guid: None,
            imports: Vec::new(),
            exports: Vec::new(),
            package_flags: 0,
            total_header_size: 0,
            name_map: OptimizedNameMap::new(NameHashAlgorithm::Fnv1a),
            use_event_driven_loader: false,
            bulk_data_start_offset: 0,
        }
    }

    /// Interns a name and returns its index: an existing name keeps its
    /// first index and the table is unchanged, else the name is
    /// appended; indices are stable, the table only grows.
    pub fn add_fname(&mut self, name: &str) -> (r: usize)
        ensures
            name_index_of(old(self).name_map.entries(), name@) >= 0 ==> r == name_index_of(
                old(self).name_map.entries(),
                name@,
            ) && final(self).name_map.entries() == old(self).name_map.entries(),
            name_index_of(old(self).name_map.entries(), name@) == -1 ==> r == old(
                self,
            ).name_map.entries().len() && final(self).name_map.entries() == old(
                self,
            ).name_map.entries().push(name@),
            r < final(self).name_map.entries().len(),
            final(self).name_map.entries()[r as int] == name@,
            final(self).imports == old(self).imports,
            final(self).exports == old(self).exports,
    {
        self.name_map.add_string(name)
    }

    /// The first index of a name, if it is in the table.
    pub fn search_name_reference(&self, name: &str) -> (r: Option<usize>)
        ensures
            crate::names::name_index_of(self.name_map.entries(), name@) >= 0 ==> r == Some(
                crate::names::name_index_of(self.name_map.entries(), name@) as usize,
            ),
            crate::names::name_index_of(self.name_map.entries(), name@) == -1 ==> r is None,
            r matches Some(i) ==> i < self.name_map.entries().len()
                && self.name_map.entries()[i as int] == name@,
            r is None ==> forall|i: int|
                0 <= i < self.name_map.entries().len() ==> self.name_map.entries()[i] != name@,
    {
        let table_len = self.name_map.len();
        proof {
            crate::names::lemma_name_index_of(self.name_map.entries(), name@);
        }
        self.name_map.find_string_index(name)
    }

    /// A copy of the name at `index`, if the index is in range.
    pub fn get_owned_name(&self, index: usize) -> (r: Option<String>)
        ensures
            index < self.name_map.entries().len() ==> (r matches Some(s) && s@
                == self.name_map.entries()[index as int]),
            index >= self.name_map.entries().len() ==> r is None,
    {
        match self.name_map.get_string(index) {
            Some(s) => Some(s.clone()),
            None => None,
        }
    }

    /// A copy of the name table as a plain string vector.
    pub fn get_name_map(&self) -> (r: Vec<String>)
        ensures
            r@.len() == self.name_map.entries().len(),
            forall|i: int| 0 <= i < r@.len() ==> r@[i]@ == self.name_map.entries()[i],
    {
        self.name_map.to_string_vector()
    }

    /// Interns every name the tables mention, so that the name table
    /// is fully populated before any name is encoded: afterwards the
    /// stream terminator, every import and export name, and every
    /// property name stand in the table.
    #[verifier::rlimit(60)]
    #[verifier::spinoff_prover]
    pub fn rebuild_name_map(&mut self)
        ensures
            final(self).imports == old(self).imports,
            final(self).exports == old(self).exports,
            name_present(final(self).name_map.entries(), "None"@),
            forall|i: int|
                0 <= i < final(self).imports@.len() ==> name_present(
                    final(self).name_map.entries(),
                    (#[trigger] final(self).imports@[i]).class_package.name@,
                ) && name_present(
                    final(self).name_map.entries(),
                    final(self).imports@[i].class_name.name@,
                ) && name_present(
                    final(self).name_map.entries(),
                    final(self).imports@[i].object_name.name@,
                ) && name_present(
                    final(self).name_map.entries(),
                    final(self).imports@[i].package_name.name@,
                ),
            forall|j: int|
                0 <= j < final(self).exports@.len() ==> name_present(
                    final(self).name_map.entries(),
                    (#[trigger] final(self).exports@[j]).object_name.name@,
                ) && (forall|p: int|
                    0 <= p < final(self).exports@[j].properties@.len() ==> name_present(
                        final(self).name_map.entries(),
                        (#[trigger] final(self).exports@[j].properties@[p]).name@,
                    )),
    {
        let mut wanted: Vec<String> = Vec::new();
        wanted.push("None".to_owned());
        proof {
            assert(wanted@[0]@ == "None"@);
        }
        let import_count = self.imports.len();
        let mut i: usize = 0;
        while i < import_count
            invariant
                import_count == self.imports@.len(),
                i <= import_count,
                self.imports == old(self).imports,
                self.exports == old(self).exports,
                self.name_map == old(self).name_map,
                wanted@.len() > 0,
                wanted@[0]@ == "None"@,
                forall|j: int|
                    0 <= j < i ==> in_list(wanted@, (#[trigger] self.imports@[j]).class_package.name@)
                        && in_list(wanted@, self.imports@[j].class_name.name@) && in_list(
                        wanted@,
                        self.imports@[j].object_name.name@,
                    ) && in_list(wanted@, self.imports@[j].package_name.name@),
            decreases import_count - i,
        {
            let ghost w0 = wanted@;
            wanted.push(self.imports[i].class_package.name.clone());
            wanted.push(self.imports[i].class_name.name.clone());
            wanted.push(self.imports[i].object_name.name.clone());
            wanted.push(self.imports[i].package_name.name.clone());
            proof {
                let l = wanted@.len();
                assert(forall|k: int| 0 <= k < w0.len() ==> #[trigger] wanted@[k] == w0[k]);
                assert(wanted@[l - 4]@ == self.imports@[i as int].class_package.name@);
                assert(wanted@[l - 3]@ == self.imports@[i as int].class_name.name@);
                assert(wanted@[l - 2]@ == self.imports@[i as int].object_name.name@);
                assert(wanted@[l - 1]@ == self.imports@[i as int].package_name.name@);
                assert forall|j2: int|
                    0 <= j2 < i + 1 implies in_list(
                    wanted@,
                    (#[trigger] self.imports@[j2]).class_package.name@,
                ) && in_list(wanted@, self.imports@[j2].class_name.name@) && in_list(
                    wanted@,
                    self.imports@[j2].object_name.name@,
                ) && in_list(wanted@, self.imports@[j2].package_name.name@) by {
                    if j2 < i {
                        lemma_in_list_extend(w0, wanted@, self.imports@[j2].class_package.name@);
                        lemma_in_list_extend(w0, wanted@, self.imports@[j2].class_name.name@);
                        lemma_in_list_extend(w0, wanted@, self.imports@[j2].object_name.name@);
                        lemma_in_list_extend(w0, wanted@, self.imports@[j2].package_name.name@);
                    }
                }
            }
            i += 1;
        }
        let export_count = self.exports.len();
        let mut j: usize = 0;
        while j < export_count
            invariant
                export_count == self.exports@.len(),
                j <= export_count,
                self.imports == old(self).imports,
                self.exports == old(self).exports,
                self.name_map == old(self).name_map,
                wanted@.len() > 0,
                wanted@[0]@ == "None"@,
                forall|k: int|
                    0 <= k < self.imports@.len() ==> in_list(
                        wanted@,
                        (#[trigger] self.imports@[k]).class_package.name@,
                    ) && in_list(wanted@, self.imports@[k].class_name.name@) && in_list(
                        wanted@,
                        self.imports@[k].object_name.name@,
                    ) && in_list(wanted@, self.imports@[k].package_name.name@),
                forall|k: int|
                    0 <= k < j ==> in_list(wanted@, (#[trigger] self.exports@[k]).object_name.name@)
                        && (forall|p: int|
                        0 <= p < self.exports@[k].properties@.len() ==> in_list(
                            wanted@,
                            (#[trigger] self.exports@[k].properties@[p]).name@,
                        )),
            decreases export_count - j,
        {
            let ghost w0 = wanted@;
            wanted.push(self.exports[j].object_name.name.clone());
            proof {
                assert(forall|k: int| 0 <= k < w0.len() ==> #[trigger] wanted@[k] == w0[k]);
                assert(wanted@[wanted@.len() - 1]@ == self.exports@[j as int].object_name.name@);
                carry_lists(w0, wanted@, self.imports@, self.exports@, j as int);
            }
            let prop_count = self.exports[j].properties.len();
            let mut p: usize = 0;
            while p < prop_count
                invariant
                    j < export_count,
                    export_count == self.exports@.len(),
                    prop_count == self.exports@[j as int].properties@.len(),
                    p <= prop_count,
                    self.imports == old(self).imports,
                    self.exports == old(self).exports,
                    self.name_map == old(self).name_map,
                    wanted@.len() > 0,
                    wanted@[0]@ == "None"@,
                    in_list(wanted@, self.exports@[j as int].object_name.name@),
                    forall|k: int|
                        0 <= k < self.imports@.len() ==> in_list(
                            wanted@,
                            (#[trigger] self.imports@[k]).class_package.name@,
                        ) && in_list(wanted@, self.imports@[k].class_name.name@) && in_list(
                            wanted@,
                            self.imports@[k].object_name.name@,
                        ) && in_list(wanted@, self.imports@[k].package_name.name@),
                    forall|k: int|
                        0 <= k < j ==> in_list(
                            wanted@,
                            (#[trigger] self.exports@[k]).object_name.name@,
                        ) && (forall|p2: int|
                            0 <= p2 < self.exports@[k].properties@.len() ==> in_list(
                                wanted@,
                                (#[trigger] self.exports@[k].properties@[p2]).name@,
                            )),
                    forall|p2: int|
                        0 <= p2 < p ==> in_list(
                            wanted@,
                            (#[trigger] self.exports@[j as int].properties@[p2]).name@,
                        ),
                decreases prop_count - p,
            {
                let ghost w1 = wanted@;
                wanted.push(self.exports[j].properties[p].name.clone());
                proof {
                    assert(forall|k: int| 0 <= k < w1.len() ==> #[trigger] wanted@[k] == w1[k]);
                    assert(wanted@[wanted@.len() - 1]@ == self.exports@[j as int].properties@[
                        p as int
                    ].name@);
                    carry_lists(w1, wanted@, self.imports@, self.exports@, j as int);
                    lemma_in_list_extend(w1, wanted@, self.exports@[j as int].object_name.name@);
                    assert forall|p2: int|
                        0 <= p2 < p + 1 implies in_list(
                        wanted@,
                        (#[trigger] self.exports@[j as int].properties@[p2]).name@,
                    ) by {
                        if p2 < p {
                            lemma_in_list_extend(w1, wanted@, self.exports@[j as int].properties@[
                                p2
                            ].name@);
                        }
                    }
                }
                p += 1;
            }
            j += 1;
        }
        let total = wanted.len();
        let mut k: usize = 0;
        while k < total
            invariant
                total == wanted@.len(),
                k <= total,
                self.imports == old(self).imports,
                self.exports == old(self).exports,
                forall|k2: int|
                    0 <= k2 < k ==> name_present(
                        self.name_map.entries(),
                        (#[trigger] wanted@[k2])@,
                    ),
            decreases total - k,
        {
            let ghost pre = self.name_map.entries();
            let idx = self.name_map.add_string(wanted[k].as_str());
            proof {
                assert(self.name_map.entries()[idx as int] == wanted@[k as int]@);
                assert forall|k2: int| 0 <= k2 < k + 1 implies name_present(
                    self.name_map.entries(),
                    (#[trigger] wanted@[k2])@,
                ) by {
                    if k2 < k {
                        lemma_present_extend(pre, self.name_map.entries(), wanted@[k2]@);
                    }
                }
            }
            k += 1;
        }
        proof {
            assert(name_present(self.name_map.entries(), wanted@[0]@));
            assert forall|i2: int| 0 <= i2 < self.imports@.len() implies name_present(
                self.name_map.entries(),
                (#[trigger] self.imports@[i2]).class_package.name@,
            ) && name_present(self.name_map.entries(), self.imports@[i2].class_name.name@)
                && name_present(self.name_map.entries(), self.imports@[i2].object_name.name@)
                && name_present(self.name_map.entries(), self.imports@[i2].package_name.name@) by {
                lemma_in_list_present(wanted@, self.name_map.entries(), self.imports@[
                    i2
                ].class_package.name@);
                lemma_in_list_present(wanted@, self.name_map.entries(), self.imports@[
                    i2
                ].class_name.name@);
                lemma_in_list_present(wanted@, self.name_map.entries(), self.imports@[
                    i2
                ].object_name.name@);
                lemma_in_list_present(wanted@, self.name_map.entries(), self.imports@[
                    i2
                ].package_name.name@);
            }
            assert forall|j2: int| 0 <= j2 < self.exports@.len() implies name_present(
                self.name_map.entries(),
                (#[trigger] self.exports@[j2]).object_name.name@,
            ) && (forall|p2: int|
                0 <= p2 < self.exports@[j2].properties@.len() ==> name_present(
                    self.name_map.entries(),
                    (#[trigger] self.exports@[j2].properties@[p2]).name@,
                )) by {
                lemma_in_list_present(wanted@, self.name_map.entries(), self.exports@[
                    j2
                ].object_name.name@);
                assert forall|p2: int| 0 <= p2 < self.exports@[j2].properties@.len()
                    implies name_present(
                    self.name_map.entries(),
                    (#[trigger] self.exports@[j2].properties@[p2]).name@,
                ) by {
                    lemma_in_list_present(wanted@, self.name_map.entries(), self.exports@[
                        j2
                    ].properties@[p2].name@);
                }
            }
        }
    }
}

/// True when some entry of the table equals the string.
pub open spec fn name_present(t: Seq<Seq<char>>, s: Seq<char>) -> bool {
    exists|k: int| 0 <= k < t.len() && #[trigger] t[k] == s
}

/// True when some string of the list reads as the given characters.
pub open spec fn in_list(l: Seq<String>, s: Seq<char>) -> bool {
    exists|k: int| 0 <= k < l.len() && (#[trigger] l[k])@ == s
}

/// A present name stays present when the table is extended at the end.
pub proof fn lemma_present_extend(t1: Seq<Seq<char>>, t2: Seq<Seq<char>>, s: Seq<char>)
    requires
        name_present(t1, s),
        t1.len() <= t2.len(),
        forall|k: int| 0 <= k < t1.len() ==> #[trigger] t2[k] == t1[k],
    ensures
        name_present(t2, s),
{
    let k = choose|k: int| 0 <= k < t1.len() && #[trigger] t1[k] == s;
    assert(t2[k] == s);
}

/// Every table name already listed stays listed when the list is
/// extended: the import names, and the export and property names of
/// the first `j` exports.
pub proof fn carry_lists(
    w0: Seq<String>,
    w1: Seq<String>,
    imports: Seq<Import>,
    exports: Seq<Export>,
    j: int,
)
    requires
        w0.len() <= w1.len(),
        forall|k: int| 0 <= k < w0.len() ==> #[trigger] w1[k] == w0[k],
        forall|k: int|
            0 <= k < imports.len() ==> in_list(w0, (#[trigger] imports[k]).class_package.name@)
                && in_list(w0, imports[k].class_name.name@) && in_list(
                w0,
                imports[k].object_name.name@,
            ) && in_list(w0, imports[k].package_name.name@),
        forall|k: int|
            0 <= k < j ==> in_list(w0, (#[trigger] exports[k]).object_name.name@) && (forall|
                p2: int,
            |
                0 <= p2 < exports[k].properties@.len() ==> in_list(
                    w0,
                    (#[trigger] exports[k].properties@[p2]).name@,
                )),
    ensures
        forall|k: int|
            0 <= k < imports.len() ==> in_list(w1, (#[trigger] imports[k]).class_package.name@)
                && in_list(w1, imports[k].class_name.name@) && in_list(
                w1,
                imports[k].object_name.name@,
            ) && in_list(w1, imports[k].package_name.name@),
        forall|k: int|
            0 <= k < j ==> in_list(w1, (#[trigger] exports[k]).object_name.name@) && (forall|
                p2: int,
            |
                0 <= p2 < exports[k].properties@.len() ==> in_list(
                    w1,
                    (#[trigger] exports[k].properties@[p2]).name@,
                )),
{
    assert forall|k: int|
        0 <= k < imports.len() implies in_list(w1, (#[trigger] imports[k]).class_package.name@)
        && in_list(w1, imports[k].class_name.name@) && in_list(w1, imports[k].object_name.name@)
        && in_list(w1, imports[k].package_name.name@) by {
        lemma_in_list_extend(w0, w1, imports[k].class_package.name@);
        lemma_in_list_extend(w0, w1, imports[k].class_name.name@);
        lemma_in_list_extend(w0, w1, imports[k].object_name.name@);
        lemma_in_list_extend(w0, w1, imports[k].package_name.name@);
    }
    assert forall|k: int|
        0 <= k < j implies in_list(w1, (#[trigger] exports[k]).object_name.name@) && (forall|
            p2: int,
        |
            0 <= p2 < exports[k].properties@.len() ==> in_list(
                w1,
                (#[trigger] exports[k].properties@[p2]).name@,
            )) by {
        lemma_in_list_extend(w0, w1, exports[k].object_name.name@);
        assert forall|p2: int| 0 <= p2 < exports[k].properties@.len() implies in_list(
            w1,
            (#[trigger] exports[k].properties@[p2]).name@,
        ) by {
            lemma_in_list_extend(w0, w1, exports[k].properties@[p2].name@);
        }
    }
}

/// A listed string stays listed when the list is extended at the end.
pub proof fn lemma_in_list_extend(l1: Seq<String>, l2: Seq<String>, s: Seq<char>)
    requires
        in_list(l1, s),
        l1.len() <= l2.len(),
        forall|k: int| 0 <= k < l1.len() ==> #[trigger] l2[k] == l1[k],
    ensures
        in_list(l2, s),
{
    let k = choose|k: int| 0 <= k < l1.len() && (#[trigger] l1[k])@ == s;
    assert(l2[k] == l1[k]);
}

/// A string in the interned list is present in a table that holds
/// every list entry.
pub proof fn lemma_in_list_present(l: Seq<String>, t: Seq<Seq<char>>, s: Seq<char>)
    requires
        in_list(l, s),
        forall|k: int| 0 <= k < l.len() ==> name_present(t, (#[trigger] l[k])@),
    ensures
        name_present(t, s),
{
    let k = choose|k: int| 0 <= k < l.len() && (#[trigger] l[k])@ == s;
    assert(name_present(t, l[k]@));
}

/// The top-level container: the decoded tables plus the summary's
/// bookkeeping, produced once per package load.
#[derive(Debug, PartialEq)]
pub struct Asset {
    /// The decoded tables.
    pub asset_data: AssetData,
    /// The legacy file version.
    pub legacy_file_version: i32,
    /// The generation records.
    pub generations: Vec<GenerationInfo>,
    /// The package identifier.
    pub package_guid: Guid,
    /// The engine version recorded in the package.
    pub engine_version_recorded: EngineVersion,
    /// The oldest engine version able to read the package.
    pub engine_version_compatible: EngineVersion,
    /// The chunk identifiers.
    pub chunk_ids: Vec<i32>,
    /// The package source stamp.
    pub package_source: u32,
    /// The folder name.
    pub folder_name: String,
    /// Whether export body sizes and offsets are 64 bits wide.
    pub use_event_driven_loader: bool,
    /// The start of the bulk data.
    pub bulk_data_start_offset: i64,
    /// The custom versions the package was saved with.
    pub custom_versions: Vec<CustomVersion>,
    /// The object version that gates optional sections.
    pub object_version: ObjectVersion,
    /// The fifth-generation object version.
    pub object_version_ue5: ObjectVersionUE5,
}

impl Asset {
    /// An empty asset for building packages from scratch.
    pub fn new_empty() -> (r: Self)
        ensures
            r.asset_data.imports@.len() == 0,
            r.asset_data.exports@.len() == 0,
            r.asset_data.name_map.entries().len() == 0,
            r.custom_versions@.len() == 0,
            r.generations@.len() == 0,
            r.chunk_ids@.len() == 0,
            engine_version_number(r.engine_version_recorded) == 1004,
            r.object_version.0 == 522,
            r.use_event_driven_loader == false,
    {
        Asset {
            asset_data: AssetData::new(),
            legacy_file_version: -4,
            generations: Vec::new(),
            package_guid: Guid::nil(),
            engine_version_recorded: EngineVersion::VER_UE5_3,
            engine_version_compatible: EngineVersion::VER_UE5_3,
            chunk_ids: Vec::new(),
            package_source: 0,
            folder_name: String::new(),
            use_event_driven_loader: false,
            bulk_data_start_offset: 0,
            custom_versions: Vec::new(),
            object_version: ObjectVersion(522),
            object_version_ue5: ObjectVersionUE5(0),
        }
    }

    /// The export at `index`, if the index is in range.
    pub fn get_export(&self, index: usize) -> (r: Option<&Export>)
        ensures
            index < self.asset_data.exports@.len() ==> (r matches Some(e) && *e
                == self.asset_data.exports@[index as int]),
            index >= self.asset_data.exports@.len() ==> r is None,
    {
        if index < self.asset_data.exports.len() {
            Some(&self.asset_data.exports[index])
        } else {
            None
        }
    }

    /// The import at `index`, if the index is in range.
    pub fn get_import(&self, index: usize) -> (r: Option<&Import>)
        ensures
            index < self.asset_data.imports@.len() ==> (r matches Some(e) && *e
                == self.asset_data.imports@[index as int]),
            index >= self.asset_data.imports@.len() ==> r is None,
    {
        if index < self.asset_data.imports.len() {
            Some(&self.asset_data.imports[index])
        } else {
            None
        }
    }

    /// The first export with the given object name, if any.
    pub fn get_export_by_name(&self, name: &str) -> (r: Option<&Export>)
        ensures
            r matches Some(e) ==> exists|i: int|
                0 <= i < self.asset_data.exports@.len() && self.asset_data.exports@[
                    i
                ].object_name.name@ == name@ && *e == self.asset_data.exports@[i],
            r is None ==> forall|i: int|
                0 <= i < self.asset_data.exports@.len() ==> self.asset_data.exports@[
                    i
                ].object_name.name@ != name@,
    {
        let sought = name.to_owned();
        let n = self.asset_data.exports.len();
        let mut i: usize = 0;
        while i < n
            invariant
                n == self.asset_data.exports@.len(),
                i <= n,
                sought@ == name@,
                forall|j: int|
                    0 <= j < i ==> self.asset_data.exports@[j].object_name.name@ != name@,
            decreases n - i,
        {
            if self.asset_data.exports[i].object_name.name == sought {
                return Some(&self.asset_data.exports[i]);
            }
            i += 1;
        }
        None
    }

    /// The first import with the given object name, if any.
    pub fn get_import_by_name(&self, name: &str) -> (r: Option<&Import>)
        ensures
            r matches Some(e) ==> exists|i: int|
                0 <= i < self.asset_data.imports@.len() && self.asset_data.imports@[
                    i
                ].object_name.name@ == name@ && *e == self.asset_data.imports@[i],
            r is None ==> forall|i: int|
                0 <= i < self.asset_data.imports@.len() ==> self.asset_data.imports@[
                    i
                ].object_name.name@ != name@,
    {
        let sought = name.to_owned();
        let n = self.asset_data.imports.len();
        let mut i: usize = 0;
        while i < n
            invariant
                n == self.asset_data.imports@.len(),
                i <= n,
                sought@ == name@,
                forall|j: int|
                    0 <= j < i ==> self.asset_data.imports@[j].object_name.name@ != name@,
            decreases n - i,
        {
            if self.asset_data.imports[i].object_name.name == sought {
                return Some(&self.asset_data.imports[i]);
            }
            i += 1;
        }
        None
    }

    /// The first export, the package's main object, if any.
    pub fn get_main_export(&self) -> (r: Option<&Export>)
        ensures
            self.asset_data.exports@.len() > 0 ==> (r matches Some(e) && *e
                == self.asset_data.exports@[0]),
            self.asset_data.exports@.len() == 0 ==> r is None,
    {
        self.get_export(0)
    }

    /// Appends an export.
    pub fn add_export(&mut self, export: Export)
        ensures
            final(self).asset_data.exports@ == old(self).asset_data.exports@.push(export),
    {
        self.asset_data.exports.push(export);
    }

    /// Appends an import.
    pub fn add_import(&mut self, import: Import)
        ensures
            final(self).asset_data.imports@ == old(self).asset_data.imports@.push(import),
    {
        self.asset_data.imports.push(import);
    }

    /// Removes and returns the export at `index`, when in range; later
    /// exports move up one place.
    pub fn remove_export(&mut self, index: usize) -> (r: Option<Export>)
        ensures
            index < old(self).asset_data.exports@.len() ==> (r matches Some(e) && e == old(
                self,
            ).asset_data.exports@[index as int] && final(self).asset_data.exports@ == old(
                self,
            ).asset_data.exports@.remove(index as int)),
            index >= old(self).asset_data.exports@.len() ==> r is None && *final(self)
                == *old(self),
    {
        if index < self.asset_data.exports.len() {
            Some(self.asset_data.exports.remove(index))
        } else {
            None
        }
    }

    /// Clears the export table.
    pub fn clear_exports(&mut self)
        ensures
            final(self).asset_data.exports@.len() == 0,
    {
        self.asset_data.exports.clear();
    }

    /// Clears the import table.
    pub fn clear_imports(&mut self)
        ensures
            final(self).asset_data.imports@.len() == 0,
    {
        self.asset_data.imports.clear();
    }

    /// The package flags.
    pub fn get_package_flags(&self) -> (r: u32)
        ensures
            r == self.asset_data.package_flags,
    {
        self.asset_data.package_flags
    }

    /// Sets the package flags.
    pub fn set_package_flags(&mut self, flags: u32)
        ensures
            final(self).asset_data.package_flags == flags,
            final(self).asset_data.exports == old(self).asset_data.exports,
            final(self).asset_data.imports == old(self).asset_data.imports,
    {
        self.asset_data.package_flags = flags;
    }

    /// The recorded custom version with the given identifier, if any.
    pub fn get_custom_version(&self, guid: &Guid) -> (r: Option<&CustomVersion>)
        ensures
            r matches Some(v) ==> exists|i: int|
                0 <= i < self.custom_versions@.len() && self.custom_versions@[i].guid == *guid
                    && *v == self.custom_versions@[i],
            r is None ==> forall|i: int|
                0 <= i < self.custom_versions@.len() ==> self.custom_versions@[i].guid != *guid,
    {
        let n = self.custom_versions.len();
        let mut i: usize = 0;
        while i < n
            invariant
                n == self.custom_versions@.len(),
                i <= n,
                forall|j: int| 0 <= j < i ==> self.custom_versions@[j].guid != *guid,
            decreases n - i,
        {
            if self.custom_versions[i].guid == *guid {
                return Some(&self.custom_versions[i]);
            }
            i += 1;
        }
        None
    }

    /// Records a custom version.
    pub fn add_custom_version(&mut self, custom_version: CustomVersion)
        ensures
            final(self).custom_versions@ == old(self).custom_versions@.push(custom_version),
    {
        self.custom_versions.push(custom_version);
    }

    /// The object version that gates optional sections, derived from
    /// the recorded engine version when no explicit one is set.
    pub fn get_object_version(&self) -> (r: i32)
        ensures
            r == self.object_version.0,
    {
        self.object_version.0
    }

    /// The recorded custom version of the series the type names, if
    /// any: the keyed form of [`Asset::get_custom_version`].
    pub fn get_custom_version_of<T: crate::versions::CustomVersionTrait>(&self) -> (r: Option<
        &CustomVersion,
    >)
        ensures
            r matches Some(v) ==> exists|i: int|
                0 <= i < self.custom_versions@.len() && *v == self.custom_versions@[i],
    {
        let g = T::guid();
        let r = self.get_custom_version(&g);
        proof {
            if let Some(v) = r {
                crate::versions::lemma_guid_index_of(Seq::empty(), g);
            }
        }
        r
    }

    /// True when this asset meets the writer's string-length bounds:
    /// the folder name and every property string fit the length
    /// prefix of the string layout. Callers test this before calling
    /// [`write`].
    pub fn fits_string_limits(&self) -> (r: bool)
        ensures
            r == (fstr_len_ok(self.folder_name@) && (forall|i: int|
                0 <= i < self.asset_data.exports@.len() ==> fits_fstr_all(
                    (#[trigger] self.asset_data.exports@[i]).properties@,
                ))),
    {
        if self.folder_name.as_str().unicode_len() >= 0x4000_0000 {
            return false;
        }
        let n = self.asset_data.exports.len();
        let mut i: usize = 0;
        let mut ok = true;
        while i < n
            invariant
                n == self.asset_data.exports@.len(),
                i <= n,
                ok == forall|j: int|
                    0 <= j < i ==> fits_fstr_all(
                        (#[trigger] self.asset_data.exports@[j]).properties@,
                    ),
            decreases n - i,
        {
            let e_ok = crate::property::fits_entries_check(&self.asset_data.exports[i].properties);
            ok = ok && e_ok;
            i += 1;
        }
        ok
    }
}

// ------------------------------------------------------------------
// The byte layout of a whole package
// ------------------------------------------------------------------

/// The layout of the name table from entry `i` on: each string, and
/// its verification hash when the object version records hashes.
pub open spec fn enc_names(t: Seq<Seq<char>>, i: int, hashed: bool) -> Seq<u8>
    decreases t.len() - i,
{
    if 0 <= i < t.len() {
        enc_fstr(t[i]) + (if hashed {
            u32_le_bytes(name_table_hash(t[i]))
        } else {
            Seq::empty()
        }) + enc_names(t, i + 1, hashed)
    } else {
        Seq::empty()
    }
}

/// The layout of the first `i` name-table entries.
pub open spec fn enc_names_take(t: Seq<Seq<char>>, i: int, hashed: bool) -> Seq<u8>
    decreases i,
{
    if i <= 0 {
        Seq::empty()
    } else {
        enc_names_take(t, i - 1, hashed) + enc_fstr(t[i - 1]) + (if hashed {
            u32_le_bytes(name_table_hash(t[i - 1]))
        } else {
            Seq::empty()
        })
    }
}

/// The whole name-table layout is the prefix followed by the suffix.
pub proof fn lemma_enc_names_split(t: Seq<Seq<char>>, i: int, hashed: bool)
    requires
        0 <= i <= t.len(),
    ensures
        enc_names(t, 0, hashed) == enc_names_take(t, i, hashed) + enc_names(t, i, hashed),
    decreases i,
{
    if i == 0 {
        assert(Seq::<u8>::empty() + enc_names(t, 0, hashed) =~= enc_names(t, 0, hashed));
    } else {
        lemma_enc_names_split(t, i - 1, hashed);
        let h = if hashed {
            u32_le_bytes(name_table_hash(t[i - 1]))
        } else {
            Seq::empty()
        };
        assert(enc_names(t, i - 1, hashed) == enc_fstr(t[i - 1]) + h + enc_names(t, i, hashed));
        assert((enc_names_take(t, i - 1, hashed) + (enc_fstr(t[i - 1]) + h + enc_names(
            t,
            i,
            hashed,
        ))) =~= (enc_names_take(t, i - 1, hashed) + enc_fstr(t[i - 1]) + h) + enc_names(
            t,
            i,
            hashed,
        ));
    }
}

/// The layout of one import entry: three name references around the
/// outer reference, and the package identifier when the object
/// version records one (the null identifier stands for an absent one).
pub open spec fn enc_import_entry(t: Seq<Seq<char>>, imp: Import, with_guids: bool) -> Seq<u8> {
    enc_fname(t, imp.class_package.name@, imp.class_package.number) + enc_fname(
        t,
        imp.class_name.name@,
        imp.class_name.number,
    ) + u32_le_bytes(imp.outer_index.0 as u32) + enc_fname(
        t,
        imp.object_name.name@,
        imp.object_name.number,
    ) + (if with_guids {
        enc_guid(
            match imp.package_guid {
                Option::Some(g) => g,
                Option::None => Guid { a: 0, b: 0, c: 0, d: 0 },
            },
        )
    } else {
        Seq::empty()
    })
}

/// The layout of the import table from entry `i` on.
pub open spec fn enc_imports(t: Seq<Seq<char>>, imps: Seq<Import>, i: int, with_guids: bool) -> Seq<
    u8,
>
    decreases imps.len() - i,
{
    if 0 <= i < imps.len() {
        enc_import_entry(t, imps[i], with_guids) + enc_imports(t, imps, i + 1, with_guids)
    } else {
        Seq::empty()
    }
}

/// The layout of the first `i` import entries.
pub open spec fn enc_imports_take(
    t: Seq<Seq<char>>,
    imps: Seq<Import>,
    i: int,
    with_guids: bool,
) -> Seq<u8>
    decreases i,
{
    if i <= 0 {
        Seq::empty()
    } else {
        enc_imports_take(t, imps, i - 1, with_guids) + enc_import_entry(t, imps[i - 1], with_guids)
    }
}

/// The whole import-table layout is the prefix followed by the suffix.
pub proof fn lemma_enc_imports_split(t: Seq<Seq<char>>, imps: Seq<Import>, i: int, with_guids: bool)
    requires
        0 <= i <= imps.len(),
    ensures
        enc_imports(t, imps, 0, with_guids) == enc_imports_take(t, imps, i, with_guids)
            + enc_imports(t, imps, i, with_guids),
    decreases i,
{
    if i == 0 {
        assert(Seq::<u8>::empty() + enc_imports(t, imps, 0, with_guids) =~= enc_imports(
            t,
            imps,
            0,
            with_guids,
        ));
    } else {
        lemma_enc_imports_split(t, imps, i - 1, with_guids);
        assert(enc_imports(t, imps, i - 1, with_guids) == enc_import_entry(
            t,
            imps[i - 1],
            with_guids,
        ) + enc_imports(t, imps, i, with_guids));
        assert((enc_imports_take(t, imps, i - 1, with_guids) + (enc_import_entry(
            t,
            imps[i - 1],
            with_guids,
        ) + enc_imports(t, imps, i, with_guids))) =~= (enc_imports_take(t, imps, i - 1, with_guids)
            + enc_import_entry(t, imps[i - 1], with_guids)) + enc_imports(
            t,
            imps,
            i,
            with_guids,
        ));
    }
}

/// The layout of one export's dependency list from entry `i` on.
pub open spec fn enc_dep_run(deps: Seq<PackageIndex>, i: int) -> Seq<u8>
    decreases deps.len() - i,
{
    if 0 <= i < deps.len() {
        u32_le_bytes(deps[i].0 as u32) + enc_dep_run(deps, i + 1)
    } else {
        Seq::empty()
    }
}

/// The layout of the first `i` dependency entries.
pub open spec fn enc_dep_run_take(deps: Seq<PackageIndex>, i: int) -> Seq<u8>
    decreases i,
{
    if i <= 0 {
        Seq::empty()
    } else {
        enc_dep_run_take(deps, i - 1) + u32_le_bytes(deps[i - 1].0 as u32)
    }
}

/// The whole dependency-list layout is the prefix followed by the
/// suffix.
pub proof fn lemma_enc_dep_run_split(deps: Seq<PackageIndex>, i: int)
    requires
        0 <= i <= deps.len(),
    ensures
        enc_dep_run(deps, 0) == enc_dep_run_take(deps, i) + enc_dep_run(deps, i),
    decreases i,
{
    if i == 0 {
        assert(Seq::<u8>::empty() + enc_dep_run(deps, 0) =~= enc_dep_run(deps, 0));
    } else {
        lemma_enc_dep_run_split(deps, i - 1);
        assert(enc_dep_run(deps, i - 1) == u32_le_bytes(deps[i - 1].0 as u32) + enc_dep_run(
            deps,
            i,
        ));
        assert((enc_dep_run_take(deps, i - 1) + (u32_le_bytes(deps[i - 1].0 as u32) + enc_dep_run(
            deps,
            i,
        ))) =~= (enc_dep_run_take(deps, i - 1) + u32_le_bytes(deps[i - 1].0 as u32)) + enc_dep_run(
            deps,
            i,
        ));
    }
}

/// The layout of one export entry: its references (the template one
/// when the object version records it), name, flags, body size and
/// offset (64 bits wide under the event-driven loader, else 32), its
/// dependency list, and its property stream.
pub open spec fn enc_export_entry(
    t: Seq<Seq<char>>,
    e: Export,
    with_templates: bool,
    wide: bool,
) -> Seq<u8> {
    u32_le_bytes(e.class_index.0 as u32) + u32_le_bytes(e.super_index.0 as u32) + (
    if with_templates {
        u32_le_bytes(e.template_index.0 as u32)
    } else {
        Seq::empty()
    }) + u32_le_bytes(e.outer_index.0 as u32) + enc_fname(
        t,
        e.object_name.name@,
        e.object_name.number,
    ) + u32_le_bytes(e.object_flags) + (if wide {
        u64_le_bytes(e.serial_size) + u64_le_bytes(e.serial_offset)
    } else {
        u32_le_bytes(e.serial_size as u32) + u32_le_bytes(e.serial_offset as u32)
    }) + u32_le_bytes(e.export_flags) + u32_le_bytes(
        e.create_before_serialization_dependencies@.len() as u32,
    ) + enc_dep_run(e.create_before_serialization_dependencies@, 0) + enc_stream(
        prop_entry_views(e.properties@),
        0,
        t,
    )
}

/// The layout of the export table from entry `i` on.
pub open spec fn enc_exports(
    t: Seq<Seq<char>>,
    exps: Seq<Export>,
    i: int,
    with_templates: bool,
    wide: bool,
) -> Seq<u8>
    decreases exps.len() - i,
{
    if 0 <= i < exps.len() {
        enc_export_entry(t, exps[i], with_templates, wide) + enc_exports(
            t,
            exps,
            i + 1,
            with_templates,
            wide,
        )
    } else {
        Seq::empty()
    }
}

/// The layout of the first `i` export entries.
pub open spec fn enc_exports_take(
    t: Seq<Seq<char>>,
    exps: Seq<Export>,
    i: int,
    with_templates: bool,
    wide: bool,
) -> Seq<u8>
    decreases i,
{
    if i <= 0 {
        Seq::empty()
    } else {
        enc_exports_take(t, exps, i - 1, with_templates, wide) + enc_export_entry(
            t,
            exps[i - 1],
            with_templates,
            wide,
        )
    }
}

/// The whole export-table layout is the prefix followed by the suffix.
pub proof fn lemma_enc_exports_split(
    t: Seq<Seq<char>>,
    exps: Seq<Export>,
    i: int,
    with_templates: bool,
    wide: bool,
)
    requires
        0 <= i <= exps.len(),
    ensures
        enc_exports(t, exps, 0, with_templates, wide) == enc_exports_take(
            t,
            exps,
            i,
            with_templates,
            wide,
        ) + enc_exports(t, exps, i, with_templates, wide),
    decreases i,
{
    if i == 0 {
        assert(Seq::<u8>::empty() + enc_exports(t, exps, 0, with_templates, wide) =~= enc_exports(
            t,
            exps,
            0,
            with_templates,
            wide,
        ));
    } else {
        lemma_enc_exports_split(t, exps, i - 1, with_templates, wide);
        assert(enc_exports(t, exps, i - 1, with_templates, wide) == enc_export_entry(
            t,
            exps[i - 1],
            with_templates,
            wide,
        ) + enc_exports(t, exps, i, with_templates, wide));
        assert((enc_exports_take(t, exps, i - 1, with_templates, wide) + (enc_export_entry(
            t,
            exps[i - 1],
            with_templates,
            wide,
        ) + enc_exports(t, exps, i, with_templates, wide))) =~= (enc_exports_take(
            t,
            exps,
            i - 1,
            with_templates,
            wide,
        ) + enc_export_entry(t, exps[i - 1], with_templates, wide)) + enc_exports(
            t,
            exps,
            i,
            with_templates,
            wide,
        ));
    }
}

/// The layout of the generation records from entry `i` on.
pub open spec fn enc_generations(gens: Seq<GenerationInfo>, i: int) -> Seq<u8>
    decreases gens.len() - i,
{
    if 0 <= i < gens.len() {
        u32_le_bytes(gens[i].export_count as u32) + u32_le_bytes(gens[i].name_count as u32)
            + enc_generations(gens, i + 1)
    } else {
        Seq::empty()
    }
}

/// The layout of the first `i` generation records.
pub open spec fn enc_generations_take(gens: Seq<GenerationInfo>, i: int) -> Seq<u8>
    decreases i,
{
    if i <= 0 {
        Seq::empty()
    } else {
        enc_generations_take(gens, i - 1) + u32_le_bytes(gens[i - 1].export_count as u32)
            + u32_le_bytes(gens[i - 1].name_count as u32)
    }
}

/// The whole generation-list layout is the prefix followed by the
/// suffix.
pub proof fn lemma_enc_generations_split(gens: Seq<GenerationInfo>, i: int)
    requires
        0 <= i <= gens.len(),
    ensures
        enc_generations(gens, 0) == enc_generations_take(gens, i) + enc_generations(gens, i),
    decreases i,
{
    if i == 0 {
        assert(Seq::<u8>::empty() + enc_generations(gens, 0) =~= enc_generations(gens, 0));
    } else {
        lemma_enc_generations_split(gens, i - 1);
        assert(enc_generations(gens, i - 1) == u32_le_bytes(gens[i - 1].export_count as u32)
            + u32_le_bytes(gens[i - 1].name_count as u32) + enc_generations(gens, i));
        assert((enc_generations_take(gens, i - 1) + (u32_le_bytes(gens[i - 1].export_count as u32)
            + u32_le_bytes(gens[i - 1].name_count as u32) + enc_generations(gens, i))) =~= (
        enc_generations_take(gens, i - 1) + u32_le_bytes(gens[i - 1].export_count as u32)
            + u32_le_bytes(gens[i - 1].name_count as u32)) + enc_generations(gens, i));
    }
}

/// The layout of the chunk identifiers from entry `i` on.
pub open spec fn enc_chunks(ids: Seq<i32>, i: int) -> Seq<u8>
    decreases ids.len() - i,
{
    if 0 <= i < ids.len() {
        u32_le_bytes(ids[i] as u32) + enc_chunks(ids, i + 1)
    } else {
        Seq::empty()
    }
}

/// The layout of the first `i` chunk identifiers.
pub open spec fn enc_chunks_take(ids: Seq<i32>, i: int) -> Seq<u8>
    decreases i,
{
    if i <= 0 {
        Seq::empty()
    } else {
        enc_chunks_take(ids, i - 1) + u32_le_bytes(ids[i - 1] as u32)
    }
}

/// The whole chunk-list layout is the prefix followed by the suffix.
pub proof fn lemma_enc_chunks_split(ids: Seq<i32>, i: int)
    requires
        0 <= i <= ids.len(),
    ensures
        enc_chunks(ids, 0) == enc_chunks_take(ids, i) + enc_chunks(ids, i),
    decreases i,
{
    if i == 0 {
        assert(Seq::<u8>::empty() + enc_chunks(ids, 0) =~= enc_chunks(ids, 0));
    } else {
        lemma_enc_chunks_split(ids, i - 1);
        assert(enc_chunks(ids, i - 1) == u32_le_bytes(ids[i - 1] as u32) + enc_chunks(ids, i));
        assert((enc_chunks_take(ids, i - 1) + (u32_le_bytes(ids[i - 1] as u32) + enc_chunks(
            ids,
            i,
        ))) =~= (enc_chunks_take(ids, i - 1) + u32_le_bytes(ids[i - 1] as u32)) + enc_chunks(
            ids,
            i,
        ));
    }
}

/// The byte layout of the summary, with the given counts, section
/// positions and total header size in its fixed-width fields: the
/// fixed order of magic, versions, flags, folder name, counts and
/// offsets, identifier, generations, engine-version records,
/// compression fields, bulk-data start, chunk identifiers and preload
/// fields.
pub open spec fn enc_summary_bytes(
    a: &Asset,
    name_count: u32,
    name_off: u32,
    export_count: u32,
    export_off: u32,
    import_count: u32,
    import_off: u32,
    total: u32,
) -> Seq<u8> {
    enc_summary_head(
        a,
        name_count,
        name_off,
        export_count,
        export_off,
        import_count,
        import_off,
        total,
    ) + enc_summary_tail(a)
}

/// The head of the summary, up to and including the package
/// identifier: the fields that carry the counts, positions and total.
pub open spec fn enc_summary_head(
    a: &Asset,
    name_count: u32,
    name_off: u32,
    export_count: u32,
    export_off: u32,
    import_count: u32,
    import_off: u32,
    total: u32,
) -> Seq<u8> {
    u32_le_bytes(PACKAGE_MAGIC) + u32_le_bytes(a.legacy_file_version as u32) + u32_le_bytes(
        (-2i32) as u32,
    ) + u32_le_bytes(a.object_version.0 as u32) + u32_le_bytes(a.object_version_ue5.0 as u32)
        + u32_le_bytes(total) + enc_fstr(a.folder_name@) + u32_le_bytes(a.asset_data.package_flags)
        + u32_le_bytes(name_count) + u32_le_bytes(name_off) + u32_le_bytes(0) + u32_le_bytes(0)
        + u32_le_bytes(export_count) + u32_le_bytes(export_off) + u32_le_bytes(import_count)
        + u32_le_bytes(import_off) + u32_le_bytes(0) + u32_le_bytes(0) + u32_le_bytes(0)
        + u32_le_bytes(0) + u32_le_bytes(0) + enc_guid(a.package_guid)
}

/// The tail of the summary, from the generation records on: none of
/// its fields depend on the section positions.
pub open spec fn enc_summary_tail(a: &Asset) -> Seq<u8> {
    u32_le_bytes(a.generations@.len() as u32) + enc_generations(a.generations@, 0) + u16_le_bytes(
        (engine_version_number(a.engine_version_recorded) / 1000) as u16,
    ) + u16_le_bytes((engine_version_number(a.engine_version_recorded) % 1000) as u16)
        + u16_le_bytes(0) + u32_le_bytes(0) + enc_fstr(Seq::empty()) + u16_le_bytes(
        (engine_version_number(a.engine_version_recorded) / 1000) as u16,
    ) + u16_le_bytes((engine_version_number(a.engine_version_recorded) % 1000) as u16)
        + u16_le_bytes(0) + u32_le_bytes(0) + enc_fstr(Seq::empty()) + u32_le_bytes(0)
        + u32_le_bytes(0) + u32_le_bytes(0) + u64_le_bytes(a.bulk_data_start_offset as u64)
        + u32_le_bytes(0) + u32_le_bytes(a.chunk_ids@.len() as u32) + enc_chunks(a.chunk_ids@, 0)
        + u32_le_bytes(0) + u32_le_bytes(0)
}

/// True when a whole asset fits the fixed-width fields of the layout:
/// the table counts, every name, and the total size.
pub open spec fn write_ok(a: &Asset) -> bool {
    &&& a.asset_data.name_map.entries().len() <= 0x7fff_ffff
    &&& a.asset_data.imports@.len() <= 0x7fff_ffff
    &&& a.asset_data.exports@.len() <= 0x7fff_ffff
    &&& a.generations@.len() <= 0x7fff_ffff
    &&& a.chunk_ids@.len() <= 0x7fff_ffff
    &&& (forall|i: int|
        0 <= i < a.asset_data.name_map.entries().len() ==> fstr_len_ok(
            #[trigger] a.asset_data.name_map.entries()[i],
        ))
    &&& (forall|i: int|
        0 <= i < a.asset_data.exports@.len() ==> (
        #[trigger] a.asset_data.exports@[i]).create_before_serialization_dependencies@.len()
            <= 0x7fff_ffff)
    &&& enc_package_bytes(a).len() <= 0xffff_ffff
}

/// The byte layout of a whole package: the summary with the real
/// section positions, then the name table, the import table and the
/// export table, in that order.
pub open spec fn enc_package_bytes(a: &Asset) -> Seq<u8> {
    let t = a.asset_data.name_map.entries();
    let hashed = a.object_version.0 >= VER_HASHED_NAMES;
    let with_guids = a.object_version.0 >= VER_IMPORT_GUID;
    let with_templates = a.object_version.0 >= VER_TEMPLATE_INDEX;
    let wide = a.use_event_driven_loader;
    let nb = enc_names(t, 0, hashed);
    let ib = enc_imports(t, a.asset_data.imports@, 0, with_guids);
    let eb = enc_exports(t, a.asset_data.exports@, 0, with_templates, wide);
    let l = enc_summary_bytes(
        a,
        t.len() as u32,
        0,
        a.asset_data.exports@.len() as u32,
        0,
        a.asset_data.imports@.len() as u32,
        0,
        0,
    ).len();
    enc_summary_bytes(
        a,
        t.len() as u32,
        l as u32,
        a.asset_data.exports@.len() as u32,
        (l + nb.len() + ib.len()) as u32,
        a.asset_data.imports@.len() as u32,
        (l + nb.len()) as u32,
        (l + nb.len() + ib.len() + eb.len()) as u32,
    ) + nb + ib + eb
}


/// The string and suffix of one decoded name reference row, with the
/// class-defining package repeated as the package name.
pub struct ImportModel {
    /// The package that defines the class.
    pub class_package: FNameModel,
    /// The class of the object.
    pub class_name: FNameModel,
    /// The enclosing object.
    pub outer_index: i32,
    /// The name of the object.
    pub object_name: FNameModel,
    /// The defining package's identifier, when the layout records one.
    pub package_guid: Option<Guid>,
    /// The defining package's name.
    pub package_name: FNameModel,
}

/// What one decoded export-table row holds, property stream included.
pub struct ExportModel {
    /// The class of the object.
    pub class_index: i32,
    /// The superclass of the object.
    pub super_index: i32,
    /// The template object.
    pub template_index: i32,
    /// The enclosing object.
    pub outer_index: i32,
    /// The name of the object.
    pub object_name: FNameModel,
    /// The object's flags.
    pub object_flags: u32,
    /// The byte size of the serialized body.
    pub serial_size: u64,
    /// The byte offset of the serialized body.
    pub serial_offset: u64,
    /// The export's flags.
    pub export_flags: u32,
    /// The references that must exist before deserialization.
    pub deps: Seq<i32>,
    /// The typed property stream.
    pub properties: Seq<PropEntryModel>,
}

/// What a decoded summary holds: the fields the asset keeps.
pub struct SummaryModel {
    /// The legacy file version.
    pub legacy_file_version: i32,
    /// The object version.
    pub object_version: i32,
    /// The second object version word.
    pub object_version_ue5: i32,
    /// The recorded total header size.
    pub total_header_size: u32,
    /// The folder name.
    pub folder_name: Seq<char>,
    /// The package flags.
    pub package_flags: u32,
    /// The number of names.
    pub name_count: u32,
    /// Where the name table stands.
    pub name_offset: u32,
    /// The number of exports.
    pub export_count: u32,
    /// Where the export table stands.
    pub export_offset: u32,
    /// The number of imports.
    pub import_count: u32,
    /// Where the import table stands.
    pub import_offset: u32,
    /// The package identifier.
    pub package_guid: Guid,
    /// The recorded generations.
    pub generations: Seq<GenerationInfo>,
    /// The saved engine's major version.
    pub saved_major: u16,
    /// The saved engine's minor version.
    pub saved_minor: u16,
    /// Where bulk data starts; a positive value selects the wide
    /// serial fields.
    pub bulk_data_start_offset: i64,
    /// The chunk identifiers.
    pub chunk_ids: Seq<i32>,
}

/// A whole decoded package.
pub struct PackageModel {
    /// The summary.
    pub summary: SummaryModel,
    /// The name table.
    pub names: Seq<Seq<char>>,
    /// The import table.
    pub imports: Seq<ImportModel>,
    /// The export table.
    pub exports: Seq<ExportModel>,
}

/// Parses the fixed head of the summary: tag, versions, header size,
/// folder name and package flags. A tag other than the package magic
/// fails the parse.
pub open spec fn dec_sum_head(b: Seq<u8>) -> Option<((i32, i32, i32, u32, Seq<char>, u32), int)> {
    match dec_u32(b, 0) {
        Option::None => Option::None,
        Option::Some((tag, p1)) => if tag == PACKAGE_MAGIC {
            match dec_i32(b, p1) {
                Option::None => Option::None,
                Option::Some((legacy, p2)) => match dec_i32(b, p2) {
                    Option::None => Option::None,
                    Option::Some((_u3, p3)) => match dec_i32(b, p3) {
                        Option::None => Option::None,
                        Option::Some((v4, p4)) => match dec_i32(b, p4) {
                            Option::None => Option::None,
                            Option::Some((v5, p5)) => match dec_u32(b, p5) {
                                Option::None => Option::None,
                                Option::Some((ths, p6)) => match dec_fstr(b, p6) {
                                    Option::None => Option::None,
                                    Option::Some((folder, p7)) => match dec_u32(b, p7) {
                                        Option::None => Option::None,
                                        Option::Some((flags, p8)) => Option::Some(
                                            ((legacy, v4, v5, ths, folder, flags), p8),
                                        ),
                                    },
                                },
                            },
                        },
                    },
                },
            }
        } else {
            Option::None
        },
    }
}

/// Parses the run of thirteen table words and the package identifier;
/// keeps the six counts and offsets the asset uses.
pub open spec fn dec_sum_tables(b: Seq<u8>, pos: int) -> Option<
    ((u32, u32, u32, u32, u32, u32, Guid), int),
> {
    match dec_u32s(b, pos, 13) {
        Option::None => Option::None,
        Option::Some((w, p1)) => match dec_guid(b, p1) {
            Option::None => Option::None,
            Option::Some((g, p2)) => Option::Some(((w[0], w[1], w[4], w[5], w[6], w[7], g), p2)),
        },
    }
}

/// Parses `n` generation rows of two counts each.
pub open spec fn dec_generations(b: Seq<u8>, pos: int, n: int) -> Option<
    (Seq<GenerationInfo>, int),
>
    decreases n,
{
    if n <= 0 {
        Option::Some((Seq::empty(), pos))
    } else {
        match dec_i32(b, pos) {
            Option::None => Option::None,
            Option::Some((ec, p1)) => match dec_i32(b, p1) {
                Option::None => Option::None,
                Option::Some((nc, p2)) => match dec_generations(b, p2, n - 1) {
                    Option::None => Option::None,
                    Option::Some((rest, p3)) => Option::Some(
                        (seq![(GenerationInfo { export_count: ec, name_count: nc })] + rest, p3),
                    ),
                },
            },
        }
    }
}

/// Parses a run of `n` 32-bit signed values.
pub open spec fn dec_i32s(b: Seq<u8>, pos: int, n: int) -> Option<(Seq<i32>, int)>
    decreases n,
{
    if n <= 0 {
        Option::Some((Seq::empty(), pos))
    } else {
        match dec_i32(b, pos) {
            Option::None => Option::None,
            Option::Some((v, p1)) => match dec_i32s(b, p1, n - 1) {
                Option::None => Option::None,
                Option::Some((rest, p2)) => Option::Some((seq![v] + rest, p2)),
            },
        }
    }
}

/// Skips `n` compressed-chunk rows of four words each.
pub open spec fn dec_chunk_blocks(b: Seq<u8>, pos: int, n: int) -> Option<int>
    decreases n,
{
    if n <= 0 {
        Option::Some(pos)
    } else {
        match dec_u32s(b, pos, 4) {
            Option::None => Option::None,
            Option::Some((_w, p1)) => dec_chunk_blocks(b, p1, n - 1),
        }
    }
}

/// Parses the version block at the summary's tail: generations, saved
/// and compatible engine versions, compression and chunk runs, the
/// bulk-data start and the chunk identifiers.
pub open spec fn dec_sum_versions(b: Seq<u8>, pos: int) -> Option<
    ((Seq<GenerationInfo>, u16, u16, i64, Seq<i32>), int),
> {
    match dec_u32(b, pos) {
        Option::None => Option::None,
        Option::Some((gc, q1)) => match dec_generations(b, q1, gc as int) {
            Option::None => Option::None,
            Option::Some((gens, q2)) => match dec_u16(b, q2) {
                Option::None => Option::None,
                Option::Some((mj, q3)) => match dec_u16(b, q3) {
                    Option::None => Option::None,
                    Option::Some((mn, q4)) => match dec_u16(b, q4) {
                        Option::None => Option::None,
                        Option::Some((_pt, q5)) => match dec_u32(b, q5) {
                            Option::None => Option::None,
                            Option::Some((_cl, q6)) => match dec_fstr(b, q6) {
                                Option::None => Option::None,
                                Option::Some((_br, q7)) => match dec_u16(b, q7) {
                                    Option::None => Option::None,
                                    Option::Some((_c1, q8)) => match dec_u16(b, q8) {
                                        Option::None => Option::None,
                                        Option::Some((_c2, q9)) => match dec_u16(b, q9) {
                                            Option::None => Option::None,
                                            Option::Some((_c3, q10)) => match dec_u32(b, q10) {
                                                Option::None => Option::None,
                                                Option::Some((_c4, q11)) => match dec_fstr(
                                                    b,
                                                    q11,
                                                ) {
                                                    Option::None => Option::None,
                                                    Option::Some((_cb, q12)) => match dec_u32(
                                                        b,
                                                        q12,
                                                    ) {
                                                        Option::None => Option::None,
                                                        Option::Some((_cf, q13)) => match dec_u32(
                                                            b,
                                                            q13,
                                                        ) {
                                                            Option::None => Option::None,
                                                            Option::Some(
                                                                (cc, q14),
                                                            ) => match dec_chunk_blocks(
                                                                b,
                                                                q14,
                                                                cc as int,
                                                            ) {
                                                                Option::None => Option::None,
                                                                Option::Some(
                                                                    q15,
                                                                ) => match dec_u32(b, q15) {
                                                                    Option::None => Option::None,
                                                                    Option::Some(
                                                                        (_ar, q16),
                                                                    ) => match dec_i64(b, q16) {
                                                                        Option::None
                                                                            => Option::None,
                                                                        Option::Some(
                                                                            (bds, q17),
                                                                        ) => match dec_u32(
                                                                            b,
                                                                            q17,
                                                                        ) {
                                                                            Option::None
                                                                                => Option::None,
                                                                            Option::Some(
                                                                                (_wt, q18),
                                                                            ) => match dec_u32(
                                                                                b,
                                                                                q18,
                                                                            ) {
                                                                                Option::None
                                                                                    => Option::None,
                                                                                Option::Some(
                                                                                    (cic, q19),
                                                                                ) => match dec_i32s(
                                                                                    b,
                                                                                    q19,
                                                                                    cic as int,
                                                                                ) {
                                                                                    Option::None
                                                                                        => Option::None,
                                                                                    Option::Some(
                                                                                        (cids, q20),
                                                                                    ) => match dec_u32(
                                                                                        b,
                                                                                        q20,
                                                                                    ) {
                                                                                        Option::None
                                                                                            => Option::None,
                                                                                        Option::Some(
                                                                                            (_pc, q21),
                                                                                        ) => match dec_u32(
                                                                                            b,
                                                                                            q21,
                                                                                        ) {
                                                                                            Option::None
                                                                                                => Option::None,
                                                                                            Option::Some(
                                                                                                (_po, q22),
                                                                                            ) => Option::Some(
                                                                                                ((gens, mj, mn, bds, cids), q22),
                                                                                            ),
                                                                                        },
                                                                                    },
                                                                                },
                                                                            },
                                                                        },
                                                                    },
                                                                },
                                                            },
                                                        },
                                                    },
                                                },
                                            },
                                        },
                                    },
                                },
                            },
                        },
                    },
                },
            },
        },
    }
}

/// Parses the whole summary and reports where it ends.
pub open spec fn dec_summary(b: Seq<u8>) -> Option<(SummaryModel, int)> {
    match dec_sum_head(b) {
        Option::None => Option::None,
        Option::Some((h, p1)) => match dec_sum_tables(b, p1) {
            Option::None => Option::None,
            Option::Some((t, p2)) => match dec_sum_versions(b, p2) {
                Option::None => Option::None,
                Option::Some((v, p3)) => Option::Some(
                    ((SummaryModel {
                        legacy_file_version: h.0,
                        object_version: h.1,
                        object_version_ue5: h.2,
                        total_header_size: h.3,
                        folder_name: h.4,
                        package_flags: h.5,
                        name_count: t.0,
                        name_offset: t.1,
                        export_count: t.2,
                        export_offset: t.3,
                        import_count: t.4,
                        import_offset: t.5,
                        package_guid: t.6,
                        generations: v.0,
                        saved_major: v.1,
                        saved_minor: v.2,
                        bulk_data_start_offset: v.3,
                        chunk_ids: v.4,
                    }), p3),
                ),
            },
        },
    }
}

/// Parses one name-table row: the string and, when the layout records
/// hashes, a verification hash that must match the string's own.
pub open spec fn dec_name_entry(b: Seq<u8>, pos: int, hashed: bool) -> Option<(Seq<char>, int)> {
    match dec_fstr(b, pos) {
        Option::None => Option::None,
        Option::Some((s, p1)) => if hashed {
            match dec_u32(b, p1) {
                Option::None => Option::None,
                Option::Some((h, p2)) => if h == name_table_hash(s) {
                    Option::Some((s, p2))
                } else {
                    Option::None
                },
            }
        } else {
            Option::Some((s, p1))
        },
    }
}

/// Parses `n` name-table rows.
pub open spec fn dec_names_tbl(b: Seq<u8>, pos: int, n: int, hashed: bool) -> Option<
    (Seq<Seq<char>>, int),
>
    decreases n,
{
    if n <= 0 {
        Option::Some((Seq::empty(), pos))
    } else {
        match dec_name_entry(b, pos, hashed) {
            Option::None => Option::None,
            Option::Some((s, p1)) => match dec_names_tbl(b, p1, n - 1, hashed) {
                Option::None => Option::None,
                Option::Some((rest, p2)) => Option::Some((seq![s] + rest, p2)),
            },
        }
    }
}

/// Parses one import row against the name table `t`.
pub open spec fn dec_import_entry(b: Seq<u8>, pos: int, t: Seq<Seq<char>>, guided: bool) -> Option<
    (ImportModel, int),
> {
    match dec_fname(b, pos, t) {
        Option::None => Option::None,
        Option::Some((cp, p1)) => match dec_fname(b, p1, t) {
            Option::None => Option::None,
            Option::Some((cn, p2)) => match dec_i32(b, p2) {
                Option::None => Option::None,
                Option::Some((oi, p3)) => match dec_fname(b, p3, t) {
                    Option::None => Option::None,
                    Option::Some((on, p4)) => if guided {
                        match dec_guid(b, p4) {
                            Option::None => Option::None,
                            Option::Some((g, p5)) => Option::Some(
                                ((ImportModel {
                                    class_package: cp,
                                    class_name: cn,
                                    outer_index: oi,
                                    object_name: on,
                                    package_guid: Option::Some(g),
                                    package_name: cp,
                                }), p5),
                            ),
                        }
                    } else {
                        Option::Some(
                            ((ImportModel {
                                class_package: cp,
                                class_name: cn,
                                outer_index: oi,
                                object_name: on,
                                package_guid: Option::None,
                                package_name: cp,
                            }), p4),
                        )
                    },
                },
            },
        },
    }
}

/// Parses `n` import rows.
pub open spec fn dec_imports_tbl(
    b: Seq<u8>,
    pos: int,
    n: int,
    t: Seq<Seq<char>>,
    guided: bool,
) -> Option<(Seq<ImportModel>, int)>
    decreases n,
{
    if n <= 0 {
        Option::Some((Seq::empty(), pos))
    } else {
        match dec_import_entry(b, pos, t, guided) {
            Option::None => Option::None,
            Option::Some((m, p1)) => match dec_imports_tbl(b, p1, n - 1, t, guided) {
                Option::None => Option::None,
                Option::Some((rest, p2)) => Option::Some((seq![m] + rest, p2)),
            },
        }
    }
}

/// Parses one serial field: a wide 64-bit word under the event-driven
/// loader, else a 32-bit word widened.
pub open spec fn dec_serial(b: Seq<u8>, pos: int, wide: bool) -> Option<(u64, int)> {
    if wide {
        dec_u64(b, pos)
    } else {
        match dec_u32(b, pos) {
            Option::None => Option::None,
            Option::Some((v, p1)) => Option::Some((v as u64, p1)),
        }
    }
}

/// Parses one export row and its inline property stream against the
/// name table `t`. The template reference is present exactly when
/// `templ` holds; both serial fields are wide exactly when `wide`
/// holds.
pub open spec fn dec_export_entry(
    b: Seq<u8>,
    pos: int,
    t: Seq<Seq<char>>,
    templ: bool,
    wide: bool,
) -> Option<(ExportModel, int)> {
    match dec_i32(b, pos) {
        Option::None => Option::None,
        Option::Some((ci, p1)) => match dec_i32(b, p1) {
            Option::None => Option::None,
            Option::Some((si, p2)) => match (if templ {
                dec_i32(b, p2)
            } else {
                Option::Some((0i32, p2))
            }) {
                Option::None => Option::None,
                Option::Some((ti, p3)) => match dec_i32(b, p3) {
                    Option::None => Option::None,
                    Option::Some((oi, p4)) => match dec_fname(b, p4, t) {
                        Option::None => Option::None,
                        Option::Some((on, p5)) => match dec_u32(b, p5) {
                            Option::None => Option::None,
                            Option::Some((fl, p6)) => match dec_serial(b, p6, wide) {
                                Option::None => Option::None,
                                Option::Some((ssz, p7)) => match dec_serial(b, p7, wide) {
                                    Option::None => Option::None,
                                    Option::Some((sof, p8)) => match dec_u32(b, p8) {
                                        Option::None => Option::None,
                                        Option::Some((ef, p9)) => match dec_u32(b, p9) {
                                            Option::None => Option::None,
                                            Option::Some((dc, p10)) => match dec_i32s(
                                                b,
                                                p10,
                                                dc as int,
                                            ) {
                                                Option::None => Option::None,
                                                Option::Some((dp, p11)) => match dec_stream(
                                                    b,
                                                    p11,
                                                    t,
                                                ) {
                                                    Option::None => Option::None,
                                                    Option::Some((pr, p12)) => Option::Some(
                                                        ((ExportModel {
                                                            class_index: ci,
                                                            super_index: si,
                                                            template_index: ti,
                                                            outer_index: oi,
                                                            object_name: on,
                                                            object_flags: fl,
                                                            serial_size: ssz,
                                                            serial_offset: sof,
                                                            export_flags: ef,
                                                            deps: dp,
                                                            properties: pr,
                                                        }), p12),
                                                    ),
                                                },
                                            },
                                        },
                                    },
                                },
                            },
                        },
                    },
                },
            },
        },
    }
}

/// Parses `n` export rows.
pub open spec fn dec_exports_tbl(
    b: Seq<u8>,
    pos: int,
    n: int,
    t: Seq<Seq<char>>,
    templ: bool,
    wide: bool,
) -> Option<(Seq<ExportModel>, int)>
    decreases n,
{
    if n <= 0 {
        Option::Some((Seq::empty(), pos))
    } else {
        match dec_export_entry(b, pos, t, templ, wide) {
            Option::None => Option::None,
            Option::Some((m, p1)) => match dec_exports_tbl(b, p1, n - 1, t, templ, wide) {
                Option::None => Option::None,
                Option::Some((rest, p2)) => Option::Some((seq![m] + rest, p2)),
            },
        }
    }
}

/// Parses a whole package: the summary, then each table at the offset
/// the summary records for it, each table's position checked against
/// that offset. The version gates follow the decoded object version
/// and the bulk-data start.
pub open spec fn dec_package(b: Seq<u8>) -> Option<PackageModel> {
    match dec_summary(b) {
        Option::None => Option::None,
        Option::Some((s, end)) => if end == s.name_offset as int {
            match dec_names_tbl(b, end, s.name_count as int, s.object_version >= VER_HASHED_NAMES) {
                Option::None => Option::None,
                Option::Some((names, p1)) => if p1 == s.import_offset as int {
                    match dec_imports_tbl(
                        b,
                        p1,
                        s.import_count as int,
                        names,
                        s.object_version >= VER_IMPORT_GUID,
                    ) {
                        Option::None => Option::None,
                        Option::Some((imps, p2)) => if p2 == s.export_offset as int {
                            match dec_exports_tbl(
                                b,
                                p2,
                                s.export_count as int,
                                names,
                                s.object_version >= VER_TEMPLATE_INDEX,
                                s.bulk_data_start_offset > 0,
                            ) {
                                Option::None => Option::None,
                                Option::Some((exps, p3)) => Option::Some(
                                    (PackageModel { summary: s, names, imports: imps, exports: exps }),
                                ),
                            }
                        } else {
                            Option::None
                        },
                    }
                } else {
                    Option::None
                },
            }
        } else {
            Option::None
        },
    }
}

/// The model of one in-memory import row.
pub open spec fn import_view(i: Import) -> ImportModel {
    ImportModel {
        class_package: fname_view(i.class_package),
        class_name: fname_view(i.class_name),
        outer_index: i.outer_index.0,
        object_name: fname_view(i.object_name),
        package_guid: i.package_guid,
        package_name: fname_view(i.package_name),
    }
}

/// The models of an import table, in order.
pub open spec fn imports_view(s: Seq<Import>) -> Seq<ImportModel>
    decreases s.len(),
{
    if s.len() == 0 {
        Seq::empty()
    } else {
        imports_view(s.drop_last()).push(import_view(s.last()))
    }
}

/// The raw words of a reference list, in order.
pub open spec fn deps_view(s: Seq<PackageIndex>) -> Seq<i32>
    decreases s.len(),
{
    if s.len() == 0 {
        Seq::empty()
    } else {
        deps_view(s.drop_last()).push(s.last().0)
    }
}

/// The model of one in-memory export row.
pub open spec fn export_view(e: Export) -> ExportModel {
    ExportModel {
        class_index: e.class_index.0,
        super_index: e.super_index.0,
        template_index: e.template_index.0,
        outer_index: e.outer_index.0,
        object_name: fname_view(e.object_name),
        object_flags: e.object_flags,
        serial_size: e.serial_size,
        serial_offset: e.serial_offset,
        export_flags: e.export_flags,
        deps: deps_view(e.create_before_serialization_dependencies@),
        properties: prop_entry_views(e.properties@),
    }
}

/// The models of an export table, in order.
pub open spec fn exports_view(s: Seq<Export>) -> Seq<ExportModel>
    decreases s.len(),
{
    if s.len() == 0 {
        Seq::empty()
    } else {
        exports_view(s.drop_last()).push(export_view(s.last()))
    }
}

/// Appending one import appends its model.
pub proof fn lemma_imports_view_push(s: Seq<Import>, e: Import)
    ensures
        imports_view(s.push(e)) == imports_view(s).push(import_view(e)),
{
    assert(s.push(e).drop_last() =~= s);
    assert(s.push(e).last() == e);
}

/// Appending one export appends its model.
pub proof fn lemma_exports_view_push(s: Seq<Export>, e: Export)
    ensures
        exports_view(s.push(e)) == exports_view(s).push(export_view(e)),
{
    assert(s.push(e).drop_last() =~= s);
    assert(s.push(e).last() == e);
}

/// Appending one reference appends its word.
pub proof fn lemma_deps_view_push(s: Seq<PackageIndex>, e: PackageIndex)
    ensures
        deps_view(s.push(e)) == deps_view(s).push(e.0),
{
    assert(s.push(e).drop_last() =~= s);
    assert(s.push(e).last() == e);
}

/// A run of `n` name rows parses as its first `k` rows and then the
/// remaining rows from where they ended.
pub proof fn lemma_dec_names_tbl_split(b: Seq<u8>, pos: int, n: int, k: int, hashed: bool)
    requires
        0 <= k <= n,
    ensures
        dec_names_tbl(b, pos, n, hashed) == (match dec_names_tbl(b, pos, k, hashed) {
            Option::None => Option::None,
            Option::Some((pre, m)) => match dec_names_tbl(b, m, n - k, hashed) {
                Option::None => Option::None,
                Option::Some((rest, e)) => Option::Some((pre + rest, e)),
            },
        }),
    decreases k,
{
    if k <= 0 {
        match dec_names_tbl(b, pos, n, hashed) {
            Option::None => {},
            Option::Some((all, e)) => {
                assert(Seq::<Seq<char>>::empty() + all =~= all);
            },
        }
    } else {
        match dec_name_entry(b, pos, hashed) {
            Option::None => {},
            Option::Some((s, p1)) => {
                lemma_dec_names_tbl_split(b, p1, n - 1, k - 1, hashed);
                match dec_names_tbl(b, p1, k - 1, hashed) {
                    Option::None => {},
                    Option::Some((pre, m)) => {
                        match dec_names_tbl(b, m, n - k, hashed) {
                            Option::None => {},
                            Option::Some((rest, e)) => {
                                assert(seq![s] + (pre + rest) =~= (seq![s] + pre) + rest);
                            },
                        }
                    },
                }
            },
        }
    }
}

/// A run of `n` import rows parses as its first `k` rows and then the
/// rest.
pub proof fn lemma_dec_imports_tbl_split(
    b: Seq<u8>,
    pos: int,
    n: int,
    k: int,
    t: Seq<Seq<char>>,
    guided: bool,
)
    requires
        0 <= k <= n,
    ensures
        dec_imports_tbl(b, pos, n, t, guided) == (match dec_imports_tbl(b, pos, k, t, guided) {
            Option::None => Option::None,
            Option::Some((pre, m)) => match dec_imports_tbl(b, m, n - k, t, guided) {
                Option::None => Option::None,
                Option::Some((rest, e)) => Option::Some((pre + rest, e)),
            },
        }),
    decreases k,
{
    if k <= 0 {
        match dec_imports_tbl(b, pos, n, t, guided) {
            Option::None => {},
            Option::Some((all, e)) => {
                assert(Seq::<ImportModel>::empty() + all =~= all);
            },
        }
    } else {
        match dec_import_entry(b, pos, t, guided) {
            Option::None => {},
            Option::Some((s, p1)) => {
                lemma_dec_imports_tbl_split(b, p1, n - 1, k - 1, t, guided);
                match dec_imports_tbl(b, p1, k - 1, t, guided) {
                    Option::None => {},
                    Option::Some((pre, m)) => {
                        match dec_imports_tbl(b, m, n - k, t, guided) {
                            Option::None => {},
                            Option::Some((rest, e)) => {
                                assert(seq![s] + (pre + rest) =~= (seq![s] + pre) + rest);
                            },
                        }
                    },
                }
            },
        }
    }
}

/// A run of `n` export rows parses as its first `k` rows and then the
/// rest.
pub proof fn lemma_dec_exports_tbl_split(
    b: Seq<u8>,
    pos: int,
    n: int,
    k: int,
    t: Seq<Seq<char>>,
    templ: bool,
    wide: bool,
)
    requires
        0 <= k <= n,
    ensures
        dec_exports_tbl(b, pos, n, t, templ, wide) == (match dec_exports_tbl(
            b,
            pos,
            k,
            t,
            templ,
            wide,
        ) {
            Option::None => Option::None,
            Option::Some((pre, m)) => match dec_exports_tbl(b, m, n - k, t, templ, wide) {
                Option::None => Option::None,
                Option::Some((rest, e)) => Option::Some((pre + rest, e)),
            },
        }),
    decreases k,
{
    if k <= 0 {
        match dec_exports_tbl(b, pos, n, t, templ, wide) {
            Option::None => {},
            Option::Some((all, e)) => {
                assert(Seq::<ExportModel>::empty() + all =~= all);
            },
        }
    } else {
        match dec_export_entry(b, pos, t, templ, wide) {
            Option::None => {},
            Option::Some((s, p1)) => {
                lemma_dec_exports_tbl_split(b, p1, n - 1, k - 1, t, templ, wide);
                match dec_exports_tbl(b, p1, k - 1, t, templ, wide) {
                    Option::None => {},
                    Option::Some((pre, m)) => {
                        match dec_exports_tbl(b, m, n - k, t, templ, wide) {
                            Option::None => {},
                            Option::Some((rest, e)) => {
                                assert(seq![s] + (pre + rest) =~= (seq![s] + pre) + rest);
                            },
                        }
                    },
                }
            },
        }
    }
}

/// A run of `n` generation rows parses as its first `k` rows and then
/// the rest.
pub proof fn lemma_dec_generations_split(b: Seq<u8>, pos: int, n: int, k: int)
    requires
        0 <= k <= n,
    ensures
        dec_generations(b, pos, n) == (match dec_generations(b, pos, k) {
            Option::None => Option::None,
            Option::Some((pre, m)) => match dec_generations(b, m, n - k) {
                Option::None => Option::None,
                Option::Some((rest, e)) => Option::Some((pre + rest, e)),
            },
        }),
    decreases k,
{
    if k <= 0 {
        match dec_generations(b, pos, n) {
            Option::None => {},
            Option::Some((all, e)) => {
                assert(Seq::<GenerationInfo>::empty() + all =~= all);
            },
        }
    } else {
        match dec_i32(b, pos) {
            Option::None => {},
            Option::Some((ec, p1)) => {
                match dec_i32(b, p1) {
                    Option::None => {},
                    Option::Some((nc, p2)) => {
                        lemma_dec_generations_split(b, p2, n - 1, k - 1);
                        let g = GenerationInfo { export_count: ec, name_count: nc };
                        match dec_generations(b, p2, k - 1) {
                            Option::None => {},
                            Option::Some((pre, m)) => {
                                match dec_generations(b, m, n - k) {
                                    Option::None => {},
                                    Option::Some((rest, e)) => {
                                        assert(seq![g] + (pre + rest) =~= (seq![g] + pre) + rest);
                                    },
                                }
                            },
                        }
                    },
                }
            },
        }
    }
}

/// A run of `n` signed words parses as its first `k` words and then
/// the rest.
pub proof fn lemma_dec_i32s_split(b: Seq<u8>, pos: int, n: int, k: int)
    requires
        0 <= k <= n,
    ensures
        dec_i32s(b, pos, n) == (match dec_i32s(b, pos, k) {
            Option::None => Option::None,
            Option::Some((pre, m)) => match dec_i32s(b, m, n - k) {
                Option::None => Option::None,
                Option::Some((rest, e)) => Option::Some((pre + rest, e)),
            },
        }),
    decreases k,
{
    if k <= 0 {
        match dec_i32s(b, pos, n) {
            Option::None => {},
            Option::Some((all, e)) => {
                assert(Seq::<i32>::empty() + all =~= all);
            },
        }
    } else {
        match dec_i32(b, pos) {
            Option::None => {},
            Option::Some((v, p1)) => {
                lemma_dec_i32s_split(b, p1, n - 1, k - 1);
                match dec_i32s(b, p1, k - 1) {
                    Option::None => {},
                    Option::Some((pre, m)) => {
                        match dec_i32s(b, m, n - k) {
                            Option::None => {},
                            Option::Some((rest, e)) => {
                                assert(seq![v] + (pre + rest) =~= (seq![v] + pre) + rest);
                            },
                        }
                    },
                }
            },
        }
    }
}

/// A run of `n` unsigned words parses as its first `k` words and then
/// the rest.
pub proof fn lemma_dec_u32s_split(b: Seq<u8>, pos: int, n: int, k: int)
    requires
        0 <= k <= n,
    ensures
        dec_u32s(b, pos, n) == (match dec_u32s(b, pos, k) {
            Option::None => Option::None,
            Option::Some((pre, m)) => match dec_u32s(b, m, n - k) {
                Option::None => Option::None,
                Option::Some((rest, e)) => Option::Some((pre + rest, e)),
            },
        }),
    decreases k,
{
    if k <= 0 {
        match dec_u32s(b, pos, n) {
            Option::None => {},
            Option::Some((all, e)) => {
                assert(Seq::<u32>::empty() + all =~= all);
            },
        }
    } else {
        match dec_u32(b, pos) {
            Option::None => {},
            Option::Some((v, p1)) => {
                lemma_dec_u32s_split(b, p1, n - 1, k - 1);
                match dec_u32s(b, p1, k - 1) {
                    Option::None => {},
                    Option::Some((pre, m)) => {
                        match dec_u32s(b, m, n - k) {
                            Option::None => {},
                            Option::Some((rest, e)) => {
                                assert(seq![v] + (pre + rest) =~= (seq![v] + pre) + rest);
                            },
                        }
                    },
                }
            },
        }
    }
}

/// A run of `n` chunk rows skips as its first `k` rows and then the
/// rest.
pub proof fn lemma_dec_chunk_blocks_split(b: Seq<u8>, pos: int, n: int, k: int)
    requires
        0 <= k <= n,
    ensures
        dec_chunk_blocks(b, pos, n) == (match dec_chunk_blocks(b, pos, k) {
            Option::None => Option::None,
            Option::Some(m) => dec_chunk_blocks(b, m, n - k),
        }),
    decreases k,
{
    if k <= 0 {
    } else {
        match dec_u32s(b, pos, 4) {
            Option::None => {},
            Option::Some((_w, p1)) => {
                lemma_dec_chunk_blocks_split(b, p1, n - 1, k - 1);
            },
        }
    }
}


/// The summary fields the asset keeps, as read from the stream.
pub struct SummaryExec {
    /// The legacy file version.
    pub legacy_file_version: i32,
    /// The object version.
    pub object_version: i32,
    /// The second object version word.
    pub object_version_ue5: i32,
    /// The recorded total header size.
    pub total_header_size: u32,
    /// The folder name.
    pub folder_name: String,
    /// The package flags.
    pub package_flags: u32,
    /// The number of names.
    pub name_count: u32,
    /// Where the name table stands.
    pub name_offset: u32,
    /// The number of exports.
    pub export_count: u32,
    /// Where the export table stands.
    pub export_offset: u32,
    /// The number of imports.
    pub import_count: u32,
    /// Where the import table stands.
    pub import_offset: u32,
    /// The package identifier.
    pub package_guid: Guid,
    /// The recorded generations.
    pub generations: Vec<GenerationInfo>,
    /// The saved engine's major version.
    pub saved_major: u16,
    /// The saved engine's minor version.
    pub saved_minor: u16,
    /// Where bulk data starts.
    pub bulk_data_start_offset: i64,
    /// The chunk identifiers.
    pub chunk_ids: Vec<i32>,
}

/// The model of the summary fields as read.
pub open spec fn sum_view(s: SummaryExec) -> SummaryModel {
    SummaryModel {
        legacy_file_version: s.legacy_file_version,
        object_version: s.object_version,
        object_version_ue5: s.object_version_ue5,
        total_header_size: s.total_header_size,
        folder_name: s.folder_name@,
        package_flags: s.package_flags,
        name_count: s.name_count,
        name_offset: s.name_offset,
        export_count: s.export_count,
        export_offset: s.export_offset,
        import_count: s.import_count,
        import_offset: s.import_offset,
        package_guid: s.package_guid,
        generations: s.generations@,
        saved_major: s.saved_major,
        saved_minor: s.saved_minor,
        bulk_data_start_offset: s.bulk_data_start_offset,
        chunk_ids: s.chunk_ids@,
    }
}

/// Reads the fixed head of the summary, failing on a wrong tag
/// exactly as the head parse does.
#[verifier::rlimit(100)]
#[verifier::spinoff_prover]
fn read_sum_head(r: &mut BinaryArchive) -> (res: Result<
    (i32, i32, i32, u32, String, u32),
    UnrealAssetError,
>)
    requires
        old(r).wf(),
        old(r).position() == 0,
    ensures
        final(r).wf(),
        final(r).bytes() == old(r).bytes(),
        match dec_sum_head(old(r).bytes()) {
            Option::Some(p) => res matches Ok(h) && h.0 == p.0.0 && h.1 == p.0.1 && h.2 == p.0.2
                && h.3 == p.0.3 && h.4@ == p.0.4 && h.5 == p.0.5 && final(r).position() == p.1,
            Option::None => res is Err,
        },
{
    let tag = match r.read_u32() {
        Ok(v) => v,
        Err(e) => { return Err(lift_error(e)); },
    };
    if tag != PACKAGE_MAGIC {
        return Err(UnrealAssetError::InvalidData("package tag mismatch".to_owned()));
    }
    let legacy = match r.read_i32() {
        Ok(v) => v,
        Err(e) => { return Err(lift_error(e)); },
    };
    let _u3 = match r.read_i32() {
        Ok(v) => v,
        Err(e) => { return Err(lift_error(e)); },
    };
    let v4 = match r.read_i32() {
        Ok(v) => v,
        Err(e) => { return Err(lift_error(e)); },
    };
    let v5 = match r.read_i32() {
        Ok(v) => v,
        Err(e) => { return Err(lift_error(e)); },
    };
    let ths = match r.read_u32() {
        Ok(v) => v,
        Err(e) => { return Err(lift_error(e)); },
    };
    let folder = match r.read_fstring() {
        Ok(v) => v,
        Err(e) => { return Err(lift_error(e)); },
    };
    let flags = match r.read_u32() {
        Ok(v) => v,
        Err(e) => { return Err(lift_error(e)); },
    };
    Ok((legacy, v4, v5, ths, folder, flags))
}

/// Reads the run of thirteen table words and the package identifier.
#[verifier::rlimit(100)]
#[verifier::spinoff_prover]
#[verifier::loop_isolation(false)]
fn read_sum_tables(r: &mut BinaryArchive) -> (res: Result<
    (u32, u32, u32, u32, u32, u32, Guid),
    UnrealAssetError,
>)
    requires
        old(r).wf(),
    ensures
        final(r).wf(),
        final(r).bytes() == old(r).bytes(),
        match dec_sum_tables(old(r).bytes(), old(r).position()) {
            Option::Some(p) => res matches Ok(h) && h.0 == p.0.0 && h.1 == p.0.1 && h.2 == p.0.2
                && h.3 == p.0.3 && h.4 == p.0.4 && h.5 == p.0.5 && h.6 == p.0.6
                && final(r).position() == p.1,
            Option::None => res is Err,
        },
{
    let ghost b = r.bytes();
    let ghost start = r.position();
    let mut words: Vec<u32> = Vec::new();
    proof {
        assert(dec_u32s(b, start, 0) == Option::Some((Seq::<u32>::empty(), start)));
        assert(words@ =~= Seq::<u32>::empty());
    }
    let mut wi: usize = 0;
    while wi < 13
        invariant
            r.wf(),
            r.bytes() == b,
            wi <= 13,
            words@.len() == wi,
            dec_u32s(b, start, wi as int) == Option::Some((words@, r.position() as int)),
        decreases 13 - wi,
    {
        let ghost cur = r.position();
        let w = match r.read_u32() {
            Ok(v) => v,
            Err(e) => {
                proof {
                    assert(dec_u32s(b, cur, 13 - wi as int) is None);
                    lemma_dec_u32s_split(b, start, 13, wi as int);
                }
                return Err(lift_error(e));
            },
        };
        proof {
            assert(dec_u32s(b, r.position() as int, 0) == Option::Some(
                (Seq::<u32>::empty(), r.position() as int),
            ));
            assert(seq![w] + Seq::<u32>::empty() =~= seq![w]);
            assert(dec_u32s(b, cur, 1) == Option::Some((seq![w], r.position() as int)));
            lemma_dec_u32s_split(b, start, wi as int + 1, wi as int);
            assert(words@ + seq![w] =~= words@.push(w));
        }
        words.push(w);
        wi += 1;
    }
    let g = match r.read_guid() {
        Ok(v) => v,
        Err(e) => { return Err(lift_error(e)); },
    };
    let w0 = words[0];
    let w1 = words[1];
    let w4 = words[4];
    let w5 = words[5];
    let w6 = words[6];
    let w7 = words[7];
    Ok((w0, w1, w4, w5, w6, w7, g))
}

/// Reads the version block at the summary's tail.
#[verifier::rlimit(100)]
#[verifier::spinoff_prover]
#[verifier::loop_isolation(false)]
fn read_sum_versions(r: &mut BinaryArchive) -> (res: Result<
    (Vec<GenerationInfo>, u16, u16, i64, Vec<i32>),
    UnrealAssetError,
>)
    requires
        old(r).wf(),
    ensures
        final(r).wf(),
        final(r).bytes() == old(r).bytes(),
        match dec_sum_versions(old(r).bytes(), old(r).position()) {
            Option::Some(p) => res matches Ok(h) && h.0@ == p.0.0 && h.1 == p.0.1 && h.2 == p.0.2
                && h.3 == p.0.3 && h.4@ == p.0.4 && final(r).position() == p.1,
            Option::None => res is Err,
        },
{
    let ghost b = r.bytes();
    let gc = match r.read_u32() {
        Ok(v) => v,
        Err(e) => { return Err(lift_error(e)); },
    };
    let ghost genstart = r.position();
    let mut generations: Vec<GenerationInfo> = Vec::new();
    proof {
        assert(dec_generations(b, genstart, 0) == Option::Some(
            (Seq::<GenerationInfo>::empty(), genstart),
        ));
        assert(generations@ =~= Seq::<GenerationInfo>::empty());
    }
    let mut gi: u32 = 0;
    while gi < gc
        invariant
            r.wf(),
            r.bytes() == b,
            gi <= gc,
            dec_generations(b, genstart, gi as int) == Option::Some(
                (generations@, r.position() as int),
            ),
        decreases gc - gi,
    {
        let ghost cur = r.position();
        let ec = match r.read_i32() {
            Ok(v) => v,
            Err(e) => {
                proof {
                    assert(dec_generations(b, cur, gc as int - gi as int) is None);
                    lemma_dec_generations_split(b, genstart, gc as int, gi as int);
                }
                return Err(lift_error(e));
            },
        };
        let nc = match r.read_i32() {
            Ok(v) => v,
            Err(e) => {
                proof {
                    assert(dec_generations(b, cur, gc as int - gi as int) is None);
                    lemma_dec_generations_split(b, genstart, gc as int, gi as int);
                }
                return Err(lift_error(e));
            },
        };
        proof {
            assert(dec_generations(b, r.position() as int, 0) == Option::Some(
                (Seq::<GenerationInfo>::empty(), r.position() as int),
            ));
            assert(seq![(GenerationInfo { export_count: ec, name_count: nc })]
                + Seq::<GenerationInfo>::empty() =~= seq![
                (GenerationInfo { export_count: ec, name_count: nc }),
            ]);
            assert(dec_generations(b, cur, 1) == Option::Some(
                (seq![(GenerationInfo { export_count: ec, name_count: nc })], r.position() as int),
            ));
            lemma_dec_generations_split(b, genstart, gi as int + 1, gi as int);
            assert(generations@ + seq![(GenerationInfo { export_count: ec, name_count: nc })]
                =~= generations@.push(GenerationInfo { export_count: ec, name_count: nc }));
        }
        generations.push(GenerationInfo { export_count: ec, name_count: nc });
        gi += 1;
    }
    let saved_major = match r.read_u16() {
        Ok(v) => v,
        Err(e) => { return Err(lift_error(e)); },
    };
    let saved_minor = match r.read_u16() {
        Ok(v) => v,
        Err(e) => { return Err(lift_error(e)); },
    };
    let _saved_patch = match r.read_u16() {
        Ok(v) => v,
        Err(e) => { return Err(lift_error(e)); },
    };
    let _saved_changelist = match r.read_u32() {
        Ok(v) => v,
        Err(e) => { return Err(lift_error(e)); },
    };
    let _saved_branch = match r.read_fstring() {
        Ok(v) => v,
        Err(e) => { return Err(lift_error(e)); },
    };
    let _compat_major = match r.read_u16() {
        Ok(v) => v,
        Err(e) => { return Err(lift_error(e)); },
    };
    let _compat_minor = match r.read_u16() {
        Ok(v) => v,
        Err(e) => { return Err(lift_error(e)); },
    };
    let _compat_patch = match r.read_u16() {
        Ok(v) => v,
        Err(e) => { return Err(lift_error(e)); },
    };
    let _compat_changelist = match r.read_u32() {
        Ok(v) => v,
        Err(e) => { return Err(lift_error(e)); },
    };
    let _compat_branch = match r.read_fstring() {
        Ok(v) => v,
        Err(e) => { return Err(lift_error(e)); },
    };
    let _compression_flags = match r.read_u32() {
        Ok(v) => v,
        Err(e) => { return Err(lift_error(e)); },
    };
    let cc = match r.read_u32() {
        Ok(v) => v,
        Err(e) => { return Err(lift_error(e)); },
    };
    let ghost chunkstart = r.position();
    proof {
        assert(dec_chunk_blocks(b, chunkstart, 0) == Option::Some(chunkstart));
    }
    let mut ci: u32 = 0;
    while ci < cc
        invariant
            r.wf(),
            r.bytes() == b,
            ci <= cc,
            dec_chunk_blocks(b, chunkstart, ci as int) == Option::Some(r.position() as int),
        decreases cc - ci,
    {
        let ghost cur = r.position();
        let ghost qs: Seq<u32> = Seq::empty();
        let mut qi: usize = 0;
        let mut quad: Vec<u32> = Vec::new();
        proof {
            assert(dec_u32s(b, cur, 0) == Option::Some((Seq::<u32>::empty(), cur)));
            assert(quad@ =~= Seq::<u32>::empty());
        }
        while qi < 4
            invariant
                r.wf(),
                r.bytes() == b,
                qi <= 4,
                quad@.len() == qi,
                dec_u32s(b, cur, qi as int) == Option::Some((quad@, r.position() as int)),
            decreases 4 - qi,
        {
            let ghost qcur = r.position();
            let w = match r.read_u32() {
                Ok(v) => v,
                Err(e) => {
                    proof {
                        assert(dec_u32s(b, qcur, 4 - qi as int) is None);
                        lemma_dec_u32s_split(b, cur, 4, qi as int);
                        assert(dec_chunk_blocks(b, cur, cc as int - ci as int) is None);
                        lemma_dec_chunk_blocks_split(b, chunkstart, cc as int, ci as int);
                    }
                    return Err(lift_error(e));
                },
            };
            proof {
                assert(dec_u32s(b, r.position() as int, 0) == Option::Some(
                    (Seq::<u32>::empty(), r.position() as int),
                ));
                assert(seq![w] + Seq::<u32>::empty() =~= seq![w]);
                assert(dec_u32s(b, qcur, 1) == Option::Some((seq![w], r.position() as int)));
                lemma_dec_u32s_split(b, cur, qi as int + 1, qi as int);
                assert(quad@ + seq![w] =~= quad@.push(w));
            }
            quad.push(w);
            qi += 1;
        }
        proof {
            assert(dec_chunk_blocks(b, r.position() as int, 0) == Option::Some(
                r.position() as int,
            ));
            assert(dec_chunk_blocks(b, cur, 1) == Option::Some(r.position() as int));
            lemma_dec_chunk_blocks_split(b, chunkstart, ci as int + 1, ci as int);
        }
        ci += 1;
    }
    let _asset_registry_offset = match r.read_u32() {
        Ok(v) => v,
        Err(e) => { return Err(lift_error(e)); },
    };
    let bulk_data_start_offset = match r.read_i64() {
        Ok(v) => v,
        Err(e) => { return Err(lift_error(e)); },
    };
    let _world_tile_offset = match r.read_u32() {
        Ok(v) => v,
        Err(e) => { return Err(lift_error(e)); },
    };
    let cic = match r.read_u32() {
        Ok(v) => v,
        Err(e) => { return Err(lift_error(e)); },
    };
    let ghost cidstart = r.position();
    let mut chunk_ids: Vec<i32> = Vec::new();
    proof {
        assert(dec_i32s(b, cidstart, 0) == Option::Some((Seq::<i32>::empty(), cidstart)));
        assert(chunk_ids@ =~= Seq::<i32>::empty());
    }
    let mut ki: u32 = 0;
    while ki < cic
        invariant
            r.wf(),
            r.bytes() == b,
            ki <= cic,
            dec_i32s(b, cidstart, ki as int) == Option::Some((chunk_ids@, r.position() as int)),
        decreases cic - ki,
    {
        let ghost cur = r.position();
        let id = match r.read_i32() {
            Ok(v) => v,
            Err(e) => {
                proof {
                    assert(dec_i32s(b, cur, cic as int - ki as int) is None);
                    lemma_dec_i32s_split(b, cidstart, cic as int, ki as int);
                }
                return Err(lift_error(e));
            },
        };
        proof {
            assert(dec_i32s(b, r.position() as int, 0) == Option::Some(
                (Seq::<i32>::empty(), r.position() as int),
            ));
            assert(seq![id] + Seq::<i32>::empty() =~= seq![id]);
            assert(dec_i32s(b, cur, 1) == Option::Some((seq![id], r.position() as int)));
            lemma_dec_i32s_split(b, cidstart, ki as int + 1, ki as int);
            assert(chunk_ids@ + seq![id] =~= chunk_ids@.push(id));
        }
        chunk_ids.push(id);
        ki += 1;
    }
    let _preload_count = match r.read_u32() {
        Ok(v) => v,
        Err(e) => { return Err(lift_error(e)); },
    };
    let _preload_offset = match r.read_u32() {
        Ok(v) => v,
        Err(e) => { return Err(lift_error(e)); },
    };
    Ok((generations, saved_major, saved_minor, bulk_data_start_offset, chunk_ids))
}

/// Reads the whole summary: head, table words and version block.
#[verifier::rlimit(100)]
#[verifier::spinoff_prover]
fn read_summary(r: &mut BinaryArchive) -> (res: Result<SummaryExec, UnrealAssetError>)
    requires
        old(r).wf(),
        old(r).position() == 0,
    ensures
        final(r).wf(),
        final(r).bytes() == old(r).bytes(),
        match dec_summary(old(r).bytes()) {
            Option::Some(p) => res matches Ok(s) && sum_view(s) == p.0 && final(r).position()
                == p.1,
            Option::None => res is Err,
        },
{
    let h = match read_sum_head(r) {
        Ok(v) => v,
        Err(e) => { return Err(e); },
    };
    let t = match read_sum_tables(r) {
        Ok(v) => v,
        Err(e) => { return Err(e); },
    };
    let v = match read_sum_versions(r) {
        Ok(v) => v,
        Err(e) => { return Err(e); },
    };
    Ok(SummaryExec {
        legacy_file_version: h.0,
        object_version: h.1,
        object_version_ue5: h.2,
        total_header_size: h.3,
        folder_name: h.4,
        package_flags: h.5,
        name_count: t.0,
        name_offset: t.1,
        export_count: t.2,
        export_offset: t.3,
        import_count: t.4,
        import_offset: t.5,
        package_guid: t.6,
        generations: v.0,
        saved_major: v.1,
        saved_minor: v.2,
        bulk_data_start_offset: v.3,
        chunk_ids: v.4,
    })
}


/// Reads `n` name-table rows, verifying each stored hash when the
/// layout records one.
#[verifier::rlimit(100)]
#[verifier::spinoff_prover]
#[verifier::loop_isolation(false)]
fn read_name_table(r: &mut BinaryArchive, n: u32, hashed: bool) -> (res: Result<
    Vec<String>,
    UnrealAssetError,
>)
    requires
        old(r).wf(),
    ensures
        final(r).wf(),
        final(r).bytes() == old(r).bytes(),
        match dec_names_tbl(old(r).bytes(), old(r).position(), n as int, hashed) {
            Option::Some(p) => res matches Ok(v) && v.deep_view() == p.0
                && final(r).position() == p.1,
            Option::None => res is Err,
        },
{
    let ghost b = r.bytes();
    let ghost start = r.position();
    let mut out: Vec<String> = Vec::new();
    let ghost mut nv: Seq<Seq<char>> = Seq::empty();
    proof {
        assert(dec_names_tbl(b, start, 0, hashed) == Option::Some(
            (Seq::<Seq<char>>::empty(), start),
        ));
    }
    let mut ni: u32 = 0;
    while ni < n
        invariant
            r.wf(),
            r.bytes() == b,
            ni <= n,
            out@.len() == nv.len(),
            forall|k: int| 0 <= k < nv.len() ==> nv[k] == out@[k]@,
            dec_names_tbl(b, start, ni as int, hashed) == Option::Some(
                (nv, r.position() as int),
            ),
        decreases n - ni,
    {
        let ghost cur = r.position();
        let name = match r.read_fstring() {
            Ok(v) => v,
            Err(e) => {
                proof {
                    assert(dec_name_entry(b, cur, hashed) is None);
                    assert(dec_names_tbl(b, cur, n as int - ni as int, hashed) is None);
                    lemma_dec_names_tbl_split(b, start, n as int, ni as int, hashed);
                }
                return Err(lift_error(e));
            },
        };
        if hashed {
            let stored = match r.read_u32() {
                Ok(v) => v,
                Err(e) => {
                    proof {
                        assert(dec_name_entry(b, cur, hashed) is None);
                        assert(dec_names_tbl(b, cur, n as int - ni as int, hashed) is None);
                        lemma_dec_names_tbl_split(b, start, n as int, ni as int, hashed);
                    }
                    return Err(lift_error(e));
                },
            };
            let computed = name_table_hash_exec(name.as_str());
            if stored != computed {
                proof {
                    assert(dec_name_entry(b, cur, hashed) is None);
                    assert(dec_names_tbl(b, cur, n as int - ni as int, hashed) is None);
                    lemma_dec_names_tbl_split(b, start, n as int, ni as int, hashed);
                }
                return Err(UnrealAssetError::InvalidData("name hash mismatch".to_owned()));
            }
        }
        proof {
            assert(dec_name_entry(b, cur, hashed) == Option::Some((name@, r.position() as int)));
            assert(dec_names_tbl(b, r.position() as int, 0, hashed) == Option::Some(
                (Seq::<Seq<char>>::empty(), r.position() as int),
            ));
            assert(seq![name@] + Seq::<Seq<char>>::empty() =~= seq![name@]);
            assert(dec_names_tbl(b, cur, 1, hashed) == Option::Some(
                (seq![name@], r.position() as int),
            ));
            lemma_dec_names_tbl_split(b, start, ni as int + 1, ni as int, hashed);
            assert(nv + seq![name@] =~= nv.push(name@));
        }
        out.push(name);
        proof {
            nv = nv.push(out@.last()@);
            assert(nv.last() == out@.last()@);
        }
        ni += 1;
    }
    proof {
        assert(out.deep_view() =~= nv);
    }
    Ok(out)
}

/// Reads `n` import rows against the name table.
#[verifier::rlimit(100)]
#[verifier::spinoff_prover]
#[verifier::loop_isolation(false)]
fn read_import_table(
    r: &mut BinaryArchive,
    n: u32,
    names: &OptimizedNameMap,
    guided: bool,
) -> (res: Result<Vec<Import>, UnrealAssetError>)
    requires
        old(r).wf(),
    ensures
        final(r).wf(),
        final(r).bytes() == old(r).bytes(),
        match dec_imports_tbl(old(r).bytes(), old(r).position(), n as int, names.entries(),
            guided) {
            Option::Some(p) => res matches Ok(v) && imports_view(v@) == p.0
                && final(r).position() == p.1,
            Option::None => res is Err,
        },
{
    let ghost b = r.bytes();
    let ghost t = names.entries();
    let ghost start = r.position();
    let mut out: Vec<Import> = Vec::new();
    proof {
        assert(imports_view(out@) == Seq::<ImportModel>::empty());
        assert(dec_imports_tbl(b, start, 0, t, guided) == Option::Some(
            (Seq::<ImportModel>::empty(), start),
        ));
    }
    let mut ii: u32 = 0;
    while ii < n
        invariant
            r.wf(),
            r.bytes() == b,
            t == names.entries(),
            ii <= n,
            dec_imports_tbl(b, start, ii as int, t, guided) == Option::Some(
                (imports_view(out@), r.position() as int),
            ),
        decreases n - ii,
    {
        let ghost cur = r.position();
        let class_package = match decode_fname(r, names) {
            Ok(v) => v,
            Err(e) => {
                proof {
                    assert(dec_import_entry(b, cur, t, guided) is None);
                    assert(dec_imports_tbl(b, cur, n as int - ii as int, t, guided) is None);
                    lemma_dec_imports_tbl_split(b, start, n as int, ii as int, t, guided);
                }
                return Err(lift_error(e));
            },
        };
        let class_name = match decode_fname(r, names) {
            Ok(v) => v,
            Err(e) => {
                proof {
                    assert(dec_import_entry(b, cur, t, guided) is None);
                    assert(dec_imports_tbl(b, cur, n as int - ii as int, t, guided) is None);
                    lemma_dec_imports_tbl_split(b, start, n as int, ii as int, t, guided);
                }
                return Err(lift_error(e));
            },
        };
        let outer = match r.read_i32() {
            Ok(v) => v,
            Err(e) => {
                proof {
                    assert(dec_import_entry(b, cur, t, guided) is None);
                    assert(dec_imports_tbl(b, cur, n as int - ii as int, t, guided) is None);
                    lemma_dec_imports_tbl_split(b, start, n as int, ii as int, t, guided);
                }
                return Err(lift_error(e));
            },
        };
        let object_name = match decode_fname(r, names) {
            Ok(v) => v,
            Err(e) => {
                proof {
                    assert(dec_import_entry(b, cur, t, guided) is None);
                    assert(dec_imports_tbl(b, cur, n as int - ii as int, t, guided) is None);
                    lemma_dec_imports_tbl_split(b, start, n as int, ii as int, t, guided);
                }
                return Err(lift_error(e));
            },
        };
        let package_guid: Option<Guid> = if guided {
            match r.read_guid() {
                Ok(g) => Some(g),
                Err(e) => {
                    proof {
                        assert(dec_import_entry(b, cur, t, guided) is None);
                        assert(dec_imports_tbl(b, cur, n as int - ii as int, t, guided) is None);
                        lemma_dec_imports_tbl_split(b, start, n as int, ii as int, t, guided);
                    }
                    return Err(lift_error(e));
                },
            }
        } else {
            None
        };
        let package_name = FName {
            name: class_package.name.clone(),
            number: class_package.number,
        };
        let imp = Import {
            class_package,
            class_name,
            outer_index: PackageIndex(outer),
            object_name,
            package_guid,
            package_name,
        };
        proof {
            assert(dec_import_entry(b, cur, t, guided) == Option::Some(
                (import_view(imp), r.position() as int),
            ));
            assert(dec_imports_tbl(b, r.position() as int, 0, t, guided) == Option::Some(
                (Seq::<ImportModel>::empty(), r.position() as int),
            ));
            assert(seq![import_view(imp)] + Seq::<ImportModel>::empty() =~= seq![
                import_view(imp),
            ]);
            assert(dec_imports_tbl(b, cur, 1, t, guided) == Option::Some(
                (seq![import_view(imp)], r.position() as int),
            ));
            lemma_dec_imports_tbl_split(b, start, ii as int + 1, ii as int, t, guided);
            lemma_imports_view_push(out@, imp);
            assert(imports_view(out@) + seq![import_view(imp)] =~= imports_view(out@).push(
                import_view(imp),
            ));
        }
        out.push(imp);
        ii += 1;
    }
    Ok(out)
}

/// Reads `n` export rows, each followed by its dependency run and its
/// inline property stream.
#[verifier::rlimit(100)]
#[verifier::spinoff_prover]
#[verifier::loop_isolation(false)]
fn read_export_table(
    r: &mut BinaryArchive,
    n: u32,
    names: &OptimizedNameMap,
    templ: bool,
    wide: bool,
) -> (res: Result<Vec<Export>, UnrealAssetError>)
    requires
        old(r).wf(),
    ensures
        final(r).wf(),
        final(r).bytes() == old(r).bytes(),
        match dec_exports_tbl(old(r).bytes(), old(r).position(), n as int, names.entries(),
            templ, wide) {
            Option::Some(p) => res matches Ok(v) && exports_view(v@) == p.0
                && final(r).position() == p.1,
            Option::None => res is Err,
        },
{
    let ghost b = r.bytes();
    let ghost t = names.entries();
    let ghost start = r.position();
    let mut out: Vec<Export> = Vec::new();
    proof {
        assert(exports_view(out@) == Seq::<ExportModel>::empty());
        assert(dec_exports_tbl(b, start, 0, t, templ, wide) == Option::Some(
            (Seq::<ExportModel>::empty(), start),
        ));
    }
    let mut ei: u32 = 0;
    while ei < n
        invariant
            r.wf(),
            r.bytes() == b,
            t == names.entries(),
            ei <= n,
            dec_exports_tbl(b, start, ei as int, t, templ, wide) == Option::Some(
                (exports_view(out@), r.position() as int),
            ),
        decreases n - ei,
    {
        let ghost cur = r.position();
        let class_index = match r.read_i32() {
            Ok(v) => v,
            Err(e) => {
                proof {
                    assert(dec_export_entry(b, cur, t, templ, wide) is None);
                    assert(dec_exports_tbl(b, cur, n as int - ei as int, t, templ, wide)
                        is None);
                    lemma_dec_exports_tbl_split(b, start, n as int, ei as int, t, templ, wide);
                }
                return Err(lift_error(e));
            },
        };
        let super_index = match r.read_i32() {
            Ok(v) => v,
            Err(e) => {
                proof {
                    assert(dec_export_entry(b, cur, t, templ, wide) is None);
                    assert(dec_exports_tbl(b, cur, n as int - ei as int, t, templ, wide)
                        is None);
                    lemma_dec_exports_tbl_split(b, start, n as int, ei as int, t, templ, wide);
                }
                return Err(lift_error(e));
            },
        };
        let template_index: i32 = if templ {
            match r.read_i32() {
                Ok(v) => v,
                Err(e) => {
                    proof {
                        assert(dec_export_entry(b, cur, t, templ, wide) is None);
                        assert(dec_exports_tbl(b, cur, n as int - ei as int, t, templ, wide)
                            is None);
                        lemma_dec_exports_tbl_split(b, start, n as int, ei as int, t, templ,
                            wide);
                    }
                    return Err(lift_error(e));
                },
            }
        } else {
            0
        };
        let outer_index = match r.read_i32() {
            Ok(v) => v,
            Err(e) => {
                proof {
                    assert(dec_export_entry(b, cur, t, templ, wide) is None);
                    assert(dec_exports_tbl(b, cur, n as int - ei as int, t, templ, wide)
                        is None);
                    lemma_dec_exports_tbl_split(b, start, n as int, ei as int, t, templ, wide);
                }
                return Err(lift_error(e));
            },
        };
        let object_name = match decode_fname(r, names) {
            Ok(v) => v,
            Err(e) => {
                proof {
                    assert(dec_export_entry(b, cur, t, templ, wide) is None);
                    assert(dec_exports_tbl(b, cur, n as int - ei as int, t, templ, wide)
                        is None);
                    lemma_dec_exports_tbl_split(b, start, n as int, ei as int, t, templ, wide);
                }
                return Err(lift_error(e));
            },
        };
        let object_flags = match r.read_u32() {
            Ok(v) => v,
            Err(e) => {
                proof {
                    assert(dec_export_entry(b, cur, t, templ, wide) is None);
                    assert(dec_exports_tbl(b, cur, n as int - ei as int, t, templ, wide)
                        is None);
                    lemma_dec_exports_tbl_split(b, start, n as int, ei as int, t, templ, wide);
                }
                return Err(lift_error(e));
            },
        };
        let serial_size: u64 = if wide {
            match r.read_u64() {
                Ok(v) => v,
                Err(e) => {
                    proof {
                        assert(dec_export_entry(b, cur, t, templ, wide) is None);
                        assert(dec_exports_tbl(b, cur, n as int - ei as int, t, templ, wide)
                            is None);
                        lemma_dec_exports_tbl_split(b, start, n as int, ei as int, t, templ,
                            wide);
                    }
                    return Err(lift_error(e));
                },
            }
        } else {
            match r.read_u32() {
                Ok(v) => v as u64,
                Err(e) => {
                    proof {
                        assert(dec_export_entry(b, cur, t, templ, wide) is None);
                        assert(dec_exports_tbl(b, cur, n as int - ei as int, t, templ, wide)
                            is None);
                        lemma_dec_exports_tbl_split(b, start, n as int, ei as int, t, templ,
                            wide);
                    }
                    return Err(lift_error(e));
                },
            }
        };
        let serial_offset: u64 = if wide {
            match r.read_u64() {
                Ok(v) => v,
                Err(e) => {
                    proof {
                        assert(dec_export_entry(b, cur, t, templ, wide) is None);
                        assert(dec_exports_tbl(b, cur, n as int - ei as int, t, templ, wide)
                            is None);
                        lemma_dec_exports_tbl_split(b, start, n as int, ei as int, t, templ,
                            wide);
                    }
                    return Err(lift_error(e));
                },
            }
        } else {
            match r.read_u32() {
                Ok(v) => v as u64,
                Err(e) => {
                    proof {
                        assert(dec_export_entry(b, cur, t, templ, wide) is None);
                        assert(dec_exports_tbl(b, cur, n as int - ei as int, t, templ, wide)
                            is None);
                        lemma_dec_exports_tbl_split(b, start, n as int, ei as int, t, templ,
                            wide);
                    }
                    return Err(lift_error(e));
                },
            }
        };
        let export_flags = match r.read_u32() {
            Ok(v) => v,
            Err(e) => {
                proof {
                    assert(dec_export_entry(b, cur, t, templ, wide) is None);
                    assert(dec_exports_tbl(b, cur, n as int - ei as int, t, templ, wide)
                        is None);
                    lemma_dec_exports_tbl_split(b, start, n as int, ei as int, t, templ, wide);
                }
                return Err(lift_error(e));
            },
        };
        let dep_count = match r.read_u32() {
            Ok(v) => v,
            Err(e) => {
                proof {
                    assert(dec_export_entry(b, cur, t, templ, wide) is None);
                    assert(dec_exports_tbl(b, cur, n as int - ei as int, t, templ, wide)
                        is None);
                    lemma_dec_exports_tbl_split(b, start, n as int, ei as int, t, templ, wide);
                }
                return Err(lift_error(e));
            },
        };
        let ghost depstart = r.position();
        let mut deps: Vec<PackageIndex> = Vec::new();
        proof {
            assert(deps_view(deps@) == Seq::<i32>::empty());
            assert(dec_i32s(b, depstart, 0) == Option::Some((Seq::<i32>::empty(), depstart)));
        }
        let mut di: u32 = 0;
        while di < dep_count
            invariant
                r.wf(),
                r.bytes() == b,
                di <= dep_count,
                dec_i32s(b, depstart, di as int) == Option::Some(
                    (deps_view(deps@), r.position() as int),
                ),
            decreases dep_count - di,
        {
            let ghost dcur = r.position();
            let d = match r.read_i32() {
                Ok(v) => v,
                Err(e) => {
                    proof {
                        assert(dec_i32s(b, dcur, dep_count as int - di as int) is None);
                        lemma_dec_i32s_split(b, depstart, dep_count as int, di as int);
                        assert(dec_export_entry(b, cur, t, templ, wide) is None);
                        assert(dec_exports_tbl(b, cur, n as int - ei as int, t, templ, wide)
                            is None);
                        lemma_dec_exports_tbl_split(b, start, n as int, ei as int, t, templ,
                            wide);
                    }
                    return Err(lift_error(e));
                },
            };
            proof {
                assert(dec_i32s(b, r.position() as int, 0) == Option::Some(
                    (Seq::<i32>::empty(), r.position() as int),
                ));
                assert(seq![d] + Seq::<i32>::empty() =~= seq![d]);
                assert(dec_i32s(b, dcur, 1) == Option::Some((seq![d], r.position() as int)));
                lemma_dec_i32s_split(b, depstart, di as int + 1, di as int);
                lemma_deps_view_push(deps@, PackageIndex(d));
                assert(deps_view(deps@) + seq![d] =~= deps_view(deps@).push(d));
            }
            deps.push(PackageIndex(d));
            di += 1;
        }
        let properties = match decode_stream(r, names) {
            Ok(v) => v,
            Err(e) => {
                proof {
                    assert(dec_export_entry(b, cur, t, templ, wide) is None);
                    assert(dec_exports_tbl(b, cur, n as int - ei as int, t, templ, wide)
                        is None);
                    lemma_dec_exports_tbl_split(b, start, n as int, ei as int, t, templ, wide);
                }
                return Err(lift_error(e));
            },
        };
        let e = Export {
            class_index: PackageIndex(class_index),
            super_index: PackageIndex(super_index),
            template_index: PackageIndex(template_index),
            outer_index: PackageIndex(outer_index),
            object_name,
            object_flags,
            serial_size,
            serial_offset,
            export_flags,
            properties,
            extras: None,
            create_before_serialization_dependencies: deps,
        };
        proof {
            assert(dec_export_entry(b, cur, t, templ, wide) == Option::Some(
                (export_view(e), r.position() as int),
            ));
            assert(dec_exports_tbl(b, r.position() as int, 0, t, templ, wide) == Option::Some(
                (Seq::<ExportModel>::empty(), r.position() as int),
            ));
            assert(seq![export_view(e)] + Seq::<ExportModel>::empty() =~= seq![export_view(e)]);
            assert(dec_exports_tbl(b, cur, 1, t, templ, wide) == Option::Some(
                (seq![export_view(e)], r.position() as int),
            ));
            lemma_dec_exports_tbl_split(b, start, ei as int + 1, ei as int, t, templ, wide);
            lemma_exports_view_push(out@, e);
            assert(exports_view(out@) + seq![export_view(e)] =~= exports_view(out@).push(
                export_view(e),
            ));
        }
        out.push(e);
        ei += 1;
    }
    Ok(out)
}

/// Reads one package from its bytes: summary, name table (with hash
/// verification), import table, export table and each export's
/// property stream, in that order.
///
/// The decode is all-or-nothing: a wrong magic tag, a section offset
/// that does not match its section's real position, a name index
/// outside the table, a hash mismatch or a truncated input fails the
/// whole read. An unrecognized property tag does not: it decodes to an
/// `Unknown` property.
#[verifier::rlimit(100)]
#[verifier::spinoff_prover]
pub fn read(data: &Vec<u8>, engine_version: EngineVersion) -> (res: Result<Asset, UnrealAssetError>)
    ensures
        res is Ok <==> dec_package(data@) is Some,
        dec_u32(data@, 0) is None ==> res is Err,
        (dec_u32(data@, 0) matches Some(p) && p.0 != PACKAGE_MAGIC) ==> res is Err,
        res matches Ok(a) ==> dec_u32(data@, 0) == Some((PACKAGE_MAGIC, 4int))
            && a.engine_version_recorded == engine_version,
        res matches Ok(a) ==> (dec_i32(data@, 4) matches Some(p) && a.legacy_file_version == p.0),
        res matches Ok(a) ==> (dec_i32(data@, 12) matches Some(p) && a.object_version.0 == p.0),
        res matches Ok(a) ==> (dec_i32(data@, 16) matches Some(p) && a.object_version_ue5.0
            == p.0),
        res matches Ok(a) ==> (dec_u32(data@, 20) matches Some(p) && a.asset_data.total_header_size
            == p.0),
        res matches Ok(a) ==> (dec_fstr(data@, 24) matches Some(f) && a.folder_name@ == f.0 && (
        dec_u32(data@, f.1) matches Some(pf) && a.asset_data.package_flags == pf.0)),
        res matches Ok(a) ==> (dec_package(data@) matches Some(m)
            && a.asset_data.name_map.entries() == m.names
            && imports_view(a.asset_data.imports@) == m.imports
            && exports_view(a.asset_data.exports@) == m.exports
            && a.generations@ == m.summary.generations
            && a.chunk_ids@ == m.summary.chunk_ids
            && a.package_guid == m.summary.package_guid
            && a.asset_data.package_flags == m.summary.package_flags
            && a.asset_data.total_header_size == m.summary.total_header_size
            && a.folder_name@ == m.summary.folder_name
            && a.legacy_file_version == m.summary.legacy_file_version
            && a.object_version.0 == m.summary.object_version
            && a.object_version_ue5.0 == m.summary.object_version_ue5
            && a.use_event_driven_loader == (m.summary.bulk_data_start_offset > 0)
            && a.bulk_data_start_offset == m.summary.bulk_data_start_offset),
{
    let mut r = BinaryArchive::new(clone_bytes(data));
    let ghost b = data@;
    let s = match read_summary(&mut r) {
        Ok(v) => v,
        Err(e) => { return Err(e); },
    };

    // Name table: the offset recorded in the summary must name the
    // position where the table really stands.
    if r.tell() != s.name_offset as usize {
        return Err(UnrealAssetError::InvalidData("name table offset mismatch".to_owned()));
    }
    let hashed = s.object_version >= VER_HASHED_NAMES;
    let name_strings = match read_name_table(&mut r, s.name_count, hashed) {
        Ok(v) => v,
        Err(e) => { return Err(e); },
    };
    let names = OptimizedNameMap::from_strings(name_strings, NameHashAlgorithm::Fnv1a);

    // Import table.
    if r.tell() != s.import_offset as usize {
        return Err(UnrealAssetError::InvalidData("import table offset mismatch".to_owned()));
    }
    let imports = match read_import_table(&mut r, s.import_count, &names, s.object_version
        >= VER_IMPORT_GUID) {
        Ok(v) => v,
        Err(e) => { return Err(e); },
    };

    // Export table, each entry followed by its property stream.
    if r.tell() != s.export_offset as usize {
        return Err(UnrealAssetError::InvalidData("export table offset mismatch".to_owned()));
    }
    let use_event_driven_loader = s.bulk_data_start_offset > 0;
    let exports = match read_export_table(&mut r, s.export_count, &names, s.object_version
        >= VER_TEMPLATE_INDEX, use_event_driven_loader) {
        Ok(v) => v,
        Err(e) => { return Err(e); },
    };

    let saved_version = EngineVersion::from_version(
        (s.saved_major as i32) * 1000 + (s.saved_minor as i32),
    );
    Ok(Asset {
        asset_data: AssetData {
            object_name: String::new(),
            package_guid: Some(s.package_guid),
            imports,
            exports,
            package_flags: s.package_flags,
            total_header_size: s.total_header_size,
            name_map: names,
            use_event_driven_loader,
            bulk_data_start_offset: if s.bulk_data_start_offset >= 0 {
                s.bulk_data_start_offset as u64
            } else {
                0
            },
        },
        legacy_file_version: s.legacy_file_version,
        generations: s.generations,
        package_guid: s.package_guid,
        engine_version_recorded: engine_version,
        engine_version_compatible: match saved_version {
            Some(v) => v,
            None => engine_version,
        },
        chunk_ids: s.chunk_ids,
        package_source: 0,
        folder_name: s.folder_name,
        use_event_driven_loader,
        bulk_data_start_offset: s.bulk_data_start_offset,
        custom_versions: Vec::new(),
        object_version: ObjectVersion(s.object_version),
        object_version_ue5: ObjectVersionUE5(s.object_version_ue5),
    })
}

/// A copy of a byte vector.
fn clone_bytes(data: &Vec<u8>) -> (r: Vec<u8>)
    ensures
        r@ == data@,
{
    let n = data.len();
    let mut out: Vec<u8> = Vec::new();
    let mut i: usize = 0;
    while i < n
        invariant
            n == data@.len(),
            i <= n,
            out@ =~= data@.take(i as int),
        decreases n - i,
    {
        out.push(data[i]);
        proof {
            assert(out@ =~= data@.take(i as int + 1));
        }
        i += 1;
    }
    proof {
        assert(data@.take(n as int) =~= data@);
    }
    out
}

/// Encodes the name table: each string and, when the object version
/// records hashes, its verification hash. Fails exactly when some
/// name does not fit the string layout's length prefix.
#[verifier::rlimit(100)]
#[verifier::spinoff_prover]
#[verifier::loop_isolation(false)]
fn encode_name_table(names: &OptimizedNameMap, hashed: bool) -> (res: Result<
    Vec<u8>,
    UnrealAssetError,
>)
    ensures
        res matches Ok(b) ==> b@ == enc_names(names.entries(), 0, hashed) && (forall|k: int|
            0 <= k < names.entries().len() ==> fstr_len_ok(#[trigger] names.entries()[k])),
        res is Err <==> exists|k: int|
            0 <= k < names.entries().len() && !fstr_len_ok(#[trigger] names.entries()[k]),
{
    let ghost t = names.entries();
    let name_strings = names.to_string_vector();
    let name_count = name_strings.len();
    let mut w = BinaryArchiveWriter::new();
    let mut ni: usize = 0;
    while ni < name_count
        invariant
            ni <= name_count,
            name_count == name_strings@.len(),
            w.out() =~= enc_names_take(t, ni as int, hashed),
            forall|k: int| 0 <= k < ni ==> fstr_len_ok(#[trigger] t[k]),
        decreases name_count - ni,
    {
        let s = &name_strings[ni];
        proof {
            assert(s@ == t[ni as int]);
        }
        if s.as_str().unicode_len() >= 0x4000_0000 {
            proof {
                assert(!fstr_len_ok(t[ni as int]));
            }
            return Err(UnrealAssetError::InvalidData("name too long".to_owned()));
        }
        w.write_fstring(s.as_str());
        if hashed {
            let h = name_table_hash_exec(s.as_str());
            w.write_u32(h);
        }
        proof {
            assert(w.out() =~= enc_names_take(t, ni as int + 1, hashed));
        }
        ni += 1;
    }
    proof {
        lemma_enc_names_split(t, name_count as int, hashed);
        assert(w.out() =~= enc_names(t, 0, hashed));
    }
    Ok(w.into_bytes())
}

/// Encodes the import table.
#[verifier::rlimit(100)]
#[verifier::spinoff_prover]
#[verifier::loop_isolation(false)]
fn encode_import_table(
    names: &OptimizedNameMap,
    imports: &Vec<Import>,
    with_guids: bool,
) -> (b: Vec<u8>)
    ensures
        b@ == enc_imports(names.entries(), imports@, 0, with_guids),
{
    let ghost t = names.entries();
    let import_count = imports.len();
    let mut w = BinaryArchiveWriter::new();
    let mut ii: usize = 0;
    while ii < import_count
        invariant
            ii <= import_count,
            import_count == imports@.len(),
            w.out() =~= enc_imports_take(t, imports@, ii as int, with_guids),
        decreases import_count - ii,
    {
        let imp = &imports[ii];
        encode_fname(&mut w, names, imp.class_package.name.as_str(), imp.class_package.number);
        encode_fname(&mut w, names, imp.class_name.name.as_str(), imp.class_name.number);
        w.write_i32(imp.outer_index.0);
        encode_fname(&mut w, names, imp.object_name.name.as_str(), imp.object_name.number);
        if with_guids {
            match &imp.package_guid {
                Some(g) => {
                    w.write_guid(g);
                },
                None => {
                    let nil = Guid::nil();
                    w.write_guid(&nil);
                },
            }
        }
        proof {
            assert(w.out() =~= enc_imports_take(t, imports@, ii as int + 1, with_guids));
        }
        ii += 1;
    }
    proof {
        lemma_enc_imports_split(t, imports@, import_count as int, with_guids);
        assert(w.out() =~= enc_imports(t, imports@, 0, with_guids));
    }
    w.into_bytes()
}

/// Encodes the export table, each entry with its dependency list and
/// property stream. Fails exactly when some dependency list does not
/// fit its 32-bit count.
#[verifier::rlimit(100)]
#[verifier::spinoff_prover]
#[verifier::loop_isolation(false)]
fn encode_export_table(
    names: &OptimizedNameMap,
    exports: &Vec<Export>,
    with_templates: bool,
    wide: bool,
) -> (res: Result<Vec<u8>, UnrealAssetError>)
    requires
        forall|i: int|
            0 <= i < exports@.len() ==> forall|j: int|
                0 <= j < (#[trigger] exports@[i]).properties@.len() ==> fits_fstr(
                    (#[trigger] exports@[i].properties@[j]).value,
                ),
    ensures
        res matches Ok(b) ==> b@ == enc_exports(names.entries(), exports@, 0, with_templates, wide)
            && (forall|i: int|
            0 <= i < exports@.len() ==> (
            #[trigger] exports@[i]).create_before_serialization_dependencies@.len()
                <= 0x7fff_ffff),
        res is Err <==> exists|i: int|
            0 <= i < exports@.len() && (
            #[trigger] exports@[i]).create_before_serialization_dependencies@.len() > 0x7fff_ffff,
{
    let ghost t = names.entries();
    let export_count = exports.len();
    let mut w = BinaryArchiveWriter::new();
    let mut ei: usize = 0;
    while ei < export_count
        invariant
            ei <= export_count,
            export_count == exports@.len(),
            w.out() =~= enc_exports_take(t, exports@, ei as int, with_templates, wide),
            forall|k: int|
                0 <= k < ei ==> (
                #[trigger] exports@[k]).create_before_serialization_dependencies@.len()
                    <= 0x7fff_ffff,
        decreases export_count - ei,
    {
        let ghost entry_start = w.out();
        let ex = &exports[ei];
        let dep_count = ex.create_before_serialization_dependencies.len();
        if dep_count > 0x7fff_ffffusize {
            return Err(UnrealAssetError::InvalidData("dependency list too large".to_owned()));
        }
        w.write_i32(ex.class_index.0);
        w.write_i32(ex.super_index.0);
        if with_templates {
            w.write_i32(ex.template_index.0);
        }
        w.write_i32(ex.outer_index.0);
        encode_fname(&mut w, names, ex.object_name.name.as_str(), ex.object_name.number);
        w.write_u32(ex.object_flags);
        if wide {
            w.write_u64(ex.serial_size);
            w.write_u64(ex.serial_offset);
        } else {
            w.write_u32(ex.serial_size as u32);
            w.write_u32(ex.serial_offset as u32);
        }
        w.write_u32(ex.export_flags);
        w.write_u32(dep_count as u32);
        let ghost dep_start = w.out();
        let mut di: usize = 0;
        while di < dep_count
            invariant
                di <= dep_count,
                ei < export_count,
                export_count == exports@.len(),
                dep_count == exports@[ei as int].create_before_serialization_dependencies@.len(),
                w.out() =~= dep_start + enc_dep_run_take(
                    exports@[ei as int].create_before_serialization_dependencies@,
                    di as int,
                ),
            decreases dep_count - di,
        {
            w.write_i32(ex.create_before_serialization_dependencies[di].0);
            proof {
                assert(w.out() =~= dep_start + enc_dep_run_take(
                    exports@[ei as int].create_before_serialization_dependencies@,
                    di as int + 1,
                ));
            }
            di += 1;
        }
        proof {
            lemma_enc_dep_run_split(
                exports@[ei as int].create_before_serialization_dependencies@,
                dep_count as int,
            );
        }
        encode_stream(&mut w, names, &ex.properties);
        proof {
            assert(w.out() =~= entry_start + enc_export_entry(
                t,
                exports@[ei as int],
                with_templates,
                wide,
            ));
            assert(w.out() =~= enc_exports_take(t, exports@, ei as int + 1, with_templates, wide));
        }
        ei += 1;
    }
    proof {
        lemma_enc_exports_split(t, exports@, export_count as int, with_templates, wide);
        assert(w.out() =~= enc_exports(t, exports@, 0, with_templates, wide));
    }
    Ok(w.into_bytes())
}

/// Writes one package: summary, name table, import table and export
/// table with inline property streams, mirroring [`read`] section for
/// section. The output is exactly [`enc_package_bytes`]: the summary's
/// count and offset fields hold the real positions of the sections
/// that follow, and the total header size is the full length of the
/// output.
///
/// The write succeeds exactly when the asset fits the fixed-width
/// fields of the layout ([`write_ok`]): each table count and each
/// name within bounds, and the whole package within the 32-bit header
/// size.
#[verifier::rlimit(100)]
#[verifier::spinoff_prover]
pub fn write(asset: &Asset) -> (res: Result<Vec<u8>, UnrealAssetError>)
    requires
        forall|i: int|
            0 <= i < asset.asset_data.exports@.len() ==> forall|j: int|
                0 <= j < (#[trigger] asset.asset_data.exports@[i]).properties@.len() ==> fits_fstr(
                    (#[trigger] asset.asset_data.exports@[i].properties@[j]).value,
                ),
        fstr_len_ok(asset.folder_name@),
    ensures
        res is Ok <==> write_ok(asset),
        res matches Ok(bytes) ==> bytes@ == enc_package_bytes(asset),
{
    let ghost t = asset.asset_data.name_map.entries();
    let name_count = asset.asset_data.name_map.len();
    if name_count > 0x7fff_ffffusize {
        return Err(UnrealAssetError::InvalidData("name table too large".to_owned()));
    }
    let import_count = asset.asset_data.imports.len();
    if import_count > 0x7fff_ffffusize {
        return Err(UnrealAssetError::InvalidData("import table too large".to_owned()));
    }
    let export_count = asset.asset_data.exports.len();
    if export_count > 0x7fff_ffffusize {
        return Err(UnrealAssetError::InvalidData("export table too large".to_owned()));
    }
    if asset.generations.len() > 0x7fff_ffffusize {
        return Err(UnrealAssetError::InvalidData("generation list too large".to_owned()));
    }
    if asset.chunk_ids.len() > 0x7fff_ffffusize {
        return Err(UnrealAssetError::InvalidData("chunk list too large".to_owned()));
    }
    let hashed = asset.object_version.0 >= VER_HASHED_NAMES;
    let with_guids = asset.object_version.0 >= VER_IMPORT_GUID;
    let with_templates = asset.object_version.0 >= VER_TEMPLATE_INDEX;
    let wide = asset.use_event_driven_loader;
    let names_bytes = match encode_name_table(&asset.asset_data.name_map, hashed) {
        Ok(b) => b,
        Err(e) => {
            return Err(e);
        },
    };
    let imports_bytes = encode_import_table(
        &asset.asset_data.name_map,
        &asset.asset_data.imports,
        with_guids,
    );
    let exports_bytes = match encode_export_table(
        &asset.asset_data.name_map,
        &asset.asset_data.exports,
        with_templates,
        wide,
    ) {
        Ok(b) => b,
        Err(e) => {
            return Err(e);
        },
    };

    // The summary length: write it once with placeholder positions to
    // measure it, since the offset fields are fixed-width.
    let mut probe = BinaryArchiveWriter::new();
    write_summary(
        &mut probe,
        asset,
        name_count as u32,
        0,
        export_count as u32,
        0,
        import_count as u32,
        0,
        0,
    );
    let summary_len = probe.position();
    let full_size = (summary_len as u128) + (names_bytes.len() as u128) + (
    imports_bytes.len() as u128) + (exports_bytes.len() as u128);
    proof {
        assert(enc_summary_bytes(
            asset,
            name_count as u32,
            ((summary_len) as u32),
            export_count as u32,
            ((summary_len + names_bytes@.len() + imports_bytes@.len()) as u32),
            import_count as u32,
            ((summary_len + names_bytes@.len()) as u32),
            ((summary_len + names_bytes@.len() + imports_bytes@.len()
                + exports_bytes@.len()) as u32),
        ).len() == summary_len);
        assert(enc_package_bytes(asset).len() == full_size);
    }
    if full_size > 0xffff_ffffu128 {
        return Err(UnrealAssetError::InvalidData("package too large".to_owned()));
    }
    let name_off = summary_len;
    let import_off = name_off + names_bytes.len();
    let export_off = import_off + imports_bytes.len();
    let total = export_off + exports_bytes.len();

    let mut w = BinaryArchiveWriter::new();
    write_summary(
        &mut w,
        asset,
        name_count as u32,
        name_off as u32,
        export_count as u32,
        export_off as u32,
        import_count as u32,
        import_off as u32,
        total as u32,
    );
    w.write_bytes(&names_bytes);
    w.write_bytes(&imports_bytes);
    w.write_bytes(&exports_bytes);
    let out = w.into_bytes();
    proof {
        assert(out@ =~= enc_package_bytes(asset));
    }
    Ok(out)
}

/// Writes the summary with the given counts, section positions and
/// total: appends exactly [`enc_summary_bytes`] of those fields.
pub fn write_summary(
    w: &mut BinaryArchiveWriter,
    asset: &Asset,
    name_count: u32,
    name_off: u32,
    export_count: u32,
    export_off: u32,
    import_count: u32,
    import_off: u32,
    total: u32,
)
    requires
        fstr_len_ok(asset.folder_name@),
        asset.generations@.len() <= 0x7fff_ffff,
        asset.chunk_ids@.len() <= 0x7fff_ffff,
    ensures
        final(w).out() == old(w).out() + enc_summary_bytes(
            asset,
            name_count,
            name_off,
            export_count,
            export_off,
            import_count,
            import_off,
            total,
        ),
{
    let ghost pre = w.out();
    write_summary_head(
        w,
        asset,
        name_count,
        name_off,
        export_count,
        export_off,
        import_count,
        import_off,
        total,
    );
    write_summary_tail(w, asset);
    proof {
        assert(final(w).out() =~= pre + enc_summary_bytes(
            asset,
            name_count,
            name_off,
            export_count,
            export_off,
            import_count,
            import_off,
            total,
        ));
    }
}

/// Writes the head of the summary: the fields that carry the counts,
/// positions and total.
#[verifier::rlimit(100)]
#[verifier::spinoff_prover]
fn write_summary_head(
    w: &mut BinaryArchiveWriter,
    asset: &Asset,
    name_count: u32,
    name_off: u32,
    export_count: u32,
    export_off: u32,
    import_count: u32,
    import_off: u32,
    total: u32,
)
    requires
        fstr_len_ok(asset.folder_name@),
    ensures
        final(w).out() == old(w).out() + enc_summary_head(
            asset,
            name_count,
            name_off,
            export_count,
            export_off,
            import_count,
            import_off,
            total,
        ),
{
    let ghost pre = w.out();
    w.write_u32(PACKAGE_MAGIC);
    w.write_i32(asset.legacy_file_version);
    w.write_i32(-2);
    w.write_i32(asset.object_version.0);
    w.write_i32(asset.object_version_ue5.0);
    w.write_u32(total);
    w.write_fstring(asset.folder_name.as_str());
    w.write_u32(asset.asset_data.package_flags);
    w.write_u32(name_count);
    w.write_u32(name_off);
    w.write_u32(0);
    w.write_u32(0);
    w.write_u32(export_count);
    w.write_u32(export_off);
    w.write_u32(import_count);
    w.write_u32(import_off);
    w.write_u32(0);
    w.write_u32(0);
    w.write_u32(0);
    w.write_u32(0);
    w.write_u32(0);
    w.write_guid(&asset.package_guid);
    proof {
        assert(final(w).out() =~= pre + enc_summary_head(
            asset,
            name_count,
            name_off,
            export_count,
            export_off,
            import_count,
            import_off,
            total,
        ));
    }
}

/// Writes the tail of the summary, from the generation records on.
#[verifier::rlimit(100)]
#[verifier::spinoff_prover]
#[verifier::loop_isolation(false)]
fn write_summary_tail(w: &mut BinaryArchiveWriter, asset: &Asset)
    requires
        asset.generations@.len() <= 0x7fff_ffff,
        asset.chunk_ids@.len() <= 0x7fff_ffff,
    ensures
        final(w).out() == old(w).out() + enc_summary_tail(asset),
{
    proof {
        reveal_strlit("");
        assert(""@ =~= Seq::<char>::empty());
    }
    let ghost pre = w.out();
    let gen_count = asset.generations.len();
    w.write_u32(gen_count as u32);
    let ghost gen_start = w.out();
    let mut gi: usize = 0;
    while gi < gen_count
        invariant
            gi <= gen_count,
            gen_count == asset.generations@.len(),
            w.out() =~= gen_start + enc_generations_take(asset.generations@, gi as int),
        decreases gen_count - gi,
    {
        w.write_i32(asset.generations[gi].export_count);
        w.write_i32(asset.generations[gi].name_count);
        proof {
            assert(w.out() =~= gen_start + enc_generations_take(asset.generations@, gi as int + 1));
        }
        gi += 1;
    }
    proof {
        lemma_enc_generations_split(asset.generations@, gen_count as int);
        assert(w.out() =~= gen_start + enc_generations(asset.generations@, 0));
    }
    let major = asset.engine_version_recorded.version() / 1000;
    let minor = asset.engine_version_recorded.version() % 1000;
    w.write_u16(major as u16);
    w.write_u16(minor as u16);
    w.write_u16(0);
    w.write_u32(0);
    w.write_fstring("");
    w.write_u16(major as u16);
    w.write_u16(minor as u16);
    w.write_u16(0);
    w.write_u32(0);
    w.write_fstring("");
    w.write_u32(0);
    w.write_u32(0);
    w.write_u32(0);
    w.write_i64(asset.bulk_data_start_offset);
    w.write_u32(0);
    let chunk_count = asset.chunk_ids.len();
    w.write_u32(chunk_count as u32);
    let ghost chunk_start = w.out();
    let mut ki: usize = 0;
    while ki < chunk_count
        invariant
            ki <= chunk_count,
            chunk_count == asset.chunk_ids@.len(),
            w.out() =~= chunk_start + enc_chunks_take(asset.chunk_ids@, ki as int),
        decreases chunk_count - ki,
    {
        w.write_i32(asset.chunk_ids[ki]);
        proof {
            assert(w.out() =~= chunk_start + enc_chunks_take(asset.chunk_ids@, ki as int + 1));
        }
        ki += 1;
    }
    proof {
        lemma_enc_chunks_split(asset.chunk_ids@, chunk_count as int);
        assert(w.out() =~= chunk_start + enc_chunks(asset.chunk_ids@, 0));
    }
    w.write_u32(0);
    w.write_u32(0);
    proof {
        assert(enc_fstr(""@) == enc_fstr(Seq::<char>::empty()));
        assert(final(w).out() =~= pre + enc_summary_tail(asset));
    }
}

} // verus!
