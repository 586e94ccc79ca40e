//! Supporting structures around the core tables: class ancestry,
//! type-mapping data for cooked builds, texture payload descriptions,
//! and the bulk-data bookkeeping.

use vstd::prelude::*;

verus! {

broadcast use vstd::std_specs::vec::group_vec_axioms, vstd::seq::group_seq_axioms;

/// The chain of class names above an object, nearest first.
#[derive(Debug, PartialEq)]
pub struct Ancestry {
    /// The ancestor class names.
    pub ancestors: Vec<String>,
}

impl Ancestry {
    /// An empty ancestry.
    pub fn new() -> (r: Self)
        ensures
            r.ancestors@.len() == 0,
    {
        Ancestry { ancestors: Vec::new() }
    }

    /// Appends an ancestor.
    pub fn add_ancestor(&mut self, ancestor: String)
        ensures
            final(self).ancestors@ == old(self).ancestors@.push(ancestor),
    {
        self.ancestors.push(ancestor);
    }

    /// True when the chain holds the given class name.
    pub fn has_ancestor(&self, ancestor: &str) -> (r: bool)
        ensures
            r == exists|i: int|
                0 <= i < self.ancestors@.len() && (#[trigger] self.ancestors@[i])@ == ancestor@,
    {
        let sought = ancestor.to_owned();
        let n = self.ancestors.len();
        let mut i: usize = 0;
        while i < n
            invariant
                n == self.ancestors@.len(),
                i <= n,
                sought@ == ancestor@,
                forall|j: int| 0 <= j < i ==> (#[trigger] self.ancestors@[j])@ != ancestor@,
            decreases n - i,
        {
            if self.ancestors[i] == sought {
                proof {
                    assert((self.ancestors@[i as int])@ == ancestor@);
                }
                return true;
            }
            i += 1;
        }
        false
    }
}

/// One enumeration of a type-mapping file.
#[derive(Debug, PartialEq)]
pub struct UsmapEnum {
    /// The enumeration's name.
    pub name: String,
    /// Its values, in declaration order.
    pub values: Vec<String>,
}

/// One property of a mapped struct.
#[derive(Debug, PartialEq)]
pub struct UsmapProperty {
    /// The property's name.
    pub name: String,
    /// The property's type tag.
    pub property_type: String,
    /// The array dimension, when the property is a fixed array.
    pub array_dim: Option<u32>,
}

/// One struct of a type-mapping file.
#[derive(Debug, PartialEq)]
pub struct UsmapStruct {
    /// The struct's name.
    pub name: String,
    /// The parent struct's name, if any.
    pub super_name: Option<String>,
    /// The struct's properties.
    pub properties: Vec<UsmapProperty>,
}

/// A type-mapping file: the external schema that restores the property
/// types a cooked build strips.
#[derive(Debug, PartialEq)]
pub struct Usmap {
    /// The file version.
    pub version: u8,
    /// The file's own name table.
    pub name_map: Vec<String>,
    /// The mapped enumerations.
    pub enums: Vec<UsmapEnum>,
    /// The mapped structs.
    pub structs: Vec<UsmapStruct>,
}

impl Usmap {
    /// An empty mapping.
    pub fn new(version: u8) -> (r: Self)
        ensures
            r.version == version,
            r.name_map@.len() == 0,
            r.enums@.len() == 0,
            r.structs@.len() == 0,
    {
        Usmap { version, name_map: Vec::new(), enums: Vec::new(), structs: Vec::new() }
    }

    /// The first mapped struct with the given name, if any.
    pub fn find_struct(&self, name: &str) -> (r: Option<&UsmapStruct>)
        ensures
            r matches Some(s) ==> exists|i: int|
                0 <= i < self.structs@.len() && (#[trigger] self.structs@[i]).name@ == name@ && *s
                    == self.structs@[i],
            r is None ==> forall|i: int|
                0 <= i < self.structs@.len() ==> (#[trigger] self.structs@[i]).name@ != name@,
    {
        let sought = name.to_owned();
        let n = self.structs.len();
        let mut i: usize = 0;
        while i < n
            invariant
                n == self.structs@.len(),
                i <= n,
                sought@ == name@,
                forall|j: int| 0 <= j < i ==> (#[trigger] self.structs@[j]).name@ != name@,
            decreases n - i,
        {
            if self.structs[i].name == sought {
                return Some(&self.structs[i]);
            }
            i += 1;
        }
        None
    }
}

/// A texture payload: its dimensions, pixel format and raw bytes.
#[derive(Debug, PartialEq)]
pub struct Texture2DData {
    /// The width in pixels.
    pub width: u32,
    /// The height in pixels.
    pub height: u32,
    /// The pixel format name.
    pub format: String,
    /// The raw texture bytes.
    pub data: Vec<u8>,
    /// True for a normal map.
    pub is_normal_map: bool,
    /// The number of mip levels.
    pub mip_count: u32,
}

impl Texture2DData {
    /// An empty texture of the given dimensions and format, with one
    /// mip level.
    pub fn new(width: u32, height: u32, format: String) -> (r: Self)
        ensures
            r.width == width,
            r.height == height,
            r.format == format,
            r.data@.len() == 0,
            r.is_normal_map == false,
            r.mip_count == 1,
    {
        Texture2DData { width, height, format, data: Vec::new(), is_normal_map: false, mip_count: 1 }
    }

    /// The byte size of the raw data.
    pub fn size_bytes(&self) -> (r: usize)
        ensures
            r == self.data@.len(),
    {
        self.data.len()
    }

    /// True when the pixel format is a block-compressed one.
    pub fn is_compressed(&self) -> (r: bool)
        ensures
            r == (is_compressed_format(self.format@)),
    {
        let f = &self.format;
        crate::codec::str_eq_lit(f, "PF_DXT1") || crate::codec::str_eq_lit(f, "PF_DXT3")
            || crate::codec::str_eq_lit(f, "PF_DXT5") || crate::codec::str_eq_lit(f, "PF_BC5")
            || crate::codec::str_eq_lit(f, "PF_BC7")
    }
}

/// True when the format name is one of the block-compressed formats
/// this crate knows.
pub open spec fn is_compressed_format(f: Seq<char>) -> bool {
    ||| f == "PF_DXT1"@
    ||| f == "PF_DXT3"@
    ||| f == "PF_DXT5"@
    ||| f == "PF_BC5"@
    ||| f == "PF_BC7"@
}

/// The compression methods bulk data can name. Selecting one is a
/// pass-through: this codec records the method, it does not compress.
#[derive(Debug, Clone, Copy, PartialEq, Eq, Hash, Structural)]
pub enum CompressionMethod {
    /// No compression.
    Plain,
    /// The zlib method.
    Zlib,
    /// The LZ4 method.
    Lz4,
    /// The Oodle method.
    Oodle,
    /// A platform-specific method.
    Platform,
}

/// How one bulk-data chunk is stored.
#[derive(Debug, PartialEq)]
pub struct BulkDataEntry {
    /// The storage flag bits.
    pub flags: u32,
    /// The size when uncompressed.
    pub uncompressed_size: i64,
    /// The size as stored.
    pub compressed_size: i64,
    /// The offset in the bulk-data file.
    pub offset: i64,
    /// The compression method, when one is recorded.
    pub compression_method: Option<CompressionMethod>,
    /// True when the bytes are stored inline in the asset.
    pub is_inline: bool,
    /// The inline bytes, when stored inline.
    pub inline_data: Option<Vec<u8>>,
}

/// The bulk-data bookkeeping: entries by name.
pub struct BulkDataManager {
    entries: Vec<(String, BulkDataEntry)>,
}

impl BulkDataManager {
    /// The recorded entries.
    pub closed spec fn records(&self) -> Seq<(String, BulkDataEntry)> {
        self.entries@
    }

    /// An empty manager.
    pub fn new() -> (r: Self)
        ensures
            r.records().len() == 0,
    {
        BulkDataManager { entries: Vec::new() }
    }

    /// Records an entry under a name.
    pub fn add_entry(&mut self, name: String, entry: BulkDataEntry)
        ensures
            final(self).records() == old(self).records().push((name, entry)),
    {
        self.entries.push((name, entry));
    }

    /// The first entry recorded under the given name, if any.
    pub fn get_entry(&self, name: &str) -> (r: Option<&BulkDataEntry>)
        ensures
            r matches Some(e) ==> exists|i: int|
                0 <= i < self.records().len() && (#[trigger] self.records()[i]).0@ == name@ && *e
                    == self.records()[i].1,
            r is None ==> forall|i: int|
                0 <= i < self.records().len() ==> (#[trigger] self.records()[i]).0@ != name@,
    {
        let sought = name.to_owned();
        let n = self.entries.len();
        let mut i: usize = 0;
        while i < n
            invariant
                n == self.entries@.len(),
                i <= n,
                sought@ == name@,
                forall|j: int| 0 <= j < i ==> (#[trigger] self.entries@[j]).0@ != name@,
            decreases n - i,
        {
            if self.entries[i].0 == sought {
                proof {
                    assert((self.records()[i as int]).0@ == name@);
                    assert(self.records()[i as int].1 == self.entries@[i as int].1);
                }
                return Some(&self.entries[i].1);
            }
            i += 1;
        }
        None
    }
}

} // verus!
