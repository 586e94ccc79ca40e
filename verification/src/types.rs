//! Core value types of the package format: package-table references,
//! engine names, identifiers and the fixed-layout geometry values.
//!
//! Floating-point quantities (vector components, rotations, colors) are
//! carried as their 32-bit IEEE-754 bit patterns: the codec never does
//! arithmetic on them, it only moves them bit-for-bit between memory and
//! the on-disk little-endian layout.

use vstd::prelude::*;
use crate::text::{dec_digits, u32_to_decimal};

verus! {

/// A signed reference into a package's import or export table.
///
/// `0` is the null reference; a negative value `v` addresses entry
/// `-v - 1` of the import table; a positive value `v` addresses entry
/// `v - 1` of the export table.
#[derive(Debug, Clone, Copy, PartialEq, Eq, Hash, Structural)]
pub struct PackageIndex(pub i32);

impl PackageIndex {
    /// The null reference.
    pub fn null() -> (r: Self)
        ensures
            r.0 == 0,
    {
        PackageIndex(0)
    }

    /// True when this reference is null.
    pub fn is_null(&self) -> (r: bool)
        ensures
            r == (self.0 == 0),
    {
        self.0 == 0
    }

    /// True when this reference addresses the import table.
    pub fn is_import(&self) -> (r: bool)
        ensures
            r == (self.0 < 0),
    {
        self.0 < 0
    }

    /// True when this reference addresses the export table.
    pub fn is_export(&self) -> (r: bool)
        ensures
            r == (self.0 > 0),
    {
        self.0 > 0
    }

    /// The zero-based import-table index, for import references only.
    pub fn import_index(&self) -> (r: Option<usize>)
        ensures
            self.0 < 0 ==> r == Some((-(self.0 as int) - 1) as usize),
            self.0 >= 0 ==> r is None,
    {
        if self.0 < 0 {
            Some((-(self.0 as i64) - 1) as usize)
        } else {
            None
        }
    }

    /// The zero-based export-table index, for export references only.
    pub fn export_index(&self) -> (r: Option<usize>)
        ensures
            self.0 > 0 ==> r == Some((self.0 - 1) as usize),
            self.0 <= 0 ==> r is None,
    {
        if self.0 > 0 {
            Some((self.0 - 1) as usize)
        } else {
            None
        }
    }

    /// The reference that addresses import-table entry `index`.
    pub fn from_import(index: usize) -> (r: Self)
        requires
            index <= 0x7fff_ffff,
        ensures
            r.0 == -(index as int) - 1,
    {
        PackageIndex((-(index as i64) - 1) as i32)
    }

    /// The reference that addresses export-table entry `index`.
    pub fn from_export(index: usize) -> (r: Self)
        requires
            index < 0x7fff_ffff,
        ensures
            r.0 == index + 1,
    {
        PackageIndex((index as i64 + 1) as i32)
    }
}

/// The zero-based import index a reference addresses, if it is an
/// import reference.
pub open spec fn import_index_of(p: PackageIndex) -> Option<int> {
    if p.0 < 0 {
        Option::Some(-(p.0 as int) - 1)
    } else {
        Option::None
    }
}

/// The zero-based export index a reference addresses, if it is an
/// export reference.
pub open spec fn export_index_of(p: PackageIndex) -> Option<int> {
    if p.0 > 0 {
        Option::Some(p.0 - 1)
    } else {
        Option::None
    }
}

/// The reference constructors and index accessors are exact inverses:
/// for every table index, building an import (or export) reference and
/// reading the index back gives the index, and the null reference is
/// neither an import nor an export.
pub proof fn lemma_package_index_inverse(i: int)
    requires
        0 <= i <= 0x7fff_fffe,
    ensures
        import_index_of(PackageIndex((-i - 1) as i32)) == Option::Some(i),
        export_index_of(PackageIndex((i + 1) as i32)) == Option::Some(i),
        import_index_of(PackageIndex(0)) is None,
        export_index_of(PackageIndex(0)) is None,
{
}

/// Abstraction over reference kinds for types that behave like a
/// [`PackageIndex`].
pub trait PackageIndexTrait {
    /// The raw signed reference value.
    fn get_index(&self) -> i32;

    /// True when the reference is null.
    fn is_null(&self) -> bool;

    /// True when the reference addresses the import table.
    fn is_import(&self) -> bool;

    /// True when the reference addresses the export table.
    fn is_export(&self) -> bool;
}

impl PackageIndexTrait for PackageIndex {
    fn get_index(&self) -> (r: i32)
        ensures
            r == self.0,
    {
        self.0
    }

    fn is_null(&self) -> (r: bool)
        ensures
            r == (self.0 == 0),
    {
        PackageIndex::is_null(self)
    }

    fn is_import(&self) -> (r: bool)
        ensures
            r == (self.0 < 0),
    {
        PackageIndex::is_import(self)
    }

    fn is_export(&self) -> (r: bool)
        ensures
            r == (self.0 > 0),
    {
        PackageIndex::is_export(self)
    }
}

/// An engine identifier: a name-table string plus a numeric
/// disambiguation suffix (`0` means no suffix).
#[derive(Debug, Clone, PartialEq, Eq, Hash)]
pub struct FName {
    /// The resolved string of this name.
    pub name: String,
    /// The disambiguating suffix; `0` means unsuffixed.
    pub number: u32,
}

/// The display form of an [`FName`]: the bare string when the suffix is
/// zero, else the string, an underscore and the decimal suffix.
pub open spec fn serialized_name(name: Seq<char>, number: u32) -> Seq<char> {
    if number == 0 {
        name
    } else {
        name + seq!['_'] + dec_digits(number as nat)
    }
}

impl FName {
    /// A name with suffix zero.
    pub fn new(name: &str) -> (r: Self)
        ensures
            r.name@ == name@,
            r.number == 0,
    {
        FName { name: name.to_owned(), number: 0 }
    }

    /// A name with the given suffix.
    pub fn with_number(name: &str, number: u32) -> (r: Self)
        ensures
            r.name@ == name@,
            r.number == number,
    {
        FName { name: name.to_owned(), number }
    }

    /// The bare string of this name.
    pub fn as_str(&self) -> (r: &str)
        ensures
            r@ == self.name@,
    {
        self.name.as_str()
    }

    /// Content equality: compares the strings and ignores the suffixes.
    pub fn eq_content(&self, other: &FName) -> (r: bool)
        ensures
            r == (self.name@ == other.name@),
    {
        self.name == other.name
    }

    /// A copy of the bare string.
    pub fn get_owned_content(&self) -> (r: String)
        ensures
            r@ == self.name@,
    {
        self.name.clone()
    }
}

/// Types with a display form used when a name is written out.
pub trait ToSerializedName {
    /// The display form of the name.
    fn to_serialized_name(&self) -> String;
}

impl ToSerializedName for FName {
    fn to_serialized_name(&self) -> (r: String)
        ensures
            r@ == serialized_name(self.name@, self.number),
    {
        if self.number == 0 {
            self.name.clone()
        } else {
            let mut s = self.name.clone();
            s.push('_');
            let digits = u32_to_decimal(self.number);
            s.append(digits.as_str());
            s
        }
    }
}

/// A 128-bit identifier, stored as the four little-endian 32-bit words of
/// its on-disk layout.
#[derive(Debug, Clone, Copy, PartialEq, Eq, Hash, Structural)]
pub struct Guid {
    /// First word.
    pub a: u32,
    /// Second word.
    pub b: u32,
    /// Third word.
    pub c: u32,
    /// Fourth word.
    pub d: u32,
}

impl Guid {
    /// The identifier with the given four words.
    pub fn new(a: u32, b: u32, c: u32, d: u32) -> (r: Self)
        ensures
            r == (Guid { a, b, c, d }),
    {
        Guid { a, b, c, d }
    }

    /// The all-zero identifier.
    pub fn nil() -> (r: Self)
        ensures
            r == (Guid { a: 0, b: 0, c: 0, d: 0 }),
    {
        Guid { a: 0, b: 0, c: 0, d: 0 }
    }

    /// True when every word is zero.
    pub fn is_nil(&self) -> (r: bool)
        ensures
            r == (self.a == 0 && self.b == 0 && self.c == 0 && self.d == 0),
    {
        self.a == 0 && self.b == 0 && self.c == 0 && self.d == 0
    }
}

/// A three-component vector; each field is an IEEE-754 single bit
/// pattern.
#[derive(Debug, Clone, Copy, PartialEq, Eq, Hash, Structural)]
pub struct Vector {
    /// X component bits.
    pub x: u32,
    /// Y component bits.
    pub y: u32,
    /// Z component bits.
    pub z: u32,
}

impl Vector {
    /// The vector with the given component bits.
    pub fn new(x: u32, y: u32, z: u32) -> (r: Self)
        ensures
            r == (Vector { x, y, z }),
    {
        Vector { x, y, z }
    }

    /// The zero vector.
    pub fn zero() -> (r: Self)
        ensures
            r == (Vector { x: 0, y: 0, z: 0 }),
    {
        Vector { x: 0, y: 0, z: 0 }
    }
}

/// A two-component vector of single bit patterns.
#[derive(Debug, Clone, Copy, PartialEq, Eq, Hash, Structural)]
pub struct Vector2D {
    /// X component bits.
    pub x: u32,
    /// Y component bits.
    pub y: u32,
}

impl Vector2D {
    /// The vector with the given component bits.
    pub fn new(x: u32, y: u32) -> (r: Self)
        ensures
            r == (Vector2D { x, y }),
    {
        Vector2D { x, y }
    }
}

/// A four-component vector of single bit patterns.
#[derive(Debug, Clone, Copy, PartialEq, Eq, Hash, Structural)]
pub struct Vector4 {
    /// X component bits.
    pub x: u32,
    /// Y component bits.
    pub y: u32,
    /// Z component bits.
    pub z: u32,
    /// W component bits.
    pub w: u32,
}

impl Vector4 {
    /// The vector with the given component bits.
    pub fn new(x: u32, y: u32, z: u32, w: u32) -> (r: Self)
        ensures
            r == (Vector4 { x, y, z, w }),
    {
        Vector4 { x, y, z, w }
    }

    /// The zero vector.
    pub fn zero() -> (r: Self)
        ensures
            r == (Vector4 { x: 0, y: 0, z: 0, w: 0 }),
    {
        Vector4 { x: 0, y: 0, z: 0, w: 0 }
    }
}

/// A rotation given as pitch, yaw and roll, each an IEEE-754 single bit
/// pattern.
#[derive(Debug, Clone, Copy, PartialEq, Eq, Hash, Structural)]
pub struct Rotator {
    /// Pitch bits.
    pub pitch: u32,
    /// Yaw bits.
    pub yaw: u32,
    /// Roll bits.
    pub roll: u32,
}

impl Rotator {
    /// The rotation with the given component bits.
    pub fn new(pitch: u32, yaw: u32, roll: u32) -> (r: Self)
        ensures
            r == (Rotator { pitch, yaw, roll }),
    {
        Rotator { pitch, yaw, roll }
    }

    /// The zero rotation.
    pub fn zero() -> (r: Self)
        ensures
            r == (Rotator { pitch: 0, yaw: 0, roll: 0 }),
    {
        Rotator { pitch: 0, yaw: 0, roll: 0 }
    }
}

/// The bit pattern of the IEEE-754 single `1.0`.
pub const FLOAT_ONE_BITS: u32 = 0x3f80_0000;

/// A quaternion of single bit patterns.
#[derive(Debug, Clone, Copy, PartialEq, Eq, Hash, Structural)]
pub struct Quat {
    /// X component bits.
    pub x: u32,
    /// Y component bits.
    pub y: u32,
    /// Z component bits.
    pub z: u32,
    /// W component bits.
    pub w: u32,
}

impl Quat {
    /// The quaternion with the given component bits.
    pub fn new(x: u32, y: u32, z: u32, w: u32) -> (r: Self)
        ensures
            r == (Quat { x, y, z, w }),
    {
        Quat { x, y, z, w }
    }

    /// The identity rotation (`w` is `1.0`).
    pub fn identity() -> (r: Self)
        ensures
            r == (Quat { x: 0, y: 0, z: 0, w: FLOAT_ONE_BITS }),
    {
        Quat { x: 0, y: 0, z: 0, w: FLOAT_ONE_BITS }
    }
}

/// An RGBA color of single bit patterns.
#[derive(Debug, Clone, Copy, PartialEq, Eq, Hash, Structural)]
pub struct LinearColor {
    /// Red component bits.
    pub r: u32,
    /// Green component bits.
    pub g: u32,
    /// Blue component bits.
    pub b: u32,
    /// Alpha component bits.
    pub a: u32,
}

impl LinearColor {
    /// The color with the given component bits.
    pub fn new(r: u32, g: u32, b: u32, a: u32) -> (c: Self)
        ensures
            c == (LinearColor { r, g, b, a }),
    {
        LinearColor { r, g, b, a }
    }

    /// Opaque white.
    pub fn white() -> (c: Self)
        ensures
            c == (LinearColor {
                r: FLOAT_ONE_BITS,
                g: FLOAT_ONE_BITS,
                b: FLOAT_ONE_BITS,
                a: FLOAT_ONE_BITS,
            }),
    {
        LinearColor {
            r: FLOAT_ONE_BITS,
            g: FLOAT_ONE_BITS,
            b: FLOAT_ONE_BITS,
            a: FLOAT_ONE_BITS,
        }
    }

    /// Opaque black.
    pub fn black() -> (c: Self)
        ensures
            c == (LinearColor { r: 0, g: 0, b: 0, a: FLOAT_ONE_BITS }),
    {
        LinearColor { r: 0, g: 0, b: 0, a: FLOAT_ONE_BITS }
    }
}

/// A location, rotation and scale triple.
#[derive(Debug, Clone, Copy, PartialEq, Eq, Hash, Structural)]
pub struct Transform {
    /// The translation.
    pub location: Vector,
    /// The rotation.
    pub rotation: Quat,
    /// The scale.
    pub scale: Vector,
}

impl Transform {
    /// The transform with the given parts.
    pub fn new(location: Vector, rotation: Quat, scale: Vector) -> (r: Self)
        ensures
            r == (Transform { location, rotation, scale }),
    {
        Transform { location, rotation, scale }
    }

    /// The identity transform: zero translation, identity rotation, unit
    /// scale.
    pub fn identity() -> (r: Self)
        ensures
            r.location == (Vector { x: 0, y: 0, z: 0 }),
            r.rotation == (Quat { x: 0, y: 0, z: 0, w: FLOAT_ONE_BITS }),
            r.scale == (Vector { x: FLOAT_ONE_BITS, y: FLOAT_ONE_BITS, z: FLOAT_ONE_BITS }),
    {
        Transform {
            location: Vector::zero(),
            rotation: Quat::identity(),
            scale: Vector { x: FLOAT_ONE_BITS, y: FLOAT_ONE_BITS, z: FLOAT_ONE_BITS },
        }
    }
}

/// A reference to an asset by path rather than by package index.
#[derive(Debug, Clone, PartialEq, Eq, Hash)]
pub struct SoftObjectPath {
    /// The path of the referenced asset.
    pub asset_path: FName,
    /// The sub-object path inside the asset, empty when absent.
    pub sub_path: String,
}

impl SoftObjectPath {
    /// The path with the given asset path string and sub path.
    pub fn new(asset_path: &str, sub_path: &str) -> (r: Self)
        ensures
            r.asset_path.name@ == asset_path@,
            r.asset_path.number == 0,
            r.sub_path@ == sub_path@,
    {
        SoftObjectPath { asset_path: FName::new(asset_path), sub_path: sub_path.to_owned() }
    }

    /// True when both the asset path and the sub path are empty.
    pub fn is_null(&self) -> (r: bool)
        ensures
            r == (self.asset_path.name@.len() == 0 && self.sub_path@.len() == 0),
    {
        self.asset_path.name.as_str().is_empty() && self.sub_path.as_str().is_empty()
    }
}

} // verus!
