//! The typed property value model: one open tagged union over every
//! value kind the package format carries, with a guaranteed opaque
//! fallback for unrecognized payloads.
//!
//! Floating-point payloads are carried as IEEE-754 bit patterns (see
//! [`crate::types`]); nested property lists are insertion-ordered
//! name/value vectors.

use vstd::prelude::*;
use crate::types::{
    PackageIndex,
    FName,
    Guid,
    Vector,
    Vector2D,
    Vector4,
    Rotator,
    Quat,
    LinearColor,
    Transform,
    SoftObjectPath,
};

verus! {

broadcast use vstd::std_specs::vec::group_vec_axioms, vstd::seq::group_seq_axioms;

/// One typed value attached to an export.
///
/// The on-disk type-tag string of each variant is given by
/// [`Property::get_type`]; its binary layout lives in
/// [`crate::codec`]. `Unknown` carries the raw payload of a property
/// whose tag the decoder does not recognize: decoding never fails
/// merely because a tag is new.
#[derive(Debug, PartialEq)]
pub enum Property {
    /// A boolean.
    Bool(bool),
    /// A signed byte.
    Int8(i8),
    /// A signed 16-bit integer.
    Int16(i16),
    /// A signed 32-bit integer.
    Int32(i32),
    /// A signed 64-bit integer.
    Int64(i64),
    /// An unsigned byte.
    UInt8(u8),
    /// An unsigned 16-bit integer.
    UInt16(u16),
    /// An unsigned 32-bit integer.
    UInt32(u32),
    /// An unsigned 64-bit integer.
    UInt64(u64),
    /// A 32-bit float, as its bit pattern.
    Float(u32),
    /// A 64-bit float, as its bit pattern.
    Double(u64),
    /// A string.
    String(String),
    /// An engine name.
    Name(FName),
    /// Localized text with an optional namespace and key.
    Text {
        /// The text itself.
        text: String,
        /// The localization namespace, if any.
        namespace: Option<String>,
        /// The localization key, if any.
        key: Option<String>,
    },
    /// An object reference; `None` is the null reference.
    Object(Option<PackageIndex>),
    /// A nested, insertion-ordered property list under a struct type
    /// name.
    Struct {
        /// The struct type name.
        struct_type: FName,
        /// The nested properties, in insertion order.
        properties: Vec<PropertyEntry>,
    },
    /// An ordered list of values.
    Array(Vec<Property>),
    /// A keyed map with its key and value type tags.
    TMap {
        /// The key type tag.
        key_type: String,
        /// The value type tag.
        value_type: String,
        /// The entries, in insertion order.
        entries: Vec<MapEntry>,
    },
    /// A set of values.
    TSet(Vec<Property>),
    /// An enumeration value under its enumeration type.
    Enum {
        /// The enumeration type name.
        enum_type: FName,
        /// The chosen value.
        value: FName,
    },
    /// A byte-backed enumeration value.
    ByteEnum {
        /// The enumeration type name.
        enum_type: FName,
        /// The chosen value.
        value: FName,
    },
    /// A three-component vector.
    Vector(Vector),
    /// A two-component vector.
    Vector2D(Vector2D),
    /// A four-component vector.
    Vector4(Vector4),
    /// A rotation.
    Rotator(Rotator),
    /// A quaternion.
    Quat(Quat),
    /// A color.
    LinearColor(LinearColor),
    /// A transform.
    Transform(Transform),
    /// A 128-bit identifier.
    Guid(Guid),
    /// A point in time, in ticks.
    DateTime(i64),
    /// A duration, in ticks.
    TimeSpan(i64),
    /// A path-addressed object reference.
    SoftObjectPath(SoftObjectPath),
    /// A path-addressed class reference.
    SoftClassPath(SoftObjectPath),
    /// A path-addressed asset reference.
    AssetObjectProperty(SoftObjectPath),
    /// Per-platform booleans.
    PerPlatformBool(Vec<bool>),
    /// Per-platform integers.
    PerPlatformInt(Vec<i32>),
    /// Per-platform floats, as bit patterns.
    PerPlatformFloat(Vec<u32>),
    /// A bound function on an object.
    Delegate {
        /// The object the function is bound on.
        object: Option<PackageIndex>,
        /// The bound function's name.
        function_name: FName,
    },
    /// A list of bound functions.
    MulticastDelegate {
        /// The bound functions, each a `Delegate`.
        delegates: Vec<Property>,
    },
    /// A material reference.
    MaterialInterface(Option<PackageIndex>),
    /// A static-mesh reference.
    StaticMesh(Option<PackageIndex>),
    /// A skeletal-mesh reference.
    SkeletalMesh(Option<PackageIndex>),
    /// A texture reference.
    Texture2D(Option<PackageIndex>),
    /// A level-sequence reference.
    LevelSequence(Option<PackageIndex>),
    /// A component reference.
    ComponentReference(Option<PackageIndex>),
    /// A blueprint reference.
    Blueprint(Option<PackageIndex>),
    /// A world-context reference.
    WorldContext(Option<PackageIndex>),
    /// A landscape-component reference.
    LandscapeComponent(Option<PackageIndex>),
    /// The raw payload of an unrecognized property tag.
    Unknown(Vec<u8>),
}

/// One named entry of a nested property list.
#[derive(Debug, PartialEq)]
pub struct PropertyEntry {
    /// The property's name.
    pub name: String,
    /// The property itself.
    pub value: Property,
}

/// One key/value entry of a map property.
#[derive(Debug, PartialEq)]
pub struct MapEntry {
    /// The key.
    pub key: Property,
    /// The value.
    pub value: Property,
}

/// The on-disk type-tag string of a property.
pub open spec fn type_tag(p: Property) -> Seq<char> {
    match p {
        Property::Bool(_) => "BoolProperty"@,
        Property::Int8(_) => "Int8Property"@,
        Property::Int16(_) => "Int16Property"@,
        Property::Int32(_) => "IntProperty"@,
        Property::Int64(_) => "Int64Property"@,
        Property::UInt8(_) => "ByteProperty"@,
        Property::UInt16(_) => "UInt16Property"@,
        Property::UInt32(_) => "UInt32Property"@,
        Property::UInt64(_) => "UInt64Property"@,
        Property::Float(_) => "FloatProperty"@,
        Property::Double(_) => "DoubleProperty"@,
        Property::String(_) => "StrProperty"@,
        Property::Name(_) => "NameProperty"@,
        Property::Text { .. } => "TextProperty"@,
        Property::Object(_) => "ObjectProperty"@,
        Property::Struct { .. } => "StructProperty"@,
        Property::Array(_) => "ArrayProperty"@,
        Property::TMap { .. } => "MapProperty"@,
        Property::TSet(_) => "SetProperty"@,
        Property::Enum { .. } => "EnumProperty"@,
        Property::ByteEnum { .. } => "ByteProperty"@,
        Property::Vector(_) => "StructProperty"@,
        Property::Vector2D(_) => "StructProperty"@,
        Property::Vector4(_) => "StructProperty"@,
        Property::Rotator(_) => "StructProperty"@,
        Property::Quat(_) => "StructProperty"@,
        Property::LinearColor(_) => "StructProperty"@,
        Property::Transform(_) => "StructProperty"@,
        Property::Guid(_) => "StructProperty"@,
        Property::DateTime(_) => "StructProperty"@,
        Property::TimeSpan(_) => "StructProperty"@,
        Property::SoftObjectPath(_) => "SoftObjectProperty"@,
        Property::SoftClassPath(_) => "SoftClassProperty"@,
        Property::AssetObjectProperty(_) => "AssetObjectProperty"@,
        Property::PerPlatformBool(_) => "PerPlatformBoolProperty"@,
        Property::PerPlatformInt(_) => "PerPlatformIntProperty"@,
        Property::PerPlatformFloat(_) => "PerPlatformFloatProperty"@,
        Property::Delegate { .. } => "DelegateProperty"@,
        Property::MulticastDelegate { .. } => "MulticastDelegateProperty"@,
        Property::MaterialInterface(_) => "MaterialInterfaceProperty"@,
        Property::StaticMesh(_) => "StaticMeshProperty"@,
        Property::SkeletalMesh(_) => "SkeletalMeshProperty"@,
        Property::Texture2D(_) => "Texture2DProperty"@,
        Property::LevelSequence(_) => "LevelSequenceProperty"@,
        Property::ComponentReference(_) => "ComponentReferenceProperty"@,
        Property::Blueprint(_) => "BlueprintProperty"@,
        Property::WorldContext(_) => "WorldContextProperty"@,
        Property::LandscapeComponent(_) => "LandscapeComponentProperty"@,
        Property::Unknown(_) => "Unknown"@,
    }
}

/// The struct type name a fixed-layout variant is stored under, used
/// beside the `StructProperty` tag.
pub open spec fn struct_tag_name(p: &Property) -> Seq<char> {
    match p {
        Property::Vector(_) => "Vector"@,
        Property::Vector2D(_) => "Vector2D"@,
        Property::Vector4(_) => "Vector4"@,
        Property::Rotator(_) => "Rotator"@,
        Property::Quat(_) => "Quat"@,
        Property::LinearColor(_) => "LinearColor"@,
        Property::Transform(_) => "Transform"@,
        Property::Guid(_) => "Guid"@,
        Property::DateTime(_) => "DateTime"@,
        Property::TimeSpan(_) => "Timespan"@,
        _ => Seq::empty(),
    }
}

/// True when `s` is one of the struct type names the codec decodes with
/// a fixed layout.
pub open spec fn is_fixed_struct_name(s: Seq<char>) -> bool {
    ||| s == "Vector"@
    ||| s == "Vector2D"@
    ||| s == "Vector4"@
    ||| s == "Rotator"@
    ||| s == "Quat"@
    ||| s == "LinearColor"@
    ||| s == "Transform"@
    ||| s == "Guid"@
    ||| s == "DateTime"@
    ||| s == "Timespan"@
}

/// True when the tree under `p` holds no `Unknown` leaf: exactly then
/// the tree can be re-serialized to binary without replaying the raw
/// bytes it was read from.
pub open spec fn valid_for_binary(p: Property) -> bool
    decreases p,
{
    match p {
        Property::Unknown(_) => false,
        Property::Array(elements) => forall|i: int|
            0 <= i < elements@.len() ==> valid_for_binary(#[trigger] elements@[i]),
        Property::TSet(elements) => forall|i: int|
            0 <= i < elements@.len() ==> valid_for_binary(#[trigger] elements@[i]),
        Property::TMap { entries, .. } => forall|i: int|
            0 <= i < entries@.len() ==> valid_for_binary(#[trigger] entries@[i].key)
                && valid_for_binary(entries@[i].value),
        Property::Struct { properties, .. } => forall|i: int|
            0 <= i < properties@.len() ==> valid_for_binary(#[trigger] properties@[i].value),
        Property::MulticastDelegate { delegates } => forall|i: int|
            0 <= i < delegates@.len() ==> valid_for_binary(#[trigger] delegates@[i]),
        _ => true,
    }
}

impl Property {
    /// The on-disk type-tag string of this property.
    pub fn get_type(&self) -> (r: &'static str)
        ensures
            r@ == type_tag(*self),
    {
        match self {
            Property::Bool(_) => "BoolProperty",
            Property::Int8(_) => "Int8Property",
            Property::Int16(_) => "Int16Property",
            Property::Int32(_) => "IntProperty",
            Property::Int64(_) => "Int64Property",
            Property::UInt8(_) => "ByteProperty",
            Property::UInt16(_) => "UInt16Property",
            Property::UInt32(_) => "UInt32Property",
            Property::UInt64(_) => "UInt64Property",
            Property::Float(_) => "FloatProperty",
            Property::Double(_) => "DoubleProperty",
            Property::String(_) => "StrProperty",
            Property::Name(_) => "NameProperty",
            Property::Text { .. } => "TextProperty",
            Property::Object(_) => "ObjectProperty",
            Property::Struct { .. } => "StructProperty",
            Property::Array(_) => "ArrayProperty",
            Property::TMap { .. } => "MapProperty",
            Property::TSet(_) => "SetProperty",
            Property::Enum { .. } => "EnumProperty",
            Property::ByteEnum { .. } => "ByteProperty",
            Property::Vector(_) => "StructProperty",
            Property::Vector2D(_) => "StructProperty",
            Property::Vector4(_) => "StructProperty",
            Property::Rotator(_) => "StructProperty",
            Property::Quat(_) => "StructProperty",
            Property::LinearColor(_) => "StructProperty",
            Property::Transform(_) => "StructProperty",
            Property::Guid(_) => "StructProperty",
            Property::DateTime(_) => "StructProperty",
            Property::TimeSpan(_) => "StructProperty",
            Property::SoftObjectPath(_) => "SoftObjectProperty",
            Property::SoftClassPath(_) => "SoftClassProperty",
            Property::AssetObjectProperty(_) => "AssetObjectProperty",
            Property::PerPlatformBool(_) => "PerPlatformBoolProperty",
            Property::PerPlatformInt(_) => "PerPlatformIntProperty",
            Property::PerPlatformFloat(_) => "PerPlatformFloatProperty",
            Property::Delegate { .. } => "DelegateProperty",
            Property::MulticastDelegate { .. } => "MulticastDelegateProperty",
            Property::MaterialInterface(_) => "MaterialInterfaceProperty",
            Property::StaticMesh(_) => "StaticMeshProperty",
            Property::SkeletalMesh(_) => "SkeletalMeshProperty",
            Property::Texture2D(_) => "Texture2DProperty",
            Property::LevelSequence(_) => "LevelSequenceProperty",
            Property::ComponentReference(_) => "ComponentReferenceProperty",
            Property::Blueprint(_) => "BlueprintProperty",
            Property::WorldContext(_) => "WorldContextProperty",
            Property::LandscapeComponent(_) => "LandscapeComponentProperty",
            Property::Unknown(_) => "Unknown",
        }
    }

    /// True when this property's tag equals `tag_name`.
    pub fn is_type(&self, tag_name: &str) -> (r: bool)
        ensures
            r == (type_tag(*self) == tag_name@),
    {
        let tag = self.get_type();
        let owned = tag.to_owned();
        let sought = tag_name.to_owned();
        owned == sought
    }

    /// True when the tree under this property holds no `Unknown` leaf,
    /// so that it can be re-serialized to binary. Lists, sets, maps and
    /// nested structs propagate the check into their elements.
    pub fn validate_for_binary(&self) -> (r: bool)
        ensures
            r == valid_for_binary(*self),
        decreases self,
    {
        match self {
            Property::Unknown(_) => false,
            Property::Array(elements) => Self::validate_all(elements),
            Property::TSet(elements) => Self::validate_all(elements),
            Property::TMap { entries, .. } => Self::validate_entries(entries),
            Property::Struct { properties, .. } => Self::validate_named(properties),
            Property::MulticastDelegate { delegates } => Self::validate_all(delegates),
            _ => true,
        }
    }

    /// True when both halves of every map entry pass
    /// [`Property::validate_for_binary`].
    pub fn validate_entries(entries: &Vec<MapEntry>) -> (r: bool)
        ensures
            r == forall|i: int|
                0 <= i < entries@.len() ==> valid_for_binary(#[trigger] entries@[i].key)
                    && valid_for_binary(entries@[i].value),
        decreases entries,
    {
        let n = entries.len();
        let mut i: usize = 0;
        let mut ok = true;
        while i < n
            invariant
                n == entries@.len(),
                i <= n,
                ok == forall|j: int|
                    0 <= j < i ==> valid_for_binary(#[trigger] entries@[j].key)
                        && valid_for_binary(entries@[j].value),
            decreases n - i,
        {
            let pair_ok = entries[i].key.validate_for_binary() && entries[
                i
            ].value.validate_for_binary();
            ok = ok && pair_ok;
            i += 1;
        }
        ok
    }

    /// True when the value of every named entry passes
    /// [`Property::validate_for_binary`].
    pub fn validate_named(properties: &Vec<PropertyEntry>) -> (r: bool)
        ensures
            r == forall|i: int|
                0 <= i < properties@.len() ==> valid_for_binary(
                    #[trigger] properties@[i].value,
                ),
        decreases properties,
    {
        let n = properties.len();
        let mut i: usize = 0;
        let mut ok = true;
        while i < n
            invariant
                n == properties@.len(),
                i <= n,
                ok == forall|j: int|
                    0 <= j < i ==> valid_for_binary(#[trigger] properties@[j].value),
            decreases n - i,
        {
            let e_ok = properties[i].value.validate_for_binary();
            ok = ok && e_ok;
            i += 1;
        }
        ok
    }

    /// True when every property in the list passes
    /// [`Property::validate_for_binary`].
    pub fn validate_all(elements: &Vec<Property>) -> (r: bool)
        ensures
            r == forall|i: int|
                0 <= i < elements@.len() ==> valid_for_binary(#[trigger] elements@[i]),
        decreases elements,
    {
        let n = elements.len();
        let mut i: usize = 0;
        let mut ok = true;
        while i < n
            invariant
                n == elements@.len(),
                i <= n,
                ok == forall|j: int| 0 <= j < i ==> valid_for_binary(#[trigger] elements@[j]),
            decreases n - i,
        {
            let e_ok = elements[i].validate_for_binary();
            ok = ok && e_ok;
            i += 1;
        }
        ok
    }
}

/// True when every string in every value of the list fits the string
/// layout's length prefix.
pub open spec fn fits_fstr_all(entries: Seq<PropertyEntry>) -> bool {
    forall|i: int| 0 <= i < entries.len() ==> crate::codec::fits_fstr((#[trigger] entries[i]).value)
}

/// Checks [`fits_fstr_all`] on a property list.
pub fn fits_entries_check(properties: &Vec<PropertyEntry>) -> (r: bool)
    ensures
        r == fits_fstr_all(properties@),
    decreases properties,
{
    let n = properties.len();
    let mut i: usize = 0;
    let mut ok = true;
    while i < n
        invariant
            n == properties@.len(),
            i <= n,
            ok == forall|j: int|
                0 <= j < i ==> crate::codec::fits_fstr((#[trigger] properties@[j]).value),
        decreases n - i,
    {
        let e_ok = properties[i].value.fits_string_limits();
        ok = ok && e_ok;
        i += 1;
    }
    ok
}

/// The first index in the property list holding an entry with the
/// given name, or `-1`.
pub open spec fn entry_index_of(entries: Seq<PropertyEntry>, name: Seq<char>) -> int
    decreases entries.len(),
{
    if entries.len() == 0 {
        -1
    } else if entries[0].name@ == name {
        0
    } else {
        let r = entry_index_of(entries.drop_first(), name);
        if r >= 0 {
            r + 1
        } else {
            -1
        }
    }
}

/// `entry_index_of` finds an entry exactly when one exists, and then
/// the first one.
pub proof fn lemma_entry_index_of(entries: Seq<PropertyEntry>, name: Seq<char>)
    ensures
        entry_index_of(entries, name) >= 0 ==> entry_index_of(entries, name) < entries.len()
            && entries[entry_index_of(entries, name)].name@ == name,
        entry_index_of(entries, name) == -1 ==> forall|i: int|
            0 <= i < entries.len() ==> (#[trigger] entries[i]).name@ != name,
        entry_index_of(entries, name) >= 0 || entry_index_of(entries, name) == -1,
    decreases entries.len(),
{
    if entries.len() > 0 {
        lemma_entry_index_of(entries.drop_first(), name);
        if entries[0].name@ != name && entry_index_of(entries.drop_first(), name) == -1 {
            assert forall|i: int| 0 <= i < entries.len() implies (#[trigger] entries[i]).name@
                != name by {
                if i > 0 {
                    assert(entries[i] == entries.drop_first()[i - 1]);
                }
            }
        }
    }
}

/// When an entry with the sought name stands at `i` and none does
/// before it, `entry_index_of` returns `i`.
pub proof fn lemma_entry_index_of_found(entries: Seq<PropertyEntry>, name: Seq<char>, i: int)
    requires
        0 <= i < entries.len(),
        entries[i].name@ == name,
        forall|j: int| 0 <= j < i ==> (#[trigger] entries[j]).name@ != name,
    ensures
        entry_index_of(entries, name) == i,
    decreases entries.len(),
{
    if i > 0 {
        lemma_entry_index_of_found(entries.drop_first(), name, i - 1);
    }
}

/// Looks a property up by name in an insertion-ordered property list:
/// the first entry with that name, if any.
pub fn find_property<'a>(properties: &'a Vec<PropertyEntry>, name: &str) -> (r: Option<
    &'a Property,
>)
    ensures
        r matches Some(p) ==> exists|i: int|
            0 <= i < properties@.len() && properties@[i].name@ == name@ && *p == properties@[
                i
            ].value,
        r is None ==> forall|i: int| 0 <= i < properties@.len() ==> properties@[i].name@ != name@,
{
    let sought = name.to_owned();
    let n = properties.len();
    let mut i: usize = 0;
    while i < n
        invariant
            n == properties@.len(),
            i <= n,
            sought@ == name@,
            forall|j: int| 0 <= j < i ==> properties@[j].name@ != name@,
        decreases n - i,
    {
        if properties[i].name == sought {
            return Some(&properties[i].value);
        }
        i += 1;
    }
    None
}

/// Inserts a property into an insertion-ordered property list: the
/// first entry with the same name is replaced, else one is appended;
/// every other entry is unchanged.
pub fn insert_property(properties: &mut Vec<PropertyEntry>, name: &str, value: Property)
    ensures
        entry_index_of(old(properties)@, name@) >= 0 ==> final(properties)@.len() == old(properties)@.len() && final(properties)@[entry_index_of(old(properties)@, name@)].name@ == name@
            && final(properties)@[entry_index_of(old(properties)@, name@)].value == value && (
        forall|k: int|
            0 <= k < old(properties)@.len() && k != entry_index_of(old(properties)@, name@)
                ==> final(properties)@[k] == old(properties)@[k]),
        entry_index_of(old(properties)@, name@) == -1 ==> final(properties)@.len() == old(properties)@.len() + 1 && final(properties)@.last().name@ == name@ && final(properties)@.last().value == value && (forall|k: int|
            0 <= k < old(properties)@.len() ==> final(properties)@[k] == old(properties)@[k]),
{
    proof {
        lemma_entry_index_of(properties@, name@);
    }
    let sought = name.to_owned();
    let n = properties.len();
    let mut i: usize = 0;
    while i < n
        invariant
            n == properties@.len(),
            i <= n,
            sought@ == name@,
            properties@ == old(properties)@,
            forall|j: int| 0 <= j < i ==> (#[trigger] properties@[j]).name@ != name@,
        decreases n - i,
    {
        if properties[i].name == sought {
            proof {
                lemma_entry_index_of_found(properties@, name@, i as int);
            }
            properties.set(i, PropertyEntry { name: sought, value });
            return ;
        }
        i += 1;
    }
    properties.push(PropertyEntry { name: sought, value });
}

} // verus!
