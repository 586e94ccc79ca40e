//! The binary property codec.
//!
//! A property is stored as an *element*: its type-tag string, the byte
//! size of its payload, and the payload. An export's properties are
//! stored as a *stream*: name, element, name, element, ..., closed by
//! the name `None`. Property and stream names are name-table indices;
//! strings inside payloads are stored inline.
//!
//! The layout is specified over a mathematical model of the property
//! tree ([`PropModel`], the deep view of [`Property`]): `enc_*` gives
//! the exact bytes of a value, `dec_*` the exact parse of a byte
//! sequence. The executable encoder and decoder in this module are
//! proved to match those functions bit for bit;
//! [`lemma_dec_enc_fixed_struct`] and [`lemma_dec_enc_guid_struct`]
//! prove the round trip of the fixed-layout payloads, and
//! [`crate::archive::lemma_dec_fstr_roundtrip`] that of the inline
//! strings.
//!
//! The element frame is name reference, tag, one 64-bit payload size,
//! payload. It deliberately has no second bookkeeping word after the
//! size: the size field always equals the payload length that follows,
//! so the frame is self-describing, and the reader checks nothing
//! else.

use vstd::prelude::*;
use crate::archive::{
    u16_le_bytes,
    u32_le_bytes,
    u64_le_bytes,
    enc_fstr,
    enc_guid,
    dec_u8,
    dec_u16,
    dec_u32,
    dec_u64,
    dec_i32,
    dec_i64,
    dec_guid,
    dec_fstr,
    fstr_len_ok,
    BinaryArchive,
    BinaryArchiveWriter,
};
use crate::property::{
    Property,
    PropertyEntry,
    MapEntry,
    type_tag,
    is_fixed_struct_name,
    valid_for_binary,
};
use crate::types::{
    PackageIndex,
    FName,
    Guid,
    Vector,
    Vector2D,
    Vector4,
    Rotator,
    Quat,
    LinearColor,
    Transform,
    SoftObjectPath,
};
use crate::names::name_index_of;
use crate::archive::lemma_dec_fstr_roundtrip;
use crate::names::OptimizedNameMap;
use crate::error::Error;

verus! {

broadcast use vstd::std_specs::vec::group_vec_axioms, vstd::seq::group_seq_axioms;

// ------------------------------------------------------------------
// The mathematical model of the property tree
// ------------------------------------------------------------------

/// The model of an engine name: the string and its suffix.
pub struct FNameModel {
    /// The string.
    pub name: Seq<char>,
    /// The suffix.
    pub number: u32,
}

/// The model of a path-addressed reference.
pub struct SoftPathModel {
    /// The asset path.
    pub asset_path: FNameModel,
    /// The sub-object path.
    pub sub_path: Seq<char>,
}

/// The model of one named entry of a nested property list.
pub struct PropEntryModel {
    /// The entry's name.
    pub name: Seq<char>,
    /// The entry's value.
    pub value: PropModel,
}

/// The model of one key/value entry of a map property.
pub struct MapEntryModel {
    /// The key.
    pub key: PropModel,
    /// The value.
    pub value: PropModel,
}

/// The mathematical model of a property: [`Property`] with every
/// vector read as a sequence and every string as its characters.
pub enum PropModel {
    /// A boolean.
    Bool(bool),
    /// A signed byte.
    Int8(i8),
    /// A signed 16-bit integer.
    Int16(i16),
    /// A signed 32-bit integer.
    Int32(i32),
    /// A signed 64-bit integer.
    Int64(i64),
    /// An unsigned byte.
    UInt8(u8),
    /// An unsigned 16-bit integer.
    UInt16(u16),
    /// An unsigned 32-bit integer.
    UInt32(u32),
    /// An unsigned 64-bit integer.
    UInt64(u64),
    /// A 32-bit float's bits.
    Float(u32),
    /// A 64-bit float's bits.
    Double(u64),
    /// A string.
    String(Seq<char>),
    /// An engine name.
    Name(FNameModel),
    /// Localized text.
    Text {
        /// The text itself.
        text: Seq<char>,
        /// The namespace, if any.
        namespace: Option<Seq<char>>,
        /// The key, if any.
        key: Option<Seq<char>>,
    },
    /// An object reference.
    Object(Option<PackageIndex>),
    /// A nested property list.
    Struct {
        /// The struct type name.
        struct_type: FNameModel,
        /// The nested entries.
        properties: Seq<PropEntryModel>,
    },
    /// A list of values.
    Array(Seq<PropModel>),
    /// A keyed map.
    TMap {
        /// The key type tag.
        key_type: Seq<char>,
        /// The value type tag.
        value_type: Seq<char>,
        /// The entries.
        entries: Seq<MapEntryModel>,
    },
    /// A set of values.
    TSet(Seq<PropModel>),
    /// An enumeration value.
    Enum {
        /// The enumeration type.
        enum_type: FNameModel,
        /// The chosen value.
        value: FNameModel,
    },
    /// A byte-backed enumeration value.
    ByteEnum {
        /// The enumeration type.
        enum_type: FNameModel,
        /// The chosen value.
        value: FNameModel,
    },
    /// A three-component vector.
    Vector(Vector),
    /// A two-component vector.
    Vector2D(Vector2D),
    /// A four-component vector.
    Vector4(Vector4),
    /// A rotation.
    Rotator(Rotator),
    /// A quaternion.
    Quat(Quat),
    /// A color.
    LinearColor(LinearColor),
    /// A transform.
    Transform(Transform),
    /// A 128-bit identifier.
    Guid(Guid),
    /// A point in time, in ticks.
    DateTime(i64),
    /// A duration, in ticks.
    TimeSpan(i64),
    /// A path-addressed object reference.
    SoftObjectPath(SoftPathModel),
    /// A path-addressed class reference.
    SoftClassPath(SoftPathModel),
    /// A path-addressed asset reference.
    AssetObjectProperty(SoftPathModel),
    /// Per-platform booleans.
    PerPlatformBool(Seq<bool>),
    /// Per-platform integers.
    PerPlatformInt(Seq<i32>),
    /// Per-platform float bits.
    PerPlatformFloat(Seq<u32>),
    /// A bound function.
    Delegate {
        /// The object bound on.
        object: Option<PackageIndex>,
        /// The function name.
        function_name: FNameModel,
    },
    /// A list of bound functions.
    MulticastDelegate(Seq<PropModel>),
    /// A material reference.
    MaterialInterface(Option<PackageIndex>),
    /// A static-mesh reference.
    StaticMesh(Option<PackageIndex>),
    /// A skeletal-mesh reference.
    SkeletalMesh(Option<PackageIndex>),
    /// A texture reference.
    Texture2D(Option<PackageIndex>),
    /// A level-sequence reference.
    LevelSequence(Option<PackageIndex>),
    /// A component reference.
    ComponentReference(Option<PackageIndex>),
    /// A blueprint reference.
    Blueprint(Option<PackageIndex>),
    /// A world-context reference.
    WorldContext(Option<PackageIndex>),
    /// A landscape-component reference.
    LandscapeComponent(Option<PackageIndex>),
    /// The raw payload of an unrecognized tag.
    Unknown(Seq<u8>),
}

/// The model of an engine name value.
pub open spec fn fname_view(f: FName) -> FNameModel {
    FNameModel { name: f.name@, number: f.number }
}

/// The model of a path-addressed reference value.
pub open spec fn soft_path_view(sp: SoftObjectPath) -> SoftPathModel {
    SoftPathModel { asset_path: fname_view(sp.asset_path), sub_path: sp.sub_path@ }
}

/// The model of a property value: its deep view.
pub open spec fn prop_view(p: Property) -> PropModel
    decreases p,
{
    match p {
        Property::Bool(v) => PropModel::Bool(v),
        Property::Int8(v) => PropModel::Int8(v),
        Property::Int16(v) => PropModel::Int16(v),
        Property::Int32(v) => PropModel::Int32(v),
        Property::Int64(v) => PropModel::Int64(v),
        Property::UInt8(v) => PropModel::UInt8(v),
        Property::UInt16(v) => PropModel::UInt16(v),
        Property::UInt32(v) => PropModel::UInt32(v),
        Property::UInt64(v) => PropModel::UInt64(v),
        Property::Float(v) => PropModel::Float(v),
        Property::Double(v) => PropModel::Double(v),
        Property::String(s) => PropModel::String(s@),
        Property::Name(f) => PropModel::Name(fname_view(f)),
        Property::Text { text, namespace, key } => PropModel::Text {
            text: text@,
            namespace: match namespace {
                Option::None => Option::None,
                Option::Some(s) => Option::Some(s@),
            },
            key: match key {
                Option::None => Option::None,
                Option::Some(s) => Option::Some(s@),
            },
        },
        Property::Object(o) => PropModel::Object(o),
        Property::Struct { struct_type, properties } => PropModel::Struct {
            struct_type: fname_view(struct_type),
            properties: prop_entry_views(properties@),
        },
        Property::Array(es) => PropModel::Array(prop_views(es@)),
        Property::TMap { key_type, value_type, entries } => PropModel::TMap {
            key_type: key_type@,
            value_type: value_type@,
            entries: map_entry_views(entries@),
        },
        Property::TSet(es) => PropModel::TSet(prop_views(es@)),
        Property::Enum { enum_type, value } => PropModel::Enum {
            enum_type: fname_view(enum_type),
            value: fname_view(value),
        },
        Property::ByteEnum { enum_type, value } => PropModel::ByteEnum {
            enum_type: fname_view(enum_type),
            value: fname_view(value),
        },
        Property::Vector(v) => PropModel::Vector(v),
        Property::Vector2D(v) => PropModel::Vector2D(v),
        Property::Vector4(v) => PropModel::Vector4(v),
        Property::Rotator(v) => PropModel::Rotator(v),
        Property::Quat(v) => PropModel::Quat(v),
        Property::LinearColor(v) => PropModel::LinearColor(v),
        Property::Transform(v) => PropModel::Transform(v),
        Property::Guid(g) => PropModel::Guid(g),
        Property::DateTime(v) => PropModel::DateTime(v),
        Property::TimeSpan(v) => PropModel::TimeSpan(v),
        Property::SoftObjectPath(sp) => PropModel::SoftObjectPath(soft_path_view(sp)),
        Property::SoftClassPath(sp) => PropModel::SoftClassPath(soft_path_view(sp)),
        Property::AssetObjectProperty(sp) => PropModel::AssetObjectProperty(soft_path_view(sp)),
        Property::PerPlatformBool(vs) => PropModel::PerPlatformBool(vs@),
        Property::PerPlatformInt(vs) => PropModel::PerPlatformInt(vs@),
        Property::PerPlatformFloat(vs) => PropModel::PerPlatformFloat(vs@),
        Property::Delegate { object, function_name } => PropModel::Delegate {
            object,
            function_name: fname_view(function_name),
        },
        Property::MulticastDelegate { delegates } => PropModel::MulticastDelegate(
            prop_views(delegates@),
        ),
        Property::MaterialInterface(o) => PropModel::MaterialInterface(o),
        Property::StaticMesh(o) => PropModel::StaticMesh(o),
        Property::SkeletalMesh(o) => PropModel::SkeletalMesh(o),
        Property::Texture2D(o) => PropModel::Texture2D(o),
        Property::LevelSequence(o) => PropModel::LevelSequence(o),
        Property::ComponentReference(o) => PropModel::ComponentReference(o),
        Property::Blueprint(o) => PropModel::Blueprint(o),
        Property::WorldContext(o) => PropModel::WorldContext(o),
        Property::LandscapeComponent(o) => PropModel::LandscapeComponent(o),
        Property::Unknown(bytes) => PropModel::Unknown(bytes@),
    }
}

/// The models of a list of properties.
pub open spec fn prop_views(s: Seq<Property>) -> Seq<PropModel>
    decreases s,
{
    if s.len() == 0 {
        Seq::empty()
    } else {
        seq![prop_view(s[0])] + prop_views(s.drop_first())
    }
}

/// The models of a list of map entries.
pub open spec fn map_entry_views(s: Seq<MapEntry>) -> Seq<MapEntryModel>
    decreases s,
{
    if s.len() == 0 {
        Seq::empty()
    } else {
        seq![MapEntryModel { key: prop_view(s[0].key), value: prop_view(s[0].value) }]
            + map_entry_views(s.drop_first())
    }
}

/// The models of a property list's entries.
pub open spec fn prop_entry_views(s: Seq<PropertyEntry>) -> Seq<PropEntryModel>
    decreases s,
{
    if s.len() == 0 {
        Seq::empty()
    } else {
        seq![PropEntryModel { name: s[0].name@, value: prop_view(s[0].value) }]
            + prop_entry_views(s.drop_first())
    }
}

/// The list views have the list's length and take views pointwise.
pub proof fn lemma_prop_views(s: Seq<Property>)
    ensures
        prop_views(s).len() == s.len(),
        forall|i: int| 0 <= i < s.len() ==> prop_views(s)[i] == prop_view(#[trigger] s[i]),
    decreases s.len(),
{
    if s.len() > 0 {
        lemma_prop_views(s.drop_first());
        assert forall|i: int| 0 <= i < s.len() implies prop_views(s)[i] == prop_view(
            #[trigger] s[i],
        ) by {
            if i > 0 {
                assert(s.drop_first()[i - 1] == s[i]);
            }
        }
    }
}

/// The map-entry views have the list's length and take views pointwise.
pub proof fn lemma_map_entry_views(s: Seq<MapEntry>)
    ensures
        map_entry_views(s).len() == s.len(),
        forall|i: int|
            0 <= i < s.len() ==> map_entry_views(s)[i] == (MapEntryModel {
                key: prop_view(#[trigger] s[i].key),
                value: prop_view(s[i].value),
            }),
    decreases s.len(),
{
    if s.len() > 0 {
        lemma_map_entry_views(s.drop_first());
        assert forall|i: int|
            0 <= i < s.len() implies map_entry_views(s)[i] == (MapEntryModel {
                key: prop_view(#[trigger] s[i].key),
                value: prop_view(s[i].value),
            }) by {
            if i > 0 {
                assert(s.drop_first()[i - 1] == s[i]);
            }
        }
    }
}

/// The named-entry views have the list's length and take views
/// pointwise.
pub proof fn lemma_prop_entry_views(s: Seq<PropertyEntry>)
    ensures
        prop_entry_views(s).len() == s.len(),
        forall|i: int|
            0 <= i < s.len() ==> prop_entry_views(s)[i] == (PropEntryModel {
                name: (#[trigger] s[i]).name@,
                value: prop_view(s[i].value),
            }),
    decreases s.len(),
{
    if s.len() > 0 {
        lemma_prop_entry_views(s.drop_first());
        assert forall|i: int|
            0 <= i < s.len() implies prop_entry_views(s)[i] == (PropEntryModel {
                name: (#[trigger] s[i]).name@,
                value: prop_view(s[i].value),
            }) by {
            if i > 0 {
                assert(s.drop_first()[i - 1] == s[i]);
            }
        }
    }
}

/// The on-disk type-tag string of a model value; agrees with
/// [`crate::property::type_tag`] through the view.
pub open spec fn tag_of(m: PropModel) -> Seq<char> {
    match m {
        PropModel::Bool(_) => "BoolProperty"@,
        PropModel::Int8(_) => "Int8Property"@,
        PropModel::Int16(_) => "Int16Property"@,
        PropModel::Int32(_) => "IntProperty"@,
        PropModel::Int64(_) => "Int64Property"@,
        PropModel::UInt8(_) => "ByteProperty"@,
        PropModel::UInt16(_) => "UInt16Property"@,
        PropModel::UInt32(_) => "UInt32Property"@,
        PropModel::UInt64(_) => "UInt64Property"@,
        PropModel::Float(_) => "FloatProperty"@,
        PropModel::Double(_) => "DoubleProperty"@,
        PropModel::String(_) => "StrProperty"@,
        PropModel::Name(_) => "NameProperty"@,
        PropModel::Text { .. } => "TextProperty"@,
        PropModel::Object(_) => "ObjectProperty"@,
        PropModel::Struct { .. } => "StructProperty"@,
        PropModel::Array(_) => "ArrayProperty"@,
        PropModel::TMap { .. } => "MapProperty"@,
        PropModel::TSet(_) => "SetProperty"@,
        PropModel::Enum { .. } => "EnumProperty"@,
        PropModel::ByteEnum { .. } => "ByteProperty"@,
        PropModel::Vector(_) => "StructProperty"@,
        PropModel::Vector2D(_) => "StructProperty"@,
        PropModel::Vector4(_) => "StructProperty"@,
        PropModel::Rotator(_) => "StructProperty"@,
        PropModel::Quat(_) => "StructProperty"@,
        PropModel::LinearColor(_) => "StructProperty"@,
        PropModel::Transform(_) => "StructProperty"@,
        PropModel::Guid(_) => "StructProperty"@,
        PropModel::DateTime(_) => "StructProperty"@,
        PropModel::TimeSpan(_) => "StructProperty"@,
        PropModel::SoftObjectPath(_) => "SoftObjectProperty"@,
        PropModel::SoftClassPath(_) => "SoftClassProperty"@,
        PropModel::AssetObjectProperty(_) => "AssetObjectProperty"@,
        PropModel::PerPlatformBool(_) => "PerPlatformBoolProperty"@,
        PropModel::PerPlatformInt(_) => "PerPlatformIntProperty"@,
        PropModel::PerPlatformFloat(_) => "PerPlatformFloatProperty"@,
        PropModel::Delegate { .. } => "DelegateProperty"@,
        PropModel::MulticastDelegate(_) => "MulticastDelegateProperty"@,
        PropModel::MaterialInterface(_) => "MaterialInterfaceProperty"@,
        PropModel::StaticMesh(_) => "StaticMeshProperty"@,
        PropModel::SkeletalMesh(_) => "SkeletalMeshProperty"@,
        PropModel::Texture2D(_) => "Texture2DProperty"@,
        PropModel::LevelSequence(_) => "LevelSequenceProperty"@,
        PropModel::ComponentReference(_) => "ComponentReferenceProperty"@,
        PropModel::Blueprint(_) => "BlueprintProperty"@,
        PropModel::WorldContext(_) => "WorldContextProperty"@,
        PropModel::LandscapeComponent(_) => "LandscapeComponentProperty"@,
        PropModel::Unknown(_) => "Unknown"@,
    }
}

/// The stored bits of an optional object reference: zero for the null
/// reference.
pub open spec fn opt_index_bits(o: Option<PackageIndex>) -> u32 {
    match o {
        Option::None => 0,
        Option::Some(p) => p.0 as u32,
    }
}

/// The layout of an optional inline string: a presence byte, then the
/// string when present.
pub open spec fn enc_opt_fstr(o: Option<Seq<char>>) -> Seq<u8> {
    match o {
        Option::None => seq![0u8],
        Option::Some(s) => seq![1u8] + enc_fstr(s),
    }
}

/// The layout of a name reference: the table index of the string and
/// the numeric suffix, each 32 bits. An absent string stores index -1,
/// which no parse accepts.
pub open spec fn enc_fname(t: Seq<Seq<char>>, name: Seq<char>, number: u32) -> Seq<u8> {
    u32_le_bytes((name_index_of(t, name) as i32) as u32) + u32_le_bytes(number)
}

/// The little-endian layout of a run of 32-bit values.
pub open spec fn enc_u32s(vs: Seq<u32>) -> Seq<u8>
    decreases vs.len(),
{
    if vs.len() == 0 {
        Seq::empty()
    } else {
        u32_le_bytes(vs[0]) + enc_u32s(vs.drop_first())
    }
}

/// The layout of a run of presence bytes.
pub open spec fn enc_bools(vs: Seq<bool>) -> Seq<u8> {
    Seq::new(vs.len(), |i: int| if vs[i] { 1u8 } else { 0u8 })
}

/// The payload layout of a property, without its tag and size fields.
/// Fixed-layout struct kinds carry their struct type name and suffix
/// first; a generic `Struct` carries its type name and then its nested
/// stream.
pub open spec fn enc_payload(m: PropModel, t: Seq<Seq<char>>) -> Seq<u8>
    decreases m, 0int, 0int,
{
    match m {
        PropModel::Bool(v) => seq![if v { 1u8 } else { 0u8 }],
        PropModel::Int8(v) => seq![v as u8],
        PropModel::Int16(v) => u16_le_bytes(v as u16),
        PropModel::Int32(v) => u32_le_bytes(v as u32),
        PropModel::Int64(v) => u64_le_bytes(v as u64),
        PropModel::UInt8(v) => seq![v],
        PropModel::UInt16(v) => u16_le_bytes(v),
        PropModel::UInt32(v) => u32_le_bytes(v),
        PropModel::UInt64(v) => u64_le_bytes(v),
        PropModel::Float(bits) => u32_le_bytes(bits),
        PropModel::Double(bits) => u64_le_bytes(bits),
        PropModel::String(s) => enc_fstr(s),
        PropModel::Name(f) => enc_fname(t, f.name, f.number),
        PropModel::Text { text, namespace, key } => enc_fstr(text) + enc_opt_fstr(namespace)
            + enc_opt_fstr(key),
        PropModel::Object(o) => u32_le_bytes(opt_index_bits(o)),
        PropModel::Struct { struct_type, properties } => enc_fstr(struct_type.name)
            + u32_le_bytes(struct_type.number) + enc_stream(properties, 0, t),
        PropModel::Array(elements) => u32_le_bytes(elements.len() as u32) + enc_elements(
            elements,
            0,
            t,
        ),
        PropModel::TMap { key_type, value_type, entries } => enc_fstr(key_type) + enc_fstr(
            value_type,
        ) + u32_le_bytes(entries.len() as u32) + enc_entries(entries, 0, t),
        PropModel::TSet(elements) => u32_le_bytes(elements.len() as u32) + enc_elements(
            elements,
            0,
            t,
        ),
        PropModel::Enum { enum_type, value } => enc_fstr(enum_type.name) + u32_le_bytes(
            enum_type.number,
        ) + enc_fstr(value.name) + u32_le_bytes(value.number),
        PropModel::ByteEnum { enum_type, value } => enc_fstr(enum_type.name) + u32_le_bytes(
            enum_type.number,
        ) + enc_fstr(value.name) + u32_le_bytes(value.number),
        PropModel::Vector(v) => enc_fstr("Vector"@) + u32_le_bytes(0) + u32_le_bytes(v.x)
            + u32_le_bytes(v.y) + u32_le_bytes(v.z),
        PropModel::Vector2D(v) => enc_fstr("Vector2D"@) + u32_le_bytes(0) + u32_le_bytes(v.x)
            + u32_le_bytes(v.y),
        PropModel::Vector4(v) => enc_fstr("Vector4"@) + u32_le_bytes(0) + u32_le_bytes(v.x)
            + u32_le_bytes(v.y) + u32_le_bytes(v.z) + u32_le_bytes(v.w),
        PropModel::Rotator(v) => enc_fstr("Rotator"@) + u32_le_bytes(0) + u32_le_bytes(v.pitch)
            + u32_le_bytes(v.yaw) + u32_le_bytes(v.roll),
        PropModel::Quat(v) => enc_fstr("Quat"@) + u32_le_bytes(0) + u32_le_bytes(v.x)
            + u32_le_bytes(v.y) + u32_le_bytes(v.z) + u32_le_bytes(v.w),
        PropModel::LinearColor(v) => enc_fstr("LinearColor"@) + u32_le_bytes(0) + u32_le_bytes(
            v.r,
        ) + u32_le_bytes(v.g) + u32_le_bytes(v.b) + u32_le_bytes(v.a),
        PropModel::Transform(v) => enc_fstr("Transform"@) + u32_le_bytes(0) + u32_le_bytes(
            v.location.x,
        ) + u32_le_bytes(v.location.y) + u32_le_bytes(v.location.z) + u32_le_bytes(v.rotation.x)
            + u32_le_bytes(v.rotation.y) + u32_le_bytes(v.rotation.z) + u32_le_bytes(v.rotation.w)
            + u32_le_bytes(v.scale.x) + u32_le_bytes(v.scale.y) + u32_le_bytes(v.scale.z),
        PropModel::Guid(g) => enc_fstr("Guid"@) + u32_le_bytes(0) + enc_guid(g),
        PropModel::DateTime(ticks) => enc_fstr("DateTime"@) + u32_le_bytes(0) + u64_le_bytes(
            ticks as u64,
        ),
        PropModel::TimeSpan(ticks) => enc_fstr("Timespan"@) + u32_le_bytes(0) + u64_le_bytes(
            ticks as u64,
        ),
        PropModel::SoftObjectPath(sp) => enc_fstr(sp.asset_path.name) + u32_le_bytes(
            sp.asset_path.number,
        ) + enc_fstr(sp.sub_path),
        PropModel::SoftClassPath(sp) => enc_fstr(sp.asset_path.name) + u32_le_bytes(
            sp.asset_path.number,
        ) + enc_fstr(sp.sub_path),
        PropModel::AssetObjectProperty(sp) => enc_fstr(sp.asset_path.name) + u32_le_bytes(
            sp.asset_path.number,
        ) + enc_fstr(sp.sub_path),
        PropModel::PerPlatformBool(vs) => u32_le_bytes(vs.len() as u32) + enc_bools(vs),
        PropModel::PerPlatformInt(vs) => u32_le_bytes(vs.len() as u32) + enc_u32s(
            Seq::new(vs.len(), |i: int| vs[i] as u32),
        ),
        PropModel::PerPlatformFloat(vs) => u32_le_bytes(vs.len() as u32) + enc_u32s(vs),
        PropModel::Delegate { object, function_name } => u32_le_bytes(opt_index_bits(object))
            + enc_fstr(function_name.name) + u32_le_bytes(function_name.number),
        PropModel::MulticastDelegate(ds) => u32_le_bytes(ds.len() as u32) + enc_elements(ds, 0, t),
        PropModel::MaterialInterface(o) => u32_le_bytes(opt_index_bits(o)),
        PropModel::StaticMesh(o) => u32_le_bytes(opt_index_bits(o)),
        PropModel::SkeletalMesh(o) => u32_le_bytes(opt_index_bits(o)),
        PropModel::Texture2D(o) => u32_le_bytes(opt_index_bits(o)),
        PropModel::LevelSequence(o) => u32_le_bytes(opt_index_bits(o)),
        PropModel::ComponentReference(o) => u32_le_bytes(opt_index_bits(o)),
        PropModel::Blueprint(o) => u32_le_bytes(opt_index_bits(o)),
        PropModel::WorldContext(o) => u32_le_bytes(opt_index_bits(o)),
        PropModel::LandscapeComponent(o) => u32_le_bytes(opt_index_bits(o)),
        PropModel::Unknown(bytes) => bytes,
    }
}

/// The element layout of a property: tag, payload size, payload.
pub open spec fn enc_element(m: PropModel, t: Seq<Seq<char>>) -> Seq<u8>
    decreases m, 0int, 1int,
{
    enc_fstr(tag_of(m)) + u64_le_bytes(enc_payload(m, t).len() as u64) + enc_payload(m, t)
}

/// The layout of the elements of a list, from position `i` on.
pub open spec fn enc_elements(s: Seq<PropModel>, i: int, t: Seq<Seq<char>>) -> Seq<u8>
    decreases s, s.len() - i, 2int,
{
    if 0 <= i < s.len() {
        enc_element(s[i], t) + enc_elements(s, i + 1, t)
    } else {
        Seq::empty()
    }
}

/// The layout of the entries of a map, from position `i` on: key
/// element, then value element.
pub open spec fn enc_entries(s: Seq<MapEntryModel>, i: int, t: Seq<Seq<char>>) -> Seq<u8>
    decreases s, s.len() - i, 2int,
{
    if 0 <= i < s.len() {
        enc_element(s[i].key, t) + enc_element(s[i].value, t) + enc_entries(s, i + 1, t)
    } else {
        Seq::empty()
    }
}

/// The layout of a property stream, from entry `i` on: name reference,
/// element, ..., closed by the name `None`.
pub open spec fn enc_stream(s: Seq<PropEntryModel>, i: int, t: Seq<Seq<char>>) -> Seq<u8>
    decreases s, s.len() - i, 2int,
{
    if 0 <= i < s.len() {
        enc_fname(t, s[i].name, 0) + enc_element(s[i].value, t) + enc_stream(s, i + 1, t)
    } else {
        enc_fname(t, "None"@, 0)
    }
}


// ------------------------------------------------------------------
// The parser
// ------------------------------------------------------------------

/// Parses an optional inline string.
pub open spec fn dec_opt_fstr(b: Seq<u8>, pos: int) -> Option<(Option<Seq<char>>, int)> {
    match dec_u8(b, pos) {
        Option::None => Option::None,
        Option::Some((flag, p1)) => {
            if flag == 0 {
                Option::Some((Option::None, p1))
            } else if flag == 1 {
                match dec_fstr(b, p1) {
                    Option::None => Option::None,
                    Option::Some((s, p2)) => Option::Some((Option::Some(s), p2)),
                }
            } else {
                Option::None
            }
        },
    }
}

/// Parses a name reference, rejecting any index outside the live name
/// table.
pub open spec fn dec_fname(b: Seq<u8>, pos: int, t: Seq<Seq<char>>) -> Option<(FNameModel, int)> {
    match dec_u32(b, pos) {
        Option::None => Option::None,
        Option::Some((iw, p1)) => match dec_u32(b, p1) {
            Option::None => Option::None,
            Option::Some((num, p2)) => {
                let idx = iw as i32;
                if 0 <= idx && idx < t.len() {
                    Option::Some((FNameModel { name: t[idx as int], number: num }, p2))
                } else {
                    Option::None
                }
            },
        },
    }
}

/// Parses a run of `n` 32-bit values.
pub open spec fn dec_u32s(b: Seq<u8>, pos: int, n: int) -> Option<(Seq<u32>, int)>
    decreases n,
{
    if n <= 0 {
        Option::Some((Seq::empty(), pos))
    } else {
        match dec_u32(b, pos) {
            Option::None => Option::None,
            Option::Some((v, p1)) => match dec_u32s(b, p1, n - 1) {
                Option::None => Option::None,
                Option::Some((rest, p2)) => Option::Some((seq![v] + rest, p2)),
            },
        }
    }
}

/// Parses a run of `n` presence bytes.
pub open spec fn dec_bools(b: Seq<u8>, pos: int, n: int) -> Option<(Seq<bool>, int)>
    decreases n,
{
    if n <= 0 {
        Option::Some((Seq::empty(), pos))
    } else {
        match dec_u8(b, pos) {
            Option::None => Option::None,
            Option::Some((v, p1)) => match dec_bools(b, p1, n - 1) {
                Option::None => Option::None,
                Option::Some((rest, p2)) => Option::Some((seq![(v != 0)] + rest, p2)),
            },
        }
    }
}

/// Parses an optional object reference and wraps it in the variant
/// `kind` names.
pub open spec fn dec_opt_index(b: Seq<u8>, pos: int, kind: int) -> Option<(PropModel, int)> {
    match dec_u32(b, pos) {
        Option::None => Option::None,
        Option::Some((bits, p)) => {
            let o = if bits == 0 {
                Option::None
            } else {
                Option::Some(PackageIndex(bits as i32))
            };
            Option::Some(
                (
                    if kind == 0 {
                        PropModel::Object(o)
                    } else if kind == 1 {
                        PropModel::MaterialInterface(o)
                    } else if kind == 2 {
                        PropModel::StaticMesh(o)
                    } else if kind == 3 {
                        PropModel::SkeletalMesh(o)
                    } else if kind == 4 {
                        PropModel::Texture2D(o)
                    } else if kind == 5 {
                        PropModel::LevelSequence(o)
                    } else if kind == 6 {
                        PropModel::ComponentReference(o)
                    } else if kind == 7 {
                        PropModel::Blueprint(o)
                    } else if kind == 8 {
                        PropModel::WorldContext(o)
                    } else {
                        PropModel::LandscapeComponent(o)
                    },
                    p,
                ),
            )
        },
    }
}

/// Parses a path-addressed reference and wraps it in the variant
/// `kind` names.
pub open spec fn dec_soft_path(b: Seq<u8>, pos: int, kind: int) -> Option<(PropModel, int)> {
    match dec_fstr(b, pos) {
        Option::None => Option::None,
        Option::Some((ap, p1)) => match dec_u32(b, p1) {
            Option::None => Option::None,
            Option::Some((num, p2)) => match dec_fstr(b, p2) {
                Option::None => Option::None,
                Option::Some((sub, p3)) => {
                    let sp = SoftPathModel {
                        asset_path: FNameModel { name: ap, number: num },
                        sub_path: sub,
                    };
                    Option::Some(
                        (
                            if kind == 0 {
                                PropModel::SoftObjectPath(sp)
                            } else if kind == 1 {
                                PropModel::SoftClassPath(sp)
                            } else {
                                PropModel::AssetObjectProperty(sp)
                            },
                            p3,
                        ),
                    )
                },
            },
        },
    }
}

/// Parses two inline names: an enumeration type and a value.
pub open spec fn dec_two_names(b: Seq<u8>, pos: int) -> Option<((FNameModel, FNameModel), int)> {
    match dec_fstr(b, pos) {
        Option::None => Option::None,
        Option::Some((en, p1)) => match dec_u32(b, p1) {
            Option::None => Option::None,
            Option::Some((enum_num, p2)) => match dec_fstr(b, p2) {
                Option::None => Option::None,
                Option::Some((vn, p3)) => match dec_u32(b, p3) {
                    Option::None => Option::None,
                    Option::Some((vnum, p4)) => Option::Some(
                        (
                            (
                                FNameModel { name: en, number: enum_num },
                                FNameModel { name: vn, number: vnum },
                            ),
                            p4,
                        ),
                    ),
                },
            },
        },
    }
}

/// Parses the fixed-layout payload of the struct type named `sn`.
pub open spec fn dec_fixed_struct(b: Seq<u8>, pos: int, sn: Seq<char>) -> Option<(PropModel, int)> {
    if sn == "Vector"@ {
        match dec_u32s(b, pos, 3) {
            Option::None => Option::None,
            Option::Some((vs, p)) => Option::Some(
                (PropModel::Vector(Vector { x: vs[0], y: vs[1], z: vs[2] }), p),
            ),
        }
    } else if sn == "Vector2D"@ {
        match dec_u32s(b, pos, 2) {
            Option::None => Option::None,
            Option::Some((vs, p)) => Option::Some(
                (PropModel::Vector2D(Vector2D { x: vs[0], y: vs[1] }), p),
            ),
        }
    } else if sn == "Vector4"@ {
        match dec_u32s(b, pos, 4) {
            Option::None => Option::None,
            Option::Some((vs, p)) => Option::Some(
                (PropModel::Vector4(Vector4 { x: vs[0], y: vs[1], z: vs[2], w: vs[3] }), p),
            ),
        }
    } else if sn == "Rotator"@ {
        match dec_u32s(b, pos, 3) {
            Option::None => Option::None,
            Option::Some((vs, p)) => Option::Some(
                (PropModel::Rotator(Rotator { pitch: vs[0], yaw: vs[1], roll: vs[2] }), p),
            ),
        }
    } else if sn == "Quat"@ {
        match dec_u32s(b, pos, 4) {
            Option::None => Option::None,
            Option::Some((vs, p)) => Option::Some(
                (PropModel::Quat(Quat { x: vs[0], y: vs[1], z: vs[2], w: vs[3] }), p),
            ),
        }
    } else if sn == "LinearColor"@ {
        match dec_u32s(b, pos, 4) {
            Option::None => Option::None,
            Option::Some((vs, p)) => Option::Some(
                (PropModel::LinearColor(LinearColor { r: vs[0], g: vs[1], b: vs[2], a: vs[3] }), p),
            ),
        }
    } else if sn == "Transform"@ {
        match dec_u32s(b, pos, 10) {
            Option::None => Option::None,
            Option::Some((vs, p)) => Option::Some(
                (
                    PropModel::Transform(
                        Transform {
                            location: Vector { x: vs[0], y: vs[1], z: vs[2] },
                            rotation: Quat { x: vs[3], y: vs[4], z: vs[5], w: vs[6] },
                            scale: Vector { x: vs[7], y: vs[8], z: vs[9] },
                        },
                    ),
                    p,
                ),
            ),
        }
    } else if sn == "Guid"@ {
        match dec_guid(b, pos) {
            Option::None => Option::None,
            Option::Some((g, p)) => Option::Some((PropModel::Guid(g), p)),
        }
    } else if sn == "DateTime"@ {
        match dec_i64(b, pos) {
            Option::None => Option::None,
            Option::Some((v, p)) => Option::Some((PropModel::DateTime(v), p)),
        }
    } else {
        match dec_i64(b, pos) {
            Option::None => Option::None,
            Option::Some((v, p)) => Option::Some((PropModel::TimeSpan(v), p)),
        }
    }
}

/// Parses one element: tag, payload size, payload.
pub open spec fn dec_element(b: Seq<u8>, pos: int, t: Seq<Seq<char>>) -> Option<(PropModel, int)>
    decreases b.len() - pos, 0int,
{
    match dec_fstr(b, pos) {
        Option::None => Option::None,
        Option::Some((tag, p1)) => match dec_u64(b, p1) {
            Option::None => Option::None,
            Option::Some((size, p2)) => {
                if pos < p2 <= b.len() {
                    dec_payload(b, p2, t, tag, size)
                } else {
                    Option::None
                }
            },
        },
    }
}

/// Parses a payload, dispatching on the type-tag string; an
/// unrecognized tag takes `size` raw bytes as an `Unknown`.
#[verifier::opaque]
pub open spec fn dec_payload(b: Seq<u8>, pos: int, t: Seq<Seq<char>>, tag: Seq<char>, size: u64)
    -> Option<(PropModel, int)>
    decreases b.len() - pos, 3int,
{
    if tag == "BoolProperty"@ {
        match dec_u8(b, pos) {
            Option::None => Option::None,
            Option::Some((v, p)) => Option::Some((PropModel::Bool(v != 0), p)),
        }
    } else if tag == "Int8Property"@ {
        match dec_u8(b, pos) {
            Option::None => Option::None,
            Option::Some((v, p)) => Option::Some((PropModel::Int8(v as i8), p)),
        }
    } else if tag == "Int16Property"@ {
        match dec_u16(b, pos) {
            Option::None => Option::None,
            Option::Some((v, p)) => Option::Some((PropModel::Int16(v as i16), p)),
        }
    } else if tag == "IntProperty"@ {
        match dec_i32(b, pos) {
            Option::None => Option::None,
            Option::Some((v, p)) => Option::Some((PropModel::Int32(v), p)),
        }
    } else if tag == "Int64Property"@ {
        match dec_i64(b, pos) {
            Option::None => Option::None,
            Option::Some((v, p)) => Option::Some((PropModel::Int64(v), p)),
        }
    } else if tag == "ByteProperty"@ {
        if size == 1 {
            match dec_u8(b, pos) {
                Option::None => Option::None,
                Option::Some((v, p)) => Option::Some((PropModel::UInt8(v), p)),
            }
        } else {
            match dec_two_names(b, pos) {
                Option::None => Option::None,
                Option::Some(((en, vn), p)) => Option::Some(
                    (PropModel::ByteEnum { enum_type: en, value: vn }, p),
                ),
            }
        }
    } else if tag == "UInt16Property"@ {
        match dec_u16(b, pos) {
            Option::None => Option::None,
            Option::Some((v, p)) => Option::Some((PropModel::UInt16(v), p)),
        }
    } else if tag == "UInt32Property"@ {
        match dec_u32(b, pos) {
            Option::None => Option::None,
            Option::Some((v, p)) => Option::Some((PropModel::UInt32(v), p)),
        }
    } else if tag == "UInt64Property"@ {
        match dec_u64(b, pos) {
            Option::None => Option::None,
            Option::Some((v, p)) => Option::Some((PropModel::UInt64(v), p)),
        }
    } else if tag == "FloatProperty"@ {
        match dec_u32(b, pos) {
            Option::None => Option::None,
            Option::Some((v, p)) => Option::Some((PropModel::Float(v), p)),
        }
    } else if tag == "DoubleProperty"@ {
        match dec_u64(b, pos) {
            Option::None => Option::None,
            Option::Some((v, p)) => Option::Some((PropModel::Double(v), p)),
        }
    } else if tag == "StrProperty"@ {
        match dec_fstr(b, pos) {
            Option::None => Option::None,
            Option::Some((s, p)) => Option::Some((PropModel::String(s), p)),
        }
    } else if tag == "NameProperty"@ {
        match dec_fname(b, pos, t) {
            Option::None => Option::None,
            Option::Some((f, p)) => Option::Some((PropModel::Name(f), p)),
        }
    } else if tag == "TextProperty"@ {
        match dec_fstr(b, pos) {
            Option::None => Option::None,
            Option::Some((text, p1)) => match dec_opt_fstr(b, p1) {
                Option::None => Option::None,
                Option::Some((ns, p2)) => match dec_opt_fstr(b, p2) {
                    Option::None => Option::None,
                    Option::Some((key, p3)) => Option::Some(
                        (PropModel::Text { text, namespace: ns, key }, p3),
                    ),
                },
            },
        }
    } else if tag == "ObjectProperty"@ {
        dec_opt_index(b, pos, 0)
    } else if tag == "MaterialInterfaceProperty"@ {
        dec_opt_index(b, pos, 1)
    } else if tag == "StaticMeshProperty"@ {
        dec_opt_index(b, pos, 2)
    } else if tag == "SkeletalMeshProperty"@ {
        dec_opt_index(b, pos, 3)
    } else if tag == "Texture2DProperty"@ {
        dec_opt_index(b, pos, 4)
    } else if tag == "LevelSequenceProperty"@ {
        dec_opt_index(b, pos, 5)
    } else if tag == "ComponentReferenceProperty"@ {
        dec_opt_index(b, pos, 6)
    } else if tag == "BlueprintProperty"@ {
        dec_opt_index(b, pos, 7)
    } else if tag == "WorldContextProperty"@ {
        dec_opt_index(b, pos, 8)
    } else if tag == "LandscapeComponentProperty"@ {
        dec_opt_index(b, pos, 9)
    } else if tag == "StructProperty"@ {
        match dec_fstr(b, pos) {
            Option::None => Option::None,
            Option::Some((sn, p1)) => match dec_u32(b, p1) {
                Option::None => Option::None,
                Option::Some((snum, p2)) => {
                    if is_fixed_struct_name(sn) && snum == 0 {
                        dec_fixed_struct(b, p2, sn)
                    } else {
                        if pos < p2 <= b.len() {
                            match dec_stream(b, p2, t) {
                                Option::None => Option::None,
                                Option::Some((props, p3)) => Option::Some(
                                    (
                                        PropModel::Struct {
                                            struct_type: FNameModel { name: sn, number: snum },
                                            properties: props,
                                        },
                                        p3,
                                    ),
                                ),
                            }
                        } else {
                            Option::None
                        }
                    }
                },
            },
        }
    } else if tag == "ArrayProperty"@ {
        match dec_u32(b, pos) {
            Option::None => Option::None,
            Option::Some((n, p1)) => {
                if pos < p1 <= b.len() {
                    match dec_elements(b, p1, n as int, t) {
                        Option::None => Option::None,
                        Option::Some((es, p2)) => Option::Some((PropModel::Array(es), p2)),
                    }
                } else {
                    Option::None
                }
            },
        }
    } else if tag == "SetProperty"@ {
        match dec_u32(b, pos) {
            Option::None => Option::None,
            Option::Some((n, p1)) => {
                if pos < p1 <= b.len() {
                    match dec_elements(b, p1, n as int, t) {
                        Option::None => Option::None,
                        Option::Some((es, p2)) => Option::Some((PropModel::TSet(es), p2)),
                    }
                } else {
                    Option::None
                }
            },
        }
    } else if tag == "MapProperty"@ {
        match dec_fstr(b, pos) {
            Option::None => Option::None,
            Option::Some((kt, p1)) => match dec_fstr(b, p1) {
                Option::None => Option::None,
                Option::Some((vt, p2)) => match dec_u32(b, p2) {
                    Option::None => Option::None,
                    Option::Some((n, p3)) => {
                        if pos < p3 <= b.len() {
                            match dec_entries(b, p3, n as int, t) {
                                Option::None => Option::None,
                                Option::Some((es, p4)) => Option::Some(
                                    (
                                        PropModel::TMap {
                                            key_type: kt,
                                            value_type: vt,
                                            entries: es,
                                        },
                                        p4,
                                    ),
                                ),
                            }
                        } else {
                            Option::None
                        }
                    },
                },
            },
        }
    } else if tag == "EnumProperty"@ {
        match dec_two_names(b, pos) {
            Option::None => Option::None,
            Option::Some(((en, vn), p)) => Option::Some(
                (PropModel::Enum { enum_type: en, value: vn }, p),
            ),
        }
    } else if tag == "SoftObjectProperty"@ {
        dec_soft_path(b, pos, 0)
    } else if tag == "SoftClassProperty"@ {
        dec_soft_path(b, pos, 1)
    } else if tag == "AssetObjectProperty"@ {
        dec_soft_path(b, pos, 2)
    } else if tag == "PerPlatformBoolProperty"@ {
        match dec_u32(b, pos) {
            Option::None => Option::None,
            Option::Some((n, p1)) => match dec_bools(b, p1, n as int) {
                Option::None => Option::None,
                Option::Some((vs, p2)) => Option::Some((PropModel::PerPlatformBool(vs), p2)),
            },
        }
    } else if tag == "PerPlatformIntProperty"@ {
        match dec_u32(b, pos) {
            Option::None => Option::None,
            Option::Some((n, p1)) => match dec_u32s(b, p1, n as int) {
                Option::None => Option::None,
                Option::Some((vs, p2)) => Option::Some(
                    (PropModel::PerPlatformInt(Seq::new(vs.len(), |i: int| vs[i] as i32)), p2),
                ),
            },
        }
    } else if tag == "PerPlatformFloatProperty"@ {
        match dec_u32(b, pos) {
            Option::None => Option::None,
            Option::Some((n, p1)) => match dec_u32s(b, p1, n as int) {
                Option::None => Option::None,
                Option::Some((vs, p2)) => Option::Some((PropModel::PerPlatformFloat(vs), p2)),
            },
        }
    } else if tag == "DelegateProperty"@ {
        match dec_u32(b, pos) {
            Option::None => Option::None,
            Option::Some((bits, p1)) => match dec_fstr(b, p1) {
                Option::None => Option::None,
                Option::Some((fname, p2)) => match dec_u32(b, p2) {
                    Option::None => Option::None,
                    Option::Some((num, p3)) => Option::Some(
                        (
                            PropModel::Delegate {
                                object: if bits == 0 {
                                    Option::None
                                } else {
                                    Option::Some(PackageIndex(bits as i32))
                                },
                                function_name: FNameModel { name: fname, number: num },
                            },
                            p3,
                        ),
                    ),
                },
            },
        }
    } else if tag == "MulticastDelegateProperty"@ {
        match dec_u32(b, pos) {
            Option::None => Option::None,
            Option::Some((n, p1)) => {
                if pos < p1 <= b.len() {
                    match dec_elements(b, p1, n as int, t) {
                        Option::None => Option::None,
                        Option::Some((es, p2)) => Option::Some(
                            (PropModel::MulticastDelegate(es), p2),
                        ),
                    }
                } else {
                    Option::None
                }
            },
        }
    } else {
        if pos + size <= b.len() {
            Option::Some((PropModel::Unknown(b.subrange(pos, pos + size)), pos + size))
        } else {
            Option::None
        }
    }
}

/// Parses `n` list elements.
pub open spec fn dec_elements(b: Seq<u8>, pos: int, n: int, t: Seq<Seq<char>>) -> Option<
    (Seq<PropModel>, int),
>
    decreases b.len() - pos, 5int,
{
    if n <= 0 {
        Option::Some((Seq::empty(), pos))
    } else {
        match dec_element(b, pos, t) {
            Option::None => Option::None,
            Option::Some((v, p1)) => {
                if pos < p1 <= b.len() {
                    match dec_elements(b, p1, n - 1, t) {
                        Option::None => Option::None,
                        Option::Some((rest, p2)) => Option::Some((seq![v] + rest, p2)),
                    }
                } else {
                    Option::None
                }
            },
        }
    }
}

/// Parses `n` map entries.
pub open spec fn dec_entries(b: Seq<u8>, pos: int, n: int, t: Seq<Seq<char>>) -> Option<
    (Seq<MapEntryModel>, int),
>
    decreases b.len() - pos, 5int,
{
    if n <= 0 {
        Option::Some((Seq::empty(), pos))
    } else {
        match dec_element(b, pos, t) {
            Option::None => Option::None,
            Option::Some((k, p1)) => {
                if pos < p1 <= b.len() {
                    match dec_element(b, p1, t) {
                        Option::None => Option::None,
                        Option::Some((v, p2)) => {
                            if p1 < p2 <= b.len() {
                                match dec_entries(b, p2, n - 1, t) {
                                    Option::None => Option::None,
                                    Option::Some((rest, p3)) => Option::Some(
                                        (seq![MapEntryModel { key: k, value: v }] + rest, p3),
                                    ),
                                }
                            } else {
                                Option::None
                            }
                        },
                    }
                } else {
                    Option::None
                }
            },
        }
    }
}

/// Parses a property stream up to and including its `None` terminator.
pub open spec fn dec_stream(b: Seq<u8>, pos: int, t: Seq<Seq<char>>) -> Option<
    (Seq<PropEntryModel>, int),
>
    decreases b.len() - pos, 5int,
{
    match dec_fname(b, pos, t) {
        Option::None => Option::None,
        Option::Some((f, p1)) => {
            if f.name == "None"@ {
                Option::Some((Seq::empty(), p1))
            } else if pos < p1 <= b.len() {
                match dec_element(b, p1, t) {
                    Option::None => Option::None,
                    Option::Some((v, p2)) => {
                        if p1 < p2 <= b.len() {
                            match dec_stream(b, p2, t) {
                                Option::None => Option::None,
                                Option::Some((rest, p3)) => Option::Some(
                                    (seq![PropEntryModel { name: f.name, value: v }] + rest, p3),
                                ),
                            }
                        } else {
                            Option::None
                        }
                    },
                }
            } else {
                Option::None
            }
        },
    }
}


// ------------------------------------------------------------------
// The executable encoder
// ------------------------------------------------------------------

/// The layout of the first `i` elements of a list.
pub open spec fn enc_elements_take(s: Seq<PropModel>, i: int, t: Seq<Seq<char>>) -> Seq<u8>
    decreases i,
{
    if i <= 0 {
        Seq::empty()
    } else {
        enc_elements_take(s, i - 1, t) + enc_element(s[i - 1], t)
    }
}

/// The whole list layout is the prefix layout followed by the suffix
/// layout.
pub proof fn lemma_enc_elements_split(s: Seq<PropModel>, i: int, t: Seq<Seq<char>>)
    requires
        0 <= i <= s.len(),
    ensures
        enc_elements(s, 0, t) == enc_elements_take(s, i, t) + enc_elements(s, i, t),
    decreases i,
{
    if i == 0 {
        assert(Seq::<u8>::empty() + enc_elements(s, 0, t) =~= enc_elements(s, 0, t));
    } else {
        lemma_enc_elements_split(s, i - 1, t);
        assert(enc_elements(s, i - 1, t) == enc_element(s[i - 1], t) + enc_elements(s, i, t));
        assert((enc_elements_take(s, i - 1, t) + (enc_element(s[i - 1], t) + enc_elements(
            s,
            i,
            t,
        ))) =~= (enc_elements_take(s, i - 1, t) + enc_element(s[i - 1], t)) + enc_elements(
            s,
            i,
            t,
        ));
    }
}

/// The layout of the first `i` entries of a map.
pub open spec fn enc_entries_take(s: Seq<MapEntryModel>, i: int, t: Seq<Seq<char>>) -> Seq<u8>
    decreases i,
{
    if i <= 0 {
        Seq::empty()
    } else {
        enc_entries_take(s, i - 1, t) + enc_element(s[i - 1].key, t) + enc_element(
            s[i - 1].value,
            t,
        )
    }
}

/// The whole map layout is the prefix layout followed by the suffix
/// layout.
pub proof fn lemma_enc_entries_split(s: Seq<MapEntryModel>, i: int, t: Seq<Seq<char>>)
    requires
        0 <= i <= s.len(),
    ensures
        enc_entries(s, 0, t) == enc_entries_take(s, i, t) + enc_entries(s, i, t),
    decreases i,
{
    if i == 0 {
        assert(Seq::<u8>::empty() + enc_entries(s, 0, t) =~= enc_entries(s, 0, t));
    } else {
        lemma_enc_entries_split(s, i - 1, t);
        assert(enc_entries(s, i - 1, t) == enc_element(s[i - 1].key, t) + enc_element(
            s[i - 1].value,
            t,
        ) + enc_entries(s, i, t));
        assert((enc_entries_take(s, i - 1, t) + (enc_element(s[i - 1].key, t) + enc_element(
            s[i - 1].value,
            t,
        ) + enc_entries(s, i, t))) =~= (enc_entries_take(s, i - 1, t) + enc_element(
            s[i - 1].key,
            t,
        ) + enc_element(s[i - 1].value, t)) + enc_entries(s, i, t));
    }
}

/// The layout of the first `i` entries of a stream, without the
/// terminator.
pub open spec fn enc_stream_take(s: Seq<PropEntryModel>, i: int, t: Seq<Seq<char>>) -> Seq<u8>
    decreases i,
{
    if i <= 0 {
        Seq::empty()
    } else {
        enc_stream_take(s, i - 1, t) + enc_fname(t, s[i - 1].name, 0) + enc_element(
            s[i - 1].value,
            t,
        )
    }
}

/// The whole stream layout is the prefix layout followed by the suffix
/// layout.
pub proof fn lemma_enc_stream_split(s: Seq<PropEntryModel>, i: int, t: Seq<Seq<char>>)
    requires
        0 <= i <= s.len(),
    ensures
        enc_stream(s, 0, t) == enc_stream_take(s, i, t) + enc_stream(s, i, t),
    decreases i,
{
    if i == 0 {
        assert(Seq::<u8>::empty() + enc_stream(s, 0, t) =~= enc_stream(s, 0, t));
    } else {
        lemma_enc_stream_split(s, i - 1, t);
        assert(enc_stream(s, i - 1, t) == enc_fname(t, s[i - 1].name, 0) + enc_element(
            s[i - 1].value,
            t,
        ) + enc_stream(s, i, t));
        assert((enc_stream_take(s, i - 1, t) + (enc_fname(t, s[i - 1].name, 0) + enc_element(
            s[i - 1].value,
            t,
        ) + enc_stream(s, i, t))) =~= (enc_stream_take(s, i - 1, t) + enc_fname(
            t,
            s[i - 1].name,
            0,
        ) + enc_element(s[i - 1].value, t)) + enc_stream(s, i, t));
    }
}

/// Appending a value appends its four bytes to a 32-bit run.
pub proof fn lemma_enc_u32s_push(vs: Seq<u32>, v: u32)
    ensures
        enc_u32s(vs.push(v)) == enc_u32s(vs) + u32_le_bytes(v),
    decreases vs.len(),
{
    if vs.len() == 0 {
        assert(vs.push(v).drop_first() =~= Seq::<u32>::empty());
        assert(vs.push(v)[0] == v);
        assert(enc_u32s(Seq::<u32>::empty()) == Seq::<u8>::empty());
        assert(enc_u32s(vs.push(v)) == u32_le_bytes(v) + Seq::<u8>::empty());
        assert(u32_le_bytes(v) + Seq::<u8>::empty() =~= enc_u32s(vs) + u32_le_bytes(v));
    } else {
        assert(vs.push(v).drop_first() =~= vs.drop_first().push(v));
        lemma_enc_u32s_push(vs.drop_first(), v);
        assert(vs.push(v)[0] == vs[0]);
        assert(enc_u32s(vs.push(v)) == u32_le_bytes(vs[0]) + enc_u32s(vs.drop_first().push(v)));
        assert((u32_le_bytes(vs[0]) + (enc_u32s(vs.drop_first()) + u32_le_bytes(v))) =~= (
        u32_le_bytes(vs[0]) + enc_u32s(vs.drop_first())) + u32_le_bytes(v));
    }
}

/// Writes a name reference: the table's first index of the string (or
/// -1 when absent) and the suffix.
pub fn encode_fname(w: &mut BinaryArchiveWriter, names: &OptimizedNameMap, name: &str, number: u32)
    ensures
        final(w).out() == old(w).out() + enc_fname(names.entries(), name@, number),
{
    let ghost pre = w.out();
    let table_len = names.len();
    proof {
        crate::names::lemma_name_index_of(names.entries(), name@);
    }
    match names.find_string_index(name) {
        Option::Some(i) => {
            w.write_u32(i as u32);
            proof {
                assert(i as u32 == (name_index_of(names.entries(), name@) as i32) as u32) by {
                    assert(i == name_index_of(names.entries(), name@));
                    assert(i <= table_len);
                    assert((i as i32) as u32 == i as u32) by (bit_vector);
                }
            }
        },
        Option::None => {
            w.write_u32(0xffff_ffffu32);
            proof {
                assert(((-1int) as i32) == -1i32);
                assert((-1i32) as u32 == 0xffff_ffffu32) by (bit_vector);
            }
        },
    }
    w.write_u32(number);
    proof {
        assert(final(w).out() =~= pre + enc_fname(names.entries(), name@, number));
    }
}

/// True of the scalar, reference and opaque property kinds.
pub open spec fn is_plain_kind(p: &Property) -> bool {
    match p {
        Property::Bool(_) | Property::Int8(_) | Property::Int16(_) | Property::Int32(_)
            | Property::Int64(_) | Property::UInt8(_) | Property::UInt16(_)
            | Property::UInt32(_) | Property::UInt64(_) | Property::Float(_)
            | Property::Double(_) | Property::Object(_) | Property::MaterialInterface(_)
            | Property::StaticMesh(_) | Property::SkeletalMesh(_) | Property::Texture2D(_)
            | Property::LevelSequence(_) | Property::ComponentReference(_)
            | Property::Blueprint(_) | Property::WorldContext(_)
            | Property::LandscapeComponent(_) | Property::Unknown(_) => true,
        _ => false,
    }
}

/// True of the string-bearing property kinds.
pub open spec fn is_string_kind(p: &Property) -> bool {
    match p {
        Property::String(_) | Property::Name(_) | Property::Text { .. } | Property::Enum {
            ..
        } | Property::ByteEnum { .. } | Property::SoftObjectPath(_) | Property::SoftClassPath(_)
            | Property::AssetObjectProperty(_) | Property::Delegate { .. }
            | Property::PerPlatformBool(_) | Property::PerPlatformInt(_)
            | Property::PerPlatformFloat(_) => true,
        _ => false,
    }
}

/// True of the fixed-layout struct kinds.
pub open spec fn is_fixed_kind(p: &Property) -> bool {
    match p {
        Property::Vector(_) | Property::Vector2D(_) | Property::Vector4(_) | Property::Rotator(
            _,
        ) | Property::Quat(_) | Property::LinearColor(_) | Property::Transform(_)
            | Property::Guid(_) | Property::DateTime(_) | Property::TimeSpan(_) => true,
        _ => false,
    }
}

impl Property {
    /// Writes this property's payload.
    pub fn encode_payload(&self, w: &mut BinaryArchiveWriter, names: &OptimizedNameMap)
        requires
            fits_fstr(*self),
        ensures
            final(w).out() == old(w).out() + enc_payload(prop_view(*self), names.entries()),
        decreases self, 0int, 0int,
    {
        let ghost pre = w.out();
        let ghost t = names.entries();
        let ghost m = prop_view(*self);
        match self {
            Property::Struct { struct_type, properties } => {
                w.write_fstring(struct_type.name.as_str());
                w.write_u32(struct_type.number);
                encode_stream(w, names, properties);
                proof {
                    assert(final(w).out() =~= pre + enc_payload(m, t));
                }
            },
            Property::Array(elements) => {
                w.write_u32(elements.len() as u32);
                encode_elements(w, names, elements);
                proof {
                    lemma_prop_views(elements@);
                    assert(final(w).out() =~= pre + enc_payload(m, t));
                }
            },
            Property::TMap { key_type, value_type, entries } => {
                w.write_fstring(key_type.as_str());
                w.write_fstring(value_type.as_str());
                w.write_u32(entries.len() as u32);
                encode_entries(w, names, entries);
                proof {
                    lemma_map_entry_views(entries@);
                    assert(final(w).out() =~= pre + enc_payload(m, t));
                }
            },
            Property::TSet(elements) => {
                w.write_u32(elements.len() as u32);
                encode_elements(w, names, elements);
                proof {
                    lemma_prop_views(elements@);
                    assert(final(w).out() =~= pre + enc_payload(m, t));
                }
            },
            Property::MulticastDelegate { delegates } => {
                w.write_u32(delegates.len() as u32);
                encode_elements(w, names, delegates);
                proof {
                    lemma_prop_views(delegates@);
                    assert(final(w).out() =~= pre + enc_payload(m, t));
                }
            },
            Property::Bool(_) | Property::Int8(_) | Property::Int16(_) | Property::Int32(_)
                | Property::Int64(_) | Property::UInt8(_) | Property::UInt16(_)
                | Property::UInt32(_) | Property::UInt64(_) | Property::Float(_)
                | Property::Double(_) | Property::Object(_) | Property::MaterialInterface(_)
                | Property::StaticMesh(_) | Property::SkeletalMesh(_) | Property::Texture2D(_)
                | Property::LevelSequence(_) | Property::ComponentReference(_)
                | Property::Blueprint(_) | Property::WorldContext(_)
                | Property::LandscapeComponent(_) | Property::Unknown(_) => {
                self.encode_payload_plain(w, names);
            },
            Property::String(_) | Property::Name(_) | Property::Text { .. } | Property::Enum {
                ..
            } | Property::ByteEnum { .. } | Property::SoftObjectPath(_)
                | Property::SoftClassPath(_) | Property::AssetObjectProperty(_)
                | Property::Delegate { .. } | Property::PerPlatformBool(_)
                | Property::PerPlatformInt(_) | Property::PerPlatformFloat(_) => {
                self.encode_payload_strings(w, names);
            },
            Property::Vector(_) | Property::Vector2D(_) | Property::Vector4(_)
                | Property::Rotator(_) | Property::Quat(_) | Property::LinearColor(_)
                | Property::Transform(_) | Property::Guid(_) | Property::DateTime(_)
                | Property::TimeSpan(_) => {
                self.encode_payload_fixed(w, names);
            },
        }
    }

    /// Writes the payload of a scalar, reference or opaque property.
    #[verifier::spinoff_prover]
    fn encode_payload_plain(&self, w: &mut BinaryArchiveWriter, names: &OptimizedNameMap)
        requires
            is_plain_kind(self),
        ensures
            final(w).out() == old(w).out() + enc_payload(prop_view(*self), names.entries()),
    {
        let ghost pre = w.out();
        let ghost t = names.entries();
        let ghost m = prop_view(*self);
        match self {
            Property::Bool(v) => {
                w.write_u8(if *v { 1 } else { 0 });
                proof {
                    assert(final(w).out() =~= pre + enc_payload(m, t));
                }
            },
            Property::Int8(v) => {
                w.write_u8(*v as u8);
                proof {
                    assert(final(w).out() =~= pre + enc_payload(m, t));
                }
            },
            Property::Int16(v) => {
                w.write_u16(*v as u16);
            },
            Property::Int32(v) => {
                w.write_u32(*v as u32);
            },
            Property::Int64(v) => {
                w.write_u64(*v as u64);
            },
            Property::UInt8(v) => {
                w.write_u8(*v);
                proof {
                    assert(final(w).out() =~= pre + enc_payload(m, t));
                }
            },
            Property::UInt16(v) => {
                w.write_u16(*v);
            },
            Property::UInt32(v) => {
                w.write_u32(*v);
            },
            Property::UInt64(v) => {
                w.write_u64(*v);
            },
            Property::Float(bits) => {
                w.write_u32(*bits);
            },
            Property::Double(bits) => {
                w.write_u64(*bits);
            },
            Property::Object(o) => {
                write_opt_index(w, o);
            },
            Property::MaterialInterface(o) => {
                write_opt_index(w, o);
            },
            Property::StaticMesh(o) => {
                write_opt_index(w, o);
            },
            Property::SkeletalMesh(o) => {
                write_opt_index(w, o);
            },
            Property::Texture2D(o) => {
                write_opt_index(w, o);
            },
            Property::LevelSequence(o) => {
                write_opt_index(w, o);
            },
            Property::ComponentReference(o) => {
                write_opt_index(w, o);
            },
            Property::Blueprint(o) => {
                write_opt_index(w, o);
            },
            Property::WorldContext(o) => {
                write_opt_index(w, o);
            },
            Property::LandscapeComponent(o) => {
                write_opt_index(w, o);
            },
            Property::Unknown(bytes) => {
                w.write_bytes(bytes);
            },
            _ => {
                proof {
                    assert(false);
                }
            },
        }
    }

    /// Writes the payload of a string-bearing property.
    #[verifier::rlimit(100)]
    #[verifier::spinoff_prover]
    fn encode_payload_strings(&self, w: &mut BinaryArchiveWriter, names: &OptimizedNameMap)
        requires
            is_string_kind(self),
            fits_fstr(*self),
        ensures
            final(w).out() == old(w).out() + enc_payload(prop_view(*self), names.entries()),
    {
        let ghost pre = w.out();
        let ghost t = names.entries();
        let ghost m = prop_view(*self);
        match self {
            Property::String(sv) => {
                w.write_fstring(sv.as_str());
            },
            Property::Name(f) => {
                encode_fname(w, names, f.name.as_str(), f.number);
            },
            Property::Text { text, namespace, key } => {
                w.write_fstring(text.as_str());
                match namespace {
                    Option::Some(ns) => {
                        w.write_u8(1);
                        w.write_fstring(ns.as_str());
                    },
                    Option::None => {
                        w.write_u8(0);
                    },
                }
                match key {
                    Option::Some(k) => {
                        w.write_u8(1);
                        w.write_fstring(k.as_str());
                    },
                    Option::None => {
                        w.write_u8(0);
                    },
                }
                proof {
                    assert(final(w).out() =~= pre + enc_payload(m, t));
                }
            },
            Property::Enum { enum_type, value } => {
                w.write_fstring(enum_type.name.as_str());
                w.write_u32(enum_type.number);
                w.write_fstring(value.name.as_str());
                w.write_u32(value.number);
                proof {
                    assert(final(w).out() =~= pre + enc_payload(m, t));
                }
            },
            Property::ByteEnum { enum_type, value } => {
                w.write_fstring(enum_type.name.as_str());
                w.write_u32(enum_type.number);
                w.write_fstring(value.name.as_str());
                w.write_u32(value.number);
                proof {
                    assert(final(w).out() =~= pre + enc_payload(m, t));
                }
            },
            Property::SoftObjectPath(sp) => {
                w.write_fstring(sp.asset_path.name.as_str());
                w.write_u32(sp.asset_path.number);
                w.write_fstring(sp.sub_path.as_str());
                proof {
                    assert(final(w).out() =~= pre + enc_payload(m, t));
                }
            },
            Property::SoftClassPath(sp) => {
                w.write_fstring(sp.asset_path.name.as_str());
                w.write_u32(sp.asset_path.number);
                w.write_fstring(sp.sub_path.as_str());
                proof {
                    assert(final(w).out() =~= pre + enc_payload(m, t));
                }
            },
            Property::AssetObjectProperty(sp) => {
                w.write_fstring(sp.asset_path.name.as_str());
                w.write_u32(sp.asset_path.number);
                w.write_fstring(sp.sub_path.as_str());
                proof {
                    assert(final(w).out() =~= pre + enc_payload(m, t));
                }
            },
            Property::Delegate { object, function_name } => {
                write_opt_index(w, object);
                w.write_fstring(function_name.name.as_str());
                w.write_u32(function_name.number);
                proof {
                    assert(final(w).out() =~= pre + enc_payload(m, t));
                }
            },
            Property::PerPlatformBool(vs) => {
                w.write_u32(vs.len() as u32);
                let n = vs.len();
                let mut i: usize = 0;
                while i < n
                    invariant
                        n == vs@.len(),
                        i <= n,
                        w.out() =~= pre + u32_le_bytes(n as u32) + enc_bools(vs@.take(i as int)),
                    decreases n - i,
                {
                    w.write_u8(if vs[i] { 1 } else { 0 });
                    proof {
                        assert(enc_bools(vs@.take(i as int + 1)) =~= enc_bools(
                            vs@.take(i as int),
                        ).push(if vs@[i as int] { 1u8 } else { 0u8 }));
                        assert(w.out() =~= pre + u32_le_bytes(n as u32) + enc_bools(
                            vs@.take(i as int + 1),
                        ));
                    }
                    i += 1;
                }
                proof {
                    assert(vs@.take(n as int) =~= vs@);
                    assert(final(w).out() =~= pre + enc_payload(m, t));
                }
            },
            Property::PerPlatformInt(vs) => {
                w.write_u32(vs.len() as u32);
                let ghost target = Seq::new(vs@.len(), |i: int| vs@[i] as u32);
                let n = vs.len();
                let mut i: usize = 0;
                while i < n
                    invariant
                        n == vs@.len(),
                        i <= n,
                        target == Seq::new(vs@.len(), |i: int| vs@[i] as u32),
                        w.out() =~= pre + u32_le_bytes(n as u32) + enc_u32s(target.take(i as int)),
                    decreases n - i,
                {
                    w.write_u32(vs[i] as u32);
                    proof {
                        lemma_enc_u32s_push(target.take(i as int), target[i as int]);
                        assert(target.take(i as int + 1) =~= target.take(i as int).push(
                            target[i as int],
                        ));
                        assert(w.out() =~= pre + u32_le_bytes(n as u32) + enc_u32s(
                            target.take(i as int + 1),
                        ));
                    }
                    i += 1;
                }
                proof {
                    assert(target.take(n as int) =~= target);
                    assert(final(w).out() =~= pre + enc_payload(m, t));
                }
            },
            Property::PerPlatformFloat(vs) => {
                w.write_u32(vs.len() as u32);
                let n = vs.len();
                let mut i: usize = 0;
                while i < n
                    invariant
                        n == vs@.len(),
                        i <= n,
                        w.out() =~= pre + u32_le_bytes(n as u32) + enc_u32s(vs@.take(i as int)),
                    decreases n - i,
                {
                    w.write_u32(vs[i]);
                    proof {
                        lemma_enc_u32s_push(vs@.take(i as int), vs@[i as int]);
                        assert(vs@.take(i as int + 1) =~= vs@.take(i as int).push(vs@[i as int]));
                        assert(w.out() =~= pre + u32_le_bytes(n as u32) + enc_u32s(
                            vs@.take(i as int + 1),
                        ));
                    }
                    i += 1;
                }
                proof {
                    assert(vs@.take(n as int) =~= vs@);
                    assert(final(w).out() =~= pre + enc_payload(m, t));
                }
            },
            _ => {
                proof {
                    assert(false);
                }
            },
        }
    }

    /// Writes the payload of a fixed-layout struct kind.
    #[verifier::rlimit(100)]
    #[verifier::spinoff_prover]
    fn encode_payload_fixed(&self, w: &mut BinaryArchiveWriter, names: &OptimizedNameMap)
        requires
            is_fixed_kind(self),
        ensures
            final(w).out() == old(w).out() + enc_payload(prop_view(*self), names.entries()),
    {
        let ghost pre = w.out();
        let ghost t = names.entries();
        let ghost m = prop_view(*self);
        match self {
            Property::Vector(v) => {
                proof {
                    reveal_strlit("Vector");
                }
                w.write_fstring("Vector");
                w.write_u32(0);
                w.write_u32(v.x);
                w.write_u32(v.y);
                w.write_u32(v.z);
                proof {
                    assert(final(w).out() =~= pre + enc_payload(m, t));
                }
            },
            Property::Vector2D(v) => {
                proof {
                    reveal_strlit("Vector2D");
                }
                w.write_fstring("Vector2D");
                w.write_u32(0);
                w.write_u32(v.x);
                w.write_u32(v.y);
                proof {
                    assert(final(w).out() =~= pre + enc_payload(m, t));
                }
            },
            Property::Vector4(v) => {
                proof {
                    reveal_strlit("Vector4");
                }
                w.write_fstring("Vector4");
                w.write_u32(0);
                w.write_u32(v.x);
                w.write_u32(v.y);
                w.write_u32(v.z);
                w.write_u32(v.w);
                proof {
                    assert(final(w).out() =~= pre + enc_payload(m, t));
                }
            },
            Property::Rotator(v) => {
                proof {
                    reveal_strlit("Rotator");
                }
                w.write_fstring("Rotator");
                w.write_u32(0);
                w.write_u32(v.pitch);
                w.write_u32(v.yaw);
                w.write_u32(v.roll);
                proof {
                    assert(final(w).out() =~= pre + enc_payload(m, t));
                }
            },
            Property::Quat(v) => {
                proof {
                    reveal_strlit("Quat");
                }
                w.write_fstring("Quat");
                w.write_u32(0);
                w.write_u32(v.x);
                w.write_u32(v.y);
                w.write_u32(v.z);
                w.write_u32(v.w);
                proof {
                    assert(final(w).out() =~= pre + enc_payload(m, t));
                }
            },
            Property::LinearColor(v) => {
                proof {
                    reveal_strlit("LinearColor");
                }
                w.write_fstring("LinearColor");
                w.write_u32(0);
                w.write_u32(v.r);
                w.write_u32(v.g);
                w.write_u32(v.b);
                w.write_u32(v.a);
                proof {
                    assert(final(w).out() =~= pre + enc_payload(m, t));
                }
            },
            Property::Transform(v) => {
                proof {
                    reveal_strlit("Transform");
                }
                w.write_fstring("Transform");
                w.write_u32(0);
                w.write_u32(v.location.x);
                w.write_u32(v.location.y);
                w.write_u32(v.location.z);
                w.write_u32(v.rotation.x);
                w.write_u32(v.rotation.y);
                w.write_u32(v.rotation.z);
                w.write_u32(v.rotation.w);
                w.write_u32(v.scale.x);
                w.write_u32(v.scale.y);
                w.write_u32(v.scale.z);
                proof {
                    assert(final(w).out() =~= pre + enc_payload(m, t));
                }
            },
            Property::Guid(g) => {
                proof {
                    reveal_strlit("Guid");
                }
                w.write_fstring("Guid");
                w.write_u32(0);
                w.write_guid(g);
                proof {
                    assert(final(w).out() =~= pre + enc_payload(m, t));
                }
            },
            Property::DateTime(ticks) => {
                proof {
                    reveal_strlit("DateTime");
                }
                w.write_fstring("DateTime");
                w.write_u32(0);
                w.write_u64(*ticks as u64);
                proof {
                    assert(final(w).out() =~= pre + enc_payload(m, t));
                }
            },
            Property::TimeSpan(ticks) => {
                proof {
                    reveal_strlit("Timespan");
                }
                w.write_fstring("Timespan");
                w.write_u32(0);
                w.write_u64(*ticks as u64);
                proof {
                    assert(final(w).out() =~= pre + enc_payload(m, t));
                }
            },
            _ => {
                proof {
                    assert(false);
                }
            },
        }
    }

    /// Writes this property as an element: tag, payload size, payload.
    pub fn encode_element(&self, w: &mut BinaryArchiveWriter, names: &OptimizedNameMap)
        requires
            fits_fstr(*self),
        ensures
            final(w).out() == old(w).out() + enc_element(prop_view(*self), names.entries()),
        decreases self, 0int, 1int,
    {
        let ghost pre = w.out();
        let tag = self.get_type();
        proof {
            lemma_tag_fits(*self);
            assert(tag_of(prop_view(*self)) == type_tag(*self)) by {
                lemma_tag_agrees(*self);
            }
        }
        w.write_fstring(tag);
        let mut payload = BinaryArchiveWriter::new();
        self.encode_payload(&mut payload, names);
        let bytes = payload.into_bytes();
        w.write_u64(bytes.len() as u64);
        w.write_bytes(&bytes);
        proof {
            assert(final(w).out() =~= pre + enc_element(prop_view(*self), names.entries()));
        }
    }
}

/// Writes an optional object reference: its raw bits, zero for null.
pub fn write_opt_index(w: &mut BinaryArchiveWriter, o: &Option<PackageIndex>)
    ensures
        final(w).out() == old(w).out() + u32_le_bytes(opt_index_bits(*o)),
{
    match o {
        Option::Some(p) => {
            w.write_u32(p.0 as u32);
        },
        Option::None => {
            w.write_u32(0);
        },
    }
}

/// Writes the elements of a list in order.
pub fn encode_elements(
    w: &mut BinaryArchiveWriter,
    names: &OptimizedNameMap,
    elements: &Vec<Property>,
)
    requires
        forall|i: int| 0 <= i < elements@.len() ==> fits_fstr(#[trigger] elements@[i]),
    ensures
        final(w).out() == old(w).out() + enc_elements(prop_views(elements@), 0, names.entries()),
    decreases elements, 0int, 2int,
{
    let ghost pre = w.out();
    let ghost ms = prop_views(elements@);
    let ghost t = names.entries();
    proof {
        lemma_prop_views(elements@);
    }
    let n = elements.len();
    let mut i: usize = 0;
    while i < n
        invariant
            n == elements@.len(),
            i <= n,
            ms == prop_views(elements@),
            ms.len() == n,
            t == names.entries(),
            forall|j: int| 0 <= j < n ==> ms[j] == prop_view(#[trigger] elements@[j]),
            forall|j: int| 0 <= j < n ==> fits_fstr(#[trigger] elements@[j]),
            w.out() =~= pre + enc_elements_take(ms, i as int, t),
        decreases n - i,
    {
        elements[i].encode_element(w, names);
        proof {
            assert(enc_elements_take(ms, i as int + 1, t) == enc_elements_take(ms, i as int, t)
                + enc_element(ms[i as int], t));
            assert(w.out() =~= pre + enc_elements_take(ms, i as int + 1, t));
        }
        i += 1;
    }
    proof {
        lemma_enc_elements_split(ms, n as int, t);
        assert(enc_elements(ms, n as int, t) == Seq::<u8>::empty());
        assert(enc_elements_take(ms, n as int, t) + Seq::<u8>::empty() =~= enc_elements_take(
            ms,
            n as int,
            t,
        ));
        assert(final(w).out() =~= pre + enc_elements(ms, 0, t));
    }
}

/// Writes the entries of a map in order: key element, value element.
pub fn encode_entries(
    w: &mut BinaryArchiveWriter,
    names: &OptimizedNameMap,
    entries: &Vec<MapEntry>,
)
    requires
        forall|i: int|
            0 <= i < entries@.len() ==> fits_fstr((#[trigger] entries@[i]).key) && fits_fstr(
                entries@[i].value,
            ),
    ensures
        final(w).out() == old(w).out() + enc_entries(
            map_entry_views(entries@),
            0,
            names.entries(),
        ),
    decreases entries, 0int, 2int,
{
    let ghost pre = w.out();
    let ghost ms = map_entry_views(entries@);
    let ghost t = names.entries();
    proof {
        lemma_map_entry_views(entries@);
    }
    let n = entries.len();
    let mut i: usize = 0;
    while i < n
        invariant
            n == entries@.len(),
            i <= n,
            ms == map_entry_views(entries@),
            ms.len() == n,
            t == names.entries(),
            forall|j: int|
                0 <= j < n ==> ms[j] == (MapEntryModel {
                    key: prop_view((#[trigger] entries@[j]).key),
                    value: prop_view(entries@[j].value),
                }),
            forall|j: int|
                0 <= j < n ==> fits_fstr((#[trigger] entries@[j]).key) && fits_fstr(
                    entries@[j].value,
                ),
            w.out() =~= pre + enc_entries_take(ms, i as int, t),
        decreases n - i,
    {
        entries[i].key.encode_element(w, names);
        entries[i].value.encode_element(w, names);
        proof {
            assert(enc_entries_take(ms, i as int + 1, t) == enc_entries_take(ms, i as int, t)
                + enc_element(ms[i as int].key, t) + enc_element(ms[i as int].value, t));
            assert(w.out() =~= pre + enc_entries_take(ms, i as int + 1, t));
        }
        i += 1;
    }
    proof {
        lemma_enc_entries_split(ms, n as int, t);
        assert(enc_entries(ms, n as int, t) == Seq::<u8>::empty());
        assert(enc_entries_take(ms, n as int, t) + Seq::<u8>::empty() =~= enc_entries_take(
            ms,
            n as int,
            t,
        ));
        assert(final(w).out() =~= pre + enc_entries(ms, 0, t));
    }
}

/// Writes a property stream: each name and element in order, then the
/// `None` terminator.
pub fn encode_stream(
    w: &mut BinaryArchiveWriter,
    names: &OptimizedNameMap,
    properties: &Vec<PropertyEntry>,
)
    requires
        forall|i: int| 0 <= i < properties@.len() ==> fits_fstr((#[trigger] properties@[i]).value),
    ensures
        final(w).out() == old(w).out() + enc_stream(
            prop_entry_views(properties@),
            0,
            names.entries(),
        ),
    decreases properties, 0int, 2int,
{
    let ghost pre = w.out();
    let ghost ms = prop_entry_views(properties@);
    let ghost t = names.entries();
    proof {
        lemma_prop_entry_views(properties@);
    }
    let n = properties.len();
    let mut i: usize = 0;
    while i < n
        invariant
            n == properties@.len(),
            i <= n,
            ms == prop_entry_views(properties@),
            ms.len() == n,
            t == names.entries(),
            forall|j: int|
                0 <= j < n ==> ms[j] == (PropEntryModel {
                    name: (#[trigger] properties@[j]).name@,
                    value: prop_view(properties@[j].value),
                }),
            forall|j: int|
                0 <= j < n ==> fits_fstr((#[trigger] properties@[j]).value),
            w.out() =~= pre + enc_stream_take(ms, i as int, t),
        decreases n - i,
    {
        encode_fname(w, names, properties[i].name.as_str(), 0);
        properties[i].value.encode_element(w, names);
        proof {
            assert(enc_stream_take(ms, i as int + 1, t) == enc_stream_take(ms, i as int, t)
                + enc_fname(t, ms[i as int].name, 0) + enc_element(ms[i as int].value, t));
            assert(w.out() =~= pre + enc_stream_take(ms, i as int + 1, t));
        }
        i += 1;
    }
    encode_fname(w, names, "None", 0);
    proof {
        lemma_enc_stream_split(ms, n as int, t);
        assert(enc_stream(ms, n as int, t) == enc_fname(t, "None"@, 0));
        assert(final(w).out() =~= pre + enc_stream(ms, 0, t));
    }
}

/// True when every string carried anywhere under the property fits the
/// length prefix of the string layout: a machine limit of the format.
pub open spec fn fits_fstr(p: Property) -> bool
    decreases p,
{
    match p {
        Property::String(s) => fstr_len_ok(s@),
        Property::Name(_) => true,
        Property::Text { text, namespace, key } => fstr_len_ok(text@) && (match namespace {
            Option::Some(s) => fstr_len_ok(s@),
            Option::None => true,
        }) && (match key {
            Option::Some(s) => fstr_len_ok(s@),
            Option::None => true,
        }),
        Property::Struct { struct_type, properties } => fstr_len_ok(struct_type.name@) && (forall|
            i: int,
        |
            0 <= i < properties@.len() ==> fits_fstr((#[trigger] properties@[i]).value)),
        Property::Array(es) => forall|i: int|
            0 <= i < es@.len() ==> fits_fstr(#[trigger] es@[i]),
        Property::TMap { key_type, value_type, entries } => fstr_len_ok(key_type@) && fstr_len_ok(
            value_type@,
        ) && (forall|i: int|
            0 <= i < entries@.len() ==> fits_fstr((#[trigger] entries@[i]).key) && fits_fstr(
                entries@[i].value,
            )),
        Property::TSet(es) => forall|i: int| 0 <= i < es@.len() ==> fits_fstr(#[trigger] es@[i]),
        Property::Enum { enum_type, value } => fstr_len_ok(enum_type.name@) && fstr_len_ok(
            value.name@,
        ),
        Property::ByteEnum { enum_type, value } => fstr_len_ok(enum_type.name@) && fstr_len_ok(
            value.name@,
        ),
        Property::SoftObjectPath(sp) => fstr_len_ok(sp.asset_path.name@) && fstr_len_ok(
            sp.sub_path@,
        ),
        Property::SoftClassPath(sp) => fstr_len_ok(sp.asset_path.name@) && fstr_len_ok(
            sp.sub_path@,
        ),
        Property::AssetObjectProperty(sp) => fstr_len_ok(sp.asset_path.name@) && fstr_len_ok(
            sp.sub_path@,
        ),
        Property::Delegate { function_name, .. } => fstr_len_ok(function_name.name@),
        Property::MulticastDelegate { delegates } => forall|i: int|
            0 <= i < delegates@.len() ==> fits_fstr(#[trigger] delegates@[i]),
        _ => true,
    }
}

/// True when the string fits the length prefix of the string layout.
fn fstr_len_ok_exec(s: &String) -> (r: bool)
    ensures
        r == fstr_len_ok(s@),
{
    s.as_str().unicode_len() < 0x4000_0000
}

impl Property {
    /// True when every string carried anywhere under this property
    /// fits the length prefix of the string layout: the executable
    /// check for the writer's requirement.
    pub fn fits_string_limits(&self) -> (r: bool)
        ensures
            r == fits_fstr(*self),
        decreases self,
    {
        match self {
            Property::String(s) => fstr_len_ok_exec(s),
            Property::Text { text, namespace, key } => {
                let t_ok = fstr_len_ok_exec(text);
                let ns_ok = match namespace {
                    Option::Some(s) => fstr_len_ok_exec(s),
                    Option::None => true,
                };
                let key_ok = match key {
                    Option::Some(s) => fstr_len_ok_exec(s),
                    Option::None => true,
                };
                t_ok && ns_ok && key_ok
            },
            Property::Struct { struct_type, properties } => fstr_len_ok_exec(&struct_type.name)
                && fits_named(properties),
            Property::Array(es) => fits_all(es),
            Property::TSet(es) => fits_all(es),
            Property::TMap { key_type, value_type, entries } => fstr_len_ok_exec(key_type)
                && fstr_len_ok_exec(value_type) && fits_entries(entries),
            Property::Enum { enum_type, value } => fstr_len_ok_exec(&enum_type.name)
                && fstr_len_ok_exec(&value.name),
            Property::ByteEnum { enum_type, value } => fstr_len_ok_exec(&enum_type.name)
                && fstr_len_ok_exec(&value.name),
            Property::SoftObjectPath(sp) => fstr_len_ok_exec(&sp.asset_path.name)
                && fstr_len_ok_exec(&sp.sub_path),
            Property::SoftClassPath(sp) => fstr_len_ok_exec(&sp.asset_path.name)
                && fstr_len_ok_exec(&sp.sub_path),
            Property::AssetObjectProperty(sp) => fstr_len_ok_exec(&sp.asset_path.name)
                && fstr_len_ok_exec(&sp.sub_path),
            Property::Delegate { function_name, .. } => fstr_len_ok_exec(&function_name.name),
            Property::MulticastDelegate { delegates } => fits_all(delegates),
            _ => true,
        }
    }
}

/// True when every property in the list passes
/// [`Property::fits_string_limits`].
fn fits_all(elements: &Vec<Property>) -> (r: bool)
    ensures
        r == forall|i: int| 0 <= i < elements@.len() ==> fits_fstr(#[trigger] elements@[i]),
    decreases elements,
{
    let n = elements.len();
    let mut i: usize = 0;
    let mut ok = true;
    while i < n
        invariant
            n == elements@.len(),
            i <= n,
            ok == forall|j: int| 0 <= j < i ==> fits_fstr(#[trigger] elements@[j]),
        decreases n - i,
    {
        let e_ok = elements[i].fits_string_limits();
        ok = ok && e_ok;
        i += 1;
    }
    ok
}

/// True when both halves of every map entry pass
/// [`Property::fits_string_limits`].
fn fits_entries(entries: &Vec<MapEntry>) -> (r: bool)
    ensures
        r == forall|i: int|
            0 <= i < entries@.len() ==> fits_fstr((#[trigger] entries@[i]).key) && fits_fstr(
                entries@[i].value,
            ),
    decreases entries,
{
    let n = entries.len();
    let mut i: usize = 0;
    let mut ok = true;
    while i < n
        invariant
            n == entries@.len(),
            i <= n,
            ok == forall|j: int|
                0 <= j < i ==> fits_fstr((#[trigger] entries@[j]).key) && fits_fstr(
                    entries@[j].value,
                ),
        decreases n - i,
    {
        let pair_ok = entries[i].key.fits_string_limits() && entries[i].value.fits_string_limits();
        ok = ok && pair_ok;
        i += 1;
    }
    ok
}

/// True when the value of every named entry passes
/// [`Property::fits_string_limits`].
fn fits_named(properties: &Vec<PropertyEntry>) -> (r: bool)
    ensures
        r == forall|i: int|
            0 <= i < properties@.len() ==> fits_fstr((#[trigger] properties@[i]).value),
    decreases properties,
{
    let n = properties.len();
    let mut i: usize = 0;
    let mut ok = true;
    while i < n
        invariant
            n == properties@.len(),
            i <= n,
            ok == forall|j: int| 0 <= j < i ==> fits_fstr((#[trigger] properties@[j]).value),
        decreases n - i,
    {
        let e_ok = properties[i].value.fits_string_limits();
        ok = ok && e_ok;
        i += 1;
    }
    ok
}

/// The element tag of a property always fits the string layout.
pub proof fn lemma_tag_fits(p: Property)
    ensures
        fstr_len_ok(type_tag(p)),
{
    reveal_strlit("BoolProperty");
    reveal_strlit("Int8Property");
    reveal_strlit("Int16Property");
    reveal_strlit("IntProperty");
    reveal_strlit("Int64Property");
    reveal_strlit("ByteProperty");
    reveal_strlit("UInt16Property");
    reveal_strlit("UInt32Property");
    reveal_strlit("UInt64Property");
    reveal_strlit("FloatProperty");
    reveal_strlit("DoubleProperty");
    reveal_strlit("StrProperty");
    reveal_strlit("NameProperty");
    reveal_strlit("TextProperty");
    reveal_strlit("ObjectProperty");
    reveal_strlit("StructProperty");
    reveal_strlit("ArrayProperty");
    reveal_strlit("MapProperty");
    reveal_strlit("SetProperty");
    reveal_strlit("EnumProperty");
    reveal_strlit("SoftObjectProperty");
    reveal_strlit("SoftClassProperty");
    reveal_strlit("AssetObjectProperty");
    reveal_strlit("PerPlatformBoolProperty");
    reveal_strlit("PerPlatformIntProperty");
    reveal_strlit("PerPlatformFloatProperty");
    reveal_strlit("DelegateProperty");
    reveal_strlit("MulticastDelegateProperty");
    reveal_strlit("MaterialInterfaceProperty");
    reveal_strlit("StaticMeshProperty");
    reveal_strlit("SkeletalMeshProperty");
    reveal_strlit("Texture2DProperty");
    reveal_strlit("LevelSequenceProperty");
    reveal_strlit("ComponentReferenceProperty");
    reveal_strlit("BlueprintProperty");
    reveal_strlit("WorldContextProperty");
    reveal_strlit("LandscapeComponentProperty");
    reveal_strlit("Unknown");
}

/// The tag of a property's view is the property's tag.
pub proof fn lemma_tag_agrees(p: Property)
    ensures
        tag_of(prop_view(p)) == type_tag(p),
{
}


// ------------------------------------------------------------------
// The executable decoder
// ------------------------------------------------------------------

/// Appending a property appends its view.
pub proof fn lemma_prop_views_push(s: Seq<Property>, p: Property)
    ensures
        prop_views(s.push(p)) == prop_views(s) + seq![prop_view(p)],
    decreases s.len(),
{
    if s.len() == 0 {
        assert(s.push(p).drop_first() =~= Seq::<Property>::empty());
        assert(s.push(p)[0] == p);
        assert(prop_views(Seq::<Property>::empty()) == Seq::<PropModel>::empty());
        assert(prop_views(s.push(p)) == seq![prop_view(p)] + Seq::<PropModel>::empty());
        assert(seq![prop_view(p)] + Seq::<PropModel>::empty() =~= prop_views(s) + seq![
            prop_view(p),
        ]);
    } else {
        assert(s.push(p).drop_first() =~= s.drop_first().push(p));
        lemma_prop_views_push(s.drop_first(), p);
        assert(s.push(p)[0] == s[0]);
        assert(prop_views(s.push(p)) == seq![prop_view(s[0])] + prop_views(s.drop_first().push(p)));
        assert((seq![prop_view(s[0])] + (prop_views(s.drop_first()) + seq![prop_view(p)])) =~= (
        seq![prop_view(s[0])] + prop_views(s.drop_first())) + seq![prop_view(p)]);
    }
}

/// Appending a map entry appends its view.
pub proof fn lemma_map_entry_views_push(s: Seq<MapEntry>, k: Property, v: Property)
    ensures
        map_entry_views(s.push(MapEntry { key: k, value: v })) == map_entry_views(s) + seq![
            MapEntryModel { key: prop_view(k), value: prop_view(v) },
        ],
    decreases s.len(),
{
    let e = MapEntry { key: k, value: v };
    let em = MapEntryModel { key: prop_view(k), value: prop_view(v) };
    if s.len() == 0 {
        assert(s.push(e).drop_first() =~= Seq::<MapEntry>::empty());
        assert(s.push(e)[0] == e);
        assert(map_entry_views(Seq::<MapEntry>::empty()) == Seq::<MapEntryModel>::empty());
        assert(map_entry_views(s.push(e)) == seq![em] + Seq::<MapEntryModel>::empty());
        assert(seq![em] + Seq::<MapEntryModel>::empty() =~= map_entry_views(s) + seq![em]);
    } else {
        assert(s.push(e).drop_first() =~= s.drop_first().push(e));
        lemma_map_entry_views_push(s.drop_first(), k, v);
        assert(s.push(e)[0] == s[0]);
        assert(map_entry_views(s.push(e)) == seq![
            MapEntryModel { key: prop_view(s[0].key), value: prop_view(s[0].value) },
        ] + map_entry_views(s.drop_first().push(e)));
        assert((seq![MapEntryModel { key: prop_view(s[0].key), value: prop_view(s[0].value) }] + (
        map_entry_views(s.drop_first()) + seq![em])) =~= (seq![
            MapEntryModel { key: prop_view(s[0].key), value: prop_view(s[0].value) },
        ] + map_entry_views(s.drop_first())) + seq![em]);
    }
}

/// Appending a named entry appends its view.
pub proof fn lemma_prop_entry_views_push(s: Seq<PropertyEntry>, e: PropertyEntry)
    ensures
        prop_entry_views(s.push(e)) == prop_entry_views(s) + seq![
            PropEntryModel { name: e.name@, value: prop_view(e.value) },
        ],
    decreases s.len(),
{
    let em = PropEntryModel { name: e.name@, value: prop_view(e.value) };
    if s.len() == 0 {
        assert(s.push(e).drop_first() =~= Seq::<PropertyEntry>::empty());
        assert(s.push(e)[0] == e);
        assert(prop_entry_views(Seq::<PropertyEntry>::empty()) == Seq::<PropEntryModel>::empty());
        assert(prop_entry_views(s.push(e)) == seq![em] + Seq::<PropEntryModel>::empty());
        assert(seq![em] + Seq::<PropEntryModel>::empty() =~= prop_entry_views(s) + seq![em]);
    } else {
        assert(s.push(e).drop_first() =~= s.drop_first().push(e));
        lemma_prop_entry_views_push(s.drop_first(), e);
        assert(s.push(e)[0] == s[0]);
        assert(prop_entry_views(s.push(e)) == seq![
            PropEntryModel { name: s[0].name@, value: prop_view(s[0].value) },
        ] + prop_entry_views(s.drop_first().push(e)));
        assert((seq![PropEntryModel { name: s[0].name@, value: prop_view(s[0].value) }] + (
        prop_entry_views(s.drop_first()) + seq![em])) =~= (seq![
            PropEntryModel { name: s[0].name@, value: prop_view(s[0].value) },
        ] + prop_entry_views(s.drop_first())) + seq![em]);
    }
}

/// True when the string equals the literal.
pub fn str_eq_lit(a: &String, lit: &str) -> (r: bool)
    ensures
        r == (a@ == lit@),
{
    let owned = lit.to_owned();
    *a == owned
}

/// Reads a name reference and resolves it in the table; an index
/// outside the table is the reference error the format calls out.
pub fn decode_fname(r: &mut BinaryArchive, names: &OptimizedNameMap) -> (res: Result<FName, Error>)
    requires
        old(r).wf(),
    ensures
        final(r).wf(),
        final(r).bytes() == old(r).bytes(),
        match dec_fname(old(r).bytes(), old(r).position(), names.entries()) {
            Option::Some(p) => res matches Ok(f) && fname_view(f) == p.0 && final(r).position()
                == p.1,
            Option::None => res is Err && final(r).position() == old(r).position(),
        },
{
    let start = r.tell();
    let table_len = names.len();
    let iw = match r.read_u32() {
        Ok(v) => v,
        Err(e) => {
            return Err(e);
        },
    };
    let num = match r.read_u32() {
        Ok(v) => v,
        Err(e) => {
            r.seek(start);
            return Err(e);
        },
    };
    let idx = iw as i32;
    if 0 <= idx && (idx as usize) < table_len {
        match names.get_string(idx as usize) {
            Option::Some(s) => {
                let name = s.clone();
                Ok(FName { name, number: num })
            },
            Option::None => {
                proof {
                    assert(false);
                }
                r.seek(start);
                Err(Error::NoData)
            },
        }
    } else {
        r.seek(start);
        Err(Error::InvalidIndex(idx))
    }
}

/// Reads an optional object reference and wraps it in the variant
/// `kind` names.
fn decode_opt_index_exec(r: &mut BinaryArchive, kind: u8) -> (res: Result<Property, Error>)
    requires
        old(r).wf(),
        kind <= 9,
    ensures
        final(r).wf(),
        final(r).bytes() == old(r).bytes(),
        match dec_opt_index(old(r).bytes(), old(r).position(), kind as int) {
            Option::Some(p) => res matches Ok(v) && prop_view(v) == p.0 && final(r).position()
                == p.1,
            Option::None => res is Err && final(r).position() == old(r).position(),
        },
{
    let bits = match r.read_u32() {
        Ok(v) => v,
        Err(e) => {
            return Err(e);
        },
    };
    let o: Option<PackageIndex> = if bits == 0 {
        Option::None
    } else {
        Option::Some(PackageIndex(bits as i32))
    };
    if kind == 0 {
        Ok(Property::Object(o))
    } else if kind == 1 {
        Ok(Property::MaterialInterface(o))
    } else if kind == 2 {
        Ok(Property::StaticMesh(o))
    } else if kind == 3 {
        Ok(Property::SkeletalMesh(o))
    } else if kind == 4 {
        Ok(Property::Texture2D(o))
    } else if kind == 5 {
        Ok(Property::LevelSequence(o))
    } else if kind == 6 {
        Ok(Property::ComponentReference(o))
    } else if kind == 7 {
        Ok(Property::Blueprint(o))
    } else if kind == 8 {
        Ok(Property::WorldContext(o))
    } else {
        Ok(Property::LandscapeComponent(o))
    }
}

/// Reads a path-addressed reference and wraps it in the variant `kind`
/// names.
fn decode_soft_path_exec(r: &mut BinaryArchive, kind: u8) -> (res: Result<Property, Error>)
    requires
        old(r).wf(),
        kind <= 2,
    ensures
        final(r).wf(),
        final(r).bytes() == old(r).bytes(),
        match dec_soft_path(old(r).bytes(), old(r).position(), kind as int) {
            Option::Some(p) => res matches Ok(v) && prop_view(v) == p.0 && final(r).position()
                == p.1,
            Option::None => res is Err && final(r).position() == old(r).position(),
        },
{
    let start = r.tell();
    let ap = match r.read_fstring() {
        Ok(v) => v,
        Err(e) => {
            return Err(e);
        },
    };
    let num = match r.read_u32() {
        Ok(v) => v,
        Err(e) => {
            r.seek(start);
            return Err(e);
        },
    };
    let sub = match r.read_fstring() {
        Ok(v) => v,
        Err(e) => {
            r.seek(start);
            return Err(e);
        },
    };
    let sp = SoftObjectPath { asset_path: FName { name: ap, number: num }, sub_path: sub };
    if kind == 0 {
        Ok(Property::SoftObjectPath(sp))
    } else if kind == 1 {
        Ok(Property::SoftClassPath(sp))
    } else {
        Ok(Property::AssetObjectProperty(sp))
    }
}

/// Reads a pair of inline names: an enumeration type and a value.
fn decode_two_names_exec(r: &mut BinaryArchive) -> (res: Result<(FName, FName), Error>)
    requires
        old(r).wf(),
    ensures
        final(r).wf(),
        final(r).bytes() == old(r).bytes(),
        match dec_two_names(old(r).bytes(), old(r).position()) {
            Option::Some(p) => res matches Ok(fs) && fname_view(fs.0) == p.0.0 && fname_view(fs.1)
                == p.0.1 && final(r).position() == p.1,
            Option::None => res is Err && final(r).position() == old(r).position(),
        },
{
    let start = r.tell();
    let en = match r.read_fstring() {
        Ok(v) => v,
        Err(e) => {
            return Err(e);
        },
    };
    let enum_num = match r.read_u32() {
        Ok(v) => v,
        Err(e) => {
            r.seek(start);
            return Err(e);
        },
    };
    let vn = match r.read_fstring() {
        Ok(v) => v,
        Err(e) => {
            r.seek(start);
            return Err(e);
        },
    };
    let vnum = match r.read_u32() {
        Ok(v) => v,
        Err(e) => {
            r.seek(start);
            return Err(e);
        },
    };
    Ok((FName { name: en, number: enum_num }, FName { name: vn, number: vnum }))
}

/// Reads an optional inline string.
fn decode_opt_fstr_exec(r: &mut BinaryArchive) -> (res: Result<Option<String>, Error>)
    requires
        old(r).wf(),
    ensures
        final(r).wf(),
        final(r).bytes() == old(r).bytes(),
        match dec_opt_fstr(old(r).bytes(), old(r).position()) {
            Option::Some(p) => res matches Ok(o) && (match o {
                Option::Some(s) => p.0 matches Option::Some(sm) && s@ == sm,
                Option::None => p.0 is None,
            }) && final(r).position() == p.1,
            Option::None => res is Err && final(r).position() == old(r).position(),
        },
{
    let start = r.tell();
    let flag = match r.read_u8() {
        Ok(v) => v,
        Err(e) => {
            return Err(e);
        },
    };
    if flag == 0 {
        Ok(Option::None)
    } else if flag == 1 {
        match r.read_fstring() {
            Ok(s) => Ok(Option::Some(s)),
            Err(e) => {
                r.seek(start);
                Err(e)
            },
        }
    } else {
        r.seek(start);
        Err(Error::InvalidData("string presence flag out of range".to_owned()))
    }
}

/// Reads the fixed-layout payload of the struct type named `sn`.
#[verifier::rlimit(100)]
#[verifier::spinoff_prover]
fn decode_fixed_struct_exec(r: &mut BinaryArchive, sn: &String) -> (res: Result<Property, Error>)
    requires
        old(r).wf(),
        is_fixed_struct_name(sn@),
    ensures
        final(r).wf(),
        final(r).bytes() == old(r).bytes(),
        match dec_fixed_struct(old(r).bytes(), old(r).position(), sn@) {
            Option::Some(p) => res matches Ok(v) && prop_view(v) == p.0 && final(r).position()
                == p.1,
            Option::None => res is Err && final(r).position() == old(r).position(),
        },
{
    proof {
        reveal_with_fuel(dec_u32s, 12);
    }
    let start = r.tell();
    if str_eq_lit(sn, "Vector") {
        let x = match r.read_u32() {
            Ok(v) => v,
            Err(e) => {
                return Err(e);
            },
        };
        let y = match r.read_u32() {
            Ok(v) => v,
            Err(e) => {
                r.seek(start);
                return Err(e);
            },
        };
        let z = match r.read_u32() {
            Ok(v) => v,
            Err(e) => {
                r.seek(start);
                return Err(e);
            },
        };
        Ok(Property::Vector(Vector { x, y, z }))
    } else if str_eq_lit(sn, "Vector2D") {
        let x = match r.read_u32() {
            Ok(v) => v,
            Err(e) => {
                return Err(e);
            },
        };
        let y = match r.read_u32() {
            Ok(v) => v,
            Err(e) => {
                r.seek(start);
                return Err(e);
            },
        };
        Ok(Property::Vector2D(Vector2D { x, y }))
    } else if str_eq_lit(sn, "Vector4") {
        let x = match r.read_u32() {
            Ok(v) => v,
            Err(e) => {
                return Err(e);
            },
        };
        let y = match r.read_u32() {
            Ok(v) => v,
            Err(e) => {
                r.seek(start);
                return Err(e);
            },
        };
        let z = match r.read_u32() {
            Ok(v) => v,
            Err(e) => {
                r.seek(start);
                return Err(e);
            },
        };
        let w = match r.read_u32() {
            Ok(v) => v,
            Err(e) => {
                r.seek(start);
                return Err(e);
            },
        };
        Ok(Property::Vector4(Vector4 { x, y, z, w }))
    } else if str_eq_lit(sn, "Rotator") {
        let pitch = match r.read_u32() {
            Ok(v) => v,
            Err(e) => {
                return Err(e);
            },
        };
        let yaw = match r.read_u32() {
            Ok(v) => v,
            Err(e) => {
                r.seek(start);
                return Err(e);
            },
        };
        let roll = match r.read_u32() {
            Ok(v) => v,
            Err(e) => {
                r.seek(start);
                return Err(e);
            },
        };
        Ok(Property::Rotator(Rotator { pitch, yaw, roll }))
    } else if str_eq_lit(sn, "Quat") {
        let x = match r.read_u32() {
            Ok(v) => v,
            Err(e) => {
                return Err(e);
            },
        };
        let y = match r.read_u32() {
            Ok(v) => v,
            Err(e) => {
                r.seek(start);
                return Err(e);
            },
        };
        let z = match r.read_u32() {
            Ok(v) => v,
            Err(e) => {
                r.seek(start);
                return Err(e);
            },
        };
        let w = match r.read_u32() {
            Ok(v) => v,
            Err(e) => {
                r.seek(start);
                return Err(e);
            },
        };
        Ok(Property::Quat(Quat { x, y, z, w }))
    } else if str_eq_lit(sn, "LinearColor") {
        let red = match r.read_u32() {
            Ok(v) => v,
            Err(e) => {
                return Err(e);
            },
        };
        let g = match r.read_u32() {
            Ok(v) => v,
            Err(e) => {
                r.seek(start);
                return Err(e);
            },
        };
        let bl = match r.read_u32() {
            Ok(v) => v,
            Err(e) => {
                r.seek(start);
                return Err(e);
            },
        };
        let a = match r.read_u32() {
            Ok(v) => v,
            Err(e) => {
                r.seek(start);
                return Err(e);
            },
        };
        Ok(Property::LinearColor(LinearColor { r: red, g, b: bl, a }))
    } else if str_eq_lit(sn, "Transform") {
        let mut vs: Vec<u32> = Vec::new();
        let mut i: usize = 0;
        let ghost b = r.bytes();
        proof {
            reveal_with_fuel(dec_u32s, 2);
        }
        while i < 10
            invariant
                r.wf(),
                r.bytes() == b,
                b == old(r).bytes(),
                start == old(r).position(),
                start <= b.len(),
                i <= 10,
                i == vs@.len(),
                r.position() == start + 4 * i,
                sn@ != "Vector"@ && sn@ != "Vector2D"@ && sn@ != "Vector4"@ && sn@ != "Rotator"@,
                sn@ != "Quat"@ && sn@ != "LinearColor"@ && sn@ == "Transform"@,
                match dec_u32s(b, start as int, i as int) {
                    Option::Some(p) => p.0 =~= vs@ && p.1 == start + 4 * i,
                    Option::None => false,
                },
            decreases 10 - i,
        {
            let v = match r.read_u32() {
                Ok(v) => v,
                Err(e) => {
                    proof {
                        lemma_dec_u32s_snoc(b, start as int, i as int);
                        lemma_dec_u32s_mono_none(b, start as int, i as int + 1, 10);
                    }
                    r.seek(start);
                    return Err(e);
                },
            };
            vs.push(v);
            proof {
                lemma_dec_u32s_snoc(b, start as int, i as int);
            }
            i += 1;
        }
        proof {
            assert(dec_u32s(b, start as int, 10) matches Option::Some(p) && p.0 =~= vs@);
        }
        Ok(
            Property::Transform(
                Transform {
                    location: Vector { x: vs[0], y: vs[1], z: vs[2] },
                    rotation: Quat { x: vs[3], y: vs[4], z: vs[5], w: vs[6] },
                    scale: Vector { x: vs[7], y: vs[8], z: vs[9] },
                },
            ),
        )
    } else if str_eq_lit(sn, "Guid") {
        match r.read_guid() {
            Ok(g) => Ok(Property::Guid(g)),
            Err(e) => Err(e),
        }
    } else if str_eq_lit(sn, "DateTime") {
        match r.read_i64() {
            Ok(v) => Ok(Property::DateTime(v)),
            Err(e) => Err(e),
        }
    } else {
        proof {
            assert(sn@ == "Timespan"@);
        }
        match r.read_i64() {
            Ok(v) => Ok(Property::TimeSpan(v)),
            Err(e) => Err(e),
        }
    }
}

/// A failed 32-bit-run parse stays failed for any longer run.
pub proof fn lemma_dec_u32s_mono_none(b: Seq<u8>, pos: int, n: int, m: int)
    requires
        0 <= n <= m,
        dec_u32s(b, pos, n) is None,
    ensures
        dec_u32s(b, pos, m) is None,
    decreases n,
{
    if n > 0 {
        match dec_u32(b, pos) {
            Option::Some(q) => {
                lemma_dec_u32s_mono_none(b, q.1, n - 1, m - 1);
            },
            Option::None => {},
        }
    }
}

/// Reading one more value extends a 32-bit-run parse by one.
pub proof fn lemma_dec_u32s_snoc(b: Seq<u8>, pos: int, n: int)
    requires
        n >= 0,
    ensures
        (match dec_u32s(b, pos, n) {
            Option::Some(p) => match dec_u32(b, p.1) {
                Option::Some(q) => dec_u32s(b, pos, n + 1) matches Option::Some(w) && w.0 =~= p.0
                    + seq![q.0] && w.1 == q.1,
                Option::None => dec_u32s(b, pos, n + 1) is None,
            },
            Option::None => dec_u32s(b, pos, n + 1) is None,
        }),
    decreases n,
{
    if n == 0 {
        match dec_u32(b, pos) {
            Option::Some(q) => {
                assert(dec_u32s(b, pos, 1) matches Option::Some(w) && w.0 =~= seq![q.0] && w.1
                    == q.1) by {
                    reveal_with_fuel(dec_u32s, 3);
                }
            },
            Option::None => {
                reveal_with_fuel(dec_u32s, 3);
            },
        }
    } else {
        match dec_u32(b, pos) {
            Option::Some(q0) => {
                lemma_dec_u32s_snoc(b, q0.1, n - 1);
                match dec_u32s(b, q0.1, n - 1) {
                    Option::Some(p) => {
                        match dec_u32(b, p.1) {
                            Option::Some(q) => {
                                assert((seq![q0.0] + (p.0 + seq![q.0])) =~= ((seq![q0.0] + p.0)
                                    + seq![q.0]));
                            },
                            Option::None => {},
                        }
                    },
                    Option::None => {},
                }
            },
            Option::None => {},
        }
    }
}


/// A failed presence-byte-run parse stays failed for any longer run.
pub proof fn lemma_dec_bools_mono_none(b: Seq<u8>, pos: int, n: int, m: int)
    requires
        0 <= n <= m,
        dec_bools(b, pos, n) is None,
    ensures
        dec_bools(b, pos, m) is None,
    decreases n,
{
    if n > 0 {
        match dec_u8(b, pos) {
            Option::Some(q) => {
                lemma_dec_bools_mono_none(b, q.1, n - 1, m - 1);
            },
            Option::None => {},
        }
    }
}

/// Reading one more presence byte extends a run parse by one.
pub proof fn lemma_dec_bools_snoc(b: Seq<u8>, pos: int, n: int)
    requires
        n >= 0,
    ensures
        (match dec_bools(b, pos, n) {
            Option::Some(p) => match dec_u8(b, p.1) {
                Option::Some(q) => dec_bools(b, pos, n + 1) matches Option::Some(w) && w.0 =~= p.0
                    + seq![(q.0 != 0)] && w.1 == q.1,
                Option::None => dec_bools(b, pos, n + 1) is None,
            },
            Option::None => dec_bools(b, pos, n + 1) is None,
        }),
    decreases n,
{
    if n == 0 {
        match dec_u8(b, pos) {
            Option::Some(q) => {
                assert(dec_bools(b, pos, 1) matches Option::Some(w) && w.0 =~= seq![(q.0 != 0)]
                    && w.1 == q.1) by {
                    reveal_with_fuel(dec_bools, 3);
                }
            },
            Option::None => {
                reveal_with_fuel(dec_bools, 3);
            },
        }
    } else {
        match dec_u8(b, pos) {
            Option::Some(q0) => {
                lemma_dec_bools_snoc(b, q0.1, n - 1);
                match dec_bools(b, q0.1, n - 1) {
                    Option::Some(p) => {
                        match dec_u8(b, p.1) {
                            Option::Some(q) => {
                                assert((seq![(q0.0 != 0)] + (p.0 + seq![(q.0 != 0)])) =~= ((seq![
                                    (q0.0 != 0),
                                ] + p.0) + seq![(q.0 != 0)]));
                            },
                            Option::None => {},
                        }
                    },
                    Option::None => {},
                }
            },
            Option::None => {},
        }
    }
}

/// True when the string is a struct type name with a fixed layout.
pub fn is_fixed_struct_name_exec(s: &String) -> (r: bool)
    ensures
        r == is_fixed_struct_name(s@),
{
    str_eq_lit(s, "Vector") || str_eq_lit(s, "Vector2D") || str_eq_lit(s, "Vector4") || str_eq_lit(
        s,
        "Rotator",
    ) || str_eq_lit(s, "Quat") || str_eq_lit(s, "LinearColor") || str_eq_lit(s, "Transform")
        || str_eq_lit(s, "Guid") || str_eq_lit(s, "DateTime") || str_eq_lit(s, "Timespan")
}

/// Reads `n` list elements.
#[verifier::rlimit(100)]
#[verifier::spinoff_prover]
pub fn decode_elements(r: &mut BinaryArchive, names: &OptimizedNameMap, n: u32) -> (res: Result<
    Vec<Property>,
    Error,
>)
    requires
        old(r).wf(),
    ensures
        final(r).wf(),
        final(r).bytes() == old(r).bytes(),
        match dec_elements(old(r).bytes(), old(r).position(), n as int, names.entries()) {
            Option::Some(p) => res matches Ok(vec) && prop_views(vec@) == p.0 && final(r).position()
                == p.1,
            Option::None => res is Err && final(r).position() == old(r).position(),
        },
    decreases r.bytes().len() - r.position(), 1int,
{
    let start = r.tell();
    let ghost b = r.bytes();
    let ghost t = names.entries();
    let mut out: Vec<Property> = Vec::new();
    let mut j: u32 = 0;
    proof {
        assert(prop_views(Seq::<Property>::empty()) == Seq::<PropModel>::empty());
    }
    while j < n
        invariant
            r.wf(),
            r.bytes() == b,
            b == old(r).bytes(),
            start == old(r).position(),
            t == names.entries(),
            j <= n,
            start <= r.position() <= b.len(),
            out@.len() == j,
            prop_views(out@).len() == j,
            match dec_elements(b, r.position(), (n - j) as int, t) {
                Option::Some(p) => dec_elements(b, start as int, n as int, t) matches Option::Some(
                    whole,
                ) && whole.0 =~= prop_views(out@) + p.0 && whole.1 == p.1,
                Option::None => dec_elements(b, start as int, n as int, t) is None,
            },
        decreases n - j,
    {
        let cur = r.tell();
        let v = match decode_element(r, names) {
            Ok(v) => v,
            Err(e) => {
                r.seek(start);
                return Err(e);
            },
        };
        let p1 = r.tell();
        if !(p1 > cur) {
            r.seek(start);
            return Err(Error::NoData);
        }
        proof {
            lemma_prop_views_push(out@, v);
            lemma_prop_views(out@);
        }
        out.push(v);
        j += 1;
    }
    proof {
        assert(prop_views(out@) + Seq::<PropModel>::empty() =~= prop_views(out@));
    }
    Ok(out)
}

/// Reads `n` map entries.
#[verifier::rlimit(100)]
#[verifier::spinoff_prover]
pub fn decode_entries(r: &mut BinaryArchive, names: &OptimizedNameMap, n: u32) -> (res: Result<
    Vec<MapEntry>,
    Error,
>)
    requires
        old(r).wf(),
    ensures
        final(r).wf(),
        final(r).bytes() == old(r).bytes(),
        match dec_entries(old(r).bytes(), old(r).position(), n as int, names.entries()) {
            Option::Some(p) => res matches Ok(vec) && map_entry_views(vec@) == p.0 && final(r).position()
                == p.1,
            Option::None => res is Err && final(r).position() == old(r).position(),
        },
    decreases r.bytes().len() - r.position(), 1int,
{
    let start = r.tell();
    let ghost b = r.bytes();
    let ghost t = names.entries();
    let mut out: Vec<MapEntry> = Vec::new();
    let mut j: u32 = 0;
    proof {
        assert(map_entry_views(Seq::<MapEntry>::empty()) == Seq::<MapEntryModel>::empty());
    }
    while j < n
        invariant
            r.wf(),
            r.bytes() == b,
            b == old(r).bytes(),
            start == old(r).position(),
            t == names.entries(),
            j <= n,
            start <= r.position() <= b.len(),
            out@.len() == j,
            map_entry_views(out@).len() == j,
            match dec_entries(b, r.position(), (n - j) as int, t) {
                Option::Some(p) => dec_entries(b, start as int, n as int, t) matches Option::Some(
                    whole,
                ) && whole.0 =~= map_entry_views(out@) + p.0 && whole.1 == p.1,
                Option::None => dec_entries(b, start as int, n as int, t) is None,
            },
        decreases n - j,
    {
        let cur = r.tell();
        let k = match decode_element(r, names) {
            Ok(v) => v,
            Err(e) => {
                r.seek(start);
                return Err(e);
            },
        };
        let p1 = r.tell();
        if !(p1 > cur) {
            r.seek(start);
            return Err(Error::NoData);
        }
        let v = match decode_element(r, names) {
            Ok(v) => v,
            Err(e) => {
                r.seek(start);
                return Err(e);
            },
        };
        let p2 = r.tell();
        if !(p2 > p1) {
            r.seek(start);
            return Err(Error::NoData);
        }
        proof {
            lemma_map_entry_views_push(out@, k, v);
            lemma_map_entry_views(out@);
        }
        out.push(MapEntry { key: k, value: v });
        j += 1;
    }
    proof {
        assert(map_entry_views(out@) + Seq::<MapEntryModel>::empty() =~= map_entry_views(out@));
    }
    Ok(out)
}

/// Reads a property stream up to and including its `None` terminator.
#[verifier::rlimit(100)]
#[verifier::spinoff_prover]
pub fn decode_stream(r: &mut BinaryArchive, names: &OptimizedNameMap) -> (res: Result<
    Vec<PropertyEntry>,
    Error,
>)
    requires
        old(r).wf(),
    ensures
        final(r).wf(),
        final(r).bytes() == old(r).bytes(),
        match dec_stream(old(r).bytes(), old(r).position(), names.entries()) {
            Option::Some(p) => res matches Ok(vec) && prop_entry_views(vec@) == p.0 && final(r).position()
                == p.1,
            Option::None => res is Err && final(r).position() == old(r).position(),
        },
    decreases r.bytes().len() - r.position(), 1int,
{
    let start = r.tell();
    let ghost b = r.bytes();
    let ghost t = names.entries();
    let mut out: Vec<PropertyEntry> = Vec::new();
    proof {
        assert(prop_entry_views(Seq::<PropertyEntry>::empty()) == Seq::<PropEntryModel>::empty());
    }
    loop
        invariant
            r.wf(),
            r.bytes() == b,
            b == old(r).bytes(),
            start == old(r).position(),
            t == names.entries(),
            start <= r.position() <= b.len(),
            prop_entry_views(out@).len() == out@.len(),
            match dec_stream(b, r.position(), t) {
                Option::Some(p) => dec_stream(b, start as int, t) matches Option::Some(whole)
                    && whole.0 =~= prop_entry_views(out@) + p.0 && whole.1 == p.1,
                Option::None => dec_stream(b, start as int, t) is None,
            },
        decreases b.len() - r.position(),
    {
        let cur = r.tell();
        let f = match decode_fname(r, names) {
            Ok(f) => f,
            Err(e) => {
                r.seek(start);
                return Err(e);
            },
        };
        if str_eq_lit(&f.name, "None") {
            proof {
                assert(prop_entry_views(out@) + Seq::<PropEntryModel>::empty() =~= prop_entry_views(
                    out@,
                ));
            }
            return Ok(out);
        }
        let p1 = r.tell();
        if !(p1 > cur) {
            r.seek(start);
            return Err(Error::NoData);
        }
        let v = match decode_element(r, names) {
            Ok(v) => v,
            Err(e) => {
                r.seek(start);
                return Err(e);
            },
        };
        let p2 = r.tell();
        if !(p2 > p1) {
            r.seek(start);
            return Err(Error::NoData);
        }
        let entry = PropertyEntry { name: f.name, value: v };
        proof {
            lemma_prop_entry_views_push(out@, entry);
            lemma_prop_entry_views(out@);
        }
        out.push(entry);
    }
}


/// Reads a run of `n` presence bytes.
fn decode_bool_run(r: &mut BinaryArchive, n: u32) -> (res: Result<Vec<bool>, Error>)
    requires
        old(r).wf(),
    ensures
        final(r).wf(),
        final(r).bytes() == old(r).bytes(),
        match dec_bools(old(r).bytes(), old(r).position(), n as int) {
            Option::Some(p) => res matches Ok(vec) && vec@ == p.0 && final(r).position() == p.1,
            Option::None => res is Err && final(r).position() == old(r).position(),
        },
{
    let start = r.tell();
    let ghost b = r.bytes();
    let mut vs: Vec<bool> = Vec::new();
    let mut j: u32 = 0;
    proof {
        reveal_with_fuel(dec_bools, 2);
    }
    while j < n
        invariant
            r.wf(),
            r.bytes() == b,
            b == old(r).bytes(),
            start == old(r).position(),
            start <= b.len(),
            j <= n,
            j == vs@.len(),
            start <= r.position() <= b.len(),
            match dec_bools(b, start as int, j as int) {
                Option::Some(p) => p.0 =~= vs@ && p.1 == r.position(),
                Option::None => false,
            },
        decreases n - j,
    {
        let v = match r.read_u8() {
            Ok(v) => v,
            Err(e) => {
                proof {
                    lemma_dec_bools_snoc(b, start as int, j as int);
                    lemma_dec_bools_mono_none(b, start as int, j as int + 1, n as int);
                }
                r.seek(start);
                return Err(e);
            },
        };
        proof {
            lemma_dec_bools_snoc(b, start as int, j as int);
        }
        vs.push(v != 0);
        j += 1;
    }
    proof {
        if let Option::Some(p) = dec_bools(b, start as int, n as int) {
            assert(vs@ =~= p.0);
        }
    }
    Ok(vs)
}

/// Reads a run of `n` 32-bit values.
fn decode_u32_run(r: &mut BinaryArchive, n: u32) -> (res: Result<Vec<u32>, Error>)
    requires
        old(r).wf(),
    ensures
        final(r).wf(),
        final(r).bytes() == old(r).bytes(),
        match dec_u32s(old(r).bytes(), old(r).position(), n as int) {
            Option::Some(p) => res matches Ok(vec) && vec@ == p.0 && final(r).position() == p.1,
            Option::None => res is Err && final(r).position() == old(r).position(),
        },
{
    let start = r.tell();
    let ghost b = r.bytes();
    let mut vs: Vec<u32> = Vec::new();
    let mut j: u32 = 0;
    proof {
        reveal_with_fuel(dec_u32s, 2);
    }
    while j < n
        invariant
            r.wf(),
            r.bytes() == b,
            b == old(r).bytes(),
            start == old(r).position(),
            start <= b.len(),
            j <= n,
            j == vs@.len(),
            start <= r.position() <= b.len(),
            match dec_u32s(b, start as int, j as int) {
                Option::Some(p) => p.0 =~= vs@ && p.1 == r.position(),
                Option::None => false,
            },
        decreases n - j,
    {
        let v = match r.read_u32() {
            Ok(v) => v,
            Err(e) => {
                proof {
                    lemma_dec_u32s_snoc(b, start as int, j as int);
                    lemma_dec_u32s_mono_none(b, start as int, j as int + 1, n as int);
                }
                r.seek(start);
                return Err(e);
            },
        };
        proof {
            lemma_dec_u32s_snoc(b, start as int, j as int);
        }
        vs.push(v);
        j += 1;
    }
    proof {
        if let Option::Some(p) = dec_u32s(b, start as int, n as int) {
            assert(vs@ =~= p.0);
        }
    }
    Ok(vs)
}

/// Reinterprets a run of 32-bit values as signed.
fn u32s_to_i32s(vs: &Vec<u32>) -> (out: Vec<i32>)
    ensures
        out@.len() == vs@.len(),
        forall|k: int| 0 <= k < vs@.len() ==> out@[k] == (#[trigger] vs@[k]) as i32,
{
    let n = vs.len();
    let mut out: Vec<i32> = Vec::new();
    let mut i: usize = 0;
    while i < n
        invariant
            n == vs@.len(),
            i <= n,
            out@.len() == i,
            forall|k: int| 0 <= k < i ==> out@[k] == (#[trigger] vs@[k]) as i32,
        decreases n - i,
    {
        out.push(vs[i] as i32);
        i += 1;
    }
    out
}

/// Reads one property element: its tag, payload size and payload. An
/// unrecognized tag yields `Unknown` with the payload's raw bytes; a
/// name index outside the table or a truncated input is an error.
pub fn decode_element(r: &mut BinaryArchive, names: &OptimizedNameMap) -> (res: Result<
    Property,
    Error,
>)
    requires
        old(r).wf(),
    ensures
        final(r).wf(),
        final(r).bytes() == old(r).bytes(),
        match dec_element(old(r).bytes(), old(r).position(), names.entries()) {
            Option::Some(p) => res matches Ok(v) && prop_view(v) == p.0 && final(r).position()
                == p.1,
            Option::None => res is Err && final(r).position() == old(r).position(),
        },
    decreases r.bytes().len() - r.position(), 0int,
{
    let start = r.tell();
    let ghost b = r.bytes();
    let ghost t = names.entries();
    let tag = match r.read_fstring() {
        Ok(v) => v,
        Err(e) => {
            return Err(e);
        },
    };
    let size = match r.read_u64() {
        Ok(v) => v,
        Err(e) => {
            r.seek(start);
            return Err(e);
        },
    };
    let p2 = r.tell();
    if !(p2 > start) {
        r.seek(start);
        return Err(Error::NoData);
    }
    proof {
        reveal(dec_payload);
        reveal_with_fuel(dec_element, 2);
        assert(dec_element(b, start as int, t) == dec_payload(b, p2 as int, t, tag@, size));
    }
    match decode_payload_scalar(r, names, &tag, size) {
        Ok(v) => Ok(v),
        Err(e) => {
            r.seek(start);
            Err(e)
        },
    }
}

/// Reads a payload whose tag names a scalar or string kind; other tags
/// go on to the reference and container kinds.
#[verifier::rlimit(100)]
#[verifier::spinoff_prover]
fn decode_payload_scalar(
    r: &mut BinaryArchive,
    names: &OptimizedNameMap,
    tag: &String,
    size: u64,
) -> (res: Result<Property, Error>)
    requires
        old(r).wf(),
    ensures
        final(r).wf(),
        final(r).bytes() == old(r).bytes(),
        match dec_payload(old(r).bytes(), old(r).position(), names.entries(), tag@, size) {
            Option::Some(p) => res matches Ok(v) && prop_view(v) == p.0 && final(r).position()
                == p.1,
            Option::None => res is Err && final(r).position() == old(r).position(),
        },
    decreases r.bytes().len() - r.position(), 3int,
{
    proof {
        reveal(dec_payload);
    }
    let pstart = r.tell();
    if str_eq_lit(tag, "BoolProperty") {
        match r.read_u8() {
            Ok(v) => Ok(Property::Bool(v != 0)),
            Err(e) => Err(e),
        }
    } else if str_eq_lit(tag, "Int8Property") {
        match r.read_u8() {
            Ok(v) => Ok(Property::Int8(v as i8)),
            Err(e) => Err(e),
        }
    } else if str_eq_lit(tag, "Int16Property") {
        match r.read_u16() {
            Ok(v) => Ok(Property::Int16(v as i16)),
            Err(e) => Err(e),
        }
    } else if str_eq_lit(tag, "IntProperty") {
        match r.read_i32() {
            Ok(v) => Ok(Property::Int32(v)),
            Err(e) => Err(e),
        }
    } else if str_eq_lit(tag, "Int64Property") {
        match r.read_i64() {
            Ok(v) => Ok(Property::Int64(v)),
            Err(e) => Err(e),
        }
    } else if str_eq_lit(tag, "ByteProperty") {
        if size == 1 {
            match r.read_u8() {
                Ok(v) => Ok(Property::UInt8(v)),
                Err(e) => Err(e),
            }
        } else {
            match decode_two_names_exec(r) {
                Ok(fs) => Ok(Property::ByteEnum { enum_type: fs.0, value: fs.1 }),
                Err(e) => Err(e),
            }
        }
    } else if str_eq_lit(tag, "UInt16Property") {
        match r.read_u16() {
            Ok(v) => Ok(Property::UInt16(v)),
            Err(e) => Err(e),
        }
    } else if str_eq_lit(tag, "UInt32Property") {
        match r.read_u32() {
            Ok(v) => Ok(Property::UInt32(v)),
            Err(e) => Err(e),
        }
    } else if str_eq_lit(tag, "UInt64Property") {
        match r.read_u64() {
            Ok(v) => Ok(Property::UInt64(v)),
            Err(e) => Err(e),
        }
    } else if str_eq_lit(tag, "FloatProperty") {
        match r.read_u32() {
            Ok(v) => Ok(Property::Float(v)),
            Err(e) => Err(e),
        }
    } else if str_eq_lit(tag, "DoubleProperty") {
        match r.read_u64() {
            Ok(v) => Ok(Property::Double(v)),
            Err(e) => Err(e),
        }
    } else if str_eq_lit(tag, "StrProperty") {
        match r.read_fstring() {
            Ok(v) => Ok(Property::String(v)),
            Err(e) => Err(e),
        }
    } else if str_eq_lit(tag, "NameProperty") {
        match decode_fname(r, names) {
            Ok(f) => Ok(Property::Name(f)),
            Err(e) => Err(e),
        }
    } else if str_eq_lit(tag, "TextProperty") {
        let text = match r.read_fstring() {
            Ok(v) => v,
            Err(e) => {
                return Err(e);
            },
        };
        let ns = match decode_opt_fstr_exec(r) {
            Ok(v) => v,
            Err(e) => {
                r.seek(pstart);
                return Err(e);
            },
        };
        let key = match decode_opt_fstr_exec(r) {
            Ok(v) => v,
            Err(e) => {
                r.seek(pstart);
                return Err(e);
            },
        };
        Ok(Property::Text { text, namespace: ns, key })
    } else {
        decode_payload_refs(r, names, tag, size)
    }
}

/// Reads a payload whose tag names a reference or fixed-struct kind;
/// other tags go on to the container kinds.
#[verifier::rlimit(100)]
#[verifier::spinoff_prover]
fn decode_payload_refs(
    r: &mut BinaryArchive,
    names: &OptimizedNameMap,
    tag: &String,
    size: u64,
) -> (res: Result<Property, Error>)
    requires
        old(r).wf(),
        tag@ != "BoolProperty"@ && tag@ != "Int8Property"@ && tag@ != "Int16Property"@,
        tag@ != "IntProperty"@ && tag@ != "Int64Property"@ && tag@ != "ByteProperty"@,
        tag@ != "UInt16Property"@ && tag@ != "UInt32Property"@ && tag@ != "UInt64Property"@,
        tag@ != "FloatProperty"@ && tag@ != "DoubleProperty"@ && tag@ != "StrProperty"@,
        tag@ != "NameProperty"@ && tag@ != "TextProperty"@,
    ensures
        final(r).wf(),
        final(r).bytes() == old(r).bytes(),
        match dec_payload(old(r).bytes(), old(r).position(), names.entries(), tag@, size) {
            Option::Some(p) => res matches Ok(v) && prop_view(v) == p.0 && final(r).position()
                == p.1,
            Option::None => res is Err && final(r).position() == old(r).position(),
        },
    decreases r.bytes().len() - r.position(), 2int,
{
    proof {
        reveal(dec_payload);
    }
    let pstart = r.tell();
    if str_eq_lit(tag, "ObjectProperty") {
        decode_opt_index_exec(r, 0)
    } else if str_eq_lit(tag, "MaterialInterfaceProperty") {
        decode_opt_index_exec(r, 1)
    } else if str_eq_lit(tag, "StaticMeshProperty") {
        decode_opt_index_exec(r, 2)
    } else if str_eq_lit(tag, "SkeletalMeshProperty") {
        decode_opt_index_exec(r, 3)
    } else if str_eq_lit(tag, "Texture2DProperty") {
        decode_opt_index_exec(r, 4)
    } else if str_eq_lit(tag, "LevelSequenceProperty") {
        decode_opt_index_exec(r, 5)
    } else if str_eq_lit(tag, "ComponentReferenceProperty") {
        decode_opt_index_exec(r, 6)
    } else if str_eq_lit(tag, "BlueprintProperty") {
        decode_opt_index_exec(r, 7)
    } else if str_eq_lit(tag, "WorldContextProperty") {
        decode_opt_index_exec(r, 8)
    } else if str_eq_lit(tag, "LandscapeComponentProperty") {
        decode_opt_index_exec(r, 9)
    } else if str_eq_lit(tag, "StructProperty") {
        let sn = match r.read_fstring() {
            Ok(v) => v,
            Err(e) => {
                return Err(e);
            },
        };
        let snum = match r.read_u32() {
            Ok(v) => v,
            Err(e) => {
                r.seek(pstart);
                return Err(e);
            },
        };
        if is_fixed_struct_name_exec(&sn) && snum == 0 {
            match decode_fixed_struct_exec(r, &sn) {
                Ok(v) => Ok(v),
                Err(e) => {
                    r.seek(pstart);
                    Err(e)
                },
            }
        } else {
            let p3 = r.tell();
            if !(p3 > pstart) {
                r.seek(pstart);
                return Err(Error::NoData);
            }
            match decode_stream(r, names) {
                Ok(props) => Ok(
                    Property::Struct {
                        struct_type: FName { name: sn, number: snum },
                        properties: props,
                    },
                ),
                Err(e) => {
                    r.seek(pstart);
                    Err(e)
                },
            }
        }
    } else if str_eq_lit(tag, "ArrayProperty") {
        let n = match r.read_u32() {
            Ok(v) => v,
            Err(e) => {
                return Err(e);
            },
        };
        let p3 = r.tell();
        if !(p3 > pstart) {
            r.seek(pstart);
            return Err(Error::NoData);
        }
        match decode_elements(r, names, n) {
            Ok(es) => Ok(Property::Array(es)),
            Err(e) => {
                r.seek(pstart);
                Err(e)
            },
        }
    } else if str_eq_lit(tag, "SetProperty") {
        let n = match r.read_u32() {
            Ok(v) => v,
            Err(e) => {
                return Err(e);
            },
        };
        let p3 = r.tell();
        if !(p3 > pstart) {
            r.seek(pstart);
            return Err(Error::NoData);
        }
        match decode_elements(r, names, n) {
            Ok(es) => Ok(Property::TSet(es)),
            Err(e) => {
                r.seek(pstart);
                Err(e)
            },
        }
    } else {
        decode_payload_other(r, names, tag, size)
    }
}

/// Reads a payload whose tag names a map, enumeration, path, platform
/// or delegate kind; any other tag takes `size` raw bytes as an
/// `Unknown`.
#[verifier::rlimit(100)]
#[verifier::spinoff_prover]
fn decode_payload_other(
    r: &mut BinaryArchive,
    names: &OptimizedNameMap,
    tag: &String,
    size: u64,
) -> (res: Result<Property, Error>)
    requires
        old(r).wf(),
        tag@ != "BoolProperty"@ && tag@ != "Int8Property"@ && tag@ != "Int16Property"@,
        tag@ != "IntProperty"@ && tag@ != "Int64Property"@ && tag@ != "ByteProperty"@,
        tag@ != "UInt16Property"@ && tag@ != "UInt32Property"@ && tag@ != "UInt64Property"@,
        tag@ != "FloatProperty"@ && tag@ != "DoubleProperty"@ && tag@ != "StrProperty"@,
        tag@ != "NameProperty"@ && tag@ != "TextProperty"@ && tag@ != "ObjectProperty"@,
        tag@ != "MaterialInterfaceProperty"@ && tag@ != "StaticMeshProperty"@,
        tag@ != "SkeletalMeshProperty"@ && tag@ != "Texture2DProperty"@,
        tag@ != "LevelSequenceProperty"@ && tag@ != "ComponentReferenceProperty"@,
        tag@ != "BlueprintProperty"@ && tag@ != "WorldContextProperty"@,
        tag@ != "LandscapeComponentProperty"@ && tag@ != "StructProperty"@,
        tag@ != "ArrayProperty"@ && tag@ != "SetProperty"@,
    ensures
        final(r).wf(),
        final(r).bytes() == old(r).bytes(),
        match dec_payload(old(r).bytes(), old(r).position(), names.entries(), tag@, size) {
            Option::Some(p) => res matches Ok(v) && prop_view(v) == p.0 && final(r).position()
                == p.1,
            Option::None => res is Err && final(r).position() == old(r).position(),
        },
    decreases r.bytes().len() - r.position(), 1int,
{
    proof {
        reveal(dec_payload);
    }
    let ghost b = r.bytes();
    let total = r.size();
    let pstart = r.tell();
    if str_eq_lit(tag, "MapProperty") {
        let kt = match r.read_fstring() {
            Ok(v) => v,
            Err(e) => {
                return Err(e);
            },
        };
        let vt = match r.read_fstring() {
            Ok(v) => v,
            Err(e) => {
                r.seek(pstart);
                return Err(e);
            },
        };
        let n = match r.read_u32() {
            Ok(v) => v,
            Err(e) => {
                r.seek(pstart);
                return Err(e);
            },
        };
        let p3 = r.tell();
        if !(p3 > pstart) {
            r.seek(pstart);
            return Err(Error::NoData);
        }
        match decode_entries(r, names, n) {
            Ok(es) => Ok(Property::TMap { key_type: kt, value_type: vt, entries: es }),
            Err(e) => {
                r.seek(pstart);
                Err(e)
            },
        }
    } else if str_eq_lit(tag, "EnumProperty") {
        match decode_two_names_exec(r) {
            Ok(fs) => Ok(Property::Enum { enum_type: fs.0, value: fs.1 }),
            Err(e) => Err(e),
        }
    } else if str_eq_lit(tag, "SoftObjectProperty") {
        decode_soft_path_exec(r, 0)
    } else if str_eq_lit(tag, "SoftClassProperty") {
        decode_soft_path_exec(r, 1)
    } else if str_eq_lit(tag, "AssetObjectProperty") {
        decode_soft_path_exec(r, 2)
    } else if str_eq_lit(tag, "PerPlatformBoolProperty") {
        let n = match r.read_u32() {
            Ok(v) => v,
            Err(e) => {
                return Err(e);
            },
        };
        match decode_bool_run(r, n) {
            Ok(vs) => Ok(Property::PerPlatformBool(vs)),
            Err(e) => {
                r.seek(pstart);
                Err(e)
            },
        }
    } else if str_eq_lit(tag, "PerPlatformIntProperty") {
        let n = match r.read_u32() {
            Ok(v) => v,
            Err(e) => {
                return Err(e);
            },
        };
        match decode_u32_run(r, n) {
            Ok(vs) => {
                let out = u32s_to_i32s(&vs);
                proof {
                    if let Option::Some(p) = dec_u32s(b, pstart + 4, n as int) {
                        assert(out@ =~= Seq::new(p.0.len(), |i: int| p.0[i] as i32));
                    }
                }
                Ok(Property::PerPlatformInt(out))
            },
            Err(e) => {
                r.seek(pstart);
                Err(e)
            },
        }
    } else if str_eq_lit(tag, "PerPlatformFloatProperty") {
        let n = match r.read_u32() {
            Ok(v) => v,
            Err(e) => {
                return Err(e);
            },
        };
        match decode_u32_run(r, n) {
            Ok(vs) => Ok(Property::PerPlatformFloat(vs)),
            Err(e) => {
                r.seek(pstart);
                Err(e)
            },
        }
    } else if str_eq_lit(tag, "DelegateProperty") {
        let bits = match r.read_u32() {
            Ok(v) => v,
            Err(e) => {
                return Err(e);
            },
        };
        let fname = match r.read_fstring() {
            Ok(v) => v,
            Err(e) => {
                r.seek(pstart);
                return Err(e);
            },
        };
        let num = match r.read_u32() {
            Ok(v) => v,
            Err(e) => {
                r.seek(pstart);
                return Err(e);
            },
        };
        Ok(
            Property::Delegate {
                object: if bits == 0 {
                    Option::None
                } else {
                    Option::Some(PackageIndex(bits as i32))
                },
                function_name: FName { name: fname, number: num },
            },
        )
    } else if str_eq_lit(tag, "MulticastDelegateProperty") {
        let n = match r.read_u32() {
            Ok(v) => v,
            Err(e) => {
                return Err(e);
            },
        };
        let p3 = r.tell();
        if !(p3 > pstart) {
            r.seek(pstart);
            return Err(Error::NoData);
        }
        match decode_elements(r, names, n) {
            Ok(es) => Ok(Property::MulticastDelegate { delegates: es }),
            Err(e) => {
                r.seek(pstart);
                Err(e)
            },
        }
    } else {
        if size <= (usize::MAX as u64) {
            match r.read_bytes(size as usize) {
                Ok(bytes) => Ok(Property::Unknown(bytes)),
                Err(e) => Err(e),
            }
        } else {
            proof {
                assert(pstart + size > b.len());
            }
            Err(Error::NoData)
        }
    }
}




// ------------------------------------------------------------------
// Round-trip laws of the fixed-layout struct payloads
// ------------------------------------------------------------------

/// The 32-bit component words of a word-layout value, in layout order;
/// empty for other kinds.
pub open spec fn fixed_words_of(m: PropModel) -> Seq<u32> {
    match m {
        PropModel::Vector(v) => seq![v.x, v.y, v.z],
        PropModel::Vector2D(v) => seq![v.x, v.y],
        PropModel::Vector4(v) => seq![v.x, v.y, v.z, v.w],
        PropModel::Rotator(v) => seq![v.pitch, v.yaw, v.roll],
        PropModel::Quat(v) => seq![v.x, v.y, v.z, v.w],
        PropModel::LinearColor(v) => seq![v.r, v.g, v.b, v.a],
        PropModel::Transform(v) => seq![
            v.location.x,
            v.location.y,
            v.location.z,
            v.rotation.x,
            v.rotation.y,
            v.rotation.z,
            v.rotation.w,
            v.scale.x,
            v.scale.y,
            v.scale.z,
        ],
        _ => Seq::empty(),
    }
}

/// The struct type name a fixed-layout model value is stored under.
pub open spec fn struct_name_of_model(m: PropModel) -> Seq<char> {
    match m {
        PropModel::Vector(_) => "Vector"@,
        PropModel::Vector2D(_) => "Vector2D"@,
        PropModel::Vector4(_) => "Vector4"@,
        PropModel::Rotator(_) => "Rotator"@,
        PropModel::Quat(_) => "Quat"@,
        PropModel::LinearColor(_) => "LinearColor"@,
        PropModel::Transform(_) => "Transform"@,
        PropModel::Guid(_) => "Guid"@,
        PropModel::DateTime(_) => "DateTime"@,
        PropModel::TimeSpan(_) => "Timespan"@,
        _ => Seq::empty(),
    }
}

/// A run of encoded words parses back to the words.
pub proof fn lemma_dec_u32s_of_words(b: Seq<u8>, pos: int, vals: Seq<u32>)
    requires
        0 <= pos,
        pos + 4 * vals.len() <= b.len(),
        forall|k: int|
            0 <= k < vals.len() ==> #[trigger] dec_u32(b, pos + 4 * k) == Option::Some(
                (vals[k], pos + 4 * k + 4),
            ),
    ensures
        dec_u32s(b, pos, vals.len() as int) == Option::Some((vals, pos + 4 * vals.len())),
    decreases vals.len(),
{
    reveal_with_fuel(dec_u32s, 2);
    if vals.len() == 0 {
        assert(vals =~= Seq::<u32>::empty());
        assert(dec_u32s(b, pos, 0) == Option::Some((Seq::<u32>::empty(), pos)));
        assert(Option::Some((Seq::<u32>::empty(), pos)) == Option::Some(
            (vals, pos + 4 * vals.len()),
        ));
    } else {
        assert(dec_u32(b, pos + 4 * 0) == Option::Some((vals[0], pos + 4 * 0 + 4)));
        assert forall|k: int|
            0 <= k < vals.drop_first().len() implies #[trigger] dec_u32(b, pos + 4 + 4 * k)
            == Option::Some((vals.drop_first()[k], pos + 4 + 4 * k + 4)) by {
            assert(vals.drop_first()[k] == vals[k + 1]);
            assert(pos + 4 + 4 * k == pos + 4 * (k + 1));
            assert(dec_u32(b, pos + 4 * (k + 1)) == Option::Some(
                (vals[k + 1], pos + 4 * (k + 1) + 4),
            ));
        }
        lemma_dec_u32s_of_words(b, pos + 4, vals.drop_first());
        assert(seq![vals[0]] + vals.drop_first() =~= vals);
    }
}

/// The round-trip law of the word-layout struct payloads: a vector,
/// rotation, quaternion, color or transform written as its
/// little-endian component words parses back to the same value, bit
/// for bit, consuming exactly its words.
#[verifier::rlimit(100)]
#[verifier::spinoff_prover]
pub proof fn lemma_dec_enc_fixed_struct(m: PropModel, b: Seq<u8>, pos: int)
    requires
        fixed_words_of(m).len() > 0,
        0 <= pos,
        pos + 4 * fixed_words_of(m).len() <= b.len(),
        forall|k: int, j: int|
            0 <= k < fixed_words_of(m).len() && 0 <= j < 4 ==> b[pos + 4 * k + j] == (
            #[trigger] u32_le_bytes(fixed_words_of(m)[k])[j]),
    ensures
        dec_fixed_struct(b, pos, struct_name_of_model(m)) == Option::Some(
            (m, pos + 4 * fixed_words_of(m).len()),
        ),
{
    reveal_strlit("Vector");
    reveal_strlit("Vector2D");
    reveal_strlit("Vector4");
    reveal_strlit("Rotator");
    reveal_strlit("Quat");
    reveal_strlit("LinearColor");
    reveal_strlit("Transform");
    assert("Vector"@.len() == 6);
    assert("Vector2D"@.len() == 8);
    assert("Vector4"@.len() == 7);
    assert("Rotator"@.len() == 7);
    assert("Quat"@.len() == 4);
    assert("LinearColor"@.len() == 11);
    assert("Transform"@.len() == 9);
    assert("Rotator"@ != "Vector4"@) by {
        assert("Rotator"@[0] == 'R' && "Vector4"@[0] == 'V');
    }
    let vals = fixed_words_of(m);
    assert forall|k: int| 0 <= k < vals.len() implies #[trigger] dec_u32(b, pos + 4 * k)
        == Option::Some((vals[k], pos + 4 * k + 4)) by {
        crate::archive::lemma_u32_le_roundtrip(vals[k]);
        assert(b[pos + 4 * k + 0] == u32_le_bytes(vals[k])[0]);
        assert(b[pos + 4 * k + 1] == u32_le_bytes(vals[k])[1]);
        assert(b[pos + 4 * k + 2] == u32_le_bytes(vals[k])[2]);
        assert(b[pos + 4 * k + 3] == u32_le_bytes(vals[k])[3]);
    }
    lemma_dec_u32s_of_words(b, pos, vals);
    reveal_with_fuel(dec_u32s, 2);
    match m {
        PropModel::Vector(v) => {
            assert(struct_name_of_model(m) == "Vector"@);
            assert(dec_u32s(b, pos, 3) == Option::Some((vals, pos + 12)));
            assert(vals[0] == v.x && vals[1] == v.y && vals[2] == v.z);
            assert(dec_fixed_struct(b, pos, "Vector"@) == Option::Some(
                (PropModel::Vector(Vector { x: vals[0], y: vals[1], z: vals[2] }), pos + 12),
            ));
            assert((Vector { x: vals[0], y: vals[1], z: vals[2] }) == v);
        },
        PropModel::Vector2D(v) => {
            assert(dec_u32s(b, pos, 2) == Option::Some((vals, pos + 8)));
            assert(dec_fixed_struct(b, pos, "Vector2D"@) == Option::Some(
                (PropModel::Vector2D(Vector2D { x: vals[0], y: vals[1] }), pos + 8),
            ));
            assert((Vector2D { x: vals[0], y: vals[1] }) == v);
        },
        PropModel::Vector4(v) => {
            assert(dec_u32s(b, pos, 4) == Option::Some((vals, pos + 16)));
            assert(dec_fixed_struct(b, pos, "Vector4"@) == Option::Some(
                (
                    PropModel::Vector4(
                        Vector4 { x: vals[0], y: vals[1], z: vals[2], w: vals[3] },
                    ),
                    pos + 16,
                ),
            ));
            assert((Vector4 { x: vals[0], y: vals[1], z: vals[2], w: vals[3] }) == v);
        },
        PropModel::Rotator(v) => {
            assert(dec_u32s(b, pos, 3) == Option::Some((vals, pos + 12)));
            assert(dec_fixed_struct(b, pos, "Rotator"@) == Option::Some(
                (
                    PropModel::Rotator(
                        Rotator { pitch: vals[0], yaw: vals[1], roll: vals[2] },
                    ),
                    pos + 12,
                ),
            ));
            assert((Rotator { pitch: vals[0], yaw: vals[1], roll: vals[2] }) == v);
        },
        PropModel::Quat(v) => {
            assert(dec_u32s(b, pos, 4) == Option::Some((vals, pos + 16)));
            assert(dec_fixed_struct(b, pos, "Quat"@) == Option::Some(
                (PropModel::Quat(Quat { x: vals[0], y: vals[1], z: vals[2], w: vals[3] }), pos
                    + 16),
            ));
            assert((Quat { x: vals[0], y: vals[1], z: vals[2], w: vals[3] }) == v);
        },
        PropModel::LinearColor(v) => {
            assert(dec_u32s(b, pos, 4) == Option::Some((vals, pos + 16)));
            assert(dec_fixed_struct(b, pos, "LinearColor"@) == Option::Some(
                (
                    PropModel::LinearColor(
                        LinearColor { r: vals[0], g: vals[1], b: vals[2], a: vals[3] },
                    ),
                    pos + 16,
                ),
            ));
            assert((LinearColor { r: vals[0], g: vals[1], b: vals[2], a: vals[3] }) == v);
        },
        PropModel::Transform(v) => {
            assert(dec_u32s(b, pos, 10) == Option::Some((vals, pos + 40)));
            assert(dec_fixed_struct(b, pos, "Transform"@) == Option::Some(
                (
                    PropModel::Transform(
                        Transform {
                            location: Vector { x: vals[0], y: vals[1], z: vals[2] },
                            rotation: Quat { x: vals[3], y: vals[4], z: vals[5], w: vals[6] },
                            scale: Vector { x: vals[7], y: vals[8], z: vals[9] },
                        },
                    ),
                    pos + 40,
                ),
            ));
        },
        _ => {
            assert(false);
        },
    }
}

/// The round-trip law of the identifier payload: a 128-bit identifier
/// written as its four little-endian words parses back to the same
/// identifier.
pub proof fn lemma_dec_enc_guid_struct(g: Guid, b: Seq<u8>, pos: int)
    requires
        0 <= pos,
        pos + 16 <= b.len(),
        forall|i: int| 0 <= i < 16 ==> b[pos + i] == (#[trigger] enc_guid(g)[i]),
    ensures
        dec_fixed_struct(b, pos, "Guid"@) == Option::Some((PropModel::Guid(g), pos + 16)),
{
    reveal_strlit("Vector");
    reveal_strlit("Vector2D");
    reveal_strlit("Vector4");
    reveal_strlit("Rotator");
    reveal_strlit("Quat");
    reveal_strlit("LinearColor");
    reveal_strlit("Transform");
    reveal_strlit("Guid");
    assert("Vector"@.len() == 6);
    assert("Vector2D"@.len() == 8);
    assert("Vector4"@.len() == 7);
    assert("Rotator"@.len() == 7);
    assert("Quat"@.len() == 4);
    assert("LinearColor"@.len() == 11);
    assert("Transform"@.len() == 9);
    assert("Rotator"@ != "Vector4"@) by {
        assert("Rotator"@[0] == 'R' && "Vector4"@[0] == 'V');
    }
    assert("Guid"@.len() == 4);
    assert("Guid"@ != "Quat"@) by {
        assert("Guid"@[0] == 'G' && "Quat"@[0] == 'Q');
    }
    crate::archive::lemma_u32_le_roundtrip(g.a);
    crate::archive::lemma_u32_le_roundtrip(g.b);
    crate::archive::lemma_u32_le_roundtrip(g.c);
    crate::archive::lemma_u32_le_roundtrip(g.d);
    assert forall|i: int| 0 <= i < 4 implies b[pos + i] == u32_le_bytes(g.a)[i] by {
        assert(b[pos + i] == enc_guid(g)[i]);
        assert(enc_guid(g)[i] == u32_le_bytes(g.a)[i]);
    }
    assert forall|i: int| 0 <= i < 4 implies b[pos + 4 + i] == u32_le_bytes(g.b)[i] by {
        assert(b[pos + 4 + i] == enc_guid(g)[4 + i]);
        assert(enc_guid(g)[4 + i] == u32_le_bytes(g.b)[i]);
    }
    assert forall|i: int| 0 <= i < 4 implies b[pos + 8 + i] == u32_le_bytes(g.c)[i] by {
        assert(b[pos + 8 + i] == enc_guid(g)[8 + i]);
        assert(enc_guid(g)[8 + i] == u32_le_bytes(g.c)[i]);
    }
    assert forall|i: int| 0 <= i < 4 implies b[pos + 12 + i] == u32_le_bytes(g.d)[i] by {
        assert(b[pos + 12 + i] == enc_guid(g)[12 + i]);
        assert(enc_guid(g)[12 + i] == u32_le_bytes(g.d)[i]);
    }
    assert(b[pos + 0] == u32_le_bytes(g.a)[0] && b[pos + 1] == u32_le_bytes(g.a)[1] && b[pos + 2]
        == u32_le_bytes(g.a)[2] && b[pos + 3] == u32_le_bytes(g.a)[3]);
    assert(b[pos + 4] == u32_le_bytes(g.b)[0] && b[pos + 5] == u32_le_bytes(g.b)[1] && b[pos + 6]
        == u32_le_bytes(g.b)[2] && b[pos + 7] == u32_le_bytes(g.b)[3]);
    assert(b[pos + 8] == u32_le_bytes(g.c)[0] && b[pos + 9] == u32_le_bytes(g.c)[1] && b[pos + 10]
        == u32_le_bytes(g.c)[2] && b[pos + 11] == u32_le_bytes(g.c)[3]);
    assert(b[pos + 12] == u32_le_bytes(g.d)[0] && b[pos + 13] == u32_le_bytes(g.d)[1] && b[pos
        + 14] == u32_le_bytes(g.d)[2] && b[pos + 15] == u32_le_bytes(g.d)[3]);
    assert(dec_guid(b, pos) == Option::Some((g, pos + 16)));
}

} // verus!
