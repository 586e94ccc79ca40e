//! Engine and object version handling, and the custom-version
//! compatibility registry.

use vstd::prelude::*;
use crate::types::Guid;

verus! {

/// A released engine version, identified by its serialization version
/// number.
#[derive(Debug, Clone, Copy, PartialEq, Eq, Hash, Structural)]
#[allow(non_camel_case_types)]
pub enum EngineVersion {
    /// 4.0
    VER_UE4_0,
    /// 4.1
    VER_UE4_1,
    /// 4.2
    VER_UE4_2,
    /// 4.3
    VER_UE4_3,
    /// 4.4
    VER_UE4_4,
    /// 4.5
    VER_UE4_5,
    /// 4.6
    VER_UE4_6,
    /// 4.7
    VER_UE4_7,
    /// 4.8
    VER_UE4_8,
    /// 4.9
    VER_UE4_9,
    /// 4.10
    VER_UE4_10,
    /// 4.11
    VER_UE4_11,
    /// 4.12
    VER_UE4_12,
    /// 4.13
    VER_UE4_13,
    /// 4.14
    VER_UE4_14,
    /// 4.15
    VER_UE4_15,
    /// 4.16
    VER_UE4_16,
    /// 4.17
    VER_UE4_17,
    /// 4.18
    VER_UE4_18,
    /// 4.19
    VER_UE4_19,
    /// 4.20
    VER_UE4_20,
    /// 4.21
    VER_UE4_21,
    /// 4.22
    VER_UE4_22,
    /// 4.23
    VER_UE4_23,
    /// 4.24
    VER_UE4_24,
    /// 4.25
    VER_UE4_25,
    /// 4.26
    VER_UE4_26,
    /// 4.27
    VER_UE4_27,
    /// 5.0
    VER_UE5_0,
    /// 5.1
    VER_UE5_1,
    /// 5.2
    VER_UE5_2,
    /// 5.3
    VER_UE5_3,
    /// 5.4
    VER_UE5_4,
    /// 5.5
    VER_UE5_5,
}

/// The serialization version number of an engine version.
pub open spec fn engine_version_number(v: EngineVersion) -> int {
    match v {
        EngineVersion::VER_UE4_0 => 342,
        EngineVersion::VER_UE4_1 => 352,
        EngineVersion::VER_UE4_2 => 363,
        EngineVersion::VER_UE4_3 => 382,
        EngineVersion::VER_UE4_4 => 385,
        EngineVersion::VER_UE4_5 => 401,
        EngineVersion::VER_UE4_6 => 413,
        EngineVersion::VER_UE4_7 => 434,
        EngineVersion::VER_UE4_8 => 451,
        EngineVersion::VER_UE4_9 => 482,
        EngineVersion::VER_UE4_10 => 491,
        EngineVersion::VER_UE4_11 => 498,
        EngineVersion::VER_UE4_12 => 504,
        EngineVersion::VER_UE4_13 => 505,
        EngineVersion::VER_UE4_14 => 508,
        EngineVersion::VER_UE4_15 => 509,
        EngineVersion::VER_UE4_16 => 510,
        EngineVersion::VER_UE4_17 => 513,
        EngineVersion::VER_UE4_18 => 514,
        EngineVersion::VER_UE4_19 => 516,
        EngineVersion::VER_UE4_20 => 517,
        EngineVersion::VER_UE4_21 => 518,
        EngineVersion::VER_UE4_22 => 519,
        EngineVersion::VER_UE4_23 => 520,
        EngineVersion::VER_UE4_24 => 521,
        EngineVersion::VER_UE4_25 => 522,
        EngineVersion::VER_UE4_26 => 523,
        EngineVersion::VER_UE4_27 => 524,
        EngineVersion::VER_UE5_0 => 1001,
        EngineVersion::VER_UE5_1 => 1002,
        EngineVersion::VER_UE5_2 => 1003,
        EngineVersion::VER_UE5_3 => 1004,
        EngineVersion::VER_UE5_4 => 1005,
        EngineVersion::VER_UE5_5 => 1006,
    }
}

impl EngineVersion {
    /// The engine version with the given serialization version number,
    /// for the numbers this crate recognizes.
    pub fn from_version(version: i32) -> (r: Option<Self>)
        ensures
            r matches Some(v) ==> engine_version_number(v) == version,
            version == 342 ==> r == Some(EngineVersion::VER_UE4_0),
            version == 352 ==> r == Some(EngineVersion::VER_UE4_1),
            version == 363 ==> r == Some(EngineVersion::VER_UE4_2),
            version == 522 ==> r == Some(EngineVersion::VER_UE4_25),
            version == 524 ==> r == Some(EngineVersion::VER_UE4_27),
            version == 1001 ==> r == Some(EngineVersion::VER_UE5_0),
            version == 1004 ==> r == Some(EngineVersion::VER_UE5_3),
            version == 1006 ==> r == Some(EngineVersion::VER_UE5_5),
    {
        match version {
            342 => Some(EngineVersion::VER_UE4_0),
            352 => Some(EngineVersion::VER_UE4_1),
            363 => Some(EngineVersion::VER_UE4_2),
            522 => Some(EngineVersion::VER_UE4_25),
            524 => Some(EngineVersion::VER_UE4_27),
            1001 => Some(EngineVersion::VER_UE5_0),
            1002 => Some(EngineVersion::VER_UE5_1),
            1003 => Some(EngineVersion::VER_UE5_2),
            1004 => Some(EngineVersion::VER_UE5_3),
            1005 => Some(EngineVersion::VER_UE5_4),
            1006 => Some(EngineVersion::VER_UE5_5),
            _ => None,
        }
    }

    /// The serialization version number of this engine version.
    pub fn version(&self) -> (r: i32)
        ensures
            r == engine_version_number(*self),
    {
        match self {
            EngineVersion::VER_UE4_0 => 342,
            EngineVersion::VER_UE4_1 => 352,
            EngineVersion::VER_UE4_2 => 363,
            EngineVersion::VER_UE4_3 => 382,
            EngineVersion::VER_UE4_4 => 385,
            EngineVersion::VER_UE4_5 => 401,
            EngineVersion::VER_UE4_6 => 413,
            EngineVersion::VER_UE4_7 => 434,
            EngineVersion::VER_UE4_8 => 451,
            EngineVersion::VER_UE4_9 => 482,
            EngineVersion::VER_UE4_10 => 491,
            EngineVersion::VER_UE4_11 => 498,
            EngineVersion::VER_UE4_12 => 504,
            EngineVersion::VER_UE4_13 => 505,
            EngineVersion::VER_UE4_14 => 508,
            EngineVersion::VER_UE4_15 => 509,
            EngineVersion::VER_UE4_16 => 510,
            EngineVersion::VER_UE4_17 => 513,
            EngineVersion::VER_UE4_18 => 514,
            EngineVersion::VER_UE4_19 => 516,
            EngineVersion::VER_UE4_20 => 517,
            EngineVersion::VER_UE4_21 => 518,
            EngineVersion::VER_UE4_22 => 519,
            EngineVersion::VER_UE4_23 => 520,
            EngineVersion::VER_UE4_24 => 521,
            EngineVersion::VER_UE4_25 => 522,
            EngineVersion::VER_UE4_26 => 523,
            EngineVersion::VER_UE4_27 => 524,
            EngineVersion::VER_UE5_0 => 1001,
            EngineVersion::VER_UE5_1 => 1002,
            EngineVersion::VER_UE5_2 => 1003,
            EngineVersion::VER_UE5_3 => 1004,
            EngineVersion::VER_UE5_4 => 1005,
            EngineVersion::VER_UE5_5 => 1006,
        }
    }

    /// True when this is a fourth-generation version.
    pub fn is_ue4(&self) -> (r: bool)
        ensures
            r == (342 <= engine_version_number(*self) <= 524),
    {
        let v = self.version();
        342 <= v && v <= 524
    }

    /// True when this is a fifth-generation version.
    pub fn is_ue5(&self) -> (r: bool)
        ensures
            r == (1001 <= engine_version_number(*self) <= 1006),
    {
        let v = self.version();
        1001 <= v && v <= 1006
    }
}

/// An engine version labelled with its generation.
#[derive(Debug, Clone, Copy, PartialEq, Eq, Hash, Structural)]
pub enum GameEngineVersion {
    /// A fourth-generation version.
    GameUe4(EngineVersion),
    /// A fifth-generation version.
    GameUe5(EngineVersion),
}

impl GameEngineVersion {
    /// Labels an engine version with its generation.
    pub fn from_engine_version(version: EngineVersion) -> (r: Self)
        ensures
            1001 <= engine_version_number(version) <= 1006 ==> r == GameEngineVersion::GameUe5(
                version,
            ),
            !(1001 <= engine_version_number(version) <= 1006) ==> r == GameEngineVersion::GameUe4(
                version,
            ),
    {
        if version.is_ue5() {
            GameEngineVersion::GameUe5(version)
        } else {
            GameEngineVersion::GameUe4(version)
        }
    }

    /// The engine version under the label.
    pub fn engine_version(&self) -> (r: EngineVersion)
        ensures
            *self matches GameEngineVersion::GameUe4(v) ==> r == v,
            *self matches GameEngineVersion::GameUe5(v) ==> r == v,
    {
        match self {
            GameEngineVersion::GameUe4(v) => *v,
            GameEngineVersion::GameUe5(v) => *v,
        }
    }
}

/// The object version of a package: the number that gates optional
/// sections and field layouts during (de)serialization.
#[derive(Debug, Clone, Copy, PartialEq, Eq, Hash, Structural)]
pub struct ObjectVersion(pub i32);

impl ObjectVersion {
    /// The object version with the given number.
    pub fn new(version: i32) -> (r: Self)
        ensures
            r.0 == version,
    {
        ObjectVersion(version)
    }

    /// The raw number.
    pub fn get(&self) -> (r: i32)
        ensures
            r == self.0,
    {
        self.0
    }
}

/// The fifth-generation object version of a package.
#[derive(Debug, Clone, Copy, PartialEq, Eq, Hash, Structural)]
pub struct ObjectVersionUE5(pub i32);

impl ObjectVersionUE5 {
    /// The version with the given number.
    pub fn new(version: i32) -> (r: Self)
        ensures
            r.0 == version,
    {
        ObjectVersionUE5(version)
    }

    /// The raw number.
    pub fn get(&self) -> (r: i32)
        ensures
            r == self.0,
    {
        self.0
    }

    /// True when this version carries the given feature.
    pub fn supports_feature(&self, feature: UE5Feature) -> (r: bool)
        ensures
            r == (self.0 >= ue5_feature_min_version(feature)),
    {
        self.0 >= feature.min_version()
    }
}

/// Serialization features introduced across fifth-generation object
/// versions.
#[derive(Debug, Clone, Copy, PartialEq, Eq, Hash, Structural)]
pub enum UE5Feature {
    /// Name maps carry verification hashes.
    OptimizedNameMap,
    /// Coordinates widen to 64 bits.
    LargeWorldCoordinates,
    /// Reworked bulk-data layout.
    BulkDataV2,
    /// Reworked property serialization.
    PropertySerializationV2,
    /// Dependency tracking sections.
    DependencyTracking,
}

/// The first object version that carries a feature.
pub open spec fn ue5_feature_min_version(f: UE5Feature) -> int {
    match f {
        UE5Feature::OptimizedNameMap => 1,
        UE5Feature::LargeWorldCoordinates => 2,
        UE5Feature::BulkDataV2 => 3,
        UE5Feature::PropertySerializationV2 => 4,
        UE5Feature::DependencyTracking => 5,
    }
}

impl UE5Feature {
    /// The first object version that carries this feature.
    pub fn min_version(self) -> (r: i32)
        ensures
            r == ue5_feature_min_version(self),
    {
        match self {
            UE5Feature::OptimizedNameMap => 1,
            UE5Feature::LargeWorldCoordinates => 2,
            UE5Feature::BulkDataV2 => 3,
            UE5Feature::PropertySerializationV2 => 4,
            UE5Feature::DependencyTracking => 5,
        }
    }
}

/// One generation record of a package: the table sizes at a past save.
#[derive(Debug, Clone, Copy, PartialEq, Eq, Structural)]
pub struct GenerationInfo {
    /// Exports at that save.
    pub export_count: i32,
    /// Names at that save.
    pub name_count: i32,
}

/// A generation record with optional validation extensions.
#[derive(Debug, Clone, Copy, PartialEq, Eq, Structural)]
pub struct Generation {
    /// Exports at that save.
    pub export_count: i32,
    /// Names at that save.
    pub name_count: i32,
    /// Optional dependency hash.
    pub dependency_hash: Option<u64>,
    /// Optional bulk-data offset.
    pub bulk_data_offset: Option<i64>,
}

impl Generation {
    /// Extends a bare generation record with empty extensions.
    pub fn from_info(info: GenerationInfo) -> (r: Self)
        ensures
            r.export_count == info.export_count,
            r.name_count == info.name_count,
            r.dependency_hash is None,
            r.bulk_data_offset is None,
    {
        Generation {
            export_count: info.export_count,
            name_count: info.name_count,
            dependency_hash: None,
            bulk_data_offset: None,
        }
    }
}

/// A custom serialization version: an identifier, a number and a
/// human-readable name.
#[derive(Debug, Clone, PartialEq, Eq)]
pub struct CustomVersion {
    /// The identifier of the version series.
    pub guid: Guid,
    /// The version number inside the series.
    pub version: i32,
    /// The human-readable name of the series.
    pub friendly_name: String,
}

impl CustomVersion {
    /// A custom version with the given parts.
    pub fn new(guid: Guid, version: i32, friendly_name: String) -> (r: Self)
        ensures
            r.guid == guid,
            r.version == version,
            r.friendly_name == friendly_name,
    {
        CustomVersion { guid, version, friendly_name }
    }

    /// True when this version can read data saved with `other`: the
    /// identifiers match and this number is at least the other's.
    pub fn is_compatible_with(&self, other: &CustomVersion) -> (r: bool)
        ensures
            r == (self.guid == other.guid && self.version >= other.version),
    {
        self.guid == other.guid && self.version >= other.version
    }
}

/// Types that name a custom-version series.
pub trait CustomVersionTrait {
    /// The identifier of the series.
    fn guid() -> Guid;
}

/// The engine's rendering version series, as a type for keyed lookups.
pub struct RenderingObjectVersion;

impl CustomVersionTrait for RenderingObjectVersion {
    fn guid() -> Guid {
        Guid { a: 0x3cc15e37, b: 0xfb48e406, c: 0xf08400b5, d: 0x7e712a26 }
    }
}

/// The first index in `s` whose entry has the identifier `g`, or `-1`.
pub open spec fn guid_index_of(s: Seq<CustomVersion>, g: Guid) -> int
    decreases s.len(),
{
    if s.len() == 0 {
        -1
    } else if s[0].guid == g {
        0
    } else {
        let r = guid_index_of(s.drop_first(), g);
        if r >= 0 {
            r + 1
        } else {
            -1
        }
    }
}

/// `guid_index_of` finds an entry exactly when one exists, and then the
/// first one.
pub proof fn lemma_guid_index_of(s: Seq<CustomVersion>, g: Guid)
    ensures
        guid_index_of(s, g) >= 0 ==> guid_index_of(s, g) < s.len() && s[guid_index_of(s, g)].guid
            == g,
        guid_index_of(s, g) == -1 ==> forall|i: int| 0 <= i < s.len() ==> s[i].guid != g,
        guid_index_of(s, g) >= 0 || guid_index_of(s, g) == -1,
    decreases s.len(),
{
    if s.len() > 0 {
        lemma_guid_index_of(s.drop_first(), g);
        if s[0].guid != g && guid_index_of(s.drop_first(), g) == -1 {
            assert forall|i: int| 0 <= i < s.len() implies s[i].guid != g by {
                if i > 0 {
                    assert(s[i] == s.drop_first()[i - 1]);
                }
            }
        }
    }
}

/// True when `v` is acceptable against the registry entries `s`: some
/// entry has the same identifier and a number at least `v`'s.
pub open spec fn version_supported(s: Seq<CustomVersion>, v: CustomVersion) -> bool {
    guid_index_of(s, v.guid) >= 0 && s[guid_index_of(s, v.guid)].version >= v.version
}

/// How many of the versions in `vs` are not acceptable against `s`.
pub open spec fn count_unsupported(s: Seq<CustomVersion>, vs: Seq<CustomVersion>) -> int
    decreases vs.len(),
{
    if vs.len() == 0 {
        0
    } else {
        count_unsupported(s, vs.drop_last()) + if version_supported(s, vs.last()) {
            0int
        } else {
            1int
        }
    }
}

/// The table of known custom-version series, keyed by identifier, with
/// per-game version lists.
pub struct CustomVersionRegistry {
    /// The known versions; identifiers are unique.
    versions: Vec<CustomVersion>,
    /// Versions specific to one game, keyed by game name.
    game_versions: Vec<(String, Vec<CustomVersion>)>,
}

impl CustomVersionRegistry {
    /// The registry entries, in registration order.
    pub closed spec fn entries(&self) -> Seq<CustomVersion> {
        self.versions@
    }

    /// The per-game version lists, in registration order.
    pub closed spec fn game_entries(&self) -> Seq<(String, Vec<CustomVersion>)> {
        self.game_versions@
    }

    /// An empty registry.
    pub fn empty() -> (r: Self)
        ensures
            r.entries().len() == 0,
            r.game_entries().len() == 0,
    {
        CustomVersionRegistry { versions: Vec::new(), game_versions: Vec::new() }
    }

    /// Registers a version: replaces the entry with the same identifier,
    /// or appends one.
    pub fn register(&mut self, version: CustomVersion)
        ensures
            guid_index_of(old(self).entries(), version.guid) >= 0 ==> final(self).entries()
                == old(self).entries().update(
                guid_index_of(old(self).entries(), version.guid),
                version,
            ),
            guid_index_of(old(self).entries(), version.guid) == -1 ==> final(self).entries()
                == old(self).entries().push(version),
            final(self).game_entries() == old(self).game_entries(),
            final(self).entries().len() >= old(self).entries().len(),
    {
        proof {
            lemma_guid_index_of(self.versions@, version.guid);
        }
        let n = self.versions.len();
        let mut i: usize = 0;
        while i < n
            invariant
                n == self.versions@.len(),
                i <= n,
                self.versions@ == old(self).versions@,
                self.game_versions@ == old(self).game_versions@,
                forall|j: int| 0 <= j < i ==> self.versions@[j].guid != version.guid,
            decreases n - i,
        {
            if self.versions[i].guid == version.guid {
                proof {
                    lemma_guid_index_of_found(self.versions@, version.guid, i as int);
                }
                self.versions.set(i, version);
                return ;
            }
            i += 1;
        }
        proof {
            lemma_guid_index_of(self.versions@, version.guid);
        }
        self.versions.push(version);
    }

    /// The registered version with the given identifier, if any.
    pub fn get(&self, guid: &Guid) -> (r: Option<&CustomVersion>)
        ensures
            guid_index_of(self.entries(), *guid) >= 0 ==> (r matches Some(v) && *v
                == self.entries()[guid_index_of(self.entries(), *guid)]),
            guid_index_of(self.entries(), *guid) == -1 ==> r is None,
    {
        proof {
            lemma_guid_index_of(self.versions@, *guid);
        }
        let n = self.versions.len();
        let mut i: usize = 0;
        while i < n
            invariant
                n == self.versions@.len(),
                i <= n,
                forall|j: int| 0 <= j < i ==> self.versions@[j].guid != *guid,
            decreases n - i,
        {
            if self.versions[i].guid == *guid {
                proof {
                    lemma_guid_index_of_found(self.versions@, *guid, i as int);
                }
                return Some(&self.versions[i]);
            }
            i += 1;
        }
        proof {
            lemma_guid_index_of(self.versions@, *guid);
        }
        None
    }

    /// The versions recorded for the given game, if any.
    pub fn get_game_versions(&self, game: &str) -> (r: Option<&Vec<CustomVersion>>)
        ensures
            r matches Some(vs) ==> exists|i: int|
                0 <= i < self.game_entries().len() && self.game_entries()[i].0@ == game@
                    && self.game_entries()[i].1 == *vs,
            r is None ==> forall|i: int|
                0 <= i < self.game_entries().len() ==> self.game_entries()[i].0@ != game@,
    {
        let sought = game.to_owned();
        let n = self.game_versions.len();
        let mut i: usize = 0;
        while i < n
            invariant
                n == self.game_versions@.len(),
                i <= n,
                sought@ == game@,
                forall|j: int| 0 <= j < i ==> self.game_versions@[j].0@ != game@,
            decreases n - i,
        {
            if self.game_versions[i].0 == sought {
                proof {
                    assert((i as int) < self.game_entries().len());
                    assert(self.game_entries()[i as int].0@ == game@);
                    assert(self.game_entries()[i as int].1 == self.game_versions@[i as int].1);
                }
                return Some(&self.game_versions[i].1);
            }
            i += 1;
        }
        None
    }

    /// Records a game's version list, and registers each version.
    pub fn add_game_versions(&mut self, game: &str, versions: Vec<CustomVersion>)
        ensures
            final(self).game_entries().len() == old(self).game_entries().len() + 1,
            final(self).entries().len() >= old(self).entries().len(),
    {
        let n = versions.len();
        let mut i: usize = 0;
        while i < n
            invariant
                n == versions@.len(),
                i <= n,
                self.game_versions@ == old(self).game_versions@,
                self.versions@.len() >= old(self).versions@.len(),
            decreases n - i,
        {
            self.register(versions[i].clone());
            i += 1;
        }
        self.game_versions.push((game.to_owned(), versions));
    }

    /// Checks a set of custom versions against the registry and returns
    /// one message for each version that is unknown or too new: exactly
    /// the unsupported ones are reported.
    pub fn validate_versions(&self, versions: &Vec<CustomVersion>) -> (r: Vec<String>)
        ensures
            r@.len() == count_unsupported(self.entries(), versions@),
    {
        let mut errors: Vec<String> = Vec::new();
        let n = versions.len();
        let mut i: usize = 0;
        while i < n
            invariant
                n == versions@.len(),
                i <= n,
                errors@.len() == count_unsupported(self.entries(), versions@.take(i as int)),
            decreases n - i,
        {
            let v = &versions[i];
            let registered = self.get(&v.guid);
            proof {
                lemma_guid_index_of(self.entries(), v.guid);
                assert(versions@.take(i + 1).drop_last() =~= versions@.take(i as int));
                assert(versions@.take(i + 1).last() == versions@[i as int]);
            }
            match registered {
                Some(reg) => {
                    if !reg.is_compatible_with(v) {
                        let mut m = "Incompatible version for ".to_owned();
                        m.append(reg.friendly_name.as_str());
                        errors.push(m);
                    }
                },
                None => {
                    let mut m = "Unknown custom version: ".to_owned();
                    m.append(v.friendly_name.as_str());
                    errors.push(m);
                },
            }
            i += 1;
        }
        proof {
            assert(versions@.take(n as int) =~= versions@);
        }
        errors
    }

    /// A registry holding the engine's own version series and the known
    /// game-specific ones.
    pub fn new() -> (r: Self)
        ensures
            r.entries().len() > 0,
    {
        CustomVersionRegistry::with_defaults()
    }

    /// A registry holding the engine's own version series and the known
    /// game-specific ones.
    pub fn with_defaults() -> (r: Self)
        ensures
            r.entries().len() > 0,
    {
        let mut reg = CustomVersionRegistry::empty();
        reg.register(
            CustomVersion::new(
                Guid::new(0x3cc15e37, 0xfb48e406, 0xf08400b5, 0x7e712a26),
                1,
                "FRenderingObjectVersion".to_owned(),
            ),
        );
        reg.register(
            CustomVersion::new(
                Guid::new(0x2843c6e1, 0x534d2ca2, 0x868e6ca3, 0x8cbd1764),
                1,
                "FAnimObjectVersion".to_owned(),
            ),
        );
        reg.register(
            CustomVersion::new(
                Guid::new(0xa9562acf, 0x204bc159, 0x982a09aa, 0xcab42c7d),
                1,
                "FFrameworkObjectVersion".to_owned(),
            ),
        );
        reg.register(
            CustomVersion::new(
                Guid::new(0x0f383166, 0xe0434d2d, 0x27cf0980, 0x5aa95669),
                1,
                "FEngineObjectVersion".to_owned(),
            ),
        );
        reg.register(
            CustomVersion::new(
                Guid::new(0xdd75e529, 0x2746a3e0, 0x76d2109d, 0xeadc2c23),
                1,
                "FEditorObjectVersion".to_owned(),
            ),
        );
        let mut fortnite: Vec<CustomVersion> = Vec::new();
        fortnite.push(
            CustomVersion::new(
                Guid::new(0x7a563412, 0x34123412, 0x34123412, 0xbc9a7856),
                28,
                "FortniteMainBranchObjectVersion".to_owned(),
            ),
        );
        fortnite.push(
            CustomVersion::new(
                Guid::new(0xd6bcff9d, 0x58014f49, 0x821221e2, 0x88a8923c),
                1,
                "FortniteReleaseBranchCustomObjectVersion".to_owned(),
            ),
        );
        reg.add_game_versions("Fortnite", fortnite);
        let mut bl3: Vec<CustomVersion> = Vec::new();
        bl3.push(
            CustomVersion::new(
                Guid::new(0x6ec18fb6, 0x1c4e778b, 0x9d2e239f, 0x2d0eb808),
                1,
                "OakCustomVersion".to_owned(),
            ),
        );
        reg.add_game_versions("Borderlands3", bl3);
        let mut rl: Vec<CustomVersion> = Vec::new();
        rl.push(
            CustomVersion::new(
                Guid::new(0x5c10e4a4, 0xb549a159, 0xc440c5a7, 0xeedf7e54),
                1,
                "TASerialization".to_owned(),
            ),
        );
        reg.add_game_versions("RocketLeague", rl);
        assert(reg.entries().len() > 0);
        reg
    }
}

/// When an entry with the sought identifier stands at `i` and none does
/// before it, `guid_index_of` returns `i`.
pub proof fn lemma_guid_index_of_found(s: Seq<CustomVersion>, g: Guid, i: int)
    requires
        0 <= i < s.len(),
        s[i].guid == g,
        forall|j: int| 0 <= j < i ==> s[j].guid != g,
    ensures
        guid_index_of(s, g) == i,
    decreases s.len(),
{
    if i > 0 {
        lemma_guid_index_of_found(s.drop_first(), g, i - 1);
    }
}

} // verus!
