//! Tests for the core value types, the provider configuration and the
//! name table.

use cue4parse_rs::provider::{Provider, GameVersion, ConversionUtils, CUE4ParseError};
use cue4parse_rs::provider::is_feature_available;
use cue4parse_rs::types::{PackageIndex, FName, ToSerializedName};
use cue4parse_rs::names::{OptimizedNameMap, NameHashAlgorithm};
use cue4parse_rs::versions::{CustomVersion, CustomVersionRegistry, EngineVersion};
use cue4parse_rs::types::Guid;
use cue4parse_rs::error::Error;

#[test]
fn test_provider_creation() {
    let provider = Provider::new("test/path", GameVersion::UE5_3);
    assert_eq!(provider.config.directory_path, "test/path");
    assert!(matches!(provider.config.game_version, GameVersion::UE5_3));
}

#[test]
fn test_adding_keys() {
    let mut provider = Provider::new("test/path", GameVersion::UE5_3);
    provider.add_key("test-guid", "test-key");
    assert_eq!(provider.config.aes_keys.len(), 1);
    assert_eq!(provider.config.aes_keys[0].guid, "test-guid");
    assert_eq!(provider.config.aes_keys[0].key, "test-key");
}

#[test]
fn test_game_version_as_str() {
    assert_eq!(GameVersion::UE4_0.as_str(), "GAME_UE4_0");
    assert_eq!(GameVersion::UE4_27.as_str(), "GAME_UE4_27");
    assert_eq!(GameVersion::UE5_0.as_str(), "GAME_UE5_0");
    assert_eq!(GameVersion::UE5_3.as_str(), "GAME_UE5_3");
    assert_eq!(GameVersion::UE5_5.as_str(), "GAME_UE5_5");
}

#[test]
fn test_multiple_keys() {
    let mut provider = Provider::new("test/path", GameVersion::UE5_3);
    provider.add_key("guid1", "key1");
    provider.add_key("guid2", "key2");
    provider.add_key("", "main-key");
    assert_eq!(provider.config.aes_keys.len(), 3);
    assert_eq!(provider.config.aes_keys[0].guid, "guid1");
    assert_eq!(provider.config.aes_keys[1].guid, "guid2");
    assert_eq!(provider.config.aes_keys[2].guid, "");
    assert_eq!(provider.config.aes_keys[2].key, "main-key");
}

#[test]
fn test_feature_availability() {
    println!("ACL available: {}", is_feature_available("ACL"));
    println!("Oodle available: {}", is_feature_available("Oodle"));
    assert!(!is_feature_available("NonExistentFeature"));
}

#[test]
fn test_feature_availability_fallback() {
    assert!(!is_feature_available("ACL"));
    assert!(!is_feature_available("Oodle"));
    assert!(!is_feature_available("NonExistent"));
}

#[test]
fn test_feature_disabled() {
    assert!(true);
}

#[test]
fn test_fname_compatibility() {
    let fname = FName::new("TestAsset");
    assert_eq!(fname.as_str(), "TestAsset");
    assert_eq!(fname.to_serialized_name(), "TestAsset");
    assert_eq!(fname.number, 0);

    let numbered_fname = FName::with_number("TestAsset", 3);
    assert_eq!(numbered_fname.to_serialized_name(), "TestAsset_3");
    assert_eq!(numbered_fname.number, 3);

    let fname2 = FName::new("TestAsset");
    assert_eq!(fname, fname2);

    let fname3 = FName::with_number("TestAsset", 1);
    assert_ne!(fname, fname3);
}

#[test]
fn test_package_index_compatibility() {
    let null_ref = PackageIndex::null();
    assert!(null_ref.is_null());
    assert!(!null_ref.is_import());
    assert!(!null_ref.is_export());
    assert_eq!(null_ref.import_index(), None);
    assert_eq!(null_ref.export_index(), None);

    let import_ref = PackageIndex(-1);
    assert!(!import_ref.is_null());
    assert!(import_ref.is_import());
    assert!(!import_ref.is_export());
    assert_eq!(import_ref.import_index(), Some(0));
    assert_eq!(import_ref.export_index(), None);

    let export_ref = PackageIndex(1);
    assert!(!export_ref.is_null());
    assert!(!export_ref.is_import());
    assert!(export_ref.is_export());
    assert_eq!(export_ref.import_index(), None);
    assert_eq!(export_ref.export_index(), Some(0));
}

#[test]
fn test_package_index_inverse_examples() {
    for i in [0usize, 1, 2, 41, 100000] {
        assert_eq!(PackageIndex::from_import(i).import_index(), Some(i));
        assert_eq!(PackageIndex::from_export(i).export_index(), Some(i));
    }
    assert!(PackageIndex::null().is_null());
}

#[test]
fn test_name_table_idempotence() {
    let mut names = OptimizedNameMap::new(NameHashAlgorithm::Fnv1a);
    let first = names.add_string("X");
    let second = names.add_string("X");
    assert_eq!(first, second);
    assert_eq!(names.get_string(first), Some(&"X".to_string()));
    let other = names.add_string("Y");
    assert_ne!(first, other);
    assert_eq!(names.add_string("X"), first);
    assert_eq!(names.len(), 2);
}

#[test]
fn test_name_table_lookup() {
    let mut names = OptimizedNameMap::new(NameHashAlgorithm::Fnv1a);
    names.add_string("None");
    names.add_string("Object");
    assert_eq!(names.find_string_index("Object"), Some(1));
    assert_eq!(names.find_string_index("Missing"), None);
    assert!(names.get_string(7).is_none());
    let strings = names.to_string_vector();
    assert_eq!(strings, vec!["None".to_string(), "Object".to_string()]);
}

#[test]
fn test_error_display() {
    let error = CUE4ParseError::InvalidPath("test/path".to_string());
    assert_eq!(error.message(), "Invalid path: test/path");

    let error = CUE4ParseError::ProcessFailed("CLI failed".to_string());
    assert_eq!(error.message(), "Process execution failed: CLI failed");

    let error = CUE4ParseError::ParseFailed;
    assert_eq!(error.message(), "Parse failed");
}

#[test]
fn test_serialization_error_messages() {
    assert_eq!(Error::no_data().message(), "No data available");
    assert_eq!(
        Error::invalid_package_index(-7).message(),
        "Invalid package index: -7"
    );
}

#[test]
fn test_conversion_utils() {
    assert_eq!(
        ConversionUtils::game_version_to_string(&GameVersion::UE5_3),
        "5.3.0"
    );
    assert_eq!(
        ConversionUtils::game_version_to_string(&GameVersion::UE4_27),
        "4.27.0"
    );
    assert_eq!(
        ConversionUtils::game_version_to_string(&GameVersion::UE5_0),
        "5.0.0"
    );
}

#[test]
fn test_command_args_layout() {
    let mut provider = Provider::new("game/paks", GameVersion::UE5_3);
    provider.add_key("g", "k");
    provider.set_mappings("maps.usmap");
    let args = provider.command_args("--list-packages");
    assert_eq!(args.len(), 9);
    assert_eq!(args[0], "--list-packages");
    assert_eq!(args[1], "--directory");
    assert_eq!(args[2], "game/paks");
    assert_eq!(args[3], "--version");
    assert_eq!(args[4], "GAME_UE5_3");
    assert_eq!(args[5], "--aes-key");
    assert_eq!(args[6], "g:k");
    assert_eq!(args[7], "--mappings");
    assert_eq!(args[8], "maps.usmap");
}

#[test]
fn test_custom_version_compatibility() {
    let g = Guid::new(1, 2, 3, 4);
    let newer = CustomVersion::new(g, 5, "Series".to_string());
    let older = CustomVersion::new(g, 3, "Series".to_string());
    assert!(newer.is_compatible_with(&older));
    assert!(!older.is_compatible_with(&newer));
    let other = CustomVersion::new(Guid::new(9, 9, 9, 9), 3, "Other".to_string());
    assert!(!newer.is_compatible_with(&other));
}

#[test]
fn test_validate_versions_counts() {
    let mut reg = CustomVersionRegistry::empty();
    let g = Guid::new(1, 2, 3, 4);
    reg.register(CustomVersion::new(g, 2, "Series".to_string()));
    let ok = CustomVersion::new(g, 1, "Series".to_string());
    let too_new = CustomVersion::new(g, 9, "Series".to_string());
    let unknown = CustomVersion::new(Guid::new(5, 5, 5, 5), 1, "Mystery".to_string());
    let findings = reg.validate_versions(&vec![ok, too_new, unknown]);
    assert_eq!(findings.len(), 2);
}

#[test]
fn test_default_registry_known_series() {
    let reg = CustomVersionRegistry::with_defaults();
    assert!(reg.get_game_versions("Fortnite").is_some());
    assert!(reg.get_game_versions("NoSuchGame").is_none());
}

#[test]
fn test_engine_version_numbers() {
    assert_eq!(EngineVersion::VER_UE4_27.version(), 524);
    assert_eq!(EngineVersion::from_version(1004), Some(EngineVersion::VER_UE5_3));
    assert_eq!(EngineVersion::from_version(12345), None);
    assert!(EngineVersion::VER_UE4_12.is_ue4());
    assert!(EngineVersion::VER_UE5_1.is_ue5());
}
