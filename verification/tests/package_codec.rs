//! Tests for the property codec, the package reader and writer, the
//! resolver and the dependency graph.

use cue4parse_rs::archive::{BinaryArchive, BinaryArchiveWriter};
use cue4parse_rs::asset::{read, Asset, Export, Import};
use cue4parse_rs::codec::{decode_element, decode_fname, decode_stream, encode_fname, encode_stream};
use cue4parse_rs::error::Error;
use cue4parse_rs::graph::{DependencyGraph, DependencyType, PackageDependency};
use cue4parse_rs::names::{OptimizedNameMap, NameHashAlgorithm};
use cue4parse_rs::property::{Property, PropertyEntry, MapEntry};
use cue4parse_rs::resolver::{PackageIndexResolver, ObjectReference};
use cue4parse_rs::types::{PackageIndex, FName, Guid, Vector, Quat, Transform, SoftObjectPath};

fn roundtrip(names: &OptimizedNameMap, p: &Property) -> Property {
    let mut w = BinaryArchiveWriter::new();
    p.encode_element(&mut w, names);
    let bytes = w.into_bytes();
    let mut r = BinaryArchive::new(bytes);
    decode_element(&mut r, names).expect("an encoded property must decode")
}

fn plain_names() -> OptimizedNameMap {
    let mut names = OptimizedNameMap::new(NameHashAlgorithm::Fnv1a);
    names.add_string("None");
    names.add_string("TestName");
    names
}

#[test]
fn test_scalar_property_roundtrips() {
    let names = plain_names();
    for p in [
        Property::Bool(true),
        Property::Bool(false),
        Property::Int8(-5),
        Property::Int16(-3000),
        Property::Int32(42),
        Property::Int64(9223372036854775807),
        Property::UInt8(200),
        Property::UInt16(65000),
        Property::UInt32(4000000000),
        Property::UInt64(18000000000000000000),
        Property::Float(3.14159f32.to_bits()),
        Property::Double(2.718281828f64.to_bits()),
    ] {
        let back = roundtrip(&names, &p);
        assert_eq!(back, p);
    }
}

#[test]
fn test_geometry_property_roundtrips() {
    let names = plain_names();
    let vector = Property::Vector(Vector::new(
        1.0f32.to_bits(),
        2.0f32.to_bits(),
        3.0f32.to_bits(),
    ));
    let quat = Property::Quat(Quat::new(
        0.1f32.to_bits(),
        0.2f32.to_bits(),
        0.3f32.to_bits(),
        1.0f32.to_bits(),
    ));
    let transform = Property::Transform(Transform::identity());
    let guid = Property::Guid(Guid::new(0xdeadbeef, 0x01020304, 0xa5a5a5a5, 0xffffffff));
    for p in [vector, quat, transform, guid] {
        let back = roundtrip(&names, &p);
        assert_eq!(back, p);
    }
}

#[test]
fn test_string_and_name_property_roundtrips() {
    let names = plain_names();
    let string_prop = Property::String("Hello, world".to_string());
    assert_eq!(roundtrip(&names, &string_prop), string_prop);

    let name_prop = Property::Name(FName::with_number("TestName", 4));
    assert_eq!(roundtrip(&names, &name_prop), name_prop);

    let text_prop = Property::Text {
        text: "Hello World".to_string(),
        namespace: Some("Game".to_string()),
        key: Some("Greeting".to_string()),
    };
    assert_eq!(roundtrip(&names, &text_prop), text_prop);
}

#[test]
fn test_container_property_roundtrips() {
    let mut names = plain_names();
    names.add_string("Inner");
    let array = Property::Array(vec![
        Property::Int32(1),
        Property::Int32(2),
        Property::String("test".to_string()),
    ]);
    assert_eq!(roundtrip(&names, &array), array);

    let set = Property::TSet(vec![Property::UInt8(1), Property::UInt8(9)]);
    assert_eq!(roundtrip(&names, &set), set);

    let map = Property::TMap {
        key_type: "String".to_string(),
        value_type: "Int32".to_string(),
        entries: vec![
            MapEntry { key: Property::String("key1".to_string()), value: Property::Int32(100) },
            MapEntry { key: Property::String("key2".to_string()), value: Property::Int32(200) },
        ],
    };
    assert_eq!(roundtrip(&names, &map), map);

    let nested = Property::Struct {
        struct_type: FName::new("MyStruct"),
        properties: vec![
            PropertyEntry { name: "Inner".to_string(), value: Property::Bool(true) },
        ],
    };
    assert_eq!(roundtrip(&names, &nested), nested);
}

#[test]
fn test_object_reference_roundtrips() {
    let names = plain_names();
    let null_obj = Property::Object(None);
    assert_eq!(roundtrip(&names, &null_obj), null_obj);
    let some_obj = Property::Object(Some(PackageIndex(5)));
    assert_eq!(roundtrip(&names, &some_obj), some_obj);
    let neg_obj = Property::StaticMesh(Some(PackageIndex(-3)));
    assert_eq!(roundtrip(&names, &neg_obj), neg_obj);
}

#[test]
fn test_property_type_compatibility() {
    let bool_prop = Property::Bool(true);
    assert!(matches!(bool_prop, Property::Bool(true)));

    let int8_prop = Property::Int8(-5);
    assert!(matches!(int8_prop, Property::Int8(-5)));

    let int32_prop = Property::Int32(42);
    assert!(matches!(int32_prop, Property::Int32(42)));

    let float_prop = Property::Float(3.14f32.to_bits());
    assert!(matches!(float_prop, Property::Float(bits) if f32::from_bits(bits) == 3.14));

    let string_prop = Property::String("test".to_string());
    assert!(matches!(string_prop, Property::String(ref s) if s == "test"));

    let name_prop = Property::Name(FName::new("TestName"));
    if let Property::Name(fname) = &name_prop {
        assert_eq!(fname.as_str(), "TestName");
    } else {
        panic!("Expected Name property");
    }

    let obj_prop = Property::Object(None);
    assert!(matches!(obj_prop, Property::Object(None)));

    let obj_ref_prop = Property::Object(Some(PackageIndex(5)));
    assert!(matches!(obj_ref_prop, Property::Object(Some(PackageIndex(5)))));

    assert_eq!(Property::Bool(true).get_type(), "BoolProperty");
    assert_eq!(Property::Int32(1).get_type(), "IntProperty");
    assert_eq!(Property::Vector(Vector::zero()).get_type(), "StructProperty");
    assert!(Property::Int32(1).is_type("IntProperty"));
    assert!(!Property::Int32(1).is_type("BoolProperty"));
}

#[test]
fn test_validate_for_binary() {
    assert!(Property::Int32(1).validate_for_binary());
    assert!(!Property::Unknown(vec![1, 2, 3]).validate_for_binary());
    let arr = Property::Array(vec![Property::Int32(1), Property::Unknown(vec![0])]);
    assert!(!arr.validate_for_binary());
    let ok_arr = Property::Array(vec![Property::Int32(1)]);
    assert!(ok_arr.validate_for_binary());
}

#[test]
fn test_string_encoding_edge_cases() {
    // Zero-length strings take the zero length word alone and come back
    // empty.
    let mut w = BinaryArchiveWriter::new();
    w.write_fstring("");
    let bytes = w.into_bytes();
    assert_eq!(bytes, vec![0u8, 0, 0, 0]);
    let mut r = BinaryArchive::new(bytes);
    assert_eq!(r.read_fstring().unwrap(), "");

    // An ASCII string stores its length plus one for the trailing NUL.
    let mut w = BinaryArchiveWriter::new();
    w.write_fstring("Ok");
    let bytes = w.into_bytes();
    assert_eq!(bytes, vec![3u8, 0, 0, 0, b'O', b'k', 0]);
    let mut r = BinaryArchive::new(bytes);
    assert_eq!(r.read_fstring().unwrap(), "Ok");

    // A string with non-ASCII characters goes through 16-bit units and
    // comes back uncorrupted, astral characters included.
    let tricky = "caf\u{e9} \u{65e5}\u{672c} \u{1f600}";
    let mut w = BinaryArchiveWriter::new();
    w.write_fstring(tricky);
    let bytes = w.into_bytes();
    let mut r = BinaryArchive::new(bytes);
    assert_eq!(r.read_fstring().unwrap(), tricky);
}

#[test]
fn test_name_index_out_of_range_is_rejected() {
    // A name reference of -1 must fail with an index-range error, not
    // read out of bounds.
    let names = plain_names();
    let mut w = BinaryArchiveWriter::new();
    w.write_i32(-1);
    w.write_u32(0);
    let mut r = BinaryArchive::new(w.into_bytes());
    match decode_fname(&mut r, &names) {
        Err(Error::InvalidIndex(i)) => assert_eq!(i, -1),
        other => panic!("expected an index-range error, got {:?}", other),
    }
}

#[test]
fn test_unknown_property_tag_is_preserved() {
    // An unknown tag with a declared size of 7 decodes to Unknown
    // carrying exactly those 7 bytes.
    let names = plain_names();
    let payload: Vec<u8> = vec![1, 2, 3, 4, 5, 6, 7];
    let mut w = BinaryArchiveWriter::new();
    w.write_fstring("FutureProperty");
    w.write_u64(7);
    w.write_bytes(&payload);
    let mut r = BinaryArchive::new(w.into_bytes());
    match decode_element(&mut r, &names).expect("unknown tags must not fail the decode") {
        Property::Unknown(bytes) => assert_eq!(bytes, payload),
        other => panic!("expected an opaque property, got {:?}", other),
    }
}

#[test]
fn test_unknown_property_inside_stream() {
    // A stream around an unrecognized tag still decodes.
    let mut names = plain_names();
    names.add_string("Mystery");
    let mut w = BinaryArchiveWriter::new();
    encode_fname(&mut w, &names, "Mystery", 0);
    w.write_fstring("FutureProperty");
    w.write_u64(3);
    w.write_bytes(&vec![9, 9, 9]);
    encode_fname(&mut w, &names, "None", 0);
    let mut r = BinaryArchive::new(w.into_bytes());
    let entries = decode_stream(&mut r, &names).expect("stream must decode");
    assert_eq!(entries.len(), 1);
    assert_eq!(entries[0].name, "Mystery");
    assert!(matches!(entries[0].value, Property::Unknown(ref v) if v == &vec![9, 9, 9]));
}

#[test]
fn test_property_stream_roundtrip() {
    let mut names = plain_names();
    names.add_string("Alpha");
    names.add_string("Beta");
    let entries = vec![
        PropertyEntry { name: "Alpha".to_string(), value: Property::Int32(7) },
        PropertyEntry { name: "Beta".to_string(), value: Property::Bool(true) },
    ];
    let mut w = BinaryArchiveWriter::new();
    encode_stream(&mut w, &names, &entries);
    let mut r = BinaryArchive::new(w.into_bytes());
    let back = decode_stream(&mut r, &names).expect("stream must decode");
    assert_eq!(back, entries);
}

fn synthetic_asset() -> Asset {
    let mut asset = Asset::new_empty();
    asset.asset_data.add_fname("None");
    asset.asset_data.add_fname("Object");
    asset.asset_data.add_fname("Class");
    asset.asset_data.add_fname("MyTestClass");
    let import = Import {
        class_package: FName::new("CoreUObject"),
        class_name: FName::new("Class"),
        outer_index: PackageIndex::null(),
        object_name: FName::new("Object"),
        package_guid: Some(Guid::nil()),
        package_name: FName::new("CoreUObject"),
    };
    asset.add_import(import);
    let mut export = Export::new(FName::new("MyTestClass"), PackageIndex::from_import(0));
    export.set_property("BoolTest", Property::Bool(true));
    export.set_property("IntTest", Property::Int32(42));
    export.set_property(
        "VectorTest",
        Property::Vector(Vector::new(
            1.0f32.to_bits(),
            2.0f32.to_bits(),
            3.0f32.to_bits(),
        )),
    );
    asset.add_export(export);
    asset.asset_data.rebuild_name_map();
    asset
}

#[test]
fn test_package_roundtrip_scenario() {
    // A synthetic asset built purely in memory: serialize, re-parse and
    // compare the tables and properties.
    let asset = synthetic_asset();
    let bytes = cue4parse_rs::asset::write(&asset).expect("the package must serialize");
    let back = read(&bytes, asset.engine_version_recorded).expect("the package must re-parse");

    assert_eq!(back.asset_data.imports.len(), 1);
    assert_eq!(back.asset_data.imports[0].object_name.as_str(), "Object");
    assert_eq!(back.asset_data.imports[0].class_name.as_str(), "Class");
    assert_eq!(back.asset_data.exports.len(), 1);
    let export = &back.asset_data.exports[0];
    assert_eq!(export.object_name.as_str(), "MyTestClass");
    assert_eq!(
        export.get_property("BoolTest"),
        Some(&Property::Bool(true))
    );
    assert_eq!(export.get_property("IntTest"), Some(&Property::Int32(42)));
    assert_eq!(
        export.get_property("VectorTest"),
        Some(&Property::Vector(Vector::new(
            1.0f32.to_bits(),
            2.0f32.to_bits(),
            3.0f32.to_bits(),
        )))
    );

    // The export's class resolves through the import to "Object".
    let resolver = PackageIndexResolver::new(&back.asset_data.imports, &back.asset_data.exports);
    let class_name = resolver
        .get_class_name(PackageIndex::from_export(0))
        .expect("the class must resolve");
    assert_eq!(class_name, "Object");

    // The name tables match entry for entry.
    assert_eq!(
        back.asset_data.get_name_map(),
        asset.asset_data.get_name_map()
    );
}

#[test]
fn test_package_rejects_bad_magic() {
    let asset = synthetic_asset();
    let mut bytes = cue4parse_rs::asset::write(&asset).expect("the package must serialize");
    bytes[0] ^= 0xff;
    assert!(read(&bytes, asset.engine_version_recorded).is_err());
}

#[test]
fn test_resolver_termination_on_outer_cycle() {
    // Two imports whose outer chains point at each other: path
    // resolution must stop with an error, never hang.
    let imports = vec![
        Import {
            class_package: FName::new("P"),
            class_name: FName::new("C"),
            outer_index: PackageIndex::from_import(1),
            object_name: FName::new("A"),
            package_guid: None,
            package_name: FName::new("P"),
        },
        Import {
            class_package: FName::new("P"),
            class_name: FName::new("C"),
            outer_index: PackageIndex::from_import(0),
            object_name: FName::new("B"),
            package_guid: None,
            package_name: FName::new("P"),
        },
    ];
    let exports: Vec<Export> = Vec::new();
    let resolver = PackageIndexResolver::new(&imports, &exports);
    assert!(resolver.get_full_path(PackageIndex::from_import(0)).is_err());
}

#[test]
fn test_resolver_full_path() {
    let imports = vec![
        Import {
            class_package: FName::new("P"),
            class_name: FName::new("Package"),
            outer_index: PackageIndex::null(),
            object_name: FName::new("Game"),
            package_guid: None,
            package_name: FName::new("P"),
        },
        Import {
            class_package: FName::new("P"),
            class_name: FName::new("C"),
            outer_index: PackageIndex::from_import(0),
            object_name: FName::new("Hero"),
            package_guid: None,
            package_name: FName::new("P"),
        },
    ];
    let exports: Vec<Export> = Vec::new();
    let resolver = PackageIndexResolver::new(&imports, &exports);
    let path = resolver.get_full_path(PackageIndex::from_import(1)).unwrap();
    assert_eq!(path, "Game/Hero");
}

fn edge(to: &str) -> PackageDependency {
    PackageDependency {
        package_name: to.to_string(),
        package_guid: None,
        dependency_type: DependencyType::ObjectReference,
        is_hard_dependency: true,
    }
}

#[test]
fn test_dependency_cycle_detection() {
    // A three-package loop is reported as a cycle holding exactly those
    // packages.
    let mut g = DependencyGraph::new();
    g.add_dependency("A", edge("B"));
    g.add_dependency("B", edge("C"));
    g.add_dependency("C", edge("A"));
    let cycles = g.check_circular_dependencies();
    assert!(!cycles.is_empty());
    let mut members = cycles[0].clone();
    members.sort();
    assert_eq!(members, vec!["A".to_string(), "B".to_string(), "C".to_string()]);

    // A purely linear chain reports no cycles.
    let mut lin = DependencyGraph::new();
    lin.add_dependency("A", edge("B"));
    lin.add_dependency("B", edge("C"));
    assert!(lin.check_circular_dependencies().is_empty());
}

#[test]
fn test_transitive_dependencies() {
    let mut g = DependencyGraph::new();
    g.add_dependency("A", edge("B"));
    g.add_dependency("B", edge("C"));
    let mut reached = g.get_transitive_dependencies("A");
    reached.sort();
    assert_eq!(reached, vec!["B".to_string(), "C".to_string()]);
}

#[test]
fn test_get_dependencies_and_statistics() {
    let mut g = DependencyGraph::new();
    g.add_dependency("A", edge("B"));
    g.add_dependency("A", edge("C"));
    let deps = g.get_dependencies("A");
    assert_eq!(deps.len(), 2);
    assert_eq!(deps[0].package_name, "B");
    assert_eq!(deps[1].package_name, "C");
    let (packages, edges, hard) = g.get_statistics();
    assert_eq!(packages, 1);
    assert_eq!(edges, 2);
    assert_eq!(hard, 2);
}

#[test]
fn test_validate_all_indices_reports_bad_refs() {
    let imports: Vec<Import> = Vec::new();
    let exports = vec![
        {
            let mut e = Export::new(FName::new("Good"), PackageIndex::null());
            e.object_flags = 1;
            e
        },
        Export::new(FName::new("Bad"), PackageIndex(77)),
    ];
    let resolver = PackageIndexResolver::new(&imports, &exports);
    let findings = resolver.validate_all_indices();
    assert_eq!(findings.len(), 1);
}

#[test]
fn test_export_structure_compatibility() {
    let mut export = Export::new(FName::new("TestObject"), PackageIndex(1));
    export.object_flags = 0x12345678;
    export.serial_size = 1024;
    export.serial_offset = 512;
    export.export_flags = 0x00000001;
    export.set_property("TestProp", Property::Bool(true));
    assert_eq!(export.object_name.as_str(), "TestObject");
    assert_eq!(export.object_flags, 0x12345678);
    assert_eq!(export.serial_size, 1024);
    assert_eq!(export.serial_offset, 512);
    assert_eq!(export.export_flags, 0x00000001);
    assert_eq!(export.properties.len(), 1);
    assert!(export.get_property("TestProp").is_some());
}

#[test]
fn test_import_structure_compatibility() {
    let import = Import {
        class_package: FName::new("CoreUObject"),
        class_name: FName::new("Class"),
        outer_index: PackageIndex::null(),
        object_name: FName::new("TestClass"),
        package_name: FName::new("TestPackage"),
        package_guid: Some(Guid::new(1, 2, 3, 4)),
    };
    assert_eq!(import.class_package.as_str(), "CoreUObject");
    assert_eq!(import.class_name.as_str(), "Class");
    assert_eq!(import.object_name.as_str(), "TestClass");
    assert!(import.package_guid.is_some());
}

#[test]
fn test_asset_helper_methods() {
    let mut asset = Asset::new_empty();
    let mut export1 = Export::new(FName::new("TestExport1"), PackageIndex::null());
    export1.set_property("TestProp", Property::Bool(true));
    let mut export2 = Export::new(FName::new("TestExport2"), PackageIndex::null());
    export2.set_property("AnotherProp", Property::Int32(42));
    asset.add_export(export1);
    asset.add_export(export2);

    let found_export = asset.get_export_by_name("TestExport1");
    assert!(found_export.is_some());
    assert_eq!(found_export.unwrap().object_name.as_str(), "TestExport1");

    assert!(asset.get_export_by_name("NonExistent").is_none());

    let main_export = asset.get_main_export();
    assert!(main_export.is_some());
    assert_eq!(main_export.unwrap().object_name.as_str(), "TestExport1");

    let import1 = Import {
        class_package: FName::new("CoreUObject"),
        class_name: FName::new("Class"),
        outer_index: PackageIndex::null(),
        object_name: FName::new("TestImport1"),
        package_name: FName::new("TestPackage"),
        package_guid: None,
    };
    asset.add_import(import1);

    let found_import = asset.get_import_by_name("TestImport1");
    assert!(found_import.is_some());
    assert_eq!(found_import.unwrap().object_name.as_str(), "TestImport1");
    assert!(asset.get_import_by_name("NonExistent").is_none());
}

#[test]
fn test_complex_property_types() {
    let array_prop = Property::Array(vec![
        Property::Int32(1),
        Property::Int32(2),
        Property::String("test".to_string()),
    ]);
    if let Property::Array(arr) = &array_prop {
        assert_eq!(arr.len(), 3);
        assert!(matches!(arr[0], Property::Int32(1)));
        assert!(matches!(arr[1], Property::Int32(2)));
        assert!(matches!(arr[2], Property::String(ref s) if s == "test"));
    } else {
        panic!("Expected Array property");
    }

    let struct_prop = Property::Struct {
        struct_type: FName::new("Vector2D"),
        properties: vec![
            PropertyEntry { name: "X".to_string(), value: Property::Float(1.0f32.to_bits()) },
            PropertyEntry { name: "Y".to_string(), value: Property::Float(2.0f32.to_bits()) },
        ],
    };
    if let Property::Struct { struct_type, properties } = &struct_prop {
        assert_eq!(struct_type.as_str(), "Vector2D");
        assert_eq!(properties.len(), 2);
        assert!(
            matches!(properties[0].value, Property::Float(bits) if f32::from_bits(bits) == 1.0)
        );
        assert!(
            matches!(properties[1].value, Property::Float(bits) if f32::from_bits(bits) == 2.0)
        );
    } else {
        panic!("Expected Struct property");
    }

    let map_prop = Property::TMap {
        key_type: "String".to_string(),
        value_type: "Int32".to_string(),
        entries: vec![
            MapEntry { key: Property::String("key1".to_string()), value: Property::Int32(100) },
            MapEntry { key: Property::String("key2".to_string()), value: Property::Int32(200) },
        ],
    };
    if let Property::TMap { key_type, value_type, entries } = &map_prop {
        assert_eq!(key_type, "String");
        assert_eq!(value_type, "Int32");
        assert_eq!(entries.len(), 2);
    } else {
        panic!("Expected map property");
    }

    let enum_prop = Property::Enum {
        enum_type: FName::new("ETestEnum"),
        value: FName::new("Value1"),
    };
    if let Property::Enum { enum_type, value } = &enum_prop {
        assert_eq!(enum_type.as_str(), "ETestEnum");
        assert_eq!(value.as_str(), "Value1");
    } else {
        panic!("Expected Enum property");
    }

    let text_prop = Property::Text {
        text: "Hello World".to_string(),
        namespace: Some("Game".to_string()),
        key: Some("Greeting".to_string()),
    };
    if let Property::Text { text, namespace, key } = &text_prop {
        assert_eq!(text, "Hello World");
        assert_eq!(namespace.as_ref().unwrap(), "Game");
        assert_eq!(key.as_ref().unwrap(), "Greeting");
    } else {
        panic!("Expected Text property");
    }
}

#[test]
fn test_asset_structure_compatibility() {
    let asset = Asset::new_empty();
    assert_eq!(asset.asset_data.object_name, "");
    assert_eq!(asset.asset_data.exports.len(), 0);
    assert_eq!(asset.asset_data.imports.len(), 0);
    assert_eq!(asset.asset_data.package_flags, 0);
    assert_eq!(asset.asset_data.total_header_size, 0);
    assert_eq!(asset.asset_data.get_name_map().len(), 0);
    assert_eq!(asset.custom_versions.len(), 0);
    let _debug_str = format!("{:?}", asset);
}

#[test]
fn test_soft_object_path_is_null() {
    assert!(SoftObjectPath::new("", "").is_null());
    assert!(!SoftObjectPath::new("", "sub").is_null());
    assert!(!SoftObjectPath::new("a", "").is_null());
    assert!(!SoftObjectPath::new("a", "b").is_null());
}

#[test]
fn test_reverse_dependency_index() {
    let mut g = DependencyGraph::new();
    g.add_dependency("A", edge("B"));
    g.add_dependency("C", edge("B"));
    g.add_dependency("A", edge("D"));
    let dependents_of_b: Vec<String> = g.get_dependents("B").into_iter().cloned().collect();
    assert_eq!(dependents_of_b, vec!["A".to_string(), "C".to_string()]);
    assert!(g.get_dependents("A").is_empty());
    let dependents_of_d: Vec<String> = g.get_dependents("D").into_iter().cloned().collect();
    assert_eq!(dependents_of_d, vec!["A".to_string()]);
}

#[test]
fn test_set_property_replaces_in_place() {
    let mut export = Export::new(FName::new("Obj"), PackageIndex::null());
    export.set_property("Health", Property::Int32(10));
    export.set_property("Armor", Property::Int32(5));
    export.set_property("Health", Property::Int32(99));
    assert_eq!(export.properties.len(), 2);
    assert_eq!(export.properties[0].name, "Health");
    assert_eq!(export.get_property("Health"), Some(&Property::Int32(99)));
    assert_eq!(export.get_property("Armor"), Some(&Property::Int32(5)));
}

#[test]
fn test_find_objects_by_name_substring() {
    let imports = vec![Import {
        class_package: FName::new("P"),
        class_name: FName::new("C"),
        outer_index: PackageIndex::null(),
        object_name: FName::new("HeroMesh"),
        package_guid: None,
        package_name: FName::new("P"),
    }];
    let exports = vec![
        Export::new(FName::new("HeroActor"), PackageIndex::null()),
        Export::new(FName::new("Villain"), PackageIndex::null()),
    ];
    let resolver = PackageIndexResolver::new(&imports, &exports);
    let hits = resolver.find_objects_by_name("Hero");
    assert_eq!(hits.len(), 2);
    assert_eq!(hits[0].0, PackageIndex::from_import(0));
    assert_eq!(hits[1].0, PackageIndex::from_export(0));
    assert!(resolver.find_objects_by_name("Dragon").is_empty());
}

#[test]
fn test_get_objects_of_class_scan() {
    let imports = vec![Import {
        class_package: FName::new("P"),
        class_name: FName::new("Material"),
        outer_index: PackageIndex::null(),
        object_name: FName::new("M0"),
        package_guid: None,
        package_name: FName::new("P"),
    }];
    let exports = vec![Export::new(FName::new("Thing"), PackageIndex::null())];
    let resolver = PackageIndexResolver::new(&imports, &exports);
    let materials = resolver.get_objects_of_class("Material");
    assert_eq!(materials.len(), 1);
    assert_eq!(materials[0].0, PackageIndex::from_import(0));
    // A null class resolves to the base object class.
    let objects = resolver.get_objects_of_class("Object");
    assert_eq!(objects.len(), 1);
    assert_eq!(objects[0].0, PackageIndex::from_export(0));
}

#[test]
fn test_rebuild_name_map_enables_write() {
    // Without interning, an asset's names cannot be encoded;
    // rebuild_name_map populates the table, and the round trip works.
    let mut asset = Asset::new_empty();
    let mut export = Export::new(FName::new("Fresh"), PackageIndex::null());
    export.set_property("Speed", Property::Int32(7));
    asset.add_export(export);
    asset.asset_data.rebuild_name_map();
    assert!(asset.fits_string_limits());
    let bytes = cue4parse_rs::asset::write(&asset).expect("must serialize");
    let back = read(&bytes, asset.engine_version_recorded).expect("must re-parse");
    assert_eq!(back.asset_data.exports[0].object_name.as_str(), "Fresh");
    assert_eq!(
        back.asset_data.exports[0].get_property("Speed"),
        Some(&Property::Int32(7))
    );
}

#[test]
fn test_object_reference_accessors() {
    let null_ref = ObjectReference::Null;
    assert!(null_ref.is_null());
    assert!(!null_ref.is_import());
    assert!(!null_ref.is_export());
    assert!(null_ref.get_name().is_none());
    let imports = vec![Import {
        class_package: FName::new("P"),
        class_name: FName::new("C"),
        outer_index: PackageIndex::null(),
        object_name: FName::new("Thing"),
        package_guid: None,
        package_name: FName::new("P"),
    }];
    let exports: Vec<Export> = Vec::new();
    let resolver = PackageIndexResolver::new(&imports, &exports);
    let r = resolver.resolve(PackageIndex::from_import(0)).unwrap();
    assert!(r.is_import());
    assert!(!r.is_export());
    assert_eq!(r.get_name().unwrap().as_str(), "Thing");
}

#[test]
fn test_name_hash_mismatch_is_fatal() {
    // Corrupting a stored name makes its recorded hash disagree, and
    // the whole read fails rather than silently correcting it.
    let asset = synthetic_asset();
    let mut bytes = cue4parse_rs::asset::write(&asset).expect("the package must serialize");
    let needle = b"MyTestClass";
    let pos = bytes
        .windows(needle.len())
        .position(|w| w == needle)
        .expect("the name must be in the name table");
    bytes[pos] = b'X';
    assert!(read(&bytes, asset.engine_version_recorded).is_err());
}

#[test]
fn test_cycle_report_completeness_shapes() {
    // A diamond-shaped acyclic graph reports nothing.
    let mut dag = DependencyGraph::new();
    dag.add_dependency("A", edge("B"));
    dag.add_dependency("A", edge("C"));
    dag.add_dependency("B", edge("D"));
    dag.add_dependency("C", edge("D"));
    assert!(dag.check_circular_dependencies().is_empty());

    // A self-loop is found.
    let mut selfloop = DependencyGraph::new();
    selfloop.add_dependency("S", edge("S"));
    let found = selfloop.check_circular_dependencies();
    assert!(!found.is_empty());
    assert_eq!(found[0], vec!["S".to_string()]);

    // A cycle behind a lead-in chain is still found.
    let mut tail = DependencyGraph::new();
    tail.add_dependency("Entry", edge("X"));
    tail.add_dependency("X", edge("Y"));
    tail.add_dependency("Y", edge("X"));
    let cycles = tail.check_circular_dependencies();
    assert!(!cycles.is_empty());
    let mut members = cycles[0].clone();
    members.sort();
    assert_eq!(members, vec!["X".to_string(), "Y".to_string()]);
}
