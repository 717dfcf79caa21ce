use bedrock_world::error::DecodeError;
use bedrock_world::map::WorldMap;
use bedrock_world::property::{
    decode_dynamic_properties, encode_dynamic_properties, DynamicProperties, DynamicPropertyValue,
};
use bedrock_world::tag::Tag;

fn sample_map() -> WorldMap {
    let mut m = WorldMap::new();
    m.dimension = 1;
    m.fully_explored = 1;
    m.map_locked = 0;
    m.scale = 3;
    m.unlimited_tracking = 1;
    m.x_center = -640;
    m.z_center = 1280;
    m.map_id = 42;
    m.parent_map_id = 7;
    m.colors[0] = 255;
    m.colors[65535] = 9;
    m
}

#[test]
fn map_round_trip_keeps_every_field() {
    let m = sample_map();
    let back = WorldMap::from_nbt(&m.to_nbt()).unwrap();
    assert_eq!(back, m);
    assert_eq!(back.width(), 128);
    assert_eq!(back.height, 128);
    assert_eq!(back.colors.len(), 128 * 128 * 4);
}

#[test]
fn default_map_is_blank_128_square() {
    let m = WorldMap::new();
    assert_eq!(m.width(), 128);
    assert_eq!(m.height, 128);
    assert_eq!(m.map_id, -1);
    assert_eq!(m.parent_map_id, -1);
    assert_eq!(m.colors.len(), 65536);
}

#[test]
fn map_tag_uses_save_format_names() {
    let m = sample_map();
    match m.to_nbt() {
        Tag::Compound(e) => {
            let names: Vec<&str> = e.iter().map(|(n, _)| n.as_str()).collect();
            assert_eq!(
                names,
                vec![
                    "dimension",
                    "fullyExplored",
                    "mapLocked",
                    "scale",
                    "unlimitedTracking",
                    "height",
                    "width",
                    "xCenter",
                    "zCenter",
                    "mapId",
                    "parentMapId",
                    "colors"
                ]
            );
            assert!(matches!(e[9].1, Tag::Long(42)));
            assert!(matches!(e[7].1, Tag::Int(-640)));
        }
        _ => panic!("a map is stored as a compound"),
    }
}

#[test]
fn map_decode_ignores_unknown_fields() {
    let m = sample_map();
    let mut e = match m.to_nbt() {
        Tag::Compound(e) => e,
        _ => unreachable!(),
    };
    e.insert(0, ("somethingNew".to_string(), Tag::Int(5)));
    let back = WorldMap::from_nbt(&Tag::Compound(e)).unwrap();
    assert_eq!(back, m);
}

#[test]
fn map_decode_missing_field_fails() {
    let mut e = match sample_map().to_nbt() {
        Tag::Compound(e) => e,
        _ => unreachable!(),
    };
    e.remove(3);
    assert_eq!(
        WorldMap::from_nbt(&Tag::Compound(e)),
        Err(DecodeError::MissingField("scale".to_string()))
    );
}

#[test]
fn map_decode_wrong_kind_fails() {
    let mut e = match sample_map().to_nbt() {
        Tag::Compound(e) => e,
        _ => unreachable!(),
    };
    e[9].1 = Tag::Int(42);
    assert_eq!(
        WorldMap::from_nbt(&Tag::Compound(e)),
        Err(DecodeError::WrongKind("mapId".to_string()))
    );
}

#[test]
fn map_decode_colour_size_mismatch_fails() {
    let mut e = match sample_map().to_nbt() {
        Tag::Compound(e) => e,
        _ => unreachable!(),
    };
    e[11].1 = Tag::ByteArray(vec![0; 10]);
    assert_eq!(WorldMap::from_nbt(&Tag::Compound(e)), Err(DecodeError::ColorsLength));
}

#[test]
fn map_decode_of_non_compound_fails() {
    assert!(matches!(
        WorldMap::from_nbt(&Tag::Int(1)),
        Err(DecodeError::NotCompound(_))
    ));
}

#[test]
fn blank_map_is_empty_and_one_byte_makes_it_not() {
    let mut m = WorldMap::new();
    assert!(m.is_empty());
    m.colors[12345] = 1;
    assert!(!m.is_empty());
    m.colors[12345] = 0;
    m.colors[0] = 200;
    assert!(!m.is_empty());
}

#[test]
fn map_keys_are_decimal() {
    let mut m = WorldMap::new();
    m.map_id = 7;
    assert_eq!(m.get_db_key(), b"map_7".to_vec());
    m.map_id = -1;
    assert_eq!(m.get_db_key(), b"map_-1".to_vec());
    m.map_id = 0;
    assert_eq!(m.get_db_key(), b"map_0".to_vec());
    m.map_id = i64::MIN;
    assert_eq!(m.get_db_key(), b"map_-9223372036854775808".to_vec());
    m.map_id = 1234567890123;
    assert_eq!(m.get_db_key(), b"map_1234567890123".to_vec());
}

#[test]
fn map_png_has_png_signature() {
    let mut m = WorldMap::new();
    m.colors[0] = 255;
    let png = m.encode_png();
    assert_eq!(&png[..8], &[0x89, b'P', b'N', b'G', 0x0d, 0x0a, 0x1a, 0x0a]);
    assert!(png.len() > 8);
}

fn round_trip(v: DynamicPropertyValue) {
    let t = v.to_nbt();
    assert_eq!(DynamicPropertyValue::from_nbt(&t).unwrap(), v);
}

#[test]
fn property_values_round_trip_in_their_variant() {
    round_trip(DynamicPropertyValue::Boolean(true));
    round_trip(DynamicPropertyValue::Boolean(false));
    round_trip(DynamicPropertyValue::Float(1.5f32.to_bits()));
    round_trip(DynamicPropertyValue::Double(2.25f64.to_bits()));
    round_trip(DynamicPropertyValue::String("hello".to_string()));
    round_trip(DynamicPropertyValue::Vector3([
        1.0f32.to_bits(),
        2.0f32.to_bits(),
        3.0f32.to_bits(),
    ]));
}

#[test]
fn vector_is_stored_as_list_of_three_floats() {
    let t = DynamicPropertyValue::Vector3([1, 2, 3]).to_nbt();
    match t {
        Tag::List(l) => {
            assert_eq!(l.len(), 3);
            assert!(matches!(l[0], Tag::Float(1)));
            assert!(matches!(l[2], Tag::Float(3)));
        }
        _ => panic!("a vector is stored as a list"),
    }
}

#[test]
fn boolean_is_stored_as_byte() {
    assert!(matches!(DynamicPropertyValue::Boolean(true).to_nbt(), Tag::Byte(1)));
    assert!(matches!(DynamicPropertyValue::Boolean(false).to_nbt(), Tag::Byte(0)));
    assert_eq!(
        DynamicPropertyValue::from_nbt(&Tag::Byte(5)).unwrap(),
        DynamicPropertyValue::Boolean(true)
    );
}

#[test]
fn unrecognised_value_shapes_are_rejected() {
    assert!(DynamicPropertyValue::from_nbt(&Tag::Int(3)).is_err());
    assert!(DynamicPropertyValue::from_nbt(&Tag::List(vec![Tag::Float(1), Tag::Float(2)])).is_err());
    assert!(DynamicPropertyValue::from_nbt(&Tag::List(vec![
        Tag::Float(1),
        Tag::Int(2),
        Tag::Float(3)
    ]))
    .is_err());
}

fn sample_table() -> DynamicProperties {
    vec![
        (
            "owner_a".to_string(),
            vec![
                ("flag".to_string(), DynamicPropertyValue::Boolean(true)),
                ("name".to_string(), DynamicPropertyValue::String("x".to_string())),
            ],
        ),
        (
            "owner_b".to_string(),
            vec![("pos".to_string(), DynamicPropertyValue::Vector3([0, 1, 2]))],
        ),
    ]
}

#[test]
fn property_table_round_trip() {
    let d = sample_table();
    let back = decode_dynamic_properties(&encode_dynamic_properties(&d)).unwrap();
    assert_eq!(back, d);
}

#[test]
fn property_table_rejects_non_compound_levels() {
    assert!(matches!(
        decode_dynamic_properties(&Tag::Int(0)),
        Err(DecodeError::NotCompound(_))
    ));
    let t = Tag::Compound(vec![("owner".to_string(), Tag::Int(0))]);
    assert_eq!(
        decode_dynamic_properties(&t),
        Err(DecodeError::NotCompound("owner".to_string()))
    );
    let t = Tag::Compound(vec![(
        "owner".to_string(),
        Tag::Compound(vec![("bad".to_string(), Tag::Long(1))]),
    )]);
    assert!(decode_dynamic_properties(&t).is_err());
}
