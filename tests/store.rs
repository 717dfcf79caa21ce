use bedrock_world::compression::{
    Codec, CodecRegistry, RawZlibCompressor, ZlibCompressor, RAW_ZLIB_CODEC_ID, ZLIB_CODEC_ID,
};
use bedrock_world::entity::Entity;
use bedrock_world::error::{DecodeError, WorldError};
use bedrock_world::keys::{entity_prefix, map_key, map_prefix, starts_with};
use bedrock_world::level::{split_level_header, write_level_header, LevelData};
use bedrock_world::map::WorldMap;
use bedrock_world::property::DynamicPropertyValue;
use bedrock_world::tag::Tag;
use bedrock_world::world::{select_prefixed, World};

fn block() -> Vec<u8> {
    let mut v = Vec::new();
    for i in 0..2000u32 {
        v.push((i % 7) as u8);
    }
    v
}

#[test]
fn zlib_round_trip_and_truncation() {
    let c = ZlibCompressor::new(10);
    let packed = c.encode(block());
    assert_ne!(packed, block());
    assert_eq!(c.decode(packed.clone()).ok().unwrap(), block());
    let cut = packed[..packed.len() - 3].to_vec();
    assert!(c.decode(cut).is_err());
}

#[test]
fn raw_deflate_round_trip_and_truncation() {
    let c = RawZlibCompressor::new(6);
    let packed = c.encode(block());
    assert_ne!(packed, block());
    assert_eq!(c.decode(packed.clone()).ok().unwrap(), block());
    let cut = packed[..packed.len() / 2].to_vec();
    let err = c.decode(cut).err().unwrap();
    assert!(!err.message.is_empty());
}

#[test]
fn zlib_rejects_bad_header() {
    let c = ZlibCompressor::new(1);
    assert!(c.decode(vec![0x00, 0x01, 0x02, 0x03]).is_err());
}

#[test]
fn registry_is_keyed_by_codec_id() {
    let r = CodecRegistry::bedrock(10);
    assert!(matches!(r.get(ZLIB_CODEC_ID), Some(Codec::Zlib(_))));
    assert!(matches!(r.get(RAW_ZLIB_CODEC_ID), Some(Codec::Raw(_))));
    assert!(r.get(0).is_none());
    assert!(r.get(3).is_none());
    for id in [2u8, 4u8] {
        let c = r.get(id).unwrap();
        let packed = c.encode(block());
        let cut = packed[..packed.len() - 4].to_vec();
        assert!(c.decode(cut).is_err());
        assert_eq!(c.decode(packed).ok().unwrap(), block());
    }
}

#[test]
fn level_header_round_trip() {
    let payload = vec![10u8, 0, 0, 1, 2, 3, 4, 5, 0];
    let bytes = write_level_header(10, &payload).unwrap();
    assert_eq!(&bytes[..4], &[10, 0, 0, 0]);
    assert_eq!(&bytes[4..8], &[9, 0, 0, 0]);
    let (v, p) = split_level_header(&bytes).unwrap();
    assert_eq!(v, 10);
    assert_eq!(p, payload);
}

#[test]
fn level_header_negative_version() {
    let bytes = write_level_header(-2, &[]).unwrap();
    assert_eq!(bytes, vec![0xfe, 0xff, 0xff, 0xff, 0, 0, 0, 0]);
    assert_eq!(split_level_header(&bytes).unwrap(), (-2, vec![]));
}

#[test]
fn level_header_length_field_is_trusted_on_read() {
    let bytes = vec![1u8, 0, 0, 0, 99, 0, 0, 0, 7, 8];
    assert_eq!(split_level_header(&bytes).unwrap(), (1, vec![7, 8]));
}

#[test]
fn short_level_header_is_an_error() {
    assert_eq!(split_level_header(&[1, 2, 3]), Err(DecodeError::Truncated));
}

#[test]
fn level_data_reads_level_name() {
    let t = Tag::Compound(vec![
        ("Other".to_string(), Tag::Int(1)),
        ("LevelName".to_string(), Tag::String("My World".to_string())),
    ]);
    let d = LevelData::from_nbt(9, t).unwrap();
    assert_eq!(d.format_version, 9);
    assert_eq!(d.get_data().level_name, "My World");
    assert_eq!(d.nbt.len(), 2);
    let missing = Tag::Compound(vec![("Other".to_string(), Tag::Int(1))]);
    assert_eq!(
        LevelData::from_nbt(9, missing).err(),
        Some(DecodeError::MissingField("LevelName".to_string()))
    );
}

#[test]
fn failed_open_leaves_store_closed() {
    let mut w = World::new("/nonexistent/world".to_string());
    w.record_open(false);
    assert_eq!(w.get_dynamic_properties(None).err(), Some(WorldError::DBClosed));
    assert_eq!(w.close(), Err(WorldError::DBClosed));
}

#[test]
fn open_then_close_is_idempotent() {
    let mut w = World::new("root".to_string());
    assert_eq!(w.db_path(), "root/db");
    assert_eq!(w.level_dat_path(), "root/level.dat");
    assert_eq!(w.get_path(), "root");
    w.record_open(true);
    assert!(w.get_db().is_ok());
    assert_eq!(w.close(), Ok(()));
    assert_eq!(w.close(), Ok(()));
    assert_eq!(w.get_db(), Err(WorldError::DBClosed));
    w.record_open(true);
    assert_eq!(w.get_db(), Err(WorldError::DBClosed));
}

#[test]
fn absent_fixed_record_names_its_key() {
    let mut w = World::new("root".to_string());
    w.record_open(true);
    assert_eq!(
        w.get_dynamic_properties(None).err(),
        Some(WorldError::DBValueNotFound(b"DynamicProperties".to_vec()))
    );
    assert_eq!(
        w.get_local_player(None).err(),
        Some(WorldError::DBValueNotFound(b"~local_player".to_vec()))
    );
}

#[test]
fn scan_selects_entities_and_maps_by_prefix() {
    let mut w = World::new("root".to_string());
    w.record_open(true);
    let mut m = WorldMap::new();
    m.map_id = 7;
    let scan = vec![
        (b"actorprefix\x01".to_vec(), vec![1u8]),
        (b"actorprefix\x02".to_vec(), vec![2u8]),
        (b"map_7".to_vec(), vec![3u8]),
    ];
    let actors = select_prefixed(&scan, &entity_prefix());
    assert_eq!(actors.len(), 2);
    assert_eq!(actors[0].0, b"actorprefix\x01".to_vec());
    assert_eq!(actors[1].0, b"actorprefix\x02".to_vec());
    let maps = select_prefixed(&scan, &map_prefix());
    assert_eq!(maps.len(), 1);
    assert_eq!(maps[0].0, map_key(7));

    let records: Vec<(Vec<u8>, Tag)> = actors
        .into_iter()
        .map(|(k, v)| (k, Tag::Compound(vec![("Tag".to_string(), Tag::Byte(v[0]))])))
        .collect();
    let entities = w.get_entities(records).unwrap();
    assert_eq!(entities.len(), 2);
    assert_eq!(entities[0].get_db_key(), b"actorprefix\x01");
    assert_eq!(entities[1].get_db_key(), b"actorprefix\x02");
    assert!(matches!(entities[1].nbt[0].1, Tag::Byte(2)));

    let tiles = w.get_all_maps(&vec![m.to_nbt()]).unwrap();
    assert_eq!(tiles.len(), 1);
    assert_eq!(tiles[0].map_id, 7);
}

#[test]
fn one_bad_record_fails_enumeration() {
    let mut w = World::new("root".to_string());
    w.record_open(true);
    let records = vec![
        (b"actorprefix\x01".to_vec(), Tag::Compound(vec![])),
        (b"actorprefix\x02".to_vec(), Tag::Int(3)),
    ];
    assert!(matches!(
        w.get_entities(records),
        Err(WorldError::NBTDeserializeError(DecodeError::NotCompound(_)))
    ));
    let maps = vec![WorldMap::new().to_nbt(), Tag::Compound(vec![])];
    assert!(matches!(
        w.get_all_maps(&maps),
        Err(WorldError::NBTDeserializeError(DecodeError::MissingField(_)))
    ));
}

#[test]
fn puts_resolve_keys_and_need_an_open_store() {
    let mut w = World::new("root".to_string());
    let mut m = WorldMap::new();
    m.map_id = 12;
    assert_eq!(w.put_map(&m).err(), Some(WorldError::DBClosed));
    w.record_open(true);
    let (k, t) = w.put_map(&m).ok().unwrap();
    assert_eq!(k, b"map_12".to_vec());
    assert_eq!(WorldMap::from_nbt(&t).unwrap(), m);
    let e = Entity::new(b"actorprefix\x09".to_vec(), vec![("a".to_string(), Tag::Int(1))]);
    let (k, t) = w.put_entity(e).ok().unwrap();
    assert_eq!(k, b"actorprefix\x09".to_vec());
    assert!(matches!(t, Tag::Compound(ref c) if c.len() == 1));
    let (k, _) = w.put_dynamic_properties(&vec![]).ok().unwrap();
    assert_eq!(k, b"DynamicProperties".to_vec());
}

#[test]
fn local_player_must_be_a_compound() {
    let mut w = World::new("root".to_string());
    w.record_open(true);
    let p = w.get_local_player(Some(Tag::Compound(vec![]))).unwrap();
    assert_eq!(p.get_db_key(), b"~local_player");
    assert!(matches!(
        w.get_local_player(Some(Tag::Int(1))),
        Err(WorldError::NBTDeserializeError(DecodeError::NotCompound(_)))
    ));
}

#[test]
fn entity_dynamic_properties_set_and_get() {
    let mut e = Entity::new(b"actorprefix\x01".to_vec(), vec![("x".to_string(), Tag::Int(1))]);
    assert_eq!(e.get_dynamic_properties(), Ok(None));
    let table = vec![(
        "owner".to_string(),
        vec![("v".to_string(), DynamicPropertyValue::Double(7))],
    )];
    e.set_dynamic_properties(table.clone());
    assert_eq!(e.get_dynamic_properties(), Ok(Some(table.clone())));
    assert_eq!(e.nbt.len(), 2);
    e.set_dynamic_properties(vec![]);
    assert_eq!(e.nbt.len(), 2);
    assert_eq!(e.get_dynamic_properties(), Ok(Some(vec![])));
    e.nbt[1].1 = Tag::Int(0);
    assert!(e.get_dynamic_properties().is_err());
}

#[test]
fn prefix_test_on_keys() {
    assert!(starts_with(b"map_7", b"map_"));
    assert!(!starts_with(b"map", b"map_"));
    assert!(starts_with(b"abc", b""));
}
