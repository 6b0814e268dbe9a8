use conveyor_line_engine::mapping::{
    filtered_pre_map_to_map, find_visual_data, map_deserialized_dump, text_and_color_from_deser,
    type_key_of, GameDataDump, LoadDiagnostic, LoadFailure,
};
use conveyor_line_engine::module_loading::{
    flatten_deserialized_dump, get_in_file, ByteStreamDeserialData, DataCategory, Deserialization,
    DeserializationDump, GroundDeserialData, ItemDeserialData, ModuleDeserialization, PreMapDump,
    PreMapIdentifier, ThingDeserialData, TileDeserialData, UnmappedData, VisibleThingDeserialData,
    VisualDeserData, Weight,
};
use conveyor_line_engine::registry::{world_gen_entries, TypeRecord};
use conveyor_line_engine::resolve::filter_pre_map_dump;

fn weight(w: f64) -> Weight {
    Weight { bits: w.to_bits() }
}

fn empty_declaration() -> ModuleDeserialization {
    ModuleDeserialization {
        source: None,
        priority: None,
        tile: None,
        ground: None,
        item: None,
        visible_thing: None,
        thing: None,
        byte_stream: None,
        visual_data: None,
    }
}

fn visual(name: &str, left: &str, right: &str) -> VisualDeserData {
    VisualDeserData {
        name: Some(name.to_string()),
        character_left: Some(left.to_string()),
        character_right: Some(right.to_string()),
        text_color_left: Some((1, 2, 3)),
        text_color_right: None,
        back_color_left: Some((4, 5, 6)),
        back_color_right: None,
    }
}

fn tile(solid: Option<bool>, w: Option<f64>) -> TileDeserialData {
    TileDeserialData { solid, world_gen_weight: w.map(weight) }
}

fn tile_with_visual(name: &str, solid: Option<bool>, w: Option<f64>) -> (String, ModuleDeserialization) {
    let mut d = empty_declaration();
    d.tile = Some(tile(solid, w));
    d.visual_data = Some(visual(name, "#", "%"));
    (name.to_string(), d)
}

fn build(dump: &DeserializationDump) -> (GameDataDump, Vec<LoadDiagnostic>) {
    let mut pre_map_dump: PreMapDump = Vec::new();
    map_deserialized_dump(&mut pre_map_dump, dump)
}

fn tile_named<'a>(registry: &'a GameDataDump, name: &str) -> &'a conveyor_line_engine::tile::TileType {
    let id = registry.get_id_by_name(DataCategory::Tile, name).unwrap();
    match registry.get_by_id(DataCategory::Tile, id) {
        Some(TypeRecord::Tile(t)) => t,
        _ => panic!("no tile under the id of {}", name),
    }
}

#[test]
fn flattening_emits_one_entry_per_payload_in_slot_order() {
    let mut d = empty_declaration();
    d.priority = Some(7);
    d.tile = Some(tile(None, None));
    d.item = Some(ItemDeserialData {});
    d.visual_data = Some(visual("Rock", "r", "k"));
    let dump: DeserializationDump = vec![("core".to_string(), vec![("rock".to_string(), d)])];
    let mut entries: PreMapDump = Vec::new();
    flatten_deserialized_dump(&mut entries, &dump);
    assert_eq!(entries.len(), 3);
    let kinds: Vec<DataCategory> = entries.iter().map(|e| e.identifier.data_type).collect();
    assert_eq!(kinds, vec![DataCategory::Tile, DataCategory::Item, DataCategory::VisualData]);
    for e in &entries {
        assert_eq!(e.identifier.source, "core");
        assert_eq!(e.identifier.name, "rock");
        assert_eq!(e.identifier.priority, 7);
        assert_eq!(e.identifier.data_type, e.data.data_type());
    }
}

#[test]
fn flattening_defaults_priority_to_zero_and_honours_explicit_source() {
    let mut d = empty_declaration();
    d.source = Some("elsewhere".to_string());
    d.ground = Some(GroundDeserialData { solid: None, world_gen_weight: None });
    let dump: DeserializationDump = vec![("core".to_string(), vec![("mud".to_string(), d)])];
    let mut entries: PreMapDump = Vec::new();
    flatten_deserialized_dump(&mut entries, &dump);
    assert_eq!(entries.len(), 1);
    assert_eq!(entries[0].identifier.source, "elsewhere");
    assert_eq!(entries[0].identifier.priority, 0);
    assert_eq!(entries[0].identifier.data_type, DataCategory::Ground);
}

#[test]
fn declaration_with_all_seven_payloads_yields_seven_entries() {
    let mut d = empty_declaration();
    d.tile = Some(tile(None, None));
    d.ground = Some(GroundDeserialData { solid: None, world_gen_weight: None });
    d.item = Some(ItemDeserialData {});
    d.visible_thing = Some(VisibleThingDeserialData { type_identifier: None, bytes: None });
    d.thing = Some(ThingDeserialData { type_identifier: None, bytes: None });
    d.byte_stream = Some(ByteStreamDeserialData { type_identifier: None, bytes: None });
    d.visual_data = Some(visual("All", "a", "l"));
    let slots = get_in_file(&d);
    assert!(slots.iter().all(|s| s.is_some()));
    let kinds: Vec<DataCategory> = slots.iter().map(|s| s.unwrap().data_type()).collect();
    assert_eq!(
        kinds,
        vec![
            DataCategory::Tile,
            DataCategory::Ground,
            DataCategory::Item,
            DataCategory::VisibleThing,
            DataCategory::Thing,
            DataCategory::ByteStream,
            DataCategory::VisualData
        ]
    );
    let empty = empty_declaration();
    assert!(get_in_file(&empty).iter().all(|s| s.is_none()));
}

#[test]
fn category_names_are_the_declared_ones() {
    assert_eq!(DataCategory::Tile.name(), "tile");
    assert_eq!(DataCategory::Ground.name(), "ground");
    assert_eq!(DataCategory::Item.name(), "item");
    assert_eq!(DataCategory::VisibleThing.name(), "vis_thing");
    assert_eq!(DataCategory::Thing.name(), "thing");
    assert_eq!(DataCategory::ByteStream.name(), "byte_stream");
    assert_eq!(DataCategory::VisualData.name(), "vis_data");
}

#[test]
fn resolution_leaves_unique_identities() {
    let a = tile(Some(true), None);
    let b = tile(Some(false), None);
    let c = tile(None, None);
    let mut entries: PreMapDump = vec![
        UnmappedData::new("core".to_string(), 0, "stone".to_string(), Deserialization::Tile(&a)),
        UnmappedData::new("core".to_string(), 3, "stone".to_string(), Deserialization::Tile(&b)),
        UnmappedData::new("core".to_string(), 1, "stone".to_string(), Deserialization::Tile(&c)),
        UnmappedData::new("core".to_string(), 0, "sand".to_string(), Deserialization::Tile(&a)),
        UnmappedData::new("mod".to_string(), 0, "stone".to_string(), Deserialization::Tile(&a)),
    ];
    filter_pre_map_dump(&mut entries);
    assert_eq!(entries.len(), 3);
    for i in 0..entries.len() {
        for j in 0..entries.len() {
            if i != j {
                assert!(!entries[i].identifier.is_same_identity(&entries[j].identifier));
            }
        }
    }
    assert_eq!(entries[0].identifier.name, "stone");
    assert_eq!(entries[0].identifier.source, "core");
    assert_eq!(entries[0].identifier.priority, 3);
    assert_eq!(entries[1].identifier.name, "sand");
    assert_eq!(entries[2].identifier.source, "mod");
}

#[test]
fn resolution_breaks_ties_by_last_declared() {
    let first = tile(Some(true), None);
    let second = tile(Some(false), None);
    let mut entries: PreMapDump = vec![
        UnmappedData::new("core".to_string(), 2, "stone".to_string(), Deserialization::Tile(&first)),
        UnmappedData::new("core".to_string(), 2, "stone".to_string(), Deserialization::Tile(&second)),
    ];
    filter_pre_map_dump(&mut entries);
    assert_eq!(entries.len(), 1);
    match entries[0].data {
        Deserialization::Tile(t) => assert_eq!(t.solid, Some(false)),
        _ => panic!("the payload changed its category"),
    }
}

#[test]
fn resolution_keeps_same_name_in_different_categories() {
    let t = tile(None, None);
    let v = visual("Stone", "s", "t");
    let mut entries: PreMapDump = vec![
        UnmappedData::new("core".to_string(), 0, "stone".to_string(), Deserialization::Tile(&t)),
        UnmappedData::new("core".to_string(), 0, "stone".to_string(), Deserialization::VisualData(&v)),
    ];
    filter_pre_map_dump(&mut entries);
    assert_eq!(entries.len(), 2);
}

#[test]
fn resolving_twice_changes_nothing() {
    let a = tile(Some(true), None);
    let b = tile(Some(false), None);
    let mut entries: PreMapDump = vec![
        UnmappedData::new("core".to_string(), 0, "stone".to_string(), Deserialization::Tile(&a)),
        UnmappedData::new("core".to_string(), 3, "stone".to_string(), Deserialization::Tile(&b)),
        UnmappedData::new("core".to_string(), 0, "sand".to_string(), Deserialization::Tile(&a)),
    ];
    filter_pre_map_dump(&mut entries);
    let once: Vec<(String, u8)> =
        entries.iter().map(|e| (e.identifier.name.clone(), e.identifier.priority)).collect();
    filter_pre_map_dump(&mut entries);
    let twice: Vec<(String, u8)> =
        entries.iter().map(|e| (e.identifier.name.clone(), e.identifier.priority)).collect();
    assert_eq!(once, twice);
    assert_eq!(once, vec![("stone".to_string(), 3), ("sand".to_string(), 0)]);
}

#[test]
fn priority_precedence_replaces_whole_payload() {
    let (name, low) = tile_with_visual("stone", Some(true), Some(0.4));
    let mut high = empty_declaration();
    high.source = Some("core".to_string());
    high.priority = Some(5);
    high.tile = Some(tile(Some(false), None));
    let dump: DeserializationDump = vec![
        ("core".to_string(), vec![(name, low)]),
        ("override_pack".to_string(), vec![("stone".to_string(), high)]),
    ];
    let (registry, diagnostics) = build(&dump);
    assert!(diagnostics.is_empty());
    assert_eq!(registry.game_data.tile_types.len(), 1);
    let stone = tile_named(&registry, "core:stone");
    assert!(!stone.solid);
    assert_eq!(stone.world_gen_weight, Weight { bits: 0 });
    assert_eq!(f64::from_bits(stone.world_gen_weight.bits), 0.0);
}

#[test]
fn visual_join_ignores_priority_tier() {
    let (name, low) = tile_with_visual("stone", Some(true), Some(0.4));
    let mut high = empty_declaration();
    high.source = Some("core".to_string());
    high.priority = Some(5);
    high.tile = Some(tile(Some(false), None));
    let dump: DeserializationDump = vec![
        ("core".to_string(), vec![(name, low)]),
        ("override_pack".to_string(), vec![("stone".to_string(), high)]),
    ];
    let (registry, _) = build(&dump);
    let stone = tile_named(&registry, "core:stone");
    assert_eq!(stone.name, "stone");
    assert_eq!(stone.text_display.character_left, Some('#'));
    assert_eq!(stone.text_display.character_right, Some('%'));
    assert_eq!(stone.color_display.text_color_left, Some((1, 2, 3)));
    assert_eq!(stone.color_display.back_color_left, Some((4, 5, 6)));
    assert_eq!(stone.color_display.text_color_right, None);
    assert_eq!(stone.color_display.back_color_right, None);
}

#[test]
fn entry_without_visual_is_absent_and_reported() {
    let mut lava = empty_declaration();
    lava.tile = Some(tile(None, Some(0.5)));
    let dump: DeserializationDump = vec![(
        "core".to_string(),
        vec![("lava".to_string(), lava), tile_with_visual("stone", None, None)],
    )];
    let (registry, diagnostics) = build(&dump);
    assert_eq!(registry.get_id_by_name(DataCategory::Tile, "core:lava"), None);
    assert_eq!(registry.game_data.tile_types.len(), 1);
    assert_eq!(registry.identifiers.tile_types.len(), 1);
    assert_eq!(registry.get_id_by_name(DataCategory::Tile, "core:stone"), Some(0));
    assert_eq!(tile_named(&registry, "core:stone").identifier, 0);
    assert_eq!(diagnostics.len(), 1);
    assert_eq!(diagnostics[0].failure, LoadFailure::MissingVisualData);
    assert_eq!(diagnostics[0].identifier.name, "lava");
    assert_eq!(diagnostics[0].identifier.source, "core");
    assert_eq!(diagnostics[0].identifier.data_type, DataCategory::Tile);
}

#[test]
fn visual_of_another_source_does_not_count() {
    let mut lava = empty_declaration();
    lava.tile = Some(tile(None, None));
    let mut lava_visual = empty_declaration();
    lava_visual.visual_data = Some(visual("Lava", "l", "v"));
    let dump: DeserializationDump = vec![
        ("core".to_string(), vec![("lava".to_string(), lava)]),
        ("other".to_string(), vec![("lava".to_string(), lava_visual)]),
    ];
    let (registry, diagnostics) = build(&dump);
    assert!(registry.game_data.tile_types.is_empty());
    assert_eq!(diagnostics.len(), 1);
    assert_eq!(diagnostics[0].failure, LoadFailure::MissingVisualData);
}

#[test]
fn defaults_are_solid_and_weight_zero() {
    let dump: DeserializationDump =
        vec![("core".to_string(), vec![tile_with_visual("stone", None, None)])];
    let (registry, _) = build(&dump);
    let stone = tile_named(&registry, "core:stone");
    assert!(stone.solid);
    assert_eq!(stone.world_gen_weight.bits, 0);
    assert!(!stone.world_gen_weight.is_positive());
}

#[test]
fn unset_characters_default_to_space_and_unset_colors_stay_unset() {
    let bare = VisualDeserData {
        name: None,
        character_left: None,
        character_right: Some(String::new()),
        text_color_left: None,
        text_color_right: None,
        back_color_left: None,
        back_color_right: Some((9, 8, 7)),
    };
    let (text, color, name) = text_and_color_from_deser(&bare);
    assert_eq!(text.character_left, Some(' '));
    assert_eq!(text.character_right, Some(' '));
    assert_eq!(color.text_color_left, None);
    assert_eq!(color.text_color_right, None);
    assert_eq!(color.back_color_left, None);
    assert_eq!(color.back_color_right, Some((9, 8, 7)));
    assert_eq!(name, "");
}

#[test]
fn first_character_of_a_longer_string_is_shown() {
    let v = visual("Wall", "\u{2588}x", "yz");
    let (text, _, name) = text_and_color_from_deser(&v);
    assert_eq!(text.character_left, Some('\u{2588}'));
    assert_eq!(text.character_right, Some('y'));
    assert_eq!(name, "Wall");
}

#[test]
fn find_visual_data_matches_source_and_name() {
    let v1 = visual("One", "1", "1");
    let v2 = visual("Two", "2", "2");
    let t = tile(None, None);
    let entries: PreMapDump = vec![
        UnmappedData::new("core".to_string(), 0, "a".to_string(), Deserialization::VisualData(&v1)),
        UnmappedData::new("core".to_string(), 0, "b".to_string(), Deserialization::VisualData(&v2)),
        UnmappedData::new("core".to_string(), 0, "b".to_string(), Deserialization::Tile(&t)),
    ];
    let wanted = PreMapIdentifier {
        source: "core".to_string(),
        priority: 9,
        data_type: DataCategory::Tile,
        name: "b".to_string(),
    };
    assert_eq!(find_visual_data(&entries, &wanted).unwrap().name, Some("Two".to_string()));
    let missing = PreMapIdentifier {
        source: "mod".to_string(),
        priority: 0,
        data_type: DataCategory::Tile,
        name: "b".to_string(),
    };
    assert!(find_visual_data(&entries, &missing).is_none());
}

#[test]
fn type_key_joins_source_and_name_with_a_colon() {
    let id = PreMapIdentifier {
        source: "conveyor_line_core".to_string(),
        priority: 0,
        data_type: DataCategory::Tile,
        name: "air".to_string(),
    };
    assert_eq!(type_key_of(&id), "conveyor_line_core:air");
}

#[test]
fn ids_are_dense_from_zero_in_visiting_order() {
    let dump: DeserializationDump = vec![(
        "core".to_string(),
        vec![
            tile_with_visual("a", None, None),
            tile_with_visual("b", None, None),
            tile_with_visual("c", None, None),
        ],
    )];
    let (registry, _) = build(&dump);
    assert_eq!(registry.ids_of(DataCategory::Tile), vec![0, 1, 2]);
    assert_eq!(registry.get_id_by_name(DataCategory::Tile, "core:c"), Some(0));
    assert_eq!(registry.get_id_by_name(DataCategory::Tile, "core:b"), Some(1));
    assert_eq!(registry.get_id_by_name(DataCategory::Tile, "core:a"), Some(2));
    for id in 0..3u16 {
        match registry.get_by_id(DataCategory::Tile, id) {
            Some(record) => assert_eq!(record.identifier(), id),
            None => panic!("id {} has no type", id),
        }
    }
    assert!(registry.get_by_id(DataCategory::Tile, 3).is_none());
    assert!(registry.get_by_id(DataCategory::VisualData, 0).is_none());
}

#[test]
fn names_and_ids_round_trip() {
    let mut sword = empty_declaration();
    sword.item = Some(ItemDeserialData {});
    sword.visual_data = Some(visual("Sword", "/", " "));
    let dump: DeserializationDump = vec![(
        "core".to_string(),
        vec![
            tile_with_visual("a", None, None),
            tile_with_visual("b", None, None),
            ("sword".to_string(), sword),
        ],
    )];
    let (registry, _) = build(&dump);
    for category in [DataCategory::Tile, DataCategory::Item] {
        let ids = registry.ids_of(category);
        assert!(!ids.is_empty());
        for id in ids {
            let name = registry.get_name(category, id).unwrap().clone();
            assert_eq!(registry.get_id_by_name(category, &name), Some(id));
        }
    }
    for name in ["core:a", "core:b"] {
        let id = registry.get_id_by_name(DataCategory::Tile, name).unwrap();
        assert_eq!(registry.get_name(DataCategory::Tile, id).unwrap(), name);
    }
    assert_eq!(registry.get_id_by_name(DataCategory::Item, "core:sword"), Some(0));
    assert_eq!(registry.get_id_by_name(DataCategory::Tile, "core:sword"), None);
    assert_eq!(registry.get_name(DataCategory::Tile, 7), None);
    assert_eq!(registry.get_id_by_name(DataCategory::VisualData, "core:a"), None);
    assert_eq!(registry.get_name(DataCategory::VisualData, 0), None);
}

#[test]
fn colliding_keys_leave_one_name_for_the_later_id() {
    let dump: DeserializationDump = vec![
        ("a:b".to_string(), vec![tile_with_visual("c", None, None)]),
        ("a".to_string(), vec![tile_with_visual("b:c", None, None)]),
    ];
    let (registry, _) = build(&dump);
    assert_eq!(registry.game_data.tile_types.len(), 2);
    assert_eq!(registry.identifiers.tile_types.len(), 1);
    assert_eq!(registry.get_id_by_name(DataCategory::Tile, "a:b:c"), Some(1));
    assert_eq!(registry.get_name(DataCategory::Tile, 0), None);
}

#[test]
fn weighted_enumeration_yields_exactly_the_positive_weights() {
    let dump: DeserializationDump = vec![(
        "core".to_string(),
        vec![
            tile_with_visual("air", None, Some(0.6)),
            tile_with_visual("wall", None, Some(0.0)),
            tile_with_visual("stone", None, Some(0.4)),
            tile_with_visual("void", None, None),
        ],
    )];
    let (registry, _) = build(&dump);
    let all = registry.enumerate(DataCategory::Tile);
    assert_eq!(all.len(), 4);
    let mut picked: Vec<(u16, f64)> = Vec::new();
    for (id, record) in &all {
        if let TypeRecord::Tile(t) = record {
            if f64::from_bits(t.world_gen_weight.bits) > 0.0 {
                picked.push((*id, f64::from_bits(t.world_gen_weight.bits)));
            }
        }
    }
    let air = registry.get_id_by_name(DataCategory::Tile, "core:air").unwrap();
    let stone = registry.get_id_by_name(DataCategory::Tile, "core:stone").unwrap();
    assert_eq!(picked, vec![(stone, 0.4), (air, 0.6)]);
    let entries = world_gen_entries(&registry.game_data.tile_types);
    assert_eq!(entries, vec![(stone, weight(0.4)), (air, weight(0.6))]);
    assert!(world_gen_entries(&registry.game_data.ground_types).is_empty());
}

#[test]
fn weight_sign_and_nan_are_not_positive() {
    assert!(weight(0.4).is_positive());
    assert!(weight(f64::MIN_POSITIVE).is_positive());
    assert!(weight(5e-324).is_positive());
    assert!(weight(f64::INFINITY).is_positive());
    assert!(!weight(0.0).is_positive());
    assert!(!weight(-0.0).is_positive());
    assert!(!weight(-1.5).is_positive());
    assert!(!weight(f64::NAN).is_positive());
    assert!(!weight(f64::NEG_INFINITY).is_positive());
    assert!(!Weight::zero().is_positive());
    assert_eq!(Weight::zero().bits, 0.0f64.to_bits());
}

#[test]
fn rebuilding_from_unchanged_declarations_gives_the_same_names() {
    let mut crate_thing = empty_declaration();
    crate_thing.thing =
        Some(ThingDeserialData { type_identifier: Some("container".to_string()), bytes: None });
    let dump: DeserializationDump = vec![
        (
            "core".to_string(),
            vec![tile_with_visual("a", None, None), tile_with_visual("b", None, Some(1.0))],
        ),
        ("extra".to_string(), vec![("crate".to_string(), crate_thing)]),
    ];
    let (first, _) = build(&dump);
    let (second, _) = build(&dump);
    for category in [
        DataCategory::Tile,
        DataCategory::Ground,
        DataCategory::Item,
        DataCategory::VisibleThing,
        DataCategory::Thing,
        DataCategory::ByteStream,
    ] {
        let ids = first.ids_of(category);
        assert_eq!(ids, second.ids_of(category));
        for id in ids {
            assert_eq!(first.get_name(category, id), second.get_name(category, id));
        }
    }
    assert_eq!(first.identifiers.tile_types, second.identifiers.tile_types);
    assert_eq!(first.identifiers.thing_types, second.identifiers.thing_types);
    assert_eq!(first.get_id_by_name(DataCategory::Thing, "extra:crate"), Some(0));
}

#[test]
fn things_and_byte_streams_need_their_fields_but_no_visual() {
    let mut good_thing = empty_declaration();
    good_thing.thing =
        Some(ThingDeserialData { type_identifier: Some("timer".to_string()), bytes: None });
    let mut bad_thing = empty_declaration();
    bad_thing.thing = Some(ThingDeserialData { type_identifier: None, bytes: Some(vec![1]) });
    let mut good_stream = empty_declaration();
    good_stream.byte_stream =
        Some(ByteStreamDeserialData { type_identifier: None, bytes: Some(vec![1, 2, 3]) });
    let mut bad_stream = empty_declaration();
    bad_stream.byte_stream =
        Some(ByteStreamDeserialData { type_identifier: Some("x".to_string()), bytes: None });
    let dump: DeserializationDump = vec![(
        "core".to_string(),
        vec![
            ("timer".to_string(), good_thing),
            ("broken".to_string(), bad_thing),
            ("blob".to_string(), good_stream),
            ("hole".to_string(), bad_stream),
        ],
    )];
    let (registry, diagnostics) = build(&dump);
    assert_eq!(registry.game_data.thing_types.len(), 1);
    assert_eq!(registry.game_data.byte_streams.len(), 1);
    match registry.get_by_id(DataCategory::Thing, 0) {
        Some(TypeRecord::Thing(t)) => {
            assert_eq!(t.type_identifier, "timer");
            assert_eq!(t.identifier, 0);
        }
        _ => panic!("the thing is missing"),
    }
    match registry.get_by_id(DataCategory::ByteStream, 0) {
        Some(TypeRecord::ByteStream(b)) => {
            assert_eq!(b.bytes, vec![1, 2, 3]);
            assert_eq!(b.identifier, 0);
        }
        _ => panic!("the byte stream is missing"),
    }
    assert_eq!(registry.get_id_by_name(DataCategory::Thing, "core:timer"), Some(0));
    assert_eq!(registry.get_id_by_name(DataCategory::ByteStream, "core:blob"), Some(0));
    assert_eq!(diagnostics.len(), 2);
    assert_eq!(diagnostics[0].failure, LoadFailure::MissingRequiredField);
    assert_eq!(diagnostics[0].identifier.name, "hole");
    assert_eq!(diagnostics[1].failure, LoadFailure::MissingRequiredField);
    assert_eq!(diagnostics[1].identifier.name, "broken");
}

#[test]
fn visible_thing_needs_visual_first_and_then_its_type_identifier() {
    let mut unseen = empty_declaration();
    unseen.visible_thing = Some(VisibleThingDeserialData { type_identifier: None, bytes: None });
    let mut untyped = empty_declaration();
    untyped.visible_thing = Some(VisibleThingDeserialData { type_identifier: None, bytes: None });
    untyped.visual_data = Some(visual("Untyped", "u", "t"));
    let mut chest = empty_declaration();
    chest.visible_thing =
        Some(VisibleThingDeserialData { type_identifier: Some("chest".to_string()), bytes: None });
    chest.visual_data = Some(visual("Chest", "[", "]"));
    let dump: DeserializationDump = vec![(
        "core".to_string(),
        vec![
            ("unseen".to_string(), unseen),
            ("untyped".to_string(), untyped),
            ("chest".to_string(), chest),
        ],
    )];
    let (registry, diagnostics) = build(&dump);
    assert_eq!(registry.game_data.visible_thing_types.len(), 1);
    match registry.get_by_id(DataCategory::VisibleThing, 0) {
        Some(TypeRecord::VisibleThing(t)) => {
            assert_eq!(t.type_identifier, "chest");
            assert_eq!(t.identifier, 0);
            assert_eq!(t.text_display.character_left, Some('['));
        }
        _ => panic!("the chest is missing"),
    }
    assert_eq!(diagnostics.len(), 2);
    assert_eq!(diagnostics[0].failure, LoadFailure::MissingRequiredField);
    assert_eq!(diagnostics[0].identifier.name, "untyped");
    assert_eq!(diagnostics[1].failure, LoadFailure::MissingVisualData);
    assert_eq!(diagnostics[1].identifier.name, "unseen");
}

#[test]
fn item_and_ground_records_carry_their_own_ids() {
    let mut d = empty_declaration();
    d.ground = Some(GroundDeserialData { solid: Some(false), world_gen_weight: Some(weight(2.0)) });
    d.item = Some(ItemDeserialData {});
    d.tile = Some(tile(None, None));
    d.visual_data = Some(visual("Grass", "\"", "'"));
    let mut e = empty_declaration();
    e.item = Some(ItemDeserialData {});
    e.visual_data = Some(visual("Coin", "o", " "));
    let dump: DeserializationDump = vec![(
        "core".to_string(),
        vec![("grass".to_string(), d), ("coin".to_string(), e)],
    )];
    let (registry, diagnostics) = build(&dump);
    assert!(diagnostics.is_empty());
    assert_eq!(registry.game_data.item_types.len(), 2);
    for id in registry.ids_of(DataCategory::Item) {
        assert_eq!(registry.game_data.item_types[&id].identifier, id);
    }
    let ground = &registry.game_data.ground_types[&0];
    assert_eq!(ground.identifier, 0);
    assert!(!ground.solid);
    assert_eq!(f64::from_bits(ground.world_gen_weight.bits), 2.0);
    assert_eq!(world_gen_entries(&registry.game_data.ground_types), vec![(0, weight(2.0))]);
}

#[test]
fn ids_run_out_after_65536_types_of_one_category() {
    let v = visual("Filler", "f", "f");
    let t = tile(None, None);
    let mut entries: PreMapDump = Vec::new();
    for _ in 0..65537 {
        entries.push(UnmappedData::new(
            "core".to_string(),
            0,
            "shared".to_string(),
            Deserialization::Tile(&t),
        ));
    }
    entries.push(UnmappedData::new(
        "core".to_string(),
        0,
        "shared".to_string(),
        Deserialization::VisualData(&v),
    ));
    let (registry, diagnostics) = filtered_pre_map_to_map(&entries);
    assert_eq!(registry.game_data.tile_types.len(), 65536);
    assert_eq!(diagnostics.len(), 1);
    assert_eq!(diagnostics[0].failure, LoadFailure::OutOfIdentifiers);
    assert_eq!(registry.get_id_by_name(DataCategory::Tile, "core:shared"), Some(65535));
    assert!(registry.get_by_id(DataCategory::Tile, 65535).is_some());
}

#[test]
fn empty_dump_gives_an_empty_registry() {
    let dump: DeserializationDump = Vec::new();
    let (registry, diagnostics) = build(&dump);
    assert!(diagnostics.is_empty());
    for category in [
        DataCategory::Tile,
        DataCategory::Ground,
        DataCategory::Item,
        DataCategory::VisibleThing,
        DataCategory::Thing,
        DataCategory::ByteStream,
        DataCategory::VisualData,
    ] {
        assert!(registry.ids_of(category).is_empty());
        assert!(registry.enumerate(category).is_empty());
    }
}
