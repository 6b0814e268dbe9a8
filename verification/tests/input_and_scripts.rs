use conveyor_line_engine::input::{
    determine_real_state, do_key_event, real_state_from_case, KeyAction, KeyKind, KeyScan,
    CAPS_LOCK, CONTROL, SHIFT,
};
use conveyor_line_engine::mapping::map_deserialized_dump;
use conveyor_line_engine::module_loading::{
    declaration_name, merge_module_declarations, DataCategory, DeserializationDump,
    ModuleDeserialization, PreMapDump, TileDeserialData, Weight,
};
use conveyor_line_engine::script::{
    array_values, bytes_field, byte_field, color_field, declaration_from_script,
    declarations_from_script, flag_field, get_element, get_field, merge_script_game_data,
    table_field, text_field, u16_field, weight_field, ScriptNumber, ScriptTable, ScriptValue,
};
use conveyor_line_engine::ui_render::{
    block_from_script, border_bit, flags_from_script, lua_table_to_color,
    lua_table_to_text_modifier, lua_table_to_ui_element, lua_table_to_ui_style,
    str_to_ui_alignment, str_to_ui_border_type, str_to_widget_type, switch_flags,
    text_modifier_bit, FlagNames, UiAlignment, UiBorderType, UiError, WidgetType,
};

fn text(s: &str) -> ScriptValue {
    ScriptValue::Text(s.to_string())
}

fn whole(i: i64) -> ScriptValue {
    ScriptValue::Number(ScriptNumber { value: Weight { bits: (i as f64).to_bits() }, whole: Some(i) })
}

fn float(f: f64) -> ScriptValue {
    ScriptValue::Number(ScriptNumber { value: Weight { bits: f.to_bits() }, whole: None })
}

fn flag(b: bool) -> ScriptValue {
    ScriptValue::Boolean(b)
}

fn table(pairs: Vec<(ScriptValue, ScriptValue)>) -> ScriptValue {
    ScriptValue::Table(pairs)
}

fn list(values: Vec<ScriptValue>) -> ScriptValue {
    let mut pairs = Vec::new();
    for (i, v) in values.into_iter().enumerate() {
        pairs.push((whole(i as i64 + 1), v));
    }
    ScriptValue::Table(pairs)
}

fn empty_declaration() -> ModuleDeserialization {
    ModuleDeserialization {
        source: None,
        priority: None,
        tile: None,
        ground: None,
        item: None,
        visible_thing: None,
        thing: None,
        byte_stream: None,
        visual_data: None,
    }
}

#[test]
fn control_c_exits_in_either_mode() {
    assert_eq!(do_key_event(KeyKind::Char('c'), CONTROL, false), KeyAction::Exit);
    assert_eq!(do_key_event(KeyKind::Char('c'), CONTROL, true), KeyAction::Exit);
    assert_eq!(do_key_event(KeyKind::Char('c'), 0, false), KeyAction::Dispatch);
    assert_eq!(do_key_event(KeyKind::Char('c'), CONTROL | SHIFT, true), KeyAction::Ignore);
    assert_eq!(do_key_event(KeyKind::Char('x'), CONTROL, false), KeyAction::Dispatch);
}

#[test]
fn f1_and_tab_toggle_type_mode() {
    assert_eq!(do_key_event(KeyKind::Function(1), 0, false), KeyAction::SetTypeMode(true));
    assert_eq!(do_key_event(KeyKind::Function(1), 0, true), KeyAction::SetTypeMode(false));
    assert_eq!(do_key_event(KeyKind::Tab, SHIFT, false), KeyAction::SetTypeMode(true));
    assert_eq!(do_key_event(KeyKind::Tab, 0, true), KeyAction::SetTypeMode(false));
    assert_eq!(do_key_event(KeyKind::Function(2), 0, false), KeyAction::Dispatch);
    assert_eq!(do_key_event(KeyKind::Function(2), 0, true), KeyAction::Ignore);
    assert_eq!(do_key_event(KeyKind::Other, 0, true), KeyAction::Ignore);
    assert_eq!(do_key_event(KeyKind::Other, 0, false), KeyAction::Dispatch);
}

#[test]
fn swapped_case_gives_caps_lock_away() {
    assert_eq!(determine_real_state(KeyKind::Char('A'), 0, 0), CAPS_LOCK);
    assert_eq!(determine_real_state(KeyKind::Char('a'), SHIFT, 0), CAPS_LOCK);
    assert_eq!(determine_real_state(KeyKind::Char('a'), 0, 0), 0);
    assert_eq!(determine_real_state(KeyKind::Char('A'), SHIFT, 0), 0);
    assert_eq!(determine_real_state(KeyKind::Char('1'), SHIFT, 0), 0);
    assert_eq!(determine_real_state(KeyKind::Char('A'), SHIFT | CONTROL, 0), 0);
    assert_eq!(determine_real_state(KeyKind::Char('A'), 0, 1), 1);
    assert_eq!(determine_real_state(KeyKind::Tab, 0, 0), 0);
    assert_eq!(determine_real_state(KeyKind::Char('\u{C4}'), 0, 0), CAPS_LOCK);
    assert_eq!(real_state_from_case(Some((true, false)), 0, 0), CAPS_LOCK);
    assert_eq!(real_state_from_case(Some((false, true)), SHIFT, 0), CAPS_LOCK);
    assert_eq!(real_state_from_case(Some((false, false)), SHIFT, 0), 0);
    assert_eq!(real_state_from_case(Some((true, false)), 0, 9), 9);
    assert_eq!(real_state_from_case(None, 0, 0), 0);
}

#[test]
fn key_scan_lets_events_through_by_their_predecessor() {
    let mut scan = KeyScan::new();
    assert_eq!(scan.last_modifiers, 0);
    assert_eq!(scan.last_state, 0);
    let v = scan.scan_key_event(SHIFT, 0, false);
    assert!(v.go_through);
    assert!(!v.queue_removal);
    assert_eq!(scan.last_modifiers, SHIFT);
    let v = scan.scan_key_event(SHIFT, 0, false);
    assert!(v.go_through);
    let v = scan.scan_key_event(SHIFT | CONTROL, 0, false);
    assert!(v.go_through);
    let v = scan.scan_key_event(SHIFT, 0, false);
    assert!(!v.go_through);
    assert!(v.queue_removal);
    assert_eq!(scan.last_modifiers, SHIFT);
    let v = scan.scan_key_event(0, 0, false);
    assert!(!v.go_through);
    assert!(v.queue_removal);
    let v = scan.scan_key_event(CONTROL, CAPS_LOCK, false);
    assert!(v.go_through);
    assert!(v.queue_removal);
    assert_eq!(scan.last_state, CAPS_LOCK);
    let v = scan.scan_key_event(CONTROL, 0, false);
    assert!(!v.go_through);
    let v = scan.scan_key_event(0, 0, true);
    assert!(!v.go_through);
    assert!(v.queue_removal);
}

#[test]
fn declaration_files_end_in_toml() {
    assert_eq!(declaration_name("stone.toml"), Some("stone".to_string()));
    assert_eq!(declaration_name("a.b.toml"), Some("a.b".to_string()));
    assert_eq!(declaration_name("stone.toml.toml"), Some("stone".to_string()));
    assert_eq!(declaration_name(".toml.toml"), Some(String::new()));
    assert_eq!(declaration_name("\u{263A}.toml"), Some("\u{263A}".to_string()));
    assert_eq!(declaration_name(".toml"), None);
    assert_eq!(declaration_name("toml"), None);
    assert_eq!(declaration_name("stone.lua"), None);
    assert_eq!(declaration_name("stone.toml.bak"), None);
    assert_eq!(declaration_name("stone.TOML"), None);
    assert_eq!(declaration_name("stonetoml"), None);
    assert_eq!(declaration_name(""), None);
    for name in ["stone.toml", "a.b.toml", "x.toml.toml", "notes.txt", ".toml", "q.toml.bak"] {
        let by_path = std::path::Path::new(name).extension().map(|e| e == "toml").unwrap_or(false);
        let expected = if by_path { Some(name.trim_end_matches(".toml").to_string()) } else { None };
        assert_eq!(declaration_name(name), expected);
    }
}

#[test]
fn merging_appends_to_a_known_module_and_adds_an_unknown_one() {
    let mut dump: DeserializationDump = vec![
        ("core".to_string(), vec![("a".to_string(), empty_declaration())]),
        ("extra".to_string(), vec![]),
    ];
    merge_module_declarations(
        &mut dump,
        "core".to_string(),
        vec![("b".to_string(), empty_declaration()), ("c".to_string(), empty_declaration())],
    );
    assert_eq!(dump.len(), 2);
    let names: Vec<&str> = dump[0].1.iter().map(|d| d.0.as_str()).collect();
    assert_eq!(names, vec!["a", "b", "c"]);
    assert!(dump[1].1.is_empty());
    merge_module_declarations(&mut dump, "new".to_string(), vec![("d".to_string(), empty_declaration())]);
    assert_eq!(dump.len(), 3);
    assert_eq!(dump[2].0, "new");
    assert_eq!(dump[2].1.len(), 1);
    assert_eq!(dump[2].1[0].0, "d");
    merge_module_declarations(&mut dump, "extra".to_string(), vec![]);
    assert_eq!(dump.len(), 3);
}

#[test]
fn fields_are_found_by_name_and_position() {
    let t: ScriptTable = vec![
        (text("a"), whole(1)),
        (whole(1), text("first")),
        (text("a"), whole(2)),
        (float(1.5), text("half")),
        (whole(2), text("second")),
    ];
    assert!(matches!(get_field(&t, "a"), Some(ScriptValue::Number(n)) if n.whole == Some(1)));
    assert!(get_field(&t, "b").is_none());
    assert!(matches!(get_element(&t, 1), Some(ScriptValue::Text(s)) if s == "first"));
    assert!(matches!(get_element(&t, 2), Some(ScriptValue::Text(s)) if s == "second"));
    assert!(get_element(&t, 3).is_none());
    assert!(get_element(&t, 0).is_none());
}

#[test]
fn typed_fields_reject_other_kinds() {
    let t: ScriptTable = vec![
        (text("name"), text("Stone")),
        (text("solid"), flag(false)),
        (text("priority"), whole(255)),
        (text("too_big"), whole(256)),
        (text("negative"), whole(-1)),
        (text("weight"), float(0.25)),
        (text("whole_weight"), whole(2)),
        (text("wide"), whole(65535)),
        (text("wider"), whole(65536)),
        (text("color"), list(vec![whole(1), whole(2), whole(3)])),
        (text("short_color"), list(vec![whole(1), whole(2)])),
        (text("bad_color"), list(vec![whole(1), whole(2), whole(300)])),
        (text("bytes"), list(vec![whole(0), whole(128), whole(255)])),
        (text("no_bytes"), list(vec![])),
        (text("bad_bytes"), list(vec![whole(0), text("x")])),
        (text("gapped_bytes"), table(vec![(whole(1), whole(1)), (whole(3), whole(3))])),
        (text("nothing"), ScriptValue::Nil),
    ];
    assert_eq!(text_field(&t, "name"), Some("Stone".to_string()));
    assert_eq!(text_field(&t, "solid"), None);
    assert_eq!(text_field(&t, "missing"), None);
    assert_eq!(text_field(&t, "nothing"), None);
    assert_eq!(flag_field(&t, "solid"), Some(false));
    assert_eq!(flag_field(&t, "name"), None);
    assert_eq!(flag_field(&t, "nothing"), None);
    assert_eq!(byte_field(&t, "priority"), Some(255));
    assert_eq!(byte_field(&t, "too_big"), None);
    assert_eq!(byte_field(&t, "negative"), None);
    assert_eq!(byte_field(&t, "weight"), None);
    assert_eq!(u16_field(&t, "wide"), Some(65535));
    assert_eq!(u16_field(&t, "wider"), None);
    assert_eq!(u16_field(&t, "negative"), None);
    assert_eq!(weight_field(&t, "weight"), Some(Weight { bits: 0.25f64.to_bits() }));
    assert_eq!(weight_field(&t, "whole_weight"), Some(Weight { bits: 2.0f64.to_bits() }));
    assert_eq!(weight_field(&t, "name"), None);
    assert_eq!(color_field(&t, "color"), Some((1, 2, 3)));
    assert_eq!(color_field(&t, "short_color"), None);
    assert_eq!(color_field(&t, "bad_color"), None);
    assert_eq!(color_field(&t, "name"), None);
    assert_eq!(bytes_field(&t, "bytes"), Some(vec![0, 128, 255]));
    assert_eq!(bytes_field(&t, "no_bytes"), Some(vec![]));
    assert_eq!(bytes_field(&t, "bad_bytes"), None);
    assert_eq!(bytes_field(&t, "gapped_bytes"), None);
    assert_eq!(bytes_field(&t, "name"), None);
    assert!(table_field(&t, "color").is_some());
    assert!(table_field(&t, "name").is_none());
}

#[test]
fn script_declarations_follow_the_file_schema() {
    let t: ScriptTable = vec![
        (text("source"), text("core")),
        (text("priority"), whole(5)),
        (text("tile"), table(vec![(text("solid"), flag(false)), (text("world_gen_weight"), float(0.4))])),
        (text("ground"), table(vec![])),
        (text("item"), table(vec![])),
        (
            text("visible_thing"),
            table(vec![(text("type_identifier"), text("chest")), (text("bytes"), list(vec![whole(7)]))]),
        ),
        (text("thing"), table(vec![(text("type_identifier"), text("timer"))])),
        (text("byte_stream"), table(vec![(text("bytes"), list(vec![whole(1), whole(2)]))])),
        (
            text("visual_data"),
            table(vec![
                (text("name"), text("Stone")),
                (text("character_left"), text("#")),
                (text("text_color_left"), list(vec![whole(1), whole(2), whole(3)])),
                (text("back_color_right"), list(vec![whole(4), whole(5), whole(6)])),
            ]),
        ),
    ];
    let d = declaration_from_script(&t);
    assert_eq!(d.source, Some("core".to_string()));
    assert_eq!(d.priority, Some(5));
    let tile = d.tile.unwrap();
    assert_eq!(tile.solid, Some(false));
    assert_eq!(tile.world_gen_weight, Some(Weight { bits: 0.4f64.to_bits() }));
    let ground = d.ground.unwrap();
    assert_eq!(ground.solid, None);
    assert_eq!(ground.world_gen_weight, None);
    assert!(d.item.is_some());
    let visible = d.visible_thing.unwrap();
    assert_eq!(visible.type_identifier, Some("chest".to_string()));
    assert_eq!(visible.bytes, Some(vec![7]));
    let thing = d.thing.unwrap();
    assert_eq!(thing.type_identifier, Some("timer".to_string()));
    assert_eq!(thing.bytes, None);
    let stream = d.byte_stream.unwrap();
    assert_eq!(stream.type_identifier, None);
    assert_eq!(stream.bytes, Some(vec![1, 2]));
    let visual = d.visual_data.unwrap();
    assert_eq!(visual.name, Some("Stone".to_string()));
    assert_eq!(visual.character_left, Some("#".to_string()));
    assert_eq!(visual.character_right, None);
    assert_eq!(visual.text_color_left, Some((1, 2, 3)));
    assert_eq!(visual.text_color_right, None);
    assert_eq!(visual.back_color_left, None);
    assert_eq!(visual.back_color_right, Some((4, 5, 6)));

    let empty = declaration_from_script(&vec![(text("tile"), flag(true)), (text("priority"), text("5"))]);
    assert!(empty.source.is_none());
    assert!(empty.priority.is_none());
    assert!(empty.tile.is_none());
    assert!(empty.ground.is_none());
    assert!(empty.item.is_none());
    assert!(empty.visible_thing.is_none());
    assert!(empty.thing.is_none());
    assert!(empty.byte_stream.is_none());
    assert!(empty.visual_data.is_none());
}

#[test]
fn only_named_tables_of_a_module_are_declarations() {
    let module: ScriptTable = vec![
        (text("stone"), table(vec![(text("item"), table(vec![]))])),
        (whole(1), table(vec![])),
        (text("not_a_table"), whole(3)),
        (text("sand"), table(vec![])),
    ];
    let declarations = declarations_from_script(&module);
    assert_eq!(declarations.len(), 2);
    assert_eq!(declarations[0].0, "stone");
    assert!(declarations[0].1.item.is_some());
    assert_eq!(declarations[1].0, "sand");
    assert!(declarations[1].1.item.is_none());
}

#[test]
fn script_game_data_merges_like_another_file_source() {
    let mut file_stone = empty_declaration();
    file_stone.tile = Some(TileDeserialData { solid: Some(true), world_gen_weight: None });
    let mut dump: DeserializationDump =
        vec![("core".to_string(), vec![("stone".to_string(), file_stone)])];
    let visual = table(vec![(text("name"), text("Stone")), (text("character_left"), text("s"))]);
    let game_data: ScriptTable = vec![
        (text("core"), table(vec![(text("stone"), table(vec![(text("visual_data"), visual)]))])),
        (text("ignored"), whole(1)),
        (
            text("scripted"),
            table(vec![(
                text("gem"),
                table(vec![
                    (text("item"), table(vec![])),
                    (text("visual_data"), table(vec![(text("name"), text("Gem"))])),
                ]),
            )]),
        ),
    ];
    merge_script_game_data(&mut dump, &game_data);
    assert_eq!(dump.len(), 2);
    assert_eq!(dump[0].0, "core");
    assert_eq!(dump[0].1.len(), 2);
    assert_eq!(dump[1].0, "scripted");
    assert_eq!(dump[1].1.len(), 1);
    assert_eq!(dump[1].1[0].0, "gem");

    let mut entries: PreMapDump = Vec::new();
    let (registry, diagnostics) = map_deserialized_dump(&mut entries, &dump);
    assert!(diagnostics.is_empty());
    assert_eq!(registry.get_id_by_name(DataCategory::Tile, "core:stone"), Some(0));
    assert_eq!(registry.get_id_by_name(DataCategory::Item, "scripted:gem"), Some(0));
    assert_eq!(registry.game_data.tile_types[&0].name, "Stone");
    assert_eq!(registry.game_data.tile_types[&0].text_display.character_left, Some('s'));
}

#[test]
fn arrays_have_exactly_the_positions_one_to_length() {
    let good: ScriptTable = vec![(whole(2), text("b")), (whole(1), text("a")), (whole(3), text("c"))];
    let values = array_values(&good, 3).unwrap();
    let texts: Vec<&str> = values
        .iter()
        .map(|v| match v {
            ScriptValue::Text(s) => s.as_str(),
            _ => "",
        })
        .collect();
    assert_eq!(texts, vec!["a", "b", "c"]);
    assert!(array_values(&good, 2).is_none());
    assert!(array_values(&good, 4).is_none());
    let mixed: ScriptTable = vec![(whole(1), text("a")), (text("k"), text("v"))];
    assert!(array_values(&mixed, 1).is_none());
    let zero: ScriptTable = vec![(whole(0), text("a")), (whole(1), text("b"))];
    assert!(array_values(&zero, 1).is_none());
    let fractional: ScriptTable = vec![(float(1.5), text("a"))];
    assert!(array_values(&fractional, 1).is_none());
    let empty: ScriptTable = vec![];
    assert_eq!(array_values(&empty, 0).unwrap().len(), 0);
    assert!(array_values(&empty, 1).is_none());
}

#[test]
fn interface_names_are_recognised() {
    assert_eq!(str_to_ui_alignment("center"), Ok(UiAlignment::Center));
    assert_eq!(str_to_ui_alignment("right"), Ok(UiAlignment::Right));
    assert_eq!(str_to_ui_alignment("left"), Ok(UiAlignment::Left));
    assert_eq!(str_to_ui_alignment("Left"), Err(UiError::Conversion));
    assert_eq!(str_to_ui_alignment(""), Err(UiError::Conversion));
    assert_eq!(text_modifier_bit("bold"), Some(1));
    assert_eq!(text_modifier_bit("dim"), Some(2));
    assert_eq!(text_modifier_bit("italic"), Some(4));
    assert_eq!(text_modifier_bit("underlined"), Some(8));
    assert_eq!(text_modifier_bit("slowBlink"), Some(16));
    assert_eq!(text_modifier_bit("rapidBlink"), Some(32));
    assert_eq!(text_modifier_bit("reversed"), Some(64));
    assert_eq!(text_modifier_bit("hidden"), Some(128));
    assert_eq!(text_modifier_bit("crossedOut"), Some(256));
    assert_eq!(text_modifier_bit("slowblink"), None);
    assert_eq!(border_bit("all"), Some(30));
    assert_eq!(border_bit("bottom"), Some(8));
    assert_eq!(border_bit("left"), Some(16));
    assert_eq!(border_bit("top"), Some(2));
    assert_eq!(border_bit("none"), Some(1));
    assert_eq!(border_bit("right"), None);
    assert_eq!(str_to_ui_border_type("plain"), Some(UiBorderType::Plain));
    assert_eq!(str_to_ui_border_type("double"), Some(UiBorderType::Double));
    assert_eq!(str_to_ui_border_type("thick"), Some(UiBorderType::Thick));
    assert_eq!(str_to_ui_border_type("rounded"), Some(UiBorderType::Rounded));
    assert_eq!(str_to_ui_border_type("Plain"), None);
    assert_eq!(str_to_widget_type("block"), Some(WidgetType::Block));
    assert_eq!(str_to_widget_type("tabs"), Some(WidgetType::Tabs));
    assert_eq!(str_to_widget_type("list"), Some(WidgetType::List));
    assert_eq!(str_to_widget_type("table"), Some(WidgetType::Table));
    assert_eq!(str_to_widget_type("paragraph"), Some(WidgetType::Paragraph));
    assert_eq!(str_to_widget_type("chart"), Some(WidgetType::Chart));
    assert_eq!(str_to_widget_type("barchart"), Some(WidgetType::BarChart));
    assert_eq!(str_to_widget_type("gauge"), Some(WidgetType::Gauge));
    assert_eq!(str_to_widget_type("sparkline"), Some(WidgetType::Sparkline));
    assert_eq!(str_to_widget_type("window"), None);
    assert_eq!(switch_flags(0b0101, 0b0011, true), 0b0111);
    assert_eq!(switch_flags(0b0101, 0b0011, false), 0b0100);
}

#[test]
fn flag_tables_are_read_in_lower_case_and_in_order() {
    let modifiers: ScriptTable = vec![(text("BOLD"), flag(true)), (text("Italic"), flag(true))];
    assert_eq!(lua_table_to_text_modifier(&modifiers), Ok(5));
    let switched_off: ScriptTable =
        vec![(text("bold"), flag(true)), (text("dim"), flag(true)), (text("bold"), flag(false))];
    assert_eq!(lua_table_to_text_modifier(&switched_off), Ok(2));
    let camel: ScriptTable = vec![(text("slowBlink"), flag(true))];
    assert_eq!(lua_table_to_text_modifier(&camel), Err(UiError::Conversion));
    let unknown: ScriptTable = vec![(text("bold"), flag(true)), (text("sparkly"), flag(true))];
    assert_eq!(lua_table_to_text_modifier(&unknown), Err(UiError::Conversion));
    let malformed: ScriptTable = vec![(text("bold"), whole(1))];
    assert_eq!(lua_table_to_text_modifier(&malformed), Err(UiError::Conversion));
    assert_eq!(lua_table_to_text_modifier(&vec![]), Ok(0));
    let borders: ScriptTable = vec![(text("ALL"), flag(true)), (text("top"), flag(false))];
    assert_eq!(flags_from_script(&borders, FlagNames::Borders), Ok(28));
    assert_eq!(flags_from_script(&borders, FlagNames::TextModifiers), Err(UiError::Conversion));
}

#[test]
fn styles_take_colours_and_modifiers() {
    let style: ScriptTable = vec![
        (text("bg"), list(vec![whole(1), whole(2), whole(3)])),
        (text("modifiers"), table(vec![(text("hidden"), flag(true))])),
    ];
    let s = lua_table_to_ui_style(&style).unwrap();
    assert_eq!(s.bg, Some((1, 2, 3)));
    assert_eq!(s.fg, None);
    assert_eq!(s.modifiers, 128);
    let plain = lua_table_to_ui_style(&vec![(text("fg"), text("red"))]).unwrap();
    assert_eq!(plain.bg, None);
    assert_eq!(plain.fg, None);
    assert_eq!(plain.modifiers, 0);
    let bad: ScriptTable = vec![(text("fg"), list(vec![whole(1), whole(2)]))];
    assert!(matches!(lua_table_to_ui_style(&bad), Err(UiError::Conversion)));
    let bad_modifier: ScriptTable = vec![(text("modifiers"), table(vec![(text("x"), flag(true))]))];
    assert!(matches!(lua_table_to_ui_style(&bad_modifier), Err(UiError::Conversion)));
    let color: ScriptTable = vec![(whole(3), whole(30)), (whole(1), whole(10)), (whole(2), whole(20))];
    assert_eq!(lua_table_to_color(&color), Ok((10, 20, 30)));
    assert_eq!(lua_table_to_color(&style), Err(UiError::Conversion));
}

fn block_element(data: Vec<(ScriptValue, ScriptValue)>, kind: &str) -> ScriptTable {
    vec![
        (text("type"), text(kind)),
        (
            text("rect"),
            table(vec![
                (text("x"), whole(1)),
                (text("y"), whole(2)),
                (text("width"), whole(30)),
                (text("height"), whole(4)),
            ]),
        ),
        (text("data"), table(data)),
    ]
}

#[test]
fn blocks_are_read_from_their_tables() {
    let element = block_element(
        vec![
            (text("title"), text("Inventory")),
            (text("titleAlignment"), text("Center")),
            (text("style"), table(vec![(text("fg"), list(vec![whole(9), whole(8), whole(7)]))])),
            (text("borders"), table(vec![(text("top"), flag(true)), (text("left"), flag(true))])),
            (text("borderType"), text("rounded")),
        ],
        "block",
    );
    let found = lua_table_to_ui_element(&element).unwrap();
    assert_eq!(found.widget_type, WidgetType::Block);
    assert_eq!(found.rect.x, 1);
    assert_eq!(found.rect.y, 2);
    assert_eq!(found.rect.width, 30);
    assert_eq!(found.rect.height, 4);
    assert_eq!(found.block.title, Some("Inventory".to_string()));
    assert_eq!(found.block.title_alignment, Some(UiAlignment::Center));
    assert_eq!(found.block.style.unwrap().fg, Some((9, 8, 7)));
    assert_eq!(found.block.borders, Some(18));
    assert_eq!(found.block.border_type, Some(UiBorderType::Rounded));

    let bare = lua_table_to_ui_element(&block_element(vec![], "block")).unwrap();
    assert_eq!(bare.block.title, None);
    assert_eq!(bare.block.title_alignment, None);
    assert!(bare.block.style.is_none());
    assert_eq!(bare.block.borders, None);
    assert_eq!(bare.block.border_type, None);
}

#[test]
fn elements_that_cannot_be_read_give_their_reason() {
    let unsupported = lua_table_to_ui_element(&block_element(vec![], "gauge"));
    assert!(matches!(unsupported, Err(UiError::Unsupported)));
    let unknown = lua_table_to_ui_element(&block_element(vec![], "window"));
    assert!(matches!(unknown, Err(UiError::Unsupported)));
    let bad_border = lua_table_to_ui_element(&block_element(vec![(text("borderType"), text("Rounded"))], "block"));
    assert!(matches!(bad_border, Err(UiError::Conversion)));
    let bad_alignment = block_from_script(&vec![(text("titleAlignment"), text("middle"))]);
    assert!(matches!(bad_alignment, Err(UiError::Conversion)));
    let no_rect: ScriptTable = vec![(text("type"), text("block")), (text("data"), table(vec![]))];
    assert!(matches!(lua_table_to_ui_element(&no_rect), Err(UiError::Conversion)));
    let no_data: ScriptTable = vec![
        (text("type"), text("block")),
        (
            text("rect"),
            table(vec![
                (text("x"), whole(1)),
                (text("y"), whole(2)),
                (text("width"), whole(30)),
                (text("height"), whole(4)),
            ]),
        ),
    ];
    assert!(matches!(lua_table_to_ui_element(&no_data), Err(UiError::Conversion)));
    let mut no_type = block_element(vec![], "block");
    no_type.remove(0);
    assert!(matches!(lua_table_to_ui_element(&no_type), Err(UiError::Conversion)));
    let mut bad_rect = block_element(vec![], "block");
    bad_rect[1] = (text("rect"), table(vec![(text("x"), whole(1)), (text("y"), whole(2)), (text("width"), whole(70000)), (text("height"), whole(4))]));
    assert!(matches!(lua_table_to_ui_element(&bad_rect), Err(UiError::Conversion)));
}
