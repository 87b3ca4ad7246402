use varint_simd_fair::scenario::{data_file_name, scenarios, ScenarioKind, SCENARIO_COUNT};

#[test]
fn scenarios_are_the_three_in_order() {
    let table = scenarios();
    assert_eq!(table.len(), SCENARIO_COUNT);
    assert_eq!(table[0].name, "u8_1b");
    assert_eq!(table[0].kind, ScenarioKind::U8);
    assert_eq!(table[1].name, "u8_2b");
    assert_eq!(table[1].kind, ScenarioKind::U8);
    assert_eq!(table[2].name, "u16_2b");
    assert_eq!(table[2].kind, ScenarioKind::U16);
}

#[test]
fn data_file_name_appends_extension() {
    assert_eq!(data_file_name("u8_1b"), "u8_1b.bin");
    assert_eq!(data_file_name("u16_2b"), "u16_2b.bin");
    assert_eq!(data_file_name(""), ".bin");
    assert_eq!(data_file_name("a.bin"), "a.bin.bin");
}

#[test]
fn every_scenario_has_a_data_file_name() {
    let names: Vec<String> = scenarios().iter().map(|s| data_file_name(s.name)).collect();
    assert_eq!(names, vec!["u8_1b.bin", "u8_2b.bin", "u16_2b.bin"]);
}
