use gilrs::mapping::{Kind, Mapping, MappingDb, ParseSdlMappingError};

// Mapping in the style of the community gamecontroller database.
const TEST_STR: &'static str = "03000000260900008888000000010000,GameCube {WiseGroup USB \
                                box},a:b0,b:b2,y:b3,x:b1,start:b7,rightshoulder:b6,dpup:h0.1,\
                                dpleft:h0.8,dpdown:h0.4,dpright:h0.2,leftx:a0,lefty:a1,rightx:\
                                a2,righty:a3,lefttrigger:a4,righttrigger:a5,";

const BUTTONS: [u16; 12] = [0, 1, 2, 3, 4, 5, 6, 7, 8, 9, 10, 11];
const AXES: [u16; 8] = [0, 1, 2, 3, 4, 5, 6, 7];

#[test]
fn mapping() {
    let _ = Mapping::parse_sdl_mapping(TEST_STR, &BUTTONS, &AXES).unwrap();
}

#[test]
fn gamecube_line_parses_with_name() {
    let m = Mapping::parse_sdl_mapping(TEST_STR, &BUTTONS, &AXES).unwrap();
    assert!(!m.name().is_empty());
    assert_eq!(m.name(), "GameCube {WiseGroup USB box}");
}

#[test]
fn gamecube_line_declared_pairs() {
    let m = Mapping::parse_sdl_mapping(TEST_STR, &BUTTONS, &AXES).unwrap();
    // a:b0 -> south, b:b2 -> west, y:b3 -> north, x:b1 -> east
    assert_eq!(m.map(0, Kind::Button), 0x130);
    assert_eq!(m.map(2, Kind::Button), 0x134);
    assert_eq!(m.map(3, Kind::Button), 0x133);
    assert_eq!(m.map(1, Kind::Button), 0x131);
    assert_eq!(m.map(7, Kind::Button), 0x13b);
    assert_eq!(m.map(6, Kind::Button), 0x137);
    // leftx:a0 .. righty:a3, lefttrigger:a4, righttrigger:a5
    assert_eq!(m.map(0, Kind::Axis), 0x00);
    assert_eq!(m.map(1, Kind::Axis), 0x01);
    assert_eq!(m.map(2, Kind::Axis), 0x03);
    assert_eq!(m.map(3, Kind::Axis), 0x04);
    assert_eq!(m.map(4, Kind::Axis), 0x15);
    assert_eq!(m.map(5, Kind::Axis), 0x14);
}

#[test]
fn declared_pairs_round_trip() {
    let m = Mapping::parse_sdl_mapping(TEST_STR, &BUTTONS, &AXES).unwrap();
    assert_eq!(m.map(0, Kind::Button), 0x130);
    assert_eq!(m.map_rev(0x130, Kind::Button), 0);
    assert_eq!(m.map(7, Kind::Button), 0x13b);
    assert_eq!(m.map_rev(0x13b, Kind::Button), 7);
    assert_eq!(m.map(1, Kind::Axis), 0x01);
    assert_eq!(m.map_rev(0x01, Kind::Axis), 1);
    assert_eq!(m.map(5, Kind::Axis), 0x14);
    assert_eq!(m.map_rev(0x14, Kind::Axis), 5);
}

#[test]
fn undeclared_code_maps_to_itself() {
    let empty = Mapping::new();
    assert_eq!(empty.map(42, Kind::Button), 42);
    assert_eq!(empty.map(7, Kind::Axis), 7);
    assert_eq!(empty.map_rev(42, Kind::Button), 42);
    let m = Mapping::parse_sdl_mapping(TEST_STR, &BUTTONS, &AXES).unwrap();
    assert_eq!(m.map(11, Kind::Button), 11);
    assert_eq!(m.map(7, Kind::Axis), 7);
}

#[test]
fn foreign_platform_rejected() {
    let r = Mapping::parse_sdl_mapping(
        "03000000000000000000000000000000,pad,platform:Windows,a:b0",
        &BUTTONS,
        &AXES,
    );
    assert_eq!(r.unwrap_err(), ParseSdlMappingError::NotTargetPlatform);
}

#[test]
fn matching_platform_accepted() {
    let m = Mapping::parse_sdl_mapping(
        "03000000000000000000000000000000,pad,platform:Linux,a:b0",
        &BUTTONS,
        &AXES,
    )
    .unwrap();
    assert_eq!(m.map(0, Kind::Button), 0x130);
}

#[test]
fn missing_name_rejected() {
    let r = Mapping::parse_sdl_mapping("03000000000000000000000000000000", &BUTTONS, &AXES);
    assert_eq!(r.unwrap_err(), ParseSdlMappingError::MissingName);
}

#[test]
fn pair_without_colon_rejected() {
    let r = Mapping::parse_sdl_mapping(
        "03000000000000000000000000000000,pad,x",
        &BUTTONS,
        &AXES,
    );
    assert_eq!(r.unwrap_err(), ParseSdlMappingError::InvalidPair);
}

#[test]
fn malformed_value_rejected() {
    let r = Mapping::parse_sdl_mapping(
        "03000000000000000000000000000000,pad,a:q0",
        &BUTTONS,
        &AXES,
    );
    assert_eq!(r.unwrap_err(), ParseSdlMappingError::InvalidValue);
    let r2 = Mapping::parse_sdl_mapping(
        "03000000000000000000000000000000,pad,dpup:h0.3",
        &BUTTONS,
        &AXES,
    );
    assert_eq!(r2.unwrap_err(), ParseSdlMappingError::InvalidValue);
    let r3 = Mapping::parse_sdl_mapping(
        "03000000000000000000000000000000,pad,leftx:bb",
        &BUTTONS,
        &AXES,
    );
    assert_eq!(r3.unwrap_err(), ParseSdlMappingError::InvalidValue);
}

#[test]
fn absent_button_index_skipped() {
    let m = Mapping::parse_sdl_mapping(
        "03000000000000000000000000000000,pad,a:b99,b:b1",
        &BUTTONS,
        &AXES,
    )
    .unwrap();
    // a:b99 names a button the device lacks: only that key is dropped.
    assert_eq!(m.map_rev(0x130, Kind::Button), 0x130);
    assert_eq!(m.map(1, Kind::Button), 0x134);
}

#[test]
fn absent_axis_index_skipped() {
    let m = Mapping::parse_sdl_mapping(
        "03000000000000000000000000000000,pad,leftx:a99,lefty:a1",
        &BUTTONS,
        &AXES,
    )
    .unwrap();
    assert_eq!(m.map_rev(0x00, Kind::Axis), 0x00);
    assert_eq!(m.map(1, Kind::Axis), 0x01);
}

#[test]
fn either_kind_key_skips_symmetrically() {
    // A key that accepts both kinds skips an absent button just as it
    // skips an absent axis.
    let m = Mapping::parse_sdl_mapping(
        "03000000000000000000000000000000,pad,leftshoulder:b99,rightshoulder:a99",
        &BUTTONS,
        &AXES,
    )
    .unwrap();
    assert_eq!(m.map_rev(0x136, Kind::Button), 0x136);
    assert_eq!(m.map_rev(0x12, Kind::Axis), 0x12);
}

#[test]
fn either_kind_key_dispatches_on_value() {
    let m = Mapping::parse_sdl_mapping(
        "03000000000000000000000000000000,pad,leftshoulder:b4,righttrigger:a5",
        &BUTTONS,
        &AXES,
    )
    .unwrap();
    assert_eq!(m.map(4, Kind::Button), 0x136);
    assert_eq!(m.map(5, Kind::Axis), 0x14);
}

#[test]
fn empty_values_and_unknown_keys_ignored() {
    let m = Mapping::parse_sdl_mapping(
        "03000000000000000000000000000000,pad,a:,mysterykey:b1,b:b2",
        &BUTTONS,
        &AXES,
    )
    .unwrap();
    assert_eq!(m.map_rev(0x130, Kind::Button), 0x130);
    assert_eq!(m.map(1, Kind::Button), 1);
    assert_eq!(m.map(2, Kind::Button), 0x134);
}

#[test]
fn hat_directions_map_to_hat_axes() {
    let m = Mapping::parse_sdl_mapping(
        "03000000000000000000000000000000,pad,dpup:h0.1,dpright:h0.2",
        &BUTTONS,
        &AXES,
    )
    .unwrap();
    assert_eq!(m.map(0x11, Kind::Axis), 0x11);
    assert_eq!(m.map(0x10, Kind::Axis), 0x10);
    assert_eq!(m.map_rev(0x11, Kind::Axis), 0x11);
}

#[test]
fn error_descriptions() {
    assert_eq!(ParseSdlMappingError::MissingGuid.to_str(), "GUID is missing");
    assert_eq!(
        ParseSdlMappingError::NotTargetPlatform.to_str(),
        "mapping for different OS than target"
    );
    assert_eq!(
        ParseSdlMappingError::InvalidBtn.to_str(),
        "gamepad doesn't have requested button"
    );
}

#[test]
fn db_resolves_and_overrides() {
    let mut db = MappingDb::new();
    db.insert_to("03000000260900008888000000010000,First,a:b0\nnot a guid line\n");
    db.insert_to("03000000260900008888000000010000,Second,a:b0");
    let uuid = gilrs::identity::create_uuid(0x0003, 0x0926, 0x8888, 0x0100);
    let line = db.get(uuid).unwrap();
    assert_eq!(line, "03000000260900008888000000010000,Second,a:b0");
    assert!(db.get(7).is_none());
}

#[test]
fn db_strips_carriage_returns() {
    let mut db = MappingDb::new();
    db.insert_to("03000000260900008888000000010000,Name,a:b0\r\n");
    let uuid = gilrs::identity::create_uuid(0x0003, 0x0926, 0x8888, 0x0100);
    let line = db.get(uuid).unwrap();
    assert_eq!(line, "03000000260900008888000000010000,Name,a:b0");
}
