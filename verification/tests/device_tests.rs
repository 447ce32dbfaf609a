use gilrs::axis::{axis_value, AbsInfo};
use gilrs::ev::{Axis, Button, Event};
use gilrs::gamepad::{bits_codes, test_bit, AxesInfo, DeviceData, Gamepad, InputRecord, PowerInfo, Status};
use gilrs::gilrs::Gilrs;
use gilrs::identity::{create_uuid, parse_guid};
use gilrs::mapping::MappingDb;

#[test]
fn sdl_uuid() {
    let chars: Vec<char> = "030000005e0400008e02000020200000".chars().collect();
    let x = parse_guid(&chars).unwrap();
    let y = create_uuid(0x3, 0x045e, 0x028e, 0x2020);
    assert_eq!(x, y);
}

#[test]
fn identity_depends_on_every_field() {
    let a = create_uuid(0x3, 0x045e, 0x028e, 0x2020);
    assert_eq!(a, create_uuid(0x3, 0x045e, 0x028e, 0x2020));
    assert_ne!(a, create_uuid(0x4, 0x045e, 0x028e, 0x2020));
    assert_ne!(a, create_uuid(0x3, 0x045f, 0x028e, 0x2020));
    assert_ne!(a, create_uuid(0x3, 0x045e, 0x028f, 0x2020));
    assert_ne!(a, create_uuid(0x3, 0x045e, 0x028e, 0x2021));
}

#[test]
fn guid_parsing_is_strict() {
    let short: Vec<char> = "0300".chars().collect();
    assert!(parse_guid(&short).is_none());
    let bad: Vec<char> = "g30000005e0400008e02000020200000".chars().collect();
    assert!(parse_guid(&bad).is_none());
    let upper: Vec<char> = "030000005E0400008E02000020200000".chars().collect();
    assert_eq!(parse_guid(&upper), Some(create_uuid(0x3, 0x045e, 0x028e, 0x2020)));
}

const STICK: AbsInfo = AbsInfo { minimum: -32768, maximum: 32767, flat: 128 };

#[test]
fn dead_zone_gives_exact_zero() {
    let v = axis_value(STICK, 100, Axis::LeftStickX);
    assert_eq!(v.num, 0);
    assert_eq!(v.num as f32 / v.den as f32, 0.0);
    let w = axis_value(STICK, -127, Axis::LeftStickX);
    assert_eq!(w.num, 0);
}

#[test]
fn normalized_value_stays_in_unit_range() {
    // The guarantee covers raw values whose magnitude stays within the
    // declared maximum; hardware's one extra negative step (-32768 here)
    // lands just past -1.
    for raw in [-32767, -20000, -129, -1, 0, 1, 129, 20000, 32767] {
        let v = axis_value(STICK, raw, Axis::LeftStickX);
        assert!(v.den > 0);
        assert!(v.num.abs() <= v.den);
        let f = v.num as f32 / v.den as f32;
        assert!((-1.0..=1.0).contains(&f));
    }
}

#[test]
fn normalization_exact_formula() {
    // flat 767 leaves a denominator of 32000: 16767 recenters to itself
    // and lands exactly on half scale.
    let info = AbsInfo { minimum: -32768, maximum: 32767, flat: 767 };
    let v = axis_value(info, 16767, Axis::LeftStickX);
    assert_eq!(v.num, 16000);
    assert_eq!(v.den, 32000);
    assert_eq!(v.num as f32 / v.den as f32, 0.5);
    let top = axis_value(info, 32767, Axis::LeftStickX);
    assert_eq!(top.num, 32000);
    assert_eq!(top.num as f32 / top.den as f32, 1.0);
}

#[test]
fn unsigned_stick_range_is_recentered() {
    let info = AbsInfo { minimum: 0, maximum: 255, flat: 0 };
    let mid = axis_value(info, 128, Axis::LeftStickX);
    assert_eq!((mid.num, mid.den), (1, 128));
    let low = axis_value(info, 0, Axis::LeftStickX);
    assert_eq!((low.num, low.den), (-127, 128));
}

#[test]
fn trigger_keeps_raw_origin() {
    let info = AbsInfo { minimum: 0, maximum: 255, flat: 0 };
    let v = axis_value(info, 128, Axis::RightTrigger2);
    assert_eq!((v.num, v.den), (128, 255));
    let zero = axis_value(info, 0, Axis::RightTrigger2);
    assert_eq!(zero.num, 0);
}

#[test]
fn vertical_axis_sign_inverted() {
    let x = axis_value(STICK, 20000, Axis::LeftStickX);
    let y = axis_value(STICK, 20000, Axis::LeftStickY);
    assert!(x.num > 0);
    assert_eq!(y.num, -x.num);
    assert_eq!(y.den, x.den);
    let ry = axis_value(STICK, 20000, Axis::RightStickY);
    assert_eq!(ry.num, -x.num);
}

#[test]
fn sessions_compare_by_identity() {
    let a = connected_pad(9, "/dev/input/event1", 3);
    let b = connected_pad(9, "/dev/input/event2", 4);
    let c = connected_pad(8, "/dev/input/event1", 3);
    assert!(a == b);
    assert!(a != c);
}

#[test]
fn capability_bits_decode_ascending() {
    let mut bits = vec![0u8; 8];
    bits[0] = 0b0000_0101;
    bits[7] = 0b1000_0000;
    let v = bits_codes(&bits);
    assert_eq!(v, vec![0u16, 2, 63]);
    assert!(test_bit(2, &bits));
    assert!(!test_bit(1, &bits));
    assert!(test_bit(63, &bits));
}

fn connected_pad(uuid: u128, path: &str, fd: i32) -> Gamepad {
    let mut g = Gamepad::none();
    g.uuid = uuid;
    g.devpath = path.to_string();
    g.fd = fd;
    g.status = Status::Connected;
    g
}

#[test]
fn hat_press_then_release_same_side() {
    let mut g = connected_pad(1, "/dev/input/event7", 3);
    let press = g.event(InputRecord { ev_type: 0x03, code: 0x10, value: 1 });
    assert_eq!(press, Some(Event::ButtonPressed(Button::DPadRight)));
    let release = g.event(InputRecord { ev_type: 0x03, code: 0x10, value: 0 });
    assert_eq!(release, Some(Event::ButtonReleased(Button::DPadRight)));
}

#[test]
fn hat_negative_side() {
    let mut g = connected_pad(1, "/dev/input/event7", 3);
    let press = g.event(InputRecord { ev_type: 0x03, code: 0x11, value: -1 });
    assert_eq!(press, Some(Event::ButtonPressed(Button::DPadUp)));
    let release = g.event(InputRecord { ev_type: 0x03, code: 0x11, value: 0 });
    assert_eq!(release, Some(Event::ButtonReleased(Button::DPadUp)));
    // A rest-to-rest transition synthesizes nothing.
    let nothing = g.event(InputRecord { ev_type: 0x03, code: 0x11, value: 0 });
    assert_eq!(nothing, None);
}

#[test]
fn key_records_decode_to_presses() {
    let mut g = connected_pad(1, "/dev/input/event7", 3);
    let press = g.event(InputRecord { ev_type: 0x01, code: 0x130, value: 1 });
    assert_eq!(press, Some(Event::ButtonPressed(Button::South)));
    let release = g.event(InputRecord { ev_type: 0x01, code: 0x130, value: 0 });
    assert_eq!(release, Some(Event::ButtonReleased(Button::South)));
    // Repeat events (value 2) and unknown codes decode to nothing.
    assert_eq!(g.event(InputRecord { ev_type: 0x01, code: 0x130, value: 2 }), None);
    assert_eq!(g.event(InputRecord { ev_type: 0x01, code: 0x2c0, value: 1 }), None);
}

#[test]
fn reconnect_reuses_index() {
    let mut gs = Gilrs::new();
    let (i0, e0) = gs.connect_gamepad(connected_pad(11, "/dev/input/event5", 5));
    assert_eq!((i0, e0), (0, Event::Connected));
    let (i1, _) = gs.connect_gamepad(connected_pad(22, "/dev/input/event6", 6));
    assert_eq!(i1, 1);

    let r = gs.disconnect_by_path("/dev/input/event5").unwrap();
    assert_eq!(r.0, 0);
    assert_eq!(r.1, Event::Disconnected);
    assert_eq!(r.2, 5);
    assert_eq!(gs.gamepad(0).status(), Status::Disconnected);
    assert_eq!(gs.gamepad(0).fd(), -2);

    // Same identity comes back: index 0 is reused.
    let (i2, e2) = gs.connect_gamepad(connected_pad(11, "/dev/input/event9", 9));
    assert_eq!((i2, e2), (0, Event::Connected));
    assert_eq!(gs.gamepad(0).status(), Status::Connected);

    // A different identity appends instead.
    let (i3, _) = gs.connect_gamepad(connected_pad(33, "/dev/input/event10", 10));
    assert_eq!(i3, 2);
}

#[test]
fn disconnect_releases_handle_once() {
    let mut g = connected_pad(1, "/dev/input/event7", 12);
    assert_eq!(g.disconnect(), Some(12));
    assert_eq!(g.fd(), -2);
    assert_eq!(g.disconnect(), None);
    assert_eq!(g.status(), Status::Disconnected);
    assert_eq!(g.name(), "");
}

#[test]
fn unknown_index_is_not_observed() {
    let gs = Gilrs::new();
    assert_eq!(gs.gamepad(5).status(), Status::NotObserved);
    assert_eq!(gs.gamepad(5).fd(), -3);
}

#[test]
fn axis_dedup_discards_equal_values() {
    let mut gs = Gilrs::new();
    let mut pad = connected_pad(1, "/dev/input/event7", 3);
    let mut info = AxesInfo::zero();
    info.x = AbsInfo { minimum: -32768, maximum: 32767, flat: 128 };
    pad.set_axes_info(info);
    let (id, _) = gs.connect_gamepad(pad);

    let rec = InputRecord { ev_type: 0x03, code: 0x00, value: 20000 };
    let first = gs.next_event_for(id, rec);
    match first {
        Some(Event::AxisChanged(axis, v)) => {
            assert_eq!(axis, Axis::LeftStickX);
            assert_eq!(v.num, 20000 - 128);
            assert_eq!(v.den, 32767 - 128);
        },
        other => panic!("unexpected event {:?}", other),
    }
    // The same raw value again normalizes identically and is discarded.
    assert_eq!(gs.next_event_for(id, rec), None);
    // Two readings inside the dead zone both collapse to zero: only the
    // first is reported.
    let in_dead = InputRecord { ev_type: 0x03, code: 0x00, value: 50 };
    let also_dead = InputRecord { ev_type: 0x03, code: 0x00, value: -50 };
    assert!(matches!(gs.next_event_for(id, in_dead), Some(Event::AxisChanged(_, _))));
    assert_eq!(gs.next_event_for(id, also_dead), None);
}

#[test]
fn button_state_is_cached() {
    let mut gs = Gilrs::new();
    let (id, _) = gs.connect_gamepad(connected_pad(1, "/dev/input/event7", 3));
    let press = InputRecord { ev_type: 0x01, code: 0x130, value: 1 };
    assert_eq!(gs.next_event_for(id, press), Some(Event::ButtonPressed(Button::South)));
    assert!(gs.gamepad(id).is_pressed(Button::South));
    let release = InputRecord { ev_type: 0x01, code: 0x130, value: 0 };
    assert_eq!(gs.next_event_for(id, release), Some(Event::ButtonReleased(Button::South)));
    assert!(!gs.gamepad(id).is_pressed(Button::South));
}

fn gamepad_device_data(with_marker: bool) -> DeviceData {
    let mut key_bits = vec![0u8; 96];
    if with_marker {
        // BTN_GAMEPAD = 0x130: byte 38, bit 0.
        key_bits[38] = 0x01;
    }
    DeviceData {
        fd: 9,
        devpath: "/dev/input/event3".to_string(),
        hw_name: "Generic Pad".to_string(),
        bustype: 0x0003,
        vendor: 0x0926,
        product: 0x8888,
        version: 0x0100,
        key_bits,
        abs_bits: vec![0u8; 8],
        ff_bits: None,
    }
}

#[test]
fn open_accepts_gamepads_and_rejects_other_devices() {
    let db = MappingDb::new();
    let g = Gamepad::open(gamepad_device_data(true), &db).unwrap();
    assert_eq!(g.status(), Status::Connected);
    assert_eq!(g.name(), "Generic Pad");
    assert_eq!(g.uuid(), create_uuid(0x0003, 0x0926, 0x8888, 0x0100));
    assert!(!g.is_ff_supported());
    assert_eq!(g.power_info(), PowerInfo::Unknown);

    // Without the primary-gamepad marker button the device is rejected.
    assert!(Gamepad::open(gamepad_device_data(false), &db).is_none());
}

#[test]
fn open_resolves_name_through_database() {
    let mut db = MappingDb::new();
    db.insert_to("03000000260900008888000000010000,Named From Db,a:b0,leftx:a0\n");
    let mut data = gamepad_device_data(true);
    // Raw button 0 and raw axis 0 exist on the device.
    data.key_bits[0] = 0x01;
    data.abs_bits[0] = 0x01;
    let g = Gamepad::open(data, &db).unwrap();
    assert_eq!(g.name(), "Named From Db");
    // a:b0 maps raw button 0 to the canonical south button.
    let mut g = g;
    let press = g.event(InputRecord { ev_type: 0x01, code: 0x0000, value: 1 });
    assert_eq!(press, Some(Event::ButtonPressed(Button::South)));
}

#[test]
fn ff_capability_and_gain_record() {
    let mut data = gamepad_device_data(true);
    let mut ff = vec![0u8; 13];
    // Square 0x58, triangle 0x59, sine 0x5a: byte 11, bits 0..2; gain
    // 0x60: byte 12, bit 0.
    ff[11] = 0b0000_0111;
    ff[12] = 0x01;
    data.ff_bits = Some(ff);
    let db = MappingDb::new();
    let g = Gamepad::open(data, &db).unwrap();
    assert!(g.is_ff_supported());

    let rec = Gamepad::ff_gain_record(0xC000);
    assert_eq!(rec.ev_type, 0x15);
    assert_eq!(rec.code, 0x60);
    assert_eq!(rec.value, 0xC000);
}
