use data_handler::decoder::{DecodeError, Decoded, Decoder};
use data_handler::frame::BUFFER_SIZE;
use data_handler::gps::Gps;
use data_handler::telemetry::{FloatBits, Telemetry};

fn put(buf: &mut [u8], at: usize, bytes: &[u8]) {
    buf[at..at + bytes.len()].copy_from_slice(bytes);
}

fn render(f: &FloatBits) -> String {
    match f {
        FloatBits::Single(b) => format!("{}", f32::from_bits(*b)),
        FloatBits::Double(b) => format!("{}", f64::from_bits(*b)),
    }
}

fn telemetry_payload() -> [u8; BUFFER_SIZE] {
    let mut d = [0u8; BUFFER_SIZE];
    d[0] = b'B';
    put(&mut d, 2, &513u16.to_le_bytes());
    let singles: [f32; 5] = [21.5, 30.25, -4.0, 0.5, 45.0];
    for (i, v) in singles.iter().enumerate() {
        put(&mut d, 4 + 4 * i, &v.to_le_bytes());
    }
    put(&mut d, 24, &1013.25f64.to_le_bytes());
    let rest: [f32; 9] = [0.0, 9.81, -1.5, 12.5, 0.75, 5.0, 1.25, 3.3, 0.1];
    for (i, v) in rest.iter().enumerate() {
        put(&mut d, 32 + 4 * i, &v.to_le_bytes());
    }
    d[68] = 0xaa;
    d[69] = 0x55;
    put(&mut d, 70, &0xbeefu16.to_le_bytes());
    d[72] = 0xff;
    d
}

#[test]
fn decode_text_payload() {
    let mut d = [0u8; BUFFER_SIZE];
    put(&mut d, 0, "^hello".as_bytes());
    match Decoder::decode(d) {
        Ok(Decoded::Text(s)) => {
            let mut expected = String::from("^;hello");
            expected.push_str(&"\0".repeat(BUFFER_SIZE - 6));
            assert_eq!(s, expected);
        }
        other => panic!("unexpected {:?}", other),
    }
}

#[test]
fn decode_text_payload_with_multibyte_characters() {
    let mut d = [0u8; BUFFER_SIZE];
    put(&mut d, 0, "^żółw".as_bytes());
    match Decoder::decode(d) {
        Ok(Decoded::Text(s)) => {
            assert!(s.starts_with("^;żółw\0"));
            assert_eq!(s.chars().count(), 2 + 4 + (BUFFER_SIZE - 1 - "żółw".len()));
        }
        other => panic!("unexpected {:?}", other),
    }
}

#[test]
fn decode_telemetry_payload() {
    let d = telemetry_payload();
    let t = match Decoder::decode(d) {
        Ok(Decoded::Telemetry(t)) => t,
        other => panic!("unexpected {:?}", other),
    };
    assert_eq!(t.dformat, b'B');
    assert_eq!(t.frame_num, 513);
    assert_eq!(f32::from_bits(t.temp_pcb), 21.5);
    assert_eq!(f32::from_bits(t.temp_rpi), 45.0);
    assert_eq!(f64::from_bits(t.pressure), 1013.25);
    assert_eq!(f32::from_bits(t.acc_y), 9.81);
    assert_eq!(f32::from_bits(t.low_bus_amperage), 0.1);
    assert_eq!(t.rpi_status, [0xaa, 0x55]);
    assert_eq!(t.flags, 0xbeef);
    assert_eq!(Telemetry::from_bytes(&d[..72]), t);
}

#[test]
fn telemetry_text() {
    let d = telemetry_payload();
    let t = Telemetry::from_bytes(&d);
    let floats = t.float_fields();
    assert_eq!(floats.len(), 15);
    assert_eq!(floats[5], FloatBits::Double(1013.25f64.to_bits()));
    let rendered: Vec<String> = floats.iter().map(render).collect();
    assert_eq!(
        t.serialize(&rendered),
        "B;513;21.5;30.25;-4;0.5;45;1013.25;0;9.81;-1.5;12.5;0.75;5;1.25;3.3;0.1"
    );
}

#[test]
fn decode_unknown_kind() {
    let mut d = [0u8; BUFFER_SIZE];
    d[0] = b'G';
    let e = Decoder::decode(d).unwrap_err();
    assert_eq!(e, DecodeError::NotImplemented);
    assert_eq!(e.message(), "not implemented");
    assert_eq!(Decoder::decode([0u8; BUFFER_SIZE]).unwrap_err(), DecodeError::NotImplemented);
}

#[test]
fn processed_text_of_each_outcome() {
    let mut d = [0u8; BUFFER_SIZE];
    put(&mut d, 0, "^ab".as_bytes());
    let text = Decoder::decode(d);
    let s = Decoder::processed_text(&text, &Vec::new());
    assert!(s.starts_with("^;ab\0"));
    let tele = Decoder::decode(telemetry_payload());
    let rendered: Vec<String> = (0..15).map(|i| i.to_string()).collect();
    assert_eq!(
        Decoder::processed_text(&tele, &rendered),
        "B;513;0;1;2;3;4;5;6;7;8;9;10;11;12;13;14"
    );
    let err = Decoder::decode([b'x'; BUFFER_SIZE]);
    assert_eq!(Decoder::processed_text(&err, &Vec::new()), "");
}

#[test]
fn gps_text() {
    let g = Gps {
        dformat: b'G',
        pad0: 0,
        frame_num: 12,
        pad1: 0,
        pad2: 0,
        pad3: 0,
        pad4: 0,
        latitude: 52.25f64.to_bits(),
        longitude: 21.0f64.to_bits(),
        speed: 3.5f64.to_bits(),
        altitude: 11000.0f64.to_bits(),
        time_hour: 13,
        pad5: 0,
        time_min: 5,
        pad6: 0,
        time_sec: 59,
        pad7: 0,
        sat_number: 9,
        pad8: 0,
    };
    let rendered: Vec<String> = g.float_fields().iter().map(render).collect();
    assert_eq!(g.serialize(&rendered), "G;12;52.25;21;3.5;11000;13;5;59;9");
}
