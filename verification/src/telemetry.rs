use vstd::prelude::*;
use crate::bytes::{le_u16, le_u32, le_u64, read_u16, read_u32, read_u64};
use crate::text::{
    decimal, decimal_digits, digits_value, join, joined, lemma_decimal_digits, lemma_joined_first, push_char,
    texts,
};

verus! {

/// Number of bytes of a telemetry record at the start of a frame.
pub const TELEMETRY_SIZE: usize = 72;

/// Number of floating-point fields of a telemetry record that its text carries.
pub const TELEMETRY_FLOAT_FIELDS: usize = 15;

/// The raw IEEE-754 bit pattern of a floating-point field.
#[derive(Clone, Copy, Debug, PartialEq, Eq)]
pub enum FloatBits {
    /// A single-precision (`f32`) value.
    Single(u32),
    /// A double-precision (`f64`) value.
    Double(u64),
}

/// A telemetry record as the flight computer sends it. Floating-point
/// measurements are held as their IEEE-754 bit patterns.
///
/// On the wire the record takes 72 bytes, the fields in the order below at
/// their natural alignment, each in little-endian byte order:
/// `dformat` at 0, `frame_num` at 2, `temp_pcb` .. `temp_rpi` at 4 .. 20,
/// `pressure` at 24, `acc_x` .. `acc_z` at 32 .. 40, `bat_v` ..
/// `low_bus_amperage` at 44 .. 64, `rpi_status` at 68 and `flags` at 70.
#[derive(Clone, Copy, Debug, PartialEq, Eq)]
pub struct Telemetry {
    pub dformat: u8,
    pub frame_num: u16,
    pub temp_pcb: u32,
    pub temp_sdr: u32,
    pub temp_env1: u32,
    pub temp_env2: u32,
    pub temp_rpi: u32,
    pub pressure: u64,
    pub acc_x: u32,
    pub acc_y: u32,
    pub acc_z: u32,
    pub bat_v: u32,
    pub bat_a: u32,
    pub main_bus_voltage: u32,
    pub main_bus_amperage: u32,
    pub low_bus_voltage: u32,
    pub low_bus_amperage: u32,
    pub rpi_status: [u8; 2],
    pub flags: u16,
}

impl Telemetry {
    /// Whether `self` is the record that the bytes `b` lay out.
    pub open spec fn laid_out_in(self, b: Seq<u8>) -> bool {
        &&& self.dformat == b[0]
        &&& self.frame_num == le_u16(b, 2)
        &&& self.temp_pcb == le_u32(b, 4)
        &&& self.temp_sdr == le_u32(b, 8)
        &&& self.temp_env1 == le_u32(b, 12)
        &&& self.temp_env2 == le_u32(b, 16)
        &&& self.temp_rpi == le_u32(b, 20)
        &&& self.pressure == le_u64(b, 24)
        &&& self.acc_x == le_u32(b, 32)
        &&& self.acc_y == le_u32(b, 36)
        &&& self.acc_z == le_u32(b, 40)
        &&& self.bat_v == le_u32(b, 44)
        &&& self.bat_a == le_u32(b, 48)
        &&& self.main_bus_voltage == le_u32(b, 52)
        &&& self.main_bus_amperage == le_u32(b, 56)
        &&& self.low_bus_voltage == le_u32(b, 60)
        &&& self.low_bus_amperage == le_u32(b, 64)
        &&& self.rpi_status@ == seq![b[68], b[69]]
        &&& self.flags == le_u16(b, 70)
    }

    /// The floating-point fields that the record's text carries, in the order it carries them.
    pub open spec fn spec_float_fields(self) -> Seq<FloatBits> {
        seq![
            FloatBits::Single(self.temp_pcb),
            FloatBits::Single(self.temp_sdr),
            FloatBits::Single(self.temp_env1),
            FloatBits::Single(self.temp_env2),
            FloatBits::Single(self.temp_rpi),
            FloatBits::Double(self.pressure),
            FloatBits::Single(self.acc_x),
            FloatBits::Single(self.acc_y),
            FloatBits::Single(self.acc_z),
            FloatBits::Single(self.bat_v),
            FloatBits::Single(self.bat_a),
            FloatBits::Single(self.main_bus_voltage),
            FloatBits::Single(self.main_bus_amperage),
            FloatBits::Single(self.low_bus_voltage),
            FloatBits::Single(self.low_bus_amperage),
        ]
    }

    /// The record's text: its fields separated by `;`, the format byte as a
    /// character, the frame number in decimal, then the rendered floating-point fields.
    pub open spec fn spec_text(self, rendered: Seq<Seq<char>>) -> Seq<char> {
        joined(seq![seq![self.dformat as char], decimal_digits(self.frame_num as nat)] + rendered, ';')
    }

    /// Reads a record from the first 72 bytes of `raw`.
    pub fn from_bytes(raw: &[u8]) -> (t: Telemetry)
        requires
            raw@.len() >= TELEMETRY_SIZE,
        ensures
            t.laid_out_in(raw@),
    {
        let t = Telemetry {
            dformat: raw[0],
            frame_num: read_u16(raw, 2),
            temp_pcb: read_u32(raw, 4),
            temp_sdr: read_u32(raw, 8),
            temp_env1: read_u32(raw, 12),
            temp_env2: read_u32(raw, 16),
            temp_rpi: read_u32(raw, 20),
            pressure: read_u64(raw, 24),
            acc_x: read_u32(raw, 32),
            acc_y: read_u32(raw, 36),
            acc_z: read_u32(raw, 40),
            bat_v: read_u32(raw, 44),
            bat_a: read_u32(raw, 48),
            main_bus_voltage: read_u32(raw, 52),
            main_bus_amperage: read_u32(raw, 56),
            low_bus_voltage: read_u32(raw, 60),
            low_bus_amperage: read_u32(raw, 64),
            rpi_status: [raw[68], raw[69]],
            flags: read_u16(raw, 70),
        };
        assert(t.rpi_status@ =~= seq![raw@[68], raw@[69]]);
        t
    }

    /// The floating-point fields in the order the record's text carries them;
    /// the caller renders each and hands the texts to [`Telemetry::serialize`].
    pub fn float_fields(&self) -> (f: Vec<FloatBits>)
        ensures
            f@ == self.spec_float_fields(),
    {
        let f = vec![
            FloatBits::Single(self.temp_pcb),
            FloatBits::Single(self.temp_sdr),
            FloatBits::Single(self.temp_env1),
            FloatBits::Single(self.temp_env2),
            FloatBits::Single(self.temp_rpi),
            FloatBits::Double(self.pressure),
            FloatBits::Single(self.acc_x),
            FloatBits::Single(self.acc_y),
            FloatBits::Single(self.acc_z),
            FloatBits::Single(self.bat_v),
            FloatBits::Single(self.bat_a),
            FloatBits::Single(self.main_bus_voltage),
            FloatBits::Single(self.main_bus_amperage),
            FloatBits::Single(self.low_bus_voltage),
            FloatBits::Single(self.low_bus_amperage),
        ];
        assert(f@ =~= self.spec_float_fields());
        f
    }

    /// The record's text, given the rendered texts of its floating-point fields
    /// in the order of [`Telemetry::float_fields`].
    pub fn serialize(&self, rendered: &Vec<String>) -> (s: String)
        requires
            rendered@.len() == TELEMETRY_FLOAT_FIELDS,
        ensures
            s@ == self.spec_text(texts(rendered@)),
            s@ == seq![self.dformat as char, ';'] + decimal_digits(self.frame_num as nat) + seq![';'] + joined(
                texts(rendered@),
                ';',
            ),
    {
        let mut parts: Vec<String> = Vec::new();
        let mut format = String::new();
        push_char(&mut format, self.dformat as char);
        parts.push(format);
        parts.push(decimal(self.frame_num as u64));
        let mut i: usize = 0;
        while i < rendered.len()
            invariant
                i <= rendered@.len(),
                parts@.len() == 2 + i,
                texts(parts@) =~= seq![seq![self.dformat as char], decimal_digits(self.frame_num as nat)]
                    + texts(rendered@).take(i as int),
            decreases rendered@.len() - i,
        {
            let ghost before = parts@;
            let item = rendered[i].clone();
            parts.push(item);
            proof {
                assert(parts@ =~= before.push(item));
                assert(texts(parts@) =~= texts(before).push(item@));
                assert(texts(rendered@).take(i + 1) =~= texts(rendered@).take(i as int).push(rendered@[i as int]@));
            }
            i = i + 1;
        }
        assert(texts(rendered@).take(i as int) =~= texts(rendered@));
        proof {
            lemma_text_fields(*self, texts(rendered@));
        }
        join(&parts, ';')
    }
}

/// The text of a telemetry record is its format byte, `;`, the unsigned
/// decimal notation of its frame number (digits only, denoting exactly the
/// frame number, for every 16-bit value), `;`, then the rendered
/// floating-point fields separated by `;`.
pub proof fn lemma_text_fields(t: Telemetry, rendered: Seq<Seq<char>>)
    requires
        rendered.len() == TELEMETRY_FLOAT_FIELDS,
    ensures
        t.spec_text(rendered) == seq![t.dformat as char, ';'] + decimal_digits(t.frame_num as nat) + seq![';']
            + joined(rendered, ';'),
        forall|i: int|
            0 <= i < decimal_digits(t.frame_num as nat).len() ==> '0' <= #[trigger] decimal_digits(
                t.frame_num as nat,
            )[i] <= '9',
        digits_value(decimal_digits(t.frame_num as nat)) == t.frame_num,
{
    let number = decimal_digits(t.frame_num as nat);
    let rest = seq![number] + rendered;
    assert(seq![seq![t.dformat as char], number] + rendered =~= seq![seq![t.dformat as char]] + rest);
    lemma_joined_first(seq![t.dformat as char], rest, ';');
    lemma_joined_first(number, rendered, ';');
    assert(seq![t.dformat as char].push(';') + (number.push(';') + joined(rendered, ';')) =~= seq![
        t.dformat as char,
        ';',
    ] + number + seq![';'] + joined(rendered, ';'));
    lemma_decimal_digits(t.frame_num as nat);
}

} // verus!
