use vstd::prelude::*;
use crate::telemetry::FloatBits;
use crate::text::{
    decimal, decimal_digits, digits_value, join, joined, lemma_decimal_digits, lemma_joined_first, push_char,
    texts,
};

verus! {

/// Number of floating-point fields of a GPS record.
pub const GPS_FLOAT_FIELDS: usize = 4;

/// A GPS record, packed without padding between its fields in the order
/// below (48 bytes). Floating-point coordinates are held as their IEEE-754
/// bit patterns.
#[derive(Clone, Copy, Debug, PartialEq, Eq)]
pub struct Gps {
    pub dformat: u8,
    pub pad0: u8,
    pub frame_num: u16,
    pub pad1: u8,
    pub pad2: u8,
    pub pad3: u8,
    pub pad4: u8,
    pub latitude: u64,
    pub longitude: u64,
    pub speed: u64,
    pub altitude: u64,
    pub time_hour: u8,
    pub pad5: u8,
    pub time_min: u8,
    pub pad6: u8,
    pub time_sec: u8,
    pub pad7: u8,
    pub sat_number: u8,
    pub pad8: u8,
}

impl Gps {
    /// The floating-point fields that the record's text carries, in order.
    pub open spec fn spec_float_fields(self) -> Seq<FloatBits> {
        seq![
            FloatBits::Double(self.latitude),
            FloatBits::Double(self.longitude),
            FloatBits::Double(self.speed),
            FloatBits::Double(self.altitude),
        ]
    }

    /// The record's text: its fields separated by `;`, the format byte as a
    /// character, the frame number, the four rendered coordinates, then hour,
    /// minute, second and satellite count, all integers in decimal.
    pub open spec fn spec_text(self, rendered: Seq<Seq<char>>) -> Seq<char> {
        joined(
            seq![seq![self.dformat as char], decimal_digits(self.frame_num as nat)] + rendered + seq![
                decimal_digits(self.time_hour as nat),
                decimal_digits(self.time_min as nat),
                decimal_digits(self.time_sec as nat),
                decimal_digits(self.sat_number as nat),
            ],
            ';',
        )
    }

    /// The floating-point fields in the order the record's text carries them;
    /// the caller renders each and hands the texts to [`Gps::serialize`].
    pub fn float_fields(&self) -> (f: Vec<FloatBits>)
        ensures
            f@ == self.spec_float_fields(),
    {
        let f = vec![
            FloatBits::Double(self.latitude),
            FloatBits::Double(self.longitude),
            FloatBits::Double(self.speed),
            FloatBits::Double(self.altitude),
        ];
        assert(f@ =~= self.spec_float_fields());
        f
    }

    /// The record's text, given the rendered texts of its coordinates in the
    /// order of [`Gps::float_fields`].
    pub fn serialize(&self, rendered: &Vec<String>) -> (s: String)
        requires
            rendered@.len() == GPS_FLOAT_FIELDS,
        ensures
            s@ == self.spec_text(texts(rendered@)),
            s@ == seq![self.dformat as char, ';'] + decimal_digits(self.frame_num as nat) + seq![';'] + joined(
                texts(rendered@) + seq![
                    decimal_digits(self.time_hour as nat),
                    decimal_digits(self.time_min as nat),
                    decimal_digits(self.time_sec as nat),
                ],
                ';',
            ) + seq![';'] + decimal_digits(self.sat_number as nat),
    {
        let mut parts: Vec<String> = Vec::new();
        let mut format = String::new();
        push_char(&mut format, self.dformat as char);
        parts.push(format);
        parts.push(decimal(self.frame_num as u64));
        parts.push(rendered[0].clone());
        parts.push(rendered[1].clone());
        parts.push(rendered[2].clone());
        parts.push(rendered[3].clone());
        parts.push(decimal(self.time_hour as u64));
        parts.push(decimal(self.time_min as u64));
        parts.push(decimal(self.time_sec as u64));
        parts.push(decimal(self.sat_number as u64));
        assert(texts(parts@) =~= seq![seq![self.dformat as char], decimal_digits(self.frame_num as nat)]
            + texts(rendered@) + seq![
            decimal_digits(self.time_hour as nat),
            decimal_digits(self.time_min as nat),
            decimal_digits(self.time_sec as nat),
            decimal_digits(self.sat_number as nat),
        ]);
        proof {
            lemma_text_fields(*self, texts(rendered@));
        }
        join(&parts, ';')
    }
}

/// The text of a GPS record is its format byte, `;`, the decimal frame
/// number, `;`, the four rendered coordinates and the decimal hour, minute
/// and second separated by `;`, then `;` and the full decimal notation of
/// the satellite count (digits only, denoting exactly the count, for every
/// 8-bit value).
pub proof fn lemma_text_fields(g: Gps, rendered: Seq<Seq<char>>)
    requires
        rendered.len() == GPS_FLOAT_FIELDS,
    ensures
        g.spec_text(rendered) == seq![g.dformat as char, ';'] + decimal_digits(g.frame_num as nat) + seq![';']
            + joined(
            rendered + seq![
                decimal_digits(g.time_hour as nat),
                decimal_digits(g.time_min as nat),
                decimal_digits(g.time_sec as nat),
            ],
            ';',
        ) + seq![';'] + decimal_digits(g.sat_number as nat),
        forall|i: int|
            0 <= i < decimal_digits(g.sat_number as nat).len() ==> '0' <= #[trigger] decimal_digits(
                g.sat_number as nat,
            )[i] <= '9',
        digits_value(decimal_digits(g.sat_number as nat)) == g.sat_number,
        digits_value(decimal_digits(g.frame_num as nat)) == g.frame_num,
{
    let number = decimal_digits(g.frame_num as nat);
    let middle = rendered + seq![
        decimal_digits(g.time_hour as nat),
        decimal_digits(g.time_min as nat),
        decimal_digits(g.time_sec as nat),
    ];
    let sat = decimal_digits(g.sat_number as nat);
    let tail = middle.push(sat);
    let rest = seq![number] + tail;
    assert(seq![seq![g.dformat as char], number] + rendered + seq![
        decimal_digits(g.time_hour as nat),
        decimal_digits(g.time_min as nat),
        decimal_digits(g.time_sec as nat),
        sat,
    ] =~= seq![seq![g.dformat as char]] + rest);
    lemma_joined_first(seq![g.dformat as char], rest, ';');
    lemma_joined_first(number, tail, ';');
    assert(tail.drop_last() =~= middle);
    assert(joined(tail, ';') == joined(middle, ';').push(';') + sat);
    assert(seq![g.dformat as char].push(';') + (number.push(';') + (joined(middle, ';').push(';') + sat))
        =~= seq![g.dformat as char, ';'] + number + seq![';'] + joined(middle, ';') + seq![';'] + sat);
    lemma_decimal_digits(g.sat_number as nat);
    lemma_decimal_digits(g.frame_num as nat);
}

} // verus!
