//! The wire-format codec and the channel fan-out.
//!
//! A transport frame is one line of the wire format: a device timestamp in
//! milliseconds, a bank number, and eight raw readings, comma-separated.
//! Parsing is lenient for the readings — an unreadable reading becomes 0 —
//! and strict for the field count, the timestamp and the bank number.

use crate::text::{
    all_digits, dec_str, dec_val, digit_char, int_str, int_text_val, is_int_text, join_sep,
    split_sep, trim_spec, views_of,
};
use vstd::prelude::*;

verus! {

broadcast use vstd::array::group_array_axioms;

/// One long-format record: one reading of one channel, stamped with the
/// local receipt time in milliseconds.
#[derive(Copy, Clone, Debug, PartialEq, Eq, Structural)]
pub struct Yld {
    pub time: u64,
    pub dev: u8,
    pub sensory: u8,
    pub chan: u8,
    pub value: i64,
}

/// The milliseconds `ms` rendered as three digits, zero-padded.
pub open spec fn pad3(ms: nat) -> Seq<char> {
    seq![digit_char((ms / 100) % 10), digit_char((ms / 10) % 10), digit_char(ms % 10)]
}

/// A millisecond count rendered as seconds with three decimals.
pub open spec fn secs_text(ms: nat) -> Seq<char> {
    dec_str(ms / 1000) + seq!['.'] + pad3(ms % 1000)
}

/// The log line of one record: receipt time in seconds, device, bank,
/// channel and value, comma-separated, with a CRLF line ending.
pub open spec fn yld_line_spec(y: Yld) -> Seq<char> {
    secs_text(y.time as nat) + seq![','] + dec_str(y.dev as nat) + seq![','] + dec_str(
        y.sensory as nat,
    ) + seq![','] + dec_str(y.chan as nat) + seq![','] + int_str(y.value as int) + seq!['\r', '\n']
}

/// The header line of the record log.
pub open spec fn yld_head_spec() -> Seq<char> {
    "time,dev,sensory,chan,value\r\n"@
}

/// The header line of the record log.
pub fn yld_header() -> (r: String)
    ensures
        r@ == yld_head_spec(),
{
    String::from_str("time,dev,sensory,chan,value\r\n")
}

impl Yld {
    /// Serializes the record as one log line: time in seconds with three
    /// decimals, device, bank, channel and value, ending in CRLF.
    pub fn to_csv_line(&self) -> (r: String)
        ensures
            r@ == yld_line_spec(*self),
    {
        proof {
            reveal_strlit(",");
            reveal_strlit(".");
            reveal_strlit("\r\n");
        }
        let mut out = crate::text::fmt_u64(self.time / 1000);
        out.append(".");
        let ms = self.time % 1000;
        let d100 = crate::text::digit_string((ms / 100) % 10);
        let d10 = crate::text::digit_string((ms / 10) % 10);
        let d1 = crate::text::digit_string(ms % 10);
        out.append(d100.as_str());
        out.append(d10.as_str());
        out.append(d1.as_str());
        proof {
            assert(out@ =~= secs_text(self.time as nat));
        }
        out.append(",");
        let dev = crate::text::fmt_u64(self.dev as u64);
        out.append(dev.as_str());
        out.append(",");
        let sens = crate::text::fmt_u64(self.sensory as u64);
        out.append(sens.as_str());
        out.append(",");
        let chan = crate::text::fmt_u64(self.chan as u64);
        out.append(chan.as_str());
        out.append(",");
        let value = crate::text::fmt_i64(self.value);
        out.append(value.as_str());
        out.append("\r\n");
        proof {
            assert(out@ =~= yld_line_spec(*self));
        }
        out
    }
}

/// One transport frame: a device timestamp in milliseconds, a bank number,
/// and exactly eight raw readings.
#[derive(Copy, Clone, Debug, PartialEq)]
pub struct Ytf {
    pub dev: u8,
    pub sensory: u8,
    pub time: u64,
    pub read: [i64; 8],
}

/// The eight-reading transport frame, under its wire-format name.
pub type Ytf8 = Ytf;

/// Why a line failed to parse: wrong field count, or a bad device, bank or
/// timestamp field, carrying the offending text.
#[derive(Clone, Debug, PartialEq)]
pub enum ParseError {
    Len(usize),
    Dev(String),
    Sensory(String),
    Time(String),
}

/// The result of parsing one line.
pub type FailableSample = Result<Ytf8, ParseError>;

/// The comma-separated fields of a line.
pub open spec fn fields_of(s: Seq<char>) -> Seq<Seq<char>> {
    split_sep(s, ',')
}

/// Whether a timestamp field holds, after trimming, digits whose value
/// fits a 64-bit count of milliseconds.
pub open spec fn valid_time_text(s: Seq<char>) -> bool {
    let t = trim_spec(s);
    t.len() > 0 && all_digits(t) && dec_val(t) <= u64::MAX
}

/// Whether a bank field holds, after trimming, digits whose value fits a
/// byte.
pub open spec fn valid_sensory_text(s: Seq<char>) -> bool {
    let t = trim_spec(s);
    t.len() > 0 && all_digits(t) && dec_val(t) <= u8::MAX
}

/// The value of a reading field: its integer value when it is integer
/// text in range, and 0 otherwise — one unreadable reading does not spoil
/// the frame.
pub open spec fn reading_of(s: Seq<char>) -> i64 {
    if is_int_text(s) && i64::MIN <= int_text_val(s) <= i64::MAX {
        int_text_val(s) as i64
    } else {
        0
    }
}

/// Whether a line parses into a frame: ten fields, a good timestamp and a
/// good bank number.
pub open spec fn parse_ok(s: Seq<char>) -> bool {
    &&& fields_of(s).len() == 10
    &&& valid_time_text(fields_of(s)[0])
    &&& valid_sensory_text(fields_of(s)[1])
}

/// Whether `f` is the frame a well-formed line `s` describes.
pub open spec fn frame_matches(f: Ytf, s: Seq<char>) -> bool {
    let fields = fields_of(s);
    &&& f.dev == 1
    &&& f.time as nat == dec_val(trim_spec(fields[0]))
    &&& f.sensory as nat == dec_val(trim_spec(fields[1]))
    &&& forall|k: int| 0 <= k < 8 ==> f.read[k] == reading_of(#[trigger] fields[k + 2])
}

/// The ten serialized fields of a frame: timestamp, bank, eight readings.
pub open spec fn ser_fields(f: Ytf) -> Seq<Seq<char>> {
    seq![
        dec_str(f.time as nat),
        dec_str(f.sensory as nat),
        int_str(f.read[0] as int),
        int_str(f.read[1] as int),
        int_str(f.read[2] as int),
        int_str(f.read[3] as int),
        int_str(f.read[4] as int),
        int_str(f.read[5] as int),
        int_str(f.read[6] as int),
        int_str(f.read[7] as int),
    ]
}

/// The wire line of a frame: its ten fields, comma-joined.
pub open spec fn serialize_spec(f: Ytf) -> Seq<char> {
    join_sep(ser_fields(f), ',')
}

/// The value of a reading field, with unreadable text becoming 0.
fn parse_reading(s: &str) -> (r: i64)
    ensures
        r == reading_of(s@),
{
    match crate::text::parse_i64(s) {
        Some(v) => v,
        None => 0,
    }
}

impl Ytf {
    /// Parses one wire line into a frame.
    ///
    /// The line must have exactly ten comma-separated fields — timestamp,
    /// bank number, eight readings — else the error says what was wrong
    /// and carries the offending text. Unreadable readings become 0.
    pub fn from_csv_line(line: &String) -> (r: FailableSample)
        ensures
            r is Ok <==> parse_ok(line@),
            r matches Ok(f) ==> frame_matches(f, line@),
            fields_of(line@).len() != 10 ==> (r matches Err(e) && e matches ParseError::Len(n)
                && n == fields_of(line@).len()),
            fields_of(line@).len() == 10 && !valid_time_text(fields_of(line@)[0]) ==> (r matches
                Err(e) && e matches ParseError::Time(t) && t@ == fields_of(line@)[0]),
            fields_of(line@).len() == 10 && valid_time_text(fields_of(line@)[0])
                && !valid_sensory_text(fields_of(line@)[1]) ==> (r matches Err(e) && e matches
                ParseError::Sensory(t) && t@ == fields_of(line@)[1]),
    {
        let cols = crate::text::split_sep_exec(line.as_str(), ',');
        proof {
            assert(views_of(cols@) =~~= fields_of(line@));
            assert(forall|i: int|
                0 <= i < cols@.len() ==> views_of(cols@)[i] == #[trigger] cols@[i]@);
        }
        if cols.len() != 10 {
            return Err(ParseError::Len(cols.len()));
        }
        let time_text = crate::text::trim(cols[0].as_str());
        let time: u64 = match crate::text::parse_u64(time_text) {
            Some(v) => v,
            None => {
                return Err(ParseError::Time(cols[0].clone()));
            },
        };
        let sensory_text = crate::text::trim(cols[1].as_str());
        let sensory: u8 = match crate::text::parse_u8(sensory_text) {
            Some(v) => v,
            None => {
                return Err(ParseError::Sensory(cols[1].clone()));
            },
        };
        let mut read: [i64; 8] = [0, 0, 0, 0, 0, 0, 0, 0];
        let mut k: usize = 0;
        while k < 8
            invariant
                0 <= k <= 8,
                cols@.len() == 10,
                views_of(cols@) =~~= fields_of(line@),
                forall|j: int|
                    0 <= j < k ==> read@[j] == reading_of(#[trigger] fields_of(line@)[j + 2]),
            decreases 8 - k,
        {
            let v = parse_reading(cols[k + 2].as_str());
            read[k] = v;
            k = k + 1;
        }
        Ok(Ytf { dev: 1, sensory, time, read })
    }

    /// Serializes the frame as one wire line: timestamp, bank number and
    /// the eight readings, comma-joined, without a line ending.
    pub fn to_csv_line(&self) -> (r: String)
        ensures
            r@ == serialize_spec(*self),
    {
        proof {
            reveal_strlit(",");
        }
        let mut out = crate::text::fmt_u64(self.time);
        out.append(",");
        let sens = crate::text::fmt_u64(self.sensory as u64);
        out.append(sens.as_str());
        proof {
            assert(ser_fields(*self).take(2).drop_last() =~= ser_fields(*self).take(1));
            assert(join_sep(ser_fields(*self).take(1), ',') =~= dec_str(self.time as nat));
            crate::text::lemma_join_push(ser_fields(*self).take(1), ser_fields(*self)[1], ',');
            assert(ser_fields(*self).take(1).push(ser_fields(*self)[1]) =~~= ser_fields(
                *self,
            ).take(2));
            assert(out@ =~= join_sep(ser_fields(*self).take(2), ','));
        }
        let mut k: usize = 0;
        while k < 8
            invariant
                0 <= k <= 8,
                out@ == join_sep(ser_fields(*self).take(k + 2), ','),
            decreases 8 - k,
        {
            proof {
                reveal_strlit(",");
            }
            out.append(",");
            let v = crate::text::fmt_i64(self.read[k]);
            out.append(v.as_str());
            proof {
                crate::text::lemma_join_push(
                    ser_fields(*self).take(k + 2),
                    ser_fields(*self)[k + 2],
                    ',',
                );
                assert(ser_fields(*self).take(k + 2).push(ser_fields(*self)[k + 2]) =~~= ser_fields(
                    *self,
                ).take(k + 3));
                assert(out@ =~= join_sep(ser_fields(*self).take(k + 3), ','));
            }
            k = k + 1;
        }
        proof {
            assert(ser_fields(*self).take(10) =~~= ser_fields(*self));
        }
        out
    }

    /// Expands the frame into its eight channel records, in channel order,
    /// each stamped with the local receipt time `time`.
    pub fn to_yld(&self, time: u64) -> (out: Vec<Yld>)
        ensures
            out@.len() == 8,
            forall|k: int|
                0 <= k < 8 ==> #[trigger] out@[k] == (Yld {
                    time,
                    dev: self.dev,
                    sensory: self.sensory,
                    chan: k as u8,
                    value: self.read@[k],
                }),
    {
        let mut out: Vec<Yld> = Vec::new();
        let mut chan: u8 = 0;
        while chan < 8
            invariant
                0 <= chan <= 8,
                out@.len() == chan,
                forall|k: int|
                    0 <= k < chan ==> #[trigger] out@[k] == (Yld {
                        time,
                        dev: self.dev,
                        sensory: self.sensory,
                        chan: k as u8,
                        value: self.read@[k],
                    }),
            decreases 8 - chan,
        {
            out.push(
                Yld {
                    time,
                    dev: self.dev,
                    sensory: self.sensory,
                    chan,
                    value: self.read[chan as usize],
                },
            );
            chan = chan + 1;
        }
        out
    }
}

impl Default for Ytf {
    /// The all-zero frame.
    fn default() -> (r: Self)
        ensures
            r.dev == 0,
            r.sensory == 0,
            r.time == 0,
            forall|k: int| 0 <= k < 8 ==> r.read[k] == 0,
    {
        Ytf { dev: 0, sensory: 0, time: 0, read: [0, 0, 0, 0, 0, 0, 0, 0] }
    }
}

/// A line describes at most one frame: two frames matching the same
/// line are equal.
pub proof fn lemma_frame_matches_unique(f: Ytf, g: Ytf, s: Seq<char>)
    requires
        frame_matches(f, s),
        frame_matches(g, s),
    ensures
        f == g,
{
    assert forall|k: int| 0 <= k < 8 implies f.read[k] == g.read[k] by {
        assert(f.read[k] == reading_of(fields_of(s)[k + 2]));
        assert(g.read[k] == reading_of(fields_of(s)[k + 2]));
    }
    assert(f.read =~= g.read);
}

/// Codec round trip: parsing the serialized line of any frame the codec
/// itself could have produced yields exactly that frame back.
pub proof fn lemma_codec_round_trip(f: Ytf)
    requires
        f.dev == 1,
    ensures
        parse_ok(serialize_spec(f)),
        frame_matches(f, serialize_spec(f)),
        forall|g: Ytf| frame_matches(g, serialize_spec(f)) ==> g == f,
{
    let fields = ser_fields(f);
    crate::text::lemma_dec_str_val(f.time as nat);
    crate::text::lemma_dec_str_val(f.sensory as nat);
    assert forall|i: int| 0 <= i < fields.len() implies !crate::text::contains_char(
        #[trigger] fields[i],
        ',',
    ) by {
        if i >= 2 {
            crate::text::lemma_int_str_val(f.read[i - 2] as int);
        } else {
            assert forall|j: int| 0 <= j < fields[i].len() implies fields[i][j] != ',' by {
                assert(crate::text::is_digit(fields[i][j]));
            }
        }
    }
    crate::text::lemma_split_join(fields, ',');
    assert(fields_of(serialize_spec(f)) =~~= fields);
    lemma_digits_trim_to_self(dec_str(f.time as nat));
    lemma_digits_trim_to_self(dec_str(f.sensory as nat));
    assert(valid_time_text(fields[0]));
    assert(valid_sensory_text(fields[1]));
    assert forall|k: int| 0 <= k < 8 implies f.read[k] == reading_of(#[trigger] fields[k + 2]) by {
        crate::text::lemma_int_str_val(f.read[k] as int);
    }
    assert(frame_matches(f, serialize_spec(f)));
    assert forall|g: Ytf| frame_matches(g, serialize_spec(f)) implies g == f by {
        lemma_frame_matches_unique(g, f, serialize_spec(f));
    }
}

/// A digit string has no blanks at either end, so it trims to itself.
proof fn lemma_digits_trim_to_self(s: Seq<char>)
    requires
        s.len() > 0,
        all_digits(s),
    ensures
        trim_spec(s) == s,
{
    assert(crate::text::is_digit(s[0]));
    assert(crate::text::is_digit(s.last()));
    crate::text::lemma_trim_id(s);
}

} // verus!
