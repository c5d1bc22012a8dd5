//! Decoding of satellites-in-view (GSV) sentences.

use vstd::prelude::*;
use vstd::string::*;
use crate::fields::{lemma_split_step, split_on, texts};

verus! {

/// Number of leading fields of a GSV sentence that describe the sentence
/// itself: talker and type, message count, message number, satellites in view.
pub const HEADER_FIELDS: usize = 4;

/// Number of fields that describe one satellite.
pub const GROUP_FIELDS: usize = 4;

/// Whether `c` is an ASCII decimal digit.
pub open spec fn is_digit(c: char) -> bool {
    48 <= c as u32 <= 57
}

/// The number that a sequence of decimal digits denotes.
pub open spec fn decimal_value(digits: Seq<char>) -> nat
    decreases digits.len(),
{
    if digits.len() == 0 {
        0
    } else {
        decimal_value(digits.drop_last()) * 10 + (digits.last() as u32 - 48) as nat
    }
}

/// The digits of a numeric field: the field without one leading `+`, if any.
pub open spec fn unsigned_digits(field: Seq<char>) -> Seq<char> {
    if field.len() > 0 && field[0] == '+' {
        field.skip(1)
    } else {
        field
    }
}

/// Whether `field` is the decimal notation of a number from 0 to 255: an
/// optional `+`, then one or more digits and nothing else.
pub open spec fn is_strength(field: Seq<char>) -> bool {
    let digits = unsigned_digits(field);
    &&& digits.len() > 0
    &&& forall|i: int| 0 <= i < digits.len() ==> is_digit(#[trigger] digits[i])
    &&& decimal_value(digits) <= 255
}

/// The signal strength that a field denotes; a field that is not the notation
/// of a number from 0 to 255 counts as 0.
pub open spec fn strength_of(field: Seq<char>) -> u8 {
    if is_strength(field) {
        decimal_value(unsigned_digits(field)) as u8
    } else {
        0
    }
}

/// Reads a signal strength from a field, leniently: whatever is not a number
/// from 0 to 255 reads as 0.
pub fn parse_strength(field: &str) -> (strength: u8)
    ensures
        strength == strength_of(field@),
{
    let n: usize = field.unicode_len();
    if n == 0 {
        return 0;
    }
    let first: usize = if field.get_char(0) == '+' { 1 } else { 0 };
    if first == n {
        return 0;
    }
    let ghost digits = unsigned_digits(field@);
    let mut value: u32 = 0;
    let mut too_large = false;
    let mut i: usize = first;
    assert(digits =~= field@.skip(first as int));
    assert(digits.take(0) =~= Seq::<char>::empty());
    while i < n
        invariant
            n == field@.len(),
            first < n,
            first <= i <= n,
            digits == unsigned_digits(field@),
            digits == field@.skip(first as int),
            forall|k: int| 0 <= k < i - first ==> is_digit(#[trigger] digits[k]),
            too_large ==> decimal_value(digits.take(i - first)) > 255,
            !too_large ==> value == decimal_value(digits.take(i - first)),
            value <= 255,
        decreases n - i,
    {
        let c = field.get_char(i);
        let code: u32 = c as u32;
        if code < 48 || code > 57 {
            assert(!is_digit(digits[i - first]));
            return 0;
        }
        proof {
            let shorter = digits.take(i - first);
            let longer = digits.take(i - first + 1);
            assert(longer.drop_last() =~= shorter);
            assert(longer.last() == c);
        }
        if !too_large {
            value = value * 10 + (code - 48);
            if value > 255 {
                too_large = true;
                value = 0;
            }
        }
        i += 1;
    }
    assert(digits.take(n - first) =~= digits);
    if too_large {
        0
    } else {
        value as u8
    }
}

/// Splits a line into its comma-separated fields.
pub fn split_fields(line: &str) -> (fields: Vec<String>)
    ensures
        texts(fields@) == split_on(line@, ','),
{
    let n: usize = line.unicode_len();
    let mut fields: Vec<String> = Vec::new();
    let mut start: usize = 0;
    let mut i: usize = 0;
    assert(line@.take(0) =~= Seq::<char>::empty());
    assert(line@.subrange(0, 0) =~= Seq::<char>::empty());
    assert(texts(fields@).push(Seq::<char>::empty()) =~= seq![Seq::<char>::empty()]);
    while i < n
        invariant
            n == line@.len(),
            start <= i <= n,
            split_on(line@.take(i as int), ',') == texts(fields@).push(
                line@.subrange(start as int, i as int),
            ),
        decreases n - i,
    {
        let c = line.get_char(i);
        proof {
            lemma_split_step(
                line@.take(i as int),
                ',',
                texts(fields@),
                line@.subrange(start as int, i as int),
                c,
            );
            assert(line@.take(i as int).push(c) =~= line@.take(i + 1));
            assert(line@.subrange(start as int, i as int).push(c) =~= line@.subrange(
                start as int,
                i + 1,
            ));
        }
        if c == ',' {
            let ghost before = fields@;
            let field = line.substring_char(start, i).to_owned();
            fields.push(field);
            start = i + 1;
            assert(texts(fields@) =~= texts(before).push(field@));
            assert(line@.subrange(start as int, i + 1) =~= Seq::<char>::empty());
        }
        i += 1;
    }
    let ghost before = fields@;
    let field = line.substring_char(start, n).to_owned();
    fields.push(field);
    assert(texts(fields@) =~= texts(before).push(field@));
    assert(line@.take(n as int) =~= line@);
    fields
}

/// One satellite in view, as a GSV sentence reports it. Elevation and azimuth
/// are kept as the text of their fields; whoever displays them reads that text
/// as degrees.
#[derive(Debug)]
pub struct SatelliteRecord {
    /// Satellite identifier, as given in the sentence.
    pub id: String,
    /// Elevation field, degrees above the horizon.
    pub elevation: String,
    /// Azimuth field, degrees from true north.
    pub azimuth: String,
    /// Signal-to-noise ratio; 0 where the field holds no number from 0 to 255.
    pub strength: u8,
}

/// What a satellite record holds, as plain values.
pub struct RecordView {
    pub id: Seq<char>,
    pub elevation: Seq<char>,
    pub azimuth: Seq<char>,
    pub strength: u8,
}

impl View for SatelliteRecord {
    type V = RecordView;

    open spec fn view(&self) -> RecordView {
        RecordView {
            id: self.id@,
            elevation: self.elevation@,
            azimuth: self.azimuth@,
            strength: self.strength,
        }
    }
}

impl Clone for SatelliteRecord {
    fn clone(&self) -> (copy: SatelliteRecord)
        ensures
            copy@ == self@,
    {
        SatelliteRecord {
            id: self.id.clone(),
            elevation: self.elevation.clone(),
            azimuth: self.azimuth.clone(),
            strength: self.strength,
        }
    }
}

/// The views of a sequence of satellite records.
pub open spec fn record_views(v: Seq<SatelliteRecord>) -> Seq<RecordView> {
    v.map_values(|r: SatelliteRecord| r@)
}

/// Whether a line is a GSV sentence: it starts with `$`, two characters that
/// name the talker, and `GSV`.
pub open spec fn is_gsv(line: Seq<char>) -> bool {
    &&& line.len() >= 6
    &&& line[0] == '$'
    &&& line[3] == 'G'
    &&& line[4] == 'S'
    &&& line[5] == 'V'
}

/// How many complete satellite groups a sentence of `n` fields carries.
pub open spec fn group_count(n: nat) -> nat {
    if n < 4 {
        0
    } else {
        ((n - 4) / 4) as nat
    }
}

/// The satellite that group `k` of a sentence's fields describes.
pub open spec fn record_at(fields: Seq<Seq<char>>, k: int) -> RecordView {
    RecordView {
        id: fields[4 + 4 * k],
        elevation: fields[4 + 4 * k + 1],
        azimuth: fields[4 + 4 * k + 2],
        strength: strength_of(fields[4 + 4 * k + 3]),
    }
}

/// The satellites that a sentence made of `fields` reports: one for each
/// complete group of four fields after the four header fields. Fields left
/// over after the last complete group are ignored.
pub open spec fn records_of(fields: Seq<Seq<char>>) -> Seq<RecordView> {
    Seq::new(group_count(fields.len()), |k: int| record_at(fields, k))
}

/// The satellites that a line reports: none unless it is a GSV sentence.
pub open spec fn decode_spec(line: Seq<char>) -> Seq<RecordView> {
    if is_gsv(line) {
        records_of(split_on(line, ','))
    } else {
        Seq::empty()
    }
}

/// Tells whether a line is a GSV sentence.
pub fn is_gsv_sentence(line: &str) -> (yes: bool)
    ensures
        yes == is_gsv(line@),
{
    let n: usize = line.unicode_len();
    n >= 6 && line.get_char(0) == '$' && line.get_char(3) == 'G' && line.get_char(4) == 'S'
        && line.get_char(5) == 'V'
}

/// Builds the satellite records of a sentence that is already split into
/// fields.
pub fn records_from_fields(fields: &Vec<String>) -> (records: Vec<SatelliteRecord>)
    ensures
        record_views(records@) == records_of(texts(fields@)),
{
    let mut records: Vec<SatelliteRecord> = Vec::new();
    let n: usize = fields.len();
    let mut i: usize = HEADER_FIELDS;
    while i < n && n - i >= GROUP_FIELDS
        invariant
            n == fields.len(),
            i == 4 + 4 * records.len(),
            records.len() <= group_count(n as nat),
            forall|k: int|
                0 <= k < records.len() ==> (#[trigger] records[k])@ == record_at(texts(fields@), k),
        decreases n - i,
    {
        let record = SatelliteRecord {
            id: fields[i].clone(),
            elevation: fields[i + 1].clone(),
            azimuth: fields[i + 2].clone(),
            strength: parse_strength(fields[i + 3].as_str()),
        };
        records.push(record);
        i += GROUP_FIELDS;
    }
    assert(record_views(records@) =~= records_of(texts(fields@)));
    records
}

/// Decodes one line: the satellites it reports if it is a GSV sentence, and
/// nothing otherwise. A malformed field never fails the sentence.
pub fn decode(line: &str) -> (records: Vec<SatelliteRecord>)
    ensures
        record_views(records@) == decode_spec(line@),
{
    if is_gsv_sentence(line) {
        let fields = split_fields(line);
        records_from_fields(&fields)
    } else {
        let records: Vec<SatelliteRecord> = Vec::new();
        assert(record_views(records@) =~= decode_spec(line@));
        records
    }
}

/// The satellites that the lines of one read cycle report together: those of
/// each line, in the order of the lines.
pub open spec fn decode_all(lines: Seq<Seq<char>>) -> Seq<RecordView>
    decreases lines.len(),
{
    if lines.len() == 0 {
        Seq::empty()
    } else {
        decode_all(lines.drop_last()) + decode_spec(lines.last())
    }
}

/// Lines of which none is a GSV sentence report no satellite at all.
pub proof fn lemma_no_gsv_no_satellites(lines: Seq<Seq<char>>)
    requires
        forall|i: int| 0 <= i < lines.len() ==> !is_gsv(#[trigger] lines[i]),
    ensures
        decode_all(lines) == Seq::<RecordView>::empty(),
    decreases lines.len(),
{
    if lines.len() > 0 {
        lemma_no_gsv_no_satellites(lines.drop_last());
        assert(!is_gsv(lines[lines.len() - 1]));
        assert(decode_all(lines) =~= Seq::<RecordView>::empty());
    }
}

/// A sentence reports one satellite for each complete group of four fields
/// after its header, however many fields are left over; and a strength field
/// that holds no number yields 0 while the other fields of its group are kept.
pub proof fn lemma_group_decoding(fields: Seq<Seq<char>>, k: int)
    requires
        0 <= k,
        4 + 4 * k + 3 < fields.len(),
    ensures
        records_of(fields).len() == (fields.len() - 4) / 4,
        k < records_of(fields).len(),
        records_of(fields)[k].id == fields[4 + 4 * k],
        records_of(fields)[k].elevation == fields[4 + 4 * k + 1],
        records_of(fields)[k].azimuth == fields[4 + 4 * k + 2],
        is_strength(fields[4 + 4 * k + 3]) ==> records_of(fields)[k].strength == decimal_value(
            unsigned_digits(fields[4 + 4 * k + 3]),
        ),
        !is_strength(fields[4 + 4 * k + 3]) ==> records_of(fields)[k].strength == 0,
{
}

/// Decodes the lines of one read cycle into the satellites they report.
pub fn decode_cycle(lines: &Vec<String>) -> (records: Vec<SatelliteRecord>)
    ensures
        record_views(records@) == decode_all(texts(lines@)),
{
    let mut records: Vec<SatelliteRecord> = Vec::new();
    let mut i: usize = 0;
    assert(texts(lines@).take(0) =~= Seq::<Seq<char>>::empty());
    assert(record_views(records@) =~= Seq::<RecordView>::empty());
    while i < lines.len()
        invariant
            i <= lines.len(),
            record_views(records@) == decode_all(texts(lines@).take(i as int)),
        decreases lines.len() - i,
    {
        let ghost before = records@;
        let mut found = decode(lines[i].as_str());
        let ghost added = found@;
        records.append(&mut found);
        proof {
            let shorter = texts(lines@).take(i as int);
            let longer = texts(lines@).take(i + 1);
            assert(longer.drop_last() =~= shorter);
            assert(longer.last() == lines[i as int]@);
            assert(record_views(before + added) =~= record_views(before) + record_views(added));
        }
        i += 1;
    }
    assert(texts(lines@).take(i as int) =~= texts(lines@));
    records
}

} // verus!
