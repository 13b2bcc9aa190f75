use vstd::prelude::*;

use crate::numeric::fits_i64;
use crate::numeric::int_text_value;
use crate::numeric::is_int_text;
use crate::numeric::parse_int_text;
use crate::split::lemma_splitn_len;
use crate::split::spec_splitn;
use crate::split::splitn;

verus! {

/// Relied on as the opaque low-level failure carried inside an access
/// error. The library never constructs or inspects one; the surrounding
/// program stores here whatever its transport reported.
#[verifier::external_type_specification]
#[verifier::external_body]
pub struct ExIoError(std::io::Error);

/// Why a sensor could not be read.
#[derive(Debug)]
pub enum Error {
    /// A resource of the device registry could not be reached or read.
    /// Carries a description of the failing step and the underlying
    /// low-level failure.
    SysFs { msg: String, inner: std::io::Error },
    /// The status record does not have the expected shape. Carries the
    /// sub-reason and the offending raw text.
    InvalidData { msg: String, data: String },
    /// The record is well-formed but the device's own integrity flag
    /// reports a corrupt reading; there is no extra payload.
    BadCRC,
}

/// The fields of a CRC line: split on single spaces into at most 12 pieces,
/// the last piece keeping any further spaces verbatim.
pub open spec fn crc_fields(line: Seq<char>) -> Seq<Seq<char>> {
    spec_splitn(line, 12, ' ')
}

/// The CRC line has all 12 fields.
pub open spec fn crc_line_complete(line: Seq<char>) -> bool {
    crc_fields(line).len() == 12
}

/// The CRC line has all 12 fields and its 12th field is the literal `YES`.
pub open spec fn crc_line_trusted(line: Seq<char>) -> bool {
    crc_line_complete(line) && crc_fields(line)[11] == "YES"@
}

/// The fields of a temperature line: split on single spaces into at most 10
/// pieces, the last piece keeping any further spaces verbatim.
pub open spec fn temp_fields(line: Seq<char>) -> Seq<Seq<char>> {
    spec_splitn(line, 10, ' ')
}

/// The temperature line has all 10 fields.
pub open spec fn temp_line_complete(line: Seq<char>) -> bool {
    temp_fields(line).len() == 10
}

/// The 10th field of the temperature line split on the first `=`.
pub open spec fn temp_key_value(line: Seq<char>) -> Seq<Seq<char>>
    recommends
        temp_line_complete(line),
{
    spec_splitn(temp_fields(line)[9], 2, '=')
}

/// The 10th field of the temperature line holds an `=`.
pub open spec fn temp_line_has_eq(line: Seq<char>) -> bool {
    temp_line_complete(line) && temp_key_value(line).len() == 2
}

/// The text after the first `=` in the 10th field, verbatim.
pub open spec fn temp_value_text(line: Seq<char>) -> Seq<char>
    recommends
        temp_line_has_eq(line),
{
    temp_key_value(line)[1]
}

/// The value after `=` is a signed decimal integer that a 64-bit signed
/// integer can hold.
pub open spec fn temp_line_numeric(line: Seq<char>) -> bool {
    temp_line_has_eq(line) && is_int_text(temp_value_text(line)) && fits_i64(
        int_text_value(temp_value_text(line)),
    )
}

/// The milli-degrees-Celsius value encoded in a temperature line.
pub open spec fn temp_line_milli(line: Seq<char>) -> int
    recommends
        temp_line_numeric(line),
{
    int_text_value(temp_value_text(line))
}

/// Everything checking a CRC line promises: an invalid-data error naming the
/// CRC line and carrying it verbatim when a field is missing, a CRC mismatch
/// when the integrity flag is anything but `YES`, and success otherwise.
pub open spec fn crc_check_post(line: Seq<char>, r: Result<(), Error>) -> bool {
    if !crc_line_complete(line) {
        r matches Err(Error::InvalidData { msg, data }) && msg@ == "CRC line"@ && data@ == line
    } else if !crc_line_trusted(line) {
        r matches Err(Error::BadCRC)
    } else {
        r is Ok
    }
}

/// Everything parsing a temperature line promises: the exact milli-degree
/// value on a well-formed line, and otherwise an invalid-data error naming
/// the first failing step and carrying the line verbatim.
pub open spec fn temp_parse_post(line: Seq<char>, r: Result<i64, Error>) -> bool {
    if !temp_line_complete(line) {
        r matches Err(Error::InvalidData { msg, data })
            && msg@ == "wrong number of fields in temperature line"@ && data@ == line
    } else if !temp_line_has_eq(line) {
        r matches Err(Error::InvalidData { msg, data }) && msg@ == "no '=' in temperature line"@
            && data@ == line
    } else if !temp_line_numeric(line) {
        r matches Err(Error::InvalidData { msg, data })
            && msg@ == "unable to parse temperature value"@ && data@ == line
    } else {
        r matches Ok(m) && m == temp_line_milli(line)
    }
}

/// Everything parsing a whole two-line record promises, over the lines the
/// record holds: a missing first or second line is invalid data with an
/// empty payload, an untrusted CRC line stops the parse before the second
/// line is even looked at, and a trusted CRC line hands the decision over
/// to the temperature line alone.
pub open spec fn record_parse_post(lines: Seq<Seq<char>>, r: Result<i64, Error>) -> bool {
    if lines.len() == 0 {
        r matches Err(Error::InvalidData { msg, data }) && msg@ == "missing CRC line"@
            && data@ == Seq::<char>::empty()
    } else if !crc_line_complete(lines[0]) {
        r matches Err(Error::InvalidData { msg, data }) && msg@ == "CRC line"@
            && data@ == lines[0]
    } else if !crc_line_trusted(lines[0]) {
        r matches Err(Error::BadCRC)
    } else if lines.len() == 1 {
        r matches Err(Error::InvalidData { msg, data }) && msg@ == "missing data line"@
            && data@ == Seq::<char>::empty()
    } else {
        temp_parse_post(lines[1], r)
    }
}

/// `f` is the exact literal `YES`.
fn is_yes(f: &str) -> (r: bool)
    ensures
        r == (f@ == "YES"@),
{
    proof {
        reveal_strlit("YES");
    }
    let len = f.unicode_len();
    if len != 3 {
        return false;
    }
    let r = f.get_char(0) == 'Y' && f.get_char(1) == 'E' && f.get_char(2) == 'S';
    proof {
        if r {
            assert(f@ =~= "YES"@);
        }
    }
    r
}

/// Checks the integrity flag of a record's first line: the 12th
/// space-separated field must be the literal `YES`. A line with fewer
/// fields is invalid data; any flag other than `YES` is a CRC mismatch.
pub fn check_crc_line(line: &str) -> (r: Result<(), Error>)
    ensures
        crc_check_post(line@, r),
{
    let fields = splitn(line, 12, ' ');
    proof {
        assert(fields@.map_values(|f: &str| f@).len() == fields@.len());
    }
    if fields.len() < 12 {
        return Err(
            Error::InvalidData { msg: "CRC line".to_owned(), data: line.to_owned() },
        );
    }
    proof {
        lemma_splitn_len(line@, 12, ' ');
        assert(fields@.map_values(|f: &str| f@)[11] == fields@[11]@);
    }
    if is_yes(fields[11]) {
        Ok(())
    } else {
        Err(Error::BadCRC)
    }
}

/// Parses a record's second line: the 10th space-separated field must hold
/// a `key=value` pair whose value is a signed decimal integer, the
/// temperature in milli-degrees Celsius. Returns that value; any violation
/// is invalid data carrying the line verbatim.
pub fn parse_temp_line(line: &str) -> (r: Result<i64, Error>)
    ensures
        temp_parse_post(line@, r),
{
    let fields = splitn(line, 10, ' ');
    proof {
        assert(fields@.map_values(|f: &str| f@).len() == fields@.len());
    }
    if fields.len() < 10 {
        return Err(
            Error::InvalidData {
                msg: "wrong number of fields in temperature line".to_owned(),
                data: line.to_owned(),
            },
        );
    }
    proof {
        lemma_splitn_len(line@, 10, ' ');
        assert(fields@.map_values(|f: &str| f@)[9] == fields@[9]@);
    }
    let key_value = splitn(fields[9], 2, '=');
    proof {
        assert(key_value@.map_values(|f: &str| f@).len() == key_value@.len());
    }
    if key_value.len() < 2 {
        return Err(
            Error::InvalidData { msg: "no '=' in temperature line".to_owned(), data: line.to_owned() },
        );
    }
    proof {
        lemma_splitn_len(fields@[9]@, 2, '=');
        assert(key_value@.map_values(|f: &str| f@)[1] == key_value@[1]@);
    }
    match parse_int_text(key_value[1]) {
        Some(milli) => Ok(milli),
        None => Err(
            Error::InvalidData {
                msg: "unable to parse temperature value".to_owned(),
                data: line.to_owned(),
            },
        ),
    }
}

/// Parses one device's raw status record from the text lines it holds:
/// first the CRC line, whose 12th field must report `YES`, then the
/// temperature line, whose 10th field encodes the reading after an `=`.
/// Returns the reading in milli-degrees Celsius. The outcome is a pure
/// function of the lines; a missing line is invalid data with an empty
/// payload, and nothing past the first failing step is ever consulted.
pub fn parse_record(lines: &Vec<String>) -> (r: Result<i64, Error>)
    ensures
        record_parse_post(lines@.map_values(|l: String| l@), r),
{
    proof {
        assert(lines@.map_values(|l: String| l@).len() == lines@.len());
    }
    if lines.len() == 0 {
        return Err(
            Error::InvalidData { msg: "missing CRC line".to_owned(), data: String::new() },
        );
    }
    proof {
        assert(lines@.map_values(|l: String| l@)[0] == lines@[0]@);
    }
    match check_crc_line(lines[0].as_str()) {
        Err(e) => Err(e),
        Ok(()) => {
            if lines.len() == 1 {
                return Err(
                    Error::InvalidData { msg: "missing data line".to_owned(), data: String::new() },
                );
            }
            proof {
                assert(lines@.map_values(|l: String| l@)[1] == lines@[1]@);
            }
            parse_temp_line(lines[1].as_str())
        },
    }
}

/// Two parse results carry the same outcome: the same reading, or the same
/// kind of failure with the same diagnostic text.
pub open spec fn same_outcome(r1: Result<i64, Error>, r2: Result<i64, Error>) -> bool {
    match (r1, r2) {
        (Ok(m1), Ok(m2)) => m1 == m2,
        (Err(Error::BadCRC), Err(Error::BadCRC)) => true,
        (
            Err(Error::InvalidData { msg: msg1, data: data1 }),
            Err(Error::InvalidData { msg: msg2, data: data2 }),
        ) => msg1@ == msg2@ && data1@ == data2@,
        _ => false,
    }
}

/// Law: a well-formed record is accepted exactly. Whenever the CRC line
/// carries all 12 fields with the flag `YES` and the temperature line is
/// complete, holds an `=` in its 10th field and encodes a signed decimal
/// integer `m` that a 64-bit signed integer can hold, parsing returns `Ok`
/// with exactly `m` milli-degrees Celsius.
pub proof fn lemma_trusted_record_parses(lines: Seq<Seq<char>>, r: Result<i64, Error>)
    requires
        record_parse_post(lines, r),
        lines.len() >= 2,
        crc_line_trusted(lines[0]),
        temp_line_numeric(lines[1]),
    ensures
        r matches Ok(m) && m == temp_line_milli(lines[1]),
{
}

/// Law: a record whose complete CRC line carries any 12th field other than
/// the literal `YES` is rejected with a CRC mismatch, whatever the second
/// line holds — it need not be present, let alone well-formed.
pub proof fn lemma_crc_mismatch_rejects(lines: Seq<Seq<char>>, r: Result<i64, Error>)
    requires
        record_parse_post(lines, r),
        lines.len() >= 1,
        crc_line_complete(lines[0]),
        !crc_line_trusted(lines[0]),
    ensures
        r matches Err(Error::BadCRC),
{
}

/// Law: parsing a record is a pure function of its lines. Any two results
/// that the contract of `parse_record` admits for the same lines carry the
/// same outcome, so parsing the same record twice yields identical results.
pub proof fn lemma_parse_record_deterministic(
    lines: Seq<Seq<char>>,
    r1: Result<i64, Error>,
    r2: Result<i64, Error>,
)
    requires
        record_parse_post(lines, r1),
        record_parse_post(lines, r2),
    ensures
        same_outcome(r1, r2),
{
}

} // verus!
