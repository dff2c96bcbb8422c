//! Star-catalog text handling.
//!
//! Two line formats carry the same physical fields — a name, a right
//! ascension in hours/minutes/seconds, a signed declination in
//! degrees/minutes/seconds, and a visual magnitude:
//!
//! * the verbose astronomical format, fixed columns on lines of at
//!   least 107 characters;
//! * the compact comma-separated format written by the converter,
//!   `NNNNN,HHMMSS.s,+DDMMSS,[-]M.MM`.
//!
//! Both parsers extract the fields as plain integers (seconds of right
//! ascension in tenths, magnitudes in thousandths) so that the same
//! record type describes a star regardless of where it came from.

use vstd::prelude::*;
use vstd::string::StringExecFns;
use vstd::string::StrSliceExecFns;

verus! {

/// A decimal digit.
pub open spec fn is_digit(c: char) -> bool {
    48 <= c as int <= 57
}

/// The digit's value.
pub open spec fn digit_val(c: char) -> int {
    c as int - 48
}

/// A character allowed in a magnitude field: digit, decimal point or
/// space.
pub open spec fn is_mag_char(c: char) -> bool {
    is_digit(c) || c == '.' || c == ' '
}

/// Two adjacent digits of `s` starting at `i`, read as one number.
pub open spec fn two_digits(s: Seq<char>, i: int) -> int {
    digit_val(s[i]) * 10 + digit_val(s[i + 1])
}

/// Why a catalog line was rejected.
#[derive(Clone, Copy, Debug, PartialEq, Eq)]
pub enum LineError {
    /// The line does not match the fixed layout of its format.
    Layout,
    /// The magnitude field does not read as a decimal number.
    Magnitude,
    /// The name field begins with an unknown Greek-letter abbreviation.
    Name,
}

/// The numeric model of a parsed star record.
pub ghost struct RecordV {
    pub name: Seq<char>,
    pub ra_h: int,
    pub ra_m: int,
    pub ra_ds: int,
    pub dec_neg: bool,
    pub dec_d: int,
    pub dec_m: int,
    pub dec_s: int,
    pub mag_milli: int,
}

/// One parsed star record: the name field verbatim, right ascension as
/// hours, minutes and tenths of seconds, declination as sign, degrees,
/// minutes and seconds, and the magnitude in thousandths.
#[derive(Clone, Debug, PartialEq)]
pub struct CatalogRecord {
    pub name: String,
    pub ra_h: u32,
    pub ra_m: u32,
    pub ra_ds: u32,
    pub dec_neg: bool,
    pub dec_d: u32,
    pub dec_m: u32,
    pub dec_s: u32,
    pub mag_milli: i32,
}

impl View for CatalogRecord {
    type V = RecordV;

    open spec fn view(&self) -> RecordV {
        RecordV {
            name: self.name@,
            ra_h: self.ra_h as int,
            ra_m: self.ra_m as int,
            ra_ds: self.ra_ds as int,
            dec_neg: self.dec_neg,
            dec_d: self.dec_d as int,
            dec_m: self.dec_m as int,
            dec_s: self.dec_s as int,
            mag_milli: self.mag_milli as int,
        }
    }
}

/// Which on-disk format a line is written in.
#[derive(Clone, Copy, Debug, PartialEq, Eq)]
pub enum CatalogFormat {
    Original,
    Converted,
}

/// The value of a four-character magnitude window `u`, trimmed of
/// leading and trailing spaces and read as a decimal number with up to
/// three fraction digits, in thousandths; `None` if what remains is not
/// a decimal number.
pub open spec fn mag4(u: Seq<char>) -> Option<int>
    recommends
        u.len() == 4,
{
    let s: int = if u[0] != ' ' {
        0
    } else if u[1] != ' ' {
        1
    } else if u[2] != ' ' {
        2
    } else {
        3
    };
    let e: int = if u[3] != ' ' {
        4
    } else if u[2] != ' ' {
        3
    } else if u[1] != ' ' {
        2
    } else {
        1
    };
    if u[0] == ' ' && u[1] == ' ' && u[2] == ' ' && u[3] == ' ' {
        None
    } else {
        mag_span(u, s, e)
    }
}

/// The value of the non-space span `[s, e)` of a magnitude window, in
/// thousandths.
pub open spec fn mag_span(u: Seq<char>, s: int, e: int) -> Option<int>
    recommends
        0 <= s < e <= u.len(),
{
    if e - s == 1 {
        if is_digit(u[s]) {
            Some(digit_val(u[s]) * 1000)
        } else {
            None
        }
    } else if e - s == 2 {
        if is_digit(u[s]) && is_digit(u[s + 1]) {
            Some(two_digits(u, s) * 1000)
        } else if is_digit(u[s]) && u[s + 1] == '.' {
            Some(digit_val(u[s]) * 1000)
        } else if u[s] == '.' && is_digit(u[s + 1]) {
            Some(digit_val(u[s + 1]) * 100)
        } else {
            None
        }
    } else if e - s == 3 {
        if is_digit(u[s]) && is_digit(u[s + 1]) && is_digit(u[s + 2]) {
            Some((two_digits(u, s) * 10 + digit_val(u[s + 2])) * 1000)
        } else if is_digit(u[s]) && is_digit(u[s + 1]) && u[s + 2] == '.' {
            Some(two_digits(u, s) * 1000)
        } else if is_digit(u[s]) && u[s + 1] == '.' && is_digit(u[s + 2]) {
            Some(digit_val(u[s]) * 1000 + digit_val(u[s + 2]) * 100)
        } else if u[s] == '.' && is_digit(u[s + 1]) && is_digit(u[s + 2]) {
            Some(digit_val(u[s + 1]) * 100 + digit_val(u[s + 2]) * 10)
        } else {
            None
        }
    } else if e - s == 4 {
        if is_digit(u[s]) && is_digit(u[s + 1]) && is_digit(u[s + 2]) && is_digit(u[s + 3]) {
            Some(((two_digits(u, s) * 10 + digit_val(u[s + 2])) * 10 + digit_val(u[s + 3])) * 1000)
        } else if is_digit(u[s]) && is_digit(u[s + 1]) && is_digit(u[s + 2]) && u[s + 3] == '.' {
            Some((two_digits(u, s) * 10 + digit_val(u[s + 2])) * 1000)
        } else if is_digit(u[s]) && is_digit(u[s + 1]) && u[s + 2] == '.' && is_digit(u[s + 3]) {
            Some(two_digits(u, s) * 1000 + digit_val(u[s + 3]) * 100)
        } else if is_digit(u[s]) && u[s + 1] == '.' && is_digit(u[s + 2]) && is_digit(u[s + 3]) {
            Some(digit_val(u[s]) * 1000 + digit_val(u[s + 2]) * 100 + digit_val(u[s + 3]) * 10)
        } else if u[s] == '.' && is_digit(u[s + 1]) && is_digit(u[s + 2]) && is_digit(u[s + 3]) {
            Some(digit_val(u[s + 1]) * 100 + digit_val(u[s + 2]) * 10 + digit_val(u[s + 3]))
        } else {
            None
        }
    } else {
        None
    }
}

/// Whether a line matches the fixed columns of the verbose format:
/// a name in columns 7 to 13, right ascension `HHMMSS.s` in columns 75
/// to 82, a signed declination `DDMMSS` in columns 83 to 89, and a
/// signed four-character magnitude in columns 102 to 106.
pub open spec fn original_layout_ok(s: Seq<char>) -> bool {
    &&& s.len() >= 107
    &&& is_digit(s[75])
    &&& is_digit(s[76])
    &&& is_digit(s[77])
    &&& is_digit(s[78])
    &&& is_digit(s[79])
    &&& is_digit(s[80])
    &&& s[81] == '.'
    &&& is_digit(s[82])
    &&& (s[83] == '+' || s[83] == '-')
    &&& is_digit(s[84])
    &&& is_digit(s[85])
    &&& is_digit(s[86])
    &&& is_digit(s[87])
    &&& is_digit(s[88])
    &&& is_digit(s[89])
    &&& (s[102] == '+' || s[102] == ' ' || s[102] == '-')
    &&& is_mag_char(s[103])
    &&& is_mag_char(s[104])
    &&& is_mag_char(s[105])
    &&& is_mag_char(s[106])
}

/// What parsing a verbose-format line yields.
pub open spec fn parse_original_spec(s: Seq<char>) -> Result<RecordV, LineError> {
    if !original_layout_ok(s) {
        Err(LineError::Layout)
    } else {
        match mag4(s.subrange(103, 107)) {
            Some(mv) => Ok(
                RecordV {
                    name: s.subrange(7, 14),
                    ra_h: two_digits(s, 75),
                    ra_m: two_digits(s, 77),
                    ra_ds: two_digits(s, 79) * 10 + digit_val(s[82]),
                    dec_neg: s[83] == '-',
                    dec_d: two_digits(s, 84),
                    dec_m: two_digits(s, 86),
                    dec_s: two_digits(s, 88),
                    mag_milli: if s[102] == '-' {
                        -mv
                    } else {
                        mv
                    },
                },
            ),
            None => Err(LineError::Magnitude),
        }
    }
}

/// Whether a line matches the compact format: a five-character name, a
/// comma, `HHMMSS.s`, a comma, a signed `DDMMSS`, a comma, and a
/// magnitude of four characters after an optional leading minus.
pub open spec fn converted_layout_ok(s: Seq<char>) -> bool {
    &&& s.len() >= 27
    &&& s[5] == ','
    &&& is_digit(s[6])
    &&& is_digit(s[7])
    &&& is_digit(s[8])
    &&& is_digit(s[9])
    &&& is_digit(s[10])
    &&& is_digit(s[11])
    &&& s[12] == '.'
    &&& is_digit(s[13])
    &&& s[14] == ','
    &&& (s[15] == '+' || s[15] == '-')
    &&& is_digit(s[16])
    &&& is_digit(s[17])
    &&& is_digit(s[18])
    &&& is_digit(s[19])
    &&& is_digit(s[20])
    &&& is_digit(s[21])
    &&& s[22] == ','
    &&& (if s[23] == '-' {
        &&& s.len() >= 28
        &&& is_mag_char(s[24])
        &&& is_mag_char(s[25])
        &&& is_mag_char(s[26])
        &&& is_mag_char(s[27])
    } else {
        &&& is_mag_char(s[23])
        &&& is_mag_char(s[24])
        &&& is_mag_char(s[25])
        &&& is_mag_char(s[26])
    })
}

/// What parsing a compact-format line yields.
pub open spec fn parse_converted_spec(s: Seq<char>) -> Result<RecordV, LineError> {
    if !converted_layout_ok(s) {
        Err(LineError::Layout)
    } else {
        let neg = s[23] == '-';
        let window = if neg {
            s.subrange(24, 28)
        } else {
            s.subrange(23, 27)
        };
        match mag4(window) {
            Some(mv) => Ok(
                RecordV {
                    name: s.subrange(0, 5),
                    ra_h: two_digits(s, 6),
                    ra_m: two_digits(s, 8),
                    ra_ds: two_digits(s, 10) * 10 + digit_val(s[13]),
                    dec_neg: s[15] == '-',
                    dec_d: two_digits(s, 16),
                    dec_m: two_digits(s, 18),
                    dec_s: two_digits(s, 20),
                    mag_milli: if neg {
                        -mv
                    } else {
                        mv
                    },
                },
            ),
            None => Err(LineError::Magnitude),
        }
    }
}

/// What parsing a line yields in the given format.
pub open spec fn parse_line_spec(s: Seq<char>, format: CatalogFormat) -> Result<RecordV, LineError> {
    match format {
        CatalogFormat::Original => parse_original_spec(s),
        CatalogFormat::Converted => parse_converted_spec(s),
    }
}

/// Whether the character is a decimal digit, and its value.
fn digit_of(c: char) -> (r: Option<u32>)
    ensures
        r is Some <==> is_digit(c),
        r is Some ==> r->0 == digit_val(c),
{
    let v = c as u32;
    if 48 <= v && v <= 57 {
        Some(v - 48)
    } else {
        None
    }
}

/// Two adjacent digits of `line` starting at `i`.
fn read_two_digits(line: &str, i: usize) -> (r: Option<u32>)
    requires
        i + 2 <= usize::MAX,
        i + 2 <= line@.len(),
    ensures
        r is Some <==> is_digit(line@[i as int]) && is_digit(line@[i as int + 1]),
        r is Some ==> r->0 == two_digits(line@, i as int),
{
    let a = digit_of(line.get_char(i));
    let b = digit_of(line.get_char(i + 1));
    match (a, b) {
        (Some(x), Some(y)) => Some(x * 10 + y),
        _ => None,
    }
}

/// Whether the character may stand in a magnitude field.
fn mag_char_ok(c: char) -> (r: bool)
    ensures
        r == is_mag_char(c),
{
    digit_of(c).is_some() || c == '.' || c == ' '
}

/// The value of a four-character magnitude window, mirroring [`mag4`].
fn parse_mag4(c0: char, c1: char, c2: char, c3: char) -> (r: Option<i32>)
    ensures
        ({
            let u = seq![c0, c1, c2, c3];
            match r {
                Some(v) => mag4(u) == Some(v as int),
                None => mag4(u) == None::<int>,
            }
        }),
{
    proof {
        let u = seq![c0, c1, c2, c3];
        assert(u[0] == c0 && u[1] == c1 && u[2] == c2 && u[3] == c3);
    }
    if c0 == ' ' && c1 == ' ' && c2 == ' ' && c3 == ' ' {
        return None;
    }
    let cs = [c0, c1, c2, c3];
    let s: usize = if c0 != ' ' {
        0
    } else if c1 != ' ' {
        1
    } else if c2 != ' ' {
        2
    } else {
        3
    };
    let e: usize = if c3 != ' ' {
        4
    } else if c2 != ' ' {
        3
    } else if c1 != ' ' {
        2
    } else {
        1
    };
    if e <= s {
        return None;
    }
    let d0 = digit_of(cs[s]);
    if e - s == 1 {
        match d0 {
            Some(v) => Some((v * 1000) as i32),
            None => None,
        }
    } else if e - s == 2 {
        let d1 = digit_of(cs[s + 1]);
        match (d0, d1) {
            (Some(v0), Some(v1)) => Some(((v0 * 10 + v1) * 1000) as i32),
            (Some(v0), None) => if cs[s + 1] == '.' {
                Some((v0 * 1000) as i32)
            } else {
                None
            },
            (None, Some(v1)) => if cs[s] == '.' {
                Some((v1 * 100) as i32)
            } else {
                None
            },
            (None, None) => None,
        }
    } else if e - s == 3 {
        let d1 = digit_of(cs[s + 1]);
        let d2 = digit_of(cs[s + 2]);
        match (d0, d1, d2) {
            (Some(v0), Some(v1), Some(v2)) => Some((((v0 * 10 + v1) * 10 + v2) * 1000) as i32),
            (Some(v0), Some(v1), None) => if cs[s + 2] == '.' {
                Some(((v0 * 10 + v1) * 1000) as i32)
            } else {
                None
            },
            (Some(v0), None, Some(v2)) => if cs[s + 1] == '.' {
                Some((v0 * 1000 + v2 * 100) as i32)
            } else {
                None
            },
            (None, Some(v1), Some(v2)) => if cs[s] == '.' {
                Some((v1 * 100 + v2 * 10) as i32)
            } else {
                None
            },
            _ => None,
        }
    } else {
        let d1 = digit_of(cs[s + 1]);
        let d2 = digit_of(cs[s + 2]);
        let d3 = digit_of(cs[s + 3]);
        match (d0, d1, d2, d3) {
            (Some(v0), Some(v1), Some(v2), Some(v3)) => Some(
                ((((v0 * 10 + v1) * 10 + v2) * 10 + v3) * 1000) as i32,
            ),
            (Some(v0), Some(v1), Some(v2), None) => if cs[s + 3] == '.' {
                Some((((v0 * 10 + v1) * 10 + v2) * 1000) as i32)
            } else {
                None
            },
            (Some(v0), Some(v1), None, Some(v3)) => if cs[s + 2] == '.' {
                Some(((v0 * 10 + v1) * 1000 + v3 * 100) as i32)
            } else {
                None
            },
            (Some(v0), None, Some(v2), Some(v3)) => if cs[s + 1] == '.' {
                Some((v0 * 1000 + v2 * 100 + v3 * 10) as i32)
            } else {
                None
            },
            (None, Some(v1), Some(v2), Some(v3)) => if cs[s] == '.' {
                Some((v1 * 100 + v2 * 10 + v3) as i32)
            } else {
                None
            },
            _ => None,
        }
    }
}

/// Parse one catalog line in the given format.
pub fn from_line(line: &str, format: CatalogFormat) -> (r: Result<CatalogRecord, LineError>)
    ensures
        ({
            let p = parse_line_spec(line@, format);
            match r {
                Ok(rec) => p == Ok::<RecordV, LineError>(rec@),
                Err(e) => p == Err::<RecordV, LineError>(e),
            }
        }),
{
    match format {
        CatalogFormat::Original => parse_original_line(line),
        CatalogFormat::Converted => parse_converted_line(line),
    }
}

/// Parse one verbose-format line.
pub fn parse_original_line(line: &str) -> (r: Result<CatalogRecord, LineError>)
    ensures
        ({
            let p = parse_original_spec(line@);
            match r {
                Ok(rec) => p == Ok::<RecordV, LineError>(rec@),
                Err(e) => p == Err::<RecordV, LineError>(e),
            }
        }),
{
    let n = line.unicode_len();
    if n < 107 {
        return Err(LineError::Layout);
    }
    let ra_h = read_two_digits(line, 75);
    let ra_m = read_two_digits(line, 77);
    let ra_s = read_two_digits(line, 79);
    let ra_dot = line.get_char(81);
    let ra_tenth = digit_of(line.get_char(82));
    let dec_sign = line.get_char(83);
    let dec_d = read_two_digits(line, 84);
    let dec_m = read_two_digits(line, 86);
    let dec_s = read_two_digits(line, 88);
    let mag_sign = line.get_char(102);
    let m0 = line.get_char(103);
    let m1 = line.get_char(104);
    let m2 = line.get_char(105);
    let m3 = line.get_char(106);
    match (ra_h, ra_m, ra_s, ra_tenth, dec_d, dec_m, dec_s) {
        (Some(rh), Some(rm), Some(rs), Some(rt), Some(dd), Some(dm), Some(ds)) => {
            if ra_dot != '.' || (dec_sign != '+' && dec_sign != '-') || (mag_sign != '+' && mag_sign
                != ' ' && mag_sign != '-') || !mag_char_ok(m0) || !mag_char_ok(m1) || !mag_char_ok(
                m2,
            ) || !mag_char_ok(m3) {
                return Err(LineError::Layout);
            }
            proof {
                assert(line@.subrange(103, 107) =~= seq![m0, m1, m2, m3]);
            }
            match parse_mag4(m0, m1, m2, m3) {
                Some(mv) => {
                    let name = String::from_str(line.substring_char(7, 14));
                    Ok(
                        CatalogRecord {
                            name,
                            ra_h: rh,
                            ra_m: rm,
                            ra_ds: rs * 10 + rt,
                            dec_neg: dec_sign == '-',
                            dec_d: dd,
                            dec_m: dm,
                            dec_s: ds,
                            mag_milli: if mag_sign == '-' {
                                -mv
                            } else {
                                mv
                            },
                        },
                    )
                },
                None => Err(LineError::Magnitude),
            }
        },
        _ => Err(LineError::Layout),
    }
}

/// Parse one compact-format line.
pub fn parse_converted_line(line: &str) -> (r: Result<CatalogRecord, LineError>)
    ensures
        ({
            let p = parse_converted_spec(line@);
            match r {
                Ok(rec) => p == Ok::<RecordV, LineError>(rec@),
                Err(e) => p == Err::<RecordV, LineError>(e),
            }
        }),
{
    let n = line.unicode_len();
    if n < 27 {
        return Err(LineError::Layout);
    }
    let comma1 = line.get_char(5);
    let ra_h = read_two_digits(line, 6);
    let ra_m = read_two_digits(line, 8);
    let ra_s = read_two_digits(line, 10);
    let ra_dot = line.get_char(12);
    let ra_tenth = digit_of(line.get_char(13));
    let comma2 = line.get_char(14);
    let dec_sign = line.get_char(15);
    let dec_d = read_two_digits(line, 16);
    let dec_m = read_two_digits(line, 18);
    let dec_s = read_two_digits(line, 20);
    let comma3 = line.get_char(22);
    match (ra_h, ra_m, ra_s, ra_tenth, dec_d, dec_m, dec_s) {
        (Some(rh), Some(rm), Some(rs), Some(rt), Some(dd), Some(dm), Some(ds)) => {
            if comma1 != ',' || ra_dot != '.' || comma2 != ',' || (dec_sign != '+' && dec_sign
                != '-') || comma3 != ',' {
                return Err(LineError::Layout);
            }
            let neg = line.get_char(23) == '-';
            let base: usize = if neg {
                24
            } else {
                23
            };
            if neg && n < 28 {
                return Err(LineError::Layout);
            }
            let m0 = line.get_char(base);
            let m1 = line.get_char(base + 1);
            let m2 = line.get_char(base + 2);
            let m3 = line.get_char(base + 3);
            if !mag_char_ok(m0) || !mag_char_ok(m1) || !mag_char_ok(m2) || !mag_char_ok(m3) {
                return Err(LineError::Layout);
            }
            proof {
                assert(line@.subrange(base as int, base as int + 4) =~= seq![m0, m1, m2, m3]);
            }
            match parse_mag4(m0, m1, m2, m3) {
                Some(mv) => {
                    let name = String::from_str(line.substring_char(0, 5));
                    Ok(
                        CatalogRecord {
                            name,
                            ra_h: rh,
                            ra_m: rm,
                            ra_ds: rs * 10 + rt,
                            dec_neg: dec_sign == '-',
                            dec_d: dd,
                            dec_m: dm,
                            dec_s: ds,
                            mag_milli: if neg {
                                -mv
                            } else {
                                mv
                            },
                        },
                    )
                },
                None => Err(LineError::Magnitude),
            }
        },
        _ => Err(LineError::Layout),
    }
}

/// The glyph at position `j` of the abbreviation table, as a
/// character sequence.
pub open spec fn greek_glyph_seq(j: int) -> Seq<char> {
    if j == 0 {
        " "@
    } else if j == 1 {
        "α"@
    } else if j == 2 {
        "β"@
    } else if j == 3 {
        "γ"@
    } else if j == 4 {
        "δ"@
    } else if j == 5 {
        "ε"@
    } else if j == 6 {
        "ζ"@
    } else if j == 7 {
        "η"@
    } else if j == 8 {
        "θ"@
    } else if j == 9 {
        "ι"@
    } else if j == 10 {
        "κ"@
    } else if j == 11 {
        "λ"@
    } else if j == 12 {
        "μ"@
    } else if j == 13 {
        "ν"@
    } else if j == 14 {
        "ξ"@
    } else if j == 15 {
        "ο"@
    } else if j == 16 {
        "π"@
    } else if j == 17 {
        "ρ"@
    } else if j == 18 {
        "σ"@
    } else if j == 19 {
        "τ"@
    } else if j == 20 {
        "ψ"@
    } else if j == 21 {
        "φ"@
    } else if j == 22 {
        "υ"@
    } else if j == 23 {
        "ω"@
    } else {
        "χ"@
    }
}

/// The abbreviation table used when converting catalog names: each
/// three-letter Latin abbreviation of a Greek letter, paired with the
/// letter itself, plus the all-blank entry for unnamed stars.
pub fn greek_names_map() -> (r: Vec<(String, String)>)
    ensures
        r@.len() == 25,
        forall|j: int| 0 <= j < 25 ==> (#[trigger] r@[j]).1@ == greek_glyph_seq(j),
        r@[0].0@ == "   "@ && r@[0].1@ == " "@,
        r@[1].0@ == "Alp"@ && r@[1].1@ == "α"@,
        r@[2].0@ == "Bet"@ && r@[2].1@ == "β"@,
        r@[3].0@ == "Gam"@ && r@[3].1@ == "γ"@,
        r@[4].0@ == "Del"@ && r@[4].1@ == "δ"@,
        r@[5].0@ == "Eps"@ && r@[5].1@ == "ε"@,
        r@[6].0@ == "Zet"@ && r@[6].1@ == "ζ"@,
        r@[7].0@ == "Eta"@ && r@[7].1@ == "η"@,
        r@[8].0@ == "The"@ && r@[8].1@ == "θ"@,
        r@[9].0@ == "Iot"@ && r@[9].1@ == "ι"@,
        r@[10].0@ == "Kap"@ && r@[10].1@ == "κ"@,
        r@[11].0@ == "Lam"@ && r@[11].1@ == "λ"@,
        r@[12].0@ == "Mu "@ && r@[12].1@ == "μ"@,
        r@[13].0@ == "Nu "@ && r@[13].1@ == "ν"@,
        r@[14].0@ == "Xi "@ && r@[14].1@ == "ξ"@,
        r@[15].0@ == "Omi"@ && r@[15].1@ == "ο"@,
        r@[16].0@ == "Pi "@ && r@[16].1@ == "π"@,
        r@[17].0@ == "Rho"@ && r@[17].1@ == "ρ"@,
        r@[18].0@ == "Sig"@ && r@[18].1@ == "σ"@,
        r@[19].0@ == "Tau"@ && r@[19].1@ == "τ"@,
        r@[20].0@ == "Psi"@ && r@[20].1@ == "ψ"@,
        r@[21].0@ == "Phi"@ && r@[21].1@ == "φ"@,
        r@[22].0@ == "Ups"@ && r@[22].1@ == "υ"@,
        r@[23].0@ == "Ome"@ && r@[23].1@ == "ω"@,
        r@[24].0@ == "Chi"@ && r@[24].1@ == "χ"@,
{
    let mut pairs: Vec<(String, String)> = Vec::new();
    pairs.push((String::from_str("   "), String::from_str(" ")));
    pairs.push((String::from_str("Alp"), String::from_str("α")));
    pairs.push((String::from_str("Bet"), String::from_str("β")));
    pairs.push((String::from_str("Gam"), String::from_str("γ")));
    pairs.push((String::from_str("Del"), String::from_str("δ")));
    pairs.push((String::from_str("Eps"), String::from_str("ε")));
    pairs.push((String::from_str("Zet"), String::from_str("ζ")));
    pairs.push((String::from_str("Eta"), String::from_str("η")));
    pairs.push((String::from_str("The"), String::from_str("θ")));
    pairs.push((String::from_str("Iot"), String::from_str("ι")));
    pairs.push((String::from_str("Kap"), String::from_str("κ")));
    pairs.push((String::from_str("Lam"), String::from_str("λ")));
    pairs.push((String::from_str("Mu "), String::from_str("μ")));
    pairs.push((String::from_str("Nu "), String::from_str("ν")));
    pairs.push((String::from_str("Xi "), String::from_str("ξ")));
    pairs.push((String::from_str("Omi"), String::from_str("ο")));
    pairs.push((String::from_str("Pi "), String::from_str("π")));
    pairs.push((String::from_str("Rho"), String::from_str("ρ")));
    pairs.push((String::from_str("Sig"), String::from_str("σ")));
    pairs.push((String::from_str("Tau"), String::from_str("τ")));
    pairs.push((String::from_str("Psi"), String::from_str("ψ")));
    pairs.push((String::from_str("Phi"), String::from_str("φ")));
    pairs.push((String::from_str("Ups"), String::from_str("υ")));
    pairs.push((String::from_str("Ome"), String::from_str("ω")));
    pairs.push((String::from_str("Chi"), String::from_str("χ")));
    pairs
}

/// The glyph the table pairs with `abbr`: the second half of the first
/// pair whose first half is `abbr`.
pub open spec fn glyph_for(map: Seq<(String, String)>, abbr: Seq<char>) -> Option<Seq<char>>
    decreases map.len(),
{
    if map.len() == 0 {
        None
    } else if map[0].0@ == abbr {
        Some(map[0].1@)
    } else {
        glyph_for(map.skip(1), abbr)
    }
}

/// Look an abbreviation up in the conversion table.
fn find_glyph(map: &Vec<(String, String)>, abbr: &String) -> (r: Option<String>)
    ensures
        ({
            match r {
                Some(g) => glyph_for(map@, abbr@) == Some(g@),
                None => glyph_for(map@, abbr@) == None::<Seq<char>>,
            }
        }),
{
    let n = map.len();
    let mut i: usize = 0;
    proof {
        assert(map@.skip(0) =~= map@);
    }
    while i < n
        invariant
            n == map@.len(),
            i <= n,
            glyph_for(map@, abbr@) == glyph_for(map@.skip(i as int), abbr@),
        decreases n - i,
    {
        proof {
            assert(map@.skip(i as int)[0] == map@[i as int]);
            assert(map@.skip(i as int).skip(1) =~= map@.skip(i as int + 1));
        }
        if map[i].0.eq(abbr) {
            return Some(map[i].1.clone());
        }
        i = i + 1;
    }
    proof {
        assert(map@.skip(n as int).len() == 0);
    }
    None
}

/// The decimal digits of `v`, most significant first, no leading
/// zeroes (a single `0` for zero).
pub open spec fn int_digits(v: int) -> Seq<char>
    recommends
        v >= 0,
    decreases v,
{
    if v < 10 {
        seq![digit_char(v)]
    } else {
        int_digits(v / 10).push(digit_char(v % 10))
    }
}

/// The digit character for a value below ten.
pub open spec fn digit_char(v: int) -> char
    recommends
        0 <= v <= 9,
{
    if v == 0 {
        '0'
    } else if v == 1 {
        '1'
    } else if v == 2 {
        '2'
    } else if v == 3 {
        '3'
    } else if v == 4 {
        '4'
    } else if v == 5 {
        '5'
    } else if v == 6 {
        '6'
    } else if v == 7 {
        '7'
    } else if v == 8 {
        '8'
    } else {
        '9'
    }
}

/// A magnitude in thousandths written with two decimal places, as the
/// converter prints it: the value rounded to hundredths (halves away
/// from zero), a minus sign for negative magnitudes, the integer part
/// without padding, a point, and two fraction digits.
pub open spec fn mag_text(milli: int) -> Seq<char> {
    let c = crate::fixed::round_div(crate::fixed::abs(milli), 10);
    let sign: Seq<char> = if milli < 0 {
        seq!['-']
    } else {
        Seq::empty()
    };
    sign + int_digits(c / 100) + seq!['.'] + seq![digit_char(c / 10 % 10), digit_char(c % 10)]
}

/// The single-character string for a digit.
fn digit_str(d: u32) -> (r: &'static str)
    requires
        d <= 9,
    ensures
        r@ == seq![digit_char(d as int)],
{
    proof {
        reveal_strlit("0");
        reveal_strlit("1");
        reveal_strlit("2");
        reveal_strlit("3");
        reveal_strlit("4");
        reveal_strlit("5");
        reveal_strlit("6");
        reveal_strlit("7");
        reveal_strlit("8");
        reveal_strlit("9");
        assert("0"@ =~= seq!['0']);
        assert("1"@ =~= seq!['1']);
        assert("2"@ =~= seq!['2']);
        assert("3"@ =~= seq!['3']);
        assert("4"@ =~= seq!['4']);
        assert("5"@ =~= seq!['5']);
        assert("6"@ =~= seq!['6']);
        assert("7"@ =~= seq!['7']);
        assert("8"@ =~= seq!['8']);
        assert("9"@ =~= seq!['9']);
    }
    match d {
        0 => "0",
        1 => "1",
        2 => "2",
        3 => "3",
        4 => "4",
        5 => "5",
        6 => "6",
        7 => "7",
        8 => "8",
        _ => "9",
    }
}

/// Append the decimal digits of `v` to `out`.
fn push_digits(out: &mut String, v: u32)
    ensures
        final(out)@ == old(out)@ + int_digits(v as int),
    decreases v,
{
    if v < 10 {
        out.append(digit_str(v));
    } else {
        push_digits(out, v / 10);
        let ghost mid = out@;
        out.append(digit_str(v % 10));
        proof {
            assert(out@ =~= old(out)@ + int_digits(v as int));
        }
    }
}

/// A magnitude in thousandths written with two decimal places.
fn format_mag(milli: i32) -> (r: String)
    requires
        -10_000_000 <= milli <= 10_000_000,
    ensures
        r@ == mag_text(milli as int),
{
    let a: u32 = if milli < 0 {
        (-milli) as u32
    } else {
        milli as u32
    };
    let centi: u32 = (2 * a + 10) / 20;
    proof {
        assert(centi as int == crate::fixed::round_div(crate::fixed::abs(milli as int), 10));
    }
    let mut out = String::new();
    if milli < 0 {
        out.append("-");
    }
    push_digits(&mut out, centi / 100);
    out.append(".");
    out.append(digit_str(centi / 10 % 10));
    out.append(digit_str(centi % 10));
    proof {
        reveal_strlit("-");
        reveal_strlit(".");
        assert("-"@ =~= seq!['-']);
        assert("."@ =~= seq!['.']);
        assert(out@ =~= mag_text(milli as int));
    }
    out
}

/// What converting one verbose-format line yields: the compact line for
/// a star no fainter than `max_milli`, `None` for one filtered out, or
/// the error that stops the conversion.
pub open spec fn convert_line_spec(
    map: Seq<(String, String)>,
    s: Seq<char>,
    max_milli: int,
) -> Result<Option<Seq<char>>, LineError> {
    match parse_original_spec(s) {
        Err(e) => Err(e),
        Ok(rec) => match glyph_for(map, s.subrange(7, 10)) {
            None => Err(LineError::Name),
            Some(g) => if rec.mag_milli <= max_milli {
                Ok(
                    Some(
                        g + s.subrange(10, 14) + seq![','] + s.subrange(75, 83) + seq![',']
                            + s.subrange(83, 90) + seq![','] + mag_text(rec.mag_milli),
                    ),
                )
            } else {
                Ok(None)
            },
        },
    }
}

/// Convert one verbose-format line to the compact format: the name's
/// three-letter abbreviation becomes its Greek glyph, right ascension
/// and declination are copied verbatim, and the magnitude is rewritten
/// with two decimal places.  A star fainter than `max_milli`
/// thousandths is dropped (`Ok(None)`).
pub fn convert_line(map: &Vec<(String, String)>, line: &str, max_milli: i32) -> (r: Result<
    Option<String>,
    LineError,
>)
    ensures
        ({
            let c = convert_line_spec(map@, line@, max_milli as int);
            match r {
                Ok(Some(out)) => c == Ok::<Option<Seq<char>>, LineError>(Some(out@)),
                Ok(None) => c == Ok::<Option<Seq<char>>, LineError>(None),
                Err(e) => c == Err::<Option<Seq<char>>, LineError>(e),
            }
        }),
{
    let rec = match parse_original_line(line) {
        Ok(rec) => rec,
        Err(e) => {
            return Err(e);
        },
    };
    let abbr = String::from_str(line.substring_char(7, 10));
    let glyph = match find_glyph(map, &abbr) {
        Some(g) => g,
        None => {
            return Err(LineError::Name);
        },
    };
    if rec.mag_milli > max_milli {
        return Ok(None);
    }
    let mut out = glyph;
    out.append(line.substring_char(10, 14));
    out.append(",");
    out.append(line.substring_char(75, 83));
    out.append(",");
    out.append(line.substring_char(83, 90));
    out.append(",");
    let mag = format_mag(rec.mag_milli);
    out.append(mag.as_str());
    proof {
        reveal_strlit(",");
        assert(","@ =~= seq![',']);
        assert(out@ =~= glyph_for(map@, line@.subrange(7, 10)).unwrap() + line@.subrange(10, 14)
            + seq![','] + line@.subrange(75, 83) + seq![','] + line@.subrange(83, 90) + seq![',']
            + mag_text(rec.mag_milli as int));
    }
    Ok(Some(out))
}

/// What converting a whole catalog yields: the compact lines of every
/// bright-enough star, in order, or the first error with its line
/// index.
pub open spec fn convert_lines_spec(
    map: Seq<(String, String)>,
    lines: Seq<Seq<char>>,
    max_milli: int,
) -> Result<Seq<Seq<char>>, (int, LineError)>
    decreases lines.len(),
{
    if lines.len() == 0 {
        Ok(Seq::empty())
    } else {
        match convert_lines_spec(map, lines.drop_last(), max_milli) {
            Err(e) => Err(e),
            Ok(done) => match convert_line_spec(map, lines.last(), max_milli) {
                Err(e) => Err(((lines.len() - 1) as int, e)),
                Ok(Some(out)) => Ok(done.push(out)),
                Ok(None) => Ok(done),
            },
        }
    }
}

/// The views of a vector of strings.
pub open spec fn views_of(v: Seq<String>) -> Seq<Seq<char>> {
    v.map_values(|l: String| l@)
}

/// Once the conversion of a prefix has failed, the whole conversion
/// fails the same way.
proof fn lemma_convert_lines_error(
    map: Seq<(String, String)>,
    lines: Seq<Seq<char>>,
    max_milli: int,
    j: int,
    err: (int, LineError),
)
    requires
        0 <= j <= lines.len(),
        convert_lines_spec(map, lines.take(j), max_milli) == Err::<Seq<Seq<char>>, (int, LineError)>(
            err,
        ),
    ensures
        convert_lines_spec(map, lines, max_milli) == Err::<Seq<Seq<char>>, (int, LineError)>(err),
    decreases lines.len() - j,
{
    if j == lines.len() {
        assert(lines.take(j) =~= lines);
    } else {
        assert(lines.take(j + 1).drop_last() =~= lines.take(j));
        lemma_convert_lines_error(map, lines, max_milli, j + 1, err);
    }
}

/// Convert a whole catalog, line by line: every kept star becomes one
/// compact line, in input order; a malformed line stops the conversion
/// with its index and error.
pub fn convert_lines(map: &Vec<(String, String)>, lines: &Vec<String>, max_milli: i32) -> (r:
    Result<Vec<String>, (usize, LineError)>)
    ensures
        ({
            let c = convert_lines_spec(map@, views_of(lines@), max_milli as int);
            match r {
                Ok(out) => c == Ok::<Seq<Seq<char>>, (int, LineError)>(views_of(out@)),
                Err((i, e)) => c == Err::<Seq<Seq<char>>, (int, LineError)>((i as int, e)),
            }
        }),
{
    let ghost all = views_of(lines@);
    let n = lines.len();
    let mut out: Vec<String> = Vec::new();
    let mut i: usize = 0;
    proof {
        assert(all.take(0) =~= Seq::<Seq<char>>::empty());
        assert(views_of(out@) =~= Seq::<Seq<char>>::empty());
    }
    while i < n
        invariant
            n == lines@.len(),
            i <= n,
            all == views_of(lines@),
            convert_lines_spec(map@, all.take(i as int), max_milli as int) == Ok::<
                Seq<Seq<char>>,
                (int, LineError),
            >(views_of(out@)),
        decreases n - i,
    {
        let ghost before = out@;
        proof {
            assert(all.take(i as int + 1).drop_last() =~= all.take(i as int));
            assert(all.take(i as int + 1).last() == all[i as int]);
            assert(all[i as int] == lines@[i as int]@);
        }
        match convert_line(map, lines[i].as_str(), max_milli) {
            Ok(Some(line)) => {
                out.push(line);
                proof {
                    assert(views_of(out@) =~= views_of(before).push(out@.last()@));
                }
            },
            Ok(None) => {},
            Err(e) => {
                proof {
                    lemma_convert_lines_error(
                        map@,
                        all,
                        max_milli as int,
                        i as int + 1,
                        (i as int, e),
                    );
                }
                return Err((i, e));
            },
        }
        i = i + 1;
    }
    proof {
        assert(all.take(n as int) =~= all);
    }
    Ok(out)
}

/// Round trip of the magnitude through the converter: the text the
/// converter writes for a magnitude within `±9.994` is four characters
/// after its sign, is accepted by the compact format's magnitude
/// grammar, and reads back as the magnitude rounded to hundredths.
pub proof fn lemma_mag_text_reparse(milli: int)
    requires
        crate::fixed::abs(milli) <= 9994,
    ensures
        ({
            let t = mag_text(milli);
            let body = if milli < 0 {
                t.skip(1)
            } else {
                t
            };
            &&& (milli < 0 ==> t[0] == '-')
            &&& body.len() == 4
            &&& is_mag_char(body[0])
            &&& is_mag_char(body[1])
            &&& is_mag_char(body[2])
            &&& is_mag_char(body[3])
            &&& mag4(body) == Some(10 * crate::fixed::round_div(crate::fixed::abs(milli), 10))
        }),
{
    let a = crate::fixed::abs(milli);
    let c = crate::fixed::round_div(a, 10);
    crate::fixed::lemma_round_div_close(a, 10);
    assert(0 <= c <= 999);
    vstd::arithmetic::div_mod::lemma_fundamental_div_mod(c, 100);
    vstd::arithmetic::div_mod::lemma_breakdown(c, 10, 10);
    vstd::arithmetic::div_mod::lemma_div_pos_is_pos(c, 100);
    vstd::arithmetic::div_mod::lemma_div_is_ordered(c, 999, 100);
    vstd::arithmetic::div_mod::lemma_mod_bound(c / 10, 10);
    vstd::arithmetic::div_mod::lemma_mod_bound(c, 10);
    let d0 = digit_char(c / 100);
    let d1 = digit_char(c / 10 % 10);
    let d2 = digit_char(c % 10);
    assert(c == 100 * (c / 100) + 10 * (c / 10 % 10) + c % 10);
    let t = mag_text(milli);
    let body = if milli < 0 {
        t.skip(1)
    } else {
        t
    };
    assert(int_digits(c / 100) == seq![d0]);
    assert(body =~= seq![d0, '.', d1, d2]);
    assert(is_digit(d0) && digit_val(d0) == c / 100);
    assert(is_digit(d1) && digit_val(d1) == c / 10 % 10);
    assert(is_digit(d2) && digit_val(d2) == c % 10);
    assert(mag4(body) == Some((c / 100) * 1000 + (c / 10 % 10) * 100 + (c % 10) * 10));
    assert((c / 100) * 1000 + (c / 10 % 10) * 100 + (c % 10) * 10 == 10 * c);
}

/// Decode equivalence across the conversion: a compact line written by
/// the converter parses again, and describes the same star as the
/// verbose line it came from — name abbreviation replaced by its
/// one-character glyph, right ascension and declination unchanged, and
/// the magnitude rounded to hundredths.  Magnitudes of ten or more
/// would need five characters and are left out.
pub proof fn lemma_convert_reparse(map: Seq<(String, String)>, s: Seq<char>, max_milli: int)
    requires
        parse_original_spec(s) is Ok,
        convert_line_spec(map, s, max_milli) matches Ok(out_opt) && out_opt is Some,
        glyph_for(map, s.subrange(7, 10)) matches Some(g) && g.len() == 1,
        crate::fixed::abs(parse_original_spec(s)->Ok_0.mag_milli) <= 9994,
    ensures
        ({
            let rec = parse_original_spec(s)->Ok_0;
            let out = convert_line_spec(map, s, max_milli)->Ok_0->Some_0;
            let centi10 = 10 * crate::fixed::round_div(crate::fixed::abs(rec.mag_milli), 10);
            &&& parse_converted_spec(out) is Ok
            &&& ({
                let r2 = parse_converted_spec(out)->Ok_0;
                &&& r2.name == glyph_for(map, s.subrange(7, 10))->Some_0 + s.subrange(10, 14)
                &&& r2.ra_h == rec.ra_h
                &&& r2.ra_m == rec.ra_m
                &&& r2.ra_ds == rec.ra_ds
                &&& r2.dec_neg == rec.dec_neg
                &&& r2.dec_d == rec.dec_d
                &&& r2.dec_m == rec.dec_m
                &&& r2.dec_s == rec.dec_s
                &&& r2.mag_milli == if rec.mag_milli < 0 {
                    -centi10
                } else {
                    centi10
                }
            })
        }),
{
    let rec = parse_original_spec(s)->Ok_0;
    let g = glyph_for(map, s.subrange(7, 10))->Some_0;
    let out = convert_line_spec(map, s, max_milli)->Ok_0->Some_0;
    let m = mag_text(rec.mag_milli);
    lemma_mag_text_reparse(rec.mag_milli);
    let body = if rec.mag_milli < 0 {
        m.skip(1)
    } else {
        m
    };
    assert(out == g + s.subrange(10, 14) + seq![','] + s.subrange(75, 83) + seq![','] + s.subrange(
        83,
        90,
    ) + seq![','] + m);
    assert(m.len() == if rec.mag_milli < 0 {
        5int
    } else {
        4int
    });
    assert(out.len() == 23 + m.len());
    assert forall|i: int| 0 <= i < 4 implies out[1 + i] == s.subrange(10, 14)[i] by {}
    assert(out[5] == ',');
    assert forall|i: int| 0 <= i < 8 implies out[6 + i] == s.subrange(75, 83)[i] by {}
    assert(out[14] == ',');
    assert forall|i: int| 0 <= i < 7 implies out[15 + i] == s.subrange(83, 90)[i] by {}
    assert(out[22] == ',');
    assert forall|i: int| 0 <= i < m.len() implies out[23 + i] == m[i] by {}
    assert(converted_layout_ok(out));
    if rec.mag_milli < 0 {
        assert(out[23] == '-');
        assert(out.subrange(24, 28) =~= body);
    } else {
        assert(out[23] == body[0]);
        assert(out[23] != '-');
        assert(out.subrange(23, 27) =~= body);
    }
    let r2 = parse_converted_spec(out)->Ok_0;
    assert(r2.name =~= g + s.subrange(10, 14));
    assert(r2.ra_h == two_digits(out, 6) == two_digits(s, 75));
    assert(r2.ra_m == two_digits(out, 8) == two_digits(s, 77));
    assert(r2.ra_ds == two_digits(out, 10) * 10 + digit_val(out[13]));
    assert(two_digits(out, 10) == two_digits(s, 79) && out[13] == s[82]);
    assert(out[15] == s[83]);
    assert(r2.dec_neg == rec.dec_neg);
    assert(r2.dec_d == two_digits(out, 16) == two_digits(s, 84));
    assert(r2.dec_m == two_digits(out, 18) == two_digits(s, 86));
    assert(r2.dec_s == two_digits(out, 20) == two_digits(s, 88));
}

} // verus!
