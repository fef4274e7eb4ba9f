//! File-name synthesis and validation.
//!
//! Everything here is pure string logic: the existence checks and the
//! overwrite prompts around these names are the caller's business.

use vstd::prelude::*;
use vstd::string::*;
use crate::error::SigenError;
use crate::strutil::{
    dec_str, ends_with_exec, parse_i64, signed_dec_str, signed_int_val, split_sign,
    u64_to_string, i64_to_string,
};

verus! {

/// Bytes of a RIFF header.
pub const RIFF_HEADER_SIZE: usize = 44;

/// Output size, in bytes, above which the caller should ask before
/// writing.
pub const FILESIZE_WARN_LEVEL: usize = 1_000_000_000;

/// An output filename, and the note shown when it replaced a file.
#[derive(Clone, Debug)]
pub struct FileInfo {
    /// The output filename.
    pub name: String,
    /// A note for the report line; filled by the caller after its
    /// overwrite check.
    pub exists_msg: String,
}

/// Whether a name has a `.wav` extension on a nonempty file stem.
pub open spec fn spec_is_wav_file(s: Seq<char>) -> bool {
    s.len() >= 5 && s.skip(s.len() - 4) == ".wav"@ && s[s.len() - 5] != '/'
}

/// Checks for a `.wav` extension on a nonempty file stem.
pub fn is_wav_file(filename: &str) -> (r: bool)
    ensures
        r == spec_is_wav_file(filename@),
{
    proof {
        reveal_strlit(".wav");
    }
    let len: usize = filename.unicode_len();
    if len < 5 {
        return false;
    }
    if !ends_with_exec(filename, ".wav") {
        return false;
    }
    filename.get_char(len - 5) != '/'
}

/// Accepts exactly the names with a `.wav` extension; everything else
/// is the extension error, carrying the offending name.
pub fn validate_wav_file(filename: &str) -> (r: Result<(), SigenError>)
    ensures
        match r {
            Ok(_) => spec_is_wav_file(filename@),
            Err(e) => !spec_is_wav_file(filename@) && (e matches SigenError::NotWavFile {
                filename: f,
            } && f@ == filename@),
        },
{
    if !is_wav_file(filename) {
        return Err(SigenError::NotWavFile { filename: String::from_str(filename) });
    }
    Ok(())
}

/// The filename fragment of a frequency: empty for a disabled (negative)
/// frequency, else an underscore, the prefix, and the value in hertz
/// below a kilohertz or in whole kilohertz from there up.
pub open spec fn spec_freq_format(freq: int, prefix: Seq<char>) -> Seq<char> {
    if freq < 0 {
        Seq::empty()
    } else if freq < 1000 {
        "_"@ + prefix + dec_str(freq as nat) + "hz"@
    } else {
        "_"@ + prefix + dec_str((freq / 1000) as nat) + "khz"@
    }
}

/// Formats a frequency for a filename.
pub fn freq_format(freq: i32, prefix: &str) -> (r: String)
    ensures
        r@ == spec_freq_format(freq as int, prefix@),
{
    if freq < 0 {
        let r: String = String::new();
        proof {
            assert(r@ =~= spec_freq_format(freq as int, prefix@));
        }
        return r;
    }
    let mut r: String = String::from_str("_");
    r.append(prefix);
    if freq < 1000 {
        let digits: String = u64_to_string(freq as u64);
        r.append(digits.as_str());
        r.append("hz");
    } else {
        let digits: String = u64_to_string((freq / 1000) as u64);
        r.append(digits.as_str());
        r.append("khz");
    }
    proof {
        assert(r@ =~= spec_freq_format(freq as int, prefix@));
    }
    r
}

/// The filename fragment of a duration argument.
///
/// A whole number of seconds is shown as seconds, or as minutes and
/// seconds from a minute up; a decimal numeral is shown in truncated
/// milliseconds; anything else is echoed as typed.
pub open spec fn spec_duration_format(s: Seq<char>) -> Seq<char> {
    match signed_int_val(s) {
        Some(v) => if i32::MIN as int <= v <= i32::MAX as int {
            spec_duration_format_whole(v)
        } else {
            spec_duration_format_frac(s)
        },
        None => spec_duration_format_frac(s),
    }
}

/// The fragment of a whole number of seconds.
pub open spec fn spec_duration_format_whole(v: int) -> Seq<char> {
    if v >= 60 {
        if v % 60 == 0 {
            "_"@ + dec_str((v / 60) as nat) + "min"@
        } else {
            "_"@ + dec_str((v / 60) as nat) + "min"@ + dec_str((v % 60) as nat) + "s"@
        }
    } else {
        "_"@ + signed_dec_str(v) + "s"@
    }
}

/// The fragment of a fractional duration: truncated milliseconds when
/// they fit, the text as typed when they do not.
pub open spec fn spec_duration_format_frac(s: Seq<char>) -> Seq<char> {
    match spec_duration_msec(s) {
        Some(m) => if i32::MIN as int <= m <= i32::MAX as int {
            "_"@ + signed_dec_str(m) + "msec"@
        } else {
            "_"@ + s
        },
        None => "_"@ + s,
    }
}

/// The signed millisecond reading of a decimal numeral, which may
/// carry an exponent, truncated toward zero.
pub open spec fn spec_duration_msec(s: Seq<char>) -> Option<int> {
    if s.len() == 0 {
        None
    } else {
        let body = if s[0] == '-' || s[0] == '+' {
            s.skip(1)
        } else {
            s
        };
        match crate::strutil::sci_parts(body) {
            Some(pe) => {
                let mag = crate::strutil::shifted_val(pe.0.0, pe.0.1, pe.1 + 3) as int;
                if s[0] == '-' {
                    Some(-mag)
                } else {
                    Some(mag)
                }
            },
            None => None,
        }
    }
}

/// Formats a duration argument for a filename.
pub fn duration_format(d_cmd: &str) -> (r: String)
    ensures
        r@ == spec_duration_format(d_cmd@),
{
    match parse_i64(d_cmd) {
        Some(v) => {
            if (i32::MIN as i64) <= v && v <= (i32::MAX as i64) {
                if v >= 60 {
                    let mut r: String = String::from_str("_");
                    let minutes: String = u64_to_string((v / 60) as u64);
                    r.append(minutes.as_str());
                    r.append("min");
                    if v % 60 == 0 {
                        proof {
                            assert(r@ =~= spec_duration_format(d_cmd@));
                        }
                        return r;
                    }
                    let seconds: String = u64_to_string((v % 60) as u64);
                    r.append(seconds.as_str());
                    r.append("s");
                    proof {
                        assert(r@ =~= spec_duration_format(d_cmd@));
                    }
                    return r;
                }
                let mut r: String = String::from_str("_");
                let digits: String = i64_to_string(v);
                r.append(digits.as_str());
                r.append("s");
                proof {
                    assert(r@ =~= spec_duration_format(d_cmd@));
                }
                return r;
            }
        },
        None => {},
    }
    let sign: (bool, String) = split_sign(d_cmd);
    match crate::strutil::parse_scaled_decimal(sign.1.as_str(), 3) {
        crate::strutil::ScaledReading::Value(mag) => {
            let in_range: bool = if sign.0 {
                mag <= 2_147_483_648u128
            } else {
                mag <= 2_147_483_647u128
            };
            if in_range {
                let m: i64 = if sign.0 {
                    0i64 - (mag as i64)
                } else {
                    mag as i64
                };
                let mut r: String = String::from_str("_");
                let digits: String = i64_to_string(m);
                r.append(digits.as_str());
                r.append("msec");
                proof {
                    assert(r@ =~= spec_duration_format(d_cmd@));
                }
                return r;
            }
        },
        crate::strutil::ScaledReading::TooBig => {},
        crate::strutil::ScaledReading::Invalid => {},
    }
    let mut r: String = String::from_str("_");
    r.append(d_cmd);
    proof {
        assert(r@ =~= spec_duration_format(d_cmd@));
    }
    r
}


/// The index of the last occurrence of `c` in `s`, or minus one.
pub open spec fn last_index_of(s: Seq<char>, c: char) -> int
    decreases s.len(),
{
    if s.len() == 0 {
        -1
    } else if s[s.len() - 1] == c {
        s.len() - 1
    } else {
        last_index_of(s.take(s.len() - 1), c)
    }
}

/// Finds the last occurrence of `c` in `s`.
fn find_last(s: &str, c: char) -> (r: Option<usize>)
    ensures
        match r {
            Some(i) => i < s@.len() && last_index_of(s@, c) == i as int,
            None => last_index_of(s@, c) == -1,
        },
{
    let len: usize = s.unicode_len();
    proof {
        assert(s@.take(len as int) =~= s@);
    }
    let mut i: usize = len;
    while i > 0
        invariant
            i <= len,
            len == s@.len(),
            last_index_of(s@, c) == last_index_of(s@.take(i as int), c),
        decreases i,
    {
        proof {
            assert(s@.take(i as int).take(i - 1) =~= s@.take(i - 1));
        }
        if s.get_char(i - 1) == c {
            return Some(i - 1);
        }
        i = i - 1;
    }
    proof {
        assert(s@.take(0) =~= Seq::<char>::empty());
    }
    None
}

/// The file-name component of a path: everything after the last slash.
pub open spec fn file_name_part(s: Seq<char>) -> Seq<char> {
    s.skip(last_index_of(s, '/') + 1)
}

/// The stem of a path: its file name up to the last dot, when that dot
/// is not the first character of the name.
pub open spec fn spec_extract_stem(s: Seq<char>) -> Seq<char> {
    let name = file_name_part(s);
    let d = last_index_of(name, '.');
    if d >= 1 {
        name.take(d)
    } else {
        name
    }
}

/// Extracts the stem of a path.
pub fn extract_stem(input_filename: &str) -> (r: String)
    ensures
        r@ == spec_extract_stem(input_filename@),
{
    let len: usize = input_filename.unicode_len();
    let from: usize = match find_last(input_filename, '/') {
        Some(i) => i + 1,
        None => 0,
    };
    let name: &str = input_filename.substring_char(from, len);
    proof {
        assert(name@ =~= file_name_part(input_filename@));
    }
    match find_last(name, '.') {
        Some(d) => {
            if d >= 1 {
                let stem: &str = name.substring_char(0, d);
                proof {
                    assert(stem@ =~= spec_extract_stem(input_filename@));
                }
                String::from_str(stem)
            } else {
                String::from_str(name)
            }
        },
        None => String::from_str(name),
    }
}

/// The derived output name of a generated signal: the signal type, the
/// frequency fragments, the duration fragment, the channel fragment,
/// and the extension.
pub open spec fn spec_derived_name(
    sig_type: Seq<char>,
    start_freq: int,
    end_freq: int,
    filename_ch: Seq<char>,
    d_cmd: Seq<char>,
) -> Seq<char> {
    sig_type + spec_freq_format(start_freq, Seq::<char>::empty()) + spec_freq_format(
        end_freq,
        "to_"@,
    ) + spec_duration_format(d_cmd) + filename_ch + ".wav"@
}

/// Chooses and validates the output filename of a generated signal.
///
/// A caller-given name is taken as is; otherwise the name is derived
/// from the signal parameters.  Either name must carry a `.wav`
/// extension, or the extension error is returned with the offending
/// name.  The overwrite note is left empty: checking the disk is the
/// caller's business.
pub fn gen_file_name(
    output_filename: &Option<String>,
    sig_type: String,
    start_freq: i32,
    end_freq: i32,
    filename_ch: &str,
    d_cmd: &str,
) -> (r: Result<FileInfo, SigenError>)
    ensures
        ({
            let name_seq = match *output_filename {
                Some(n) => n@,
                None => spec_derived_name(
                    sig_type@,
                    start_freq as int,
                    end_freq as int,
                    filename_ch@,
                    d_cmd@,
                ),
            };
            match r {
                Ok(fi) => spec_is_wav_file(name_seq) && fi.name@ == name_seq && fi.exists_msg@
                    =~= Seq::<char>::empty(),
                Err(e) => !spec_is_wav_file(name_seq) && (e matches SigenError::NotWavFile {
                    filename: f,
                } && f@ == name_seq),
            }
        }),
{
    let filename: String = match output_filename {
        Some(name) => name.clone(),
        None => {
            let mut name: String = sig_type;
            let f1: String = freq_format(start_freq, "");
            let f2: String = freq_format(end_freq, "to_");
            let fd: String = duration_format(d_cmd);
            name.append(f1.as_str());
            name.append(f2.as_str());
            name.append(fd.as_str());
            name.append(filename_ch);
            name.append(".wav");
            proof {
                reveal_strlit("");
                assert(name@ =~= spec_derived_name(
                    sig_type@,
                    start_freq as int,
                    end_freq as int,
                    filename_ch@,
                    d_cmd@,
                ));
            }
            name
        },
    };
    match validate_wav_file(filename.as_str()) {
        Ok(_) => Ok(FileInfo { name: filename, exists_msg: String::new() }),
        Err(e) => Err(e),
    }
}

/// Chooses and validates the output filename of the taper command.
///
/// `Some(Some(name))` keeps the caller's nonempty name (an empty one is
/// an error); `Some(None)` overwrites the input file, and the returned
/// flag is false to tell the caller to ask before doing so even when
/// nothing is checked on disk; `None` derives `<stem>_tapered.wav` from
/// the input.  The chosen name must carry a `.wav` extension.
pub fn set_output_filename(output_filename: Option<Option<String>>, input_filename: &str) -> (r:
    Result<(FileInfo, bool), SigenError>)
    ensures
        ({
            let chosen = match output_filename {
                Some(Some(n)) => if n@.len() > 0 {
                    Some((n@, true))
                } else {
                    None
                },
                Some(None) => Some((input_filename@, false)),
                None => Some(
                    (spec_extract_stem(input_filename@) + "_tapered.wav"@, true),
                ),
            };
            match r {
                Ok(fi) => chosen matches Some(ch) && spec_is_wav_file(ch.0) && fi.0.name@ == ch.0
                    && fi.0.exists_msg@ =~= Seq::<char>::empty() && fi.1 == ch.1,
                Err(e) => match chosen {
                    Some(ch) => !spec_is_wav_file(ch.0) && (e matches SigenError::NotWavFile {
                        filename: f,
                    } && f@ == ch.0),
                    None => e matches SigenError::EmptyOutputFilename,
                },
            }
        }),
{
    let mut enable_file_exists_check: bool = true;
    let filename: String = match output_filename {
        Some(Some(name)) => {
            if name.as_str().unicode_len() == 0 {
                return Err(SigenError::EmptyOutputFilename);
            }
            name
        },
        Some(None) => {
            enable_file_exists_check = false;
            String::from_str(input_filename)
        },
        None => {
            let mut name: String = extract_stem(input_filename);
            name.append("_tapered.wav");
            name
        },
    };
    match validate_wav_file(filename.as_str()) {
        Ok(_) => Ok(
            (FileInfo { name: filename, exists_msg: String::new() }, enable_file_exists_check),
        ),
        Err(e) => Err(e),
    }
}

/// The byte size of a 16-bit WAV file holding `samples_per_ch` samples
/// in each of `num_ch` channels.
pub fn wav_output_filesize(samples_per_ch: usize, num_ch: usize) -> (r: usize)
    requires
        samples_per_ch * num_ch * 2 + RIFF_HEADER_SIZE <= usize::MAX,
    ensures
        r == samples_per_ch * num_ch * 2 + RIFF_HEADER_SIZE,
{
    samples_per_ch * num_ch * 2 + RIFF_HEADER_SIZE
}

/// Whether an output of `filesize` bytes needs the caller's
/// confirmation before it is written.
pub fn needs_filesize_warning(filesize: usize) -> (r: bool)
    ensures
        r == (filesize > FILESIZE_WARN_LEVEL),
{
    filesize > FILESIZE_WARN_LEVEL
}

} // verus!
