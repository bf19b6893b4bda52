use vstd::prelude::*;

use crate::encoding::{text_eq, Base64Format};
use crate::jwt::{JWTHeader, JWTPayload};
use crate::text::TextSignFormat;

verus! {

/// `s` in lower case.
pub uninterp spec fn lower_of(s: Seq<char>) -> Seq<char>;

/// The value of a string of decimal digits.
pub open spec fn digits_value(s: Seq<char>) -> nat
    decreases s.len(),
{
    if s.len() == 0 {
        0
    } else {
        digits_value(s.drop_last()) * 10 + ((s.last() as u32 - '0' as u32) as nat)
    }
}

/// Whether `s` is a non-empty string of decimal digits.
pub open spec fn all_digits(s: Seq<char>) -> bool {
    s.len() > 0 && forall|i: int| 0 <= i < s.len() ==> '0' <= #[trigger] s[i] && s[i] <= '9'
}

/// The unsigned integer that `s` spells: decimal digits after an optional '+', with a
/// value that fits in 64 bits.
pub open spec fn parsed_u64(s: Seq<char>) -> Option<u64> {
    let t = if s.len() > 0 && s[0] == '+' { s.drop_first() } else { s };
    if all_digits(t) && digits_value(t) <= u64::MAX {
        Some(digits_value(t) as u64)
    } else {
        None
    }
}

proof fn lemma_digits_value_bound(t: Seq<char>, k: int)
    requires
        0 <= k <= t.len(),
    ensures
        digits_value(t.subrange(0, k)) <= digits_value(t),
    decreases t.len() - k,
{
    if k < t.len() {
        lemma_digits_value_bound(t, k + 1);
        assert(t.subrange(0, k + 1).drop_last() == t.subrange(0, k));
    } else {
        assert(t.subrange(0, k) == t);
    }
}

proof fn lemma_digits_value_grows(t: Seq<char>, k: int)
    requires
        0 <= k < t.len(),
        all_digits(t),
    ensures
        digits_value(t.subrange(0, k + 1)) >= digits_value(t.subrange(0, k)) * 10,
{
    assert(t.subrange(0, k + 1).drop_last() == t.subrange(0, k));
}

/// Reads an unsigned integer the way `str::parse::<u64>` does: decimal digits after an
/// optional '+', with a value that fits in 64 bits.
pub fn parse_u64(s: &str) -> (r: Option<u64>)
    ensures
        r == parsed_u64(s@),
{
    let n = s.unicode_len();
    let mut i: usize = 0;
    if n > 0 && s.get_char(0) == '+' {
        i = 1;
    }
    let ghost t = if s@.len() > 0 && s@[0] == '+' { s@.drop_first() } else { s@ };
    let ghost first = i as int;
    assert(t == s@.subrange(first, n as int));
    if i == n {
        return None;
    }
    let mut value: u64 = 0;
    while i < n
        invariant
            n == s@.len(),
            0 <= first <= i <= n,
            t == s@.subrange(first, n as int),
            t == (if s@.len() > 0 && s@[0] == '+' { s@.drop_first() } else { s@ }),
            t.len() > 0,
            forall|k: int| 0 <= k < i - first ==> '0' <= #[trigger] t[k] && t[k] <= '9',
            value as nat == digits_value(t.subrange(0, i - first)),
        decreases n - i,
    {
        let c = s.get_char(i);
        let ghost k: int = i - first;
        assert(t[k] == s@[first + k]);
        assert(first + k == i);
        assert(t[k] == c);
        if c < '0' || c > '9' {
            assert(!all_digits(t));
            assert(parsed_u64(s@) == None::<u64>);
            return None;
        }
        let d = (c as u32 - '0' as u32) as u64;
        assert(t.subrange(0, k + 1).drop_last() == t.subrange(0, k));
        assert(t.subrange(0, k + 1).last() == c);
        if value > (u64::MAX - d) / 10 {
            proof {
                assert(value * 10 + d > u64::MAX) by (nonlinear_arith)
                    requires
                        value > (u64::MAX - d) / 10,
                        d <= 9,
                ;
                assert(digits_value(t.subrange(0, k + 1)) == digits_value(t.subrange(0, k)) * 10
                    + d);
                assert(digits_value(t.subrange(0, k + 1)) > u64::MAX);
                lemma_digits_value_bound(t, k + 1);
                assert(digits_value(t) > u64::MAX);
                assert(parsed_u64(s@) == None::<u64>);
            }
            return None;
        }
        proof {
            assert(value * 10 + d <= u64::MAX) by (nonlinear_arith)
                requires
                    value <= (u64::MAX - d) / 10,
                    d <= 9,
            ;
        }
        value = value * 10 + d;
        i = i + 1;
    }
    assert(t.subrange(0, n - first) == t);
    Some(value)
}

/// Relies on `str::to_lowercase`: the result depends on the characters alone.
#[verifier::external_body]
fn lowercase(s: &str) -> (r: String)
    ensures
        r@ == lower_of(s@),
{
    s.to_lowercase()
}

/// Relies on `std::path::Path::exists`: whether the path names something on disk. The
/// answer depends on the file system, so nothing is known of it.
#[verifier::external_body]
fn path_exists(path: &str) -> (r: bool) {
    std::path::Path::new(path).exists()
}

/// Relies on `std::path::Path::is_dir`: whether the path names a directory on disk. The
/// answer depends on the file system, so nothing is known of it.
#[verifier::external_body]
fn path_is_dir(path: &str) -> (r: bool) {
    std::path::Path::new(path).is_dir()
}

/// Decides on an input file name, given whether the path exists: "-" (standard input)
/// and existing paths are accepted.
pub fn check_input_name(filename: &str, exists: bool) -> (r: Result<String, String>)
    ensures
        match r {
            Ok(s) => s@ == filename@ && (filename@ == "-"@ || exists),
            Err(m) => m@ == "File doesn't exist"@ && filename@ != "-"@ && !exists,
        },
{
    if text_eq(filename, "-") || exists {
        Ok(String::from_str(filename))
    } else {
        Err(String::from_str("File doesn't exist"))
    }
}

/// Decides on an output directory, given whether the path exists and whether it is a
/// directory: only an existing directory is accepted.
pub fn check_output_dir(path: &str, exists: bool, is_dir: bool) -> (r: Result<
    String,
    &'static str,
>)
    ensures
        match r {
            Ok(s) => s@ == path@ && exists && is_dir,
            Err(m) => m@ == "Path doesn't exist or is not a directory"@ && !(exists && is_dir),
        },
{
    if exists && is_dir {
        Ok(String::from_str(path))
    } else {
        Err("Path doesn't exist or is not a directory")
    }
}

/// Accepts an input file name: "-" (standard input) or a path that exists on disk.
/// "-" is accepted without asking the disk.
pub fn verify_file(filename: &str) -> (r: Result<String, String>)
    ensures
        match r {
            Ok(s) => s@ == filename@,
            Err(m) => m@ == "File doesn't exist"@ && filename@ != "-"@,
        },
        filename@ == "-"@ ==> r is Ok,
{
    let exists = if text_eq(filename, "-") {
        true
    } else {
        path_exists(filename)
    };
    check_input_name(filename, exists)
}

/// Accepts an input file name as `verify_file` does: "-" or a path that exists on disk.
pub fn verify_input_file(filename: &str) -> (r: Result<String, String>)
    ensures
        match r {
            Ok(s) => s@ == filename@,
            Err(m) => m@ == "File doesn't exist"@ && filename@ != "-"@,
        },
        filename@ == "-"@ ==> r is Ok,
{
    verify_file(filename)
}

/// Accepts an output directory: a path that exists on disk and is a directory.
pub fn verify_path(path: &str) -> (r: Result<String, &'static str>)
    ensures
        match r {
            Ok(s) => s@ == path@,
            Err(m) => m@ == "Path doesn't exist or is not a directory"@,
        },
{
    let exists = path_exists(path);
    let is_dir = path_is_dir(path);
    check_output_dir(path, exists, is_dir)
}

/// Reads a time claim: a decimal number greater than 0.
pub fn time_in_range(input: &str) -> (r: Result<u64, String>)
    ensures
        match parsed_u64(input@) {
            None => r matches Err(m) && m@ == "time must be a number"@,
            Some(t) => if t > 0 {
                r == Ok::<u64, String>(t)
            } else {
                r matches Err(m) && m@ == "time must be greater than 0"@
            },
        },
{
    match parse_u64(input) {
        None => Err(String::from_str("time must be a number")),
        Some(t) => if t > 0 {
            Ok(t)
        } else {
            Err(String::from_str("time must be greater than 0"))
        },
    }
}

/// The formats that a CSV file can be converted to.
#[derive(Debug, Clone, Copy, PartialEq, Eq, Structural)]
pub enum OutPutFormat {
    Json,
    Yaml,
    Toml,
}

/// The name of an output format.
pub open spec fn output_format_name(f: OutPutFormat) -> Seq<char> {
    match f {
        OutPutFormat::Json => "json"@,
        OutPutFormat::Yaml => "yaml"@,
        OutPutFormat::Toml => "toml"@,
    }
}

impl OutPutFormat {
    /// The name of the format, also the extension of its files.
    pub fn as_str(&self) -> (r: &'static str)
        ensures
            r@ == output_format_name(*self),
    {
        match self {
            OutPutFormat::Json => "json",
            OutPutFormat::Yaml => "yaml",
            OutPutFormat::Toml => "toml",
        }
    }
}

/// Reads an output format from its name, in any letter case.
pub fn parse_output_format(s: &str) -> (r: Result<OutPutFormat, crate::error::RcliError>)
    ensures
        match r {
            Ok(f) => output_format_name(f) == lower_of(s@),
            Err(e) => e == crate::error::RcliError::UnknownName && lower_of(s@) != "json"@
                && lower_of(s@) != "yaml"@ && lower_of(s@) != "toml"@,
        },
{
    let lower = lowercase(s);
    if text_eq(lower.as_str(), "json") {
        Ok(OutPutFormat::Json)
    } else if text_eq(lower.as_str(), "yaml") {
        Ok(OutPutFormat::Yaml)
    } else if text_eq(lower.as_str(), "toml") {
        Ok(OutPutFormat::Toml)
    } else {
        Err(crate::error::RcliError::UnknownName)
    }
}

/// Options of the CSV conversion.
pub struct CsvOpts {
    pub input: String,
    pub output: Option<String>,
    pub format: OutPutFormat,
    pub delimiter: char,
    pub header: bool,
}

impl CsvOpts {
    /// The file to write: the one given, or `output.<format>`.
    pub fn output_path(&self) -> (r: String)
        ensures
            r@ == match self.output {
                Some(o) => o@,
                None => "output."@ + output_format_name(self.format),
            },
    {
        match &self.output {
            Some(o) => o.clone(),
            None => {
                let mut s = String::from_str("output.");
                s.append(self.format.as_str());
                s
            },
        }
    }
}

/// One row of the players table.
pub struct Player {
    pub name: String,
    pub position: String,
    pub dob: String,
    pub nationality: String,
    pub number: u8,
}

/// Options of password generation.
pub struct GenPassOpts {
    pub length: u8,
    pub uppercase: bool,
    pub lowercase: bool,
    pub number: bool,
    pub symbol: bool,
}

/// Options of base64 encoding.
pub struct Base64EncodeOpts {
    pub input: String,
    pub format: Base64Format,
}

/// Options of base64 decoding.
pub struct Base64DecodeOpts {
    pub input: String,
    pub format: Base64Format,
}

/// The base64 commands.
pub enum Base64SubCommand {
    Encode(Base64EncodeOpts),
    Decode(Base64DecodeOpts),
}

/// Options of text signing.
pub struct TextSignOpts {
    pub input: String,
    pub key: String,
    pub format: TextSignFormat,
}

/// Options of signature checking.
pub struct TextVerifyOpts {
    pub input: String,
    pub key: String,
    pub sig: String,
    pub format: TextSignFormat,
}

/// Options of key generation.
pub struct TextKeyGenerateOpts {
    pub format: TextSignFormat,
    pub output: String,
}

/// The text signing commands.
pub enum TextSubCommand {
    Sign(TextSignOpts),
    Verify(TextVerifyOpts),
    Generate(TextKeyGenerateOpts),
}

/// The file name under which each generated key is stored, in the order that
/// `process_generate` returns the keys.
pub open spec fn key_file_names_of(format: TextSignFormat) -> Seq<Seq<char>> {
    match format {
        TextSignFormat::Blake3 => seq!["blake3.txt"@],
        TextSignFormat::Ed25519 => seq!["ed25519.sk"@, "ed25519.pk"@],
    }
}

/// The file names of the generated keys of a format.
pub fn key_file_names(format: TextSignFormat) -> (r: Vec<&'static str>)
    ensures
        r@.len() == key_file_names_of(format).len(),
        forall|i: int| 0 <= i < r@.len() ==> #[trigger] r@[i]@ == key_file_names_of(format)[i],
{
    match format {
        TextSignFormat::Blake3 => vec!["blake3.txt"],
        TextSignFormat::Ed25519 => vec!["ed25519.sk", "ed25519.pk"],
    }
}

/// Options of the static file server.
pub struct HttpServeOpts {
    pub dir: String,
    pub port: u16,
}

/// The HTTP commands.
pub enum HttpSubCommand {
    Serve(HttpServeOpts),
}

/// Options of token issuance.
pub struct GenJwt {
    pub header: JWTHeader,
    pub payload: JWTPayload,
    pub secret: String,
}

/// Options of token validation.
pub struct ValidateJwt {
    pub token: String,
    pub secret: String,
}

/// The token commands.
pub enum JwtSubCommand {
    Sign(GenJwt),
    Verify(ValidateJwt),
}

/// The commands of the tool.
pub enum SubCommand {
    Csv(CsvOpts),
    GenPass(GenPassOpts),
    Base64(Base64SubCommand),
    Text(TextSubCommand),
    Http(HttpSubCommand),
    Jwt(JwtSubCommand),
}

/// The command line of the tool.
pub struct Opts {
    pub cmd: SubCommand,
}

} // verus!
