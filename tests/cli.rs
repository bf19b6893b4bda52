
use rcli::{
    check_input_name, check_output_dir, key_file_names, parse_output_format, parse_u64,
    process_decode, process_encode, process_genpass, time_in_range, verify_file, verify_input_file, verify_path, Base64Format, CsvOpts,
    OutPutFormat, RcliError, TextSignFormat,
};

#[test]
fn mod_test_verify_input_file() {
    assert_eq!(verify_file("-"), Ok("-".into()));
    assert_eq!(verify_file("*"), Err("File doesn't exist".into()));
    assert_eq!(verify_file("src/lib.rs"), Ok("src/lib.rs".into()));
}

#[test]
fn test_verify_input_file() {
    assert_eq!(verify_input_file("-"), Ok("-".into()));
    assert_eq!(verify_input_file("*"), Err("File doesn't exist".into()));
    assert_eq!(verify_input_file("src/lib.rs"), Ok("src/lib.rs".into()));
}

#[test]
fn input_name_decision() {
    assert_eq!(check_input_name("-", false), Ok("-".to_string()));
    assert_eq!(check_input_name("a.txt", true), Ok("a.txt".to_string()));
    assert_eq!(check_input_name("a.txt", false), Err("File doesn't exist".to_string()));
}

#[test]
fn output_dir_decision() {
    assert_eq!(check_output_dir("d", true, true), Ok("d".to_string()));
    let refused = Err("Path doesn't exist or is not a directory");
    assert_eq!(check_output_dir("d", true, false), refused);
    assert_eq!(check_output_dir("d", false, false), refused);
}

#[test]
fn unsigned_parse() {
    assert_eq!(parse_u64("0"), Some(0));
    assert_eq!(parse_u64("007"), Some(7));
    assert_eq!(parse_u64("+12"), Some(12));
    assert_eq!(parse_u64("18446744073709551615"), Some(u64::MAX));
    assert_eq!(parse_u64("18446744073709551616"), None);
    assert_eq!(parse_u64("99999999999999999999"), None);
    assert_eq!(parse_u64(""), None);
    assert_eq!(parse_u64("+"), None);
    assert_eq!(parse_u64("++1"), None);
    assert_eq!(parse_u64(" 1"), None);
    assert_eq!(parse_u64("1a"), None);
    for text in ["1", "42", "+3", "-4", "", "123456789012345"] {
        assert_eq!(parse_u64(text), text.parse::<u64>().ok(), "{}", text);
    }
}

#[test]
fn error_messages() {
    assert_eq!(RcliError::TokenFormat.message(), "invalid token");
    assert_eq!(RcliError::InvalidIat.message(), "invalid iat");
    assert_eq!(RcliError::InvalidExp.message(), "invalid exp");
    assert_eq!(RcliError::InvalidNbf.message(), "invalid nbf");
    assert_eq!(RcliError::KeyFormat.message(), "invalid key length");
    assert_eq!(RcliError::Encoding.message(), "invalid encoding");
}

#[test]
fn output_path_must_be_a_directory() {
    assert_eq!(verify_path("."), Ok(".".to_string()));
    assert_eq!(verify_path("src/lib.rs"), Err("Path doesn't exist or is not a directory"));
    assert_eq!(verify_path("no/such/dir"), Err("Path doesn't exist or is not a directory"));
}

#[test]
fn test_encode() {
    let input = b"[package]\nname = \"rcli\"\n";
    let format = Base64Format::UrlSafe;
    assert_eq!(process_encode(input, format), "W3BhY2thZ2VdCm5hbWUgPSAicmNsaSIK");
}

#[test]
fn test_decode() {
    let input = "W3BhY2thZ2VdCm5hbWUgPSAicmNsaSIK\n";
    let format = Base64Format::UrlSafe;
    assert_eq!(process_decode(input, format).unwrap(), b"[package]\nname = \"rcli\"\n".to_vec());
}

#[test]
fn base64_formats() {
    assert_eq!(process_encode(b"hello", Base64Format::Standard), "aGVsbG8=");
    assert_eq!(process_encode(b"hello", Base64Format::UrlSafe), "aGVsbG8");
    assert_eq!(process_encode(&[0xfb, 0xff], Base64Format::UrlSafe), "-_8");
    assert_eq!(process_encode(&[0xfb, 0xff], Base64Format::Standard), "+/8=");
    let encoded = process_encode(b"round trip", Base64Format::UrlSafe);
    assert_eq!(process_decode(&format!(" {}\n", encoded), Base64Format::UrlSafe), Ok(b"round trip".to_vec()));
    assert_eq!(process_decode("  aGVsbG8=\n", Base64Format::Standard), Ok(b"hello".to_vec()));
    assert_eq!(process_decode("aGVsbG8", Base64Format::Standard), Err(RcliError::Encoding));
    assert_eq!(process_decode("aGVsbG8=", Base64Format::UrlSafe), Err(RcliError::Encoding));
    assert_eq!(process_decode("", Base64Format::UrlSafe), Ok(vec![]));
}

#[test]
fn time_claims_parse() {
    assert_eq!(time_in_range("42"), Ok(42));
    assert_eq!(time_in_range("+7"), Ok(7));
    assert_eq!(time_in_range("18446744073709551615"), Ok(u64::MAX));
    assert_eq!(time_in_range("18446744073709551616"), Err("time must be a number".to_string()));
    assert_eq!(time_in_range("abc"), Err("time must be a number".to_string()));
    assert_eq!(time_in_range("-1"), Err("time must be a number".to_string()));
    assert_eq!(time_in_range("0"), Err("time must be greater than 0".to_string()));
}

#[test]
fn output_formats() {
    assert_eq!(parse_output_format("json"), Ok(OutPutFormat::Json));
    assert_eq!(parse_output_format("YAML"), Ok(OutPutFormat::Yaml));
    assert_eq!(parse_output_format("Toml"), Ok(OutPutFormat::Toml));
    assert_eq!(parse_output_format("xml"), Err(RcliError::UnknownName));
    let opts = CsvOpts {
        input: "in.csv".to_string(),
        output: None,
        format: OutPutFormat::Yaml,
        delimiter: ',',
        header: true,
    };
    assert_eq!(opts.output_path(), "output.yaml");
    let named = CsvOpts { output: Some("x.json".to_string()), ..opts };
    assert_eq!(named.output_path(), "x.json");
}

#[test]
fn key_files() {
    assert_eq!(key_file_names(TextSignFormat::Blake3), vec!["blake3.txt"]);
    assert_eq!(key_file_names(TextSignFormat::Ed25519), vec!["ed25519.sk", "ed25519.pk"]);
}

#[test]
fn passwords_have_length_and_classes() {
    let p = process_genpass(16, true, true, true, true);
    assert_eq!(p.len(), 16);
    assert!(p.iter().any(|c| c.is_ascii_uppercase()));
    assert!(p.iter().any(|c| c.is_ascii_lowercase()));
    assert!(p.iter().any(|c| c.is_ascii_digit()));
    assert!(p.iter().any(|c| c.is_ascii_punctuation()));
    assert!(!p.contains(&b'O') && !p.contains(&b'0') && !p.contains(&b'l') && !p.contains(&b'i'));
    let digits = process_genpass(8, false, false, true, false);
    assert_eq!(digits.len(), 8);
    assert!(digits.iter().all(|c| (b'1'..=b'9').contains(c)));
    assert!(process_genpass(0, false, false, false, false).is_empty());
}
