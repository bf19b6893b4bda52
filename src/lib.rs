//! Text signing and verification over a keyed hash or an Ed25519 key pair, a compact
//! three-segment token signed with SHA-2 digests, and the small pieces of a command-line
//! tool around them.

pub mod cli;
pub mod encoding;
pub mod error;
pub mod jwt;
pub mod pass;
pub mod text;

pub use cli::{
    check_input_name, check_output_dir, key_file_names, parse_output_format, parse_u64,
    time_in_range, verify_file, verify_input_file, verify_path, Base64DecodeOpts, Base64EncodeOpts, Base64SubCommand, CsvOpts, GenJwt,
    GenPassOpts, HttpServeOpts, HttpSubCommand, JwtSubCommand, Opts, OutPutFormat, Player,
    SubCommand, TextKeyGenerateOpts, TextSignOpts, TextSubCommand, TextVerifyOpts, ValidateJwt,
};
pub use encoding::{process_decode, process_encode, Base64Format};
pub use error::RcliError;
pub use jwt::{
    check_claims, parse_algorithm, process_gen_jwt, split_token, validate_token, Algorithm,
    JWTHeader, JWTPayload, TokenParts,
};
pub use pass::process_genpass;
pub use text::{
    generate_from_seed, parse_format, process_generate, process_text_sign, process_text_verify,
    Blake3, Ed25519Signer, Ed25519Verifier, KeyLoader, TextSign, TextSignFormat, TextVerify,
};

