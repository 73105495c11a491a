//! The calls into other crates and into the parts of std that vstd does not
//! specify. What each of these functions promises is believed, not proved.

use base64::engine::general_purpose::STANDARD;
use base64::Engine;
use rand::seq::SliceRandom;
use rand::RngCore;
use regex::Regex;
use scraper::{Html, Selector};
use sha2::{Digest, Sha256};
use vstd::prelude::*;

use crate::text;

verus! {

/// The text in lower case, by the full Unicode mapping.
pub uninterp spec fn lowercase(s: Seq<char>) -> Seq<char>;

/// `str::to_lowercase` of std. Its result is named; of a text of ASCII
/// characters alone it is said that the capitals A to Z become a to z and that
/// nothing else changes.
#[verifier::external_body]
pub(crate) fn to_lowercase(s: &str) -> (r: String)
    ensures
        r@ == lowercase(s@),
        vstd::utf8::is_ascii_chars(s@) ==> r@ == text::ascii_lower(s@),
{
    s.to_lowercase()
}

/// Whether a text is a regular expression that compiles.
pub uninterp spec fn regex_valid(pattern: Seq<char>) -> bool;

/// `regex::Regex::new`: says whether the pattern compiles.
#[verifier::external_body]
pub(crate) fn regex_compiles(pattern: &str) -> (r: bool)
    ensures
        r == regex_valid(pattern@),
{
    Regex::new(pattern).is_ok()
}

/// Whether a regular expression matches somewhere in a text.
pub uninterp spec fn regex_matches(pattern: Seq<char>, s: Seq<char>) -> bool;

/// `regex::Regex::is_match`: whether the pattern matches somewhere in the text,
/// and nothing where the pattern does not compile.
#[verifier::external_body]
pub(crate) fn regex_is_match(pattern: &str, s: &str) -> (r: Option<bool>)
    ensures
        r == if regex_valid(pattern@) {
            Some(regex_matches(pattern@, s@))
        } else {
            None
        },
{
    match Regex::new(pattern) {
        Ok(re) => Some(re.is_match(s)),
        Err(_) => None,
    }
}

/// What the first group of a regular expression holds in the leftmost match.
pub uninterp spec fn regex_group(pattern: Seq<char>, s: Seq<char>) -> Option<Seq<char>>;

/// `regex::Regex::captures` and the group with the number one of what it
/// found. There is none where the pattern does not compile or does not match.
#[verifier::external_body]
pub(crate) fn regex_first_group(pattern: &str, s: &str) -> (r: Option<String>)
    ensures
        text::opt_text(r) == regex_group(pattern@, s@),
        !regex_valid(pattern@) || !regex_matches(pattern@, s@) ==> r is None,
{
    match Regex::new(pattern) {
        Ok(re) => re.captures(s).and_then(|c| c.get(1)).map(|m| m.as_str().to_string()),
        Err(_) => None,
    }
}

/// Whether a text is a CSS selector.
pub uninterp spec fn selector_valid(selector: Seq<char>) -> bool;

/// `scraper::Selector::parse`: says whether the text parses. The selector of
/// the root element, `:root`, does.
#[verifier::external_body]
pub(crate) fn selector_parses(selector: &str) -> (r: bool)
    ensures
        r == selector_valid(selector@),
        selector@ == ":root"@ ==> r,
{
    Selector::parse(selector).is_ok()
}

/// The texts of the elements of a page that a selector picks, in the order in
/// which the parser made the elements.
pub uninterp spec fn selected_texts(body: Seq<char>, selector: Seq<char>) -> Seq<Seq<char>>;

/// `scraper::Html::select` on the parsed page, and for each element found what
/// `scraper::ElementRef::text` yields, joined. Nothing is found where the
/// selector does not parse.
#[verifier::external_body]
pub(crate) fn select_texts(body: &str, selector: &str) -> (r: Vec<String>)
    ensures
        text::texts(r@) == selected_texts(body@, selector@),
        !selector_valid(selector@) ==> r@.len() == 0,
{
    match Selector::parse(selector) {
        Ok(s) => Html::parse_document(body).select(&s).map(|e| e.text().collect()).collect(),
        Err(_) => Vec::new(),
    }
}

/// The values of one attribute of the elements of a page that a selector
/// picks, in the order in which the parser made the elements.
pub uninterp spec fn selected_attributes(
    body: Seq<char>,
    selector: Seq<char>,
    attribute: Seq<char>,
) -> Seq<Option<Seq<char>>>;

/// `scraper::Html::select` on the parsed page, and for each element found what
/// `scraper::ElementRef::attr` yields. Nothing is found where the selector does
/// not parse.
#[verifier::external_body]
pub(crate) fn select_attributes(body: &str, selector: &str, attribute: &str) -> (r: Vec<
    Option<String>,
>)
    ensures
        opt_texts(r@) == selected_attributes(body@, selector@, attribute@),
        !selector_valid(selector@) ==> r@.len() == 0,
{
    match Selector::parse(selector) {
        Ok(s) => Html::parse_document(body).select(&s).map(
            |e| e.attr(attribute).map(|v| v.to_string()),
        ).collect(),
        Err(_) => Vec::new(),
    }
}

/// `rand::seq::SliceRandom::choose` with the thread's generator: some item of
/// the list, whichever, and none where the list is empty.
#[verifier::external_body]
pub(crate) fn choose_str(items: &Vec<&'static str>) -> (r: Option<&'static str>)
    ensures
        r is None <==> items@.len() == 0,
        r matches Some(s) ==> items@.contains(s),
{
    items.choose(&mut rand::thread_rng()).copied()
}

/// The SHA-256 digest of bytes.
pub uninterp spec fn sha256_digest(data: Seq<u8>) -> Seq<u8>;

/// `sha2::Sha256::digest`: the digest, of 32 bytes.
#[verifier::external_body]
pub(crate) fn sha256(data: &[u8]) -> (r: Vec<u8>)
    ensures
        r@ == sha256_digest(data@),
        r@.len() == 32,
{
    Sha256::digest(data).to_vec()
}

/// A character as it stands between the quotes of a JSON string.
pub open spec fn json_char(c: char) -> Seq<char> {
    if c == '"' || c == '\\' {
        seq!['\\', c]
    } else if c == '\u{8}' {
        seq!['\\', 'b']
    } else if c == '\t' {
        seq!['\\', 't']
    } else if c == '\n' {
        seq!['\\', 'n']
    } else if c == '\u{c}' {
        seq!['\\', 'f']
    } else if c == '\r' {
        seq!['\\', 'r']
    } else if (c as int) < 32 {
        seq!['\\', 'u', '0', '0', text::hex_digit(c as int / 16), text::hex_digit(c as int % 16)]
    } else {
        seq![c]
    }
}

/// A text as a JSON string.
pub open spec fn json_string_of(s: Seq<char>) -> Seq<char> {
    seq!['"'] + s.map_values(|c: char| json_char(c)).flatten() + seq!['"']
}

/// `serde_json::to_string` of a string: the text between quotes, with quotes,
/// backslashes and control characters escaped.
#[verifier::external_body]
pub(crate) fn json_string(s: &str) -> (r: String)
    ensures
        r@ == json_string_of(s@),
{
    serde_json::to_string(s).unwrap_or_default()
}

/// A character that a CSV field cannot hold outside quotes.
pub open spec fn csv_special(c: char) -> bool {
    c == ',' || c == '"' || c == '\r' || c == '\n'
}

/// A field as it stands in a line of CSV: between quotes where it holds a
/// special character, with its own quotes doubled.
pub open spec fn csv_field(s: Seq<char>) -> Seq<char> {
    if exists|i: int| 0 <= i < s.len() && csv_special(#[trigger] s[i]) {
        seq!['"'] + text::replace_all(s, seq!['"'], seq!['"', '"']) + seq!['"']
    } else {
        s
    }
}

/// A line of CSV.
pub open spec fn csv_line(fields: Seq<Seq<char>>) -> Seq<char> {
    text::joined(fields.map_values(|f: Seq<char>| csv_field(f)), seq![',']) + seq!['\n']
}

/// `csv::Writer::write_record` on a new writer of the default kind: the fields
/// with commas between them, each quoted where it has to be, and a line feed.
/// A record of one field is left out: where that field is empty the writer puts
/// quotes in its place.
#[verifier::external_body]
pub(crate) fn csv_record(fields: &Vec<String>) -> (r: String)
    requires
        fields@.len() >= 2,
    ensures
        r@ == csv_line(text::texts(fields@)),
{
    let mut writer = csv::Writer::from_writer(Vec::new());
    let _ = writer.write_record(fields);
    String::from_utf8(writer.into_inner().unwrap_or_default()).unwrap_or_default()
}

/// What went wrong in deriving a key.
#[verifier::external_type_specification]
#[verifier::external_body]
pub struct ExArgon2Error(argon2::Error);

/// The Argon2id tag, version 0x13, of a password under a salt.
pub uninterp spec fn argon2id(
    password: Seq<u8>,
    salt: Seq<u8>,
    memory_kib: u32,
    passes: u32,
    lanes: u32,
    len: nat,
) -> Seq<u8>;

/// `argon2::Argon2::hash_password_into` for Argon2id, version 0x13: a tag of
/// `len` bytes, and an error only where the password is longer than the
/// algorithm takes. The parameters are those that `argon2::Params::new` takes.
/// Nothing is said of how the tags of different passwords or salts differ.
#[verifier::external_body]
pub(crate) fn argon2_hash(
    password: &[u8],
    salt: &[u8],
    memory_kib: u32,
    passes: u32,
    lanes: u32,
    len: usize,
) -> (r: Result<Vec<u8>, argon2::Error>)
    requires
        8 <= memory_kib,
        1 <= passes,
        1 <= lanes <= 0xff_ffff,
        8 * lanes <= memory_kib,
        4 <= len <= 0xffff_ffff,
        8 <= salt@.len() <= 0xffff_ffff,
    ensures
        r is Ok <==> password@.len() <= 0xffff_ffff,
        r matches Ok(tag) ==> tag@.len() == len && tag@ == argon2id(
            password@,
            salt@,
            memory_kib,
            passes,
            lanes,
            len as nat,
        ),
{
    let params = argon2::Params::new(memory_kib, passes, lanes, Some(len))?;
    let mut tag = vec![0u8; len];
    argon2::Argon2::new(argon2::Algorithm::Argon2id, argon2::Version::V0x13, params)
        .hash_password_into(password, salt, &mut tag)?;
    Ok(tag)
}

/// `rand::RngCore::fill_bytes` with the thread's generator: sixteen bytes,
/// whichever. Nothing is said of how two calls differ.
#[verifier::external_body]
pub(crate) fn random_bytes() -> (r: [u8; 16]) {
    let mut bytes = [0u8; 16];
    rand::thread_rng().fill_bytes(&mut bytes);
    bytes
}

/// The character for six bits in the standard alphabet of Base64.
pub open spec fn base64_digit(n: int) -> char {
    if n < 26 {
        ('A' as int + n) as char
    } else if n < 52 {
        ('a' as int + (n - 26)) as char
    } else if n < 62 {
        ('0' as int + (n - 52)) as char
    } else if n == 62 {
        '+'
    } else {
        '/'
    }
}

/// Bytes in padded Base64: four characters for three bytes.
pub open spec fn base64_of(b: Seq<u8>) -> Seq<char>
    decreases b.len(),
{
    if b.len() == 0 {
        Seq::empty()
    } else {
        let b0 = b[0] as int;
        let b1 = if b.len() > 1 { b[1] as int } else { 0 };
        let b2 = if b.len() > 2 { b[2] as int } else { 0 };
        let quad = seq![
            base64_digit(b0 / 4),
            base64_digit(b0 % 4 * 16 + b1 / 16),
            if b.len() > 1 { base64_digit(b1 % 16 * 4 + b2 / 64) } else { '=' },
            if b.len() > 2 { base64_digit(b2 % 64) } else { '=' },
        ];
        if b.len() <= 3 {
            quad
        } else {
            quad + base64_of(b.skip(3))
        }
    }
}

/// What went wrong in reading Base64.
#[verifier::external_type_specification]
#[verifier::external_body]
pub struct ExDecodeError(base64::DecodeError);

/// `base64::Engine::encode` of the standard engine. Bytes that would fill more
/// than a third of the address space are left out.
#[verifier::external_body]
pub(crate) fn base64_encode(bytes: &[u8]) -> (r: String)
    requires
        bytes@.len() <= usize::MAX / 4,
    ensures
        r@ == base64_of(bytes@),
{
    STANDARD.encode(bytes)
}

/// `base64::Engine::decode` of the standard engine: the bytes whose padded
/// Base64 the text is, and an error where it is that of no bytes.
#[verifier::external_body]
pub(crate) fn base64_decode(s: &str) -> (r: Result<Vec<u8>, base64::DecodeError>)
    ensures
        match r {
            Ok(v) => base64_of(v@) == s@,
            Err(_) => forall|v: Seq<u8>| #[trigger] base64_of(v) != s@,
        },
{
    STANDARD.decode(s)
}

/// A text in the shape of a UUID: groups of lower-case hexadecimal digits, with
/// hyphens between them.
pub open spec fn uuid_shaped(s: Seq<char>) -> bool {
    &&& s.len() == 36
    &&& forall|i: int|
        0 <= i < 36 ==> if i == 8 || i == 13 || i == 18 || i == 23 {
            #[trigger] s[i] == '-'
        } else {
            '0' <= s[i] <= '9' || 'a' <= s[i] <= 'f'
        }
}

/// `uuid::Uuid::new_v4`, printed: a UUID, whichever. Nothing is said of how two
/// calls differ.
#[verifier::external_body]
pub(crate) fn fresh_id() -> (r: String)
    ensures
        uuid_shaped(r@),
{
    uuid::Uuid::new_v4().to_string()
}

/// `time::OffsetDateTime::now_utc`, printed: the time of the machine's clock, of
/// which nothing is said.
#[verifier::external_body]
pub(crate) fn utc_now() -> (r: String) {
    time::OffsetDateTime::now_utc().to_string()
}

/// An optional text as std's `Debug` prints it.
pub uninterp spec fn debug_text(o: Option<Seq<char>>) -> Seq<char>;

/// std's `Debug` of an optional text: `None`, or the text in quotes with
/// escapes, between `Some(` and a bracket.
#[verifier::external_body]
pub(crate) fn show_optional(o: &Option<String>) -> (r: String)
    ensures
        r@ == debug_text(text::opt_text(*o)),
        o is None ==> r@ == "None"@,
        o is Some ==> text::starts_with(r@, "Some(\""@),
{
    format!("{:?}", o)
}

/// The texts of a list of optional strings.
pub open spec fn opt_texts(v: Seq<Option<String>>) -> Seq<Option<Seq<char>>> {
    v.map_values(|o: Option<String>| text::opt_text(o))
}

} // verus!
