//! Client-side decisions of the command-line tool: reading fixture fields, naming
//! certificate statuses, computing session deadlines and content hashes.

use vstd::prelude::*;

use crate::bytes::{copy_bytes, str_eq, Address};
use crate::certificate::{opt_hash_view, AchievementType, AttributesView, CertificateAttributes};
use crate::escrow::SessionStatus;
use crate::hashing::{
    hex_bytes_of, is_hex_text, parse_hash_hex, sha256_bytes, sha256_spec, HashHexError,
};
use multiversx_sc_snippets::imports::Bech32Address;
use vstd::string::StringSliceAdditionalSpecFns;
use vstd::utf8::encode_utf8;

verus! {

/// The achievement type named `s`; anything unknown is a course.
pub open spec fn achievement_named(s: Seq<char>) -> AchievementType {
    if s == "Bootcamp"@ {
        AchievementType::Bootcamp
    } else if s == "Microcredential"@ {
        AchievementType::Microcredential
    } else if s == "Diploma"@ {
        AchievementType::Diploma
    } else {
        AchievementType::Course
    }
}

/// The achievement type a fixture names; anything unknown is a course.
pub fn parse_achievement_type(s: &str) -> (r: AchievementType)
    ensures
        r == achievement_named(s@),
        s@ == "Bootcamp"@ ==> r == AchievementType::Bootcamp,
        s@ == "Microcredential"@ ==> r == AchievementType::Microcredential,
        s@ == "Diploma"@ ==> r == AchievementType::Diploma,
        s@ != "Bootcamp"@ && s@ != "Microcredential"@ && s@ != "Diploma"@ ==> r
            == AchievementType::Course,
{
    proof {
        reveal_strlit("Bootcamp");
        reveal_strlit("Microcredential");
        reveal_strlit("Diploma");
        assert("Bootcamp"@.len() == 8);
        assert("Microcredential"@.len() == 15);
        assert("Diploma"@.len() == 7);
    }
    if str_eq(s, "Bootcamp") {
        AchievementType::Bootcamp
    } else if str_eq(s, "Microcredential") {
        AchievementType::Microcredential
    } else if str_eq(s, "Diploma") {
        AchievementType::Diploma
    } else {
        AchievementType::Course
    }
}

/// The name of a certificate status as the contract reports it (its position in
/// `Unknown, Active, Revoked, Expired`); `?` for any other value.
pub fn certificate_status_label(raw: u32) -> (r: &'static str)
    ensures
        raw == 0 ==> r@ == "Unknown"@,
        raw == 1 ==> r@ == "Active"@,
        raw == 2 ==> r@ == "Revoked"@,
        raw == 3 ==> r@ == "Expired"@,
        raw > 3 ==> r@ == "?"@,
{
    if raw == 0 {
        "Unknown"
    } else if raw == 1 {
        "Active"
    } else if raw == 2 {
        "Revoked"
    } else if raw == 3 {
        "Expired"
    } else {
        "?"
    }
}

/// The deadline of a session lasting `hours` from `now` (seconds).
pub fn session_deadline(now: u64, hours: u64) -> (r: u64)
    requires
        now + hours * 3600 <= u64::MAX,
    ensures
        r == now + hours * 3600,
{
    now + hours * 3600
}

/// Why a fixture's content hash could not be worked out.
#[derive(Clone, Copy, Debug, PartialEq, Eq)]
pub enum ContentHashError {
    /// `auto` was asked for, but no off-chain metadata was given.
    MissingMetadata,
    /// `auto` was asked for, but the off-chain metadata is not a JSON document.
    InvalidMetadata,
    /// The hash given is not valid hexadecimal.
    InvalidHex,
    /// The hash given does not have 32 bytes.
    WrongLength,
}

/// Whether the content hash must be computed from the off-chain metadata file.
pub fn wants_metadata_hash(spec: Option<&str>) -> (r: bool)
    ensures
        r == (spec matches Some(s) && s@ == "auto"@),
{
    match spec {
        Some(s) => str_eq(s, "auto"),
        None => false,
    }
}

/// Declares `serde_json::Value`, a parsed JSON document, as an opaque type.
#[verifier::external_type_specification]
#[verifier::external_body]
pub struct ExJsonValue(serde_json::Value);

/// The JSON value that `bytes` hold, if they are a JSON text.
pub uninterp spec fn json_value_of(bytes: Seq<u8>) -> Option<serde_json::Value>;

/// The value `v` with the entries of every object in it, at any depth, in key order.
pub uninterp spec fn json_keys_sorted(v: serde_json::Value) -> serde_json::Value;

/// The compact JSON text of `v` (no whitespace between tokens), if it can be written.
pub uninterp spec fn json_compact_text(v: serde_json::Value) -> Option<Seq<u8>>;

/// Calls `serde_json::from_slice` for a `serde_json::Value`. Trusted: the result is a
/// function of `bytes` alone, `None` where they are not a JSON text.
#[verifier::external_body]
fn json_parse(bytes: &[u8]) -> (r: Option<serde_json::Value>)
    ensures
        r == json_value_of(bytes@),
{
    serde_json::from_slice::<serde_json::Value>(bytes).ok()
}

/// Calls `serde_json::Value::sort_all_objects`. Trusted: the value afterwards is a
/// function of the value before, with the entries of every nested object in key
/// order.
#[verifier::external_body]
fn json_sort_keys(v: &mut serde_json::Value)
    ensures
        *final(v) == json_keys_sorted(*old(v)),
{
    v.sort_all_objects()
}

/// Calls `serde_json::to_vec` on a `serde_json::Value`. Trusted: the text written is a
/// function of the value alone (compact, objects in their entries' order).
#[verifier::external_body]
fn json_write(v: &serde_json::Value) -> (r: Option<Vec<u8>>)
    ensures
        match r {
            Some(t) => json_compact_text(*v) == Some(t@),
            None => json_compact_text(*v) is None,
        },
{
    serde_json::to_vec(v).ok()
}

/// The canonical form of a JSON-LD document: its compact text with the keys of every
/// object sorted; `None` where `bytes` are not JSON.
pub open spec fn canonical_json(bytes: Seq<u8>) -> Option<Seq<u8>> {
    match json_value_of(bytes) {
        Some(v) => json_compact_text(json_keys_sorted(v)),
        None => None,
    }
}

/// Computes the canonical form of a JSON-LD document: parsed, every object's keys
/// sorted, written compactly.
pub fn canonical_json_bytes(bytes: &[u8]) -> (r: Option<Vec<u8>>)
    ensures
        match r {
            Some(t) => canonical_json(bytes@) == Some(t@),
            None => canonical_json(bytes@) is None,
        },
{
    match json_parse(bytes) {
        Some(v) => {
            let mut v = v;
            json_sort_keys(&mut v);
            json_write(&v)
        },
        None => None,
    }
}

/// What a fixture's `content_hash_hex` gives: nothing when absent; for `auto`, the
/// SHA-256 of the off-chain metadata, which must then be given; otherwise the 32
/// bytes that the hexadecimal text denotes. The metadata, a JSON-LD document, is
/// hashed in canonical form: its compact text with every object's keys sorted.
pub open spec fn content_hash_spec(spec: Option<Seq<char>>, metadata: Option<Seq<u8>>) -> Result<
    Option<Seq<u8>>,
    ContentHashError,
> {
    match spec {
        None => Ok(None),
        Some(s) => if s == "auto"@ {
            match metadata {
                None => Err(ContentHashError::MissingMetadata),
                Some(m) => match canonical_json(m) {
                    Some(c) => Ok(Some(sha256_spec(c))),
                    None => Err(ContentHashError::InvalidMetadata),
                },
            }
        } else {
            let t = encode_utf8(s);
            if !is_hex_text(t) {
                Err(ContentHashError::InvalidHex)
            } else if hex_bytes_of(t).len() != 32 {
                Err(ContentHashError::WrongLength)
            } else {
                Ok(Some(hex_bytes_of(t)))
            }
        },
    }
}

/// The view of an optional string slice.
pub open spec fn opt_str_view(o: Option<&str>) -> Option<Seq<char>> {
    match o {
        Some(s) => Some(s@),
        None => None,
    }
}

/// The view of an optional byte slice.
pub open spec fn opt_slice_view(o: Option<&[u8]>) -> Option<Seq<u8>> {
    match o {
        Some(b) => Some(b@),
        None => None,
    }
}

/// The view of a content-hash result.
pub open spec fn hash_result_view(r: Result<Option<[u8; 32]>, ContentHashError>) -> Result<
    Option<Seq<u8>>,
    ContentHashError,
> {
    match r {
        Ok(h) => Ok(opt_hash_view(&h)),
        Err(e) => Err(e),
    }
}

/// The content hash of a fixture: none when not given; the SHA-256 of the canonical
/// form of the off-chain metadata for `auto`; otherwise the 32 bytes the hexadecimal
/// text denotes.
pub fn resolve_content_hash(spec: Option<&str>, metadata: Option<&[u8]>) -> (r: Result<
    Option<[u8; 32]>,
    ContentHashError,
>)
    ensures
        hash_result_view(r) == content_hash_spec(opt_str_view(spec), opt_slice_view(metadata)),
{
    match spec {
        None => Ok(None),
        Some(s) => {
            if str_eq(s, "auto") {
                match metadata {
                    None => Err(ContentHashError::MissingMetadata),
                    Some(m) => match canonical_json_bytes(m) {
                        Some(c) => Ok(Some(sha256_bytes(c.as_slice()))),
                        None => Err(ContentHashError::InvalidMetadata),
                    },
                }
            } else {
                match parse_hash_hex(s) {
                    Ok(h) => Ok(Some(h)),
                    Err(HashHexError::InvalidHex) => Err(ContentHashError::InvalidHex),
                    Err(HashHexError::WrongLength) => Err(ContentHashError::WrongLength),
                }
            }
        },
    }
}

/// The name of a session status.
pub fn session_status_label(status: SessionStatus) -> (r: &'static str)
    ensures
        status == SessionStatus::Open ==> r@ == "Open"@,
        status == SessionStatus::Completed ==> r@ == "Completed"@,
        status == SessionStatus::Disputed ==> r@ == "Disputed"@,
        status == SessionStatus::Expired ==> r@ == "Expired"@,
{
    match status {
        SessionStatus::Open => "Open",
        SessionStatus::Completed => "Completed",
        SessionStatus::Disputed => "Disputed",
        SessionStatus::Expired => "Expired",
    }
}

/// The attributes of a certificate, as a fixture file gives them.
#[derive(Clone, Debug)]
pub struct CertAttrsFixture {
    pub certificate_version: u8,
    pub name: String,
    pub program_name: String,
    pub grade: u16,
    pub credit_points: u16,
    pub creation_timestamp: u64,
    pub expiration_timestamp: u64,
    pub course_id: String,
    pub institution_name: String,
    pub instructor_name: String,
    pub verification_url: String,
    pub eqf_level: Option<u8>,
    pub ects_credits: Option<u16>,
    pub language: Option<String>,
    pub achievement_type: Option<String>,
    /// `auto` to hash the off-chain metadata; a hexadecimal hash; or absent.
    pub content_hash_hex: Option<String>,
}

/// A certificate to issue, as a fixture file describes it.
#[derive(Clone, Debug)]
pub struct CertFixture {
    pub student_address: String,
    pub token_name: String,
    pub attrs: CertAttrsFixture,
    /// Path of the off-chain metadata file, hashed when `content_hash_hex` is `auto`.
    pub metadata_offchain_path: Option<String>,
}

/// The view of an optional string.
pub open spec fn opt_string_view(o: Option<String>) -> Option<Seq<char>> {
    match o {
        Some(s) => Some(s@),
        None => None,
    }
}

/// The certificate attributes a fixture describes: every text as its UTF-8 bytes, the
/// achievement type by name, and the content hash given.
pub open spec fn fixture_attributes(f: CertAttrsFixture, content_hash: Option<Seq<u8>>) -> AttributesView {
    AttributesView {
        certificate_version: f.certificate_version,
        name: encode_utf8(f.name@),
        program_name: encode_utf8(f.program_name@),
        grade: f.grade,
        credit_points: f.credit_points,
        creation_timestamp: f.creation_timestamp,
        expiration_timestamp: f.expiration_timestamp,
        course_id: encode_utf8(f.course_id@),
        institution_name: encode_utf8(f.institution_name@),
        instructor_name: encode_utf8(f.instructor_name@),
        verification_url: encode_utf8(f.verification_url@),
        eqf_level: f.eqf_level,
        ects_credits: f.ects_credits,
        language: match f.language {
            Some(l) => Some(encode_utf8(l@)),
            None => None,
        },
        achievement_type: match f.achievement_type {
            Some(t) => Some(achievement_named(t@)),
            None => None,
        },
        content_hash,
    }
}

fn utf8_bytes(s: &String) -> (r: Vec<u8>)
    ensures
        r@ == encode_utf8(s@),
{
    copy_bytes(s.as_str().as_bytes())
}

/// Builds the certificate attributes a fixture describes, with `content_hash`.
pub fn certificate_attributes(f: &CertAttrsFixture, content_hash: Option<[u8; 32]>) -> (r:
    CertificateAttributes)
    ensures
        r@ == fixture_attributes(*f, opt_hash_view(&content_hash)),
        r.certificate_version == f.certificate_version,
        r.name@ == encode_utf8(f.name@),
        r.program_name@ == encode_utf8(f.program_name@),
        r.grade == f.grade,
        r.credit_points == f.credit_points,
        r.creation_timestamp == f.creation_timestamp,
        r.expiration_timestamp == f.expiration_timestamp,
        r.course_id@ == encode_utf8(f.course_id@),
        r.institution_name@ == encode_utf8(f.institution_name@),
        r.instructor_name@ == encode_utf8(f.instructor_name@),
        r.verification_url@ == encode_utf8(f.verification_url@),
        r.eqf_level == f.eqf_level,
        r.ects_credits == f.ects_credits,
        f.language is None ==> r.language is None,
        f.language matches Some(l) ==> (r.language matches Some(b) && b@ == encode_utf8(l@)),
        f.achievement_type is None ==> r.achievement_type is None,
        f.achievement_type matches Some(t) ==> r.achievement_type == Some(achievement_named(t@)),
        r.content_hash == content_hash,
{
    let language = match &f.language {
        Some(l) => Some(utf8_bytes(l)),
        None => None,
    };
    let achievement_type = match &f.achievement_type {
        Some(t) => Some(parse_achievement_type(t.as_str())),
        None => None,
    };
    CertificateAttributes {
        certificate_version: f.certificate_version,
        name: utf8_bytes(&f.name),
        program_name: utf8_bytes(&f.program_name),
        grade: f.grade,
        credit_points: f.credit_points,
        creation_timestamp: f.creation_timestamp,
        expiration_timestamp: f.expiration_timestamp,
        course_id: utf8_bytes(&f.course_id),
        institution_name: utf8_bytes(&f.institution_name),
        instructor_name: utf8_bytes(&f.instructor_name),
        verification_url: utf8_bytes(&f.verification_url),
        eqf_level: f.eqf_level,
        ects_credits: f.ects_credits,
        language,
        achievement_type,
        content_hash,
    }
}

/// The 32-byte account a bech32 address string denotes, if it is one.
pub uninterp spec fn bech32_account(s: Seq<char>) -> Option<Seq<u8>>;

/// Calls `Bech32Address::try_from_bech32_string`. Trusted: the result depends on the
/// string alone (bech32 decoding, which also checks that the payload has 32 bytes); it
/// is `None` exactly where decoding fails. Which strings decode is not stated.
#[verifier::external_body]
fn decode_bech32(s: &str) -> (r: Option<[u8; 32]>)
    ensures
        match r {
            Some(a) => bech32_account(s@) == Some(a@),
            None => bech32_account(s@) is None,
        },
{
    match Bech32Address::try_from_bech32_string(s.to_string()) {
        Ok(b) => Some(*b.to_address().as_array()),
        Err(_) => None,
    }
}

/// The account a bech32 address string denotes, if it is one.
pub fn parse_bech32_address(s: &str) -> (r: Option<Address>)
    ensures
        match r {
            Some(a) => bech32_account(s@) == Some(a@),
            None => bech32_account(s@) is None,
        },
{
    decode_bech32(s)
}

/// Why a certificate fixture cannot be turned into an issuance.
#[derive(Clone, Copy, Debug, PartialEq, Eq)]
pub enum FixtureError {
    /// The content hash could not be worked out.
    ContentHash(ContentHashError),
    /// The student address is not a bech32 account address.
    InvalidStudentAddress,
}

/// What `issueCertificate` is called with for a fixture.
#[derive(Debug)]
pub struct PreparedCertificate {
    pub student: Address,
    pub token_name: Vec<u8>,
    pub attrs: CertificateAttributes,
}

/// Turns a certificate fixture into the arguments of `issueCertificate`: the content
/// hash is worked out first (from `metadata`, the off-chain file's bytes, for `auto`),
/// then the student address is decoded.
pub fn prepare_certificate(f: &CertFixture, metadata: Option<&[u8]>) -> (r: Result<
    PreparedCertificate,
    FixtureError,
>)
    ensures
        ({
            let h = content_hash_spec(opt_string_view(f.attrs.content_hash_hex), opt_slice_view(metadata));
            &&& h matches Err(e) ==> r == Err::<PreparedCertificate, FixtureError>(
                FixtureError::ContentHash(e),
            )
            &&& h is Ok && bech32_account(f.student_address@) is None ==> r == Err::<
                PreparedCertificate,
                FixtureError,
            >(FixtureError::InvalidStudentAddress)
            &&& h matches Ok(hash) ==> (bech32_account(f.student_address@) matches Some(student)
                ==> (r matches Ok(p) && p.student@ == student && p.token_name@ == encode_utf8(
                f.token_name@,
            ) && p.attrs@ == fixture_attributes(f.attrs, hash)))
        }),
{
    let spec: Option<&str> = match &f.attrs.content_hash_hex {
        Some(s) => Some(s.as_str()),
        None => None,
    };
    assert(opt_str_view(spec) == opt_string_view(f.attrs.content_hash_hex));
    let hash = match resolve_content_hash(spec, metadata) {
        Ok(h) => h,
        Err(e) => {
            return Err(FixtureError::ContentHash(e));
        },
    };
    let student = match parse_bech32_address(f.student_address.as_str()) {
        Some(a) => a,
        None => {
            return Err(FixtureError::InvalidStudentAddress);
        },
    };
    let attrs = certificate_attributes(&f.attrs, hash);
    Ok(PreparedCertificate { student, token_name: utf8_bytes(&f.token_name), attrs })
}

/// Each field of the attributes a fixture describes comes from the fixture field of the
/// same name: every text as its UTF-8 bytes, every number as given, and the content
/// hash as given.
pub proof fn law_fixture_fields_keep_their_names(f: CertAttrsFixture, content_hash: Option<Seq<u8>>)
    ensures
        ({
            let a = fixture_attributes(f, content_hash);
            &&& a.certificate_version == f.certificate_version
            &&& a.name == encode_utf8(f.name@)
            &&& a.program_name == encode_utf8(f.program_name@)
            &&& a.grade == f.grade
            &&& a.credit_points == f.credit_points
            &&& a.creation_timestamp == f.creation_timestamp
            &&& a.expiration_timestamp == f.expiration_timestamp
            &&& a.course_id == encode_utf8(f.course_id@)
            &&& a.institution_name == encode_utf8(f.institution_name@)
            &&& a.instructor_name == encode_utf8(f.instructor_name@)
            &&& a.verification_url == encode_utf8(f.verification_url@)
            &&& a.eqf_level == f.eqf_level
            &&& a.ects_credits == f.ects_credits
            &&& (f.language matches Some(l) ==> a.language == Some(encode_utf8(l@)))
            &&& (f.language is None ==> a.language is None)
            &&& a.content_hash == content_hash
        }),
{
}

/// A fixture names its achievement type by the variant's own name: `Bootcamp`,
/// `Microcredential` and `Diploma` each give that type, and any other name a course.
pub proof fn law_achievement_names(s: Seq<char>)
    ensures
        s == "Bootcamp"@ ==> achievement_named(s) == AchievementType::Bootcamp,
        s == "Microcredential"@ ==> achievement_named(s) == AchievementType::Microcredential,
        s == "Diploma"@ ==> achievement_named(s) == AchievementType::Diploma,
        s != "Bootcamp"@ && s != "Microcredential"@ && s != "Diploma"@ ==> achievement_named(s)
            == AchievementType::Course,
{
    reveal_strlit("Bootcamp");
    reveal_strlit("Microcredential");
    reveal_strlit("Diploma");
    assert("Bootcamp"@.len() == 8);
    assert("Microcredential"@.len() == 15);
    assert("Diploma"@.len() == 7);
}

} // verus!
