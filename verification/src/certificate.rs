use vstd::prelude::*;

use crate::codec::{
    enc_buf, enc_u16, enc_u64, enc_u8, lemma_buf_round, lemma_buf_sound, lemma_h32_round,
    lemma_h32_sound, lemma_u16_round, lemma_u16_sound, lemma_u64_round, lemma_u64_sound,
    lemma_u8_round, lemma_u8_sound, p_buf, p_h32, p_u16, p_u64, p_u8, push_buf, push_raw,
    push_u16, push_u64, push_u8, read_buf, read_h32, read_u16, read_u64, read_u8,
};

verus! {

/// Kind of achievement a certificate attests.
#[derive(Clone, Copy, Debug, PartialEq, Eq, Structural)]
pub enum AchievementType {
    Course,
    Bootcamp,
    Microcredential,
    Diploma,
}

/// On-chain certificate metadata (schema v1.0): mandatory fields first, then the
/// optional ones; the remaining metadata lives off-chain, bound by `content_hash`.
#[derive(Debug)]
pub struct CertificateAttributes {
    pub certificate_version: u8,
    pub name: Vec<u8>,
    pub program_name: Vec<u8>,
    pub grade: u16,
    pub credit_points: u16,
    pub creation_timestamp: u64,
    pub expiration_timestamp: u64,
    pub course_id: Vec<u8>,
    pub institution_name: Vec<u8>,
    pub instructor_name: Vec<u8>,
    pub verification_url: Vec<u8>,
    pub eqf_level: Option<u8>,
    pub ects_credits: Option<u16>,
    pub language: Option<Vec<u8>>,
    pub achievement_type: Option<AchievementType>,
    pub content_hash: Option<[u8; 32]>,
}

/// The values of a `CertificateAttributes`.
pub struct AttributesView {
    pub certificate_version: u8,
    pub name: Seq<u8>,
    pub program_name: Seq<u8>,
    pub grade: u16,
    pub credit_points: u16,
    pub creation_timestamp: u64,
    pub expiration_timestamp: u64,
    pub course_id: Seq<u8>,
    pub institution_name: Seq<u8>,
    pub instructor_name: Seq<u8>,
    pub verification_url: Seq<u8>,
    pub eqf_level: Option<u8>,
    pub ects_credits: Option<u16>,
    pub language: Option<Seq<u8>>,
    pub achievement_type: Option<AchievementType>,
    pub content_hash: Option<Seq<u8>>,
}

impl View for CertificateAttributes {
    type V = AttributesView;

    open spec fn view(&self) -> AttributesView {
        AttributesView {
            certificate_version: self.certificate_version,
            name: self.name@,
            program_name: self.program_name@,
            grade: self.grade,
            credit_points: self.credit_points,
            creation_timestamp: self.creation_timestamp,
            expiration_timestamp: self.expiration_timestamp,
            course_id: self.course_id@,
            institution_name: self.institution_name@,
            instructor_name: self.instructor_name@,
            verification_url: self.verification_url@,
            eqf_level: self.eqf_level,
            ects_credits: self.ects_credits,
            language: match self.language {
                Some(l) => Some(l@),
                None => None,
            },
            achievement_type: self.achievement_type,
            content_hash: match self.content_hash {
                Some(h) => Some(h@),
                None => None,
            },
        }
    }
}

// ───── optional fields and the achievement type ─────

pub open spec fn achievement_code(t: AchievementType) -> u8 {
    match t {
        AchievementType::Course => 0,
        AchievementType::Bootcamp => 1,
        AchievementType::Microcredential => 2,
        AchievementType::Diploma => 3,
    }
}

pub open spec fn achievement_of_code(c: u8) -> Option<AchievementType> {
    if c == 0 {
        Some(AchievementType::Course)
    } else if c == 1 {
        Some(AchievementType::Bootcamp)
    } else if c == 2 {
        Some(AchievementType::Microcredential)
    } else if c == 3 {
        Some(AchievementType::Diploma)
    } else {
        None
    }
}

pub open spec fn p_ach(d: Seq<u8>) -> Option<(AchievementType, Seq<u8>)> {
    match p_u8(d) {
        Some((c, r)) => match achievement_of_code(c) {
            Some(t) => Some((t, r)),
            None => None,
        },
        None => None,
    }
}

/// Reads the tag of an optional field: 0 for absent, 1 for present.
pub open spec fn p_tag(d: Seq<u8>) -> Option<(bool, Seq<u8>)> {
    match p_u8(d) {
        Some((c, r)) => if c == 0 {
            Some((false, r))
        } else if c == 1 {
            Some((true, r))
        } else {
            None
        },
        None => None,
    }
}

pub open spec fn enc_tag(present: bool) -> Seq<u8> {
    if present {
        seq![1u8]
    } else {
        seq![0u8]
    }
}

pub open spec fn p_opt_u8(d: Seq<u8>) -> Option<(Option<u8>, Seq<u8>)> {
    match p_tag(d) {
        Some((false, r)) => Some((None, r)),
        Some((true, r)) => match p_u8(r) {
            Some((v, r2)) => Some((Some(v), r2)),
            None => None,
        },
        None => None,
    }
}

pub open spec fn enc_opt_u8(o: Option<u8>) -> Seq<u8> {
    match o {
        Some(v) => enc_tag(true) + enc_u8(v),
        None => enc_tag(false),
    }
}

pub open spec fn p_opt_u16(d: Seq<u8>) -> Option<(Option<u16>, Seq<u8>)> {
    match p_tag(d) {
        Some((false, r)) => Some((None, r)),
        Some((true, r)) => match p_u16(r) {
            Some((v, r2)) => Some((Some(v), r2)),
            None => None,
        },
        None => None,
    }
}

pub open spec fn enc_opt_u16(o: Option<u16>) -> Seq<u8> {
    match o {
        Some(v) => enc_tag(true) + enc_u16(v),
        None => enc_tag(false),
    }
}

pub open spec fn p_opt_buf(d: Seq<u8>) -> Option<(Option<Seq<u8>>, Seq<u8>)> {
    match p_tag(d) {
        Some((false, r)) => Some((None, r)),
        Some((true, r)) => match p_buf(r) {
            Some((v, r2)) => Some((Some(v), r2)),
            None => None,
        },
        None => None,
    }
}

pub open spec fn enc_opt_buf(o: Option<Seq<u8>>) -> Seq<u8> {
    match o {
        Some(v) => enc_tag(true) + enc_buf(v),
        None => enc_tag(false),
    }
}

pub open spec fn p_opt_ach(d: Seq<u8>) -> Option<(Option<AchievementType>, Seq<u8>)> {
    match p_tag(d) {
        Some((false, r)) => Some((None, r)),
        Some((true, r)) => match p_ach(r) {
            Some((v, r2)) => Some((Some(v), r2)),
            None => None,
        },
        None => None,
    }
}

pub open spec fn enc_opt_ach(o: Option<AchievementType>) -> Seq<u8> {
    match o {
        Some(v) => enc_tag(true) + enc_u8(achievement_code(v)),
        None => enc_tag(false),
    }
}

pub open spec fn p_opt_h32(d: Seq<u8>) -> Option<(Option<Seq<u8>>, Seq<u8>)> {
    match p_tag(d) {
        Some((false, r)) => Some((None, r)),
        Some((true, r)) => match p_h32(r) {
            Some((v, r2)) => Some((Some(v), r2)),
            None => None,
        },
        None => None,
    }
}

pub open spec fn enc_opt_h32(o: Option<Seq<u8>>) -> Seq<u8> {
    match o {
        Some(v) => enc_tag(true) + v,
        None => enc_tag(false),
    }
}

proof fn lemma_tag_round(b: bool, rest: Seq<u8>)
    ensures
        p_tag(enc_tag(b) + rest) == Some((b, rest)),
{
    lemma_u8_round(if b { 1u8 } else { 0u8 }, rest);
    assert(enc_tag(b) =~= enc_u8(if b { 1u8 } else { 0u8 }));
}

proof fn lemma_tag_sound(d: Seq<u8>)
    ensures
        p_tag(d) matches Some((b, r)) ==> d == enc_tag(b) + r,
{
    lemma_u8_sound(d);
    if let Some((c, r)) = p_u8(d) {
        assert(enc_tag(true) =~= enc_u8(1u8));
        assert(enc_tag(false) =~= enc_u8(0u8));
    }
}

proof fn lemma_opt_u8_round(o: Option<u8>, rest: Seq<u8>)
    ensures
        p_opt_u8(enc_opt_u8(o) + rest) == Some((o, rest)),
{
    match o {
        Some(v) => {
            lemma_u8_round(v, rest);
            lemma_tag_round(true, enc_u8(v) + rest);
            assert(enc_opt_u8(o) + rest =~= enc_tag(true) + (enc_u8(v) + rest));
        },
        None => {
            lemma_tag_round(false, rest);
        },
    }
}

proof fn lemma_opt_u8_sound(d: Seq<u8>)
    ensures
        p_opt_u8(d) matches Some((o, r)) ==> d == enc_opt_u8(o) + r,
{
    lemma_tag_sound(d);
    if let Some((b, r)) = p_tag(d) {
        if b {
            lemma_u8_sound(r);
            if let Some((v, r2)) = p_u8(r) {
                assert(d =~= enc_opt_u8(Some(v)) + r2);
            }
        }
    }
}

proof fn lemma_opt_u16_round(o: Option<u16>, rest: Seq<u8>)
    ensures
        p_opt_u16(enc_opt_u16(o) + rest) == Some((o, rest)),
{
    match o {
        Some(v) => {
            lemma_u16_round(v, rest);
            lemma_tag_round(true, enc_u16(v) + rest);
            assert(enc_opt_u16(o) + rest =~= enc_tag(true) + (enc_u16(v) + rest));
        },
        None => {
            lemma_tag_round(false, rest);
        },
    }
}

proof fn lemma_opt_u16_sound(d: Seq<u8>)
    ensures
        p_opt_u16(d) matches Some((o, r)) ==> d == enc_opt_u16(o) + r,
{
    lemma_tag_sound(d);
    if let Some((b, r)) = p_tag(d) {
        if b {
            lemma_u16_sound(r);
            if let Some((v, r2)) = p_u16(r) {
                assert(d =~= enc_opt_u16(Some(v)) + r2);
            }
        }
    }
}

proof fn lemma_opt_buf_round(o: Option<Seq<u8>>, rest: Seq<u8>)
    requires
        o matches Some(v) ==> v.len() <= u32::MAX,
    ensures
        p_opt_buf(enc_opt_buf(o) + rest) == Some((o, rest)),
{
    match o {
        Some(v) => {
            lemma_buf_round(v, rest);
            lemma_tag_round(true, enc_buf(v) + rest);
            assert(enc_opt_buf(o) + rest =~= enc_tag(true) + (enc_buf(v) + rest));
        },
        None => {
            lemma_tag_round(false, rest);
        },
    }
}

proof fn lemma_opt_buf_sound(d: Seq<u8>)
    ensures
        p_opt_buf(d) matches Some((o, r)) ==> d == enc_opt_buf(o) + r && (o matches Some(v)
            ==> v.len() <= u32::MAX),
{
    lemma_tag_sound(d);
    if let Some((b, r)) = p_tag(d) {
        if b {
            lemma_buf_sound(r);
            if let Some((v, r2)) = p_buf(r) {
                assert(d =~= enc_opt_buf(Some(v)) + r2);
            }
        }
    }
}

proof fn lemma_opt_ach_round(o: Option<AchievementType>, rest: Seq<u8>)
    ensures
        p_opt_ach(enc_opt_ach(o) + rest) == Some((o, rest)),
{
    match o {
        Some(v) => {
            lemma_u8_round(achievement_code(v), rest);
            lemma_tag_round(true, enc_u8(achievement_code(v)) + rest);
            assert(enc_opt_ach(o) + rest =~= enc_tag(true) + (enc_u8(achievement_code(v)) + rest));
        },
        None => {
            lemma_tag_round(false, rest);
        },
    }
}

proof fn lemma_opt_ach_sound(d: Seq<u8>)
    ensures
        p_opt_ach(d) matches Some((o, r)) ==> d == enc_opt_ach(o) + r,
{
    lemma_tag_sound(d);
    if let Some((b, r)) = p_tag(d) {
        if b {
            lemma_u8_sound(r);
            if let Some((c, r2)) = p_u8(r) {
                if let Some(t) = achievement_of_code(c) {
                    assert(achievement_code(t) == c);
                    assert(d =~= enc_opt_ach(Some(t)) + r2);
                }
            }
        }
    }
}

proof fn lemma_opt_h32_round(o: Option<Seq<u8>>, rest: Seq<u8>)
    requires
        o matches Some(v) ==> v.len() == 32,
    ensures
        p_opt_h32(enc_opt_h32(o) + rest) == Some((o, rest)),
{
    match o {
        Some(v) => {
            lemma_h32_round(v, rest);
            lemma_tag_round(true, v + rest);
            assert(enc_opt_h32(o) + rest =~= enc_tag(true) + (v + rest));
        },
        None => {
            lemma_tag_round(false, rest);
        },
    }
}

proof fn lemma_opt_h32_sound(d: Seq<u8>)
    ensures
        p_opt_h32(d) matches Some((o, r)) ==> d == enc_opt_h32(o) + r && (o matches Some(v)
            ==> v.len() == 32),
{
    lemma_tag_sound(d);
    if let Some((b, r)) = p_tag(d) {
        if b {
            lemma_h32_sound(r);
            if let Some((v, r2)) = p_h32(r) {
                assert(d =~= enc_opt_h32(Some(v)) + r2);
            }
        }
    }
}

// ───── the whole record ─────

/// Every byte string fits a 4-byte length and a content hash has 32 bytes.
pub open spec fn encodable(a: AttributesView) -> bool {
    &&& a.name.len() <= u32::MAX
    &&& a.program_name.len() <= u32::MAX
    &&& a.course_id.len() <= u32::MAX
    &&& a.institution_name.len() <= u32::MAX
    &&& a.instructor_name.len() <= u32::MAX
    &&& a.verification_url.len() <= u32::MAX
    &&& (a.language matches Some(l) ==> l.len() <= u32::MAX)
    &&& (a.content_hash matches Some(h) ==> h.len() == 32)
}

/// The stored form of certificate attributes.
pub open spec fn encode_attributes_spec(a: AttributesView) -> Seq<u8> {
    enc_u8(a.certificate_version) + (enc_buf(a.name) + (enc_buf(a.program_name) + (enc_u16(a.grade)
        + (enc_u16(a.credit_points) + (enc_u64(a.creation_timestamp) + (enc_u64(
        a.expiration_timestamp,
    ) + (enc_buf(a.course_id) + (enc_buf(a.institution_name) + (enc_buf(a.instructor_name) + (
    enc_buf(a.verification_url) + (enc_opt_u8(a.eqf_level) + (enc_opt_u16(a.ects_credits) + (
    enc_opt_buf(a.language) + (enc_opt_ach(a.achievement_type) + enc_opt_h32(
        a.content_hash,
    )))))))))))))))
}

/// The value of one field, whichever its type.
pub enum FieldValue {
    Byte(u8),
    Short(u16),
    Long(u64),
    Bytes(Seq<u8>),
    OptByte(Option<u8>),
    OptShort(Option<u16>),
    OptBytes(Option<Seq<u8>>),
    OptKind(Option<AchievementType>),
    OptHash(Option<Seq<u8>>),
}

/// Field `k` (in declaration order) of `a`.
spec fn value_of(a: AttributesView, k: int) -> FieldValue {
    if k == 0 {
        FieldValue::Byte(a.certificate_version)
    } else if k == 1 {
        FieldValue::Bytes(a.name)
    } else if k == 2 {
        FieldValue::Bytes(a.program_name)
    } else if k == 3 {
        FieldValue::Short(a.grade)
    } else if k == 4 {
        FieldValue::Short(a.credit_points)
    } else if k == 5 {
        FieldValue::Long(a.creation_timestamp)
    } else if k == 6 {
        FieldValue::Long(a.expiration_timestamp)
    } else if k == 7 {
        FieldValue::Bytes(a.course_id)
    } else if k == 8 {
        FieldValue::Bytes(a.institution_name)
    } else if k == 9 {
        FieldValue::Bytes(a.instructor_name)
    } else if k == 10 {
        FieldValue::Bytes(a.verification_url)
    } else if k == 11 {
        FieldValue::OptByte(a.eqf_level)
    } else if k == 12 {
        FieldValue::OptShort(a.ects_credits)
    } else if k == 13 {
        FieldValue::OptBytes(a.language)
    } else if k == 14 {
        FieldValue::OptKind(a.achievement_type)
    } else {
        FieldValue::OptHash(a.content_hash)
    }
}

/// `acc` with field `k` set to `v` (left as is if `v` has another type).
spec fn store(acc: AttributesView, k: int, v: FieldValue) -> AttributesView {
    match v {
        FieldValue::Byte(x) => if k == 0 {
            AttributesView { certificate_version: x, ..acc }
        } else {
            acc
        },
        FieldValue::Short(x) => if k == 3 {
            AttributesView { grade: x, ..acc }
        } else if k == 4 {
            AttributesView { credit_points: x, ..acc }
        } else {
            acc
        },
        FieldValue::Long(x) => if k == 5 {
            AttributesView { creation_timestamp: x, ..acc }
        } else if k == 6 {
            AttributesView { expiration_timestamp: x, ..acc }
        } else {
            acc
        },
        FieldValue::Bytes(x) => if k == 1 {
            AttributesView { name: x, ..acc }
        } else if k == 2 {
            AttributesView { program_name: x, ..acc }
        } else if k == 7 {
            AttributesView { course_id: x, ..acc }
        } else if k == 8 {
            AttributesView { institution_name: x, ..acc }
        } else if k == 9 {
            AttributesView { instructor_name: x, ..acc }
        } else if k == 10 {
            AttributesView { verification_url: x, ..acc }
        } else {
            acc
        },
        FieldValue::OptByte(x) => if k == 11 {
            AttributesView { eqf_level: x, ..acc }
        } else {
            acc
        },
        FieldValue::OptShort(x) => if k == 12 {
            AttributesView { ects_credits: x, ..acc }
        } else {
            acc
        },
        FieldValue::OptBytes(x) => if k == 13 {
            AttributesView { language: x, ..acc }
        } else {
            acc
        },
        FieldValue::OptKind(x) => if k == 14 {
            AttributesView { achievement_type: x, ..acc }
        } else {
            acc
        },
        FieldValue::OptHash(x) => if k == 15 {
            AttributesView { content_hash: x, ..acc }
        } else {
            acc
        },
    }
}

/// Fields before `k` from `a`, the others from `base`.
spec fn merge(base: AttributesView, a: AttributesView, k: int) -> AttributesView {
    AttributesView {
        certificate_version: if 0 < k { a.certificate_version } else { base.certificate_version },
        name: if 1 < k { a.name } else { base.name },
        program_name: if 2 < k { a.program_name } else { base.program_name },
        grade: if 3 < k { a.grade } else { base.grade },
        credit_points: if 4 < k { a.credit_points } else { base.credit_points },
        creation_timestamp: if 5 < k { a.creation_timestamp } else { base.creation_timestamp },
        expiration_timestamp: if 6 < k { a.expiration_timestamp } else { base.expiration_timestamp },
        course_id: if 7 < k { a.course_id } else { base.course_id },
        institution_name: if 8 < k { a.institution_name } else { base.institution_name },
        instructor_name: if 9 < k { a.instructor_name } else { base.instructor_name },
        verification_url: if 10 < k { a.verification_url } else { base.verification_url },
        eqf_level: if 11 < k { a.eqf_level } else { base.eqf_level },
        ects_credits: if 12 < k { a.ects_credits } else { base.ects_credits },
        language: if 13 < k { a.language } else { base.language },
        achievement_type: if 14 < k { a.achievement_type } else { base.achievement_type },
        content_hash: if 15 < k { a.content_hash } else { base.content_hash },
    }
}

spec fn wrap_u8(r: Option<(u8, Seq<u8>)>) -> Option<(FieldValue, Seq<u8>)> {
    match r {
        Some((x, rest)) => Some((FieldValue::Byte(x), rest)),
        None => None,
    }
}

spec fn wrap_u16(r: Option<(u16, Seq<u8>)>) -> Option<(FieldValue, Seq<u8>)> {
    match r {
        Some((x, rest)) => Some((FieldValue::Short(x), rest)),
        None => None,
    }
}

spec fn wrap_u64(r: Option<(u64, Seq<u8>)>) -> Option<(FieldValue, Seq<u8>)> {
    match r {
        Some((x, rest)) => Some((FieldValue::Long(x), rest)),
        None => None,
    }
}

spec fn wrap_buf(r: Option<(Seq<u8>, Seq<u8>)>) -> Option<(FieldValue, Seq<u8>)> {
    match r {
        Some((x, rest)) => Some((FieldValue::Bytes(x), rest)),
        None => None,
    }
}

/// Reads field `k` from the front of `d`.
spec fn field_parse(d: Seq<u8>, k: int) -> Option<(FieldValue, Seq<u8>)> {
    if k == 0 {
        wrap_u8(p_u8(d))
    } else if k == 3 || k == 4 {
        wrap_u16(p_u16(d))
    } else if k == 5 || k == 6 {
        wrap_u64(p_u64(d))
    } else if k == 11 {
        match p_opt_u8(d) {
            Some((x, rest)) => Some((FieldValue::OptByte(x), rest)),
            None => None,
        }
    } else if k == 12 {
        match p_opt_u16(d) {
            Some((x, rest)) => Some((FieldValue::OptShort(x), rest)),
            None => None,
        }
    } else if k == 13 {
        match p_opt_buf(d) {
            Some((x, rest)) => Some((FieldValue::OptBytes(x), rest)),
            None => None,
        }
    } else if k == 14 {
        match p_opt_ach(d) {
            Some((x, rest)) => Some((FieldValue::OptKind(x), rest)),
            None => None,
        }
    } else if k == 15 {
        match p_opt_h32(d) {
            Some((x, rest)) => Some((FieldValue::OptHash(x), rest)),
            None => None,
        }
    } else {
        wrap_buf(p_buf(d))
    }
}

/// Reads fields `k` onwards into `acc`; nothing may be left over.
#[verifier::opaque]
spec fn parse_from(d: Seq<u8>, acc: AttributesView, k: int) -> Option<AttributesView>
    decreases 16 - k,
{
    if k >= 16 {
        if d.len() == 0 {
            Some(acc)
        } else {
            None
        }
    } else {
        match field_parse(d, k) {
            Some((v, rest)) => parse_from(rest, store(acc, k, v), k + 1),
            None => None,
        }
    }
}

/// An arbitrary starting record for the parser.
spec fn seed() -> AttributesView {
    AttributesView {
        certificate_version: 0,
        name: Seq::empty(),
        program_name: Seq::empty(),
        grade: 0,
        credit_points: 0,
        creation_timestamp: 0,
        expiration_timestamp: 0,
        course_id: Seq::empty(),
        institution_name: Seq::empty(),
        instructor_name: Seq::empty(),
        verification_url: Seq::empty(),
        eqf_level: None,
        ects_credits: None,
        language: None,
        achievement_type: None,
        content_hash: None,
    }
}

spec fn parse_attributes(d: Seq<u8>) -> Option<AttributesView> {
    parse_from(d, seed(), 0)
}

/// The stored form of field `k` (in declaration order) of `a`.
spec fn field_enc(a: AttributesView, k: int) -> Seq<u8> {
    if k == 0 {
        enc_u8(a.certificate_version)
    } else if k == 1 {
        enc_buf(a.name)
    } else if k == 2 {
        enc_buf(a.program_name)
    } else if k == 3 {
        enc_u16(a.grade)
    } else if k == 4 {
        enc_u16(a.credit_points)
    } else if k == 5 {
        enc_u64(a.creation_timestamp)
    } else if k == 6 {
        enc_u64(a.expiration_timestamp)
    } else if k == 7 {
        enc_buf(a.course_id)
    } else if k == 8 {
        enc_buf(a.institution_name)
    } else if k == 9 {
        enc_buf(a.instructor_name)
    } else if k == 10 {
        enc_buf(a.verification_url)
    } else if k == 11 {
        enc_opt_u8(a.eqf_level)
    } else if k == 12 {
        enc_opt_u16(a.ects_credits)
    } else if k == 13 {
        enc_opt_buf(a.language)
    } else if k == 14 {
        enc_opt_ach(a.achievement_type)
    } else if k == 15 {
        enc_opt_h32(a.content_hash)
    } else {
        Seq::empty()
    }
}

/// The stored form of fields `k` onwards.
#[verifier::opaque]
spec fn enc_tail(a: AttributesView, k: int) -> Seq<u8>
    decreases 16 - k,
{
    if k >= 16 {
        Seq::empty()
    } else {
        field_enc(a, k) + enc_tail(a, k + 1)
    }
}

proof fn lemma_encoding_is_tail(a: AttributesView)
    ensures
        encode_attributes_spec(a) == enc_tail(a, 0),
{
    reveal_with_fuel(enc_tail, 17);
    assert(enc_opt_h32(a.content_hash) + Seq::<u8>::empty() =~= enc_opt_h32(a.content_hash));
}

proof fn lemma_tail_step(prev: Seq<u8>, a: AttributesView, k: int)
    requires
        0 <= k < 16,
    ensures
        (prev + field_enc(a, k)) + enc_tail(a, k + 1) == prev + enc_tail(a, k),
{
    reveal_with_fuel(enc_tail, 1);
    assert((prev + field_enc(a, k)) + enc_tail(a, k + 1) =~= prev + (field_enc(a, k) + enc_tail(
        a,
        k + 1,
    )));
}

/// Field `k`'s own restriction on `a` for it to be stored.
spec fn field_encodable(a: AttributesView, k: int) -> bool {
    if k == 1 {
        a.name.len() <= u32::MAX
    } else if k == 2 {
        a.program_name.len() <= u32::MAX
    } else if k == 7 {
        a.course_id.len() <= u32::MAX
    } else if k == 8 {
        a.institution_name.len() <= u32::MAX
    } else if k == 9 {
        a.instructor_name.len() <= u32::MAX
    } else if k == 10 {
        a.verification_url.len() <= u32::MAX
    } else if k == 13 {
        a.language matches Some(l) ==> l.len() <= u32::MAX
    } else if k == 15 {
        a.content_hash matches Some(h) ==> h.len() == 32
    } else {
        true
    }
}

proof fn lemma_field_round(a: AttributesView, k: int, rest: Seq<u8>)
    requires
        0 <= k < 16,
        field_encodable(a, k),
    ensures
        field_parse(field_enc(a, k) + rest, k) == Some((value_of(a, k), rest)),
{
    if k == 0 {
        lemma_u8_round(a.certificate_version, rest);
    } else if k == 1 {
        lemma_buf_round(a.name, rest);
    } else if k == 2 {
        lemma_buf_round(a.program_name, rest);
    } else if k == 3 {
        lemma_u16_round(a.grade, rest);
    } else if k == 4 {
        lemma_u16_round(a.credit_points, rest);
    } else if k == 5 {
        lemma_u64_round(a.creation_timestamp, rest);
    } else if k == 6 {
        lemma_u64_round(a.expiration_timestamp, rest);
    } else if k == 7 {
        lemma_buf_round(a.course_id, rest);
    } else if k == 8 {
        lemma_buf_round(a.institution_name, rest);
    } else if k == 9 {
        lemma_buf_round(a.instructor_name, rest);
    } else if k == 10 {
        lemma_buf_round(a.verification_url, rest);
    } else if k == 11 {
        lemma_opt_u8_round(a.eqf_level, rest);
    } else if k == 12 {
        lemma_opt_u16_round(a.ects_credits, rest);
    } else if k == 13 {
        lemma_opt_buf_round(a.language, rest);
    } else if k == 14 {
        lemma_opt_ach_round(a.achievement_type, rest);
    } else {
        lemma_opt_h32_round(a.content_hash, rest);
    }
}

proof fn lemma_store_merge(base: AttributesView, a: AttributesView, k: int)
    requires
        0 <= k < 16,
    ensures
        store(merge(base, a, k), k, value_of(a, k)) == merge(base, a, k + 1),
{
}

proof fn lemma_parse_round(a: AttributesView, k: int)
    requires
        0 <= k <= 16,
        encodable(a),
    ensures
        parse_from(enc_tail(a, k), merge(seed(), a, k), k) == Some(a),
    decreases 16 - k,
{
    reveal_with_fuel(parse_from, 1);
    reveal_with_fuel(enc_tail, 1);
    if k == 16 {
        assert(merge(seed(), a, 16) == a);
    } else {
        lemma_parse_round(a, k + 1);
        assert(field_encodable(a, k));
        lemma_field_round(a, k, enc_tail(a, k + 1));
        lemma_store_merge(seed(), a, k);
    }
}

proof fn lemma_attributes_round(a: AttributesView)
    requires
        encodable(a),
    ensures
        parse_attributes(encode_attributes_spec(a)) == Some(a),
{
    lemma_encoding_is_tail(a);
    lemma_parse_round(a, 0);
    assert(merge(seed(), a, 0) == seed());
}

proof fn lemma_field_sound(d: Seq<u8>, k: int, acc: AttributesView)
    requires
        0 <= k < 16,
    ensures
        field_parse(d, k) matches Some((v, rest)) ==> ({
            let b = store(acc, k, v);
            &&& d == field_enc(b, k) + rest
            &&& field_encodable(b, k)
            &&& merge(b, acc, k) == b
            &&& forall|j: int| k < j < 16 ==> #[trigger] value_of(b, j) == value_of(acc, j)
        }),
{
    if k == 0 {
        lemma_u8_sound(d);
    } else if k == 3 || k == 4 {
        lemma_u16_sound(d);
    } else if k == 5 || k == 6 {
        lemma_u64_sound(d);
    } else if k == 11 {
        lemma_opt_u8_sound(d);
    } else if k == 12 {
        lemma_opt_u16_sound(d);
    } else if k == 13 {
        lemma_opt_buf_sound(d);
    } else if k == 14 {
        lemma_opt_ach_sound(d);
    } else if k == 15 {
        lemma_opt_h32_sound(d);
    } else {
        lemma_buf_sound(d);
    }
}

proof fn lemma_parse_sound(d: Seq<u8>, acc: AttributesView, k: int)
    requires
        0 <= k <= 16,
    ensures
        parse_from(d, acc, k) matches Some(v) ==> {
            &&& d == enc_tail(v, k)
            &&& merge(v, acc, k) == v
            &&& forall|j: int| k <= j < 16 ==> #[trigger] field_encodable(v, j)
        },
    decreases 16 - k,
{
    reveal_with_fuel(parse_from, 1);
    reveal_with_fuel(enc_tail, 1);
    if k == 16 {
        if let Some(v) = parse_from(d, acc, k) {
            assert(d =~= Seq::<u8>::empty());
            assert(merge(v, acc, 16) == acc);
        }
    } else {
        lemma_field_sound(d, k, acc);
        if let Some((fv, rest)) = field_parse(d, k) {
            let b = store(acc, k, fv);
            lemma_parse_sound(rest, b, k + 1);
            if let Some(v) = parse_from(rest, b, k + 1) {
                assert(parse_from(d, acc, k) == Some(v));
                assert(value_of(v, k) == value_of(b, k));
                assert(field_enc(v, k) == field_enc(b, k));
                assert(field_encodable(v, k) == field_encodable(b, k));
                assert(merge(v, acc, k) == v);
            }
        }
    }
}

proof fn lemma_parse_step(d: Seq<u8>, acc: AttributesView, k: int)
    requires
        0 <= k < 16,
    ensures
        field_parse(d, k) matches Some((v, rest)) ==> parse_from(d, acc, k) == parse_from(
            rest,
            store(acc, k, v),
            k + 1,
        ),
        field_parse(d, k) is None ==> parse_from(d, acc, k) is None,
{
    reveal_with_fuel(parse_from, 1);
}

proof fn lemma_parse_end(d: Seq<u8>, acc: AttributesView)
    ensures
        parse_from(d, acc, 16) == (if d.len() == 0 {
            Some(acc)
        } else {
            None
        }),
{
    reveal_with_fuel(parse_from, 1);
}

proof fn lemma_attributes_sound(d: Seq<u8>)
    ensures
        parse_attributes(d) matches Some(a) ==> encode_attributes_spec(a) == d && encodable(a),
{
    lemma_parse_sound(d, seed(), 0);
    if let Some(a) = parse_attributes(d) {
        lemma_encoding_is_tail(a);
        assert(field_encodable(a, 1));
        assert(field_encodable(a, 2));
        assert(field_encodable(a, 7));
        assert(field_encodable(a, 8));
        assert(field_encodable(a, 9));
        assert(field_encodable(a, 10));
        assert(field_encodable(a, 13));
        assert(field_encodable(a, 15));
    }
}

fn read_tag(data: &[u8], pos: usize) -> (r: Option<(bool, usize)>)
    requires
        pos <= data@.len(),
    ensures
        r is None <==> p_tag(data@.skip(pos as int)) is None,
        r matches Some((v, p)) ==> pos <= p <= data@.len() && p_tag(data@.skip(pos as int))
            == Some((v, data@.skip(p as int))),
{
    match read_u8(data, pos) {
        Some((c, p)) => if c == 0 {
            Some((false, p))
        } else if c == 1 {
            Some((true, p))
        } else {
            None
        },
        None => None,
    }
}

fn read_opt_u8(data: &[u8], pos: usize) -> (r: Option<(Option<u8>, usize)>)
    requires
        pos <= data@.len(),
    ensures
        r is None <==> p_opt_u8(data@.skip(pos as int)) is None,
        r matches Some((v, p)) ==> pos <= p <= data@.len() && p_opt_u8(data@.skip(pos as int))
            == Some((v, data@.skip(p as int))),
{
    match read_tag(data, pos) {
        None => None,
        Some((false, p)) => Some((None, p)),
        Some((true, p)) => match read_u8(data, p) {
            Some((v, p2)) => Some((Some(v), p2)),
            None => None,
        },
    }
}

fn read_opt_u16(data: &[u8], pos: usize) -> (r: Option<(Option<u16>, usize)>)
    requires
        pos <= data@.len(),
    ensures
        r is None <==> p_opt_u16(data@.skip(pos as int)) is None,
        r matches Some((v, p)) ==> pos <= p <= data@.len() && p_opt_u16(data@.skip(pos as int))
            == Some((v, data@.skip(p as int))),
{
    match read_tag(data, pos) {
        None => None,
        Some((false, p)) => Some((None, p)),
        Some((true, p)) => match read_u16(data, p) {
            Some((v, p2)) => Some((Some(v), p2)),
            None => None,
        },
    }
}

fn read_opt_buf(data: &[u8], pos: usize) -> (r: Option<(Option<Vec<u8>>, usize)>)
    requires
        pos <= data@.len(),
    ensures
        r is None <==> p_opt_buf(data@.skip(pos as int)) is None,
        r matches Some((v, p)) ==> pos <= p <= data@.len() && p_opt_buf(data@.skip(pos as int))
            == Some(
            (
                match v {
                    Some(b) => Some(b@),
                    None => None,
                },
                data@.skip(p as int),
            ),
        ),
{
    match read_tag(data, pos) {
        None => None,
        Some((false, p)) => Some((None, p)),
        Some((true, p)) => match read_buf(data, p) {
            Some((v, p2)) => Some((Some(v), p2)),
            None => None,
        },
    }
}

fn read_opt_ach(data: &[u8], pos: usize) -> (r: Option<(Option<AchievementType>, usize)>)
    requires
        pos <= data@.len(),
    ensures
        r is None <==> p_opt_ach(data@.skip(pos as int)) is None,
        r matches Some((v, p)) ==> pos <= p <= data@.len() && p_opt_ach(data@.skip(pos as int))
            == Some((v, data@.skip(p as int))),
{
    match read_tag(data, pos) {
        None => None,
        Some((false, p)) => Some((None, p)),
        Some((true, p)) => match read_u8(data, p) {
            Some((c, p2)) => {
                let t = if c == 0 {
                    AchievementType::Course
                } else if c == 1 {
                    AchievementType::Bootcamp
                } else if c == 2 {
                    AchievementType::Microcredential
                } else if c == 3 {
                    AchievementType::Diploma
                } else {
                    return None;
                };
                Some((Some(t), p2))
            },
            None => None,
        },
    }
}

fn read_opt_h32(data: &[u8], pos: usize) -> (r: Option<(Option<[u8; 32]>, usize)>)
    requires
        pos <= data@.len(),
    ensures
        r is None <==> p_opt_h32(data@.skip(pos as int)) is None,
        r matches Some((v, p)) ==> pos <= p <= data@.len() && p_opt_h32(data@.skip(pos as int))
            == Some(
            (
                match v {
                    Some(h) => Some(h@),
                    None => None,
                },
                data@.skip(p as int),
            ),
        ),
{
    match read_tag(data, pos) {
        None => None,
        Some((false, p)) => Some((None, p)),
        Some((true, p)) => match read_h32(data, p) {
            Some((v, p2)) => Some((Some(v), p2)),
            None => None,
        },
    }
}

spec fn opt_bytes_view(o: &Option<Vec<u8>>) -> Option<Seq<u8>> {
    match o {
        Some(b) => Some(b@),
        None => None,
    }
}

pub open spec fn opt_hash_view(o: &Option<[u8; 32]>) -> Option<Seq<u8>> {
    match o {
        Some(h) => Some(h@),
        None => None,
    }
}

fn decode_head(data: &[u8], pos: usize, Ghost(acc): Ghost<AttributesView>) -> (r: Option<
    (u8, Vec<u8>, Vec<u8>, u16, usize),
>)
    requires
        pos <= data@.len(),
        parse_attributes(data@) == parse_from(data@.skip(pos as int), acc, 0),
    ensures
        r is None ==> parse_attributes(data@) is None,
        r matches Some((certificate_version, name, program_name, grade, p)) ==> p <= data@.len() && parse_attributes(data@) == parse_from(
            data@.skip(p as int),
            (AttributesView { certificate_version: certificate_version, name: name@, program_name: program_name@, grade: grade, ..acc }),
            4,
        ),
{
    let ghost acc0 = acc;
    let p = pos;
    proof {
        lemma_parse_step(data@.skip(p as int), acc0, 0);
    }
    let (certificate_version, p) = match read_u8(data, p) {
        Some(x) => x,
        None => {
            return None;
        },
    };
    let ghost acc1 = store(acc0, 0, FieldValue::Byte(certificate_version));
    proof {
        lemma_parse_step(data@.skip(p as int), acc1, 1);
    }
    let (name, p) = match read_buf(data, p) {
        Some(x) => x,
        None => {
            return None;
        },
    };
    let ghost acc2 = store(acc1, 1, FieldValue::Bytes(name@));
    proof {
        lemma_parse_step(data@.skip(p as int), acc2, 2);
    }
    let (program_name, p) = match read_buf(data, p) {
        Some(x) => x,
        None => {
            return None;
        },
    };
    let ghost acc3 = store(acc2, 2, FieldValue::Bytes(program_name@));
    proof {
        lemma_parse_step(data@.skip(p as int), acc3, 3);
    }
    let (grade, p) = match read_u16(data, p) {
        Some(x) => x,
        None => {
            return None;
        },
    };
    let ghost acc4 = store(acc3, 3, FieldValue::Short(grade));
    assert(acc4 == (AttributesView { certificate_version: certificate_version, name: name@, program_name: program_name@, grade: grade, ..acc }));
    Some((certificate_version, name, program_name, grade, p))
}

fn decode_times(data: &[u8], pos: usize, Ghost(acc): Ghost<AttributesView>) -> (r: Option<
    (u16, u64, u64, usize),
>)
    requires
        pos <= data@.len(),
        parse_attributes(data@) == parse_from(data@.skip(pos as int), acc, 4),
    ensures
        r is None ==> parse_attributes(data@) is None,
        r matches Some((credit_points, creation_timestamp, expiration_timestamp, p)) ==> p <= data@.len() && parse_attributes(data@) == parse_from(
            data@.skip(p as int),
            (AttributesView { credit_points: credit_points, creation_timestamp: creation_timestamp, expiration_timestamp: expiration_timestamp, ..acc }),
            7,
        ),
{
    let ghost acc4 = acc;
    let p = pos;
    proof {
        lemma_parse_step(data@.skip(p as int), acc4, 4);
    }
    let (credit_points, p) = match read_u16(data, p) {
        Some(x) => x,
        None => {
            return None;
        },
    };
    let ghost acc5 = store(acc4, 4, FieldValue::Short(credit_points));
    proof {
        lemma_parse_step(data@.skip(p as int), acc5, 5);
    }
    let (creation_timestamp, p) = match read_u64(data, p) {
        Some(x) => x,
        None => {
            return None;
        },
    };
    let ghost acc6 = store(acc5, 5, FieldValue::Long(creation_timestamp));
    proof {
        lemma_parse_step(data@.skip(p as int), acc6, 6);
    }
    let (expiration_timestamp, p) = match read_u64(data, p) {
        Some(x) => x,
        None => {
            return None;
        },
    };
    let ghost acc7 = store(acc6, 6, FieldValue::Long(expiration_timestamp));
    assert(acc7 == (AttributesView { credit_points: credit_points, creation_timestamp: creation_timestamp, expiration_timestamp: expiration_timestamp, ..acc }));
    Some((credit_points, creation_timestamp, expiration_timestamp, p))
}

fn decode_middle(data: &[u8], pos: usize, Ghost(acc): Ghost<AttributesView>) -> (r: Option<
    (Vec<u8>, Vec<u8>, Vec<u8>, Vec<u8>, usize),
>)
    requires
        pos <= data@.len(),
        parse_attributes(data@) == parse_from(data@.skip(pos as int), acc, 7),
    ensures
        r is None ==> parse_attributes(data@) is None,
        r matches Some((course_id, institution_name, instructor_name, verification_url, p)) ==> p <= data@.len() && parse_attributes(data@) == parse_from(
            data@.skip(p as int),
            (AttributesView { course_id: course_id@, institution_name: institution_name@, instructor_name: instructor_name@, verification_url: verification_url@, ..acc }),
            11,
        ),
{
    let ghost acc7 = acc;
    let p = pos;
    proof {
        lemma_parse_step(data@.skip(p as int), acc7, 7);
    }
    let (course_id, p) = match read_buf(data, p) {
        Some(x) => x,
        None => {
            return None;
        },
    };
    let ghost acc8 = store(acc7, 7, FieldValue::Bytes(course_id@));
    proof {
        lemma_parse_step(data@.skip(p as int), acc8, 8);
    }
    let (institution_name, p) = match read_buf(data, p) {
        Some(x) => x,
        None => {
            return None;
        },
    };
    let ghost acc9 = store(acc8, 8, FieldValue::Bytes(institution_name@));
    proof {
        lemma_parse_step(data@.skip(p as int), acc9, 9);
    }
    let (instructor_name, p) = match read_buf(data, p) {
        Some(x) => x,
        None => {
            return None;
        },
    };
    let ghost acc10 = store(acc9, 9, FieldValue::Bytes(instructor_name@));
    proof {
        lemma_parse_step(data@.skip(p as int), acc10, 10);
    }
    let (verification_url, p) = match read_buf(data, p) {
        Some(x) => x,
        None => {
            return None;
        },
    };
    let ghost acc11 = store(acc10, 10, FieldValue::Bytes(verification_url@));
    assert(acc11 == (AttributesView { course_id: course_id@, institution_name: institution_name@, instructor_name: instructor_name@, verification_url: verification_url@, ..acc }));
    Some((course_id, institution_name, instructor_name, verification_url, p))
}

fn decode_options(data: &[u8], pos: usize, Ghost(acc): Ghost<AttributesView>) -> (r: Option<
    (Option<u8>, Option<u16>, Option<Vec<u8>>, Option<AchievementType>, Option<[u8; 32]>, usize),
>)
    requires
        pos <= data@.len(),
        parse_attributes(data@) == parse_from(data@.skip(pos as int), acc, 11),
    ensures
        r is None ==> parse_attributes(data@) is None,
        r matches Some((eqf_level, ects_credits, language, achievement_type, content_hash, p)) ==> p <= data@.len() && parse_attributes(data@) == parse_from(
            data@.skip(p as int),
            (AttributesView { eqf_level: eqf_level, ects_credits: ects_credits, language: opt_bytes_view(&language), achievement_type: achievement_type, content_hash: opt_hash_view(&content_hash), ..acc }),
            16,
        ),
{
    let ghost acc11 = acc;
    let p = pos;
    proof {
        lemma_parse_step(data@.skip(p as int), acc11, 11);
    }
    let (eqf_level, p) = match read_opt_u8(data, p) {
        Some(x) => x,
        None => {
            return None;
        },
    };
    let ghost acc12 = store(acc11, 11, FieldValue::OptByte(eqf_level));
    proof {
        lemma_parse_step(data@.skip(p as int), acc12, 12);
    }
    let (ects_credits, p) = match read_opt_u16(data, p) {
        Some(x) => x,
        None => {
            return None;
        },
    };
    let ghost acc13 = store(acc12, 12, FieldValue::OptShort(ects_credits));
    proof {
        lemma_parse_step(data@.skip(p as int), acc13, 13);
    }
    let (language, p) = match read_opt_buf(data, p) {
        Some(x) => x,
        None => {
            return None;
        },
    };
    let ghost acc14 = store(acc13, 13, FieldValue::OptBytes(opt_bytes_view(&language)));
    proof {
        lemma_parse_step(data@.skip(p as int), acc14, 14);
    }
    let (achievement_type, p) = match read_opt_ach(data, p) {
        Some(x) => x,
        None => {
            return None;
        },
    };
    let ghost acc15 = store(acc14, 14, FieldValue::OptKind(achievement_type));
    proof {
        lemma_parse_step(data@.skip(p as int), acc15, 15);
    }
    let (content_hash, p) = match read_opt_h32(data, p) {
        Some(x) => x,
        None => {
            return None;
        },
    };
    let ghost acc16 = store(acc15, 15, FieldValue::OptHash(opt_hash_view(&content_hash)));
    assert(acc16 == (AttributesView { eqf_level: eqf_level, ects_credits: ects_credits, language: opt_bytes_view(&language), achievement_type: achievement_type, content_hash: opt_hash_view(&content_hash), ..acc }));
    Some((eqf_level, ects_credits, language, achievement_type, content_hash, p))
}

fn decode_fields(data: &[u8]) -> (r: Option<CertificateAttributes>)
    ensures
        r is None <==> parse_attributes(data@) is None,
        r matches Some(a) ==> parse_attributes(data@) == Some(a@),
{
    assert(data@.skip(0) =~= data@);
    let ghost acc0 = seed();
    let (certificate_version, name, program_name, grade, p) = match decode_head(
        data,
        0,
        Ghost(acc0),
    ) {
        Some(x) => x,
        None => {
            return None;
        },
    };
    let ghost acc_h = AttributesView {
        certificate_version: certificate_version,
        name: name@,
        program_name: program_name@,
        grade: grade,
        ..acc0
    };
    let (credit_points, creation_timestamp, expiration_timestamp, p) = match decode_times(
        data,
        p,
        Ghost(acc_h),
    ) {
        Some(x) => x,
        None => {
            return None;
        },
    };
    let ghost acc1 = AttributesView {
        credit_points: credit_points,
        creation_timestamp: creation_timestamp,
        expiration_timestamp: expiration_timestamp,
        ..acc_h
    };
    let (course_id, institution_name, instructor_name, verification_url, p) = match decode_middle(data, p, Ghost(acc1)) {
        Some(x) => x,
        None => {
            return None;
        },
    };
    let ghost acc2 = AttributesView { course_id: course_id@, institution_name: institution_name@, instructor_name: instructor_name@, verification_url: verification_url@, ..acc1 };
    let (eqf_level, ects_credits, language, achievement_type, content_hash, p) = match decode_options(data, p, Ghost(acc2)) {
        Some(x) => x,
        None => {
            return None;
        },
    };
    let ghost acc3 = AttributesView { eqf_level: eqf_level, ects_credits: ects_credits, language: opt_bytes_view(&language), achievement_type: achievement_type, content_hash: opt_hash_view(&content_hash), ..acc2 };
    proof {
        lemma_parse_end(data@.skip(p as int), acc3);
    }
    if p != data.len() {
        return None;
    }
    let r = CertificateAttributes {
        certificate_version, name, program_name, grade, credit_points, creation_timestamp, expiration_timestamp, course_id, institution_name, instructor_name, verification_url, eqf_level, ects_credits, language, achievement_type, content_hash,
    };
    assert(acc3 == r@);
    Some(r)
}

/// Decodes stored certificate attributes: succeeds exactly on the stored forms of
/// attribute records, and gives back the record so stored.
pub fn decode_attributes(data: &[u8]) -> (r: Option<CertificateAttributes>)
    ensures
        r matches Some(a) ==> decoded(data@) == Some(a@),
        r is None ==> decoded(data@) is None,
        r matches Some(a) ==> encode_attributes_spec(a@) == data@ && encodable(a@),
        r is None ==> forall|a: AttributesView|
            encodable(a) ==> #[trigger] encode_attributes_spec(a) != data@,
{
    let r = decode_fields(data);
    proof {
        lemma_attributes_sound(data@);
        if r is None {
            assert forall|a: AttributesView| encodable(a) implies #[trigger] encode_attributes_spec(a)
                != data@ by {
                lemma_attributes_round(a);
            }
        }
        if r is Some {
            law_attributes_round_trip(r->0@);
        }
    }
    r
}

/// The record whose stored form `stored` is, if it is one.
pub open spec fn decoded(stored: Seq<u8>) -> Option<AttributesView> {
    if exists|a: AttributesView| encodable(a) && #[trigger] encode_attributes_spec(a) == stored {
        Some(choose|a: AttributesView| encodable(a) && #[trigger] encode_attributes_spec(a) == stored)
    } else {
        None
    }
}

/// Two records with the same stored form are the same record.
pub proof fn lemma_encoding_injective(a: AttributesView, b: AttributesView)
    requires
        encodable(a),
        encodable(b),
        encode_attributes_spec(a) == encode_attributes_spec(b),
    ensures
        a == b,
{
    lemma_attributes_round(a);
    lemma_attributes_round(b);
}

/// Decoding the stored form of a record gives the record back.
pub proof fn law_attributes_round_trip(a: AttributesView)
    requires
        encodable(a),
    ensures
        decoded(encode_attributes_spec(a)) == Some(a),
{
    let b = choose|b: AttributesView| encodable(b) && #[trigger] encode_attributes_spec(b)
        == encode_attributes_spec(a);
    lemma_encoding_injective(a, b);
}

/// The achievement type is stored, after its presence tag 1, as its
/// declaration index (Course 0, Bootcamp 1, Microcredential 2, Diploma 3), just
/// before the content-hash field that closes the record; an absent one is the
/// single tag 0.
pub proof fn law_achievement_stored_as_declaration_index(a: AttributesView)
    ensures
        ({
            let e = encode_attributes_spec(a);
            let h = enc_opt_h32(a.content_hash);
            let n = e.len();
            &&& n >= h.len() + 1
            &&& e.subrange(n - h.len(), n as int) == h
            &&& a.achievement_type == Some(AchievementType::Course) ==> n >= h.len() + 2
                && e.subrange(n - h.len() - 2, n - h.len()) == seq![1u8, 0u8]
            &&& a.achievement_type == Some(AchievementType::Bootcamp) ==> n >= h.len() + 2
                && e.subrange(n - h.len() - 2, n - h.len()) == seq![1u8, 1u8]
            &&& a.achievement_type == Some(AchievementType::Microcredential) ==> n >= h.len() + 2
                && e.subrange(n - h.len() - 2, n - h.len()) == seq![1u8, 2u8]
            &&& a.achievement_type == Some(AchievementType::Diploma) ==> n >= h.len() + 2
                && e.subrange(n - h.len() - 2, n - h.len()) == seq![1u8, 3u8]
            &&& a.achievement_type is None ==> e[n - h.len() - 1] == 0u8
        }),
{
    let e = encode_attributes_spec(a);
    let h = enc_opt_h32(a.content_hash);
    let x = enc_opt_ach(a.achievement_type);
    lemma_encoding_is_tail(a);
    let p = lemma_tail_split(a, 14);
    reveal_with_fuel(enc_tail, 3);
    assert(enc_tail(a, 14) =~= x + h);
    assert(e == p + (x + h));
    let n = e.len();
    assert(e.subrange(n - h.len(), n as int) =~= h);
    assert(e.subrange(n - h.len() - x.len(), n - h.len()) =~= x);
}

proof fn lemma_tail_split(a: AttributesView, k: int) -> (p: Seq<u8>)
    requires
        0 <= k <= 16,
    ensures
        enc_tail(a, 0) == p + enc_tail(a, k),
    decreases k,
{
    if k == 0 {
        assert(enc_tail(a, 0) =~= Seq::<u8>::empty() + enc_tail(a, 0));
        Seq::empty()
    } else {
        let q = lemma_tail_split(a, k - 1);
        lemma_tail_step(q, a, k - 1);
        q + field_enc(a, k - 1)
    }
}

fn push_head(out: &mut Vec<u8>, a: &CertificateAttributes)
    requires
        encodable(a@),
    ensures
        final(out)@ + enc_tail(a@, 4) == old(out)@ + enc_tail(a@, 0),
{
    let ghost p = out@;
    push_u8(out, a.certificate_version);
    proof {
        lemma_tail_step(p, a@, 0);
    }
    let ghost p = out@;
    push_buf(out, a.name.as_slice());
    proof {
        lemma_tail_step(p, a@, 1);
    }
    let ghost p = out@;
    push_buf(out, a.program_name.as_slice());
    proof {
        lemma_tail_step(p, a@, 2);
    }
    let ghost p = out@;
    push_u16(out, a.grade);
    proof {
        lemma_tail_step(p, a@, 3);
    }
}

fn push_times(out: &mut Vec<u8>, a: &CertificateAttributes)
    requires
        encodable(a@),
    ensures
        final(out)@ + enc_tail(a@, 7) == old(out)@ + enc_tail(a@, 4),
{
    let ghost p = out@;
    push_u16(out, a.credit_points);
    proof {
        lemma_tail_step(p, a@, 4);
    }
    let ghost p = out@;
    push_u64(out, a.creation_timestamp);
    proof {
        lemma_tail_step(p, a@, 5);
    }
    let ghost p = out@;
    push_u64(out, a.expiration_timestamp);
    proof {
        lemma_tail_step(p, a@, 6);
    }
}

fn push_names(out: &mut Vec<u8>, a: &CertificateAttributes)
    requires
        encodable(a@),
    ensures
        final(out)@ + enc_tail(a@, 11) == old(out)@ + enc_tail(a@, 7),
{
    let ghost p = out@;
    push_buf(out, a.course_id.as_slice());
    proof {
        lemma_tail_step(p, a@, 7);
    }
    let ghost p = out@;
    push_buf(out, a.institution_name.as_slice());
    proof {
        lemma_tail_step(p, a@, 8);
    }
    let ghost p = out@;
    push_buf(out, a.instructor_name.as_slice());
    proof {
        lemma_tail_step(p, a@, 9);
    }
    let ghost p = out@;
    push_buf(out, a.verification_url.as_slice());
    proof {
        lemma_tail_step(p, a@, 10);
    }
}

fn push_numbers(out: &mut Vec<u8>, a: &CertificateAttributes)
    requires
        encodable(a@),
    ensures
        final(out)@ + enc_tail(a@, 13) == old(out)@ + enc_tail(a@, 11),
{
    let ghost p = out@;
    match a.eqf_level {
        Some(v) => {
            push_u8(out, 1);
            push_u8(out, v);
        },
        None => {
            push_u8(out, 0);
        },
    }
    assert(out@ =~= p + enc_opt_u8(a.eqf_level));
    proof {
        lemma_tail_step(p, a@, 11);
    }
    let ghost p = out@;
    match a.ects_credits {
        Some(v) => {
            push_u8(out, 1);
            push_u16(out, v);
        },
        None => {
            push_u8(out, 0);
        },
    }
    assert(out@ =~= p + enc_opt_u16(a.ects_credits));
    proof {
        lemma_tail_step(p, a@, 12);
    }
}

fn push_extras(out: &mut Vec<u8>, a: &CertificateAttributes)
    requires
        encodable(a@),
    ensures
        final(out)@ + enc_tail(a@, 16) == old(out)@ + enc_tail(a@, 13),
{
    let ghost p = out@;
    match &a.language {
        Some(v) => {
            push_u8(out, 1);
            push_buf(out, v.as_slice());
        },
        None => {
            push_u8(out, 0);
        },
    }
    assert(out@ =~= p + enc_opt_buf(a@.language));
    proof {
        lemma_tail_step(p, a@, 13);
    }
    let ghost p = out@;
    match a.achievement_type {
        Some(t) => {
            push_u8(out, 1);
            let c: u8 = match t {
                AchievementType::Course => 0,
                AchievementType::Bootcamp => 1,
                AchievementType::Microcredential => 2,
                AchievementType::Diploma => 3,
            };
            push_u8(out, c);
        },
        None => {
            push_u8(out, 0);
        },
    }
    assert(out@ =~= p + enc_opt_ach(a.achievement_type));
    proof {
        lemma_tail_step(p, a@, 14);
    }
    let ghost p = out@;
    match &a.content_hash {
        Some(h) => {
            push_u8(out, 1);
            push_raw(out, h.as_slice());
        },
        None => {
            push_u8(out, 0);
        },
    }
    assert(out@ =~= p + enc_opt_h32(a@.content_hash));
    proof {
        lemma_tail_step(p, a@, 15);
    }
}

/// Encodes certificate attributes in their stored form.
pub fn encode_attributes(a: &CertificateAttributes) -> (r: Vec<u8>)
    requires
        encodable(a@),
    ensures
        r@ == encode_attributes_spec(a@),
{
    let mut out: Vec<u8> = Vec::new();
    proof {
        lemma_encoding_is_tail(a@);
        assert(out@ + enc_tail(a@, 0) =~= enc_tail(a@, 0));
    }
    push_head(&mut out, a);
    push_times(&mut out, a);
    push_names(&mut out, a);
    push_numbers(&mut out, a);
    push_extras(&mut out, a);
    proof {
        reveal_with_fuel(enc_tail, 1);
        assert(out@ + enc_tail(a@, 16) =~= out@);
    }
    out
}

} // verus!
