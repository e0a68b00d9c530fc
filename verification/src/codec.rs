//! The binary codec for cache payloads.
//!
//! Payloads cross the process boundary as a deterministic, length-prefixed
//! binary form (then text-armoured with base64, see [`crate::b64`]). Numbers
//! are eight bytes little-endian; byte strings and text are length-prefixed,
//! text as UTF-8. Decoding is specified as a total function of the input
//! bytes, and decoding an encoding is proved to give back what was encoded.

use vstd::prelude::*;
use vstd::utf8::{decode_utf8, encode_utf8, valid_utf8};
use crate::ClassID;
use crate::data::{ClassEntry, MaterialEntry, MaterialKind, SectionData, SectionDataGuts};
use crate::errors::LoginError;

verus! {

broadcast use {vstd::utf8::encode_utf8_valid_utf8, vstd::utf8::encode_utf8_decode_utf8};

/// Eight bytes, little-endian.
pub open spec fn enc_u64(n: u64) -> Seq<u8> {
    seq![
        n as u8,
        (n >> 8) as u8,
        (n >> 16) as u8,
        (n >> 24) as u8,
        (n >> 32) as u8,
        (n >> 40) as u8,
        (n >> 48) as u8,
        (n >> 56) as u8,
    ]
}

/// A length prefix followed by the bytes themselves.
pub open spec fn enc_bytes(v: Seq<u8>) -> Seq<u8> {
    enc_u64(v.len() as u64) + v
}

/// A length prefix followed by the UTF-8 form of the text.
pub open spec fn enc_chars(s: Seq<char>) -> Seq<u8> {
    enc_bytes(encode_utf8(s))
}

/// The little-endian word starting at `pos`.
pub open spec fn word_of(b: Seq<u8>, pos: int) -> u64 {
    (b[pos] as u64) | ((b[pos + 1] as u64) << 8) | ((b[pos + 2] as u64) << 16) | ((b[pos + 3]
        as u64) << 24) | ((b[pos + 4] as u64) << 32) | ((b[pos + 5] as u64) << 40) | ((b[pos + 6]
        as u64) << 48) | ((b[pos + 7] as u64) << 56)
}

/// Decode a word at `pos`; fails only when fewer than eight bytes remain.
pub open spec fn sdec_u64(b: Seq<u8>, pos: int) -> Option<(u64, int)> {
    if 0 <= pos && pos + 8 <= b.len() {
        Some((word_of(b, pos), pos + 8))
    } else {
        None
    }
}

/// Decode a length-prefixed byte string at `pos`.
pub open spec fn sdec_bytes(b: Seq<u8>, pos: int) -> Option<(Seq<u8>, int)> {
    match sdec_u64(b, pos) {
        None => None,
        Some((n, p1)) => if p1 + n <= b.len() {
            Some((b.subrange(p1, p1 + n), p1 + n))
        } else {
            None
        },
    }
}

/// Decode length-prefixed UTF-8 text at `pos`.
pub open spec fn sdec_chars(b: Seq<u8>, pos: int) -> Option<(Seq<char>, int)> {
    match sdec_bytes(b, pos) {
        None => None,
        Some((v, p1)) => if valid_utf8(v) {
            Some((decode_utf8(v), p1))
        } else {
            None
        },
    }
}

proof fn lemma_word_of_enc(n: u64, b: Seq<u8>, pos: int)
    requires
        0 <= pos,
        pos + 8 <= b.len(),
        b.subrange(pos, pos + 8) == enc_u64(n),
    ensures
        word_of(b, pos) == n,
{
    let s = b.subrange(pos, pos + 8);
    assert(b[pos] == s[0]);
    assert(b[pos + 1] == s[1]);
    assert(b[pos + 2] == s[2]);
    assert(b[pos + 3] == s[3]);
    assert(b[pos + 4] == s[4]);
    assert(b[pos + 5] == s[5]);
    assert(b[pos + 6] == s[6]);
    assert(b[pos + 7] == s[7]);
    assert((n as u8) as u64 | (((n >> 8) as u8) as u64) << 8 | (((n >> 16) as u8) as u64) << 16 | ((
    (n >> 24) as u8) as u64) << 24 | (((n >> 32) as u8) as u64) << 32 | (((n >> 40) as u8) as u64)
        << 40 | (((n >> 48) as u8) as u64) << 48 | (((n >> 56) as u8) as u64) << 56 == n)
        by (bit_vector);
}

/// Decoding inverts encoding for words.
pub proof fn lemma_rt_u64(n: u64, b: Seq<u8>, pos: int)
    requires
        0 <= pos,
        pos + 8 <= b.len(),
        b.subrange(pos, pos + 8) == enc_u64(n),
    ensures
        sdec_u64(b, pos) == Some((n, pos + 8)),
{
    lemma_word_of_enc(n, b, pos);
}

/// Decoding inverts encoding for byte strings.
pub proof fn lemma_rt_bytes(v: Seq<u8>, b: Seq<u8>, pos: int)
    requires
        v.len() <= u64::MAX,
        0 <= pos,
        pos + enc_bytes(v).len() <= b.len(),
        b.subrange(pos, pos + enc_bytes(v).len()) == enc_bytes(v),
    ensures
        sdec_bytes(b, pos) == Some((v, pos + enc_bytes(v).len())),
{
    let e = enc_bytes(v);
    assert(b.subrange(pos, pos + 8) =~= e.subrange(0, 8));
    assert(e.subrange(0, 8) =~= enc_u64(v.len() as u64));
    lemma_rt_u64(v.len() as u64, b, pos);
    assert(v.len() as u64 as int == v.len() as int);
    assert forall|i: int| 0 <= i < v.len() implies b.subrange(pos + 8, pos + 8 + v.len())[i]
        == v[i] by {
        assert(enc_bytes(v)[8 + i] == v[i]);
        assert(b[pos + 8 + i] == b.subrange(pos, pos + enc_bytes(v).len())[8 + i]);
    }
    assert(b.subrange(pos + 8, pos + 8 + v.len()) =~= v);
}

/// Decoding inverts encoding for text.
pub proof fn lemma_rt_chars(s: Seq<char>, b: Seq<u8>, pos: int)
    requires
        encode_utf8(s).len() <= u64::MAX,
        0 <= pos,
        pos + enc_chars(s).len() <= b.len(),
        b.subrange(pos, pos + enc_chars(s).len()) == enc_chars(s),
    ensures
        sdec_chars(b, pos) == Some((s, pos + enc_chars(s).len())),
{
    lemma_rt_bytes(encode_utf8(s), b, pos);
}

/// Append the encoding of `n` to `out`.
pub fn push_u64(out: &mut Vec<u8>, n: u64)
    ensures
        final(out)@ == old(out)@ + enc_u64(n),
{
    out.push(#[verifier::truncate] (n as u8));
    out.push(#[verifier::truncate] ((n >> 8) as u8));
    out.push(#[verifier::truncate] ((n >> 16) as u8));
    out.push(#[verifier::truncate] ((n >> 24) as u8));
    out.push(#[verifier::truncate] ((n >> 32) as u8));
    out.push(#[verifier::truncate] ((n >> 40) as u8));
    out.push(#[verifier::truncate] ((n >> 48) as u8));
    out.push(#[verifier::truncate] ((n >> 56) as u8));
    proof {
        assert(final(out)@ =~= old(out)@ + enc_u64(n));
    }
}

/// Append the encoding of the byte string `v` to `out`.
pub fn push_bytes(out: &mut Vec<u8>, v: &Vec<u8>)
    ensures
        final(out)@ == old(out)@ + enc_bytes(v@),
        v@.len() <= u64::MAX,
{
    push_u64(out, v.len() as u64);
    let mut i: usize = 0;
    while i < v.len()
        invariant
            i <= v@.len(),
            out@ == old(out)@ + enc_u64(v@.len() as u64) + v@.take(i as int),
        decreases v@.len() - i,
    {
        out.push(v[i]);
        i = i + 1;
        proof {
            assert(old(out)@ + enc_u64(v@.len() as u64) + v@.take(i as int) =~= (old(out)@
                + enc_u64(v@.len() as u64) + v@.take(i - 1 as int)).push(v@[i - 1]));
        }
    }
    proof {
        assert(v@.take(v@.len() as int) =~= v@);
        assert(old(out)@ + enc_u64(v@.len() as u64) + v@ =~= old(out)@ + enc_bytes(v@));
    }
}

/// Append the encoding of the text `s` to `out`.
pub fn push_chars(out: &mut Vec<u8>, s: &str)
    ensures
        final(out)@ == old(out)@ + enc_chars(s@),
        encode_utf8(s@).len() <= u64::MAX,
{
    let bytes = vstd::string::StrSliceExecFns::as_bytes_vec(s);
    push_bytes(out, &bytes);
}

/// The error type of `core::str::from_utf8`, declared so it can appear in a
/// signature; nothing is read out of it.
#[verifier::external_type_specification]
#[verifier::external_body]
pub struct ExUtf8Error(core::str::Utf8Error);

/// Relies on `core::str::from_utf8`: it succeeds exactly on valid UTF-8 and
/// returns the string whose byte form is the input.
pub assume_specification[ core::str::from_utf8 ](v: &[u8]) -> (r: Result<&str, core::str::Utf8Error>)
    ensures
        r matches Ok(s) ==> encode_utf8(s@) == v@,
        valid_utf8(v@) ==> r is Ok,
        r is Err ==> !valid_utf8(v@),
;

/// Read a word at `pos`.
pub fn dec_u64_at(b: &Vec<u8>, pos: usize) -> (r: Option<(u64, usize)>)
    ensures
        match r {
            Some((n, p2)) => sdec_u64(b@, pos as int) == Some((n, p2 as int)),
            None => sdec_u64(b@, pos as int) is None,
        },
{
    if b.len() < 8 || pos > b.len() - 8 {
        return None;
    }
    let n = (b[pos] as u64) | ((b[pos + 1] as u64) << 8) | ((b[pos + 2] as u64) << 16) | ((b[pos
        + 3] as u64) << 24) | ((b[pos + 4] as u64) << 32) | ((b[pos + 5] as u64) << 40) | ((b[pos
        + 6] as u64) << 48) | ((b[pos + 7] as u64) << 56);
    Some((n, pos + 8))
}

/// Read a length-prefixed byte string at `pos`.
pub fn dec_bytes_at(b: &Vec<u8>, pos: usize) -> (r: Option<(Vec<u8>, usize)>)
    ensures
        match r {
            Some((v, p2)) => sdec_bytes(b@, pos as int) == Some((v@, p2 as int)),
            None => sdec_bytes(b@, pos as int) is None,
        },
{
    let (n, p1) = match dec_u64_at(b, pos) {
        Some(x) => x,
        None => {
            return None;
        },
    };
    if n > (b.len() - p1) as u64 {
        return None;
    }
    let len = n as usize;
    let blen = b.len();
    let mut v: Vec<u8> = Vec::new();
    let mut i: usize = 0;
    while i < len
        invariant
            p1 + len <= b@.len(),
            blen == b@.len(),
            i <= len,
            v@ == b@.subrange(p1 as int, p1 + i),
        decreases len - i,
    {
        v.push(b[p1 + i]);
        i = i + 1;
        proof {
            assert(b@.subrange(p1 as int, p1 + i) =~= b@.subrange(p1 as int, p1 + i - 1).push(
                b@[p1 + i - 1],
            ));
        }
    }
    Some((v, p1 + len))
}

/// Read length-prefixed UTF-8 text at `pos`.
pub fn dec_string_at(b: &Vec<u8>, pos: usize) -> (r: Option<(String, usize)>)
    ensures
        match r {
            Some((s, p2)) => sdec_chars(b@, pos as int) == Some((s@, p2 as int)),
            None => sdec_chars(b@, pos as int) is None,
        },
{
    let (v, p1) = match dec_bytes_at(b, pos) {
        Some(x) => x,
        None => {
            return None;
        },
    };
    match core::str::from_utf8(v.as_slice()) {
        Ok(s) => {
            let owned = s.to_owned();
            proof {
                broadcast use vstd::string::is_ascii_spec_bytes;

                assert(encode_utf8(s@) == v@);
                assert(valid_utf8(v@));
                assert(decode_utf8(v@) == s@);
            }
            Some((owned, p1))
        },
        Err(_) => None,
    }
}

// ---------------------------------------------------------------------------
// Models: the mathematical contents of the domain records, used to state what
// the codec preserves.
// ---------------------------------------------------------------------------

/// Contents of a section schedule.
pub ghost struct SectionModel {
    pub is_good: bool,
    pub bad_text: Seq<char>,
    pub days: Seq<bool>,
    pub period: u64,
}

/// Contents of a class entry.
pub ghost struct EntryModel {
    pub name: Seq<char>,
    pub section: SectionModel,
    pub picture: Seq<u8>,
    pub id: u64,
}

/// Contents of a materials-page record.
pub ghost struct MaterialModel {
    pub id: Seq<char>,
    pub kind: u8,
    pub title: Seq<char>,
    pub body: Seq<char>,
    pub due: Seq<char>,
}

/// The model of a section value.
pub open spec fn section_model(g: SectionDataGuts) -> SectionModel {
    match g {
        SectionDataGuts::Bad(s) => SectionModel {
            is_good: false,
            bad_text: s@,
            days: Seq::empty(),
            period: 0,
        },
        SectionDataGuts::Good { days, period } => SectionModel {
            is_good: true,
            bad_text: Seq::empty(),
            days: days@,
            period,
        },
    }
}

/// The model of a class entry.
pub open spec fn entry_model(e: ClassEntry) -> EntryModel {
    EntryModel {
        name: e.name@,
        section: section_model(e.section.guts),
        picture: e.picture@,
        id: e.id.0,
    }
}

/// The models of a class entry list.
pub open spec fn entry_models(s: Seq<ClassEntry>) -> Seq<EntryModel> {
    s.map_values(|e: ClassEntry| entry_model(e))
}

/// Wire tag of a material kind.
pub open spec fn kind_tag(k: MaterialKind) -> u8 {
    match k {
        MaterialKind::Assignment => 0,
        MaterialKind::Discussion => 1,
        MaterialKind::File => 2,
        MaterialKind::Link => 3,
        MaterialKind::TestQuiz => 4,
        MaterialKind::Folder => 5,
        MaterialKind::Other => 6,
    }
}

/// Material kind of a wire tag below seven.
pub open spec fn tag_kind(t: u8) -> MaterialKind {
    if t == 0 {
        MaterialKind::Assignment
    } else if t == 1 {
        MaterialKind::Discussion
    } else if t == 2 {
        MaterialKind::File
    } else if t == 3 {
        MaterialKind::Link
    } else if t == 4 {
        MaterialKind::TestQuiz
    } else if t == 5 {
        MaterialKind::Folder
    } else {
        MaterialKind::Other
    }
}

/// The model of a materials-page record.
pub open spec fn material_model(m: MaterialEntry) -> MaterialModel {
    MaterialModel { id: m.id@, kind: kind_tag(m.kind), title: m.title@, body: m.body@, due: m.due@ }
}

/// The models of a material list.
pub open spec fn material_models(s: Seq<MaterialEntry>) -> Seq<MaterialModel> {
    s.map_values(|m: MaterialEntry| material_model(m))
}

/// A section model as the codec and the domain types produce it: the unused
/// fields of the other arm are at their defaults, the week has seven slots,
/// and a bad string's UTF-8 form is addressable by a length prefix.
pub open spec fn wf_section_model(m: SectionModel) -> bool {
    &&& (m.is_good ==> m.days.len() == 7 && m.bad_text == Seq::<char>::empty())
    &&& (!m.is_good ==> m.days == Seq::<bool>::empty() && m.period == 0 && encode_utf8(
        m.bad_text,
    ).len() <= u64::MAX)
}

/// An entry model whose variable-length parts are addressable.
pub open spec fn wf_entry_model(m: EntryModel) -> bool {
    &&& wf_section_model(m.section)
    &&& encode_utf8(m.name).len() <= u64::MAX
    &&& m.picture.len() <= u64::MAX
}

/// A material model: a known kind tag, addressable text.
pub open spec fn wf_material_model(m: MaterialModel) -> bool {
    &&& m.kind <= 6
    &&& encode_utf8(m.id).len() <= u64::MAX
    &&& encode_utf8(m.title).len() <= u64::MAX
    &&& encode_utf8(m.body).len() <= u64::MAX
    &&& encode_utf8(m.due).len() <= u64::MAX
}

// ---------------------------------------------------------------------------
// Encoders.
// ---------------------------------------------------------------------------

/// One byte per week slot, one for a met day.
pub open spec fn bools_bytes(d: Seq<bool>) -> Seq<u8> {
    Seq::new(d.len(), |i: int| if d[i] { 1u8 } else { 0u8 })
}

/// Encoding of a section: a tag byte, then the arm's fields.
pub open spec fn enc_section(m: SectionModel) -> Seq<u8> {
    if m.is_good {
        seq![1u8] + enc_u64(m.period) + bools_bytes(m.days)
    } else {
        seq![0u8] + enc_chars(m.bad_text)
    }
}

/// Encoding of a class entry: name, section, picture, id, in that order.
pub open spec fn enc_entry(m: EntryModel) -> Seq<u8> {
    enc_chars(m.name) + enc_section(m.section) + enc_bytes(m.picture) + enc_u64(m.id)
}

/// Encodings of the entries of a list, concatenated.
pub open spec fn enc_entry_list(ms: Seq<EntryModel>) -> Seq<u8>
    decreases ms.len(),
{
    if ms.len() == 0 {
        Seq::empty()
    } else {
        enc_entry(ms[0]) + enc_entry_list(ms.drop_first())
    }
}

/// Encoding of a class entry list: a count, then the entries.
pub open spec fn enc_entries(ms: Seq<EntryModel>) -> Seq<u8> {
    enc_u64(ms.len() as u64) + enc_entry_list(ms)
}

/// Encoding of a material record: id, kind tag, title, body, due.
pub open spec fn enc_material(m: MaterialModel) -> Seq<u8> {
    enc_chars(m.id) + seq![m.kind] + enc_chars(m.title) + enc_chars(m.body) + enc_chars(m.due)
}

/// Encodings of the records of a list, concatenated.
pub open spec fn enc_material_list(ms: Seq<MaterialModel>) -> Seq<u8>
    decreases ms.len(),
{
    if ms.len() == 0 {
        Seq::empty()
    } else {
        enc_material(ms[0]) + enc_material_list(ms.drop_first())
    }
}

/// Encoding of a material list: a count, then the records.
pub open spec fn enc_materials(ms: Seq<MaterialModel>) -> Seq<u8> {
    enc_u64(ms.len() as u64) + enc_material_list(ms)
}

/// Encoding of a login error: its one tag byte.
pub open spec fn enc_login_error(e: LoginError) -> Seq<u8> {
    match e {
        LoginError::SerializationError => seq![0u8],
        LoginError::FindFormError => seq![1u8],
        LoginError::InvalidCredsError => seq![2u8],
        LoginError::RequestError => seq![3u8],
        LoginError::LaterRequestError => seq![4u8],
        LoginError::DecodeError => seq![5u8],
        LoginError::JsonError => seq![6u8],
    }
}

/// Encoding of a boolean: one byte, zero or one.
pub open spec fn enc_bool(b: bool) -> Seq<u8> {
    seq![if b { 1u8 } else { 0u8 }]
}

// ---------------------------------------------------------------------------
// Specification decoders: total functions of the input bytes.
// ---------------------------------------------------------------------------

/// Every byte is zero or one.
pub open spec fn bytes01(v: Seq<u8>) -> bool {
    forall|i: int| 0 <= i < v.len() ==> v[i] == 0 || v[i] == 1
}

/// The week read back from slot bytes.
pub open spec fn bools_of(v: Seq<u8>) -> Seq<bool> {
    Seq::new(v.len(), |i: int| v[i] == 1)
}

/// Decode a section at `pos`.
pub open spec fn sdec_section(b: Seq<u8>, pos: int) -> Option<(SectionModel, int)> {
    if pos < 0 || pos >= b.len() {
        None
    } else if b[pos] == 0 {
        match sdec_chars(b, pos + 1) {
            None => None,
            Some((t, p1)) => Some(
                (
                    SectionModel {
                        is_good: false,
                        bad_text: t,
                        days: Seq::empty(),
                        period: 0,
                    },
                    p1,
                ),
            ),
        }
    } else if b[pos] == 1 {
        match sdec_u64(b, pos + 1) {
            None => None,
            Some((period, p1)) => if p1 + 7 <= b.len() && bytes01(b.subrange(p1, p1 + 7)) {
                Some(
                    (
                        SectionModel {
                            is_good: true,
                            bad_text: Seq::empty(),
                            days: bools_of(b.subrange(p1, p1 + 7)),
                            period,
                        },
                        p1 + 7,
                    ),
                )
            } else {
                None
            },
        }
    } else {
        None
    }
}

/// Decode a class entry at `pos`.
pub open spec fn sdec_entry(b: Seq<u8>, pos: int) -> Option<(EntryModel, int)> {
    match sdec_chars(b, pos) {
        None => None,
        Some((name, p1)) => match sdec_section(b, p1) {
            None => None,
            Some((section, p2)) => match sdec_bytes(b, p2) {
                None => None,
                Some((picture, p3)) => match sdec_u64(b, p3) {
                    None => None,
                    Some((id, p4)) => Some((EntryModel { name, section, picture, id }, p4)),
                },
            },
        },
    }
}

/// Decode `count` class entries at `pos`.
pub open spec fn sdec_entry_list(b: Seq<u8>, pos: int, count: int) -> Option<(Seq<EntryModel>, int)>
    decreases count,
{
    if count <= 0 {
        Some((Seq::empty(), pos))
    } else {
        match sdec_entry(b, pos) {
            None => None,
            Some((m, p1)) => match sdec_entry_list(b, p1, count - 1) {
                None => None,
                Some((ms, p2)) => Some((seq![m] + ms, p2)),
            },
        }
    }
}

/// Decode a class entry list at `pos`.
pub open spec fn sdec_entries(b: Seq<u8>, pos: int) -> Option<(Seq<EntryModel>, int)> {
    match sdec_u64(b, pos) {
        None => None,
        Some((n, p1)) => sdec_entry_list(b, p1, n as int),
    }
}

/// Decode a material record at `pos`.
pub open spec fn sdec_material(b: Seq<u8>, pos: int) -> Option<(MaterialModel, int)> {
    match sdec_chars(b, pos) {
        None => None,
        Some((id, p1)) => if p1 < b.len() && b[p1] <= 6 {
            match sdec_chars(b, p1 + 1) {
                None => None,
                Some((title, p2)) => match sdec_chars(b, p2) {
                    None => None,
                    Some((body, p3)) => match sdec_chars(b, p3) {
                        None => None,
                        Some((due, p4)) => Some(
                            (MaterialModel { id, kind: b[p1], title, body, due }, p4),
                        ),
                    },
                },
            }
        } else {
            None
        },
    }
}

/// Decode `count` material records at `pos`.
pub open spec fn sdec_material_list(b: Seq<u8>, pos: int, count: int) -> Option<
    (Seq<MaterialModel>, int),
>
    decreases count,
{
    if count <= 0 {
        Some((Seq::empty(), pos))
    } else {
        match sdec_material(b, pos) {
            None => None,
            Some((m, p1)) => match sdec_material_list(b, p1, count - 1) {
                None => None,
                Some((ms, p2)) => Some((seq![m] + ms, p2)),
            },
        }
    }
}

/// Decode a material list at `pos`.
pub open spec fn sdec_materials(b: Seq<u8>, pos: int) -> Option<(Seq<MaterialModel>, int)> {
    match sdec_u64(b, pos) {
        None => None,
        Some((n, p1)) => sdec_material_list(b, p1, n as int),
    }
}

// ---------------------------------------------------------------------------
// Round-trip lemmas: decoding an encoding yields what was encoded.
// ---------------------------------------------------------------------------

/// A slice of an identified slice is the matching slice of the source.
proof fn lemma_slice_eq(b: Seq<u8>, pos: int, e: Seq<u8>, lo: int, hi: int)
    requires
        0 <= pos,
        pos + e.len() <= b.len(),
        b.subrange(pos, pos + e.len()) == e,
        0 <= lo <= hi <= e.len(),
    ensures
        b.subrange(pos + lo, pos + hi) == e.subrange(lo, hi),
{
    assert forall|i: int| 0 <= i < hi - lo implies b.subrange(pos + lo, pos + hi)[i] == e.subrange(
        lo,
        hi,
    )[i] by {
        assert(b[pos + lo + i] == b.subrange(pos, pos + e.len())[lo + i]);
    }
    assert(b.subrange(pos + lo, pos + hi) =~= e.subrange(lo, hi));
}

/// Decoding inverts encoding for sections.
pub proof fn lemma_rt_section(m: SectionModel, b: Seq<u8>, pos: int)
    requires
        wf_section_model(m),
        0 <= pos,
        pos + enc_section(m).len() <= b.len(),
        b.subrange(pos, pos + enc_section(m).len()) == enc_section(m),
    ensures
        sdec_section(b, pos) == Some((m, pos + enc_section(m).len())),
{
    let e = enc_section(m);
    assert(b[pos] == e[0]);
    if m.is_good {
        assert(e[0] == 1);
        lemma_slice_eq(b, pos, e, 1, 9);
        assert(e.subrange(1, 9) =~= enc_u64(m.period));
        lemma_rt_u64(m.period, b, pos + 1);
        lemma_slice_eq(b, pos, e, 9, 16);
        assert(e.subrange(9, 16) =~= bools_bytes(m.days));
        assert(bytes01(bools_bytes(m.days)));
        assert(bools_of(bools_bytes(m.days)) =~= m.days);
    } else {
        assert(e[0] == 0);
        lemma_slice_eq(b, pos, e, 1, e.len() as int);
        assert(e.subrange(1, e.len() as int) =~= enc_chars(m.bad_text));
        lemma_rt_chars(m.bad_text, b, pos + 1);
    }
}

/// Decoding inverts encoding for class entries.
pub proof fn lemma_rt_entry(m: EntryModel, b: Seq<u8>, pos: int)
    requires
        wf_entry_model(m),
        0 <= pos,
        pos + enc_entry(m).len() <= b.len(),
        b.subrange(pos, pos + enc_entry(m).len()) == enc_entry(m),
    ensures
        sdec_entry(b, pos) == Some((m, pos + enc_entry(m).len())),
{
    let e = enc_entry(m);
    let l1 = enc_chars(m.name).len() as int;
    let l2 = l1 + enc_section(m.section).len();
    let l3 = l2 + enc_bytes(m.picture).len();
    let l4 = l3 + 8;
    assert(e.len() == l4);
    lemma_slice_eq(b, pos, e, 0, l1);
    assert(e.subrange(0, l1) =~= enc_chars(m.name));
    lemma_rt_chars(m.name, b, pos);
    lemma_slice_eq(b, pos, e, l1, l2);
    assert(e.subrange(l1, l2) =~= enc_section(m.section));
    lemma_rt_section(m.section, b, pos + l1);
    lemma_slice_eq(b, pos, e, l2, l3);
    assert(e.subrange(l2, l3) =~= enc_bytes(m.picture));
    lemma_rt_bytes(m.picture, b, pos + l2);
    lemma_slice_eq(b, pos, e, l3, l4);
    assert(e.subrange(l3, l4) =~= enc_u64(m.id));
    lemma_rt_u64(m.id, b, pos + l3);
}

/// Decoding inverts encoding for entry lists.
pub proof fn lemma_rt_entry_list(ms: Seq<EntryModel>, b: Seq<u8>, pos: int)
    requires
        forall|k: int| 0 <= k < ms.len() ==> wf_entry_model(#[trigger] ms[k]),
        0 <= pos,
        pos + enc_entry_list(ms).len() <= b.len(),
        b.subrange(pos, pos + enc_entry_list(ms).len()) == enc_entry_list(ms),
    ensures
        sdec_entry_list(b, pos, ms.len() as int) == Some((ms, pos + enc_entry_list(ms).len())),
    decreases ms.len(),
{
    if ms.len() == 0 {
        assert(sdec_entry_list(b, pos, 0) == Some((Seq::<EntryModel>::empty(), pos)));
        assert(ms =~= Seq::<EntryModel>::empty());
    } else {
        let e = enc_entry_list(ms);
        let l1 = enc_entry(ms[0]).len() as int;
        lemma_slice_eq(b, pos, e, 0, l1);
        assert(e.subrange(0, l1) =~= enc_entry(ms[0]));
        lemma_rt_entry(ms[0], b, pos);
        lemma_slice_eq(b, pos, e, l1, e.len() as int);
        assert(e.subrange(l1, e.len() as int) =~= enc_entry_list(ms.drop_first()));
        lemma_rt_entry_list(ms.drop_first(), b, pos + l1);
        assert(seq![ms[0]] + ms.drop_first() =~= ms);
    }
}

/// Decoding inverts encoding for class entry payloads.
pub proof fn lemma_rt_entries(ms: Seq<EntryModel>, b: Seq<u8>, pos: int)
    requires
        forall|k: int| 0 <= k < ms.len() ==> wf_entry_model(#[trigger] ms[k]),
        ms.len() <= u64::MAX,
        0 <= pos,
        pos + enc_entries(ms).len() <= b.len(),
        b.subrange(pos, pos + enc_entries(ms).len()) == enc_entries(ms),
    ensures
        sdec_entries(b, pos) == Some((ms, pos + enc_entries(ms).len())),
{
    let e = enc_entries(ms);
    lemma_slice_eq(b, pos, e, 0, 8);
    assert(e.subrange(0, 8) =~= enc_u64(ms.len() as u64));
    lemma_rt_u64(ms.len() as u64, b, pos);
    lemma_slice_eq(b, pos, e, 8, e.len() as int);
    assert(e.subrange(8, e.len() as int) =~= enc_entry_list(ms));
    lemma_rt_entry_list(ms, b, pos + 8);
}

/// Decoding inverts encoding for material records.
pub proof fn lemma_rt_material(m: MaterialModel, b: Seq<u8>, pos: int)
    requires
        wf_material_model(m),
        0 <= pos,
        pos + enc_material(m).len() <= b.len(),
        b.subrange(pos, pos + enc_material(m).len()) == enc_material(m),
    ensures
        sdec_material(b, pos) == Some((m, pos + enc_material(m).len())),
{
    let e = enc_material(m);
    let l1 = enc_chars(m.id).len() as int;
    let l2 = l1 + 1;
    let l3 = l2 + enc_chars(m.title).len();
    let l4 = l3 + enc_chars(m.body).len();
    let l5 = l4 + enc_chars(m.due).len();
    assert(e.len() == l5);
    lemma_slice_eq(b, pos, e, 0, l1);
    assert(e.subrange(0, l1) =~= enc_chars(m.id));
    lemma_rt_chars(m.id, b, pos);
    assert(b[pos + l1] == e[l1]);
    assert(e[l1] == m.kind);
    lemma_slice_eq(b, pos, e, l2, l3);
    assert(e.subrange(l2, l3) =~= enc_chars(m.title));
    lemma_rt_chars(m.title, b, pos + l2);
    lemma_slice_eq(b, pos, e, l3, l4);
    assert(e.subrange(l3, l4) =~= enc_chars(m.body));
    lemma_rt_chars(m.body, b, pos + l3);
    lemma_slice_eq(b, pos, e, l4, l5);
    assert(e.subrange(l4, l5) =~= enc_chars(m.due));
    lemma_rt_chars(m.due, b, pos + l4);
}

/// Decoding inverts encoding for material lists.
pub proof fn lemma_rt_material_list(ms: Seq<MaterialModel>, b: Seq<u8>, pos: int)
    requires
        forall|k: int| 0 <= k < ms.len() ==> wf_material_model(#[trigger] ms[k]),
        0 <= pos,
        pos + enc_material_list(ms).len() <= b.len(),
        b.subrange(pos, pos + enc_material_list(ms).len()) == enc_material_list(ms),
    ensures
        sdec_material_list(b, pos, ms.len() as int) == Some(
            (ms, pos + enc_material_list(ms).len()),
        ),
    decreases ms.len(),
{
    if ms.len() == 0 {
        assert(ms =~= Seq::<MaterialModel>::empty());
    } else {
        let e = enc_material_list(ms);
        let l1 = enc_material(ms[0]).len() as int;
        lemma_slice_eq(b, pos, e, 0, l1);
        assert(e.subrange(0, l1) =~= enc_material(ms[0]));
        lemma_rt_material(ms[0], b, pos);
        lemma_slice_eq(b, pos, e, l1, e.len() as int);
        assert(e.subrange(l1, e.len() as int) =~= enc_material_list(ms.drop_first()));
        lemma_rt_material_list(ms.drop_first(), b, pos + l1);
        assert(seq![ms[0]] + ms.drop_first() =~= ms);
    }
}

// ---------------------------------------------------------------------------
// Executable encoders and decoders.
// ---------------------------------------------------------------------------

/// Append the encoding of a section to `out`.
fn push_section(out: &mut Vec<u8>, g: &SectionDataGuts)
    ensures
        final(out)@ == old(out)@ + enc_section(section_model(*g)),
        wf_section_model(section_model(*g)),
{
    match g {
        SectionDataGuts::Bad(s) => {
            out.push(0u8);
            push_chars(out, s.as_str());
            proof {
                assert(final(out)@ =~= old(out)@ + enc_section(section_model(*g)));
            }
        },
        SectionDataGuts::Good { days, period } => {
            out.push(1u8);
            push_u64(out, *period);
            let ghost mid = out@;
            let mut i: usize = 0;
            while i < 7
                invariant
                    i <= 7,
                    days@.len() == 7,
                    out@ == mid + bools_bytes(days@).take(i as int),
                decreases 7 - i,
            {
                let byte: u8 = if days[i] {
                    1
                } else {
                    0
                };
                out.push(byte);
                i = i + 1;
                proof {
                    assert(mid + bools_bytes(days@).take(i as int) =~= (mid + bools_bytes(
                        days@,
                    ).take(i - 1 as int)).push(if days@[i - 1] {
                        1u8
                    } else {
                        0u8
                    }));
                }
            }
            proof {
                assert(bools_bytes(days@).take(7) =~= bools_bytes(days@));
                assert(out@ =~= old(out)@ + enc_section(section_model(*g)));
            }
        },
    }
}

/// Append the encoding of a class entry to `out`.
fn push_entry(out: &mut Vec<u8>, e: &ClassEntry)
    ensures
        final(out)@ == old(out)@ + enc_entry(entry_model(*e)),
        wf_entry_model(entry_model(*e)),
{
    push_chars(out, e.name.as_str());
    push_section(out, &e.section.guts);
    push_bytes(out, &e.picture);
    push_u64(out, e.id.0);
    proof {
        assert(final(out)@ =~= old(out)@ + enc_entry(entry_model(*e)));
    }
}

proof fn lemma_enc_entry_list_push(ms: Seq<EntryModel>, m: EntryModel)
    ensures
        enc_entry_list(ms.push(m)) =~= enc_entry_list(ms) + enc_entry(m),
    decreases ms.len(),
{
    if ms.len() == 0 {
        assert(ms.push(m)[0] == m);
        assert(ms.push(m).drop_first() =~= Seq::<EntryModel>::empty());
        assert(enc_entry_list(ms.push(m)) == enc_entry(m) + enc_entry_list(
            Seq::<EntryModel>::empty(),
        ));
        assert(enc_entry_list(Seq::<EntryModel>::empty()) =~= Seq::<u8>::empty());
        assert(enc_entry_list(ms) =~= Seq::<u8>::empty());
    } else {
        assert(ms.push(m)[0] == ms[0]);
        assert(ms.push(m).drop_first() =~= ms.drop_first().push(m));
        lemma_enc_entry_list_push(ms.drop_first(), m);
        assert(enc_entry_list(ms.push(m)) == enc_entry(ms[0]) + enc_entry_list(
            ms.drop_first().push(m),
        ));
        assert(enc_entry_list(ms) == enc_entry(ms[0]) + enc_entry_list(ms.drop_first()));
    }
}

/// Encode a class listing.
#[verifier::rlimit(100)]
pub fn class_entries_to_bytes(v: &Vec<ClassEntry>) -> (r: Vec<u8>)
    ensures
        r@ == enc_entries(entry_models(v@)),
        forall|k: int| 0 <= k < v@.len() ==> wf_entry_model(#[trigger] entry_models(v@)[k]),
        v@.len() <= u64::MAX,
{
    let mut out: Vec<u8> = Vec::new();
    push_u64(&mut out, v.len() as u64);
    let ghost base = out@;
    let mut i: usize = 0;
    proof {
        assert(entry_models(v@.take(0)) =~= Seq::<EntryModel>::empty());
    }
    while i < v.len()
        invariant
            i <= v@.len(),
            base == enc_u64(v@.len() as u64),
            out@ == base + enc_entry_list(entry_models(v@.take(i as int))),
            forall|k: int|
                0 <= k < i ==> wf_entry_model(#[trigger] entry_models(v@)[k]),
        decreases v@.len() - i,
    {
        push_entry(&mut out, &v[i]);
        i = i + 1;
        proof {
            let prev = entry_models(v@.take(i - 1 as int));
            let cur = entry_models(v@.take(i as int));
            assert(cur =~= prev.push(entry_model(v@[i - 1])));
            lemma_enc_entry_list_push(prev, entry_model(v@[i - 1]));
            assert(entry_models(v@)[i - 1] == entry_model(v@[i - 1]));
        }
    }
    proof {
        assert(v@.take(v@.len() as int) =~= v@);
        assert(out@ =~= enc_entries(entry_models(v@)));
    }
    out
}

/// Decode a section at `pos`.
#[verifier::rlimit(100)]
#[verifier::loop_isolation(false)]
fn dec_section_at(b: &Vec<u8>, pos: usize) -> (r: Option<(SectionDataGuts, usize)>)
    ensures
        match r {
            Some((g, p2)) => sdec_section(b@, pos as int) == Some((section_model(g), p2 as int)),
            None => sdec_section(b@, pos as int) is None,
        },
{
    if pos >= b.len() {
        return None;
    }
    let tag = b[pos];
    if tag == 0 {
        match dec_string_at(b, pos + 1) {
            Some((s, p1)) => Some((SectionDataGuts::Bad(s), p1)),
            None => None,
        }
    } else if tag == 1 {
        let (period, p1) = match dec_u64_at(b, pos + 1) {
            Some(x) => x,
            None => {
                return None;
            },
        };
        if b.len() - p1 < 7 {
            return None;
        }
        let blen = b.len();
        let mut days: [bool; 7] = [false; 7];
        let ghost sub = b@.subrange(p1 as int, p1 + 7);
        let mut i: usize = 0;
        while i < 7
            invariant
                i <= 7,
                p1 + 7 <= b@.len(),
                blen == b@.len(),
                sub == b@.subrange(p1 as int, p1 + 7),
                days@.len() == 7,
                forall|m: int| 0 <= m < i ==> (sub[m] == 0 || sub[m] == 1),
                forall|m: int| 0 <= m < i ==> days@[m] == (sub[m] == 1),
                forall|m: int| i <= m < 7 ==> days@[m] == false,
            decreases 7 - i,
        {
            let byte = b[p1 + i];
            proof {
                assert(sub[i as int] == b@[p1 + i]);
            }
            if byte == 1 {
                days[i] = true;
            } else if byte != 0 {
                proof {
                    assert(sub[i as int] != 0 && sub[i as int] != 1);
                    assert(!bytes01(sub));
                }
                return None;
            }
            i = i + 1;
        }
        proof {
            assert(bytes01(sub));
            assert(days@ =~= bools_of(sub));
        }
        Some((SectionDataGuts::Good { days, period }, p1 + 7))
    } else {
        None
    }
}

/// Decode a class entry at `pos`.
#[verifier::rlimit(100)]
fn dec_entry_at(b: &Vec<u8>, pos: usize) -> (r: Option<(ClassEntry, usize)>)
    ensures
        match r {
            Some((e, p2)) => sdec_entry(b@, pos as int) == Some((entry_model(e), p2 as int)),
            None => sdec_entry(b@, pos as int) is None,
        },
{
    let (name, p1) = match dec_string_at(b, pos) {
        Some(x) => x,
        None => {
            return None;
        },
    };
    let (guts, p2) = match dec_section_at(b, p1) {
        Some(x) => x,
        None => {
            return None;
        },
    };
    let (picture, p3) = match dec_bytes_at(b, p2) {
        Some(x) => x,
        None => {
            return None;
        },
    };
    let (id, p4) = match dec_u64_at(b, p3) {
        Some(x) => x,
        None => {
            return None;
        },
    };
    Some(
        (
            ClassEntry {
                name,
                section: SectionData { guts },
                picture,
                id: ClassID(id),
            },
            p4,
        ),
    )
}

/// Decode a whole class listing; the input must be consumed exactly.
#[verifier::rlimit(100)]
#[verifier::loop_isolation(false)]
pub fn class_entries_from_bytes(b: &Vec<u8>) -> (r: Option<Vec<ClassEntry>>)
    ensures
        match r {
            Some(v) => sdec_entries(b@, 0) == Some((entry_models(v@), b@.len() as int)),
            None => !(sdec_entries(b@, 0) matches Some(pair) && pair.1 == b@.len()),
        },
{
    let (n, p0) = match dec_u64_at(b, 0) {
        Some(x) => x,
        None => {
            return None;
        },
    };
    let mut out: Vec<ClassEntry> = Vec::new();
    let mut pos: usize = p0;
    let mut i: u64 = 0;
    proof {
        assert(entry_models(out@) =~= Seq::<EntryModel>::empty());
        assert(sdec_entry_list(b@, p0 as int, n as int) == (match sdec_entry_list(
            b@,
            pos as int,
            n - i,
        ) {
            Option::None => Option::<(Seq<EntryModel>, int)>::None,
            Option::Some((ms, p)) => Option::Some((entry_models(out@) + ms, p)),
        }));
    }
    while i < n
        invariant
            i <= n,
            sdec_entry_list(b@, p0 as int, n as int) == (match sdec_entry_list(
                b@,
                pos as int,
                n - i,
            ) {
                Option::None => Option::<(Seq<EntryModel>, int)>::None,
                Option::Some((ms, p)) => Option::Some((entry_models(out@) + ms, p)),
            }),
        decreases n - i,
    {
        let (e, p2) = match dec_entry_at(b, pos) {
            Some(x) => x,
            None => {
                proof {
                    assert(sdec_entry_list(b@, pos as int, n - i) is None);
                }
                return None;
            },
        };
        let ghost prev_out = out@;
        out.push(e);
        proof {
            assert(entry_models(out@) =~= entry_models(prev_out).push(entry_model(e)));
            assert forall|ms: Seq<EntryModel>|
                entry_models(prev_out) + (seq![entry_model(e)] + ms) =~= entry_models(out@)
                    + ms by {}
        }
        pos = p2;
        i = i + 1;
    }
    proof {
        assert(sdec_entry_list(b@, pos as int, 0) == Some((Seq::<EntryModel>::empty(), pos as int)));
        assert(entry_models(out@) + Seq::<EntryModel>::empty() =~= entry_models(out@));
    }
    if pos == b.len() {
        Some(out)
    } else {
        None
    }
}

/// Append the encoding of a material record to `out`.
fn push_material(out: &mut Vec<u8>, m: &MaterialEntry)
    ensures
        final(out)@ == old(out)@ + enc_material(material_model(*m)),
        wf_material_model(material_model(*m)),
{
    push_chars(out, m.id.as_str());
    let tag: u8 = match m.kind {
        MaterialKind::Assignment => 0,
        MaterialKind::Discussion => 1,
        MaterialKind::File => 2,
        MaterialKind::Link => 3,
        MaterialKind::TestQuiz => 4,
        MaterialKind::Folder => 5,
        MaterialKind::Other => 6,
    };
    out.push(tag);
    push_chars(out, m.title.as_str());
    push_chars(out, m.body.as_str());
    push_chars(out, m.due.as_str());
    proof {
        assert(final(out)@ =~= old(out)@ + enc_material(material_model(*m)));
    }
}

proof fn lemma_enc_material_list_push(ms: Seq<MaterialModel>, m: MaterialModel)
    ensures
        enc_material_list(ms.push(m)) =~= enc_material_list(ms) + enc_material(m),
    decreases ms.len(),
{
    if ms.len() == 0 {
        assert(ms.push(m)[0] == m);
        assert(ms.push(m).drop_first() =~= Seq::<MaterialModel>::empty());
        assert(enc_material_list(ms.push(m)) == enc_material(m) + enc_material_list(
            Seq::<MaterialModel>::empty(),
        ));
        assert(enc_material_list(Seq::<MaterialModel>::empty()) =~= Seq::<u8>::empty());
        assert(enc_material_list(ms) =~= Seq::<u8>::empty());
    } else {
        assert(ms.push(m)[0] == ms[0]);
        assert(ms.push(m).drop_first() =~= ms.drop_first().push(m));
        lemma_enc_material_list_push(ms.drop_first(), m);
        assert(enc_material_list(ms.push(m)) == enc_material(ms[0]) + enc_material_list(
            ms.drop_first().push(m),
        ));
        assert(enc_material_list(ms) == enc_material(ms[0]) + enc_material_list(ms.drop_first()));
    }
}

/// Encode a material list.
#[verifier::rlimit(100)]
pub fn materials_to_bytes(v: &Vec<MaterialEntry>) -> (r: Vec<u8>)
    ensures
        r@ == enc_materials(material_models(v@)),
        forall|k: int| 0 <= k < v@.len() ==> wf_material_model(#[trigger] material_models(v@)[k]),
        v@.len() <= u64::MAX,
{
    let mut out: Vec<u8> = Vec::new();
    push_u64(&mut out, v.len() as u64);
    let ghost base = out@;
    let mut i: usize = 0;
    proof {
        assert(material_models(v@.take(0)) =~= Seq::<MaterialModel>::empty());
    }
    while i < v.len()
        invariant
            i <= v@.len(),
            base == enc_u64(v@.len() as u64),
            out@ == base + enc_material_list(material_models(v@.take(i as int))),
            forall|k: int|
                0 <= k < i ==> wf_material_model(#[trigger] material_models(v@)[k]),
        decreases v@.len() - i,
    {
        push_material(&mut out, &v[i]);
        i = i + 1;
        proof {
            let prev = material_models(v@.take(i - 1 as int));
            let cur = material_models(v@.take(i as int));
            assert(cur =~= prev.push(material_model(v@[i - 1])));
            lemma_enc_material_list_push(prev, material_model(v@[i - 1]));
            assert(material_models(v@)[i - 1] == material_model(v@[i - 1]));
        }
    }
    proof {
        assert(v@.take(v@.len() as int) =~= v@);
        assert(out@ =~= enc_materials(material_models(v@)));
    }
    out
}

fn kind_of_tag(t: u8) -> (k: MaterialKind)
    requires
        t <= 6,
    ensures
        k == tag_kind(t),
        kind_tag(k) == t,
{
    if t == 0 {
        MaterialKind::Assignment
    } else if t == 1 {
        MaterialKind::Discussion
    } else if t == 2 {
        MaterialKind::File
    } else if t == 3 {
        MaterialKind::Link
    } else if t == 4 {
        MaterialKind::TestQuiz
    } else if t == 5 {
        MaterialKind::Folder
    } else {
        MaterialKind::Other
    }
}

/// Decode a material record at `pos`.
#[verifier::rlimit(100)]
fn dec_material_at(b: &Vec<u8>, pos: usize) -> (r: Option<(MaterialEntry, usize)>)
    ensures
        match r {
            Some((m, p2)) => sdec_material(b@, pos as int) == Some((material_model(m), p2 as int)),
            None => sdec_material(b@, pos as int) is None,
        },
{
    let (id, p1) = match dec_string_at(b, pos) {
        Some(x) => x,
        None => {
            return None;
        },
    };
    if p1 >= b.len() || b[p1] > 6 {
        return None;
    }
    let kind = kind_of_tag(b[p1]);
    let (title, p2) = match dec_string_at(b, p1 + 1) {
        Some(x) => x,
        None => {
            return None;
        },
    };
    let (body, p3) = match dec_string_at(b, p2) {
        Some(x) => x,
        None => {
            return None;
        },
    };
    let (due, p4) = match dec_string_at(b, p3) {
        Some(x) => x,
        None => {
            return None;
        },
    };
    Some((MaterialEntry { id, kind, title, body, due }, p4))
}

/// Decode a whole material list; the input must be consumed exactly.
#[verifier::rlimit(100)]
#[verifier::loop_isolation(false)]
pub fn materials_from_bytes(b: &Vec<u8>) -> (r: Option<Vec<MaterialEntry>>)
    ensures
        match r {
            Some(v) => sdec_materials(b@, 0) == Some((material_models(v@), b@.len() as int)),
            None => !(sdec_materials(b@, 0) matches Some(pair) && pair.1 == b@.len()),
        },
{
    let (n, p0) = match dec_u64_at(b, 0) {
        Some(x) => x,
        None => {
            return None;
        },
    };
    let mut out: Vec<MaterialEntry> = Vec::new();
    let mut pos: usize = p0;
    let mut i: u64 = 0;
    proof {
        assert(material_models(out@) =~= Seq::<MaterialModel>::empty());
        assert(sdec_material_list(b@, p0 as int, n as int) == (match sdec_material_list(
            b@,
            pos as int,
            n - i,
        ) {
            Option::None => Option::<(Seq<MaterialModel>, int)>::None,
            Option::Some((ms, p)) => Option::Some((material_models(out@) + ms, p)),
        }));
    }
    while i < n
        invariant
            i <= n,
            sdec_material_list(b@, p0 as int, n as int) == (match sdec_material_list(
                b@,
                pos as int,
                n - i,
            ) {
                Option::None => Option::<(Seq<MaterialModel>, int)>::None,
                Option::Some((ms, p)) => Option::Some((material_models(out@) + ms, p)),
            }),
        decreases n - i,
    {
        let (e, p2) = match dec_material_at(b, pos) {
            Some(x) => x,
            None => {
                proof {
                    assert(sdec_material_list(b@, pos as int, n - i) is None);
                }
                return None;
            },
        };
        let ghost prev_out = out@;
        out.push(e);
        proof {
            assert(material_models(out@) =~= material_models(prev_out).push(material_model(e)));
            assert forall|ms: Seq<MaterialModel>|
                material_models(prev_out) + (seq![material_model(e)] + ms) =~= material_models(
                    out@,
                ) + ms by {}
        }
        pos = p2;
        i = i + 1;
    }
    proof {
        assert(sdec_material_list(b@, pos as int, 0) == Some(
            (Seq::<MaterialModel>::empty(), pos as int),
        ));
        assert(material_models(out@) + Seq::<MaterialModel>::empty() =~= material_models(out@));
    }
    if pos == b.len() {
        Some(out)
    } else {
        None
    }
}

/// Decoding inverts encoding for material payloads.
pub proof fn lemma_rt_materials(ms: Seq<MaterialModel>, b: Seq<u8>, pos: int)
    requires
        forall|k: int| 0 <= k < ms.len() ==> wf_material_model(#[trigger] ms[k]),
        ms.len() <= u64::MAX,
        0 <= pos,
        pos + enc_materials(ms).len() <= b.len(),
        b.subrange(pos, pos + enc_materials(ms).len()) == enc_materials(ms),
    ensures
        sdec_materials(b, pos) == Some((ms, pos + enc_materials(ms).len())),
{
    let e = enc_materials(ms);
    lemma_slice_eq(b, pos, e, 0, 8);
    assert(e.subrange(0, 8) =~= enc_u64(ms.len() as u64));
    lemma_rt_u64(ms.len() as u64, b, pos);
    lemma_slice_eq(b, pos, e, 8, e.len() as int);
    assert(e.subrange(8, e.len() as int) =~= enc_material_list(ms));
    lemma_rt_material_list(ms, b, pos + 8);
}

// ---------------------------------------------------------------------------
// Base64-armoured payloads.
// ---------------------------------------------------------------------------

/// Why a base64 payload failed to decode.
#[derive(Clone, Copy, Debug, PartialEq, Eq, Structural)]
pub enum PayloadError {
    /// The text was not valid base64.
    Base64,
    /// The bytes did not decode as exactly one payload of the expected shape.
    Malformed,
}

impl ClassEntry {
    /// The base64 text form of this entry's encoding.
    pub fn to_base64(&self) -> (r: String)
        ensures
            r@ == crate::b64::base64_of(enc_entry(entry_model(*self))),
            wf_entry_model(entry_model(*self)),
    {
        let mut out: Vec<u8> = Vec::new();
        push_entry(&mut out, self);
        proof {
            assert(out@ =~= enc_entry(entry_model(*self)));
        }
        crate::b64::base64_encode(&out)
    }

    /// Decode an entry from its base64 text form; decoding inverts
    /// [`ClassEntry::to_base64`].
    #[verifier::rlimit(100)]
    pub fn from_base64(s: &str) -> (r: Result<ClassEntry, PayloadError>)
        ensures
            forall|m: EntryModel|
                wf_entry_model(m) && s@ == crate::b64::base64_of(#[trigger] enc_entry(m)) ==> (
                r matches Ok(e) && entry_model(e) == m),
    {
        let d = match crate::b64::base64_decode(s) {
            Some(d) => d,
            None => {
                return Result::Err(PayloadError::Base64);
            },
        };
        match dec_entry_at(&d, 0) {
            Some((e, p)) => {
                if p == d.len() {
                    proof {
                        assert forall|m: EntryModel|
                            wf_entry_model(m) && s@ == crate::b64::base64_of(
                                #[trigger] enc_entry(m),
                            ) implies entry_model(e) == m by {
                            assert(d@.subrange(0, enc_entry(m).len() as int) =~= enc_entry(m));
                            lemma_rt_entry(m, d@, 0);
                        }
                    }
                    Result::Ok(e)
                } else {
                    proof {
                        assert forall|m: EntryModel|
                            !(wf_entry_model(m) && s@ == crate::b64::base64_of(
                                #[trigger] enc_entry(m),
                            )) by {
                            if wf_entry_model(m) && s@ == crate::b64::base64_of(enc_entry(m)) {
                                assert(d@.subrange(0, enc_entry(m).len() as int) =~= enc_entry(m));
                                lemma_rt_entry(m, d@, 0);
                            }
                        }
                    }
                    Result::Err(PayloadError::Malformed)
                }
            },
            None => {
                proof {
                    assert forall|m: EntryModel|
                        !(wf_entry_model(m) && s@ == crate::b64::base64_of(
                            #[trigger] enc_entry(m),
                        )) by {
                        if wf_entry_model(m) && s@ == crate::b64::base64_of(enc_entry(m)) {
                            assert(d@.subrange(0, enc_entry(m).len() as int) =~= enc_entry(m));
                            lemma_rt_entry(m, d@, 0);
                        }
                    }
                }
                Result::Err(PayloadError::Malformed)
            },
        }
    }
}

/// Encode a class listing as base64 text. The text is a pure function of the
/// listing's contents, so equal listings give byte-identical payloads.
pub fn class_listing_to_base64(v: &Vec<ClassEntry>) -> (r: String)
    ensures
        r@ == crate::b64::base64_of(enc_entries(entry_models(v@))),
{
    let bytes = class_entries_to_bytes(v);
    crate::b64::base64_encode(&bytes)
}

/// Decode a class listing from base64 text; decoding inverts
/// [`class_listing_to_base64`].
#[verifier::rlimit(100)]
pub fn class_listing_from_base64(s: &str) -> (r: Result<Vec<ClassEntry>, PayloadError>)
    ensures
        forall|ms: Seq<EntryModel>|
            ((forall|k: int| 0 <= k < ms.len() ==> wf_entry_model(#[trigger] ms[k])) && ms.len()
                <= u64::MAX && s@ == crate::b64::base64_of(#[trigger] enc_entries(ms))) ==> (
            r matches Ok(v) && entry_models(v@) == ms),
{
    let d = match crate::b64::base64_decode(s) {
        Some(d) => d,
        None => {
            return Result::Err(PayloadError::Base64);
        },
    };
    match class_entries_from_bytes(&d) {
        Some(v) => {
            proof {
                assert forall|ms: Seq<EntryModel>|
                    ((forall|k: int| 0 <= k < ms.len() ==> wf_entry_model(#[trigger] ms[k]))
                        && ms.len() <= u64::MAX && s@ == crate::b64::base64_of(
                        #[trigger] enc_entries(ms),
                    )) implies entry_models(v@) == ms by {
                    assert(d@.subrange(0, enc_entries(ms).len() as int) =~= enc_entries(ms));
                    lemma_rt_entries(ms, d@, 0);
                }
            }
            Result::Ok(v)
        },
        None => {
            proof {
                assert forall|ms: Seq<EntryModel>|
                    !((forall|k: int| 0 <= k < ms.len() ==> wf_entry_model(#[trigger] ms[k]))
                        && ms.len() <= u64::MAX && s@ == crate::b64::base64_of(
                        #[trigger] enc_entries(ms),
                    )) by {
                    if (forall|k: int| 0 <= k < ms.len() ==> wf_entry_model(#[trigger] ms[k]))
                        && ms.len() <= u64::MAX && s@ == crate::b64::base64_of(enc_entries(ms)) {
                        assert(d@.subrange(0, enc_entries(ms).len() as int) =~= enc_entries(ms));
                        lemma_rt_entries(ms, d@, 0);
                    }
                }
            }
            Result::Err(PayloadError::Malformed)
        },
    }
}

/// Encode a material list as base64 text.
pub fn materials_to_base64(v: &Vec<MaterialEntry>) -> (r: String)
    ensures
        r@ == crate::b64::base64_of(enc_materials(material_models(v@))),
{
    let bytes = materials_to_bytes(v);
    crate::b64::base64_encode(&bytes)
}

/// Decode a material list from base64 text; decoding inverts
/// [`materials_to_base64`].
#[verifier::rlimit(100)]
pub fn materials_from_base64(s: &str) -> (r: Result<Vec<MaterialEntry>, PayloadError>)
    ensures
        forall|ms: Seq<MaterialModel>|
            ((forall|k: int| 0 <= k < ms.len() ==> wf_material_model(#[trigger] ms[k])) && ms.len()
                <= u64::MAX && s@ == crate::b64::base64_of(#[trigger] enc_materials(ms))) ==> (
            r matches Ok(v) && material_models(v@) == ms),
{
    let d = match crate::b64::base64_decode(s) {
        Some(d) => d,
        None => {
            return Result::Err(PayloadError::Base64);
        },
    };
    match materials_from_bytes(&d) {
        Some(v) => {
            proof {
                assert forall|ms: Seq<MaterialModel>|
                    ((forall|k: int| 0 <= k < ms.len() ==> wf_material_model(#[trigger] ms[k]))
                        && ms.len() <= u64::MAX && s@ == crate::b64::base64_of(
                        #[trigger] enc_materials(ms),
                    )) implies material_models(v@) == ms by {
                    assert(d@.subrange(0, enc_materials(ms).len() as int) =~= enc_materials(ms));
                    lemma_rt_materials(ms, d@, 0);
                }
            }
            Result::Ok(v)
        },
        None => {
            proof {
                assert forall|ms: Seq<MaterialModel>|
                    !((forall|k: int| 0 <= k < ms.len() ==> wf_material_model(#[trigger] ms[k]))
                        && ms.len() <= u64::MAX && s@ == crate::b64::base64_of(
                        #[trigger] enc_materials(ms),
                    )) by {
                    if (forall|k: int| 0 <= k < ms.len() ==> wf_material_model(#[trigger] ms[k]))
                        && ms.len() <= u64::MAX && s@ == crate::b64::base64_of(
                        enc_materials(ms),
                    ) {
                        assert(d@.subrange(0, enc_materials(ms).len() as int) =~= enc_materials(ms));
                        lemma_rt_materials(ms, d@, 0);
                    }
                }
            }
            Result::Err(PayloadError::Malformed)
        },
    }
}

impl LoginError {
    /// The base64 text form of this error's encoding.
    pub fn to_base64(&self) -> (r: String)
        ensures
            r@ == crate::b64::base64_of(enc_login_error(*self)),
    {
        let tag: u8 = match self {
            LoginError::SerializationError => 0,
            LoginError::FindFormError => 1,
            LoginError::InvalidCredsError => 2,
            LoginError::RequestError => 3,
            LoginError::LaterRequestError => 4,
            LoginError::DecodeError => 5,
            LoginError::JsonError => 6,
        };
        let mut out: Vec<u8> = Vec::new();
        out.push(tag);
        proof {
            assert(out@ =~= enc_login_error(*self));
        }
        crate::b64::base64_encode(&out)
    }

    /// Decode an error from its base64 text form; decoding inverts
    /// [`LoginError::to_base64`].
    pub fn from_base64(s: &str) -> (r: Result<LoginError, PayloadError>)
        ensures
            forall|e: LoginError|
                s@ == crate::b64::base64_of(#[trigger] enc_login_error(e)) ==> r == Result::<
                    LoginError,
                    PayloadError,
                >::Ok(e),
    {
        let d = match crate::b64::base64_decode(s) {
            Some(d) => d,
            None => {
                return Result::Err(PayloadError::Base64);
            },
        };
        if d.len() != 1 || d[0] > 6 {
            proof {
                assert forall|e: LoginError|
                    s@ != crate::b64::base64_of(#[trigger] enc_login_error(e)) by {
                    if s@ == crate::b64::base64_of(enc_login_error(e)) {
                        assert(d@ == enc_login_error(e));
                    }
                }
            }
            return Result::Err(PayloadError::Malformed);
        }
        let tag = d[0];
        let e = if tag == 0 {
            LoginError::SerializationError
        } else if tag == 1 {
            LoginError::FindFormError
        } else if tag == 2 {
            LoginError::InvalidCredsError
        } else if tag == 3 {
            LoginError::RequestError
        } else if tag == 4 {
            LoginError::LaterRequestError
        } else if tag == 5 {
            LoginError::DecodeError
        } else {
            LoginError::JsonError
        };
        proof {
            assert forall|e2: LoginError|
                s@ == crate::b64::base64_of(#[trigger] enc_login_error(e2)) implies e == e2 by {
                assert(d@ == enc_login_error(e2));
                assert(d@[0] == enc_login_error(e2)[0]);
            }
        }
        Result::Ok(e)
    }
}

} // verus!
