//! Protobuf messages that describe cards and errors.

use vstd::prelude::*;
use vstd::utf8::*;
use crate::wire::{
    decode_into, decode_message, encode_fields, fields_wf, lemma_decode_encode_fields,
    lemma_chain, lemma_encode_fields_append, lemma_fields_wf_append, lemma_merge_fields_append, merge_fields,
    Message, RawField, SpecField, WireMessage, MAX_FIELD_NUMBER,
};
use crate::codec::{
    append_all, lemma_encode_empty, as_bytes, as_i64s, as_string, as_varint, extend_i64, fits, i64s_as_u64s,
    lemma_fits_one, lemma_fits_parts, lemma_fits_seg_bytes, lemma_fits_seg_packed, lemma_fits_seg_rep,
    lemma_fits_seg_str, lemma_i64s_round, lemma_merge_one, lemma_rep_empty, lemma_rep_split, lemma_rep_wf,
    lemma_seg_empty, lemma_seg_len, lemma_seg_opt_u64, lemma_seg_rep_full, lemma_seg_u64, opt_string_view,
    lemma_zero_i32, lemma_zero_i64, lfield, merge_nested, opt_u64_seg, packed_bytes, put_bool,
    put_bytes, put_i32, put_i64, put_msg, put_opt_str, put_opt_u64, put_packed_i64, put_rep_item,
    put_rep_str, put_str, put_u32, put_u64, raw_bytes, raw_i64s, raw_nested, raw_string,
    raw_varint, seg_bool, seg_bytes, seg_i32, seg_i64, seg_msg, seg_opt_str, seg_packed_i64,
    seg_rep, seg_str, seg_u32, seg_u64, strings_view, utf8_all,
};

verus! {

broadcast use vstd::utf8::group_utf8_lib;

/// An error reported by the server.
#[derive(Clone, Debug, PartialEq, Default)]
pub struct ApiError {
    pub code: i32,
    pub message: String,
    pub retryable: bool,
}

/// The value of a [`ApiError`].
pub struct SpecApiError {
    pub code: i32,
    pub message: Seq<char>,
    pub retryable: bool,
}

impl View for ApiError {
    type V = SpecApiError;

    open spec fn view(&self) -> SpecApiError {
        SpecApiError {
            code: self.code,
            message: self.message@,
            retryable: self.retryable,
        }
    }
}

impl SpecApiError {
    /// Every field at its default.
    pub open spec fn empty() -> SpecApiError {
        SpecApiError {
            code: 0i32,
            message: Seq::empty(),
            retryable: false,
        }
    }

    /// The fields written for this value, in field-number order.
    #[verifier::opaque]
    pub open spec fn fields(self) -> Seq<SpecField> {
        seg_i32(1, self.code)
            + seg_str(2, self.message)
            + seg_bool(3, self.retryable)
    }

    pub open spec fn encoded(self) -> Seq<u8> {
        encode_fields(self.fields())
    }

    pub open spec fn encode_all(v: Seq<SpecApiError>) -> Seq<Seq<u8>> {
        Seq::new(v.len(), |i: int| v[i].encoded())
    }

    /// Every length-delimited payload fits a varint length.
    #[verifier::opaque]
    pub open spec fn wf(self) -> bool {
        fits(encode_utf8(self.message))
    }
}

impl Message for SpecApiError {
    open spec fn merge(self, f: SpecField) -> Option<SpecApiError> {
        if f.number == 1 {
            match as_varint(f.value) { Some(v) => Some(SpecApiError { code: v as i32, ..self }), None => None }
        } else if f.number == 2 {
            match as_string(f.value) { Some(s) => Some(SpecApiError { message: s, ..self }), None => None }
        } else if f.number == 3 {
            match as_varint(f.value) { Some(v) => Some(SpecApiError { retryable: v != 0, ..self }), None => None }
        } else {
            Some(self)
        }
    }
}

impl WireMessage for ApiError {
    type Spec = SpecApiError;

    open spec fn spec_of(&self) -> SpecApiError {
        self@
    }

    open spec fn spec_default() -> SpecApiError {
        SpecApiError::empty()
    }

    fn default_value() -> (r: Self) {
        let r = ApiError {
            code: 0,
            message: String::new(),
            retryable: false,
        };
        r
    }

    fn merge_raw(&mut self, buf: &[u8], f: &RawField) -> (ok: bool) {
        if f.number == 1 {
            match raw_varint(f) { Some(v) => { self.code = v as i32; true }, None => false }
        } else if f.number == 2 {
            match raw_string(buf, f) { Some(s) => { self.message = s; true }, None => false }
        } else if f.number == 3 {
            match raw_varint(f) { Some(v) => { self.retryable = v != 0; true }, None => false }
        } else {
            true
        }
    }
}

impl ApiError {
    /// Appends the protobuf encoding of this message.
    pub fn encode_to(&self, out: &mut Vec<u8>)
        ensures
            final(out)@ == old(out)@ + self@.encoded(),
    {
        let ghost start = out@;
        proof {
            reveal(SpecApiError::fields);
        }
        let ghost s0 = seg_i32(1, self@.code);
        put_i32(out, 1, self.code);
        let ghost p0 = s0;
        assert(out@ =~= start + encode_fields(p0));
        let ghost s1 = seg_str(2, self@.message);
        put_str(out, 2, self.message.as_str());
        let ghost p1 = p0 + s1;
        proof {
            lemma_encode_fields_append(p0, s1);
        }
        assert(out@ =~= start + encode_fields(p1));
        let ghost s2 = seg_bool(3, self@.retryable);
        put_bool(out, 3, self.retryable);
        let ghost p2 = p1 + s2;
        proof {
            lemma_encode_fields_append(p1, s2);
        }
        assert(out@ =~= start + encode_fields(p2));
        assert(out@ =~= start + self@.encoded());
    }

    /// The protobuf encoding of this message.
    pub fn encode_to_vec(&self) -> (r: Vec<u8>)
        ensures
            r@ == self@.encoded(),
    {
        let mut out: Vec<u8> = Vec::new();
        self.encode_to(&mut out);
        assert(out@ =~= self@.encoded());
        out
    }

    /// Decodes a message; `None` where the bytes are not a valid encoding.
    pub fn decode(buf: &[u8]) -> (r: Option<ApiError>)
        ensures
            match decode_into(buf@, SpecApiError::empty()) {
                Some(m) => r matches Some(v) && v@ == m,
                None => r is None,
            },
    {
        decode_message::<ApiError>(buf)
    }

    /// Appends one length-delimited field `n` per element of `v`.
    pub fn put_repeated(out: &mut Vec<u8>, n: u32, v: &Vec<ApiError>)
        requires
            1 <= n <= MAX_FIELD_NUMBER,
        ensures
            final(out)@ == old(out)@ + encode_fields(seg_rep(n, SpecApiError::encode_all(Seq::new(v@.len(), |i: int| v@[i]@)))),
    {
        let ghost all = SpecApiError::encode_all(Seq::new(v@.len(), |i: int| v@[i]@));
        let mut part: Vec<u8> = Vec::new();
        let mut i: usize = 0;
        proof {
            lemma_seg_rep_full(n, all);
            lemma_encode_empty();
        }
        while i < v.len()
            invariant
                1 <= n <= MAX_FIELD_NUMBER,
                i <= v@.len(),
                all == SpecApiError::encode_all(Seq::new(v@.len(), |i: int| v@[i]@)),
                part@ == encode_fields(seg_rep(n, all.take(i as int))),
            decreases v@.len() - i,
        {
            let b = v[i].encode_to_vec();
            proof {
                assert(all.take(i as int).push(b@) =~= all.take(i + 1));
            }
            put_rep_item(&mut part, n, b.as_slice(), Ghost(all.take(i as int)));
            i = i + 1;
        }
        proof {
            lemma_seg_rep_full(n, all);
        }
        append_all(out, &part);
    }
}

/// Decoding the fields of a well-formed `ApiError` gives it back.
pub proof fn lemma_round_api_error(m: SpecApiError)
    requires
        m.wf(),
    ensures
        merge_fields(m.fields(), SpecApiError::empty()) == Some(m),
        fields_wf(m.fields()),
{
    reveal(SpecApiError::fields);
    reveal(SpecApiError::wf);
    let x0 = SpecApiError::empty();
    let x1 = SpecApiError { code: m.code, message: Seq::empty(), retryable: false };
    let s0 = seg_i32(1, m.code);
    assert(merge_fields(s0, x0) == Some(x1) && fields_wf(s0)) by {
        lemma_zero_i32(m.code);
        lemma_seg_u64::<SpecApiError>(1, m.code as u64, x0);
    }
    let p0 = s0;
    let x2 = SpecApiError { code: m.code, message: m.message, retryable: false };
    let s1 = seg_str(2, m.message);
    assert(merge_fields(s1, x1) == Some(x2) && fields_wf(s1)) by {
        if m.message.len() == 0 { assert(m.message =~= Seq::<char>::empty()); lemma_seg_empty::<SpecApiError>(x1); } else { lemma_seg_len::<SpecApiError>(2, encode_utf8(m.message), x1); }
    }
    let p1 = p0 + s1;
    lemma_chain::<SpecApiError>(p0, s1, x0, x1, x2);
    let x3 = SpecApiError { code: m.code, message: m.message, retryable: m.retryable };
    let s2 = seg_bool(3, m.retryable);
    assert(merge_fields(s2, x2) == Some(x3) && fields_wf(s2)) by {
        lemma_seg_u64::<SpecApiError>(3, if m.retryable { 1u64 } else { 0u64 }, x2);
    }
    let p2 = p1 + s2;
    lemma_chain::<SpecApiError>(p1, s2, x0, x2, x3);
    assert(x3 == m);
}

/// A `ApiError` whose encoding has a length that fits a varint is well-formed.
pub proof fn lemma_wf_api_error(m: SpecApiError)
    requires
        fits(m.encoded()),
    ensures
        m.wf(),
{
    reveal(SpecApiError::fields);
    reveal(SpecApiError::wf);
    let s0 = seg_i32(1, m.code);
    let p0 = s0;
    let s1 = seg_str(2, m.message);
    let p1 = p0 + s1;
    let s2 = seg_bool(3, m.retryable);
    let p2 = p1 + s2;
    lemma_fits_parts(p1, s2);
    lemma_fits_parts(p0, s1);
    lemma_fits_seg_str(2, m.message);
}

/// An image attached to a card.
#[derive(Clone, Debug, PartialEq, Default)]
pub struct TipcardImageInfo {
    pub id: i64,
    pub position: u32,
    pub mime_type: String,
    pub byte_size: i64,
    pub download_path: String,
}

/// The value of a [`TipcardImageInfo`].
pub struct SpecTipcardImageInfo {
    pub id: i64,
    pub position: u32,
    pub mime_type: Seq<char>,
    pub byte_size: i64,
    pub download_path: Seq<char>,
}

impl View for TipcardImageInfo {
    type V = SpecTipcardImageInfo;

    open spec fn view(&self) -> SpecTipcardImageInfo {
        SpecTipcardImageInfo {
            id: self.id,
            position: self.position,
            mime_type: self.mime_type@,
            byte_size: self.byte_size,
            download_path: self.download_path@,
        }
    }
}

impl SpecTipcardImageInfo {
    /// Every field at its default.
    pub open spec fn empty() -> SpecTipcardImageInfo {
        SpecTipcardImageInfo {
            id: 0i64,
            position: 0u32,
            mime_type: Seq::empty(),
            byte_size: 0i64,
            download_path: Seq::empty(),
        }
    }

    /// The fields written for this value, in field-number order.
    #[verifier::opaque]
    pub open spec fn fields(self) -> Seq<SpecField> {
        seg_i64(1, self.id)
            + seg_u32(2, self.position)
            + seg_str(3, self.mime_type)
            + seg_i64(4, self.byte_size)
            + seg_str(5, self.download_path)
    }

    pub open spec fn encoded(self) -> Seq<u8> {
        encode_fields(self.fields())
    }

    pub open spec fn encode_all(v: Seq<SpecTipcardImageInfo>) -> Seq<Seq<u8>> {
        Seq::new(v.len(), |i: int| v[i].encoded())
    }

    /// Every length-delimited payload fits a varint length.
    #[verifier::opaque]
    pub open spec fn wf(self) -> bool {
        fits(encode_utf8(self.mime_type))
        && fits(encode_utf8(self.download_path))
    }
}

impl Message for SpecTipcardImageInfo {
    open spec fn merge(self, f: SpecField) -> Option<SpecTipcardImageInfo> {
        if f.number == 1 {
            match as_varint(f.value) { Some(v) => Some(SpecTipcardImageInfo { id: v as i64, ..self }), None => None }
        } else if f.number == 2 {
            match as_varint(f.value) { Some(v) => Some(SpecTipcardImageInfo { position: v as u32, ..self }), None => None }
        } else if f.number == 3 {
            match as_string(f.value) { Some(s) => Some(SpecTipcardImageInfo { mime_type: s, ..self }), None => None }
        } else if f.number == 4 {
            match as_varint(f.value) { Some(v) => Some(SpecTipcardImageInfo { byte_size: v as i64, ..self }), None => None }
        } else if f.number == 5 {
            match as_string(f.value) { Some(s) => Some(SpecTipcardImageInfo { download_path: s, ..self }), None => None }
        } else {
            Some(self)
        }
    }
}

impl WireMessage for TipcardImageInfo {
    type Spec = SpecTipcardImageInfo;

    open spec fn spec_of(&self) -> SpecTipcardImageInfo {
        self@
    }

    open spec fn spec_default() -> SpecTipcardImageInfo {
        SpecTipcardImageInfo::empty()
    }

    fn default_value() -> (r: Self) {
        let r = TipcardImageInfo {
            id: 0,
            position: 0,
            mime_type: String::new(),
            byte_size: 0,
            download_path: String::new(),
        };
        r
    }

    fn merge_raw(&mut self, buf: &[u8], f: &RawField) -> (ok: bool) {
        if f.number == 1 {
            match raw_varint(f) { Some(v) => { self.id = v as i64; true }, None => false }
        } else if f.number == 2 {
            match raw_varint(f) { Some(v) => { self.position = v as u32; true }, None => false }
        } else if f.number == 3 {
            match raw_string(buf, f) { Some(s) => { self.mime_type = s; true }, None => false }
        } else if f.number == 4 {
            match raw_varint(f) { Some(v) => { self.byte_size = v as i64; true }, None => false }
        } else if f.number == 5 {
            match raw_string(buf, f) { Some(s) => { self.download_path = s; true }, None => false }
        } else {
            true
        }
    }
}

impl TipcardImageInfo {
    /// Appends the protobuf encoding of this message.
    pub fn encode_to(&self, out: &mut Vec<u8>)
        ensures
            final(out)@ == old(out)@ + self@.encoded(),
    {
        let ghost start = out@;
        proof {
            reveal(SpecTipcardImageInfo::fields);
        }
        let ghost s0 = seg_i64(1, self@.id);
        put_i64(out, 1, self.id);
        let ghost p0 = s0;
        assert(out@ =~= start + encode_fields(p0));
        let ghost s1 = seg_u32(2, self@.position);
        put_u32(out, 2, self.position);
        let ghost p1 = p0 + s1;
        proof {
            lemma_encode_fields_append(p0, s1);
        }
        assert(out@ =~= start + encode_fields(p1));
        let ghost s2 = seg_str(3, self@.mime_type);
        put_str(out, 3, self.mime_type.as_str());
        let ghost p2 = p1 + s2;
        proof {
            lemma_encode_fields_append(p1, s2);
        }
        assert(out@ =~= start + encode_fields(p2));
        let ghost s3 = seg_i64(4, self@.byte_size);
        put_i64(out, 4, self.byte_size);
        let ghost p3 = p2 + s3;
        proof {
            lemma_encode_fields_append(p2, s3);
        }
        assert(out@ =~= start + encode_fields(p3));
        let ghost s4 = seg_str(5, self@.download_path);
        put_str(out, 5, self.download_path.as_str());
        let ghost p4 = p3 + s4;
        proof {
            lemma_encode_fields_append(p3, s4);
        }
        assert(out@ =~= start + encode_fields(p4));
        assert(out@ =~= start + self@.encoded());
    }

    /// The protobuf encoding of this message.
    pub fn encode_to_vec(&self) -> (r: Vec<u8>)
        ensures
            r@ == self@.encoded(),
    {
        let mut out: Vec<u8> = Vec::new();
        self.encode_to(&mut out);
        assert(out@ =~= self@.encoded());
        out
    }

    /// Decodes a message; `None` where the bytes are not a valid encoding.
    pub fn decode(buf: &[u8]) -> (r: Option<TipcardImageInfo>)
        ensures
            match decode_into(buf@, SpecTipcardImageInfo::empty()) {
                Some(m) => r matches Some(v) && v@ == m,
                None => r is None,
            },
    {
        decode_message::<TipcardImageInfo>(buf)
    }

    /// Appends one length-delimited field `n` per element of `v`.
    pub fn put_repeated(out: &mut Vec<u8>, n: u32, v: &Vec<TipcardImageInfo>)
        requires
            1 <= n <= MAX_FIELD_NUMBER,
        ensures
            final(out)@ == old(out)@ + encode_fields(seg_rep(n, SpecTipcardImageInfo::encode_all(Seq::new(v@.len(), |i: int| v@[i]@)))),
    {
        let ghost all = SpecTipcardImageInfo::encode_all(Seq::new(v@.len(), |i: int| v@[i]@));
        let mut part: Vec<u8> = Vec::new();
        let mut i: usize = 0;
        proof {
            lemma_seg_rep_full(n, all);
            lemma_encode_empty();
        }
        while i < v.len()
            invariant
                1 <= n <= MAX_FIELD_NUMBER,
                i <= v@.len(),
                all == SpecTipcardImageInfo::encode_all(Seq::new(v@.len(), |i: int| v@[i]@)),
                part@ == encode_fields(seg_rep(n, all.take(i as int))),
            decreases v@.len() - i,
        {
            let b = v[i].encode_to_vec();
            proof {
                assert(all.take(i as int).push(b@) =~= all.take(i + 1));
            }
            put_rep_item(&mut part, n, b.as_slice(), Ghost(all.take(i as int)));
            i = i + 1;
        }
        proof {
            lemma_seg_rep_full(n, all);
        }
        append_all(out, &part);
    }
}

/// Decoding the fields of a well-formed `TipcardImageInfo` gives it back.
pub proof fn lemma_round_tipcard_image_info(m: SpecTipcardImageInfo)
    requires
        m.wf(),
    ensures
        merge_fields(m.fields(), SpecTipcardImageInfo::empty()) == Some(m),
        fields_wf(m.fields()),
{
    reveal(SpecTipcardImageInfo::fields);
    reveal(SpecTipcardImageInfo::wf);
    let x0 = SpecTipcardImageInfo::empty();
    let x1 = SpecTipcardImageInfo { id: m.id, position: 0u32, mime_type: Seq::empty(), byte_size: 0i64, download_path: Seq::empty() };
    let s0 = seg_i64(1, m.id);
    assert(merge_fields(s0, x0) == Some(x1) && fields_wf(s0)) by {
        lemma_zero_i64(m.id);
        lemma_seg_u64::<SpecTipcardImageInfo>(1, m.id as u64, x0);
    }
    let p0 = s0;
    let x2 = SpecTipcardImageInfo { id: m.id, position: m.position, mime_type: Seq::empty(), byte_size: 0i64, download_path: Seq::empty() };
    let s1 = seg_u32(2, m.position);
    assert(merge_fields(s1, x1) == Some(x2) && fields_wf(s1)) by {
        lemma_seg_u64::<SpecTipcardImageInfo>(2, m.position as u64, x1);
    }
    let p1 = p0 + s1;
    lemma_chain::<SpecTipcardImageInfo>(p0, s1, x0, x1, x2);
    let x3 = SpecTipcardImageInfo { id: m.id, position: m.position, mime_type: m.mime_type, byte_size: 0i64, download_path: Seq::empty() };
    let s2 = seg_str(3, m.mime_type);
    assert(merge_fields(s2, x2) == Some(x3) && fields_wf(s2)) by {
        if m.mime_type.len() == 0 { assert(m.mime_type =~= Seq::<char>::empty()); lemma_seg_empty::<SpecTipcardImageInfo>(x2); } else { lemma_seg_len::<SpecTipcardImageInfo>(3, encode_utf8(m.mime_type), x2); }
    }
    let p2 = p1 + s2;
    lemma_chain::<SpecTipcardImageInfo>(p1, s2, x0, x2, x3);
    let x4 = SpecTipcardImageInfo { id: m.id, position: m.position, mime_type: m.mime_type, byte_size: m.byte_size, download_path: Seq::empty() };
    let s3 = seg_i64(4, m.byte_size);
    assert(merge_fields(s3, x3) == Some(x4) && fields_wf(s3)) by {
        lemma_zero_i64(m.byte_size);
        lemma_seg_u64::<SpecTipcardImageInfo>(4, m.byte_size as u64, x3);
    }
    let p3 = p2 + s3;
    lemma_chain::<SpecTipcardImageInfo>(p2, s3, x0, x3, x4);
    let x5 = SpecTipcardImageInfo { id: m.id, position: m.position, mime_type: m.mime_type, byte_size: m.byte_size, download_path: m.download_path };
    let s4 = seg_str(5, m.download_path);
    assert(merge_fields(s4, x4) == Some(x5) && fields_wf(s4)) by {
        if m.download_path.len() == 0 { assert(m.download_path =~= Seq::<char>::empty()); lemma_seg_empty::<SpecTipcardImageInfo>(x4); } else { lemma_seg_len::<SpecTipcardImageInfo>(5, encode_utf8(m.download_path), x4); }
    }
    let p4 = p3 + s4;
    lemma_chain::<SpecTipcardImageInfo>(p3, s4, x0, x4, x5);
    assert(x5 == m);
}

/// A `TipcardImageInfo` whose encoding has a length that fits a varint is well-formed.
pub proof fn lemma_wf_tipcard_image_info(m: SpecTipcardImageInfo)
    requires
        fits(m.encoded()),
    ensures
        m.wf(),
{
    reveal(SpecTipcardImageInfo::fields);
    reveal(SpecTipcardImageInfo::wf);
    let s0 = seg_i64(1, m.id);
    let p0 = s0;
    let s1 = seg_u32(2, m.position);
    let p1 = p0 + s1;
    let s2 = seg_str(3, m.mime_type);
    let p2 = p1 + s2;
    let s3 = seg_i64(4, m.byte_size);
    let p3 = p2 + s3;
    let s4 = seg_str(5, m.download_path);
    let p4 = p3 + s4;
    lemma_fits_parts(p3, s4);
    lemma_fits_parts(p2, s3);
    lemma_fits_parts(p1, s2);
    lemma_fits_parts(p0, s1);
    lemma_fits_seg_str(3, m.mime_type);
    lemma_fits_seg_str(5, m.download_path);
}

/// A grounding source cited by a card.
#[derive(Clone, Debug, PartialEq, Default)]
pub struct CardSource {
    pub document_id: i64,
    pub source_type: String,
    pub title: String,
    pub url: Option<String>,
}

/// The value of a [`CardSource`].
pub struct SpecCardSource {
    pub document_id: i64,
    pub source_type: Seq<char>,
    pub title: Seq<char>,
    pub url: Option<Seq<char>>,
}

impl View for CardSource {
    type V = SpecCardSource;

    open spec fn view(&self) -> SpecCardSource {
        SpecCardSource {
            document_id: self.document_id,
            source_type: self.source_type@,
            title: self.title@,
            url: match &self.url { Some(s) => Some(s@), None => None },
        }
    }
}

impl SpecCardSource {
    /// Every field at its default.
    pub open spec fn empty() -> SpecCardSource {
        SpecCardSource {
            document_id: 0i64,
            source_type: Seq::empty(),
            title: Seq::empty(),
            url: None,
        }
    }

    /// The fields written for this value, in field-number order.
    #[verifier::opaque]
    pub open spec fn fields(self) -> Seq<SpecField> {
        seg_i64(1, self.document_id)
            + seg_str(2, self.source_type)
            + seg_str(3, self.title)
            + seg_opt_str(4, self.url)
    }

    pub open spec fn encoded(self) -> Seq<u8> {
        encode_fields(self.fields())
    }

    pub open spec fn encode_all(v: Seq<SpecCardSource>) -> Seq<Seq<u8>> {
        Seq::new(v.len(), |i: int| v[i].encoded())
    }

    /// Every length-delimited payload fits a varint length.
    #[verifier::opaque]
    pub open spec fn wf(self) -> bool {
        fits(encode_utf8(self.source_type))
        && fits(encode_utf8(self.title))
        && (match self.url { Some(s) => fits(encode_utf8(s)), None => true })
    }
}

impl Message for SpecCardSource {
    open spec fn merge(self, f: SpecField) -> Option<SpecCardSource> {
        if f.number == 1 {
            match as_varint(f.value) { Some(v) => Some(SpecCardSource { document_id: v as i64, ..self }), None => None }
        } else if f.number == 2 {
            match as_string(f.value) { Some(s) => Some(SpecCardSource { source_type: s, ..self }), None => None }
        } else if f.number == 3 {
            match as_string(f.value) { Some(s) => Some(SpecCardSource { title: s, ..self }), None => None }
        } else if f.number == 4 {
            match as_string(f.value) { Some(s) => Some(SpecCardSource { url: Some(s), ..self }), None => None }
        } else {
            Some(self)
        }
    }
}

impl WireMessage for CardSource {
    type Spec = SpecCardSource;

    open spec fn spec_of(&self) -> SpecCardSource {
        self@
    }

    open spec fn spec_default() -> SpecCardSource {
        SpecCardSource::empty()
    }

    fn default_value() -> (r: Self) {
        let r = CardSource {
            document_id: 0,
            source_type: String::new(),
            title: String::new(),
            url: None,
        };
        r
    }

    fn merge_raw(&mut self, buf: &[u8], f: &RawField) -> (ok: bool) {
        if f.number == 1 {
            match raw_varint(f) { Some(v) => { self.document_id = v as i64; true }, None => false }
        } else if f.number == 2 {
            match raw_string(buf, f) { Some(s) => { self.source_type = s; true }, None => false }
        } else if f.number == 3 {
            match raw_string(buf, f) { Some(s) => { self.title = s; true }, None => false }
        } else if f.number == 4 {
            match raw_string(buf, f) { Some(s) => { self.url = Some(s); true }, None => false }
        } else {
            true
        }
    }
}

impl CardSource {
    /// Appends the protobuf encoding of this message.
    pub fn encode_to(&self, out: &mut Vec<u8>)
        ensures
            final(out)@ == old(out)@ + self@.encoded(),
    {
        let ghost start = out@;
        proof {
            reveal(SpecCardSource::fields);
        }
        let ghost s0 = seg_i64(1, self@.document_id);
        put_i64(out, 1, self.document_id);
        let ghost p0 = s0;
        assert(out@ =~= start + encode_fields(p0));
        let ghost s1 = seg_str(2, self@.source_type);
        put_str(out, 2, self.source_type.as_str());
        let ghost p1 = p0 + s1;
        proof {
            lemma_encode_fields_append(p0, s1);
        }
        assert(out@ =~= start + encode_fields(p1));
        let ghost s2 = seg_str(3, self@.title);
        put_str(out, 3, self.title.as_str());
        let ghost p2 = p1 + s2;
        proof {
            lemma_encode_fields_append(p1, s2);
        }
        assert(out@ =~= start + encode_fields(p2));
        let ghost s3 = seg_opt_str(4, self@.url);
        put_opt_str(out, 4, &self.url);
        let ghost p3 = p2 + s3;
        proof {
            lemma_encode_fields_append(p2, s3);
        }
        assert(out@ =~= start + encode_fields(p3));
        assert(out@ =~= start + self@.encoded());
    }

    /// The protobuf encoding of this message.
    pub fn encode_to_vec(&self) -> (r: Vec<u8>)
        ensures
            r@ == self@.encoded(),
    {
        let mut out: Vec<u8> = Vec::new();
        self.encode_to(&mut out);
        assert(out@ =~= self@.encoded());
        out
    }

    /// Decodes a message; `None` where the bytes are not a valid encoding.
    pub fn decode(buf: &[u8]) -> (r: Option<CardSource>)
        ensures
            match decode_into(buf@, SpecCardSource::empty()) {
                Some(m) => r matches Some(v) && v@ == m,
                None => r is None,
            },
    {
        decode_message::<CardSource>(buf)
    }

    /// Appends one length-delimited field `n` per element of `v`.
    pub fn put_repeated(out: &mut Vec<u8>, n: u32, v: &Vec<CardSource>)
        requires
            1 <= n <= MAX_FIELD_NUMBER,
        ensures
            final(out)@ == old(out)@ + encode_fields(seg_rep(n, SpecCardSource::encode_all(Seq::new(v@.len(), |i: int| v@[i]@)))),
    {
        let ghost all = SpecCardSource::encode_all(Seq::new(v@.len(), |i: int| v@[i]@));
        let mut part: Vec<u8> = Vec::new();
        let mut i: usize = 0;
        proof {
            lemma_seg_rep_full(n, all);
            lemma_encode_empty();
        }
        while i < v.len()
            invariant
                1 <= n <= MAX_FIELD_NUMBER,
                i <= v@.len(),
                all == SpecCardSource::encode_all(Seq::new(v@.len(), |i: int| v@[i]@)),
                part@ == encode_fields(seg_rep(n, all.take(i as int))),
            decreases v@.len() - i,
        {
            let b = v[i].encode_to_vec();
            proof {
                assert(all.take(i as int).push(b@) =~= all.take(i + 1));
            }
            put_rep_item(&mut part, n, b.as_slice(), Ghost(all.take(i as int)));
            i = i + 1;
        }
        proof {
            lemma_seg_rep_full(n, all);
        }
        append_all(out, &part);
    }
}

/// Decoding the fields of a well-formed `CardSource` gives it back.
pub proof fn lemma_round_card_source(m: SpecCardSource)
    requires
        m.wf(),
    ensures
        merge_fields(m.fields(), SpecCardSource::empty()) == Some(m),
        fields_wf(m.fields()),
{
    reveal(SpecCardSource::fields);
    reveal(SpecCardSource::wf);
    let x0 = SpecCardSource::empty();
    let x1 = SpecCardSource { document_id: m.document_id, source_type: Seq::empty(), title: Seq::empty(), url: None };
    let s0 = seg_i64(1, m.document_id);
    assert(merge_fields(s0, x0) == Some(x1) && fields_wf(s0)) by {
        lemma_zero_i64(m.document_id);
        lemma_seg_u64::<SpecCardSource>(1, m.document_id as u64, x0);
    }
    let p0 = s0;
    let x2 = SpecCardSource { document_id: m.document_id, source_type: m.source_type, title: Seq::empty(), url: None };
    let s1 = seg_str(2, m.source_type);
    assert(merge_fields(s1, x1) == Some(x2) && fields_wf(s1)) by {
        if m.source_type.len() == 0 { assert(m.source_type =~= Seq::<char>::empty()); lemma_seg_empty::<SpecCardSource>(x1); } else { lemma_seg_len::<SpecCardSource>(2, encode_utf8(m.source_type), x1); }
    }
    let p1 = p0 + s1;
    lemma_chain::<SpecCardSource>(p0, s1, x0, x1, x2);
    let x3 = SpecCardSource { document_id: m.document_id, source_type: m.source_type, title: m.title, url: None };
    let s2 = seg_str(3, m.title);
    assert(merge_fields(s2, x2) == Some(x3) && fields_wf(s2)) by {
        if m.title.len() == 0 { assert(m.title =~= Seq::<char>::empty()); lemma_seg_empty::<SpecCardSource>(x2); } else { lemma_seg_len::<SpecCardSource>(3, encode_utf8(m.title), x2); }
    }
    let p2 = p1 + s2;
    lemma_chain::<SpecCardSource>(p1, s2, x0, x2, x3);
    let x4 = SpecCardSource { document_id: m.document_id, source_type: m.source_type, title: m.title, url: m.url };
    let s3 = seg_opt_str(4, m.url);
    assert(merge_fields(s3, x3) == Some(x4) && fields_wf(s3)) by {
        match m.url { Some(s) => { lemma_seg_len::<SpecCardSource>(4, encode_utf8(s), x3); }, None => { lemma_seg_empty::<SpecCardSource>(x3); } }
    }
    let p3 = p2 + s3;
    lemma_chain::<SpecCardSource>(p2, s3, x0, x3, x4);
    assert(x4 == m);
}

/// A `CardSource` whose encoding has a length that fits a varint is well-formed.
pub proof fn lemma_wf_card_source(m: SpecCardSource)
    requires
        fits(m.encoded()),
    ensures
        m.wf(),
{
    reveal(SpecCardSource::fields);
    reveal(SpecCardSource::wf);
    let s0 = seg_i64(1, m.document_id);
    let p0 = s0;
    let s1 = seg_str(2, m.source_type);
    let p1 = p0 + s1;
    let s2 = seg_str(3, m.title);
    let p2 = p1 + s2;
    let s3 = seg_opt_str(4, m.url);
    let p3 = p2 + s3;
    lemma_fits_parts(p2, s3);
    lemma_fits_parts(p1, s2);
    lemma_fits_parts(p0, s1);
    lemma_fits_seg_str(2, m.source_type);
    lemma_fits_seg_str(3, m.title);
    match m.url { Some(s) => { lemma_fits_one(4, encode_utf8(s)); }, None => {} }
}

/// A card as the flow shows it.
#[derive(Clone, Debug, PartialEq, Default)]
pub struct FlowCardInfo {
    pub id: i64,
    pub topic_name: String,
    pub topic_icon: String,
    pub topic_color: String,
    pub title: String,
    pub full_content: String,
    pub compressed_content: String,
    pub created_at: String,
    pub tipcard_type: String,
    pub status: String,
    pub next_review_at: String,
    pub repeat_count: u32,
    pub pinned: bool,
    pub pending_count: u64,
    pub images: Vec<TipcardImageInfo>,
    pub sources: Vec<CardSource>,
}

/// The value of a [`FlowCardInfo`].
pub struct SpecFlowCardInfo {
    pub id: i64,
    pub topic_name: Seq<char>,
    pub topic_icon: Seq<char>,
    pub topic_color: Seq<char>,
    pub title: Seq<char>,
    pub full_content: Seq<char>,
    pub compressed_content: Seq<char>,
    pub created_at: Seq<char>,
    pub tipcard_type: Seq<char>,
    pub status: Seq<char>,
    pub next_review_at: Seq<char>,
    pub repeat_count: u32,
    pub pinned: bool,
    pub pending_count: u64,
    pub images: Seq<SpecTipcardImageInfo>,
    pub sources: Seq<SpecCardSource>,
}

impl View for FlowCardInfo {
    type V = SpecFlowCardInfo;

    open spec fn view(&self) -> SpecFlowCardInfo {
        SpecFlowCardInfo {
            id: self.id,
            topic_name: self.topic_name@,
            topic_icon: self.topic_icon@,
            topic_color: self.topic_color@,
            title: self.title@,
            full_content: self.full_content@,
            compressed_content: self.compressed_content@,
            created_at: self.created_at@,
            tipcard_type: self.tipcard_type@,
            status: self.status@,
            next_review_at: self.next_review_at@,
            repeat_count: self.repeat_count,
            pinned: self.pinned,
            pending_count: self.pending_count,
            images: Seq::new(self.images@.len(), |i: int| self.images@[i]@),
            sources: Seq::new(self.sources@.len(), |i: int| self.sources@[i]@),
        }
    }
}

impl SpecFlowCardInfo {
    /// Every field at its default.
    pub open spec fn empty() -> SpecFlowCardInfo {
        SpecFlowCardInfo {
            id: 0i64,
            topic_name: Seq::empty(),
            topic_icon: Seq::empty(),
            topic_color: Seq::empty(),
            title: Seq::empty(),
            full_content: Seq::empty(),
            compressed_content: Seq::empty(),
            created_at: Seq::empty(),
            tipcard_type: Seq::empty(),
            status: Seq::empty(),
            next_review_at: Seq::empty(),
            repeat_count: 0u32,
            pinned: false,
            pending_count: 0u64,
            images: Seq::empty(),
            sources: Seq::empty(),
        }
    }

    /// The fields written for this value, in field-number order.
    #[verifier::opaque]
    pub open spec fn fields(self) -> Seq<SpecField> {
        seg_i64(1, self.id)
            + seg_str(2, self.topic_name)
            + seg_str(3, self.topic_icon)
            + seg_str(4, self.topic_color)
            + seg_str(5, self.title)
            + seg_str(6, self.full_content)
            + seg_str(7, self.compressed_content)
            + seg_str(8, self.created_at)
            + seg_str(9, self.tipcard_type)
            + seg_str(10, self.status)
            + seg_str(11, self.next_review_at)
            + seg_u32(12, self.repeat_count)
            + seg_bool(13, self.pinned)
            + seg_u64(14, self.pending_count)
            + seg_rep(15, SpecTipcardImageInfo::encode_all(self.images))
            + seg_rep(16, SpecCardSource::encode_all(self.sources))
    }

    pub open spec fn encoded(self) -> Seq<u8> {
        encode_fields(self.fields())
    }

    pub open spec fn encode_all(v: Seq<SpecFlowCardInfo>) -> Seq<Seq<u8>> {
        Seq::new(v.len(), |i: int| v[i].encoded())
    }

    /// Every length-delimited payload fits a varint length.
    #[verifier::opaque]
    pub open spec fn wf(self) -> bool {
        fits(encode_utf8(self.topic_name))
        && fits(encode_utf8(self.topic_icon))
        && fits(encode_utf8(self.topic_color))
        && fits(encode_utf8(self.title))
        && fits(encode_utf8(self.full_content))
        && fits(encode_utf8(self.compressed_content))
        && fits(encode_utf8(self.created_at))
        && fits(encode_utf8(self.tipcard_type))
        && fits(encode_utf8(self.status))
        && fits(encode_utf8(self.next_review_at))
        && (forall|i: int| 0 <= i < self.images.len() ==> (#[trigger] self.images[i]).wf() && fits(self.images[i].encoded()))
        && (forall|i: int| 0 <= i < self.sources.len() ==> (#[trigger] self.sources[i]).wf() && fits(self.sources[i].encoded()))
    }
}

impl Message for SpecFlowCardInfo {
    open spec fn merge(self, f: SpecField) -> Option<SpecFlowCardInfo> {
        if f.number == 1 {
            match as_varint(f.value) { Some(v) => Some(SpecFlowCardInfo { id: v as i64, ..self }), None => None }
        } else if f.number == 2 {
            match as_string(f.value) { Some(s) => Some(SpecFlowCardInfo { topic_name: s, ..self }), None => None }
        } else if f.number == 3 {
            match as_string(f.value) { Some(s) => Some(SpecFlowCardInfo { topic_icon: s, ..self }), None => None }
        } else if f.number == 4 {
            match as_string(f.value) { Some(s) => Some(SpecFlowCardInfo { topic_color: s, ..self }), None => None }
        } else if f.number == 5 {
            match as_string(f.value) { Some(s) => Some(SpecFlowCardInfo { title: s, ..self }), None => None }
        } else if f.number == 6 {
            match as_string(f.value) { Some(s) => Some(SpecFlowCardInfo { full_content: s, ..self }), None => None }
        } else if f.number == 7 {
            match as_string(f.value) { Some(s) => Some(SpecFlowCardInfo { compressed_content: s, ..self }), None => None }
        } else if f.number == 8 {
            match as_string(f.value) { Some(s) => Some(SpecFlowCardInfo { created_at: s, ..self }), None => None }
        } else if f.number == 9 {
            match as_string(f.value) { Some(s) => Some(SpecFlowCardInfo { tipcard_type: s, ..self }), None => None }
        } else if f.number == 10 {
            match as_string(f.value) { Some(s) => Some(SpecFlowCardInfo { status: s, ..self }), None => None }
        } else if f.number == 11 {
            match as_string(f.value) { Some(s) => Some(SpecFlowCardInfo { next_review_at: s, ..self }), None => None }
        } else if f.number == 12 {
            match as_varint(f.value) { Some(v) => Some(SpecFlowCardInfo { repeat_count: v as u32, ..self }), None => None }
        } else if f.number == 13 {
            match as_varint(f.value) { Some(v) => Some(SpecFlowCardInfo { pinned: v != 0, ..self }), None => None }
        } else if f.number == 14 {
            match as_varint(f.value) { Some(v) => Some(SpecFlowCardInfo { pending_count: v, ..self }), None => None }
        } else if f.number == 15 {
            match merge_nested(f.value, SpecTipcardImageInfo::empty()) { Some(c) => Some(SpecFlowCardInfo { images: self.images.push(c), ..self }), None => None }
        } else if f.number == 16 {
            match merge_nested(f.value, SpecCardSource::empty()) { Some(c) => Some(SpecFlowCardInfo { sources: self.sources.push(c), ..self }), None => None }
        } else {
            Some(self)
        }
    }
}

impl WireMessage for FlowCardInfo {
    type Spec = SpecFlowCardInfo;

    open spec fn spec_of(&self) -> SpecFlowCardInfo {
        self@
    }

    open spec fn spec_default() -> SpecFlowCardInfo {
        SpecFlowCardInfo::empty()
    }

    fn default_value() -> (r: Self) {
        let r = FlowCardInfo {
            id: 0,
            topic_name: String::new(),
            topic_icon: String::new(),
            topic_color: String::new(),
            title: String::new(),
            full_content: String::new(),
            compressed_content: String::new(),
            created_at: String::new(),
            tipcard_type: String::new(),
            status: String::new(),
            next_review_at: String::new(),
            repeat_count: 0,
            pinned: false,
            pending_count: 0,
            images: Vec::new(),
            sources: Vec::new(),
        };
        assert(r@.images =~= Seq::empty());
        assert(r@.sources =~= Seq::empty());
        r
    }

    #[verifier::rlimit(100)]
    fn merge_raw(&mut self, buf: &[u8], f: &RawField) -> (ok: bool) {
        if f.number == 1 {
            match raw_varint(f) { Some(v) => { self.id = v as i64; true }, None => false }
        } else if f.number == 2 {
            match raw_string(buf, f) { Some(s) => { self.topic_name = s; true }, None => false }
        } else if f.number == 3 {
            match raw_string(buf, f) { Some(s) => { self.topic_icon = s; true }, None => false }
        } else if f.number == 4 {
            match raw_string(buf, f) { Some(s) => { self.topic_color = s; true }, None => false }
        } else if f.number == 5 {
            match raw_string(buf, f) { Some(s) => { self.title = s; true }, None => false }
        } else if f.number == 6 {
            match raw_string(buf, f) { Some(s) => { self.full_content = s; true }, None => false }
        } else if f.number == 7 {
            match raw_string(buf, f) { Some(s) => { self.compressed_content = s; true }, None => false }
        } else if f.number == 8 {
            match raw_string(buf, f) { Some(s) => { self.created_at = s; true }, None => false }
        } else if f.number == 9 {
            match raw_string(buf, f) { Some(s) => { self.tipcard_type = s; true }, None => false }
        } else if f.number == 10 {
            match raw_string(buf, f) { Some(s) => { self.status = s; true }, None => false }
        } else if f.number == 11 {
            match raw_string(buf, f) { Some(s) => { self.next_review_at = s; true }, None => false }
        } else if f.number == 12 {
            match raw_varint(f) { Some(v) => { self.repeat_count = v as u32; true }, None => false }
        } else if f.number == 13 {
            match raw_varint(f) { Some(v) => { self.pinned = v != 0; true }, None => false }
        } else if f.number == 14 {
            match raw_varint(f) { Some(v) => { self.pending_count = v; true }, None => false }
        } else if f.number == 15 {
            match raw_nested(buf, f, TipcardImageInfo::default_value()) { Some(c) => { self.images.push(c); proof { assert(self@.images =~= old(self)@.images.push(self.images@.last()@)); } true }, None => false }
        } else if f.number == 16 {
            match raw_nested(buf, f, CardSource::default_value()) { Some(c) => { self.sources.push(c); proof { assert(self@.sources =~= old(self)@.sources.push(self.sources@.last()@)); } true }, None => false }
        } else {
            true
        }
    }
}

impl FlowCardInfo {
    /// Appends the protobuf encoding of this message.
    #[verifier::rlimit(100)]
    pub fn encode_to(&self, out: &mut Vec<u8>)
        ensures
            final(out)@ == old(out)@ + self@.encoded(),
    {
        let ghost start = out@;
        proof {
            reveal(SpecFlowCardInfo::fields);
        }
        let ghost s0 = seg_i64(1, self@.id);
        put_i64(out, 1, self.id);
        let ghost p0 = s0;
        assert(out@ =~= start + encode_fields(p0));
        let ghost s1 = seg_str(2, self@.topic_name);
        put_str(out, 2, self.topic_name.as_str());
        let ghost p1 = p0 + s1;
        proof {
            lemma_encode_fields_append(p0, s1);
        }
        assert(out@ =~= start + encode_fields(p1));
        let ghost s2 = seg_str(3, self@.topic_icon);
        put_str(out, 3, self.topic_icon.as_str());
        let ghost p2 = p1 + s2;
        proof {
            lemma_encode_fields_append(p1, s2);
        }
        assert(out@ =~= start + encode_fields(p2));
        let ghost s3 = seg_str(4, self@.topic_color);
        put_str(out, 4, self.topic_color.as_str());
        let ghost p3 = p2 + s3;
        proof {
            lemma_encode_fields_append(p2, s3);
        }
        assert(out@ =~= start + encode_fields(p3));
        let ghost s4 = seg_str(5, self@.title);
        put_str(out, 5, self.title.as_str());
        let ghost p4 = p3 + s4;
        proof {
            lemma_encode_fields_append(p3, s4);
        }
        assert(out@ =~= start + encode_fields(p4));
        let ghost s5 = seg_str(6, self@.full_content);
        put_str(out, 6, self.full_content.as_str());
        let ghost p5 = p4 + s5;
        proof {
            lemma_encode_fields_append(p4, s5);
        }
        assert(out@ =~= start + encode_fields(p5));
        let ghost s6 = seg_str(7, self@.compressed_content);
        put_str(out, 7, self.compressed_content.as_str());
        let ghost p6 = p5 + s6;
        proof {
            lemma_encode_fields_append(p5, s6);
        }
        assert(out@ =~= start + encode_fields(p6));
        let ghost s7 = seg_str(8, self@.created_at);
        put_str(out, 8, self.created_at.as_str());
        let ghost p7 = p6 + s7;
        proof {
            lemma_encode_fields_append(p6, s7);
        }
        assert(out@ =~= start + encode_fields(p7));
        let ghost s8 = seg_str(9, self@.tipcard_type);
        put_str(out, 9, self.tipcard_type.as_str());
        let ghost p8 = p7 + s8;
        proof {
            lemma_encode_fields_append(p7, s8);
        }
        assert(out@ =~= start + encode_fields(p8));
        let ghost s9 = seg_str(10, self@.status);
        put_str(out, 10, self.status.as_str());
        let ghost p9 = p8 + s9;
        proof {
            lemma_encode_fields_append(p8, s9);
        }
        assert(out@ =~= start + encode_fields(p9));
        let ghost s10 = seg_str(11, self@.next_review_at);
        put_str(out, 11, self.next_review_at.as_str());
        let ghost p10 = p9 + s10;
        proof {
            lemma_encode_fields_append(p9, s10);
        }
        assert(out@ =~= start + encode_fields(p10));
        let ghost s11 = seg_u32(12, self@.repeat_count);
        put_u32(out, 12, self.repeat_count);
        let ghost p11 = p10 + s11;
        proof {
            lemma_encode_fields_append(p10, s11);
        }
        assert(out@ =~= start + encode_fields(p11));
        let ghost s12 = seg_bool(13, self@.pinned);
        put_bool(out, 13, self.pinned);
        let ghost p12 = p11 + s12;
        proof {
            lemma_encode_fields_append(p11, s12);
        }
        assert(out@ =~= start + encode_fields(p12));
        let ghost s13 = seg_u64(14, self@.pending_count);
        put_u64(out, 14, self.pending_count);
        let ghost p13 = p12 + s13;
        proof {
            lemma_encode_fields_append(p12, s13);
        }
        assert(out@ =~= start + encode_fields(p13));
        let ghost s14 = seg_rep(15, SpecTipcardImageInfo::encode_all(self@.images));
        TipcardImageInfo::put_repeated(out, 15, &self.images);
        let ghost p14 = p13 + s14;
        proof {
            lemma_encode_fields_append(p13, s14);
        }
        assert(out@ =~= start + encode_fields(p14));
        let ghost s15 = seg_rep(16, SpecCardSource::encode_all(self@.sources));
        CardSource::put_repeated(out, 16, &self.sources);
        let ghost p15 = p14 + s15;
        proof {
            lemma_encode_fields_append(p14, s15);
        }
        assert(out@ =~= start + encode_fields(p15));
        assert(out@ =~= start + self@.encoded());
    }

    /// The protobuf encoding of this message.
    pub fn encode_to_vec(&self) -> (r: Vec<u8>)
        ensures
            r@ == self@.encoded(),
    {
        let mut out: Vec<u8> = Vec::new();
        self.encode_to(&mut out);
        assert(out@ =~= self@.encoded());
        out
    }

    /// Decodes a message; `None` where the bytes are not a valid encoding.
    pub fn decode(buf: &[u8]) -> (r: Option<FlowCardInfo>)
        ensures
            match decode_into(buf@, SpecFlowCardInfo::empty()) {
                Some(m) => r matches Some(v) && v@ == m,
                None => r is None,
            },
    {
        decode_message::<FlowCardInfo>(buf)
    }

    /// Appends one length-delimited field `n` per element of `v`.
    pub fn put_repeated(out: &mut Vec<u8>, n: u32, v: &Vec<FlowCardInfo>)
        requires
            1 <= n <= MAX_FIELD_NUMBER,
        ensures
            final(out)@ == old(out)@ + encode_fields(seg_rep(n, SpecFlowCardInfo::encode_all(Seq::new(v@.len(), |i: int| v@[i]@)))),
    {
        let ghost all = SpecFlowCardInfo::encode_all(Seq::new(v@.len(), |i: int| v@[i]@));
        let mut part: Vec<u8> = Vec::new();
        let mut i: usize = 0;
        proof {
            lemma_seg_rep_full(n, all);
            lemma_encode_empty();
        }
        while i < v.len()
            invariant
                1 <= n <= MAX_FIELD_NUMBER,
                i <= v@.len(),
                all == SpecFlowCardInfo::encode_all(Seq::new(v@.len(), |i: int| v@[i]@)),
                part@ == encode_fields(seg_rep(n, all.take(i as int))),
            decreases v@.len() - i,
        {
            let b = v[i].encode_to_vec();
            proof {
                assert(all.take(i as int).push(b@) =~= all.take(i + 1));
            }
            put_rep_item(&mut part, n, b.as_slice(), Ghost(all.take(i as int)));
            i = i + 1;
        }
        proof {
            lemma_seg_rep_full(n, all);
        }
        append_all(out, &part);
    }
}

proof fn lemma_flow_card_info_rep_images(v: Seq<SpecTipcardImageInfo>, x: SpecFlowCardInfo)
    requires
        forall|i: int| 0 <= i < v.len() ==> (#[trigger] v[i]).wf(),
    ensures
        merge_fields(seg_rep(15, SpecTipcardImageInfo::encode_all(v)), x) == Some(SpecFlowCardInfo { images: x.images + v, ..x }),
    decreases v.len(),
{
    if v.len() == 0 {
        lemma_rep_empty(15, SpecTipcardImageInfo::encode_all(v));
        lemma_seg_empty::<SpecFlowCardInfo>(x);
        assert(x.images + v =~= x.images);
    } else {
        let w = v.drop_last();
        lemma_flow_card_info_rep_images(w, x);
        assert(SpecTipcardImageInfo::encode_all(v).drop_last() =~= SpecTipcardImageInfo::encode_all(w));
        lemma_rep_split(15, SpecTipcardImageInfo::encode_all(v));
        lemma_merge_fields_append(seg_rep(15, SpecTipcardImageInfo::encode_all(w)), seq![lfield(15, v.last().encoded())], x);
        let y = SpecFlowCardInfo { images: x.images + w, ..x };
        lemma_merge_one(lfield(15, v.last().encoded()), y);
        lemma_round_tipcard_image_info(v.last());
        lemma_decode_encode_fields(v.last().fields(), SpecTipcardImageInfo::empty());
        assert((x.images + w).push(v.last()) =~= x.images + v);
    }
}

proof fn lemma_flow_card_info_rep_sources(v: Seq<SpecCardSource>, x: SpecFlowCardInfo)
    requires
        forall|i: int| 0 <= i < v.len() ==> (#[trigger] v[i]).wf(),
    ensures
        merge_fields(seg_rep(16, SpecCardSource::encode_all(v)), x) == Some(SpecFlowCardInfo { sources: x.sources + v, ..x }),
    decreases v.len(),
{
    if v.len() == 0 {
        lemma_rep_empty(16, SpecCardSource::encode_all(v));
        lemma_seg_empty::<SpecFlowCardInfo>(x);
        assert(x.sources + v =~= x.sources);
    } else {
        let w = v.drop_last();
        lemma_flow_card_info_rep_sources(w, x);
        assert(SpecCardSource::encode_all(v).drop_last() =~= SpecCardSource::encode_all(w));
        lemma_rep_split(16, SpecCardSource::encode_all(v));
        lemma_merge_fields_append(seg_rep(16, SpecCardSource::encode_all(w)), seq![lfield(16, v.last().encoded())], x);
        let y = SpecFlowCardInfo { sources: x.sources + w, ..x };
        lemma_merge_one(lfield(16, v.last().encoded()), y);
        lemma_round_card_source(v.last());
        lemma_decode_encode_fields(v.last().fields(), SpecCardSource::empty());
        assert((x.sources + w).push(v.last()) =~= x.sources + v);
    }
}

/// Decoding the fields of a well-formed `FlowCardInfo` gives it back.
pub proof fn lemma_round_flow_card_info(m: SpecFlowCardInfo)
    requires
        m.wf(),
    ensures
        merge_fields(m.fields(), SpecFlowCardInfo::empty()) == Some(m),
        fields_wf(m.fields()),
{
    reveal(SpecFlowCardInfo::fields);
    reveal(SpecFlowCardInfo::wf);
    let x0 = SpecFlowCardInfo::empty();
    let x1 = SpecFlowCardInfo { id: m.id, topic_name: Seq::empty(), topic_icon: Seq::empty(), topic_color: Seq::empty(), title: Seq::empty(), full_content: Seq::empty(), compressed_content: Seq::empty(), created_at: Seq::empty(), tipcard_type: Seq::empty(), status: Seq::empty(), next_review_at: Seq::empty(), repeat_count: 0u32, pinned: false, pending_count: 0u64, images: Seq::empty(), sources: Seq::empty() };
    let s0 = seg_i64(1, m.id);
    assert(merge_fields(s0, x0) == Some(x1) && fields_wf(s0)) by {
        lemma_zero_i64(m.id);
        lemma_seg_u64::<SpecFlowCardInfo>(1, m.id as u64, x0);
    }
    let p0 = s0;
    let x2 = SpecFlowCardInfo { id: m.id, topic_name: m.topic_name, topic_icon: Seq::empty(), topic_color: Seq::empty(), title: Seq::empty(), full_content: Seq::empty(), compressed_content: Seq::empty(), created_at: Seq::empty(), tipcard_type: Seq::empty(), status: Seq::empty(), next_review_at: Seq::empty(), repeat_count: 0u32, pinned: false, pending_count: 0u64, images: Seq::empty(), sources: Seq::empty() };
    let s1 = seg_str(2, m.topic_name);
    assert(merge_fields(s1, x1) == Some(x2) && fields_wf(s1)) by {
        if m.topic_name.len() == 0 { assert(m.topic_name =~= Seq::<char>::empty()); lemma_seg_empty::<SpecFlowCardInfo>(x1); } else { lemma_seg_len::<SpecFlowCardInfo>(2, encode_utf8(m.topic_name), x1); }
    }
    let p1 = p0 + s1;
    lemma_chain::<SpecFlowCardInfo>(p0, s1, x0, x1, x2);
    let x3 = SpecFlowCardInfo { id: m.id, topic_name: m.topic_name, topic_icon: m.topic_icon, topic_color: Seq::empty(), title: Seq::empty(), full_content: Seq::empty(), compressed_content: Seq::empty(), created_at: Seq::empty(), tipcard_type: Seq::empty(), status: Seq::empty(), next_review_at: Seq::empty(), repeat_count: 0u32, pinned: false, pending_count: 0u64, images: Seq::empty(), sources: Seq::empty() };
    let s2 = seg_str(3, m.topic_icon);
    assert(merge_fields(s2, x2) == Some(x3) && fields_wf(s2)) by {
        if m.topic_icon.len() == 0 { assert(m.topic_icon =~= Seq::<char>::empty()); lemma_seg_empty::<SpecFlowCardInfo>(x2); } else { lemma_seg_len::<SpecFlowCardInfo>(3, encode_utf8(m.topic_icon), x2); }
    }
    let p2 = p1 + s2;
    lemma_chain::<SpecFlowCardInfo>(p1, s2, x0, x2, x3);
    let x4 = SpecFlowCardInfo { id: m.id, topic_name: m.topic_name, topic_icon: m.topic_icon, topic_color: m.topic_color, title: Seq::empty(), full_content: Seq::empty(), compressed_content: Seq::empty(), created_at: Seq::empty(), tipcard_type: Seq::empty(), status: Seq::empty(), next_review_at: Seq::empty(), repeat_count: 0u32, pinned: false, pending_count: 0u64, images: Seq::empty(), sources: Seq::empty() };
    let s3 = seg_str(4, m.topic_color);
    assert(merge_fields(s3, x3) == Some(x4) && fields_wf(s3)) by {
        if m.topic_color.len() == 0 { assert(m.topic_color =~= Seq::<char>::empty()); lemma_seg_empty::<SpecFlowCardInfo>(x3); } else { lemma_seg_len::<SpecFlowCardInfo>(4, encode_utf8(m.topic_color), x3); }
    }
    let p3 = p2 + s3;
    lemma_chain::<SpecFlowCardInfo>(p2, s3, x0, x3, x4);
    let x5 = SpecFlowCardInfo { id: m.id, topic_name: m.topic_name, topic_icon: m.topic_icon, topic_color: m.topic_color, title: m.title, full_content: Seq::empty(), compressed_content: Seq::empty(), created_at: Seq::empty(), tipcard_type: Seq::empty(), status: Seq::empty(), next_review_at: Seq::empty(), repeat_count: 0u32, pinned: false, pending_count: 0u64, images: Seq::empty(), sources: Seq::empty() };
    let s4 = seg_str(5, m.title);
    assert(merge_fields(s4, x4) == Some(x5) && fields_wf(s4)) by {
        if m.title.len() == 0 { assert(m.title =~= Seq::<char>::empty()); lemma_seg_empty::<SpecFlowCardInfo>(x4); } else { lemma_seg_len::<SpecFlowCardInfo>(5, encode_utf8(m.title), x4); }
    }
    let p4 = p3 + s4;
    lemma_chain::<SpecFlowCardInfo>(p3, s4, x0, x4, x5);
    let x6 = SpecFlowCardInfo { id: m.id, topic_name: m.topic_name, topic_icon: m.topic_icon, topic_color: m.topic_color, title: m.title, full_content: m.full_content, compressed_content: Seq::empty(), created_at: Seq::empty(), tipcard_type: Seq::empty(), status: Seq::empty(), next_review_at: Seq::empty(), repeat_count: 0u32, pinned: false, pending_count: 0u64, images: Seq::empty(), sources: Seq::empty() };
    let s5 = seg_str(6, m.full_content);
    assert(merge_fields(s5, x5) == Some(x6) && fields_wf(s5)) by {
        if m.full_content.len() == 0 { assert(m.full_content =~= Seq::<char>::empty()); lemma_seg_empty::<SpecFlowCardInfo>(x5); } else { lemma_seg_len::<SpecFlowCardInfo>(6, encode_utf8(m.full_content), x5); }
    }
    let p5 = p4 + s5;
    lemma_chain::<SpecFlowCardInfo>(p4, s5, x0, x5, x6);
    let x7 = SpecFlowCardInfo { id: m.id, topic_name: m.topic_name, topic_icon: m.topic_icon, topic_color: m.topic_color, title: m.title, full_content: m.full_content, compressed_content: m.compressed_content, created_at: Seq::empty(), tipcard_type: Seq::empty(), status: Seq::empty(), next_review_at: Seq::empty(), repeat_count: 0u32, pinned: false, pending_count: 0u64, images: Seq::empty(), sources: Seq::empty() };
    let s6 = seg_str(7, m.compressed_content);
    assert(merge_fields(s6, x6) == Some(x7) && fields_wf(s6)) by {
        if m.compressed_content.len() == 0 { assert(m.compressed_content =~= Seq::<char>::empty()); lemma_seg_empty::<SpecFlowCardInfo>(x6); } else { lemma_seg_len::<SpecFlowCardInfo>(7, encode_utf8(m.compressed_content), x6); }
    }
    let p6 = p5 + s6;
    lemma_chain::<SpecFlowCardInfo>(p5, s6, x0, x6, x7);
    let x8 = SpecFlowCardInfo { id: m.id, topic_name: m.topic_name, topic_icon: m.topic_icon, topic_color: m.topic_color, title: m.title, full_content: m.full_content, compressed_content: m.compressed_content, created_at: m.created_at, tipcard_type: Seq::empty(), status: Seq::empty(), next_review_at: Seq::empty(), repeat_count: 0u32, pinned: false, pending_count: 0u64, images: Seq::empty(), sources: Seq::empty() };
    let s7 = seg_str(8, m.created_at);
    assert(merge_fields(s7, x7) == Some(x8) && fields_wf(s7)) by {
        if m.created_at.len() == 0 { assert(m.created_at =~= Seq::<char>::empty()); lemma_seg_empty::<SpecFlowCardInfo>(x7); } else { lemma_seg_len::<SpecFlowCardInfo>(8, encode_utf8(m.created_at), x7); }
    }
    let p7 = p6 + s7;
    lemma_chain::<SpecFlowCardInfo>(p6, s7, x0, x7, x8);
    let x9 = SpecFlowCardInfo { id: m.id, topic_name: m.topic_name, topic_icon: m.topic_icon, topic_color: m.topic_color, title: m.title, full_content: m.full_content, compressed_content: m.compressed_content, created_at: m.created_at, tipcard_type: m.tipcard_type, status: Seq::empty(), next_review_at: Seq::empty(), repeat_count: 0u32, pinned: false, pending_count: 0u64, images: Seq::empty(), sources: Seq::empty() };
    let s8 = seg_str(9, m.tipcard_type);
    assert(merge_fields(s8, x8) == Some(x9) && fields_wf(s8)) by {
        if m.tipcard_type.len() == 0 { assert(m.tipcard_type =~= Seq::<char>::empty()); lemma_seg_empty::<SpecFlowCardInfo>(x8); } else { lemma_seg_len::<SpecFlowCardInfo>(9, encode_utf8(m.tipcard_type), x8); }
    }
    let p8 = p7 + s8;
    lemma_chain::<SpecFlowCardInfo>(p7, s8, x0, x8, x9);
    let x10 = SpecFlowCardInfo { id: m.id, topic_name: m.topic_name, topic_icon: m.topic_icon, topic_color: m.topic_color, title: m.title, full_content: m.full_content, compressed_content: m.compressed_content, created_at: m.created_at, tipcard_type: m.tipcard_type, status: m.status, next_review_at: Seq::empty(), repeat_count: 0u32, pinned: false, pending_count: 0u64, images: Seq::empty(), sources: Seq::empty() };
    let s9 = seg_str(10, m.status);
    assert(merge_fields(s9, x9) == Some(x10) && fields_wf(s9)) by {
        if m.status.len() == 0 { assert(m.status =~= Seq::<char>::empty()); lemma_seg_empty::<SpecFlowCardInfo>(x9); } else { lemma_seg_len::<SpecFlowCardInfo>(10, encode_utf8(m.status), x9); }
    }
    let p9 = p8 + s9;
    lemma_chain::<SpecFlowCardInfo>(p8, s9, x0, x9, x10);
    let x11 = SpecFlowCardInfo { id: m.id, topic_name: m.topic_name, topic_icon: m.topic_icon, topic_color: m.topic_color, title: m.title, full_content: m.full_content, compressed_content: m.compressed_content, created_at: m.created_at, tipcard_type: m.tipcard_type, status: m.status, next_review_at: m.next_review_at, repeat_count: 0u32, pinned: false, pending_count: 0u64, images: Seq::empty(), sources: Seq::empty() };
    let s10 = seg_str(11, m.next_review_at);
    assert(merge_fields(s10, x10) == Some(x11) && fields_wf(s10)) by {
        if m.next_review_at.len() == 0 { assert(m.next_review_at =~= Seq::<char>::empty()); lemma_seg_empty::<SpecFlowCardInfo>(x10); } else { lemma_seg_len::<SpecFlowCardInfo>(11, encode_utf8(m.next_review_at), x10); }
    }
    let p10 = p9 + s10;
    lemma_chain::<SpecFlowCardInfo>(p9, s10, x0, x10, x11);
    let x12 = SpecFlowCardInfo { id: m.id, topic_name: m.topic_name, topic_icon: m.topic_icon, topic_color: m.topic_color, title: m.title, full_content: m.full_content, compressed_content: m.compressed_content, created_at: m.created_at, tipcard_type: m.tipcard_type, status: m.status, next_review_at: m.next_review_at, repeat_count: m.repeat_count, pinned: false, pending_count: 0u64, images: Seq::empty(), sources: Seq::empty() };
    let s11 = seg_u32(12, m.repeat_count);
    assert(merge_fields(s11, x11) == Some(x12) && fields_wf(s11)) by {
        lemma_seg_u64::<SpecFlowCardInfo>(12, m.repeat_count as u64, x11);
    }
    let p11 = p10 + s11;
    lemma_chain::<SpecFlowCardInfo>(p10, s11, x0, x11, x12);
    let x13 = SpecFlowCardInfo { id: m.id, topic_name: m.topic_name, topic_icon: m.topic_icon, topic_color: m.topic_color, title: m.title, full_content: m.full_content, compressed_content: m.compressed_content, created_at: m.created_at, tipcard_type: m.tipcard_type, status: m.status, next_review_at: m.next_review_at, repeat_count: m.repeat_count, pinned: m.pinned, pending_count: 0u64, images: Seq::empty(), sources: Seq::empty() };
    let s12 = seg_bool(13, m.pinned);
    assert(merge_fields(s12, x12) == Some(x13) && fields_wf(s12)) by {
        lemma_seg_u64::<SpecFlowCardInfo>(13, if m.pinned { 1u64 } else { 0u64 }, x12);
    }
    let p12 = p11 + s12;
    lemma_chain::<SpecFlowCardInfo>(p11, s12, x0, x12, x13);
    let x14 = SpecFlowCardInfo { id: m.id, topic_name: m.topic_name, topic_icon: m.topic_icon, topic_color: m.topic_color, title: m.title, full_content: m.full_content, compressed_content: m.compressed_content, created_at: m.created_at, tipcard_type: m.tipcard_type, status: m.status, next_review_at: m.next_review_at, repeat_count: m.repeat_count, pinned: m.pinned, pending_count: m.pending_count, images: Seq::empty(), sources: Seq::empty() };
    let s13 = seg_u64(14, m.pending_count);
    assert(merge_fields(s13, x13) == Some(x14) && fields_wf(s13)) by {
        lemma_seg_u64::<SpecFlowCardInfo>(14, m.pending_count, x13);
    }
    let p13 = p12 + s13;
    lemma_chain::<SpecFlowCardInfo>(p12, s13, x0, x13, x14);
    let x15 = SpecFlowCardInfo { id: m.id, topic_name: m.topic_name, topic_icon: m.topic_icon, topic_color: m.topic_color, title: m.title, full_content: m.full_content, compressed_content: m.compressed_content, created_at: m.created_at, tipcard_type: m.tipcard_type, status: m.status, next_review_at: m.next_review_at, repeat_count: m.repeat_count, pinned: m.pinned, pending_count: m.pending_count, images: m.images, sources: Seq::empty() };
    let s14 = seg_rep(15, SpecTipcardImageInfo::encode_all(m.images));
    assert(merge_fields(s14, x14) == Some(x15) && fields_wf(s14)) by {
        lemma_flow_card_info_rep_images(m.images, x14);
        assert forall|i: int| 0 <= i < SpecTipcardImageInfo::encode_all(m.images).len() implies fits(#[trigger] SpecTipcardImageInfo::encode_all(m.images)[i]) by { assert(m.images[i].wf() && fits(m.images[i].encoded())); }
        lemma_rep_wf(15, SpecTipcardImageInfo::encode_all(m.images));
        assert(x14.images + m.images =~= m.images);
    }
    let p14 = p13 + s14;
    lemma_chain::<SpecFlowCardInfo>(p13, s14, x0, x14, x15);
    let x16 = SpecFlowCardInfo { id: m.id, topic_name: m.topic_name, topic_icon: m.topic_icon, topic_color: m.topic_color, title: m.title, full_content: m.full_content, compressed_content: m.compressed_content, created_at: m.created_at, tipcard_type: m.tipcard_type, status: m.status, next_review_at: m.next_review_at, repeat_count: m.repeat_count, pinned: m.pinned, pending_count: m.pending_count, images: m.images, sources: m.sources };
    let s15 = seg_rep(16, SpecCardSource::encode_all(m.sources));
    assert(merge_fields(s15, x15) == Some(x16) && fields_wf(s15)) by {
        lemma_flow_card_info_rep_sources(m.sources, x15);
        assert forall|i: int| 0 <= i < SpecCardSource::encode_all(m.sources).len() implies fits(#[trigger] SpecCardSource::encode_all(m.sources)[i]) by { assert(m.sources[i].wf() && fits(m.sources[i].encoded())); }
        lemma_rep_wf(16, SpecCardSource::encode_all(m.sources));
        assert(x15.sources + m.sources =~= m.sources);
    }
    let p15 = p14 + s15;
    lemma_chain::<SpecFlowCardInfo>(p14, s15, x0, x15, x16);
    assert(x16 == m);
}

/// A `FlowCardInfo` whose encoding has a length that fits a varint is well-formed.
pub proof fn lemma_wf_flow_card_info(m: SpecFlowCardInfo)
    requires
        fits(m.encoded()),
    ensures
        m.wf(),
{
    reveal(SpecFlowCardInfo::fields);
    reveal(SpecFlowCardInfo::wf);
    let s0 = seg_i64(1, m.id);
    let p0 = s0;
    let s1 = seg_str(2, m.topic_name);
    let p1 = p0 + s1;
    let s2 = seg_str(3, m.topic_icon);
    let p2 = p1 + s2;
    let s3 = seg_str(4, m.topic_color);
    let p3 = p2 + s3;
    let s4 = seg_str(5, m.title);
    let p4 = p3 + s4;
    let s5 = seg_str(6, m.full_content);
    let p5 = p4 + s5;
    let s6 = seg_str(7, m.compressed_content);
    let p6 = p5 + s6;
    let s7 = seg_str(8, m.created_at);
    let p7 = p6 + s7;
    let s8 = seg_str(9, m.tipcard_type);
    let p8 = p7 + s8;
    let s9 = seg_str(10, m.status);
    let p9 = p8 + s9;
    let s10 = seg_str(11, m.next_review_at);
    let p10 = p9 + s10;
    let s11 = seg_u32(12, m.repeat_count);
    let p11 = p10 + s11;
    let s12 = seg_bool(13, m.pinned);
    let p12 = p11 + s12;
    let s13 = seg_u64(14, m.pending_count);
    let p13 = p12 + s13;
    let s14 = seg_rep(15, SpecTipcardImageInfo::encode_all(m.images));
    let p14 = p13 + s14;
    let s15 = seg_rep(16, SpecCardSource::encode_all(m.sources));
    let p15 = p14 + s15;
    lemma_fits_parts(p14, s15);
    lemma_fits_parts(p13, s14);
    lemma_fits_parts(p12, s13);
    lemma_fits_parts(p11, s12);
    lemma_fits_parts(p10, s11);
    lemma_fits_parts(p9, s10);
    lemma_fits_parts(p8, s9);
    lemma_fits_parts(p7, s8);
    lemma_fits_parts(p6, s7);
    lemma_fits_parts(p5, s6);
    lemma_fits_parts(p4, s5);
    lemma_fits_parts(p3, s4);
    lemma_fits_parts(p2, s3);
    lemma_fits_parts(p1, s2);
    lemma_fits_parts(p0, s1);
    lemma_fits_seg_str(2, m.topic_name);
    lemma_fits_seg_str(3, m.topic_icon);
    lemma_fits_seg_str(4, m.topic_color);
    lemma_fits_seg_str(5, m.title);
    lemma_fits_seg_str(6, m.full_content);
    lemma_fits_seg_str(7, m.compressed_content);
    lemma_fits_seg_str(8, m.created_at);
    lemma_fits_seg_str(9, m.tipcard_type);
    lemma_fits_seg_str(10, m.status);
    lemma_fits_seg_str(11, m.next_review_at);
    lemma_fits_seg_rep(15, SpecTipcardImageInfo::encode_all(m.images));
    assert forall|i: int| 0 <= i < m.images.len() implies (#[trigger] m.images[i]).wf() && fits(m.images[i].encoded()) by { assert(fits(SpecTipcardImageInfo::encode_all(m.images)[i])); lemma_wf_tipcard_image_info(m.images[i]); }
    lemma_fits_seg_rep(16, SpecCardSource::encode_all(m.sources));
    assert forall|i: int| 0 <= i < m.sources.len() implies (#[trigger] m.sources[i]).wf() && fits(m.sources[i].encoded()) by { assert(fits(SpecCardSource::encode_all(m.sources)[i])); lemma_wf_card_source(m.sources[i]); }
}

/// One page of flow cards.
#[derive(Clone, Debug, PartialEq, Default)]
pub struct FlowCardPageResponse {
    pub cards: Vec<FlowCardInfo>,
    pub next_page_token: String,
    pub has_more: bool,
}

/// The value of a [`FlowCardPageResponse`].
pub struct SpecFlowCardPageResponse {
    pub cards: Seq<SpecFlowCardInfo>,
    pub next_page_token: Seq<char>,
    pub has_more: bool,
}

impl View for FlowCardPageResponse {
    type V = SpecFlowCardPageResponse;

    open spec fn view(&self) -> SpecFlowCardPageResponse {
        SpecFlowCardPageResponse {
            cards: Seq::new(self.cards@.len(), |i: int| self.cards@[i]@),
            next_page_token: self.next_page_token@,
            has_more: self.has_more,
        }
    }
}

impl SpecFlowCardPageResponse {
    /// Every field at its default.
    pub open spec fn empty() -> SpecFlowCardPageResponse {
        SpecFlowCardPageResponse {
            cards: Seq::empty(),
            next_page_token: Seq::empty(),
            has_more: false,
        }
    }

    /// The fields written for this value, in field-number order.
    #[verifier::opaque]
    pub open spec fn fields(self) -> Seq<SpecField> {
        seg_rep(1, SpecFlowCardInfo::encode_all(self.cards))
            + seg_str(2, self.next_page_token)
            + seg_bool(3, self.has_more)
    }

    pub open spec fn encoded(self) -> Seq<u8> {
        encode_fields(self.fields())
    }

    pub open spec fn encode_all(v: Seq<SpecFlowCardPageResponse>) -> Seq<Seq<u8>> {
        Seq::new(v.len(), |i: int| v[i].encoded())
    }

    /// Every length-delimited payload fits a varint length.
    #[verifier::opaque]
    pub open spec fn wf(self) -> bool {
        (forall|i: int| 0 <= i < self.cards.len() ==> (#[trigger] self.cards[i]).wf() && fits(self.cards[i].encoded()))
        && fits(encode_utf8(self.next_page_token))
    }
}

impl Message for SpecFlowCardPageResponse {
    open spec fn merge(self, f: SpecField) -> Option<SpecFlowCardPageResponse> {
        if f.number == 1 {
            match merge_nested(f.value, SpecFlowCardInfo::empty()) { Some(c) => Some(SpecFlowCardPageResponse { cards: self.cards.push(c), ..self }), None => None }
        } else if f.number == 2 {
            match as_string(f.value) { Some(s) => Some(SpecFlowCardPageResponse { next_page_token: s, ..self }), None => None }
        } else if f.number == 3 {
            match as_varint(f.value) { Some(v) => Some(SpecFlowCardPageResponse { has_more: v != 0, ..self }), None => None }
        } else {
            Some(self)
        }
    }
}

impl WireMessage for FlowCardPageResponse {
    type Spec = SpecFlowCardPageResponse;

    open spec fn spec_of(&self) -> SpecFlowCardPageResponse {
        self@
    }

    open spec fn spec_default() -> SpecFlowCardPageResponse {
        SpecFlowCardPageResponse::empty()
    }

    fn default_value() -> (r: Self) {
        let r = FlowCardPageResponse {
            cards: Vec::new(),
            next_page_token: String::new(),
            has_more: false,
        };
        assert(r@.cards =~= Seq::empty());
        r
    }

    fn merge_raw(&mut self, buf: &[u8], f: &RawField) -> (ok: bool) {
        if f.number == 1 {
            match raw_nested(buf, f, FlowCardInfo::default_value()) { Some(c) => { self.cards.push(c); proof { assert(self@.cards =~= old(self)@.cards.push(self.cards@.last()@)); } true }, None => false }
        } else if f.number == 2 {
            match raw_string(buf, f) { Some(s) => { self.next_page_token = s; true }, None => false }
        } else if f.number == 3 {
            match raw_varint(f) { Some(v) => { self.has_more = v != 0; true }, None => false }
        } else {
            true
        }
    }
}

impl FlowCardPageResponse {
    /// Appends the protobuf encoding of this message.
    pub fn encode_to(&self, out: &mut Vec<u8>)
        ensures
            final(out)@ == old(out)@ + self@.encoded(),
    {
        let ghost start = out@;
        proof {
            reveal(SpecFlowCardPageResponse::fields);
        }
        let ghost s0 = seg_rep(1, SpecFlowCardInfo::encode_all(self@.cards));
        FlowCardInfo::put_repeated(out, 1, &self.cards);
        let ghost p0 = s0;
        assert(out@ =~= start + encode_fields(p0));
        let ghost s1 = seg_str(2, self@.next_page_token);
        put_str(out, 2, self.next_page_token.as_str());
        let ghost p1 = p0 + s1;
        proof {
            lemma_encode_fields_append(p0, s1);
        }
        assert(out@ =~= start + encode_fields(p1));
        let ghost s2 = seg_bool(3, self@.has_more);
        put_bool(out, 3, self.has_more);
        let ghost p2 = p1 + s2;
        proof {
            lemma_encode_fields_append(p1, s2);
        }
        assert(out@ =~= start + encode_fields(p2));
        assert(out@ =~= start + self@.encoded());
    }

    /// The protobuf encoding of this message.
    pub fn encode_to_vec(&self) -> (r: Vec<u8>)
        ensures
            r@ == self@.encoded(),
    {
        let mut out: Vec<u8> = Vec::new();
        self.encode_to(&mut out);
        assert(out@ =~= self@.encoded());
        out
    }

    /// Decodes a message; `None` where the bytes are not a valid encoding.
    pub fn decode(buf: &[u8]) -> (r: Option<FlowCardPageResponse>)
        ensures
            match decode_into(buf@, SpecFlowCardPageResponse::empty()) {
                Some(m) => r matches Some(v) && v@ == m,
                None => r is None,
            },
    {
        decode_message::<FlowCardPageResponse>(buf)
    }

    /// Appends one length-delimited field `n` per element of `v`.
    pub fn put_repeated(out: &mut Vec<u8>, n: u32, v: &Vec<FlowCardPageResponse>)
        requires
            1 <= n <= MAX_FIELD_NUMBER,
        ensures
            final(out)@ == old(out)@ + encode_fields(seg_rep(n, SpecFlowCardPageResponse::encode_all(Seq::new(v@.len(), |i: int| v@[i]@)))),
    {
        let ghost all = SpecFlowCardPageResponse::encode_all(Seq::new(v@.len(), |i: int| v@[i]@));
        let mut part: Vec<u8> = Vec::new();
        let mut i: usize = 0;
        proof {
            lemma_seg_rep_full(n, all);
            lemma_encode_empty();
        }
        while i < v.len()
            invariant
                1 <= n <= MAX_FIELD_NUMBER,
                i <= v@.len(),
                all == SpecFlowCardPageResponse::encode_all(Seq::new(v@.len(), |i: int| v@[i]@)),
                part@ == encode_fields(seg_rep(n, all.take(i as int))),
            decreases v@.len() - i,
        {
            let b = v[i].encode_to_vec();
            proof {
                assert(all.take(i as int).push(b@) =~= all.take(i + 1));
            }
            put_rep_item(&mut part, n, b.as_slice(), Ghost(all.take(i as int)));
            i = i + 1;
        }
        proof {
            lemma_seg_rep_full(n, all);
        }
        append_all(out, &part);
    }
}

proof fn lemma_flow_card_page_response_rep_cards(v: Seq<SpecFlowCardInfo>, x: SpecFlowCardPageResponse)
    requires
        forall|i: int| 0 <= i < v.len() ==> (#[trigger] v[i]).wf(),
    ensures
        merge_fields(seg_rep(1, SpecFlowCardInfo::encode_all(v)), x) == Some(SpecFlowCardPageResponse { cards: x.cards + v, ..x }),
    decreases v.len(),
{
    if v.len() == 0 {
        lemma_rep_empty(1, SpecFlowCardInfo::encode_all(v));
        lemma_seg_empty::<SpecFlowCardPageResponse>(x);
        assert(x.cards + v =~= x.cards);
    } else {
        let w = v.drop_last();
        lemma_flow_card_page_response_rep_cards(w, x);
        assert(SpecFlowCardInfo::encode_all(v).drop_last() =~= SpecFlowCardInfo::encode_all(w));
        lemma_rep_split(1, SpecFlowCardInfo::encode_all(v));
        lemma_merge_fields_append(seg_rep(1, SpecFlowCardInfo::encode_all(w)), seq![lfield(1, v.last().encoded())], x);
        let y = SpecFlowCardPageResponse { cards: x.cards + w, ..x };
        lemma_merge_one(lfield(1, v.last().encoded()), y);
        lemma_round_flow_card_info(v.last());
        lemma_decode_encode_fields(v.last().fields(), SpecFlowCardInfo::empty());
        assert((x.cards + w).push(v.last()) =~= x.cards + v);
    }
}

/// Decoding the fields of a well-formed `FlowCardPageResponse` gives it back.
pub proof fn lemma_round_flow_card_page_response(m: SpecFlowCardPageResponse)
    requires
        m.wf(),
    ensures
        merge_fields(m.fields(), SpecFlowCardPageResponse::empty()) == Some(m),
        fields_wf(m.fields()),
{
    reveal(SpecFlowCardPageResponse::fields);
    reveal(SpecFlowCardPageResponse::wf);
    let x0 = SpecFlowCardPageResponse::empty();
    let x1 = SpecFlowCardPageResponse { cards: m.cards, next_page_token: Seq::empty(), has_more: false };
    let s0 = seg_rep(1, SpecFlowCardInfo::encode_all(m.cards));
    assert(merge_fields(s0, x0) == Some(x1) && fields_wf(s0)) by {
        lemma_flow_card_page_response_rep_cards(m.cards, x0);
        assert forall|i: int| 0 <= i < SpecFlowCardInfo::encode_all(m.cards).len() implies fits(#[trigger] SpecFlowCardInfo::encode_all(m.cards)[i]) by { assert(m.cards[i].wf() && fits(m.cards[i].encoded())); }
        lemma_rep_wf(1, SpecFlowCardInfo::encode_all(m.cards));
        assert(x0.cards + m.cards =~= m.cards);
    }
    let p0 = s0;
    let x2 = SpecFlowCardPageResponse { cards: m.cards, next_page_token: m.next_page_token, has_more: false };
    let s1 = seg_str(2, m.next_page_token);
    assert(merge_fields(s1, x1) == Some(x2) && fields_wf(s1)) by {
        if m.next_page_token.len() == 0 { assert(m.next_page_token =~= Seq::<char>::empty()); lemma_seg_empty::<SpecFlowCardPageResponse>(x1); } else { lemma_seg_len::<SpecFlowCardPageResponse>(2, encode_utf8(m.next_page_token), x1); }
    }
    let p1 = p0 + s1;
    lemma_chain::<SpecFlowCardPageResponse>(p0, s1, x0, x1, x2);
    let x3 = SpecFlowCardPageResponse { cards: m.cards, next_page_token: m.next_page_token, has_more: m.has_more };
    let s2 = seg_bool(3, m.has_more);
    assert(merge_fields(s2, x2) == Some(x3) && fields_wf(s2)) by {
        lemma_seg_u64::<SpecFlowCardPageResponse>(3, if m.has_more { 1u64 } else { 0u64 }, x2);
    }
    let p2 = p1 + s2;
    lemma_chain::<SpecFlowCardPageResponse>(p1, s2, x0, x2, x3);
    assert(x3 == m);
}

/// A `FlowCardPageResponse` whose encoding has a length that fits a varint is well-formed.
pub proof fn lemma_wf_flow_card_page_response(m: SpecFlowCardPageResponse)
    requires
        fits(m.encoded()),
    ensures
        m.wf(),
{
    reveal(SpecFlowCardPageResponse::fields);
    reveal(SpecFlowCardPageResponse::wf);
    let s0 = seg_rep(1, SpecFlowCardInfo::encode_all(m.cards));
    let p0 = s0;
    let s1 = seg_str(2, m.next_page_token);
    let p1 = p0 + s1;
    let s2 = seg_bool(3, m.has_more);
    let p2 = p1 + s2;
    lemma_fits_parts(p1, s2);
    lemma_fits_parts(p0, s1);
    lemma_fits_seg_rep(1, SpecFlowCardInfo::encode_all(m.cards));
    assert forall|i: int| 0 <= i < m.cards.len() implies (#[trigger] m.cards[i]).wf() && fits(m.cards[i].encoded()) by { assert(fits(SpecFlowCardInfo::encode_all(m.cards)[i])); lemma_wf_flow_card_info(m.cards[i]); }
    lemma_fits_seg_str(2, m.next_page_token);
}

/// One card in full.
#[derive(Clone, Debug, PartialEq, Default)]
pub struct TipcardDetailResponse {
    pub card: Option<FlowCardInfo>,
}

/// The value of a [`TipcardDetailResponse`].
pub struct SpecTipcardDetailResponse {
    pub card: Option<SpecFlowCardInfo>,
}

impl View for TipcardDetailResponse {
    type V = SpecTipcardDetailResponse;

    open spec fn view(&self) -> SpecTipcardDetailResponse {
        SpecTipcardDetailResponse {
            card: match &self.card { Some(c) => Some(c@), None => None },
        }
    }
}

impl SpecTipcardDetailResponse {
    /// Every field at its default.
    pub open spec fn empty() -> SpecTipcardDetailResponse {
        SpecTipcardDetailResponse {
            card: None,
        }
    }

    /// The fields written for this value, in field-number order.
    #[verifier::opaque]
    pub open spec fn fields(self) -> Seq<SpecField> {
        seg_msg(1, match self.card { Some(c) => Some(c.encoded()), None => None })
    }

    pub open spec fn encoded(self) -> Seq<u8> {
        encode_fields(self.fields())
    }

    pub open spec fn encode_all(v: Seq<SpecTipcardDetailResponse>) -> Seq<Seq<u8>> {
        Seq::new(v.len(), |i: int| v[i].encoded())
    }

    /// Every length-delimited payload fits a varint length.
    #[verifier::opaque]
    pub open spec fn wf(self) -> bool {
        (match self.card { Some(c) => c.wf() && fits(c.encoded()), None => true })
    }
}

impl Message for SpecTipcardDetailResponse {
    open spec fn merge(self, f: SpecField) -> Option<SpecTipcardDetailResponse> {
        if f.number == 1 {
            match merge_nested(f.value, match self.card { Some(c) => c, None => SpecFlowCardInfo::empty() }) { Some(c) => Some(SpecTipcardDetailResponse { card: Some(c), ..self }), None => None }
        } else {
            Some(self)
        }
    }
}

impl WireMessage for TipcardDetailResponse {
    type Spec = SpecTipcardDetailResponse;

    open spec fn spec_of(&self) -> SpecTipcardDetailResponse {
        self@
    }

    open spec fn spec_default() -> SpecTipcardDetailResponse {
        SpecTipcardDetailResponse::empty()
    }

    fn default_value() -> (r: Self) {
        let r = TipcardDetailResponse {
            card: None,
        };
        r
    }

    fn merge_raw(&mut self, buf: &[u8], f: &RawField) -> (ok: bool) {
        if f.number == 1 {
            { let cur = match self.card.take() { Some(c) => c, None => FlowCardInfo::default_value() }; match raw_nested(buf, f, cur) { Some(c) => { self.card = Some(c); true }, None => false } }
        } else {
            true
        }
    }
}

impl TipcardDetailResponse {
    /// Appends the protobuf encoding of this message.
    pub fn encode_to(&self, out: &mut Vec<u8>)
        ensures
            final(out)@ == old(out)@ + self@.encoded(),
    {
        let ghost start = out@;
        proof {
            reveal(SpecTipcardDetailResponse::fields);
        }
        let ghost s0 = seg_msg(1, match self@.card { Some(c) => Some(c.encoded()), None => None });
        match &self.card {
            Some(c) => {
                let b = c.encode_to_vec();
                put_msg(out, 1, b.as_slice());
            },
            None => {
                proof {
                    lemma_encode_empty();
                }
                assert(out@ =~= out@ + encode_fields(Seq::<SpecField>::empty()));
            },
        }
        let ghost p0 = s0;
        assert(out@ =~= start + encode_fields(p0));
        assert(out@ =~= start + self@.encoded());
    }

    /// The protobuf encoding of this message.
    pub fn encode_to_vec(&self) -> (r: Vec<u8>)
        ensures
            r@ == self@.encoded(),
    {
        let mut out: Vec<u8> = Vec::new();
        self.encode_to(&mut out);
        assert(out@ =~= self@.encoded());
        out
    }

    /// Decodes a message; `None` where the bytes are not a valid encoding.
    pub fn decode(buf: &[u8]) -> (r: Option<TipcardDetailResponse>)
        ensures
            match decode_into(buf@, SpecTipcardDetailResponse::empty()) {
                Some(m) => r matches Some(v) && v@ == m,
                None => r is None,
            },
    {
        decode_message::<TipcardDetailResponse>(buf)
    }

    /// Appends one length-delimited field `n` per element of `v`.
    pub fn put_repeated(out: &mut Vec<u8>, n: u32, v: &Vec<TipcardDetailResponse>)
        requires
            1 <= n <= MAX_FIELD_NUMBER,
        ensures
            final(out)@ == old(out)@ + encode_fields(seg_rep(n, SpecTipcardDetailResponse::encode_all(Seq::new(v@.len(), |i: int| v@[i]@)))),
    {
        let ghost all = SpecTipcardDetailResponse::encode_all(Seq::new(v@.len(), |i: int| v@[i]@));
        let mut part: Vec<u8> = Vec::new();
        let mut i: usize = 0;
        proof {
            lemma_seg_rep_full(n, all);
            lemma_encode_empty();
        }
        while i < v.len()
            invariant
                1 <= n <= MAX_FIELD_NUMBER,
                i <= v@.len(),
                all == SpecTipcardDetailResponse::encode_all(Seq::new(v@.len(), |i: int| v@[i]@)),
                part@ == encode_fields(seg_rep(n, all.take(i as int))),
            decreases v@.len() - i,
        {
            let b = v[i].encode_to_vec();
            proof {
                assert(all.take(i as int).push(b@) =~= all.take(i + 1));
            }
            put_rep_item(&mut part, n, b.as_slice(), Ghost(all.take(i as int)));
            i = i + 1;
        }
        proof {
            lemma_seg_rep_full(n, all);
        }
        append_all(out, &part);
    }
}

/// Decoding the fields of a well-formed `TipcardDetailResponse` gives it back.
pub proof fn lemma_round_tipcard_detail_response(m: SpecTipcardDetailResponse)
    requires
        m.wf(),
    ensures
        merge_fields(m.fields(), SpecTipcardDetailResponse::empty()) == Some(m),
        fields_wf(m.fields()),
{
    reveal(SpecTipcardDetailResponse::fields);
    reveal(SpecTipcardDetailResponse::wf);
    let x0 = SpecTipcardDetailResponse::empty();
    let x1 = SpecTipcardDetailResponse { card: m.card };
    let s0 = seg_msg(1, match m.card { Some(c) => Some(c.encoded()), None => None });
    assert(merge_fields(s0, x0) == Some(x1) && fields_wf(s0)) by {
        match m.card { Some(c) => { lemma_seg_len::<SpecTipcardDetailResponse>(1, c.encoded(), x0); lemma_round_flow_card_info(c); lemma_decode_encode_fields(c.fields(), SpecFlowCardInfo::empty()); }, None => { lemma_seg_empty::<SpecTipcardDetailResponse>(x0); } }
    }
    let p0 = s0;
    assert(x1 == m);
}

/// A `TipcardDetailResponse` whose encoding has a length that fits a varint is well-formed.
pub proof fn lemma_wf_tipcard_detail_response(m: SpecTipcardDetailResponse)
    requires
        fits(m.encoded()),
    ensures
        m.wf(),
{
    reveal(SpecTipcardDetailResponse::fields);
    reveal(SpecTipcardDetailResponse::wf);
    let s0 = seg_msg(1, match m.card { Some(c) => Some(c.encoded()), None => None });
    let p0 = s0;
    match m.card { Some(c) => { lemma_fits_one(1, c.encoded()); lemma_wf_flow_card_info(c); }, None => {} }
}

/// A card that was just created.
#[derive(Clone, Debug, PartialEq, Default)]
pub struct TipInfo {
    pub id: i64,
    pub topic: String,
    pub tipcard_type: String,
    pub pinned: bool,
}

/// The value of a [`TipInfo`].
pub struct SpecTipInfo {
    pub id: i64,
    pub topic: Seq<char>,
    pub tipcard_type: Seq<char>,
    pub pinned: bool,
}

impl View for TipInfo {
    type V = SpecTipInfo;

    open spec fn view(&self) -> SpecTipInfo {
        SpecTipInfo {
            id: self.id,
            topic: self.topic@,
            tipcard_type: self.tipcard_type@,
            pinned: self.pinned,
        }
    }
}

impl SpecTipInfo {
    /// Every field at its default.
    pub open spec fn empty() -> SpecTipInfo {
        SpecTipInfo {
            id: 0i64,
            topic: Seq::empty(),
            tipcard_type: Seq::empty(),
            pinned: false,
        }
    }

    /// The fields written for this value, in field-number order.
    #[verifier::opaque]
    pub open spec fn fields(self) -> Seq<SpecField> {
        seg_i64(1, self.id)
            + seg_str(2, self.topic)
            + seg_str(3, self.tipcard_type)
            + seg_bool(4, self.pinned)
    }

    pub open spec fn encoded(self) -> Seq<u8> {
        encode_fields(self.fields())
    }

    pub open spec fn encode_all(v: Seq<SpecTipInfo>) -> Seq<Seq<u8>> {
        Seq::new(v.len(), |i: int| v[i].encoded())
    }

    /// Every length-delimited payload fits a varint length.
    #[verifier::opaque]
    pub open spec fn wf(self) -> bool {
        fits(encode_utf8(self.topic))
        && fits(encode_utf8(self.tipcard_type))
    }
}

impl Message for SpecTipInfo {
    open spec fn merge(self, f: SpecField) -> Option<SpecTipInfo> {
        if f.number == 1 {
            match as_varint(f.value) { Some(v) => Some(SpecTipInfo { id: v as i64, ..self }), None => None }
        } else if f.number == 2 {
            match as_string(f.value) { Some(s) => Some(SpecTipInfo { topic: s, ..self }), None => None }
        } else if f.number == 3 {
            match as_string(f.value) { Some(s) => Some(SpecTipInfo { tipcard_type: s, ..self }), None => None }
        } else if f.number == 4 {
            match as_varint(f.value) { Some(v) => Some(SpecTipInfo { pinned: v != 0, ..self }), None => None }
        } else {
            Some(self)
        }
    }
}

impl WireMessage for TipInfo {
    type Spec = SpecTipInfo;

    open spec fn spec_of(&self) -> SpecTipInfo {
        self@
    }

    open spec fn spec_default() -> SpecTipInfo {
        SpecTipInfo::empty()
    }

    fn default_value() -> (r: Self) {
        let r = TipInfo {
            id: 0,
            topic: String::new(),
            tipcard_type: String::new(),
            pinned: false,
        };
        r
    }

    fn merge_raw(&mut self, buf: &[u8], f: &RawField) -> (ok: bool) {
        if f.number == 1 {
            match raw_varint(f) { Some(v) => { self.id = v as i64; true }, None => false }
        } else if f.number == 2 {
            match raw_string(buf, f) { Some(s) => { self.topic = s; true }, None => false }
        } else if f.number == 3 {
            match raw_string(buf, f) { Some(s) => { self.tipcard_type = s; true }, None => false }
        } else if f.number == 4 {
            match raw_varint(f) { Some(v) => { self.pinned = v != 0; true }, None => false }
        } else {
            true
        }
    }
}

impl TipInfo {
    /// Appends the protobuf encoding of this message.
    pub fn encode_to(&self, out: &mut Vec<u8>)
        ensures
            final(out)@ == old(out)@ + self@.encoded(),
    {
        let ghost start = out@;
        proof {
            reveal(SpecTipInfo::fields);
        }
        let ghost s0 = seg_i64(1, self@.id);
        put_i64(out, 1, self.id);
        let ghost p0 = s0;
        assert(out@ =~= start + encode_fields(p0));
        let ghost s1 = seg_str(2, self@.topic);
        put_str(out, 2, self.topic.as_str());
        let ghost p1 = p0 + s1;
        proof {
            lemma_encode_fields_append(p0, s1);
        }
        assert(out@ =~= start + encode_fields(p1));
        let ghost s2 = seg_str(3, self@.tipcard_type);
        put_str(out, 3, self.tipcard_type.as_str());
        let ghost p2 = p1 + s2;
        proof {
            lemma_encode_fields_append(p1, s2);
        }
        assert(out@ =~= start + encode_fields(p2));
        let ghost s3 = seg_bool(4, self@.pinned);
        put_bool(out, 4, self.pinned);
        let ghost p3 = p2 + s3;
        proof {
            lemma_encode_fields_append(p2, s3);
        }
        assert(out@ =~= start + encode_fields(p3));
        assert(out@ =~= start + self@.encoded());
    }

    /// The protobuf encoding of this message.
    pub fn encode_to_vec(&self) -> (r: Vec<u8>)
        ensures
            r@ == self@.encoded(),
    {
        let mut out: Vec<u8> = Vec::new();
        self.encode_to(&mut out);
        assert(out@ =~= self@.encoded());
        out
    }

    /// Decodes a message; `None` where the bytes are not a valid encoding.
    pub fn decode(buf: &[u8]) -> (r: Option<TipInfo>)
        ensures
            match decode_into(buf@, SpecTipInfo::empty()) {
                Some(m) => r matches Some(v) && v@ == m,
                None => r is None,
            },
    {
        decode_message::<TipInfo>(buf)
    }

    /// Appends one length-delimited field `n` per element of `v`.
    pub fn put_repeated(out: &mut Vec<u8>, n: u32, v: &Vec<TipInfo>)
        requires
            1 <= n <= MAX_FIELD_NUMBER,
        ensures
            final(out)@ == old(out)@ + encode_fields(seg_rep(n, SpecTipInfo::encode_all(Seq::new(v@.len(), |i: int| v@[i]@)))),
    {
        let ghost all = SpecTipInfo::encode_all(Seq::new(v@.len(), |i: int| v@[i]@));
        let mut part: Vec<u8> = Vec::new();
        let mut i: usize = 0;
        proof {
            lemma_seg_rep_full(n, all);
            lemma_encode_empty();
        }
        while i < v.len()
            invariant
                1 <= n <= MAX_FIELD_NUMBER,
                i <= v@.len(),
                all == SpecTipInfo::encode_all(Seq::new(v@.len(), |i: int| v@[i]@)),
                part@ == encode_fields(seg_rep(n, all.take(i as int))),
            decreases v@.len() - i,
        {
            let b = v[i].encode_to_vec();
            proof {
                assert(all.take(i as int).push(b@) =~= all.take(i + 1));
            }
            put_rep_item(&mut part, n, b.as_slice(), Ghost(all.take(i as int)));
            i = i + 1;
        }
        proof {
            lemma_seg_rep_full(n, all);
        }
        append_all(out, &part);
    }
}

/// Decoding the fields of a well-formed `TipInfo` gives it back.
pub proof fn lemma_round_tip_info(m: SpecTipInfo)
    requires
        m.wf(),
    ensures
        merge_fields(m.fields(), SpecTipInfo::empty()) == Some(m),
        fields_wf(m.fields()),
{
    reveal(SpecTipInfo::fields);
    reveal(SpecTipInfo::wf);
    let x0 = SpecTipInfo::empty();
    let x1 = SpecTipInfo { id: m.id, topic: Seq::empty(), tipcard_type: Seq::empty(), pinned: false };
    let s0 = seg_i64(1, m.id);
    assert(merge_fields(s0, x0) == Some(x1) && fields_wf(s0)) by {
        lemma_zero_i64(m.id);
        lemma_seg_u64::<SpecTipInfo>(1, m.id as u64, x0);
    }
    let p0 = s0;
    let x2 = SpecTipInfo { id: m.id, topic: m.topic, tipcard_type: Seq::empty(), pinned: false };
    let s1 = seg_str(2, m.topic);
    assert(merge_fields(s1, x1) == Some(x2) && fields_wf(s1)) by {
        if m.topic.len() == 0 { assert(m.topic =~= Seq::<char>::empty()); lemma_seg_empty::<SpecTipInfo>(x1); } else { lemma_seg_len::<SpecTipInfo>(2, encode_utf8(m.topic), x1); }
    }
    let p1 = p0 + s1;
    lemma_chain::<SpecTipInfo>(p0, s1, x0, x1, x2);
    let x3 = SpecTipInfo { id: m.id, topic: m.topic, tipcard_type: m.tipcard_type, pinned: false };
    let s2 = seg_str(3, m.tipcard_type);
    assert(merge_fields(s2, x2) == Some(x3) && fields_wf(s2)) by {
        if m.tipcard_type.len() == 0 { assert(m.tipcard_type =~= Seq::<char>::empty()); lemma_seg_empty::<SpecTipInfo>(x2); } else { lemma_seg_len::<SpecTipInfo>(3, encode_utf8(m.tipcard_type), x2); }
    }
    let p2 = p1 + s2;
    lemma_chain::<SpecTipInfo>(p1, s2, x0, x2, x3);
    let x4 = SpecTipInfo { id: m.id, topic: m.topic, tipcard_type: m.tipcard_type, pinned: m.pinned };
    let s3 = seg_bool(4, m.pinned);
    assert(merge_fields(s3, x3) == Some(x4) && fields_wf(s3)) by {
        lemma_seg_u64::<SpecTipInfo>(4, if m.pinned { 1u64 } else { 0u64 }, x3);
    }
    let p3 = p2 + s3;
    lemma_chain::<SpecTipInfo>(p2, s3, x0, x3, x4);
    assert(x4 == m);
}

/// A `TipInfo` whose encoding has a length that fits a varint is well-formed.
pub proof fn lemma_wf_tip_info(m: SpecTipInfo)
    requires
        fits(m.encoded()),
    ensures
        m.wf(),
{
    reveal(SpecTipInfo::fields);
    reveal(SpecTipInfo::wf);
    let s0 = seg_i64(1, m.id);
    let p0 = s0;
    let s1 = seg_str(2, m.topic);
    let p1 = p0 + s1;
    let s2 = seg_str(3, m.tipcard_type);
    let p2 = p1 + s2;
    let s3 = seg_bool(4, m.pinned);
    let p3 = p2 + s3;
    lemma_fits_parts(p2, s3);
    lemma_fits_parts(p1, s2);
    lemma_fits_parts(p0, s1);
    lemma_fits_seg_str(2, m.topic);
    lemma_fits_seg_str(3, m.tipcard_type);
}

/// The cards that were created.
#[derive(Clone, Debug, PartialEq, Default)]
pub struct TipsResponse {
    pub tips: Vec<TipInfo>,
}

/// The value of a [`TipsResponse`].
pub struct SpecTipsResponse {
    pub tips: Seq<SpecTipInfo>,
}

impl View for TipsResponse {
    type V = SpecTipsResponse;

    open spec fn view(&self) -> SpecTipsResponse {
        SpecTipsResponse {
            tips: Seq::new(self.tips@.len(), |i: int| self.tips@[i]@),
        }
    }
}

impl SpecTipsResponse {
    /// Every field at its default.
    pub open spec fn empty() -> SpecTipsResponse {
        SpecTipsResponse {
            tips: Seq::empty(),
        }
    }

    /// The fields written for this value, in field-number order.
    #[verifier::opaque]
    pub open spec fn fields(self) -> Seq<SpecField> {
        seg_rep(1, SpecTipInfo::encode_all(self.tips))
    }

    pub open spec fn encoded(self) -> Seq<u8> {
        encode_fields(self.fields())
    }

    pub open spec fn encode_all(v: Seq<SpecTipsResponse>) -> Seq<Seq<u8>> {
        Seq::new(v.len(), |i: int| v[i].encoded())
    }

    /// Every length-delimited payload fits a varint length.
    #[verifier::opaque]
    pub open spec fn wf(self) -> bool {
        (forall|i: int| 0 <= i < self.tips.len() ==> (#[trigger] self.tips[i]).wf() && fits(self.tips[i].encoded()))
    }
}

impl Message for SpecTipsResponse {
    open spec fn merge(self, f: SpecField) -> Option<SpecTipsResponse> {
        if f.number == 1 {
            match merge_nested(f.value, SpecTipInfo::empty()) { Some(c) => Some(SpecTipsResponse { tips: self.tips.push(c), ..self }), None => None }
        } else {
            Some(self)
        }
    }
}

impl WireMessage for TipsResponse {
    type Spec = SpecTipsResponse;

    open spec fn spec_of(&self) -> SpecTipsResponse {
        self@
    }

    open spec fn spec_default() -> SpecTipsResponse {
        SpecTipsResponse::empty()
    }

    fn default_value() -> (r: Self) {
        let r = TipsResponse {
            tips: Vec::new(),
        };
        assert(r@.tips =~= Seq::empty());
        r
    }

    fn merge_raw(&mut self, buf: &[u8], f: &RawField) -> (ok: bool) {
        if f.number == 1 {
            match raw_nested(buf, f, TipInfo::default_value()) { Some(c) => { self.tips.push(c); proof { assert(self@.tips =~= old(self)@.tips.push(self.tips@.last()@)); } true }, None => false }
        } else {
            true
        }
    }
}

impl TipsResponse {
    /// Appends the protobuf encoding of this message.
    pub fn encode_to(&self, out: &mut Vec<u8>)
        ensures
            final(out)@ == old(out)@ + self@.encoded(),
    {
        let ghost start = out@;
        proof {
            reveal(SpecTipsResponse::fields);
        }
        let ghost s0 = seg_rep(1, SpecTipInfo::encode_all(self@.tips));
        TipInfo::put_repeated(out, 1, &self.tips);
        let ghost p0 = s0;
        assert(out@ =~= start + encode_fields(p0));
        assert(out@ =~= start + self@.encoded());
    }

    /// The protobuf encoding of this message.
    pub fn encode_to_vec(&self) -> (r: Vec<u8>)
        ensures
            r@ == self@.encoded(),
    {
        let mut out: Vec<u8> = Vec::new();
        self.encode_to(&mut out);
        assert(out@ =~= self@.encoded());
        out
    }

    /// Decodes a message; `None` where the bytes are not a valid encoding.
    pub fn decode(buf: &[u8]) -> (r: Option<TipsResponse>)
        ensures
            match decode_into(buf@, SpecTipsResponse::empty()) {
                Some(m) => r matches Some(v) && v@ == m,
                None => r is None,
            },
    {
        decode_message::<TipsResponse>(buf)
    }

    /// Appends one length-delimited field `n` per element of `v`.
    pub fn put_repeated(out: &mut Vec<u8>, n: u32, v: &Vec<TipsResponse>)
        requires
            1 <= n <= MAX_FIELD_NUMBER,
        ensures
            final(out)@ == old(out)@ + encode_fields(seg_rep(n, SpecTipsResponse::encode_all(Seq::new(v@.len(), |i: int| v@[i]@)))),
    {
        let ghost all = SpecTipsResponse::encode_all(Seq::new(v@.len(), |i: int| v@[i]@));
        let mut part: Vec<u8> = Vec::new();
        let mut i: usize = 0;
        proof {
            lemma_seg_rep_full(n, all);
            lemma_encode_empty();
        }
        while i < v.len()
            invariant
                1 <= n <= MAX_FIELD_NUMBER,
                i <= v@.len(),
                all == SpecTipsResponse::encode_all(Seq::new(v@.len(), |i: int| v@[i]@)),
                part@ == encode_fields(seg_rep(n, all.take(i as int))),
            decreases v@.len() - i,
        {
            let b = v[i].encode_to_vec();
            proof {
                assert(all.take(i as int).push(b@) =~= all.take(i + 1));
            }
            put_rep_item(&mut part, n, b.as_slice(), Ghost(all.take(i as int)));
            i = i + 1;
        }
        proof {
            lemma_seg_rep_full(n, all);
        }
        append_all(out, &part);
    }
}

proof fn lemma_tips_response_rep_tips(v: Seq<SpecTipInfo>, x: SpecTipsResponse)
    requires
        forall|i: int| 0 <= i < v.len() ==> (#[trigger] v[i]).wf(),
    ensures
        merge_fields(seg_rep(1, SpecTipInfo::encode_all(v)), x) == Some(SpecTipsResponse { tips: x.tips + v, ..x }),
    decreases v.len(),
{
    if v.len() == 0 {
        lemma_rep_empty(1, SpecTipInfo::encode_all(v));
        lemma_seg_empty::<SpecTipsResponse>(x);
        assert(x.tips + v =~= x.tips);
    } else {
        let w = v.drop_last();
        lemma_tips_response_rep_tips(w, x);
        assert(SpecTipInfo::encode_all(v).drop_last() =~= SpecTipInfo::encode_all(w));
        lemma_rep_split(1, SpecTipInfo::encode_all(v));
        lemma_merge_fields_append(seg_rep(1, SpecTipInfo::encode_all(w)), seq![lfield(1, v.last().encoded())], x);
        let y = SpecTipsResponse { tips: x.tips + w, ..x };
        lemma_merge_one(lfield(1, v.last().encoded()), y);
        lemma_round_tip_info(v.last());
        lemma_decode_encode_fields(v.last().fields(), SpecTipInfo::empty());
        assert((x.tips + w).push(v.last()) =~= x.tips + v);
    }
}

/// Decoding the fields of a well-formed `TipsResponse` gives it back.
pub proof fn lemma_round_tips_response(m: SpecTipsResponse)
    requires
        m.wf(),
    ensures
        merge_fields(m.fields(), SpecTipsResponse::empty()) == Some(m),
        fields_wf(m.fields()),
{
    reveal(SpecTipsResponse::fields);
    reveal(SpecTipsResponse::wf);
    let x0 = SpecTipsResponse::empty();
    let x1 = SpecTipsResponse { tips: m.tips };
    let s0 = seg_rep(1, SpecTipInfo::encode_all(m.tips));
    assert(merge_fields(s0, x0) == Some(x1) && fields_wf(s0)) by {
        lemma_tips_response_rep_tips(m.tips, x0);
        assert forall|i: int| 0 <= i < SpecTipInfo::encode_all(m.tips).len() implies fits(#[trigger] SpecTipInfo::encode_all(m.tips)[i]) by { assert(m.tips[i].wf() && fits(m.tips[i].encoded())); }
        lemma_rep_wf(1, SpecTipInfo::encode_all(m.tips));
        assert(x0.tips + m.tips =~= m.tips);
    }
    let p0 = s0;
    assert(x1 == m);
}

/// A `TipsResponse` whose encoding has a length that fits a varint is well-formed.
pub proof fn lemma_wf_tips_response(m: SpecTipsResponse)
    requires
        fits(m.encoded()),
    ensures
        m.wf(),
{
    reveal(SpecTipsResponse::fields);
    reveal(SpecTipsResponse::wf);
    let s0 = seg_rep(1, SpecTipInfo::encode_all(m.tips));
    let p0 = s0;
    lemma_fits_seg_rep(1, SpecTipInfo::encode_all(m.tips));
    assert forall|i: int| 0 <= i < m.tips.len() implies (#[trigger] m.tips[i]).wf() && fits(m.tips[i].encoded()) by { assert(fits(SpecTipInfo::encode_all(m.tips)[i])); lemma_wf_tip_info(m.tips[i]); }
}

/// The outcome of a review and the next card.
#[derive(Clone, Debug, PartialEq, Default)]
pub struct ReviewAndAdvanceResponse {
    pub next_card: Option<FlowCardInfo>,
    pub daily_complete: bool,
    pub pending_count: u32,
    pub refill_scheduled: bool,
}

/// The value of a [`ReviewAndAdvanceResponse`].
pub struct SpecReviewAndAdvanceResponse {
    pub next_card: Option<SpecFlowCardInfo>,
    pub daily_complete: bool,
    pub pending_count: u32,
    pub refill_scheduled: bool,
}

impl View for ReviewAndAdvanceResponse {
    type V = SpecReviewAndAdvanceResponse;

    open spec fn view(&self) -> SpecReviewAndAdvanceResponse {
        SpecReviewAndAdvanceResponse {
            next_card: match &self.next_card { Some(c) => Some(c@), None => None },
            daily_complete: self.daily_complete,
            pending_count: self.pending_count,
            refill_scheduled: self.refill_scheduled,
        }
    }
}

impl SpecReviewAndAdvanceResponse {
    /// Every field at its default.
    pub open spec fn empty() -> SpecReviewAndAdvanceResponse {
        SpecReviewAndAdvanceResponse {
            next_card: None,
            daily_complete: false,
            pending_count: 0u32,
            refill_scheduled: false,
        }
    }

    /// The fields written for this value, in field-number order.
    #[verifier::opaque]
    pub open spec fn fields(self) -> Seq<SpecField> {
        seg_msg(1, match self.next_card { Some(c) => Some(c.encoded()), None => None })
            + seg_bool(2, self.daily_complete)
            + seg_u32(3, self.pending_count)
            + seg_bool(4, self.refill_scheduled)
    }

    pub open spec fn encoded(self) -> Seq<u8> {
        encode_fields(self.fields())
    }

    pub open spec fn encode_all(v: Seq<SpecReviewAndAdvanceResponse>) -> Seq<Seq<u8>> {
        Seq::new(v.len(), |i: int| v[i].encoded())
    }

    /// Every length-delimited payload fits a varint length.
    #[verifier::opaque]
    pub open spec fn wf(self) -> bool {
        (match self.next_card { Some(c) => c.wf() && fits(c.encoded()), None => true })
    }
}

impl Message for SpecReviewAndAdvanceResponse {
    open spec fn merge(self, f: SpecField) -> Option<SpecReviewAndAdvanceResponse> {
        if f.number == 1 {
            match merge_nested(f.value, match self.next_card { Some(c) => c, None => SpecFlowCardInfo::empty() }) { Some(c) => Some(SpecReviewAndAdvanceResponse { next_card: Some(c), ..self }), None => None }
        } else if f.number == 2 {
            match as_varint(f.value) { Some(v) => Some(SpecReviewAndAdvanceResponse { daily_complete: v != 0, ..self }), None => None }
        } else if f.number == 3 {
            match as_varint(f.value) { Some(v) => Some(SpecReviewAndAdvanceResponse { pending_count: v as u32, ..self }), None => None }
        } else if f.number == 4 {
            match as_varint(f.value) { Some(v) => Some(SpecReviewAndAdvanceResponse { refill_scheduled: v != 0, ..self }), None => None }
        } else {
            Some(self)
        }
    }
}

impl WireMessage for ReviewAndAdvanceResponse {
    type Spec = SpecReviewAndAdvanceResponse;

    open spec fn spec_of(&self) -> SpecReviewAndAdvanceResponse {
        self@
    }

    open spec fn spec_default() -> SpecReviewAndAdvanceResponse {
        SpecReviewAndAdvanceResponse::empty()
    }

    fn default_value() -> (r: Self) {
        let r = ReviewAndAdvanceResponse {
            next_card: None,
            daily_complete: false,
            pending_count: 0,
            refill_scheduled: false,
        };
        r
    }

    fn merge_raw(&mut self, buf: &[u8], f: &RawField) -> (ok: bool) {
        if f.number == 1 {
            { let cur = match self.next_card.take() { Some(c) => c, None => FlowCardInfo::default_value() }; match raw_nested(buf, f, cur) { Some(c) => { self.next_card = Some(c); true }, None => false } }
        } else if f.number == 2 {
            match raw_varint(f) { Some(v) => { self.daily_complete = v != 0; true }, None => false }
        } else if f.number == 3 {
            match raw_varint(f) { Some(v) => { self.pending_count = v as u32; true }, None => false }
        } else if f.number == 4 {
            match raw_varint(f) { Some(v) => { self.refill_scheduled = v != 0; true }, None => false }
        } else {
            true
        }
    }
}

impl ReviewAndAdvanceResponse {
    /// Appends the protobuf encoding of this message.
    pub fn encode_to(&self, out: &mut Vec<u8>)
        ensures
            final(out)@ == old(out)@ + self@.encoded(),
    {
        let ghost start = out@;
        proof {
            reveal(SpecReviewAndAdvanceResponse::fields);
        }
        let ghost s0 = seg_msg(1, match self@.next_card { Some(c) => Some(c.encoded()), None => None });
        match &self.next_card {
            Some(c) => {
                let b = c.encode_to_vec();
                put_msg(out, 1, b.as_slice());
            },
            None => {
                proof {
                    lemma_encode_empty();
                }
                assert(out@ =~= out@ + encode_fields(Seq::<SpecField>::empty()));
            },
        }
        let ghost p0 = s0;
        assert(out@ =~= start + encode_fields(p0));
        let ghost s1 = seg_bool(2, self@.daily_complete);
        put_bool(out, 2, self.daily_complete);
        let ghost p1 = p0 + s1;
        proof {
            lemma_encode_fields_append(p0, s1);
        }
        assert(out@ =~= start + encode_fields(p1));
        let ghost s2 = seg_u32(3, self@.pending_count);
        put_u32(out, 3, self.pending_count);
        let ghost p2 = p1 + s2;
        proof {
            lemma_encode_fields_append(p1, s2);
        }
        assert(out@ =~= start + encode_fields(p2));
        let ghost s3 = seg_bool(4, self@.refill_scheduled);
        put_bool(out, 4, self.refill_scheduled);
        let ghost p3 = p2 + s3;
        proof {
            lemma_encode_fields_append(p2, s3);
        }
        assert(out@ =~= start + encode_fields(p3));
        assert(out@ =~= start + self@.encoded());
    }

    /// The protobuf encoding of this message.
    pub fn encode_to_vec(&self) -> (r: Vec<u8>)
        ensures
            r@ == self@.encoded(),
    {
        let mut out: Vec<u8> = Vec::new();
        self.encode_to(&mut out);
        assert(out@ =~= self@.encoded());
        out
    }

    /// Decodes a message; `None` where the bytes are not a valid encoding.
    pub fn decode(buf: &[u8]) -> (r: Option<ReviewAndAdvanceResponse>)
        ensures
            match decode_into(buf@, SpecReviewAndAdvanceResponse::empty()) {
                Some(m) => r matches Some(v) && v@ == m,
                None => r is None,
            },
    {
        decode_message::<ReviewAndAdvanceResponse>(buf)
    }

    /// Appends one length-delimited field `n` per element of `v`.
    pub fn put_repeated(out: &mut Vec<u8>, n: u32, v: &Vec<ReviewAndAdvanceResponse>)
        requires
            1 <= n <= MAX_FIELD_NUMBER,
        ensures
            final(out)@ == old(out)@ + encode_fields(seg_rep(n, SpecReviewAndAdvanceResponse::encode_all(Seq::new(v@.len(), |i: int| v@[i]@)))),
    {
        let ghost all = SpecReviewAndAdvanceResponse::encode_all(Seq::new(v@.len(), |i: int| v@[i]@));
        let mut part: Vec<u8> = Vec::new();
        let mut i: usize = 0;
        proof {
            lemma_seg_rep_full(n, all);
            lemma_encode_empty();
        }
        while i < v.len()
            invariant
                1 <= n <= MAX_FIELD_NUMBER,
                i <= v@.len(),
                all == SpecReviewAndAdvanceResponse::encode_all(Seq::new(v@.len(), |i: int| v@[i]@)),
                part@ == encode_fields(seg_rep(n, all.take(i as int))),
            decreases v@.len() - i,
        {
            let b = v[i].encode_to_vec();
            proof {
                assert(all.take(i as int).push(b@) =~= all.take(i + 1));
            }
            put_rep_item(&mut part, n, b.as_slice(), Ghost(all.take(i as int)));
            i = i + 1;
        }
        proof {
            lemma_seg_rep_full(n, all);
        }
        append_all(out, &part);
    }
}

/// Decoding the fields of a well-formed `ReviewAndAdvanceResponse` gives it back.
pub proof fn lemma_round_review_and_advance_response(m: SpecReviewAndAdvanceResponse)
    requires
        m.wf(),
    ensures
        merge_fields(m.fields(), SpecReviewAndAdvanceResponse::empty()) == Some(m),
        fields_wf(m.fields()),
{
    reveal(SpecReviewAndAdvanceResponse::fields);
    reveal(SpecReviewAndAdvanceResponse::wf);
    let x0 = SpecReviewAndAdvanceResponse::empty();
    let x1 = SpecReviewAndAdvanceResponse { next_card: m.next_card, daily_complete: false, pending_count: 0u32, refill_scheduled: false };
    let s0 = seg_msg(1, match m.next_card { Some(c) => Some(c.encoded()), None => None });
    assert(merge_fields(s0, x0) == Some(x1) && fields_wf(s0)) by {
        match m.next_card { Some(c) => { lemma_seg_len::<SpecReviewAndAdvanceResponse>(1, c.encoded(), x0); lemma_round_flow_card_info(c); lemma_decode_encode_fields(c.fields(), SpecFlowCardInfo::empty()); }, None => { lemma_seg_empty::<SpecReviewAndAdvanceResponse>(x0); } }
    }
    let p0 = s0;
    let x2 = SpecReviewAndAdvanceResponse { next_card: m.next_card, daily_complete: m.daily_complete, pending_count: 0u32, refill_scheduled: false };
    let s1 = seg_bool(2, m.daily_complete);
    assert(merge_fields(s1, x1) == Some(x2) && fields_wf(s1)) by {
        lemma_seg_u64::<SpecReviewAndAdvanceResponse>(2, if m.daily_complete { 1u64 } else { 0u64 }, x1);
    }
    let p1 = p0 + s1;
    lemma_chain::<SpecReviewAndAdvanceResponse>(p0, s1, x0, x1, x2);
    let x3 = SpecReviewAndAdvanceResponse { next_card: m.next_card, daily_complete: m.daily_complete, pending_count: m.pending_count, refill_scheduled: false };
    let s2 = seg_u32(3, m.pending_count);
    assert(merge_fields(s2, x2) == Some(x3) && fields_wf(s2)) by {
        lemma_seg_u64::<SpecReviewAndAdvanceResponse>(3, m.pending_count as u64, x2);
    }
    let p2 = p1 + s2;
    lemma_chain::<SpecReviewAndAdvanceResponse>(p1, s2, x0, x2, x3);
    let x4 = SpecReviewAndAdvanceResponse { next_card: m.next_card, daily_complete: m.daily_complete, pending_count: m.pending_count, refill_scheduled: m.refill_scheduled };
    let s3 = seg_bool(4, m.refill_scheduled);
    assert(merge_fields(s3, x3) == Some(x4) && fields_wf(s3)) by {
        lemma_seg_u64::<SpecReviewAndAdvanceResponse>(4, if m.refill_scheduled { 1u64 } else { 0u64 }, x3);
    }
    let p3 = p2 + s3;
    lemma_chain::<SpecReviewAndAdvanceResponse>(p2, s3, x0, x3, x4);
    assert(x4 == m);
}

/// A `ReviewAndAdvanceResponse` whose encoding has a length that fits a varint is well-formed.
pub proof fn lemma_wf_review_and_advance_response(m: SpecReviewAndAdvanceResponse)
    requires
        fits(m.encoded()),
    ensures
        m.wf(),
{
    reveal(SpecReviewAndAdvanceResponse::fields);
    reveal(SpecReviewAndAdvanceResponse::wf);
    let s0 = seg_msg(1, match m.next_card { Some(c) => Some(c.encoded()), None => None });
    let p0 = s0;
    let s1 = seg_bool(2, m.daily_complete);
    let p1 = p0 + s1;
    let s2 = seg_u32(3, m.pending_count);
    let p2 = p1 + s2;
    let s3 = seg_bool(4, m.refill_scheduled);
    let p3 = p2 + s3;
    lemma_fits_parts(p2, s3);
    lemma_fits_parts(p1, s2);
    lemma_fits_parts(p0, s1);
    match m.next_card { Some(c) => { lemma_fits_one(1, c.encoded()); lemma_wf_flow_card_info(c); }, None => {} }
}

/// A card in the inventory.
#[derive(Clone, Debug, PartialEq, Default)]
pub struct TipcardListItem {
    pub id: i64,
    pub topic_name: String,
    pub topic_icon: String,
    pub topic_color: String,
    pub title: String,
    pub full_content: String,
    pub compressed_content: String,
    pub created_at: String,
    pub tipcard_type: String,
    pub status: String,
    pub next_review_at: String,
    pub repeat_count: u32,
    pub pinned: bool,
}

/// The value of a [`TipcardListItem`].
pub struct SpecTipcardListItem {
    pub id: i64,
    pub topic_name: Seq<char>,
    pub topic_icon: Seq<char>,
    pub topic_color: Seq<char>,
    pub title: Seq<char>,
    pub full_content: Seq<char>,
    pub compressed_content: Seq<char>,
    pub created_at: Seq<char>,
    pub tipcard_type: Seq<char>,
    pub status: Seq<char>,
    pub next_review_at: Seq<char>,
    pub repeat_count: u32,
    pub pinned: bool,
}

impl View for TipcardListItem {
    type V = SpecTipcardListItem;

    open spec fn view(&self) -> SpecTipcardListItem {
        SpecTipcardListItem {
            id: self.id,
            topic_name: self.topic_name@,
            topic_icon: self.topic_icon@,
            topic_color: self.topic_color@,
            title: self.title@,
            full_content: self.full_content@,
            compressed_content: self.compressed_content@,
            created_at: self.created_at@,
            tipcard_type: self.tipcard_type@,
            status: self.status@,
            next_review_at: self.next_review_at@,
            repeat_count: self.repeat_count,
            pinned: self.pinned,
        }
    }
}

impl SpecTipcardListItem {
    /// Every field at its default.
    pub open spec fn empty() -> SpecTipcardListItem {
        SpecTipcardListItem {
            id: 0i64,
            topic_name: Seq::empty(),
            topic_icon: Seq::empty(),
            topic_color: Seq::empty(),
            title: Seq::empty(),
            full_content: Seq::empty(),
            compressed_content: Seq::empty(),
            created_at: Seq::empty(),
            tipcard_type: Seq::empty(),
            status: Seq::empty(),
            next_review_at: Seq::empty(),
            repeat_count: 0u32,
            pinned: false,
        }
    }

    /// The fields written for this value, in field-number order.
    #[verifier::opaque]
    pub open spec fn fields(self) -> Seq<SpecField> {
        seg_i64(1, self.id)
            + seg_str(2, self.topic_name)
            + seg_str(3, self.topic_icon)
            + seg_str(4, self.topic_color)
            + seg_str(5, self.title)
            + seg_str(6, self.full_content)
            + seg_str(7, self.compressed_content)
            + seg_str(8, self.created_at)
            + seg_str(9, self.tipcard_type)
            + seg_str(10, self.status)
            + seg_str(11, self.next_review_at)
            + seg_u32(12, self.repeat_count)
            + seg_bool(13, self.pinned)
    }

    pub open spec fn encoded(self) -> Seq<u8> {
        encode_fields(self.fields())
    }

    pub open spec fn encode_all(v: Seq<SpecTipcardListItem>) -> Seq<Seq<u8>> {
        Seq::new(v.len(), |i: int| v[i].encoded())
    }

    /// Every length-delimited payload fits a varint length.
    #[verifier::opaque]
    pub open spec fn wf(self) -> bool {
        fits(encode_utf8(self.topic_name))
        && fits(encode_utf8(self.topic_icon))
        && fits(encode_utf8(self.topic_color))
        && fits(encode_utf8(self.title))
        && fits(encode_utf8(self.full_content))
        && fits(encode_utf8(self.compressed_content))
        && fits(encode_utf8(self.created_at))
        && fits(encode_utf8(self.tipcard_type))
        && fits(encode_utf8(self.status))
        && fits(encode_utf8(self.next_review_at))
    }
}

impl Message for SpecTipcardListItem {
    open spec fn merge(self, f: SpecField) -> Option<SpecTipcardListItem> {
        if f.number == 1 {
            match as_varint(f.value) { Some(v) => Some(SpecTipcardListItem { id: v as i64, ..self }), None => None }
        } else if f.number == 2 {
            match as_string(f.value) { Some(s) => Some(SpecTipcardListItem { topic_name: s, ..self }), None => None }
        } else if f.number == 3 {
            match as_string(f.value) { Some(s) => Some(SpecTipcardListItem { topic_icon: s, ..self }), None => None }
        } else if f.number == 4 {
            match as_string(f.value) { Some(s) => Some(SpecTipcardListItem { topic_color: s, ..self }), None => None }
        } else if f.number == 5 {
            match as_string(f.value) { Some(s) => Some(SpecTipcardListItem { title: s, ..self }), None => None }
        } else if f.number == 6 {
            match as_string(f.value) { Some(s) => Some(SpecTipcardListItem { full_content: s, ..self }), None => None }
        } else if f.number == 7 {
            match as_string(f.value) { Some(s) => Some(SpecTipcardListItem { compressed_content: s, ..self }), None => None }
        } else if f.number == 8 {
            match as_string(f.value) { Some(s) => Some(SpecTipcardListItem { created_at: s, ..self }), None => None }
        } else if f.number == 9 {
            match as_string(f.value) { Some(s) => Some(SpecTipcardListItem { tipcard_type: s, ..self }), None => None }
        } else if f.number == 10 {
            match as_string(f.value) { Some(s) => Some(SpecTipcardListItem { status: s, ..self }), None => None }
        } else if f.number == 11 {
            match as_string(f.value) { Some(s) => Some(SpecTipcardListItem { next_review_at: s, ..self }), None => None }
        } else if f.number == 12 {
            match as_varint(f.value) { Some(v) => Some(SpecTipcardListItem { repeat_count: v as u32, ..self }), None => None }
        } else if f.number == 13 {
            match as_varint(f.value) { Some(v) => Some(SpecTipcardListItem { pinned: v != 0, ..self }), None => None }
        } else {
            Some(self)
        }
    }
}

impl WireMessage for TipcardListItem {
    type Spec = SpecTipcardListItem;

    open spec fn spec_of(&self) -> SpecTipcardListItem {
        self@
    }

    open spec fn spec_default() -> SpecTipcardListItem {
        SpecTipcardListItem::empty()
    }

    fn default_value() -> (r: Self) {
        let r = TipcardListItem {
            id: 0,
            topic_name: String::new(),
            topic_icon: String::new(),
            topic_color: String::new(),
            title: String::new(),
            full_content: String::new(),
            compressed_content: String::new(),
            created_at: String::new(),
            tipcard_type: String::new(),
            status: String::new(),
            next_review_at: String::new(),
            repeat_count: 0,
            pinned: false,
        };
        r
    }

    #[verifier::rlimit(100)]
    fn merge_raw(&mut self, buf: &[u8], f: &RawField) -> (ok: bool) {
        if f.number == 1 {
            match raw_varint(f) { Some(v) => { self.id = v as i64; true }, None => false }
        } else if f.number == 2 {
            match raw_string(buf, f) { Some(s) => { self.topic_name = s; true }, None => false }
        } else if f.number == 3 {
            match raw_string(buf, f) { Some(s) => { self.topic_icon = s; true }, None => false }
        } else if f.number == 4 {
            match raw_string(buf, f) { Some(s) => { self.topic_color = s; true }, None => false }
        } else if f.number == 5 {
            match raw_string(buf, f) { Some(s) => { self.title = s; true }, None => false }
        } else if f.number == 6 {
            match raw_string(buf, f) { Some(s) => { self.full_content = s; true }, None => false }
        } else if f.number == 7 {
            match raw_string(buf, f) { Some(s) => { self.compressed_content = s; true }, None => false }
        } else if f.number == 8 {
            match raw_string(buf, f) { Some(s) => { self.created_at = s; true }, None => false }
        } else if f.number == 9 {
            match raw_string(buf, f) { Some(s) => { self.tipcard_type = s; true }, None => false }
        } else if f.number == 10 {
            match raw_string(buf, f) { Some(s) => { self.status = s; true }, None => false }
        } else if f.number == 11 {
            match raw_string(buf, f) { Some(s) => { self.next_review_at = s; true }, None => false }
        } else if f.number == 12 {
            match raw_varint(f) { Some(v) => { self.repeat_count = v as u32; true }, None => false }
        } else if f.number == 13 {
            match raw_varint(f) { Some(v) => { self.pinned = v != 0; true }, None => false }
        } else {
            true
        }
    }
}

impl TipcardListItem {
    /// Appends the protobuf encoding of this message.
    #[verifier::rlimit(100)]
    pub fn encode_to(&self, out: &mut Vec<u8>)
        ensures
            final(out)@ == old(out)@ + self@.encoded(),
    {
        let ghost start = out@;
        proof {
            reveal(SpecTipcardListItem::fields);
        }
        let ghost s0 = seg_i64(1, self@.id);
        put_i64(out, 1, self.id);
        let ghost p0 = s0;
        assert(out@ =~= start + encode_fields(p0));
        let ghost s1 = seg_str(2, self@.topic_name);
        put_str(out, 2, self.topic_name.as_str());
        let ghost p1 = p0 + s1;
        proof {
            lemma_encode_fields_append(p0, s1);
        }
        assert(out@ =~= start + encode_fields(p1));
        let ghost s2 = seg_str(3, self@.topic_icon);
        put_str(out, 3, self.topic_icon.as_str());
        let ghost p2 = p1 + s2;
        proof {
            lemma_encode_fields_append(p1, s2);
        }
        assert(out@ =~= start + encode_fields(p2));
        let ghost s3 = seg_str(4, self@.topic_color);
        put_str(out, 4, self.topic_color.as_str());
        let ghost p3 = p2 + s3;
        proof {
            lemma_encode_fields_append(p2, s3);
        }
        assert(out@ =~= start + encode_fields(p3));
        let ghost s4 = seg_str(5, self@.title);
        put_str(out, 5, self.title.as_str());
        let ghost p4 = p3 + s4;
        proof {
            lemma_encode_fields_append(p3, s4);
        }
        assert(out@ =~= start + encode_fields(p4));
        let ghost s5 = seg_str(6, self@.full_content);
        put_str(out, 6, self.full_content.as_str());
        let ghost p5 = p4 + s5;
        proof {
            lemma_encode_fields_append(p4, s5);
        }
        assert(out@ =~= start + encode_fields(p5));
        let ghost s6 = seg_str(7, self@.compressed_content);
        put_str(out, 7, self.compressed_content.as_str());
        let ghost p6 = p5 + s6;
        proof {
            lemma_encode_fields_append(p5, s6);
        }
        assert(out@ =~= start + encode_fields(p6));
        let ghost s7 = seg_str(8, self@.created_at);
        put_str(out, 8, self.created_at.as_str());
        let ghost p7 = p6 + s7;
        proof {
            lemma_encode_fields_append(p6, s7);
        }
        assert(out@ =~= start + encode_fields(p7));
        let ghost s8 = seg_str(9, self@.tipcard_type);
        put_str(out, 9, self.tipcard_type.as_str());
        let ghost p8 = p7 + s8;
        proof {
            lemma_encode_fields_append(p7, s8);
        }
        assert(out@ =~= start + encode_fields(p8));
        let ghost s9 = seg_str(10, self@.status);
        put_str(out, 10, self.status.as_str());
        let ghost p9 = p8 + s9;
        proof {
            lemma_encode_fields_append(p8, s9);
        }
        assert(out@ =~= start + encode_fields(p9));
        let ghost s10 = seg_str(11, self@.next_review_at);
        put_str(out, 11, self.next_review_at.as_str());
        let ghost p10 = p9 + s10;
        proof {
            lemma_encode_fields_append(p9, s10);
        }
        assert(out@ =~= start + encode_fields(p10));
        let ghost s11 = seg_u32(12, self@.repeat_count);
        put_u32(out, 12, self.repeat_count);
        let ghost p11 = p10 + s11;
        proof {
            lemma_encode_fields_append(p10, s11);
        }
        assert(out@ =~= start + encode_fields(p11));
        let ghost s12 = seg_bool(13, self@.pinned);
        put_bool(out, 13, self.pinned);
        let ghost p12 = p11 + s12;
        proof {
            lemma_encode_fields_append(p11, s12);
        }
        assert(out@ =~= start + encode_fields(p12));
        assert(out@ =~= start + self@.encoded());
    }

    /// The protobuf encoding of this message.
    pub fn encode_to_vec(&self) -> (r: Vec<u8>)
        ensures
            r@ == self@.encoded(),
    {
        let mut out: Vec<u8> = Vec::new();
        self.encode_to(&mut out);
        assert(out@ =~= self@.encoded());
        out
    }

    /// Decodes a message; `None` where the bytes are not a valid encoding.
    pub fn decode(buf: &[u8]) -> (r: Option<TipcardListItem>)
        ensures
            match decode_into(buf@, SpecTipcardListItem::empty()) {
                Some(m) => r matches Some(v) && v@ == m,
                None => r is None,
            },
    {
        decode_message::<TipcardListItem>(buf)
    }

    /// Appends one length-delimited field `n` per element of `v`.
    pub fn put_repeated(out: &mut Vec<u8>, n: u32, v: &Vec<TipcardListItem>)
        requires
            1 <= n <= MAX_FIELD_NUMBER,
        ensures
            final(out)@ == old(out)@ + encode_fields(seg_rep(n, SpecTipcardListItem::encode_all(Seq::new(v@.len(), |i: int| v@[i]@)))),
    {
        let ghost all = SpecTipcardListItem::encode_all(Seq::new(v@.len(), |i: int| v@[i]@));
        let mut part: Vec<u8> = Vec::new();
        let mut i: usize = 0;
        proof {
            lemma_seg_rep_full(n, all);
            lemma_encode_empty();
        }
        while i < v.len()
            invariant
                1 <= n <= MAX_FIELD_NUMBER,
                i <= v@.len(),
                all == SpecTipcardListItem::encode_all(Seq::new(v@.len(), |i: int| v@[i]@)),
                part@ == encode_fields(seg_rep(n, all.take(i as int))),
            decreases v@.len() - i,
        {
            let b = v[i].encode_to_vec();
            proof {
                assert(all.take(i as int).push(b@) =~= all.take(i + 1));
            }
            put_rep_item(&mut part, n, b.as_slice(), Ghost(all.take(i as int)));
            i = i + 1;
        }
        proof {
            lemma_seg_rep_full(n, all);
        }
        append_all(out, &part);
    }
}

/// Decoding the fields of a well-formed `TipcardListItem` gives it back.
pub proof fn lemma_round_tipcard_list_item(m: SpecTipcardListItem)
    requires
        m.wf(),
    ensures
        merge_fields(m.fields(), SpecTipcardListItem::empty()) == Some(m),
        fields_wf(m.fields()),
{
    reveal(SpecTipcardListItem::fields);
    reveal(SpecTipcardListItem::wf);
    let x0 = SpecTipcardListItem::empty();
    let x1 = SpecTipcardListItem { id: m.id, topic_name: Seq::empty(), topic_icon: Seq::empty(), topic_color: Seq::empty(), title: Seq::empty(), full_content: Seq::empty(), compressed_content: Seq::empty(), created_at: Seq::empty(), tipcard_type: Seq::empty(), status: Seq::empty(), next_review_at: Seq::empty(), repeat_count: 0u32, pinned: false };
    let s0 = seg_i64(1, m.id);
    assert(merge_fields(s0, x0) == Some(x1) && fields_wf(s0)) by {
        lemma_zero_i64(m.id);
        lemma_seg_u64::<SpecTipcardListItem>(1, m.id as u64, x0);
    }
    let p0 = s0;
    let x2 = SpecTipcardListItem { id: m.id, topic_name: m.topic_name, topic_icon: Seq::empty(), topic_color: Seq::empty(), title: Seq::empty(), full_content: Seq::empty(), compressed_content: Seq::empty(), created_at: Seq::empty(), tipcard_type: Seq::empty(), status: Seq::empty(), next_review_at: Seq::empty(), repeat_count: 0u32, pinned: false };
    let s1 = seg_str(2, m.topic_name);
    assert(merge_fields(s1, x1) == Some(x2) && fields_wf(s1)) by {
        if m.topic_name.len() == 0 { assert(m.topic_name =~= Seq::<char>::empty()); lemma_seg_empty::<SpecTipcardListItem>(x1); } else { lemma_seg_len::<SpecTipcardListItem>(2, encode_utf8(m.topic_name), x1); }
    }
    let p1 = p0 + s1;
    lemma_chain::<SpecTipcardListItem>(p0, s1, x0, x1, x2);
    let x3 = SpecTipcardListItem { id: m.id, topic_name: m.topic_name, topic_icon: m.topic_icon, topic_color: Seq::empty(), title: Seq::empty(), full_content: Seq::empty(), compressed_content: Seq::empty(), created_at: Seq::empty(), tipcard_type: Seq::empty(), status: Seq::empty(), next_review_at: Seq::empty(), repeat_count: 0u32, pinned: false };
    let s2 = seg_str(3, m.topic_icon);
    assert(merge_fields(s2, x2) == Some(x3) && fields_wf(s2)) by {
        if m.topic_icon.len() == 0 { assert(m.topic_icon =~= Seq::<char>::empty()); lemma_seg_empty::<SpecTipcardListItem>(x2); } else { lemma_seg_len::<SpecTipcardListItem>(3, encode_utf8(m.topic_icon), x2); }
    }
    let p2 = p1 + s2;
    lemma_chain::<SpecTipcardListItem>(p1, s2, x0, x2, x3);
    let x4 = SpecTipcardListItem { id: m.id, topic_name: m.topic_name, topic_icon: m.topic_icon, topic_color: m.topic_color, title: Seq::empty(), full_content: Seq::empty(), compressed_content: Seq::empty(), created_at: Seq::empty(), tipcard_type: Seq::empty(), status: Seq::empty(), next_review_at: Seq::empty(), repeat_count: 0u32, pinned: false };
    let s3 = seg_str(4, m.topic_color);
    assert(merge_fields(s3, x3) == Some(x4) && fields_wf(s3)) by {
        if m.topic_color.len() == 0 { assert(m.topic_color =~= Seq::<char>::empty()); lemma_seg_empty::<SpecTipcardListItem>(x3); } else { lemma_seg_len::<SpecTipcardListItem>(4, encode_utf8(m.topic_color), x3); }
    }
    let p3 = p2 + s3;
    lemma_chain::<SpecTipcardListItem>(p2, s3, x0, x3, x4);
    let x5 = SpecTipcardListItem { id: m.id, topic_name: m.topic_name, topic_icon: m.topic_icon, topic_color: m.topic_color, title: m.title, full_content: Seq::empty(), compressed_content: Seq::empty(), created_at: Seq::empty(), tipcard_type: Seq::empty(), status: Seq::empty(), next_review_at: Seq::empty(), repeat_count: 0u32, pinned: false };
    let s4 = seg_str(5, m.title);
    assert(merge_fields(s4, x4) == Some(x5) && fields_wf(s4)) by {
        if m.title.len() == 0 { assert(m.title =~= Seq::<char>::empty()); lemma_seg_empty::<SpecTipcardListItem>(x4); } else { lemma_seg_len::<SpecTipcardListItem>(5, encode_utf8(m.title), x4); }
    }
    let p4 = p3 + s4;
    lemma_chain::<SpecTipcardListItem>(p3, s4, x0, x4, x5);
    let x6 = SpecTipcardListItem { id: m.id, topic_name: m.topic_name, topic_icon: m.topic_icon, topic_color: m.topic_color, title: m.title, full_content: m.full_content, compressed_content: Seq::empty(), created_at: Seq::empty(), tipcard_type: Seq::empty(), status: Seq::empty(), next_review_at: Seq::empty(), repeat_count: 0u32, pinned: false };
    let s5 = seg_str(6, m.full_content);
    assert(merge_fields(s5, x5) == Some(x6) && fields_wf(s5)) by {
        if m.full_content.len() == 0 { assert(m.full_content =~= Seq::<char>::empty()); lemma_seg_empty::<SpecTipcardListItem>(x5); } else { lemma_seg_len::<SpecTipcardListItem>(6, encode_utf8(m.full_content), x5); }
    }
    let p5 = p4 + s5;
    lemma_chain::<SpecTipcardListItem>(p4, s5, x0, x5, x6);
    let x7 = SpecTipcardListItem { id: m.id, topic_name: m.topic_name, topic_icon: m.topic_icon, topic_color: m.topic_color, title: m.title, full_content: m.full_content, compressed_content: m.compressed_content, created_at: Seq::empty(), tipcard_type: Seq::empty(), status: Seq::empty(), next_review_at: Seq::empty(), repeat_count: 0u32, pinned: false };
    let s6 = seg_str(7, m.compressed_content);
    assert(merge_fields(s6, x6) == Some(x7) && fields_wf(s6)) by {
        if m.compressed_content.len() == 0 { assert(m.compressed_content =~= Seq::<char>::empty()); lemma_seg_empty::<SpecTipcardListItem>(x6); } else { lemma_seg_len::<SpecTipcardListItem>(7, encode_utf8(m.compressed_content), x6); }
    }
    let p6 = p5 + s6;
    lemma_chain::<SpecTipcardListItem>(p5, s6, x0, x6, x7);
    let x8 = SpecTipcardListItem { id: m.id, topic_name: m.topic_name, topic_icon: m.topic_icon, topic_color: m.topic_color, title: m.title, full_content: m.full_content, compressed_content: m.compressed_content, created_at: m.created_at, tipcard_type: Seq::empty(), status: Seq::empty(), next_review_at: Seq::empty(), repeat_count: 0u32, pinned: false };
    let s7 = seg_str(8, m.created_at);
    assert(merge_fields(s7, x7) == Some(x8) && fields_wf(s7)) by {
        if m.created_at.len() == 0 { assert(m.created_at =~= Seq::<char>::empty()); lemma_seg_empty::<SpecTipcardListItem>(x7); } else { lemma_seg_len::<SpecTipcardListItem>(8, encode_utf8(m.created_at), x7); }
    }
    let p7 = p6 + s7;
    lemma_chain::<SpecTipcardListItem>(p6, s7, x0, x7, x8);
    let x9 = SpecTipcardListItem { id: m.id, topic_name: m.topic_name, topic_icon: m.topic_icon, topic_color: m.topic_color, title: m.title, full_content: m.full_content, compressed_content: m.compressed_content, created_at: m.created_at, tipcard_type: m.tipcard_type, status: Seq::empty(), next_review_at: Seq::empty(), repeat_count: 0u32, pinned: false };
    let s8 = seg_str(9, m.tipcard_type);
    assert(merge_fields(s8, x8) == Some(x9) && fields_wf(s8)) by {
        if m.tipcard_type.len() == 0 { assert(m.tipcard_type =~= Seq::<char>::empty()); lemma_seg_empty::<SpecTipcardListItem>(x8); } else { lemma_seg_len::<SpecTipcardListItem>(9, encode_utf8(m.tipcard_type), x8); }
    }
    let p8 = p7 + s8;
    lemma_chain::<SpecTipcardListItem>(p7, s8, x0, x8, x9);
    let x10 = SpecTipcardListItem { id: m.id, topic_name: m.topic_name, topic_icon: m.topic_icon, topic_color: m.topic_color, title: m.title, full_content: m.full_content, compressed_content: m.compressed_content, created_at: m.created_at, tipcard_type: m.tipcard_type, status: m.status, next_review_at: Seq::empty(), repeat_count: 0u32, pinned: false };
    let s9 = seg_str(10, m.status);
    assert(merge_fields(s9, x9) == Some(x10) && fields_wf(s9)) by {
        if m.status.len() == 0 { assert(m.status =~= Seq::<char>::empty()); lemma_seg_empty::<SpecTipcardListItem>(x9); } else { lemma_seg_len::<SpecTipcardListItem>(10, encode_utf8(m.status), x9); }
    }
    let p9 = p8 + s9;
    lemma_chain::<SpecTipcardListItem>(p8, s9, x0, x9, x10);
    let x11 = SpecTipcardListItem { id: m.id, topic_name: m.topic_name, topic_icon: m.topic_icon, topic_color: m.topic_color, title: m.title, full_content: m.full_content, compressed_content: m.compressed_content, created_at: m.created_at, tipcard_type: m.tipcard_type, status: m.status, next_review_at: m.next_review_at, repeat_count: 0u32, pinned: false };
    let s10 = seg_str(11, m.next_review_at);
    assert(merge_fields(s10, x10) == Some(x11) && fields_wf(s10)) by {
        if m.next_review_at.len() == 0 { assert(m.next_review_at =~= Seq::<char>::empty()); lemma_seg_empty::<SpecTipcardListItem>(x10); } else { lemma_seg_len::<SpecTipcardListItem>(11, encode_utf8(m.next_review_at), x10); }
    }
    let p10 = p9 + s10;
    lemma_chain::<SpecTipcardListItem>(p9, s10, x0, x10, x11);
    let x12 = SpecTipcardListItem { id: m.id, topic_name: m.topic_name, topic_icon: m.topic_icon, topic_color: m.topic_color, title: m.title, full_content: m.full_content, compressed_content: m.compressed_content, created_at: m.created_at, tipcard_type: m.tipcard_type, status: m.status, next_review_at: m.next_review_at, repeat_count: m.repeat_count, pinned: false };
    let s11 = seg_u32(12, m.repeat_count);
    assert(merge_fields(s11, x11) == Some(x12) && fields_wf(s11)) by {
        lemma_seg_u64::<SpecTipcardListItem>(12, m.repeat_count as u64, x11);
    }
    let p11 = p10 + s11;
    lemma_chain::<SpecTipcardListItem>(p10, s11, x0, x11, x12);
    let x13 = SpecTipcardListItem { id: m.id, topic_name: m.topic_name, topic_icon: m.topic_icon, topic_color: m.topic_color, title: m.title, full_content: m.full_content, compressed_content: m.compressed_content, created_at: m.created_at, tipcard_type: m.tipcard_type, status: m.status, next_review_at: m.next_review_at, repeat_count: m.repeat_count, pinned: m.pinned };
    let s12 = seg_bool(13, m.pinned);
    assert(merge_fields(s12, x12) == Some(x13) && fields_wf(s12)) by {
        lemma_seg_u64::<SpecTipcardListItem>(13, if m.pinned { 1u64 } else { 0u64 }, x12);
    }
    let p12 = p11 + s12;
    lemma_chain::<SpecTipcardListItem>(p11, s12, x0, x12, x13);
    assert(x13 == m);
}

/// A `TipcardListItem` whose encoding has a length that fits a varint is well-formed.
pub proof fn lemma_wf_tipcard_list_item(m: SpecTipcardListItem)
    requires
        fits(m.encoded()),
    ensures
        m.wf(),
{
    reveal(SpecTipcardListItem::fields);
    reveal(SpecTipcardListItem::wf);
    let s0 = seg_i64(1, m.id);
    let p0 = s0;
    let s1 = seg_str(2, m.topic_name);
    let p1 = p0 + s1;
    let s2 = seg_str(3, m.topic_icon);
    let p2 = p1 + s2;
    let s3 = seg_str(4, m.topic_color);
    let p3 = p2 + s3;
    let s4 = seg_str(5, m.title);
    let p4 = p3 + s4;
    let s5 = seg_str(6, m.full_content);
    let p5 = p4 + s5;
    let s6 = seg_str(7, m.compressed_content);
    let p6 = p5 + s6;
    let s7 = seg_str(8, m.created_at);
    let p7 = p6 + s7;
    let s8 = seg_str(9, m.tipcard_type);
    let p8 = p7 + s8;
    let s9 = seg_str(10, m.status);
    let p9 = p8 + s9;
    let s10 = seg_str(11, m.next_review_at);
    let p10 = p9 + s10;
    let s11 = seg_u32(12, m.repeat_count);
    let p11 = p10 + s11;
    let s12 = seg_bool(13, m.pinned);
    let p12 = p11 + s12;
    lemma_fits_parts(p11, s12);
    lemma_fits_parts(p10, s11);
    lemma_fits_parts(p9, s10);
    lemma_fits_parts(p8, s9);
    lemma_fits_parts(p7, s8);
    lemma_fits_parts(p6, s7);
    lemma_fits_parts(p5, s6);
    lemma_fits_parts(p4, s5);
    lemma_fits_parts(p3, s4);
    lemma_fits_parts(p2, s3);
    lemma_fits_parts(p1, s2);
    lemma_fits_parts(p0, s1);
    lemma_fits_seg_str(2, m.topic_name);
    lemma_fits_seg_str(3, m.topic_icon);
    lemma_fits_seg_str(4, m.topic_color);
    lemma_fits_seg_str(5, m.title);
    lemma_fits_seg_str(6, m.full_content);
    lemma_fits_seg_str(7, m.compressed_content);
    lemma_fits_seg_str(8, m.created_at);
    lemma_fits_seg_str(9, m.tipcard_type);
    lemma_fits_seg_str(10, m.status);
    lemma_fits_seg_str(11, m.next_review_at);
}

/// The card inventory.
#[derive(Clone, Debug, PartialEq, Default)]
pub struct TipcardListResponse {
    pub cards: Vec<TipcardListItem>,
}

/// The value of a [`TipcardListResponse`].
pub struct SpecTipcardListResponse {
    pub cards: Seq<SpecTipcardListItem>,
}

impl View for TipcardListResponse {
    type V = SpecTipcardListResponse;

    open spec fn view(&self) -> SpecTipcardListResponse {
        SpecTipcardListResponse {
            cards: Seq::new(self.cards@.len(), |i: int| self.cards@[i]@),
        }
    }
}

impl SpecTipcardListResponse {
    /// Every field at its default.
    pub open spec fn empty() -> SpecTipcardListResponse {
        SpecTipcardListResponse {
            cards: Seq::empty(),
        }
    }

    /// The fields written for this value, in field-number order.
    #[verifier::opaque]
    pub open spec fn fields(self) -> Seq<SpecField> {
        seg_rep(1, SpecTipcardListItem::encode_all(self.cards))
    }

    pub open spec fn encoded(self) -> Seq<u8> {
        encode_fields(self.fields())
    }

    pub open spec fn encode_all(v: Seq<SpecTipcardListResponse>) -> Seq<Seq<u8>> {
        Seq::new(v.len(), |i: int| v[i].encoded())
    }

    /// Every length-delimited payload fits a varint length.
    #[verifier::opaque]
    pub open spec fn wf(self) -> bool {
        (forall|i: int| 0 <= i < self.cards.len() ==> (#[trigger] self.cards[i]).wf() && fits(self.cards[i].encoded()))
    }
}

impl Message for SpecTipcardListResponse {
    open spec fn merge(self, f: SpecField) -> Option<SpecTipcardListResponse> {
        if f.number == 1 {
            match merge_nested(f.value, SpecTipcardListItem::empty()) { Some(c) => Some(SpecTipcardListResponse { cards: self.cards.push(c), ..self }), None => None }
        } else {
            Some(self)
        }
    }
}

impl WireMessage for TipcardListResponse {
    type Spec = SpecTipcardListResponse;

    open spec fn spec_of(&self) -> SpecTipcardListResponse {
        self@
    }

    open spec fn spec_default() -> SpecTipcardListResponse {
        SpecTipcardListResponse::empty()
    }

    fn default_value() -> (r: Self) {
        let r = TipcardListResponse {
            cards: Vec::new(),
        };
        assert(r@.cards =~= Seq::empty());
        r
    }

    fn merge_raw(&mut self, buf: &[u8], f: &RawField) -> (ok: bool) {
        if f.number == 1 {
            match raw_nested(buf, f, TipcardListItem::default_value()) { Some(c) => { self.cards.push(c); proof { assert(self@.cards =~= old(self)@.cards.push(self.cards@.last()@)); } true }, None => false }
        } else {
            true
        }
    }
}

impl TipcardListResponse {
    /// Appends the protobuf encoding of this message.
    pub fn encode_to(&self, out: &mut Vec<u8>)
        ensures
            final(out)@ == old(out)@ + self@.encoded(),
    {
        let ghost start = out@;
        proof {
            reveal(SpecTipcardListResponse::fields);
        }
        let ghost s0 = seg_rep(1, SpecTipcardListItem::encode_all(self@.cards));
        TipcardListItem::put_repeated(out, 1, &self.cards);
        let ghost p0 = s0;
        assert(out@ =~= start + encode_fields(p0));
        assert(out@ =~= start + self@.encoded());
    }

    /// The protobuf encoding of this message.
    pub fn encode_to_vec(&self) -> (r: Vec<u8>)
        ensures
            r@ == self@.encoded(),
    {
        let mut out: Vec<u8> = Vec::new();
        self.encode_to(&mut out);
        assert(out@ =~= self@.encoded());
        out
    }

    /// Decodes a message; `None` where the bytes are not a valid encoding.
    pub fn decode(buf: &[u8]) -> (r: Option<TipcardListResponse>)
        ensures
            match decode_into(buf@, SpecTipcardListResponse::empty()) {
                Some(m) => r matches Some(v) && v@ == m,
                None => r is None,
            },
    {
        decode_message::<TipcardListResponse>(buf)
    }

    /// Appends one length-delimited field `n` per element of `v`.
    pub fn put_repeated(out: &mut Vec<u8>, n: u32, v: &Vec<TipcardListResponse>)
        requires
            1 <= n <= MAX_FIELD_NUMBER,
        ensures
            final(out)@ == old(out)@ + encode_fields(seg_rep(n, SpecTipcardListResponse::encode_all(Seq::new(v@.len(), |i: int| v@[i]@)))),
    {
        let ghost all = SpecTipcardListResponse::encode_all(Seq::new(v@.len(), |i: int| v@[i]@));
        let mut part: Vec<u8> = Vec::new();
        let mut i: usize = 0;
        proof {
            lemma_seg_rep_full(n, all);
            lemma_encode_empty();
        }
        while i < v.len()
            invariant
                1 <= n <= MAX_FIELD_NUMBER,
                i <= v@.len(),
                all == SpecTipcardListResponse::encode_all(Seq::new(v@.len(), |i: int| v@[i]@)),
                part@ == encode_fields(seg_rep(n, all.take(i as int))),
            decreases v@.len() - i,
        {
            let b = v[i].encode_to_vec();
            proof {
                assert(all.take(i as int).push(b@) =~= all.take(i + 1));
            }
            put_rep_item(&mut part, n, b.as_slice(), Ghost(all.take(i as int)));
            i = i + 1;
        }
        proof {
            lemma_seg_rep_full(n, all);
        }
        append_all(out, &part);
    }
}

proof fn lemma_tipcard_list_response_rep_cards(v: Seq<SpecTipcardListItem>, x: SpecTipcardListResponse)
    requires
        forall|i: int| 0 <= i < v.len() ==> (#[trigger] v[i]).wf(),
    ensures
        merge_fields(seg_rep(1, SpecTipcardListItem::encode_all(v)), x) == Some(SpecTipcardListResponse { cards: x.cards + v, ..x }),
    decreases v.len(),
{
    if v.len() == 0 {
        lemma_rep_empty(1, SpecTipcardListItem::encode_all(v));
        lemma_seg_empty::<SpecTipcardListResponse>(x);
        assert(x.cards + v =~= x.cards);
    } else {
        let w = v.drop_last();
        lemma_tipcard_list_response_rep_cards(w, x);
        assert(SpecTipcardListItem::encode_all(v).drop_last() =~= SpecTipcardListItem::encode_all(w));
        lemma_rep_split(1, SpecTipcardListItem::encode_all(v));
        lemma_merge_fields_append(seg_rep(1, SpecTipcardListItem::encode_all(w)), seq![lfield(1, v.last().encoded())], x);
        let y = SpecTipcardListResponse { cards: x.cards + w, ..x };
        lemma_merge_one(lfield(1, v.last().encoded()), y);
        lemma_round_tipcard_list_item(v.last());
        lemma_decode_encode_fields(v.last().fields(), SpecTipcardListItem::empty());
        assert((x.cards + w).push(v.last()) =~= x.cards + v);
    }
}

/// Decoding the fields of a well-formed `TipcardListResponse` gives it back.
pub proof fn lemma_round_tipcard_list_response(m: SpecTipcardListResponse)
    requires
        m.wf(),
    ensures
        merge_fields(m.fields(), SpecTipcardListResponse::empty()) == Some(m),
        fields_wf(m.fields()),
{
    reveal(SpecTipcardListResponse::fields);
    reveal(SpecTipcardListResponse::wf);
    let x0 = SpecTipcardListResponse::empty();
    let x1 = SpecTipcardListResponse { cards: m.cards };
    let s0 = seg_rep(1, SpecTipcardListItem::encode_all(m.cards));
    assert(merge_fields(s0, x0) == Some(x1) && fields_wf(s0)) by {
        lemma_tipcard_list_response_rep_cards(m.cards, x0);
        assert forall|i: int| 0 <= i < SpecTipcardListItem::encode_all(m.cards).len() implies fits(#[trigger] SpecTipcardListItem::encode_all(m.cards)[i]) by { assert(m.cards[i].wf() && fits(m.cards[i].encoded())); }
        lemma_rep_wf(1, SpecTipcardListItem::encode_all(m.cards));
        assert(x0.cards + m.cards =~= m.cards);
    }
    let p0 = s0;
    assert(x1 == m);
}

/// A `TipcardListResponse` whose encoding has a length that fits a varint is well-formed.
pub proof fn lemma_wf_tipcard_list_response(m: SpecTipcardListResponse)
    requires
        fits(m.encoded()),
    ensures
        m.wf(),
{
    reveal(SpecTipcardListResponse::fields);
    reveal(SpecTipcardListResponse::wf);
    let s0 = seg_rep(1, SpecTipcardListItem::encode_all(m.cards));
    let p0 = s0;
    lemma_fits_seg_rep(1, SpecTipcardListItem::encode_all(m.cards));
    assert forall|i: int| 0 <= i < m.cards.len() implies (#[trigger] m.cards[i]).wf() && fits(m.cards[i].encoded()) by { assert(fits(SpecTipcardListItem::encode_all(m.cards)[i])); lemma_wf_tipcard_list_item(m.cards[i]); }
}

} // verus!
