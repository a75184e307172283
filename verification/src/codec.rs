//! Proto3 field encodings on top of the wire format: scalars, strings,
//! bytes, nested and repeated fields, as prost writes and reads them.
//! Fields that hold their default value are not written.

use vstd::prelude::*;
use vstd::utf8::*;
use crate::wire::{
    field_wf, fields_wf,
    decode_into, decode_message_into, encode_fields, field_bytes, lemma_encode_fields_append,
    lemma_parse_varint_encode, lemma_parse_varint_len, lemma_varint_u64_len, merge_fields,
    parse_varint, put_len_field, put_varint, put_varint_field, read_varint, varint_bytes, Message,
    RawField, RawValue, SpecField, SpecWire, WireMessage, MAX_FIELD_NUMBER,
};

verus! {

broadcast use vstd::utf8::group_utf8_lib;

// ------------------------------------------------------------------
// Field lists of one kind
// ------------------------------------------------------------------

pub open spec fn vfield(n: u32, v: u64) -> SpecField {
    SpecField { number: n, value: SpecWire::Varint(v) }
}

pub open spec fn lfield(n: u32, b: Seq<u8>) -> SpecField {
    SpecField { number: n, value: SpecWire::Len(b) }
}

pub open spec fn seg_u64(n: u32, v: u64) -> Seq<SpecField> {
    if v == 0 {
        Seq::empty()
    } else {
        seq![vfield(n, v)]
    }
}

pub open spec fn seg_i64(n: u32, v: i64) -> Seq<SpecField> {
    seg_u64(n, v as u64)
}

pub open spec fn seg_u32(n: u32, v: u32) -> Seq<SpecField> {
    seg_u64(n, v as u64)
}

pub open spec fn seg_i32(n: u32, v: i32) -> Seq<SpecField> {
    seg_u64(n, v as u64)
}

pub open spec fn seg_bool(n: u32, b: bool) -> Seq<SpecField> {
    seg_u64(
        n,
        if b {
            1
        } else {
            0
        },
    )
}

pub open spec fn seg_str(n: u32, s: Seq<char>) -> Seq<SpecField> {
    if s.len() == 0 {
        Seq::empty()
    } else {
        seq![lfield(n, encode_utf8(s))]
    }
}

/// An explicitly present string (proto3 `optional`): written even when empty.
pub open spec fn seg_opt_str(n: u32, o: Option<Seq<char>>) -> Seq<SpecField> {
    match o {
        Some(s) => seq![lfield(n, encode_utf8(s))],
        None => Seq::empty(),
    }
}

pub open spec fn seg_bytes(n: u32, b: Seq<u8>) -> Seq<SpecField> {
    if b.len() == 0 {
        Seq::empty()
    } else {
        seq![lfield(n, b)]
    }
}

/// A present nested message, given by its encoding.
pub open spec fn seg_msg(n: u32, o: Option<Seq<u8>>) -> Seq<SpecField> {
    match o {
        Some(b) => seq![lfield(n, b)],
        None => Seq::empty(),
    }
}

/// One length-delimited field per element, in order.
pub open spec fn seg_rep(n: u32, v: Seq<Seq<u8>>) -> Seq<SpecField> {
    Seq::new(v.len(), |i: int| lfield(n, v[i]))
}

pub open spec fn utf8_all(v: Seq<Seq<char>>) -> Seq<Seq<u8>> {
    Seq::new(v.len(), |i: int| encode_utf8(v[i]))
}

pub open spec fn seg_rep_str(n: u32, v: Seq<Seq<char>>) -> Seq<SpecField> {
    seg_rep(n, utf8_all(v))
}

/// Concatenated varints.
pub open spec fn packed_bytes(v: Seq<u64>) -> Seq<u8>
    decreases v.len(),
{
    if v.len() == 0 {
        Seq::empty()
    } else {
        varint_bytes(v[0] as nat) + packed_bytes(v.drop_first())
    }
}

pub open spec fn i64s_as_u64s(v: Seq<i64>) -> Seq<u64> {
    Seq::new(v.len(), |i: int| v[i] as u64)
}

/// A packed repeated int64 field (one length-delimited field, left out when empty).
pub open spec fn seg_packed_i64(n: u32, v: Seq<i64>) -> Seq<SpecField> {
    if v.len() == 0 {
        Seq::empty()
    } else {
        seq![lfield(n, packed_bytes(i64s_as_u64s(v)))]
    }
}

// ------------------------------------------------------------------
// Reading one field's payload
// ------------------------------------------------------------------

pub open spec fn as_varint(w: SpecWire) -> Option<u64> {
    match w {
        SpecWire::Varint(v) => Some(v),
        _ => None,
    }
}

pub open spec fn as_bytes(w: SpecWire) -> Option<Seq<u8>> {
    match w {
        SpecWire::Len(b) => Some(b),
        _ => None,
    }
}

/// A string payload must be valid UTF-8.
pub open spec fn as_string(w: SpecWire) -> Option<Seq<char>> {
    match w {
        SpecWire::Len(b) => if valid_utf8(b) {
            Some(decode_utf8(b))
        } else {
            None
        },
        _ => None,
    }
}

/// Varints packed back to back, as far as they go.
pub open spec fn parse_packed(b: Seq<u8>) -> Option<Seq<u64>>
    decreases b.len(),
{
    if b.len() == 0 {
        Some(Seq::empty())
    } else {
        match parse_varint(b) {
            Some((v, n)) => if 0 < n <= b.len() {
                match parse_packed(b.skip(n as int)) {
                    Some(rest) => Some(seq![v] + rest),
                    None => None,
                }
            } else {
                None
            },
            None => None,
        }
    }
}

/// A repeated int64 field accepts one unpacked value or a packed run.
pub open spec fn as_i64s(w: SpecWire) -> Option<Seq<i64>> {
    match w {
        SpecWire::Varint(v) => Some(seq![v as i64]),
        SpecWire::Len(b) => match parse_packed(b) {
            Some(vs) => Some(Seq::new(vs.len(), |i: int| vs[i] as i64)),
            None => None,
        },
        _ => None,
    }
}

/// Merge a nested message field into what is already there.
pub open spec fn merge_nested<M: Message>(w: SpecWire, cur: M) -> Option<M> {
    match w {
        SpecWire::Len(b) => decode_into(b, cur),
        _ => None,
    }
}

// ------------------------------------------------------------------
// Lemmas on segments
// ------------------------------------------------------------------

pub proof fn lemma_encode_one(f: SpecField)
    ensures
        encode_fields(seq![f]) == field_bytes(f),
{
    reveal(encode_fields);
    reveal_with_fuel(encode_fields, 2);
    assert(seq![f].drop_first() =~= Seq::<SpecField>::empty());
    assert(field_bytes(f) + Seq::<u8>::empty() =~= field_bytes(f));
}

pub proof fn lemma_encode_empty()
    ensures
        encode_fields(Seq::<SpecField>::empty()) == Seq::<u8>::empty(),
{
    reveal(encode_fields);
}

pub proof fn lemma_merge_one<M: Message>(f: SpecField, m: M)
    ensures
        merge_fields(seq![f], m) == m.merge(f),
{
    reveal(merge_fields);
    reveal_with_fuel(merge_fields, 2);
    assert(seq![f].drop_first() =~= Seq::<SpecField>::empty());
}

pub proof fn lemma_i64_round(v: i64)
    ensures
        (v as u64) as i64 == v,
{
    assert((v as u64) as i64 == v) by (bit_vector);
}

pub proof fn lemma_i32_round(v: i32)
    ensures
        (v as u64) as i32 == v,
{
    assert((v as u64) as i32 == v) by (bit_vector);
}

pub proof fn lemma_packed_round(v: Seq<u64>)
    ensures
        parse_packed(packed_bytes(v)) == Some(v),
    decreases v.len(),
{
    if v.len() > 0 {
        let rest = packed_bytes(v.drop_first());
        lemma_parse_varint_encode(v[0], rest);
        lemma_varint_u64_len(v[0]);
        let b = packed_bytes(v);
        assert(b.skip(varint_bytes(v[0] as nat).len() as int) =~= rest);
        lemma_packed_round(v.drop_first());
        assert(seq![v[0]] + v.drop_first() =~= v);
    }
}

pub proof fn lemma_i64s_round(v: Seq<i64>)
    ensures
        as_i64s(SpecWire::Len(packed_bytes(i64s_as_u64s(v)))) == Some(v),
{
    lemma_packed_round(i64s_as_u64s(v));
    let w = i64s_as_u64s(v);
    assert forall|i: int| 0 <= i < v.len() implies (w[i] as i64) == v[i] by {
        lemma_i64_round(v[i]);
    }
    assert(Seq::new(w.len(), |i: int| w[i] as i64) =~= v);
}

pub proof fn lemma_seg_rep_full(n: u32, v: Seq<Seq<u8>>)
    ensures
        seg_rep(n, v.take(v.len() as int)) == seg_rep(n, v),
        seg_rep(n, v.take(0)) == Seq::<SpecField>::empty(),
{
    assert(v.take(v.len() as int) =~= v);
    assert(seg_rep(n, v.take(0)) =~= Seq::<SpecField>::empty());
}

/// A payload whose length a varint can carry.
pub open spec fn fits(b: Seq<u8>) -> bool {
    b.len() <= u64::MAX
}

pub open spec fn opt_u64_seg(n: u32, o: Option<u64>) -> Seq<SpecField> {
    match o {
        Some(v) => seq![vfield(n, v)],
        None => Seq::empty(),
    }
}

pub proof fn lemma_seg_u64<M: Message>(n: u32, v: u64, x: M)
    requires
        1 <= n <= MAX_FIELD_NUMBER,
    ensures
        merge_fields(seg_u64(n, v), x) == (if v == 0 {
            Some(x)
        } else {
            x.merge(vfield(n, v))
        }),
        fields_wf(seg_u64(n, v)),
{
    reveal(fields_wf);
    reveal(merge_fields);
    if v != 0 {
        lemma_merge_one(vfield(n, v), x);
    }
}

pub proof fn lemma_seg_opt_u64<M: Message>(n: u32, o: Option<u64>, x: M)
    requires
        1 <= n <= MAX_FIELD_NUMBER,
    ensures
        merge_fields(opt_u64_seg(n, o), x) == match o {
            Some(v) => x.merge(vfield(n, v)),
            None => Some(x),
        },
        fields_wf(opt_u64_seg(n, o)),
{
    reveal(fields_wf);
    reveal(merge_fields);
    if let Some(v) = o {
        lemma_merge_one(vfield(n, v), x);
    }
}

pub proof fn lemma_seg_len<M: Message>(n: u32, b: Seq<u8>, x: M)
    requires
        1 <= n <= MAX_FIELD_NUMBER,
    ensures
        merge_fields(seq![lfield(n, b)], x) == x.merge(lfield(n, b)),
        fits(b) ==> fields_wf(seq![lfield(n, b)]),
{
    reveal(fields_wf);
    reveal(merge_fields);
    lemma_merge_one(lfield(n, b), x);
}

pub proof fn lemma_seg_empty<M: Message>(x: M)
    ensures
        merge_fields(Seq::<SpecField>::empty(), x) == Some(x),
        fields_wf(Seq::<SpecField>::empty()),
{
    reveal(fields_wf);
    reveal(merge_fields);
}

pub proof fn lemma_zero_i64(v: i64)
    ensures
        (v as u64 == 0) <==> v == 0,
        (v as u64) as i64 == v,
{
    assert((v as u64 == 0) <==> v == 0) by (bit_vector);
    lemma_i64_round(v);
}

pub proof fn lemma_zero_i32(v: i32)
    ensures
        (v as u64 == 0) <==> v == 0,
        (v as u64) as i32 == v,
{
    assert((v as u64 == 0) <==> v == 0) by (bit_vector);
    lemma_i32_round(v);
}

pub proof fn lemma_rep_wf(n: u32, v: Seq<Seq<u8>>)
    requires
        1 <= n <= MAX_FIELD_NUMBER,
        forall|i: int| 0 <= i < v.len() ==> fits(#[trigger] v[i]),
    ensures
        fields_wf(seg_rep(n, v)),
{
    reveal(fields_wf);
    reveal(merge_fields);
    assert forall|i: int| 0 <= i < seg_rep(n, v).len() implies field_wf(#[trigger] seg_rep(n, v)[i]) by {
        assert(fits(v[i]));
    }
}

/// Both halves of a field list fit where the whole encoding does.
pub proof fn lemma_fits_parts(a: Seq<SpecField>, b: Seq<SpecField>)
    requires
        fits(encode_fields(a + b)),
    ensures
        fits(encode_fields(a)),
        fits(encode_fields(b)),
{
    lemma_encode_fields_append(a, b);
}

/// The payload of a lone length-delimited field fits where the field does.
pub proof fn lemma_fits_one(n: u32, b: Seq<u8>)
    requires
        fits(encode_fields(seq![lfield(n, b)])),
    ensures
        fits(b),
{
    reveal(encode_fields);
    let fs = seq![lfield(n, b)];
    assert(encode_fields(fs) == field_bytes(fs[0]) + encode_fields(fs.drop_first()));
    assert(field_bytes(fs[0]).len() >= b.len());
    assert(encode_fields(fs).len() >= b.len());
}

pub proof fn lemma_fits_seg_str(n: u32, s: Seq<char>)
    requires
        fits(encode_fields(seg_str(n, s))),
    ensures
        fits(encode_utf8(s)),
{
    if s.len() == 0 {
        assert(encode_utf8(s) =~= Seq::<u8>::empty());
    } else {
        lemma_fits_one(n, encode_utf8(s));
    }
}

pub proof fn lemma_fits_seg_bytes(n: u32, b: Seq<u8>)
    requires
        fits(encode_fields(seg_bytes(n, b))),
    ensures
        fits(b),
{
    if b.len() != 0 {
        lemma_fits_one(n, b);
    }
}

pub proof fn lemma_fits_seg_packed(n: u32, v: Seq<i64>)
    requires
        fits(encode_fields(seg_packed_i64(n, v))),
    ensures
        fits(packed_bytes(i64s_as_u64s(v))),
{
    if v.len() == 0 {
        assert(i64s_as_u64s(v) =~= Seq::<u64>::empty());
        assert(packed_bytes(i64s_as_u64s(v)) =~= Seq::<u8>::empty());
    } else {
        lemma_fits_one(n, packed_bytes(i64s_as_u64s(v)));
    }
}

/// Every payload of a repeated field fits where the run of fields does.
pub proof fn lemma_fits_seg_rep(n: u32, v: Seq<Seq<u8>>)
    requires
        fits(encode_fields(seg_rep(n, v))),
    ensures
        forall|i: int| 0 <= i < v.len() ==> fits(#[trigger] v[i]),
    decreases v.len(),
{
    if v.len() > 0 {
        let t = v.drop_first();
        assert(seg_rep(n, v) =~= seq![lfield(n, v[0])] + seg_rep(n, t));
        lemma_fits_parts(seq![lfield(n, v[0])], seg_rep(n, t));
        lemma_fits_one(n, v[0]);
        lemma_fits_seg_rep(n, t);
        assert forall|i: int| 0 <= i < v.len() implies fits(#[trigger] v[i]) by {
            if i > 0 {
                assert(v[i] == t[i - 1]);
            }
        }
    }
}

pub proof fn lemma_rep_split(n: u32, v: Seq<Seq<u8>>)
    requires
        v.len() > 0,
    ensures
        seg_rep(n, v) == seg_rep(n, v.drop_last()) + seq![lfield(n, v.last())],
{
    assert(seg_rep(n, v) =~= seg_rep(n, v.drop_last()) + seq![lfield(n, v.last())]);
}

pub proof fn lemma_rep_empty(n: u32, v: Seq<Seq<u8>>)
    requires
        v.len() == 0,
    ensures
        seg_rep(n, v) == Seq::<SpecField>::empty(),
{
    assert(seg_rep(n, v) =~= Seq::<SpecField>::empty());
}

// ------------------------------------------------------------------
// Executable writers
// ------------------------------------------------------------------

pub fn put_u64(out: &mut Vec<u8>, n: u32, v: u64)
    requires
        1 <= n <= MAX_FIELD_NUMBER,
    ensures
        final(out)@ == old(out)@ + encode_fields(seg_u64(n, v)),
{
    reveal(encode_fields);
    if v != 0 {
        put_varint_field(out, n, v);
        proof {
            lemma_encode_one(vfield(n, v));
        }
    } else {
        assert(final(out)@ =~= old(out)@ + encode_fields(seg_u64(n, v)));
    }
}

pub fn put_i64(out: &mut Vec<u8>, n: u32, v: i64)
    requires
        1 <= n <= MAX_FIELD_NUMBER,
    ensures
        final(out)@ == old(out)@ + encode_fields(seg_i64(n, v)),
{
    put_u64(out, n, v as u64);
}

pub fn put_u32(out: &mut Vec<u8>, n: u32, v: u32)
    requires
        1 <= n <= MAX_FIELD_NUMBER,
    ensures
        final(out)@ == old(out)@ + encode_fields(seg_u32(n, v)),
{
    put_u64(out, n, v as u64);
}

pub fn put_i32(out: &mut Vec<u8>, n: u32, v: i32)
    requires
        1 <= n <= MAX_FIELD_NUMBER,
    ensures
        final(out)@ == old(out)@ + encode_fields(seg_i32(n, v)),
{
    put_u64(out, n, v as u64);
}

pub fn put_bool(out: &mut Vec<u8>, n: u32, b: bool)
    requires
        1 <= n <= MAX_FIELD_NUMBER,
    ensures
        final(out)@ == old(out)@ + encode_fields(seg_bool(n, b)),
{
    put_u64(
        out,
        n,
        if b {
            1
        } else {
            0
        },
    );
}

pub fn put_str(out: &mut Vec<u8>, n: u32, s: &str)
    requires
        1 <= n <= MAX_FIELD_NUMBER,
    ensures
        final(out)@ == old(out)@ + encode_fields(seg_str(n, s@)),
{
    reveal(encode_fields);
    let b = s.as_bytes();
    if b.len() != 0 {
        put_len_field(out, n, b);
        proof {
            lemma_encode_one(lfield(n, encode_utf8(s@)));
        }
    } else {
        assert(s@.len() == 0) by {
            assert(decode_utf8(encode_utf8(s@)) == s@);
            assert(encode_utf8(s@) =~= Seq::<u8>::empty());
        }
        assert(final(out)@ =~= old(out)@ + encode_fields(seg_str(n, s@)));
    }
}

pub fn put_opt_str(out: &mut Vec<u8>, n: u32, o: &Option<String>)
    requires
        1 <= n <= MAX_FIELD_NUMBER,
    ensures
        final(out)@ == old(out)@ + encode_fields(
            seg_opt_str(
                n,
                match o {
                    Some(s) => Some(s@),
                    None => None,
                },
            ),
        ),
{
    reveal(encode_fields);
    match o {
        Some(s) => {
            put_len_field(out, n, s.as_str().as_bytes());
            proof {
                lemma_encode_one(lfield(n, encode_utf8(s@)));
            }
        },
        None => {
            assert(final(out)@ =~= old(out)@ + Seq::<u8>::empty());
        },
    }
}

pub fn put_bytes(out: &mut Vec<u8>, n: u32, b: &[u8])
    requires
        1 <= n <= MAX_FIELD_NUMBER,
    ensures
        final(out)@ == old(out)@ + encode_fields(seg_bytes(n, b@)),
{
    reveal(encode_fields);
    if b.len() != 0 {
        put_len_field(out, n, b);
        proof {
            lemma_encode_one(lfield(n, b@));
        }
    } else {
        assert(final(out)@ =~= old(out)@ + encode_fields(seg_bytes(n, b@)));
    }
}

/// Writes a present nested message from its encoding.
pub fn put_msg(out: &mut Vec<u8>, n: u32, b: &[u8])
    requires
        1 <= n <= MAX_FIELD_NUMBER,
    ensures
        final(out)@ == old(out)@ + encode_fields(seg_msg(n, Some(b@))),
{
    put_len_field(out, n, b);
    proof {
        lemma_encode_one(lfield(n, b@));
    }
}

/// Appends one more element of a repeated length-delimited field.
pub fn put_rep_item(out: &mut Vec<u8>, n: u32, b: &[u8], Ghost(prev): Ghost<Seq<Seq<u8>>>)
    requires
        1 <= n <= MAX_FIELD_NUMBER,
        old(out)@ == encode_fields(seg_rep(n, prev)),
    ensures
        final(out)@ == encode_fields(seg_rep(n, prev.push(b@))),
{
    put_len_field(out, n, b);
    proof {
        lemma_encode_one(lfield(n, b@));
        assert(seg_rep(n, prev.push(b@)) =~= seg_rep(n, prev) + seq![lfield(n, b@)]);
        lemma_encode_fields_append(seg_rep(n, prev), seq![lfield(n, b@)]);
    }
}

pub fn put_rep_str(out: &mut Vec<u8>, n: u32, v: &Vec<String>)
    requires
        1 <= n <= MAX_FIELD_NUMBER,
    ensures
        final(out)@ == old(out)@ + encode_fields(seg_rep_str(n, strings_view(v@))),
{
    let ghost all = utf8_all(strings_view(v@));
    let mut part: Vec<u8> = Vec::new();
    let mut i: usize = 0;
    proof {
        lemma_seg_rep_full(n, all);
        lemma_encode_empty();
    }
    while i < v.len()
        invariant
            1 <= n <= MAX_FIELD_NUMBER,
            i <= v@.len(),
            all == utf8_all(strings_view(v@)),
            part@ == encode_fields(seg_rep(n, all.take(i as int))),
        decreases v@.len() - i,
    {
        let b = v[i].as_str().as_bytes();
        proof {
            assert(all.take(i as int).push(b@) =~= all.take(i + 1));
        }
        put_rep_item(&mut part, n, b, Ghost(all.take(i as int)));
        i = i + 1;
    }
    proof {
        lemma_seg_rep_full(n, all);
    }
    append_all(out, &part);
}

/// The value of an optional string.
pub open spec fn opt_string_view(o: Option<String>) -> Option<Seq<char>> {
    match o {
        Some(s) => Some(s@),
        None => None,
    }
}

pub open spec fn strings_view(v: Seq<String>) -> Seq<Seq<char>> {
    Seq::new(v.len(), |i: int| v[i]@)
}

pub fn put_packed_i64(out: &mut Vec<u8>, n: u32, v: &Vec<i64>)
    requires
        1 <= n <= MAX_FIELD_NUMBER,
    ensures
        final(out)@ == old(out)@ + encode_fields(seg_packed_i64(n, v@)),
{
    reveal(encode_fields);
    if v.len() == 0 {
        assert(final(out)@ =~= old(out)@ + encode_fields(seg_packed_i64(n, v@)));
        return ;
    }
    let ghost w = i64s_as_u64s(v@);
    let mut payload: Vec<u8> = Vec::new();
    let mut i: usize = 0;
    while i < v.len()
        invariant
            i <= v@.len(),
            w == i64s_as_u64s(v@),
            payload@ == packed_bytes(w.take(i as int)),
        decreases v@.len() - i,
    {
        put_varint(&mut payload, v[i] as u64);
        proof {
            lemma_packed_push(w.take(i as int), w[i as int]);
            assert(w.take(i as int).push(w[i as int]) =~= w.take(i + 1));
        }
        i = i + 1;
    }
    assert(w.take(v@.len() as int) =~= w);
    put_len_field(out, n, &payload);
    proof {
        lemma_encode_one(lfield(n, payload@));
    }
}

pub proof fn lemma_packed_push(v: Seq<u64>, x: u64)
    ensures
        packed_bytes(v.push(x)) == packed_bytes(v) + varint_bytes(x as nat),
    decreases v.len(),
{
    if v.len() == 0 {
        assert(v.push(x).drop_first() =~= Seq::<u64>::empty());
        reveal_with_fuel(packed_bytes, 2);
        assert(packed_bytes(v.push(x)) =~= varint_bytes(x as nat));
    } else {
        assert(v.push(x).drop_first() =~= v.drop_first().push(x));
        lemma_packed_push(v.drop_first(), x);
        assert(packed_bytes(v.push(x)) =~= packed_bytes(v) + varint_bytes(x as nat));
    }
}

pub fn put_opt_u64(out: &mut Vec<u8>, n: u32, o: Option<u64>)
    requires
        1 <= n <= MAX_FIELD_NUMBER,
    ensures
        final(out)@ == old(out)@ + encode_fields(opt_u64_seg(n, o)),
{
    reveal(encode_fields);
    match o {
        Some(v) => {
            put_varint_field(out, n, v);
            proof {
                lemma_encode_one(vfield(n, v));
            }
        },
        None => {
            assert(final(out)@ =~= old(out)@ + encode_fields(opt_u64_seg(n, o)));
        },
    }
}

/// Appends the elements of `b` to `v`.
pub fn extend_i64(v: &mut Vec<i64>, b: &Vec<i64>)
    ensures
        final(v)@ == old(v)@ + b@,
{
    let mut i: usize = 0;
    while i < b.len()
        invariant
            i <= b@.len(),
            v@ == old(v)@ + b@.take(i as int),
        decreases b@.len() - i,
    {
        v.push(b[i]);
        assert(b@.take((i + 1) as int) =~= b@.take(i as int).push(b@[i as int]));
        i = i + 1;
    }
    assert(b@.take(b@.len() as int) =~= b@);
}

/// Appends the bytes of `b` to `out`.
pub fn append_all(out: &mut Vec<u8>, b: &Vec<u8>)
    ensures
        final(out)@ == old(out)@ + b@,
{
    let mut i: usize = 0;
    while i < b.len()
        invariant
            i <= b@.len(),
            out@ == old(out)@ + b@.take(i as int),
        decreases b@.len() - i,
    {
        out.push(b[i]);
        assert(b@.take((i + 1) as int) =~= b@.take(i as int).push(b@[i as int]));
        i = i + 1;
    }
    assert(b@.take(b@.len() as int) =~= b@);
}

// ------------------------------------------------------------------
// Executable readers
// ------------------------------------------------------------------

pub fn raw_varint(f: &RawField) -> (r: Option<u64>)
    ensures
        forall|buf: Seq<u8>| r == as_varint(#[trigger] f.spec(buf).value),
{
    match f.value {
        RawValue::Varint(v) => Some(v),
        _ => None,
    }
}

pub fn raw_bytes(buf: &[u8], f: &RawField) -> (r: Option<Vec<u8>>)
    requires
        f.within(buf@.len()),
    ensures
        match as_bytes(f.spec(buf@).value) {
            Some(b) => r matches Some(v) && v@ == b,
            None => r is None,
        },
{
    match f.value {
        RawValue::Len(a, b) => Some(vstd::slice::slice_to_vec(vstd::slice::slice_subrange(buf, a, b))),
        _ => None,
    }
}

pub fn raw_string(buf: &[u8], f: &RawField) -> (r: Option<String>)
    requires
        f.within(buf@.len()),
    ensures
        match as_string(f.spec(buf@).value) {
            Some(s) => r matches Some(v) && v@ == s,
            None => r is None,
        },
{
    match raw_bytes(buf, f) {
        Some(v) => string_from_utf8(v),
        None => None,
    }
}

pub fn raw_i64s(buf: &[u8], f: &RawField) -> (r: Option<Vec<i64>>)
    requires
        f.within(buf@.len()),
    ensures
        match as_i64s(f.spec(buf@).value) {
            Some(s) => r matches Some(v) && v@ == s,
            None => r is None,
        },
{
    match f.value {
        RawValue::Varint(v) => {
            let mut out: Vec<i64> = Vec::new();
            out.push(v as i64);
            assert(out@ =~= seq![v as i64]);
            Some(out)
        },
        RawValue::Len(a, b) => {
            let body = vstd::slice::slice_subrange(buf, a, b);
            let mut out: Vec<i64> = Vec::new();
            let mut pos: usize = 0;
            let ghost whole = body@;
            assert(whole.skip(0) =~= whole);
            assert(i64s_as_u64s(out@) + Seq::<u64>::empty() =~= Seq::<u64>::empty());
            while pos < body.len()
                invariant
                    pos <= body@.len(),
                    whole == body@,
                    f.spec(buf@).value == SpecWire::Len(whole),
                    parse_packed(whole) == match parse_packed(whole.skip(pos as int)) {
                        Some(rest) => Some(i64s_as_u64s(out@) + rest),
                        None => None,
                    },
                decreases body@.len() - pos,
            {
                let ghost s = whole.skip(pos as int);
                proof {
                    lemma_parse_varint_len(s);
                }
                match read_varint(body, pos) {
                    Some((v, next)) => {
                        let ghost before = out@;
                        out.push(v as i64);
                        proof {
                            assert(s.skip((next - pos) as int) =~= whole.skip(next as int));
                            lemma_i64_u64_round(v);
                            assert(i64s_as_u64s(out@) =~= i64s_as_u64s(before).push(v));
                            match parse_packed(whole.skip(next as int)) {
                                Some(rest) => {
                                    assert(i64s_as_u64s(before) + (seq![v] + rest)
                                        =~= i64s_as_u64s(out@) + rest);
                                },
                                None => {},
                            }
                        }
                        pos = next;
                    },
                    None => {
                        return None;
                    },
                }
            }
            proof {
                assert(whole.skip(pos as int) =~= Seq::<u8>::empty());
                let all = parse_packed(whole)->0;
                assert(all =~= i64s_as_u64s(out@));
                assert forall|i: int| 0 <= i < out@.len() implies (all[i] as i64) == out@[i] by {
                    lemma_i64_round(out@[i]);
                }
                assert(Seq::new(all.len(), |i: int| all[i] as i64) =~= out@);
            }
            Some(out)
        },
        _ => None,
    }
}

pub proof fn lemma_i64_u64_round(v: u64)
    ensures
        ((v as i64) as u64) == v,
{
    assert(((v as i64) as u64) == v) by (bit_vector);
}

/// Decodes the nested message in a length-delimited field into `cur`.
pub fn raw_nested<M: WireMessage>(buf: &[u8], f: &RawField, cur: M) -> (r: Option<M>)
    requires
        f.within(buf@.len()),
    ensures
        match merge_nested(f.spec(buf@).value, cur.spec_of()) {
            Some(m) => r matches Some(v) && v.spec_of() == m,
            None => r is None,
        },
{
    match f.value {
        RawValue::Len(a, b) => decode_message_into(vstd::slice::slice_subrange(buf, a, b), cur),
        _ => None,
    }
}

/// The standard library's UTF-8 check and conversion.
///
/// Calls `String::from_utf8`, which takes the vector as the string's bytes
/// when they are valid UTF-8 and fails otherwise. The contract says exactly
/// that, over vstd's UTF-8 specification.
#[verifier::external_body]
pub(crate) fn string_from_utf8(bytes: Vec<u8>) -> (r: Option<String>)
    ensures
        r is Some <==> valid_utf8(bytes@),
        r matches Some(s) ==> s@ == decode_utf8(bytes@),
{
    String::from_utf8(bytes).ok()
}

} // verus!
