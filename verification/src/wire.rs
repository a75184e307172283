//! Protobuf wire format: LEB128 varints, field keys, and a field-by-field
//! fold that every message decoder is built on.

use vstd::prelude::*;

verus! {

// ------------------------------------------------------------------
// Varints
// ------------------------------------------------------------------

/// `128^k`.
pub open spec fn pow128(k: nat) -> nat
    decreases k,
{
    if k == 0 {
        1
    } else {
        128 * pow128((k - 1) as nat)
    }
}

/// The LEB128 encoding of `v`: seven bits per byte, least significant
/// group first, the high bit set on every byte but the last.
pub open spec fn varint_bytes(v: nat) -> Seq<u8>
    decreases v,
{
    if v < 128 {
        seq![v as u8]
    } else {
        seq![((v % 128) + 128) as u8] + varint_bytes(v / 128)
    }
}

/// Value of a terminated varint segment (every byte but the last has its
/// high bit set).
pub open spec fn varint_value(seg: Seq<u8>) -> nat
    decreases seg.len(),
{
    if seg.len() <= 1 {
        if seg.len() == 0 {
            0
        } else {
            seg[0] as nat
        }
    } else {
        (seg[0] % 128) as nat + 128 * varint_value(seg.drop_first())
    }
}

/// Scan at most `fuel` bytes for a varint; the value and the byte count.
pub open spec fn varint_scan(s: Seq<u8>, fuel: nat) -> Option<(nat, nat)>
    decreases fuel,
{
    if fuel == 0 || s.len() == 0 {
        None
    } else if s[0] < 128 {
        Some((s[0] as nat, 1))
    } else {
        match varint_scan(s.drop_first(), (fuel - 1) as nat) {
            Some((v, n)) => Some((((s[0] % 128) as nat + 128 * v) as nat, n + 1)),
            None => None,
        }
    }
}

/// A varint at the front of `s`, as protobuf accepts it: at most ten bytes
/// and a value that fits in 64 bits. Yields the value and its byte count.
pub open spec fn parse_varint(s: Seq<u8>) -> Option<(u64, nat)> {
    match varint_scan(s, 10) {
        Some((v, n)) => if v <= u64::MAX {
            Some((v as u64, n))
        } else {
            None
        },
        None => None,
    }
}

pub proof fn lemma_varint_bytes_len(v: nat, k: nat)
    requires
        k >= 1,
        v < pow128(k),
    ensures
        1 <= varint_bytes(v).len() <= k,
        varint_bytes(v)[varint_bytes(v).len() - 1] < 128,
        forall|i: int| 0 <= i < varint_bytes(v).len() - 1 ==> varint_bytes(v)[i] >= 128,
    decreases v,
{
    if v >= 128 {
        assert(k >= 2) by {
            if k == 1 {
                assert(pow128(1) == 128 * pow128(0));
            }
        }
        assert(pow128(k) == 128 * pow128((k - 1) as nat));
        lemma_varint_bytes_len(v / 128, (k - 1) as nat);
        let tail = varint_bytes(v / 128);
        assert(varint_bytes(v) == seq![((v % 128) + 128) as u8] + tail);
        assert forall|i: int| 0 <= i < varint_bytes(v).len() - 1 implies varint_bytes(v)[i]
            >= 128 by {
            if i > 0 {
                assert(varint_bytes(v)[i] == tail[i - 1]);
            }
        }
    }
}

pub proof fn lemma_pow128_ten()
    ensures
        pow128(10) == 1180591620717411303424nat,
        (u64::MAX as nat) < pow128(10),
{
    reveal_with_fuel(pow128, 11);
    assert(pow128(10) == 1180591620717411303424nat);
}

/// Every 64-bit value encodes in at most ten bytes.
pub proof fn lemma_varint_u64_len(v: u64)
    ensures
        1 <= varint_bytes(v as nat).len() <= 10,
        varint_bytes(v as nat)[varint_bytes(v as nat).len() - 1] < 128,
        forall|i: int|
            0 <= i < varint_bytes(v as nat).len() - 1 ==> varint_bytes(v as nat)[i] >= 128,
{
    lemma_pow128_ten();
    lemma_varint_bytes_len(v as nat, 10);
}

/// Scanning an encoding followed by anything gives back the value.
pub proof fn lemma_varint_scan_encode(v: nat, rest: Seq<u8>, fuel: nat)
    requires
        varint_bytes(v).len() <= fuel,
    ensures
        varint_scan(varint_bytes(v) + rest, fuel) == Some((v, varint_bytes(v).len())),
    decreases v,
{
    let s = varint_bytes(v) + rest;
    if v < 128 {
        assert(s[0] == v as u8);
    } else {
        let tail = varint_bytes(v / 128);
        assert(varint_bytes(v) == seq![((v % 128) + 128) as u8] + tail);
        assert(s.drop_first() =~= tail + rest);
        lemma_varint_scan_encode(v / 128, rest, (fuel - 1) as nat);
        assert(s[0] == ((v % 128) + 128) as u8);
        assert((s[0] % 128) as nat == v % 128);
    }
}

/// `parse_varint` inverts `varint_bytes` on 64-bit values, whatever follows.
pub proof fn lemma_parse_varint_encode(v: u64, rest: Seq<u8>)
    ensures
        parse_varint(varint_bytes(v as nat) + rest) == Some((v, varint_bytes(v as nat).len())),
{
    lemma_varint_u64_len(v);
    lemma_varint_scan_encode(v as nat, rest, 10);
}

/// A scan that succeeds found a terminated segment of the reported length.
pub proof fn lemma_varint_scan_shape(s: Seq<u8>, fuel: nat)
    requires
        varint_scan(s, fuel) is Some,
    ensures
        ({
            let (v, n) = varint_scan(s, fuel)->0;
            &&& 1 <= n <= fuel
            &&& n <= s.len()
            &&& s[n - 1] < 128
            &&& forall|i: int| 0 <= i < n - 1 ==> s[i] >= 128
            &&& v == varint_value(s.take(n as int))
        }),
    decreases fuel,
{
    if s[0] < 128 {
        assert(s.take(1) =~= seq![s[0]]);
    } else {
        let t = s.drop_first();
        lemma_varint_scan_shape(t, (fuel - 1) as nat);
        let (v, n) = varint_scan(t, (fuel - 1) as nat)->0;
        assert forall|i: int| 0 <= i < n + 1 - 1 implies s[i] >= 128 by {
            if i > 0 {
                assert(s[i] == t[i - 1]);
            }
        }
        assert(s.take((n + 1) as int).drop_first() =~= t.take(n as int));
    }
}

/// The scan is determined by the position of the first terminating byte.
pub proof fn lemma_varint_scan_of_terminated(s: Seq<u8>, n: nat, fuel: nat)
    requires
        1 <= n <= fuel,
        n <= s.len(),
        s[n - 1] < 128,
        forall|i: int| 0 <= i < n - 1 ==> s[i] >= 128,
    ensures
        varint_scan(s, fuel) == Some((varint_value(s.take(n as int)), n)),
    decreases n,
{
    if n == 1 {
        assert(s.take(1) =~= seq![s[0]]);
    } else {
        let t = s.drop_first();
        assert forall|i: int| 0 <= i < (n - 1) - 1 implies t[i] >= 128 by {
            assert(t[i] == s[i + 1]);
        }
        lemma_varint_scan_of_terminated(t, (n - 1) as nat, (fuel - 1) as nat);
        assert(s.take(n as int).drop_first() =~= t.take(n - 1));
    }
}

/// The scan fails when no terminating byte is found within reach.
pub proof fn lemma_varint_scan_unterminated(s: Seq<u8>, fuel: nat)
    requires
        forall|i: int| 0 <= i < fuel && i < s.len() ==> s[i] >= 128,
    ensures
        varint_scan(s, fuel) is None,
    decreases fuel,
{
    if fuel > 0 && s.len() > 0 {
        let t = s.drop_first();
        assert forall|i: int| 0 <= i < fuel - 1 && i < t.len() implies t[i] >= 128 by {
            assert(t[i] == s[i + 1]);
        }
        lemma_varint_scan_unterminated(t, (fuel - 1) as nat);
    }
}

/// Appends the varint encoding of `v`.
pub fn put_varint(out: &mut Vec<u8>, v: u64)
    ensures
        final(out)@ == old(out)@ + varint_bytes(v as nat),
{
    let mut x = v;
    while x >= 128
        invariant
            out@ + varint_bytes(x as nat) == old(out)@ + varint_bytes(v as nat),
        decreases x,
    {
        let b: u8 = ((x % 128) + 128) as u8;
        let ghost before = out@;
        out.push(b);
        assert(varint_bytes(x as nat) == seq![b] + varint_bytes((x / 128) as nat));
        assert(out@ + varint_bytes((x / 128) as nat) =~= before + varint_bytes(x as nat));
        x = x / 128;
    }
    let ghost before = out@;
    out.push(x as u8);
    assert(out@ =~= before + varint_bytes(x as nat));
}

/// Reads the varint that starts at `pos`: its value and the position after it.
pub fn read_varint(buf: &[u8], pos: usize) -> (res: Option<(u64, usize)>)
    requires
        pos <= buf@.len(),
    ensures
        match parse_varint(buf@.skip(pos as int)) {
            Some((v, n)) => pos + n <= buf@.len() && res == Some((v, (pos + n) as usize)),
            None => res is None,
        },
        res matches Some((_, p)) ==> pos < p <= buf@.len(),
{
    let ghost s = buf@.skip(pos as int);
    let len = buf.len();
    let mut i: usize = 0;
    while pos + i < len && i < 10 && buf[pos + i] >= 128
        invariant
            pos <= len == buf@.len(),
            i <= 10,
            pos + i <= len,
            s == buf@.skip(pos as int),
            forall|k: int| 0 <= k < i ==> s[k] >= 128,
        decreases 10 - i,
    {
        i = i + 1;
    }
    if pos + i >= len || i >= 10 {
        proof {
            lemma_varint_scan_unterminated(s, 10);
        }
        return None;
    }
    let n: usize = i + 1;
    proof {
        lemma_varint_scan_of_terminated(s, n as nat, 10);
        lemma_parse_varint_len(s);
    }
    // Fold the segment from its last byte back to its first.
    let mut v: u128 = 0;
    let mut j: usize = n;
    proof {
        lemma_pow128_ten();
        assert(s.take(n as int).subrange(n as int, n as int) =~= Seq::<u8>::empty());
    }
    while j > 0
        invariant
            pos + n <= len == buf@.len(),
            1 <= n <= 10,
            j <= n,
            s == buf@.skip(pos as int),
            v as nat == varint_value(s.take(n as int).subrange(j as int, n as int)),
            v < pow128((n - j) as nat),
            pow128(10) == 1180591620717411303424nat,
            s[n - 1] < 128,
            forall|k: int| 0 <= k < n - 1 ==> s[k] >= 128,
        decreases j,
    {
        j = j - 1;
        let b = buf[pos + j];
        let ghost seg = s.take(n as int);
        let ghost sub = seg.subrange(j as int, n as int);
        assert(b == s[j as int]);
        assert(sub.drop_first() =~= seg.subrange(j + 1, n as int));
        proof {
            assert(pow128((n - j) as nat) == 128 * pow128((n - j - 1) as nat));
            lemma_pow128_mono((n - j) as nat, 10);
        }
        if j + 1 == n {
            assert(sub =~= seq![b]);
            v = b as u128;
        } else {
            v = v * 128 + (b % 128) as u128;
        }
    }
    assert(s.take(n as int).subrange(0, n as int) =~= s.take(n as int));
    if v > u64::MAX as u128 {
        return None;
    }
    Some((v as u64, pos + n))
}

/// A varint takes at least one byte and no more than the input holds.
pub proof fn lemma_parse_varint_len(s: Seq<u8>)
    ensures
        parse_varint(s) matches Some((_, n)) ==> 1 <= n <= s.len() && n <= 10,
{
    if varint_scan(s, 10) is Some {
        lemma_varint_scan_shape(s, 10);
    }
}

/// A field takes at least one byte and no more than the input holds.
pub proof fn lemma_parse_field_len(s: Seq<u8>)
    ensures
        parse_field(s) matches Some((_, n)) ==> 1 <= n <= s.len(),
{
    lemma_parse_varint_len(s);
    if let Some((key, kl)) = parse_varint(s) {
        lemma_parse_varint_len(s.skip(kl as int));
    }
}

pub proof fn lemma_pow128_mono(a: nat, b: nat)
    requires
        a <= b,
    ensures
        pow128(a) <= pow128(b),
    decreases b,
{
    if a < b {
        lemma_pow128_mono(a, (b - 1) as nat);
    }
}

// ------------------------------------------------------------------
// Fields
// ------------------------------------------------------------------

/// Largest field number protobuf accepts.
pub const MAX_FIELD_NUMBER: u32 = 0x1fff_ffff;

/// The payload of one field, by wire type.
pub enum SpecWire {
    Varint(u64),
    Fixed64(Seq<u8>),
    Len(Seq<u8>),
    /// A group: the bytes after its start key, through its end key.
    Group(Seq<u8>),
    Fixed32(Seq<u8>),
}

/// One field as it stands on the wire.
pub struct SpecField {
    pub number: u32,
    pub value: SpecWire,
}

pub open spec fn wire_type(w: SpecWire) -> nat {
    match w {
        SpecWire::Varint(_) => 0,
        SpecWire::Fixed64(_) => 1,
        SpecWire::Len(_) => 2,
        SpecWire::Group(_) => 3,
        SpecWire::Fixed32(_) => 5,
    }
}

/// A field that can be written: a field number in range and payload sizes
/// that match the wire type. Groups are only ever read, never written.
pub open spec fn field_wf(f: SpecField) -> bool {
    &&& 1 <= f.number <= MAX_FIELD_NUMBER
    &&& match f.value {
        SpecWire::Varint(_) => true,
        SpecWire::Fixed64(b) => b.len() == 8,
        SpecWire::Len(b) => b.len() <= u64::MAX,
        SpecWire::Group(_) => false,
        SpecWire::Fixed32(b) => b.len() == 4,
    }
}

pub open spec fn key_value(f: SpecField) -> nat {
    f.number as nat * 8 + wire_type(f.value)
}

/// The bytes of one field: its key, then its payload.
pub open spec fn field_bytes(f: SpecField) -> Seq<u8> {
    let key = varint_bytes(key_value(f));
    match f.value {
        SpecWire::Varint(v) => key + varint_bytes(v as nat),
        SpecWire::Fixed64(b) => key + b,
        SpecWire::Len(b) => key + varint_bytes(b.len()) + b,
        SpecWire::Group(b) => key + b,
        SpecWire::Fixed32(b) => key + b,
    }
}

/// The bytes of a field list, in order.
#[verifier::opaque]
pub open spec fn encode_fields(fs: Seq<SpecField>) -> Seq<u8>
    decreases fs.len(),
{
    if fs.len() == 0 {
        Seq::empty()
    } else {
        field_bytes(fs[0]) + encode_fields(fs.drop_first())
    }
}

#[verifier::opaque]
pub open spec fn fields_wf(fs: Seq<SpecField>) -> bool {
    forall|i: int| 0 <= i < fs.len() ==> field_wf(#[trigger] fs[i])
}

/// How deep decoding may nest before it gives up.
pub const RECURSION_LIMIT: u64 = 100;

/// The byte count of a payload of wire type `wt` other than a group, at the
/// front of `s`.
pub open spec fn plain_len(s: Seq<u8>, wt: nat) -> Option<nat> {
    if wt == 0 {
        match parse_varint(s) {
            Some((_, n)) => Some(n),
            None => None,
        }
    } else if wt == 1 {
        if s.len() >= 8 {
            Some(8)
        } else {
            None
        }
    } else if wt == 2 {
        match parse_varint(s) {
            Some((len, ll)) => if len <= s.len() - ll {
                Some((ll + len) as nat)
            } else {
                None
            },
            None => None,
        }
    } else if wt == 5 {
        if s.len() >= 4 {
            Some(4)
        } else {
            None
        }
    } else {
        None
    }
}

/// The byte count of the rest of a group numbered `number`, at the front of
/// `s`: its fields, skipped whatever they hold, then its end key. A field
/// inside takes one level of `depth`; an end key with another number, a
/// field past the depth or a field that cannot be read ends it in failure.
#[verifier::opaque]
pub open spec fn group_len(s: Seq<u8>, number: nat, depth: nat) -> Option<nat>
    decreases s.len(),
{
    match parse_varint(s) {
        None => None,
        Some((key, kl)) => {
            let rest = s.skip(kl as int);
            if !(0 < kl <= s.len()) || key > u32::MAX || key / 8 == 0 || key % 8 > 5 {
                None
            } else if key % 8 == 4 {
                if key / 8 == number {
                    Some(kl)
                } else {
                    None
                }
            } else if depth == 0 {
                None
            } else {
                let skipped = if key % 8 == 3 {
                    group_len(rest, (key / 8) as nat, (depth - 1) as nat)
                } else {
                    plain_len(rest, (key % 8) as nat)
                };
                match skipped {
                    Some(n) => if n <= rest.len() {
                        match group_len(rest.skip(n as int), number, depth) {
                            Some(m) => Some(kl + n + m),
                            None => None,
                        }
                    } else {
                        None
                    },
                    None => None,
                }
            }
        },
    }
}

/// One field at the front of `s` and the number of bytes it takes. A group
/// is read to its end key, with groups inside it nested at most as deep as
/// the recursion limit allows, counted from the group itself. A lone end
/// key, unknown wire types, field number 0, keys beyond
/// 32 bits and payloads that run past the end are refused.
pub open spec fn parse_field(s: Seq<u8>) -> Option<(SpecField, nat)> {
    match parse_varint(s) {
        None => None,
        Some((key, kl)) => {
            let number = key / 8;
            let wt = key % 8;
            let rest = s.skip(kl as int);
            if key > u32::MAX || number == 0 {
                None
            } else if wt == 0 {
                match parse_varint(rest) {
                    Some((v, vl)) => Some(
                        (SpecField { number: number as u32, value: SpecWire::Varint(v) }, kl + vl),
                    ),
                    None => None,
                }
            } else if wt == 1 {
                if rest.len() >= 8 {
                    Some(
                        (
                            SpecField {
                                number: number as u32,
                                value: SpecWire::Fixed64(rest.take(8)),
                            },
                            kl + 8,
                        ),
                    )
                } else {
                    None
                }
            } else if wt == 2 {
                match parse_varint(rest) {
                    Some((len, ll)) => if len <= rest.len() - ll {
                        Some(
                            (
                                SpecField {
                                    number: number as u32,
                                    value: SpecWire::Len(
                                        rest.subrange(ll as int, ll + len),
                                    ),
                                },
                                (kl + ll + len) as nat,
                            ),
                        )
                    } else {
                        None
                    },
                    None => None,
                }
            } else if wt == 5 {
                if rest.len() >= 4 {
                    Some(
                        (
                            SpecField {
                                number: number as u32,
                                value: SpecWire::Fixed32(rest.take(4)),
                            },
                            kl + 4,
                        ),
                    )
                } else {
                    None
                }
            } else if wt == 3 {
                match group_len(rest, number as nat, (RECURSION_LIMIT - 1) as nat) {
                    Some(n) => if n <= rest.len() {
                        Some(
                            (
                                SpecField {
                                    number: number as u32,
                                    value: SpecWire::Group(rest.take(n as int)),
                                },
                                kl + n,
                            ),
                        )
                    } else {
                        None
                    },
                    None => None,
                }
            } else {
                None
            }
        },
    }
}

pub proof fn lemma_key_fits(f: SpecField)
    requires
        field_wf(f),
    ensures
        key_value(f) <= u32::MAX,
        key_value(f) / 8 == f.number,
        key_value(f) % 8 == wire_type(f.value),
{
}

/// Parsing the bytes of a well-formed field gives the field back.
pub proof fn lemma_parse_field_bytes(f: SpecField, rest: Seq<u8>)
    requires
        field_wf(f),
    ensures
        parse_field(field_bytes(f) + rest) == Some((f, field_bytes(f).len())),
{
    lemma_key_fits(f);
    let key = key_value(f);
    let kb = varint_bytes(key);
    let s = field_bytes(f) + rest;
    let payload = s.skip(kb.len() as int);
    assert(s =~= kb + payload);
    lemma_parse_varint_encode(key as u64, payload);
    assert(parse_varint(s) == Some((key as u64, kb.len())));
    match f.value {
        SpecWire::Varint(v) => {
            let vb = varint_bytes(v as nat);
            assert(payload =~= vb + rest);
            lemma_parse_varint_encode(v, rest);
        },
        SpecWire::Fixed64(b) => {
            assert(payload =~= b + rest);
            assert(payload.take(8) =~= b);
        },
        SpecWire::Len(b) => {
            let lb = varint_bytes(b.len());
            assert(payload =~= lb + (b + rest));
            lemma_parse_varint_encode(b.len() as u64, b + rest);
            assert(payload.subrange(lb.len() as int, (lb.len() + b.len()) as int) =~= b);
        },
        SpecWire::Fixed32(b) => {
            assert(payload =~= b + rest);
            assert(payload.take(4) =~= b);
        },
        SpecWire::Group(_) => {},
    }
}

pub proof fn lemma_encode_fields_append(a: Seq<SpecField>, b: Seq<SpecField>)
    ensures
        encode_fields(a + b) == encode_fields(a) + encode_fields(b),
    decreases a.len(),
{
    reveal(encode_fields);
    if a.len() == 0 {
        assert(a + b =~= b);
        assert(encode_fields(a) + encode_fields(b) =~= encode_fields(b));
    } else {
        assert((a + b).drop_first() =~= a.drop_first() + b);
        lemma_encode_fields_append(a.drop_first(), b);
        assert(encode_fields(a + b) =~= field_bytes(a[0]) + encode_fields(a.drop_first() + b));
        assert(encode_fields(a) + encode_fields(b) =~= field_bytes(a[0]) + (encode_fields(
            a.drop_first(),
        ) + encode_fields(b)));
    }
}

// ------------------------------------------------------------------
// Messages as folds over their fields
// ------------------------------------------------------------------

/// A message value in the specification: what one more field does to it.
/// `None` is a decoding error (a known field with the wrong wire type or an
/// invalid payload); unknown fields leave the message unchanged.
pub trait Message: Sized {
    spec fn merge(self, f: SpecField) -> Option<Self>;
}

/// Merge a list of fields into `m`, left to right.
#[verifier::opaque]
pub open spec fn merge_fields<M: Message>(fs: Seq<SpecField>, m: M) -> Option<M>
    decreases fs.len(),
{
    if fs.len() == 0 {
        Some(m)
    } else {
        match m.merge(fs[0]) {
            Some(m2) => merge_fields(fs.drop_first(), m2),
            None => None,
        }
    }
}

/// Decode `s` into `m`: parse fields from the front and merge each in turn.
#[verifier::opaque]
pub open spec fn decode_into<M: Message>(s: Seq<u8>, m: M) -> Option<M>
    decreases s.len(),
{
    if s.len() == 0 {
        Some(m)
    } else {
        match parse_field(s) {
            Some((f, n)) => if 0 < n <= s.len() {
                match m.merge(f) {
                    Some(m2) => decode_into(s.skip(n as int), m2),
                    None => None,
                }
            } else {
                None
            },
            None => None,
        }
    }
}

pub proof fn lemma_field_bytes_nonempty(f: SpecField)
    ensures
        field_bytes(f).len() >= 1,
{
    assert(varint_bytes(key_value(f)).len() >= 1) by {
        reveal_with_fuel(varint_bytes, 1);
    }
}

/// Decoding the bytes of a well-formed field list merges exactly those fields.
pub proof fn lemma_decode_encode_fields<M: Message>(fs: Seq<SpecField>, m: M)
    requires
        fields_wf(fs),
    ensures
        decode_into(encode_fields(fs), m) == merge_fields(fs, m),
    decreases fs.len(),
{
    reveal(decode_into);
    reveal(merge_fields);
    reveal(encode_fields);
    reveal(fields_wf);
    if fs.len() > 0 {
        let f = fs[0];
        let rest = encode_fields(fs.drop_first());
        lemma_parse_field_bytes(f, rest);
        lemma_field_bytes_nonempty(f);
        let s = encode_fields(fs);
        assert(s == field_bytes(f) + rest);
        assert(s.skip(field_bytes(f).len() as int) =~= rest);
        assert(fields_wf(fs.drop_first())) by {
            assert forall|i: int| 0 <= i < fs.drop_first().len() implies field_wf(
                #[trigger] fs.drop_first()[i],
            ) by {
                assert(fs.drop_first()[i] == fs[i + 1]);
            }
        }
        match m.merge(f) {
            Some(m2) => {
                lemma_decode_encode_fields(fs.drop_first(), m2);
            },
            None => {},
        }
    }
}

/// Merging two lists is merging the first, then the second.
pub proof fn lemma_merge_fields_append<M: Message>(a: Seq<SpecField>, b: Seq<SpecField>, m: M)
    ensures
        merge_fields(a + b, m) == match merge_fields(a, m) {
            Some(x) => merge_fields(b, x),
            None => None,
        },
    decreases a.len(),
{
    reveal(merge_fields);
    if a.len() == 0 {
        assert(a + b =~= b);
    } else {
        assert((a + b).drop_first() =~= a.drop_first() + b);
        assert((a + b)[0] == a[0]);
        match m.merge(a[0]) {
            Some(m2) => lemma_merge_fields_append(a.drop_first(), b, m2),
            None => {},
        }
    }
}

/// Two merges in a row are one merge of the joined lists.
pub proof fn lemma_chain<M: Message>(p: Seq<SpecField>, s: Seq<SpecField>, x0: M, xp: M, xc: M)
    requires
        merge_fields(p, x0) == Some(xp),
        merge_fields(s, xp) == Some(xc),
        fields_wf(p),
        fields_wf(s),
    ensures
        merge_fields(p + s, x0) == Some(xc),
        fields_wf(p + s),
{
    lemma_merge_fields_append(p, s, x0);
    lemma_fields_wf_append(p, s);
}

pub proof fn lemma_fields_wf_append(a: Seq<SpecField>, b: Seq<SpecField>)
    requires
        fields_wf(a),
        fields_wf(b),
    ensures
        fields_wf(a + b),
{
    reveal(fields_wf);
    assert forall|i: int| 0 <= i < (a + b).len() implies field_wf(#[trigger] (a + b)[i]) by {
        if i < a.len() {
            assert((a + b)[i] == a[i]);
        } else {
            assert((a + b)[i] == b[i - a.len()]);
        }
    }
}

// ------------------------------------------------------------------
// Executable reading and writing
// ------------------------------------------------------------------

/// A field read from a buffer: payloads are kept as positions into it.
pub enum RawValue {
    Varint(u64),
    Fixed64(usize),
    Len(usize, usize),
    Group(usize, usize),
    Fixed32(usize),
}

pub struct RawField {
    pub number: u32,
    pub value: RawValue,
}

impl RawField {
    /// The payload positions lie inside a buffer of `len` bytes.
    pub open spec fn within(self, len: nat) -> bool {
        match self.value {
            RawValue::Varint(_) => true,
            RawValue::Fixed64(p) => p + 8 <= len,
            RawValue::Len(a, b) => a <= b <= len,
            RawValue::Group(a, b) => a <= b <= len,
            RawValue::Fixed32(p) => p + 4 <= len,
        }
    }

    pub open spec fn spec(self, buf: Seq<u8>) -> SpecField {
        SpecField {
            number: self.number,
            value: match self.value {
                RawValue::Varint(v) => SpecWire::Varint(v),
                RawValue::Fixed64(p) => SpecWire::Fixed64(buf.subrange(p as int, p + 8)),
                RawValue::Len(a, b) => SpecWire::Len(buf.subrange(a as int, b as int)),
                RawValue::Group(a, b) => SpecWire::Group(buf.subrange(a as int, b as int)),
                RawValue::Fixed32(p) => SpecWire::Fixed32(buf.subrange(p as int, p + 4)),
            },
        }
    }
}

/// Reads past a payload of wire type `wt`, other than a group, that starts
/// at `pos`; the position after it.
pub fn skip_plain(buf: &[u8], pos: usize, wt: u64) -> (res: Option<usize>)
    requires
        pos <= buf@.len(),
    ensures
        match plain_len(buf@.skip(pos as int), wt as nat) {
            Some(n) => pos + n <= buf@.len() && res == Some((pos + n) as usize),
            None => res is None,
        },
{
    let ghost s = buf@.skip(pos as int);
    proof {
        lemma_parse_varint_len(s);
    }
    if wt == 0 {
        match read_varint(buf, pos) {
            Some((_, p)) => Some(p),
            None => None,
        }
    } else if wt == 1 {
        if buf.len() - pos >= 8 {
            Some(pos + 8)
        } else {
            None
        }
    } else if wt == 2 {
        match read_varint(buf, pos) {
            Some((len, p)) => if len <= (buf.len() - p) as u64 {
                Some(p + len as usize)
            } else {
                None
            },
            None => None,
        }
    } else if wt == 5 {
        if buf.len() - pos >= 4 {
            Some(pos + 4)
        } else {
            None
        }
    } else {
        None
    }
}

/// Reads past the rest of a group numbered `number` that starts at `pos`,
/// through its end key; the position after it.
pub fn skip_group(buf: &[u8], pos: usize, number: u64, depth: u64) -> (res: Option<usize>)
    requires
        pos <= buf@.len(),
    ensures
        match group_len(buf@.skip(pos as int), number as nat, depth as nat) {
            Some(n) => pos + n <= buf@.len() && res == Some((pos + n) as usize),
            None => res is None,
        },
    decreases depth, 1nat,
{
    let ghost whole = group_len(buf@.skip(pos as int), number as nat, depth as nat);
    let mut at: usize = pos;
    while at < buf.len()
        invariant
            pos <= at <= buf@.len(),
            whole == group_len(buf@.skip(pos as int), number as nat, depth as nat),
            whole == match group_len(buf@.skip(at as int), number as nat, depth as nat) {
                Some(m) => Some((at - pos + m) as nat),
                None => None,
            },
        decreases buf@.len() - at,
    {
        let ghost s = buf@.skip(at as int);
        proof {
            lemma_parse_varint_len(s);
        }
        let (key, p1) = match read_varint(buf, at) {
            Some(r) => r,
            None => {
                proof {
                    lemma_group_len_step(s, number as nat, depth as nat);
                }
                return None;
            },
        };
        assert(parse_varint(s) matches Some((k0, n0)) && k0 == key && p1 == at + n0);
        assert(parse_varint(s) == Some((key, (p1 - at) as nat)));
        proof {
            lemma_group_len_step(s, number as nat, depth as nat);
        }
        assert(s.skip((p1 - at) as int) =~= buf@.skip(p1 as int));
        if key > 0xffff_ffffu64 || key / 8 == 0 || key % 8 > 5 {
            return None;
        }
        if key % 8 == 4 {
            if key / 8 == number {
                return Some(p1);
            } else {
                return None;
            }
        }
        if depth == 0 {
            return None;
        }
        let q = match skip_inner(buf, p1, key, depth) {
            Some(e) => e,
            None => return None,
        };
        assert(p1 <= q <= buf@.len());
        assert(buf@.skip(p1 as int).skip((q - p1) as int) =~= buf@.skip(q as int));
        at = q;
    }
    proof {
        assert(buf@.skip(at as int) =~= Seq::<u8>::empty());
        assert(varint_scan(Seq::<u8>::empty(), 10) is None);
        lemma_group_len_step(buf@.skip(at as int), number as nat, depth as nat);
    }
    None
}

/// Reads past the payload of a field with key `key` inside a group at
/// depth `depth`.
pub fn skip_inner(buf: &[u8], pos: usize, key: u64, depth: u64) -> (res: Option<usize>)
    requires
        pos <= buf@.len(),
        depth > 0,
    ensures
        match (if key % 8 == 3 {
            group_len(buf@.skip(pos as int), (key / 8) as nat, (depth - 1) as nat)
        } else {
            plain_len(buf@.skip(pos as int), (key % 8) as nat)
        }) {
            Some(n) => pos + n <= buf@.len() && res == Some((pos + n) as usize),
            None => res is None,
        },
    decreases depth, 0nat,
{
    if key % 8 == 3 {
        skip_group(buf, pos, key / 8, depth - 1)
    } else {
        skip_plain(buf, pos, key % 8)
    }
}

/// One step of `group_len`: the key at the front, then either the end of
/// the group or one field's payload and the rest.
pub proof fn lemma_group_len_step(s: Seq<u8>, number: nat, depth: nat)
    ensures
        match parse_varint(s) {
            None => group_len(s, number, depth) is None,
            Some((key, kl)) => if !(0 < kl <= s.len()) || key > u32::MAX || key / 8 == 0 || key
                % 8 > 5 {
                group_len(s, number, depth) is None
            } else if key % 8 == 4 {
                group_len(s, number, depth) == if key / 8 == number {
                    Some(kl)
                } else {
                    None
                }
            } else if depth == 0 {
                group_len(s, number, depth) is None
            } else {
                group_len(s, number, depth) == match (if key % 8 == 3 {
                    group_len(s.skip(kl as int), (key / 8) as nat, (depth - 1) as nat)
                } else {
                    plain_len(s.skip(kl as int), (key % 8) as nat)
                }) {
                    Some(n) => if n <= s.len() - kl {
                        match group_len(s.skip(kl as int).skip(n as int), number, depth) {
                            Some(m) => Some(kl + n + m),
                            None => None,
                        }
                    } else {
                        None
                    },
                    None => None,
                }
            },
        },
{
    reveal(group_len);
}

/// Reads the field that starts at `pos`.
pub fn read_field(buf: &[u8], pos: usize) -> (res: Option<(RawField, usize)>)
    requires
        pos <= buf@.len(),
    ensures
        match parse_field(buf@.skip(pos as int)) {
            Some((f, n)) => res matches Some((rf, next)) && rf.spec(buf@) == f && rf.within(
                buf@.len(),
            ) && next == pos + n && pos < next <= buf@.len(),
            None => res is None,
        },
{
    let ghost s = buf@.skip(pos as int);
    let _len = buf.len();
    proof {
        lemma_parse_field_len(s);
        lemma_parse_varint_len(s);
    }
    let (key, p1) = match read_varint(buf, pos) {
        Some(r) => r,
        None => return None,
    };
    let number_wide: u64 = key / 8;
    let wt: u64 = key % 8;
    if key > 0xffff_ffffu64 || number_wide == 0 {
        return None;
    }
    let number = number_wide as u32;
    let ghost kl = (p1 - pos) as nat;
    assert(parse_varint(s) matches Some((k0, n0)) && k0 == key && p1 == pos + n0);
    assert(parse_varint(s) == Some((key, kl)));
    assert(s.skip(kl as int) =~= buf@.skip(p1 as int));
    assert(parse_varint(s.skip(kl as int)) == parse_varint(buf@.skip(p1 as int)));
    proof {
        lemma_parse_varint_len(buf@.skip(p1 as int));
    }
    if wt == 0 {
        match read_varint(buf, p1) {
            Some((v, p2)) => Some((RawField { number, value: RawValue::Varint(v) }, p2)),
            None => None,
        }
    } else if wt == 1 {
        if buf.len() - p1 >= 8 {
            assert(buf@.skip(p1 as int).take(8) =~= buf@.subrange(p1 as int, p1 + 8));
            Some((RawField { number, value: RawValue::Fixed64(p1) }, p1 + 8))
        } else {
            None
        }
    } else if wt == 2 {
        match read_varint(buf, p1) {
            Some((len, p2)) => {
                if len <= (buf.len() - p2) as u64 {
                    let end = p2 + len as usize;
                    assert(buf@.skip(p1 as int).subrange((p2 - p1) as int, (p2 - p1) + len)
                        =~= buf@.subrange(p2 as int, end as int));
                    Some((RawField { number, value: RawValue::Len(p2, end) }, end))
                } else {
                    None
                }
            },
            None => None,
        }
    } else if wt == 5 {
        if buf.len() - p1 >= 4 {
            assert(buf@.skip(p1 as int).take(4) =~= buf@.subrange(p1 as int, p1 + 4));
            Some((RawField { number, value: RawValue::Fixed32(p1) }, p1 + 4))
        } else {
            None
        }
    } else if wt == 3 {
        match skip_group(buf, p1, number_wide, RECURSION_LIMIT - 1) {
            Some(end) => {
                assert(buf@.skip(p1 as int).take((end - p1) as int) =~= buf@.subrange(
                    p1 as int,
                    end as int,
                ));
                Some((RawField { number, value: RawValue::Group(p1, end) }, end))
            },
            None => None,
        }
    } else {
        None
    }
}

/// Appends a varint field.
pub fn put_varint_field(out: &mut Vec<u8>, number: u32, v: u64)
    requires
        1 <= number <= MAX_FIELD_NUMBER,
    ensures
        final(out)@ == old(out)@ + field_bytes(
            SpecField { number, value: SpecWire::Varint(v) },
        ),
{
    let ghost f = SpecField { number, value: SpecWire::Varint(v) };
    put_varint(out, (number as u64) * 8);
    put_varint(out, v);
    assert(final(out)@ =~= old(out)@ + field_bytes(f));
}

/// Appends a length-delimited field holding `payload`.
pub fn put_len_field(out: &mut Vec<u8>, number: u32, payload: &[u8])
    requires
        1 <= number <= MAX_FIELD_NUMBER,
    ensures
        final(out)@ == old(out)@ + field_bytes(
            SpecField { number, value: SpecWire::Len(payload@) },
        ),
{
    let ghost f = SpecField { number, value: SpecWire::Len(payload@) };
    put_varint(out, (number as u64) * 8 + 2);
    put_varint(out, payload.len() as u64);
    let ghost before = out@;
    let mut i: usize = 0;
    while i < payload.len()
        invariant
            i <= payload@.len(),
            out@ == before + payload@.take(i as int),
        decreases payload@.len() - i,
    {
        out.push(payload[i]);
        assert(payload@.take((i + 1) as int) =~= payload@.take(i as int).push(payload@[i as int]));
        i = i + 1;
    }
    assert(payload@.take(payload@.len() as int) =~= payload@);
    assert(final(out)@ =~= old(out)@ + field_bytes(f));
}

/// An executable message type and the specification value it stands for.
pub trait WireMessage: Sized {
    type Spec: Message;

    spec fn spec_of(&self) -> Self::Spec;

    /// The message with every field at its default.
    spec fn spec_default() -> Self::Spec;

    fn default_value() -> (r: Self)
        ensures
            r.spec_of() == Self::spec_default(),
    ;

    /// Merges one field read from `buf`; `false` on a decoding error.
    fn merge_raw(&mut self, buf: &[u8], f: &RawField) -> (ok: bool)
        requires
            f.within(buf@.len()),
        ensures
            ok == (old(self).spec_of().merge(f.spec(buf@)) is Some),
            ok ==> final(self).spec_of() == old(self).spec_of().merge(f.spec(buf@))->0,
    ;
}

/// Decodes a whole buffer as one message.
pub fn decode_message<M: WireMessage>(buf: &[u8]) -> (res: Option<M>)
    ensures
        match decode_into(buf@, M::spec_default()) {
            Some(m) => res is Some && res->0.spec_of() == m,
            None => res is None,
        },
{
    decode_message_into(buf, M::default_value())
}

/// Decodes a whole buffer, merging its fields into `msg`.
pub fn decode_message_into<M: WireMessage>(buf: &[u8], init: M) -> (res: Option<M>)
    ensures
        match decode_into(buf@, init.spec_of()) {
            Some(m) => res is Some && res->0.spec_of() == m,
            None => res is None,
        },
{
    reveal(decode_into);
    let ghost start = init.spec_of();
    let mut msg = init;
    let mut pos: usize = 0;
    assert(buf@.skip(0) =~= buf@);
    while pos < buf.len()
        invariant
            pos <= buf@.len(),
            start == init.spec_of(),
            decode_into(buf@, start) == decode_into(buf@.skip(pos as int), msg.spec_of()),
        decreases buf@.len() - pos,
    {
        let ghost s = buf@.skip(pos as int);
        proof {
            reveal(decode_into);
        }
        let (f, next) = match read_field(buf, pos) {
            Some(r) => r,
            None => return None,
        };
        if !msg.merge_raw(buf, &f) {
            return None;
        }
        assert(s.skip((next - pos) as int) =~= buf@.skip(next as int));
        pos = next;
    }
    assert(buf@.skip(pos as int) =~= Seq::<u8>::empty());
    Some(msg)
}

} // verus!
