//! The value codec.
//!
//! Values crossing the boundary are serialized into a flat, self-describing
//! byte encoding: every value starts with a one-byte tag, fixed-width scalars
//! are big-endian, strings are UTF-8 bytes behind a four-byte length,
//! optionals are a one-byte presence flag followed by the payload, and
//! sequences are a four-byte count followed by that many encoded elements.
//!
//! [`lower`] produces the encoding of a value; [`lift`] reconstructs a value
//! and fails — with a [`ConversionError`], never a panic — on any buffer that
//! is not exactly the encoding of one value.

use vstd::prelude::*;
use vstd::slice::slice_index_get;
use vstd::slice::slice_subrange;
use vstd::slice::slice_to_vec;
use vstd::utf8::decode_utf8;
use vstd::utf8::decode_utf8_encode_utf8;
use vstd::utf8::encode_utf8;
use vstd::utf8::encode_utf8_decode_utf8;
use vstd::utf8::encode_utf8_valid_utf8;
use vstd::utf8::valid_utf8;

verus! {

pub const TAG_BOOL: u8 = 1;

pub const TAG_U8: u8 = 2;

pub const TAG_I8: u8 = 3;

pub const TAG_U16: u8 = 4;

pub const TAG_I16: u8 = 5;

pub const TAG_U32: u8 = 6;

pub const TAG_I32: u8 = 7;

pub const TAG_U64: u8 = 8;

pub const TAG_I64: u8 = 9;

pub const TAG_TEXT: u8 = 10;

pub const TAG_OPTIONAL: u8 = 11;

pub const TAG_SEQUENCE: u8 = 12;

/// A value of one of the types the codec supports.
///
/// Scalars, strings, optionals and sequences; composite values are built from
/// sequences. This is the host-side form; the boundary form is the byte
/// encoding described at [`encoding`].
#[derive(Debug, PartialEq)]
pub enum Value {
    Bool(bool),
    U8(u8),
    I8(i8),
    U16(u16),
    I16(i16),
    U32(u32),
    I32(i32),
    U64(u64),
    I64(i64),
    Text(String),
    Optional(Option<Box<Value>>),
    Sequence(Vec<Value>),
}

/// The mathematical model of a [`Value`]: strings as character sequences,
/// sequences as `Seq`. Contracts and the encoding function speak of this
/// model.
pub enum ValueModel {
    Bool(bool),
    U8(u8),
    I8(i8),
    U16(u16),
    I16(i16),
    U32(u32),
    I32(i32),
    U64(u64),
    I64(i64),
    Text(Seq<char>),
    Optional(Option<Box<ValueModel>>),
    Sequence(Seq<ValueModel>),
}

/// The model that a [`Value`] denotes.
pub open spec fn value_model(v: Value) -> ValueModel
    decreases v,
{
    match v {
        Value::Bool(b) => ValueModel::Bool(b),
        Value::U8(x) => ValueModel::U8(x),
        Value::I8(x) => ValueModel::I8(x),
        Value::U16(x) => ValueModel::U16(x),
        Value::I16(x) => ValueModel::I16(x),
        Value::U32(x) => ValueModel::U32(x),
        Value::I32(x) => ValueModel::I32(x),
        Value::U64(x) => ValueModel::U64(x),
        Value::I64(x) => ValueModel::I64(x),
        Value::Text(s) => ValueModel::Text(s@),
        Value::Optional(None) => ValueModel::Optional(None),
        Value::Optional(Some(b)) => ValueModel::Optional(Some(Box::new(value_model(*b)))),
        Value::Sequence(vs) => ValueModel::Sequence(value_models(vs@)),
    }
}

/// The models of a sequence of values, element by element.
pub open spec fn value_models(vs: Seq<Value>) -> Seq<ValueModel>
    decreases vs,
{
    if vs.len() == 0 {
        Seq::empty()
    } else {
        seq![value_model(vs[0])] + value_models(vs.drop_first())
    }
}

/// Big-endian bytes of a 16-bit scalar.
pub open spec fn be16(x: u16) -> Seq<u8> {
    seq![(x >> 8) as u8, x as u8]
}

/// Big-endian bytes of a 32-bit scalar.
pub open spec fn be32(x: u32) -> Seq<u8> {
    seq![(x >> 24) as u8, (x >> 16) as u8, (x >> 8) as u8, x as u8]
}

/// Big-endian bytes of a 64-bit scalar.
pub open spec fn be64(x: u64) -> Seq<u8> {
    seq![
        (x >> 56) as u8,
        (x >> 48) as u8,
        (x >> 40) as u8,
        (x >> 32) as u8,
        (x >> 24) as u8,
        (x >> 16) as u8,
        (x >> 8) as u8,
        x as u8,
    ]
}

/// Whether a value fits the wire format's length fields: every string's
/// UTF-8 form and every sequence's element count must fit in 32 bits.
pub open spec fn encodable(m: ValueModel) -> bool
    decreases m,
{
    match m {
        ValueModel::Text(s) => encode_utf8(s).len() <= u32::MAX,
        ValueModel::Optional(Some(b)) => encodable(*b),
        ValueModel::Sequence(ms) => ms.len() <= u32::MAX && encodable_list(ms),
        _ => true,
    }
}

/// Whether every element of a sequence is encodable.
pub open spec fn encodable_list(ms: Seq<ValueModel>) -> bool
    decreases ms,
{
    if ms.len() == 0 {
        true
    } else {
        encodable(ms[0]) && encodable_list(ms.drop_first())
    }
}

/// The byte encoding of a value: a tag byte, then the payload as the module
/// documentation describes.
pub open spec fn encoding(m: ValueModel) -> Seq<u8>
    decreases m,
{
    match m {
        ValueModel::Bool(b) => seq![TAG_BOOL, if b { 1u8 } else { 0u8 }],
        ValueModel::U8(x) => seq![TAG_U8, x],
        ValueModel::I8(x) => seq![TAG_I8, x as u8],
        ValueModel::U16(x) => seq![TAG_U16] + be16(x),
        ValueModel::I16(x) => seq![TAG_I16] + be16(x as u16),
        ValueModel::U32(x) => seq![TAG_U32] + be32(x),
        ValueModel::I32(x) => seq![TAG_I32] + be32(x as u32),
        ValueModel::U64(x) => seq![TAG_U64] + be64(x),
        ValueModel::I64(x) => seq![TAG_I64] + be64(x as u64),
        ValueModel::Text(s) => seq![TAG_TEXT] + be32(encode_utf8(s).len() as u32) + encode_utf8(s),
        ValueModel::Optional(None) => seq![TAG_OPTIONAL, 0u8],
        ValueModel::Optional(Some(b)) => seq![TAG_OPTIONAL, 1u8] + encoding(*b),
        ValueModel::Sequence(ms) => seq![TAG_SEQUENCE] + be32(ms.len() as u32) + encoding_list(ms),
    }
}

/// The concatenated encodings of a sequence of values.
pub open spec fn encoding_list(ms: Seq<ValueModel>) -> Seq<u8>
    decreases ms,
{
    if ms.len() == 0 {
        Seq::empty()
    } else {
        encoding(ms[0]) + encoding_list(ms.drop_first())
    }
}

fn push_be16(out: &mut Vec<u8>, x: u16)
    ensures
        final(out)@ == old(out)@ + be16(x),
{
    out.push((x >> 8) as u8);
    out.push(#[verifier::truncate] (x as u8));
    assert(final(out)@ =~= old(out)@ + be16(x));
}

fn push_be32(out: &mut Vec<u8>, x: u32)
    ensures
        final(out)@ == old(out)@ + be32(x),
{
    out.push((x >> 24) as u8);
    out.push(#[verifier::truncate] ((x >> 16) as u8));
    out.push(#[verifier::truncate] ((x >> 8) as u8));
    out.push(#[verifier::truncate] (x as u8));
    assert(final(out)@ =~= old(out)@ + be32(x));
}

fn push_be64(out: &mut Vec<u8>, x: u64)
    ensures
        final(out)@ == old(out)@ + be64(x),
{
    out.push((x >> 56) as u8);
    out.push(#[verifier::truncate] ((x >> 48) as u8));
    out.push(#[verifier::truncate] ((x >> 40) as u8));
    out.push(#[verifier::truncate] ((x >> 32) as u8));
    out.push(#[verifier::truncate] ((x >> 24) as u8));
    out.push(#[verifier::truncate] ((x >> 16) as u8));
    out.push(#[verifier::truncate] ((x >> 8) as u8));
    out.push(#[verifier::truncate] (x as u8));
    assert(final(out)@ =~= old(out)@ + be64(x));
}

fn push_bytes(out: &mut Vec<u8>, bytes: &[u8])
    ensures
        final(out)@ == old(out)@ + bytes@,
{
    let n = bytes.len();
    let mut i: usize = 0;
    while i < n
        invariant
            i <= n,
            n == bytes@.len(),
            out@ == old(out)@ + bytes@.subrange(0, i as int),
        decreases n - i,
    {
        out.push(bytes[i]);
        i = i + 1;
        assert(out@ =~= old(out)@ + bytes@.subrange(0, i as int));
    }
    assert(final(out)@ =~= old(out)@ + bytes@);
}

/// Appends the encoding of `v` to `out`.
fn write_value(v: &Value, out: &mut Vec<u8>)
    requires
        encodable(value_model(*v)),
    ensures
        final(out)@ == old(out)@ + encoding(value_model(*v)),
    decreases *v,
{
    match v {
        Value::Bool(b) => {
            out.push(TAG_BOOL);
            out.push(if *b { 1u8 } else { 0u8 });
            assert(final(out)@ =~= old(out)@ + encoding(value_model(*v)));
        },
        Value::U8(x) => {
            out.push(TAG_U8);
            out.push(*x);
            assert(final(out)@ =~= old(out)@ + encoding(value_model(*v)));
        },
        Value::I8(x) => {
            out.push(TAG_I8);
            out.push(#[verifier::truncate] (*x as u8));
            assert(final(out)@ =~= old(out)@ + encoding(value_model(*v)));
        },
        Value::U16(x) => {
            out.push(TAG_U16);
            push_be16(out, *x);
            assert(final(out)@ =~= old(out)@ + encoding(value_model(*v)));
        },
        Value::I16(x) => {
            out.push(TAG_I16);
            push_be16(out, #[verifier::truncate] (*x as u16));
            assert(final(out)@ =~= old(out)@ + encoding(value_model(*v)));
        },
        Value::U32(x) => {
            out.push(TAG_U32);
            push_be32(out, *x);
            assert(final(out)@ =~= old(out)@ + encoding(value_model(*v)));
        },
        Value::I32(x) => {
            out.push(TAG_I32);
            push_be32(out, #[verifier::truncate] (*x as u32));
            assert(final(out)@ =~= old(out)@ + encoding(value_model(*v)));
        },
        Value::U64(x) => {
            out.push(TAG_U64);
            push_be64(out, *x);
            assert(final(out)@ =~= old(out)@ + encoding(value_model(*v)));
        },
        Value::I64(x) => {
            out.push(TAG_I64);
            push_be64(out, #[verifier::truncate] (*x as u64));
            assert(final(out)@ =~= old(out)@ + encoding(value_model(*v)));
        },
        Value::Text(s) => {
            out.push(TAG_TEXT);
            let bytes = s.as_str().as_bytes();
            push_be32(out, bytes.len() as u32);
            push_bytes(out, bytes);
            assert(final(out)@ =~= old(out)@ + encoding(value_model(*v)));
        },
        Value::Optional(None) => {
            out.push(TAG_OPTIONAL);
            out.push(0u8);
            assert(final(out)@ =~= old(out)@ + encoding(value_model(*v)));
        },
        Value::Optional(Some(inner)) => {
            out.push(TAG_OPTIONAL);
            out.push(1u8);
            write_value(&*inner, out);
            assert(final(out)@ =~= old(out)@ + encoding(value_model(*v)));
        },
        Value::Sequence(vs) => {
            out.push(TAG_SEQUENCE);
            push_be32(out, vs.len() as u32);
            let n = vs.len();
            let mut i: usize = 0;
            assert(value_models(vs@).len() == vs@.len()) by {
                lemma_value_models_len(vs@);
            }
            while i < n
                invariant
                    i <= n,
                    n == vs@.len(),
                    encodable(value_model(*v)),
                    *v == Value::Sequence(*vs),
                    out@ == old(out)@ + seq![TAG_SEQUENCE] + be32(vs@.len() as u32)
                        + encoding_list(value_models(vs@.subrange(0, i as int))),
                decreases n - i,
            {
                assert(encodable(value_model(vs@[i as int]))) by {
                    lemma_value_models_index(vs@, i as int);
                    lemma_encodable_list_index(value_models(vs@), i as int);
                }
                write_value(&vs[i], out);
                i = i + 1;
                assert(out@ =~= old(out)@ + seq![TAG_SEQUENCE] + be32(vs@.len() as u32)
                    + encoding_list(value_models(vs@.subrange(0, i as int)))) by {
                    lemma_encoding_list_snoc(vs@, i as int);
                }
            }
            assert(vs@.subrange(0, n as int) =~= vs@);
            assert(final(out)@ =~= old(out)@ + encoding(value_model(*v)));
        },
    }
}

/// `value_models` keeps the length.
pub proof fn lemma_value_models_len(vs: Seq<Value>)
    ensures
        value_models(vs).len() == vs.len(),
    decreases vs,
{
    if vs.len() > 0 {
        lemma_value_models_len(vs.drop_first());
    }
}

/// `value_models` maps element by element.
pub proof fn lemma_value_models_index(vs: Seq<Value>, i: int)
    requires
        0 <= i < vs.len(),
    ensures
        value_models(vs).len() == vs.len(),
        value_models(vs)[i] == value_model(vs[i]),
    decreases vs,
{
    lemma_value_models_len(vs);
    if i > 0 {
        lemma_value_models_index(vs.drop_first(), i - 1);
    }
}

/// Every element of an encodable list is encodable.
pub proof fn lemma_encodable_list_index(ms: Seq<ValueModel>, i: int)
    requires
        0 <= i < ms.len(),
        encodable_list(ms),
    ensures
        encodable(ms[i]),
    decreases ms,
{
    if i > 0 {
        lemma_encodable_list_index(ms.drop_first(), i - 1);
    }
}

/// Extending the encoded prefix by one element appends that element's
/// encoding.
proof fn lemma_encoding_list_snoc(vs: Seq<Value>, i: int)
    requires
        0 < i <= vs.len(),
    ensures
        encoding_list(value_models(vs.subrange(0, i))) == encoding_list(
            value_models(vs.subrange(0, i - 1)),
        ) + encoding(value_model(vs[i - 1])),
    decreases i,
{
    lemma_value_models_snoc_seq(vs.subrange(0, i));
    assert(vs.subrange(0, i).drop_last() =~= vs.subrange(0, i - 1));
    assert(vs.subrange(0, i).last() == vs[i - 1]);
}

/// `value_models` of a non-empty sequence splits at the last element.
proof fn lemma_value_models_snoc_seq(vs: Seq<Value>)
    requires
        vs.len() > 0,
    ensures
        value_models(vs) == value_models(vs.drop_last()) + seq![value_model(vs.last())],
        encoding_list(value_models(vs)) == encoding_list(value_models(vs.drop_last())) + encoding(
            value_model(vs.last()),
        ),
    decreases vs,
{
    if vs.len() == 1 {
        let vm = value_models(vs);
        assert(vs.drop_last() =~= Seq::<Value>::empty());
        assert(vm.len() == 1) by {
            lemma_value_models_len(vs);
        }
        assert(vm[0] == value_model(vs[0])) by {
            lemma_value_models_index(vs, 0);
        }
        assert(vs.last() == vs[0]);
        assert(vm =~= value_models(vs.drop_last()) + seq![value_model(vs.last())]);
        assert(encoding_list(vm) == encoding(vm[0]) + encoding_list(vm.drop_first()));
        assert(vm.drop_first() =~= Seq::<ValueModel>::empty());
        assert(encoding_list(vm.drop_first()) == Seq::<u8>::empty());
        assert(encoding_list(value_models(vs.drop_last())) == Seq::<u8>::empty());
        assert(encoding_list(vm) =~= encoding_list(value_models(vs.drop_last())) + encoding(
            value_model(vs.last()),
        ));
    } else {
        lemma_value_models_snoc_seq(vs.drop_first());
        assert(vs.drop_first().drop_last() =~= vs.drop_last().drop_first());
        assert(vs.drop_first().last() == vs.last());
        assert(value_models(vs) =~= value_models(vs.drop_last()) + seq![value_model(vs.last())])
            by {
            assert(value_models(vs) == seq![value_model(vs[0])] + value_models(vs.drop_first()));
            assert(value_models(vs.drop_last()) == seq![value_model(vs.drop_last()[0])]
                + value_models(vs.drop_last().drop_first()));
            assert(vs.drop_last()[0] == vs[0]);
        }
        let head = encoding(value_model(vs[0]));
        assert(encoding_list(value_models(vs)) == head + encoding_list(
            value_models(vs.drop_first()),
        )) by {
            assert(value_models(vs)[0] == value_model(vs[0])) by {
                lemma_value_models_index(vs, 0);
            }
            assert(value_models(vs).drop_first() =~= value_models(vs.drop_first())) by {
                assert(value_models(vs) == seq![value_model(vs[0])] + value_models(
                    vs.drop_first(),
                ));
            }
        }
        assert(encoding_list(value_models(vs.drop_last())) == head + encoding_list(
            value_models(vs.drop_last().drop_first()),
        )) by {
            assert(value_models(vs.drop_last())[0] == value_model(vs[0])) by {
                lemma_value_models_index(vs.drop_last(), 0);
            }
            assert(value_models(vs.drop_last()).drop_first() =~= value_models(
                vs.drop_last().drop_first(),
            )) by {
                assert(value_models(vs.drop_last()) == seq![value_model(vs.drop_last()[0])]
                    + value_models(vs.drop_last().drop_first()));
            }
        }
        assert(encoding_list(value_models(vs)) =~= encoding_list(value_models(vs.drop_last()))
            + encoding(value_model(vs.last())));
    }
}

/// Serializes a value into a fresh buffer.
///
/// The result is exactly the self-describing encoding of `v`.
pub fn lower(v: &Value) -> (r: Vec<u8>)
    requires
        encodable(value_model(*v)),
    ensures
        r@ == encoding(value_model(*v)),
{
    let mut out: Vec<u8> = Vec::new();
    write_value(v, &mut out);
    out
}


/// The numeric value of two big-endian bytes.
pub open spec fn be16_val(s: Seq<u8>) -> u16
    recommends
        s.len() == 2,
{
    (((s[0] as u16) << 8) | (s[1] as u16)) as u16
}

/// The numeric value of four big-endian bytes.
pub open spec fn be32_val(s: Seq<u8>) -> u32
    recommends
        s.len() == 4,
{
    (((s[0] as u32) << 24) | ((s[1] as u32) << 16) | ((s[2] as u32) << 8) | (s[3] as u32)) as u32
}

/// The numeric value of eight big-endian bytes.
pub open spec fn be64_val(s: Seq<u8>) -> u64
    recommends
        s.len() == 8,
{
    (((s[0] as u64) << 56) | ((s[1] as u64) << 48) | ((s[2] as u64) << 40) | ((s[3] as u64) << 32)
        | ((s[4] as u64) << 24) | ((s[5] as u64) << 16) | ((s[6] as u64) << 8) | (
    s[7] as u64)) as u64
}

/// Reading back big-endian bytes gives the scalar they came from.
pub proof fn lemma_be16_round(x: u16)
    ensures
        be16_val(be16(x)) == x,
{
    assert((((((x >> 8) as u8) as u16) << 8) | ((x as u8) as u16)) == x) by (bit_vector);
}

/// Reading back big-endian bytes gives the scalar they came from.
pub proof fn lemma_be32_round(x: u32)
    ensures
        be32_val(be32(x)) == x,
{
    assert((((((x >> 24) as u8) as u32) << 24) | ((((x >> 16) as u8) as u32) << 16) | ((((x
        >> 8) as u8) as u32) << 8) | ((x as u8) as u32)) == x) by (bit_vector);
}

/// Reading back big-endian bytes gives the scalar they came from.
pub proof fn lemma_be64_round(x: u64)
    ensures
        be64_val(be64(x)) == x,
{
    assert((((((x >> 56) as u8) as u64) << 56) | ((((x >> 48) as u8) as u64) << 48) | ((((x
        >> 40) as u8) as u64) << 40) | ((((x >> 32) as u8) as u64) << 32) | ((((x
        >> 24) as u8) as u64) << 24) | ((((x >> 16) as u8) as u64) << 16) | ((((x
        >> 8) as u8) as u64) << 8) | ((x as u8) as u64)) == x) by (bit_vector);
}

/// Why a buffer could not be lifted back into a value.
///
/// Every variant is a protocol violation: the buffer was not produced by
/// [`lower`], or was corrupted or truncated on the way.
#[derive(Debug, Clone, Copy, PartialEq, Eq, Structural)]
pub enum ConversionError {
    /// The buffer ends before the content its tags and lengths declare.
    Truncated,
    /// A tag byte that names no supported type.
    InvalidTag,
    /// A boolean byte other than 0 or 1.
    InvalidBool,
    /// A presence flag other than 0 or 1.
    InvalidFlag,
    /// A string payload that is not valid UTF-8.
    InvalidUtf8,
    /// A well-formed value followed by junk.
    TrailingBytes,
}


/// The specification-level decoder: reads one value off the front of
/// `bytes` and says how many bytes it took, or why it failed.
///
/// [`read_value`] behaves exactly like this function.
pub open spec fn spec_read(bytes: Seq<u8>) -> Result<(ValueModel, int), ConversionError>
    decreases bytes.len(), 0nat,
{
    if bytes.len() < 1 {
        Err(ConversionError::Truncated)
    } else {
        let tag = bytes[0];
        if tag == TAG_BOOL {
            if bytes.len() < 2 {
                Err(ConversionError::Truncated)
            } else if bytes[1] == 0 {
                Ok((ValueModel::Bool(false), 2))
            } else if bytes[1] == 1 {
                Ok((ValueModel::Bool(true), 2))
            } else {
                Err(ConversionError::InvalidBool)
            }
        } else if tag == TAG_U8 {
            if bytes.len() < 2 {
                Err(ConversionError::Truncated)
            } else {
                Ok((ValueModel::U8(bytes[1]), 2))
            }
        } else if tag == TAG_I8 {
            if bytes.len() < 2 {
                Err(ConversionError::Truncated)
            } else {
                Ok((ValueModel::I8(bytes[1] as i8), 2))
            }
        } else if tag == TAG_U16 {
            if bytes.len() < 3 {
                Err(ConversionError::Truncated)
            } else {
                Ok((ValueModel::U16(be16_val(bytes.subrange(1, 3))), 3))
            }
        } else if tag == TAG_I16 {
            if bytes.len() < 3 {
                Err(ConversionError::Truncated)
            } else {
                Ok((ValueModel::I16(be16_val(bytes.subrange(1, 3)) as i16), 3))
            }
        } else if tag == TAG_U32 {
            if bytes.len() < 5 {
                Err(ConversionError::Truncated)
            } else {
                Ok((ValueModel::U32(be32_val(bytes.subrange(1, 5))), 5))
            }
        } else if tag == TAG_I32 {
            if bytes.len() < 5 {
                Err(ConversionError::Truncated)
            } else {
                Ok((ValueModel::I32(be32_val(bytes.subrange(1, 5)) as i32), 5))
            }
        } else if tag == TAG_U64 {
            if bytes.len() < 9 {
                Err(ConversionError::Truncated)
            } else {
                Ok((ValueModel::U64(be64_val(bytes.subrange(1, 9))), 9))
            }
        } else if tag == TAG_I64 {
            if bytes.len() < 9 {
                Err(ConversionError::Truncated)
            } else {
                Ok((ValueModel::I64(be64_val(bytes.subrange(1, 9)) as i64), 9))
            }
        } else if tag == TAG_TEXT {
            if bytes.len() < 5 {
                Err(ConversionError::Truncated)
            } else {
                let n = be32_val(bytes.subrange(1, 5)) as int;
                if bytes.len() < 5 + n {
                    Err(ConversionError::Truncated)
                } else {
                    let payload = bytes.subrange(5, 5 + n);
                    if valid_utf8(payload) {
                        Ok((ValueModel::Text(decode_utf8(payload)), 5 + n))
                    } else {
                        Err(ConversionError::InvalidUtf8)
                    }
                }
            }
        } else if tag == TAG_OPTIONAL {
            if bytes.len() < 2 {
                Err(ConversionError::Truncated)
            } else if bytes[1] == 0 {
                Ok((ValueModel::Optional(None), 2))
            } else if bytes[1] == 1 {
                match spec_read(bytes.skip(2)) {
                    Ok((m, used)) => Ok((ValueModel::Optional(Some(Box::new(m))), 2 + used)),
                    Err(e) => Err(e),
                }
            } else {
                Err(ConversionError::InvalidFlag)
            }
        } else if tag == TAG_SEQUENCE {
            if bytes.len() < 5 {
                Err(ConversionError::Truncated)
            } else {
                let n = be32_val(bytes.subrange(1, 5));
                match spec_read_list(bytes.skip(5), n as nat) {
                    Ok((ms, used)) => Ok((ValueModel::Sequence(ms), 5 + used)),
                    Err(e) => Err(e),
                }
            }
        } else {
            Err(ConversionError::InvalidTag)
        }
    }
}

/// The specification-level decoder for `n` consecutive values.
///
/// The guard on `used` only keeps the recursion well-founded; the decoder
/// itself never reports more bytes than it was given.
pub open spec fn spec_read_list(bytes: Seq<u8>, n: nat) -> Result<
    (Seq<ValueModel>, int),
    ConversionError,
>
    decreases bytes.len(), n + 1,
{
    if n == 0 {
        Ok((Seq::empty(), 0))
    } else {
        match spec_read(bytes) {
            Ok((m, used)) => if 1 <= used <= bytes.len() {
                match spec_read_list(bytes.skip(used), (n - 1) as nat) {
                    Ok((ms, used2)) => Ok((seq![m] + ms, used + used2)),
                    Err(e) => Err(e),
                }
            } else {
                Err(ConversionError::Truncated)
            },
            Err(e) => Err(e),
        }
    }
}

/// The outcome of lifting a whole buffer: the decoded value, or the first
/// error, with [`ConversionError::TrailingBytes`] if bytes remain after one
/// well-formed value.
pub open spec fn spec_lift(bytes: Seq<u8>) -> Result<ValueModel, ConversionError> {
    match spec_read(bytes) {
        Ok((m, used)) => if used == bytes.len() {
            Ok(m)
        } else {
            Err(ConversionError::TrailingBytes)
        },
        Err(e) => Err(e),
    }
}

/// Relies on `String::from_utf8`: it succeeds exactly on valid UTF-8 input
/// and decodes those bytes, as `vstd`'s UTF-8 model states it.
#[verifier::external_body]
fn string_from_utf8(bytes: Vec<u8>) -> (r: Option<String>)
    ensures
        r is Some <==> valid_utf8(bytes@),
        r is Some ==> r.unwrap()@ == decode_utf8(bytes@),
{
    String::from_utf8(bytes).ok()
}

fn get_be16(bytes: &[u8], pos: usize) -> (x: u16)
    requires
        pos + 2 <= bytes@.len(),
    ensures
        x == be16_val(bytes@.subrange(pos as int, pos as int + 2)),
{
    let len = bytes.len();
    let b0 = *slice_index_get(bytes, pos);
    let b1 = *slice_index_get(bytes, pos + 1);
    let x = ((b0 as u16) << 8) | (b1 as u16);
    proof {
        let s = bytes@.subrange(pos as int, pos as int + 2);
        assert(s[0] == b0 && s[1] == b1);
    }
    x
}

fn get_be32(bytes: &[u8], pos: usize) -> (x: u32)
    requires
        pos + 4 <= bytes@.len(),
    ensures
        x == be32_val(bytes@.subrange(pos as int, pos as int + 4)),
{
    let len = bytes.len();
    let b0 = *slice_index_get(bytes, pos);
    let b1 = *slice_index_get(bytes, pos + 1);
    let b2 = *slice_index_get(bytes, pos + 2);
    let b3 = *slice_index_get(bytes, pos + 3);
    let x = ((b0 as u32) << 24) | ((b1 as u32) << 16) | ((b2 as u32) << 8) | (b3 as u32);
    proof {
        let s = bytes@.subrange(pos as int, pos as int + 4);
        assert(s[0] == b0 && s[1] == b1 && s[2] == b2 && s[3] == b3);
    }
    x
}

fn get_be64(bytes: &[u8], pos: usize) -> (x: u64)
    requires
        pos + 8 <= bytes@.len(),
    ensures
        x == be64_val(bytes@.subrange(pos as int, pos as int + 8)),
{
    let len = bytes.len();
    let b0 = *slice_index_get(bytes, pos);
    let b1 = *slice_index_get(bytes, pos + 1);
    let b2 = *slice_index_get(bytes, pos + 2);
    let b3 = *slice_index_get(bytes, pos + 3);
    let b4 = *slice_index_get(bytes, pos + 4);
    let b5 = *slice_index_get(bytes, pos + 5);
    let b6 = *slice_index_get(bytes, pos + 6);
    let b7 = *slice_index_get(bytes, pos + 7);
    let x = ((b0 as u64) << 56) | ((b1 as u64) << 48) | ((b2 as u64) << 40) | ((b3 as u64) << 32)
        | ((b4 as u64) << 24) | ((b5 as u64) << 16) | ((b6 as u64) << 8) | (b7 as u64);
    proof {
        let s = bytes@.subrange(pos as int, pos as int + 8);
        assert(s[0] == b0 && s[1] == b1 && s[2] == b2 && s[3] == b3);
        assert(s[4] == b4 && s[5] == b5 && s[6] == b6 && s[7] == b7);
    }
    x
}


/// Reads one value starting at `pos`, mirroring [`spec_read`] on the
/// remaining bytes.
fn read_value(bytes: &[u8], pos: usize) -> (r: Result<(Value, usize), ConversionError>)
    requires
        pos <= bytes@.len(),
    ensures
        ({
            let sr = spec_read(bytes@.skip(pos as int));
            match r {
                Ok((v, end)) => pos < end <= bytes@.len() && sr == Ok::<
                    (ValueModel, int),
                    ConversionError,
                >((value_model(v), end - pos)),
                Err(e) => sr == Err::<(ValueModel, int), ConversionError>(e),
            }
        }),
    decreases bytes@.len() - pos, 0int,
{
    let ghost rest = bytes@.skip(pos as int);
    let len = bytes.len();
    if len - pos < 1 {
        return Err(ConversionError::Truncated);
    }
    let tag = *slice_index_get(bytes, pos);
    assert(rest[0] == tag);
    if tag == TAG_BOOL {
        if len - pos < 2 {
            return Err(ConversionError::Truncated);
        }
        let b = *slice_index_get(bytes, pos + 1);
        assert(rest[1] == b);
        if b == 0 {
            Ok((Value::Bool(false), pos + 2))
        } else if b == 1 {
            Ok((Value::Bool(true), pos + 2))
        } else {
            Err(ConversionError::InvalidBool)
        }
    } else if tag == TAG_U8 {
        if len - pos < 2 {
            return Err(ConversionError::Truncated);
        }
        let b = *slice_index_get(bytes, pos + 1);
        assert(rest[1] == b);
        Ok((Value::U8(b), pos + 2))
    } else if tag == TAG_I8 {
        if len - pos < 2 {
            return Err(ConversionError::Truncated);
        }
        let b = *slice_index_get(bytes, pos + 1);
        assert(rest[1] == b);
        Ok((Value::I8(#[verifier::truncate] (b as i8)), pos + 2))
    } else if tag == TAG_U16 {
        if len - pos < 3 {
            return Err(ConversionError::Truncated);
        }
        let x = get_be16(bytes, pos + 1);
        assert(bytes@.subrange(pos as int + 1, pos as int + 3) =~= rest.subrange(1, 3));
        Ok((Value::U16(x), pos + 3))
    } else if tag == TAG_I16 {
        if len - pos < 3 {
            return Err(ConversionError::Truncated);
        }
        let x = get_be16(bytes, pos + 1);
        assert(bytes@.subrange(pos as int + 1, pos as int + 3) =~= rest.subrange(1, 3));
        Ok((Value::I16(#[verifier::truncate] (x as i16)), pos + 3))
    } else if tag == TAG_U32 {
        if len - pos < 5 {
            return Err(ConversionError::Truncated);
        }
        let x = get_be32(bytes, pos + 1);
        assert(bytes@.subrange(pos as int + 1, pos as int + 5) =~= rest.subrange(1, 5));
        Ok((Value::U32(x), pos + 5))
    } else if tag == TAG_I32 {
        if len - pos < 5 {
            return Err(ConversionError::Truncated);
        }
        let x = get_be32(bytes, pos + 1);
        assert(bytes@.subrange(pos as int + 1, pos as int + 5) =~= rest.subrange(1, 5));
        Ok((Value::I32(#[verifier::truncate] (x as i32)), pos + 5))
    } else if tag == TAG_U64 {
        if len - pos < 9 {
            return Err(ConversionError::Truncated);
        }
        let x = get_be64(bytes, pos + 1);
        assert(bytes@.subrange(pos as int + 1, pos as int + 9) =~= rest.subrange(1, 9));
        Ok((Value::U64(x), pos + 9))
    } else if tag == TAG_I64 {
        if len - pos < 9 {
            return Err(ConversionError::Truncated);
        }
        let x = get_be64(bytes, pos + 1);
        assert(bytes@.subrange(pos as int + 1, pos as int + 9) =~= rest.subrange(1, 9));
        Ok((Value::I64(#[verifier::truncate] (x as i64)), pos + 9))
    } else if tag == TAG_TEXT {
        if len - pos < 5 {
            return Err(ConversionError::Truncated);
        }
        let n32 = get_be32(bytes, pos + 1);
        assert(bytes@.subrange(pos as int + 1, pos as int + 5) =~= rest.subrange(1, 5));
        let n = n32 as usize;
        if n > len - pos - 5 {
            return Err(ConversionError::Truncated);
        }
        let payload = slice_subrange(bytes, pos + 5, pos + 5 + n);
        assert(payload@ =~= rest.subrange(5, 5 + n as int));
        match string_from_utf8(slice_to_vec(payload)) {
            Some(s) => Ok((Value::Text(s), pos + 5 + n)),
            None => Err(ConversionError::InvalidUtf8),
        }
    } else if tag == TAG_OPTIONAL {
        if len - pos < 2 {
            return Err(ConversionError::Truncated);
        }
        let b = *slice_index_get(bytes, pos + 1);
        assert(rest[1] == b);
        if b == 0 {
            Ok((Value::Optional(None), pos + 2))
        } else if b == 1 {
            assert(bytes@.skip(pos as int + 2) =~= rest.skip(2));
            match read_value(bytes, pos + 2) {
                Ok((v, end)) => Ok((Value::Optional(Some(Box::new(v))), end)),
                Err(e) => Err(e),
            }
        } else {
            Err(ConversionError::InvalidFlag)
        }
    } else if tag == TAG_SEQUENCE {
        if len - pos < 5 {
            return Err(ConversionError::Truncated);
        }
        let n32 = get_be32(bytes, pos + 1);
        assert(bytes@.subrange(pos as int + 1, pos as int + 5) =~= rest.subrange(1, 5));
        let mut elems: Vec<Value> = Vec::new();
        assert(bytes@.skip(pos as int + 5) =~= rest.skip(5));
        match read_list(bytes, pos + 5, n32, &mut elems) {
            Ok(end) => {
                proof {
                    assert(elems@.skip(0) =~= elems@);
                }
                Ok((Value::Sequence(elems), end))
            },
            Err(e) => Err(e),
        }
    } else {
        Err(ConversionError::InvalidTag)
    }
}

/// Reads `n` consecutive values starting at `pos` and appends them to
/// `out`, mirroring [`spec_read_list`].
fn read_list(bytes: &[u8], pos: usize, n: u32, out: &mut Vec<Value>) -> (r: Result<
    usize,
    ConversionError,
>)
    requires
        pos <= bytes@.len(),
    ensures
        ({
            let sr = spec_read_list(bytes@.skip(pos as int), n as nat);
            match r {
                Ok(end) => pos <= end <= bytes@.len() && sr == Ok::<
                    (Seq<ValueModel>, int),
                    ConversionError,
                >((value_models(final(out)@.skip(old(out)@.len() as int)), end - pos))
                    && final(out)@.len() >= old(out)@.len()
                    && final(out)@.subrange(0, old(out)@.len() as int) == old(out)@,
                Err(e) => sr == Err::<(Seq<ValueModel>, int), ConversionError>(e),
            }
        }),
    decreases bytes@.len() - pos, n + 1,
{
    let ghost rest = bytes@.skip(pos as int);
    if n == 0 {
        assert(final(out)@.skip(old(out)@.len() as int) =~= Seq::<Value>::empty());
        assert(final(out)@.subrange(0, old(out)@.len() as int) =~= old(out)@);
        return Ok(pos);
    }
    match read_value(bytes, pos) {
        Ok((v, end)) => {
            out.push(v);
            let ghost midv = out@;
            assert(midv =~= old(out)@ + seq![v]);
            assert(bytes@.skip(end as int) =~= rest.skip(end - pos));
            match read_list(bytes, end, n - 1, out) {
                Ok(end2) => {
                    proof {
                        let oldlen = old(out)@.len() as int;
                        let added = final(out)@.skip(oldlen);
                        let tail = final(out)@.skip(oldlen + 1);
                        assert(final(out)@.subrange(0, midv.len() as int) == midv);
                        assert(final(out)@[oldlen] == midv[oldlen]);
                        assert(midv[oldlen] == v);
                        assert(added =~= seq![v] + tail);
                        assert(added.len() > 0);
                        assert(added[0] == v);
                        assert(added.drop_first() =~= tail);
                        assert(value_models(added) == seq![value_model(v)] + value_models(tail));
                        assert(final(out)@.subrange(0, oldlen) =~= old(out)@);
                    }
                    Ok(end2)
                },
                Err(e) => Err(e),
            }
        },
        Err(e) => Err(e),
    }
}

/// Deserializes a buffer back into the value it encodes.
///
/// Succeeds exactly on buffers that are the encoding of one value; a buffer
/// with trailing bytes, a bad tag, a bad flag, a short payload or invalid
/// UTF-8 is rejected with the matching [`ConversionError`].
pub fn lift(bytes: &Vec<u8>) -> (r: Result<Value, ConversionError>)
    ensures
        match r {
            Ok(v) => spec_lift(bytes@) == Ok::<ValueModel, ConversionError>(value_model(v)),
            Err(e) => spec_lift(bytes@) == Err::<ValueModel, ConversionError>(e),
        },
        r matches Ok(v) ==> bytes@ == encoding(value_model(v)) && encodable(value_model(v)),
{
    proof {
        lemma_lift_sound(bytes@);
    }
    let ghost whole = bytes@;
    let slice = bytes.as_slice();
    assert(slice@.skip(0) =~= whole);
    match read_value(slice, 0) {
        Ok((v, end)) => {
            if end == bytes.len() {
                Ok(v)
            } else {
                Err(ConversionError::TrailingBytes)
            }
        },
        Err(e) => Err(e),
    }
}


/// Every encoding is at least two bytes long.
proof fn lemma_encoding_len_ge2(m: ValueModel)
    ensures
        encoding(m).len() >= 2,
{
}

/// Casting an `i8` to `u8` and back gives it back.
proof fn lemma_i8_cast_round(x: i8)
    ensures
        ((x as u8) as i8) == x,
{
    assert(((x as u8) as i8) == x) by (bit_vector);
}

/// Casting an `i16` to `u16` and back gives it back.
proof fn lemma_i16_cast_round(x: i16)
    ensures
        ((x as u16) as i16) == x,
{
    assert(((x as u16) as i16) == x) by (bit_vector);
}

/// Casting an `i32` to `u32` and back gives it back.
proof fn lemma_i32_cast_round(x: i32)
    ensures
        ((x as u32) as i32) == x,
{
    assert(((x as u32) as i32) == x) by (bit_vector);
}

/// Casting an `i64` to `u64` and back gives it back.
proof fn lemma_i64_cast_round(x: i64)
    ensures
        ((x as u64) as i64) == x,
{
    assert(((x as u64) as i64) == x) by (bit_vector);
}

/// The decoder reads back exactly the value whose encoding starts the
/// buffer, and consumes exactly that encoding.
pub proof fn lemma_read_encoding(m: ValueModel, rest: Seq<u8>)
    requires
        encodable(m),
    ensures
        spec_read(encoding(m) + rest) == Ok::<(ValueModel, int), ConversionError>(
            (m, encoding(m).len() as int),
        ),
    decreases m,
{
    let bytes = encoding(m) + rest;
    match m {
        ValueModel::Bool(b) => {
            assert(bytes[0] == TAG_BOOL);
            assert(bytes[1] == if b { 1u8 } else { 0u8 });
        },
        ValueModel::U8(x) => {
            assert(bytes[0] == TAG_U8);
            assert(bytes[1] == x);
        },
        ValueModel::I8(x) => {
            assert(bytes[0] == TAG_I8);
            assert(bytes[1] == x as u8);
            lemma_i8_cast_round(x);
        },
        ValueModel::U16(x) => {
            assert(bytes[0] == TAG_U16);
            assert(bytes.subrange(1, 3) =~= be16(x));
            lemma_be16_round(x);
        },
        ValueModel::I16(x) => {
            assert(bytes[0] == TAG_I16);
            assert(bytes.subrange(1, 3) =~= be16(x as u16));
            lemma_be16_round(x as u16);
            lemma_i16_cast_round(x);
        },
        ValueModel::U32(x) => {
            assert(bytes[0] == TAG_U32);
            assert(bytes.subrange(1, 5) =~= be32(x));
            lemma_be32_round(x);
        },
        ValueModel::I32(x) => {
            assert(bytes[0] == TAG_I32);
            assert(bytes.subrange(1, 5) =~= be32(x as u32));
            lemma_be32_round(x as u32);
            lemma_i32_cast_round(x);
        },
        ValueModel::U64(x) => {
            assert(bytes[0] == TAG_U64);
            assert(bytes.subrange(1, 9) =~= be64(x));
            lemma_be64_round(x);
        },
        ValueModel::I64(x) => {
            assert(bytes[0] == TAG_I64);
            assert(bytes.subrange(1, 9) =~= be64(x as u64));
            lemma_be64_round(x as u64);
            lemma_i64_cast_round(x);
        },
        ValueModel::Text(s) => {
            let payload = encode_utf8(s);
            let n = payload.len() as int;
            assert(bytes[0] == TAG_TEXT);
            assert(bytes.subrange(1, 5) =~= be32(n as u32));
            lemma_be32_round(n as u32);
            assert(be32_val(bytes.subrange(1, 5)) as int == n);
            assert(bytes.len() == 5 + n + rest.len());
            assert(bytes.subrange(5, 5 + n) =~= payload);
            encode_utf8_valid_utf8(s);
            encode_utf8_decode_utf8(s);
            assert(decode_utf8(bytes.subrange(5, 5 + n)) == s);
        },
        ValueModel::Optional(None) => {
            assert(bytes[0] == TAG_OPTIONAL);
            assert(bytes[1] == 0u8);
        },
        ValueModel::Optional(Some(inner)) => {
            assert(bytes[0] == TAG_OPTIONAL);
            assert(bytes[1] == 1u8);
            lemma_read_encoding(*inner, rest);
            assert(bytes.skip(2) =~= encoding(*inner) + rest);
            assert(spec_read(bytes.skip(2)) == Ok::<(ValueModel, int), ConversionError>(
                (*inner, encoding(*inner).len() as int),
            ));
        },
        ValueModel::Sequence(ms) => {
            assert(bytes[0] == TAG_SEQUENCE);
            assert(bytes.subrange(1, 5) =~= be32(ms.len() as u32));
            lemma_be32_round(ms.len() as u32);
            assert(be32_val(bytes.subrange(1, 5)) as nat == ms.len());
            assert(bytes.skip(5) =~= encoding_list(ms) + rest);
            lemma_read_list_encoding(ms, rest);
        },
    }
}

/// The list decoder reads back exactly the values whose concatenated
/// encodings start the buffer.
pub proof fn lemma_read_list_encoding(ms: Seq<ValueModel>, rest: Seq<u8>)
    requires
        encodable_list(ms),
    ensures
        spec_read_list(encoding_list(ms) + rest, ms.len()) == Ok::<
            (Seq<ValueModel>, int),
            ConversionError,
        >((ms, encoding_list(ms).len() as int)),
    decreases ms,
{
    let bytes = encoding_list(ms) + rest;
    if ms.len() == 0 {
        assert(ms =~= Seq::<ValueModel>::empty());
        assert(encoding_list(ms).len() == 0);
    } else {
        let head = ms[0];
        let tail = ms.drop_first();
        lemma_read_encoding(head, encoding_list(tail) + rest);
        assert(bytes =~= encoding(head) + (encoding_list(tail) + rest));
        let used = encoding(head).len() as int;
        assert(spec_read(bytes) == Ok::<(ValueModel, int), ConversionError>((head, used)));
        lemma_encoding_len_ge2(head);
        assert(1 <= used <= bytes.len());
        assert(bytes.skip(used) =~= encoding_list(tail) + rest);
        lemma_read_list_encoding(tail, rest);
        assert(spec_read_list(bytes.skip(used), tail.len()) == Ok::<
            (Seq<ValueModel>, int),
            ConversionError,
        >((tail, encoding_list(tail).len() as int)));
        assert(seq![head] + tail =~= ms);
        assert(encoding_list(ms).len() == used + encoding_list(tail).len());
    }
}

/// The codec round trip: lifting the encoding of any encodable value gives
/// back exactly that value, consuming the whole buffer — no trailing bytes
/// remain.
pub proof fn lemma_lift_lower_round_trip(m: ValueModel)
    requires
        encodable(m),
    ensures
        spec_lift(encoding(m)) == Ok::<ValueModel, ConversionError>(m),
{
    lemma_read_encoding(m, Seq::empty());
    assert(encoding(m) + Seq::<u8>::empty() =~= encoding(m));
}


/// Writing back the two bytes a 16-bit read came from gives those bytes.
proof fn lemma_be16_bytes(b0: u8, b1: u8)
    ensures
        be16(be16_val(seq![b0, b1])) == seq![b0, b1],
{
    assert((((((((b0 as u16) << 8) | (b1 as u16)) as u16) >> 8) as u8) == b0) && (((((
    b0 as u16) << 8) | (b1 as u16)) as u16) as u8) == b1) by (bit_vector);
    assert(be16(be16_val(seq![b0, b1])) =~= seq![b0, b1]);
}

/// Writing back the four bytes a 32-bit read came from gives those bytes.
proof fn lemma_be32_bytes(b0: u8, b1: u8, b2: u8, b3: u8)
    ensures
        be32(be32_val(seq![b0, b1, b2, b3])) == seq![b0, b1, b2, b3],
{
    assert({
        let x = (((b0 as u32) << 24) | ((b1 as u32) << 16) | ((b2 as u32) << 8) | (
        b3 as u32)) as u32;
        ((x >> 24) as u8 == b0) && ((x >> 16) as u8 == b1) && ((x >> 8) as u8 == b2) && (x as u8
            == b3)
    }) by (bit_vector);
    assert(be32(be32_val(seq![b0, b1, b2, b3])) =~= seq![b0, b1, b2, b3]);
}

/// Writing back the eight bytes a 64-bit read came from gives those bytes.
proof fn lemma_be64_bytes(b0: u8, b1: u8, b2: u8, b3: u8, b4: u8, b5: u8, b6: u8, b7: u8)
    ensures
        be64(be64_val(seq![b0, b1, b2, b3, b4, b5, b6, b7])) == seq![b0, b1, b2, b3, b4, b5, b6, b7],
{
    assert({
        let x = (((b0 as u64) << 56) | ((b1 as u64) << 48) | ((b2 as u64) << 40) | ((
        b3 as u64) << 32) | ((b4 as u64) << 24) | ((b5 as u64) << 16) | ((b6 as u64) << 8) | (
        b7 as u64)) as u64;
        ((x >> 56) as u8 == b0) && ((x >> 48) as u8 == b1) && ((x >> 40) as u8 == b2) && ((x
            >> 32) as u8 == b3) && ((x >> 24) as u8 == b4) && ((x >> 16) as u8 == b5) && ((x
            >> 8) as u8 == b6) && (x as u8 == b7)
    }) by (bit_vector);
    assert(be64(be64_val(seq![b0, b1, b2, b3, b4, b5, b6, b7])) =~= seq![
        b0,
        b1,
        b2,
        b3,
        b4,
        b5,
        b6,
        b7,
    ]);
}

/// Casting a `u16` to `i16` and back gives it back.
proof fn lemma_u16_cast_round(x: u16)
    ensures
        ((x as i16) as u16) == x,
{
    assert(((x as i16) as u16) == x) by (bit_vector);
}

/// Casting a `u32` to `i32` and back gives it back.
proof fn lemma_u32_cast_round(x: u32)
    ensures
        ((x as i32) as u32) == x,
{
    assert(((x as i32) as u32) == x) by (bit_vector);
}

/// Casting a `u64` to `i64` and back gives it back.
proof fn lemma_u64_cast_round(x: u64)
    ensures
        ((x as i64) as u64) == x,
{
    assert(((x as i64) as u64) == x) by (bit_vector);
}

/// Casting a `u8` to `i8` and back gives it back.
proof fn lemma_u8_cast_round(x: u8)
    ensures
        ((x as i8) as u8) == x,
{
    assert(((x as i8) as u8) == x) by (bit_vector);
}

/// Whatever the decoder accepts is an encoding: the bytes it consumed are
/// exactly the encoding of the value it returned — so a lifted buffer is
/// never anything but the image of [`lower`].
pub proof fn lemma_read_sound(bytes: Seq<u8>)
    ensures
        spec_read(bytes) matches Ok((m, used)) ==> 1 <= used <= bytes.len() && encodable(m)
            && bytes.take(used) == encoding(m),
    decreases bytes.len(), 0nat,
{
    if spec_read(bytes) is Ok {
        let (m, used) = spec_read(bytes).unwrap();
        let tag = bytes[0];
        if tag == TAG_BOOL {
            assert(bytes.take(used) =~= encoding(m));
        } else if tag == TAG_U8 {
            assert(bytes.take(used) =~= encoding(m));
        } else if tag == TAG_I8 {
            lemma_u8_cast_round(bytes[1]);
            assert(bytes.take(used) =~= encoding(m));
        } else if tag == TAG_U16 {
            let sub = bytes.subrange(1, 3);
            assert(sub =~= seq![bytes[1], bytes[2]]);
            lemma_be16_bytes(bytes[1], bytes[2]);
            assert(bytes.take(used) =~= encoding(m));
        } else if tag == TAG_I16 {
            let sub = bytes.subrange(1, 3);
            assert(sub =~= seq![bytes[1], bytes[2]]);
            lemma_be16_bytes(bytes[1], bytes[2]);
            lemma_u16_cast_round(be16_val(sub));
            assert(bytes.take(used) =~= encoding(m));
        } else if tag == TAG_U32 {
            let sub = bytes.subrange(1, 5);
            assert(sub =~= seq![bytes[1], bytes[2], bytes[3], bytes[4]]);
            lemma_be32_bytes(bytes[1], bytes[2], bytes[3], bytes[4]);
            assert(bytes.take(used) =~= encoding(m));
        } else if tag == TAG_I32 {
            let sub = bytes.subrange(1, 5);
            assert(sub =~= seq![bytes[1], bytes[2], bytes[3], bytes[4]]);
            lemma_be32_bytes(bytes[1], bytes[2], bytes[3], bytes[4]);
            lemma_u32_cast_round(be32_val(sub));
            assert(bytes.take(used) =~= encoding(m));
        } else if tag == TAG_U64 {
            let sub = bytes.subrange(1, 9);
            assert(sub =~= seq![
                bytes[1],
                bytes[2],
                bytes[3],
                bytes[4],
                bytes[5],
                bytes[6],
                bytes[7],
                bytes[8],
            ]);
            lemma_be64_bytes(
                bytes[1],
                bytes[2],
                bytes[3],
                bytes[4],
                bytes[5],
                bytes[6],
                bytes[7],
                bytes[8],
            );
            assert(bytes.take(used) =~= encoding(m));
        } else if tag == TAG_I64 {
            let sub = bytes.subrange(1, 9);
            assert(sub =~= seq![
                bytes[1],
                bytes[2],
                bytes[3],
                bytes[4],
                bytes[5],
                bytes[6],
                bytes[7],
                bytes[8],
            ]);
            lemma_be64_bytes(
                bytes[1],
                bytes[2],
                bytes[3],
                bytes[4],
                bytes[5],
                bytes[6],
                bytes[7],
                bytes[8],
            );
            lemma_u64_cast_round(be64_val(sub));
            assert(bytes.take(used) =~= encoding(m));
        } else if tag == TAG_TEXT {
            let sub = bytes.subrange(1, 5);
            let n = be32_val(sub) as int;
            let payload = bytes.subrange(5, 5 + n);
            decode_utf8_encode_utf8(payload);
            assert(encode_utf8(decode_utf8(payload)) == payload);
            assert(sub =~= seq![bytes[1], bytes[2], bytes[3], bytes[4]]);
            lemma_be32_bytes(bytes[1], bytes[2], bytes[3], bytes[4]);
            assert(payload.len() == n);
            assert(be32(n as u32) == sub);
            assert(bytes.take(used) =~= encoding(m));
        } else if tag == TAG_OPTIONAL {
            if bytes[1] == 0 {
                assert(bytes.take(used) =~= encoding(m));
            } else {
                lemma_read_sound(bytes.skip(2));
                let (inner, inner_used) = spec_read(bytes.skip(2)).unwrap();
                assert(bytes.skip(2).take(inner_used) == encoding(inner));
                assert(bytes.take(used) =~= seq![TAG_OPTIONAL, 1u8] + bytes.skip(2).take(
                    inner_used,
                ));
                assert(encoding(m) == seq![TAG_OPTIONAL, 1u8] + encoding(inner));
            }
        } else if tag == TAG_SEQUENCE {
            let sub = bytes.subrange(1, 5);
            let n = be32_val(sub);
            lemma_read_list_sound(bytes.skip(5), n as nat);
            let (ms, list_used) = spec_read_list(bytes.skip(5), n as nat).unwrap();
            assert(sub =~= seq![bytes[1], bytes[2], bytes[3], bytes[4]]);
            lemma_be32_bytes(bytes[1], bytes[2], bytes[3], bytes[4]);
            assert(ms.len() == n as nat);
            assert(be32(ms.len() as u32) == sub);
            assert(bytes.take(used) =~= seq![TAG_SEQUENCE] + sub + bytes.skip(5).take(list_used));
            assert(encoding(m) == seq![TAG_SEQUENCE] + be32(ms.len() as u32) + encoding_list(ms));
        }
    }
}

/// Whatever the list decoder accepts is a run of encodings: exactly the
/// declared number of values, whose concatenated encodings are the bytes
/// it consumed.
pub proof fn lemma_read_list_sound(bytes: Seq<u8>, n: nat)
    ensures
        spec_read_list(bytes, n) matches Ok((ms, used)) ==> 0 <= used <= bytes.len() && ms.len()
            == n && encodable_list(ms) && bytes.take(used) == encoding_list(ms),
    decreases bytes.len(), n + 1,
{
    if n != 0 && spec_read_list(bytes, n) is Ok {
        let (ms, used) = spec_read_list(bytes, n).unwrap();
        lemma_read_sound(bytes);
        let (head, head_used) = spec_read(bytes).unwrap();
        lemma_read_list_sound(bytes.skip(head_used), (n - 1) as nat);
        let (tail, tail_used) = spec_read_list(bytes.skip(head_used), (n - 1) as nat).unwrap();
        assert(ms == seq![head] + tail);
        assert(ms[0] == head);
        assert(ms.drop_first() =~= tail);
        assert(encoding_list(ms) == encoding(head) + encoding_list(tail));
        assert(bytes.take(used) =~= bytes.take(head_used) + bytes.skip(head_used).take(
            tail_used,
        ));
        assert(bytes.take(used) =~= encoding_list(ms));
    }
}

/// A lifted buffer is exactly the encoding of the value it lifts to: the
/// codec accepts nothing but the image of [`lower`], and rejects every
/// buffer with trailing bytes or inconsistent declared lengths.
pub proof fn lemma_lift_sound(bytes: Seq<u8>)
    ensures
        spec_lift(bytes) matches Ok(m) ==> encodable(m) && bytes == encoding(m),
{
    lemma_read_sound(bytes);
    if spec_lift(bytes) is Ok {
        assert(bytes.take(bytes.len() as int) =~= bytes);
    }
}

} // verus!
