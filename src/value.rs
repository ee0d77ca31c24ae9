//! Structured values and their canonical MessagePack encoding.
use vstd::prelude::*;
use vstd::string::*;
use vstd::utf8::encode_utf8;
use crate::error::MerkleError;

verus! {

/// A structured value: the data carried by a leaf.
///
/// Floating-point numbers are held by their IEEE-754 bit patterns.
#[derive(Debug)]
pub enum Value {
    Nil,
    Boolean(bool),
    /// A signed integer.
    Integer(i64),
    /// An unsigned integer; the same number as an `Integer` encodes the same way.
    UInteger(u64),
    /// A single-precision float, by its bits.
    F32(u32),
    /// A double-precision float, by its bits.
    F64(u64),
    String(String),
    Binary(Vec<u8>),
    Array(Vec<Value>),
    /// String keys with their values, in insertion order.
    Mapping(Vec<(String, Value)>),
}

/// Largest length that a MessagePack header can carry.
pub const MAX_LEN: u64 = 4294967295;

pub open spec fn be16(x: nat) -> Seq<u8> {
    seq![((x / 256) % 256) as u8, (x % 256) as u8]
}

pub open spec fn be32(x: nat) -> Seq<u8> {
    seq![
        ((x / 16777216) % 256) as u8,
        ((x / 65536) % 256) as u8,
        ((x / 256) % 256) as u8,
        (x % 256) as u8,
    ]
}

pub open spec fn be64(x: nat) -> Seq<u8> {
    be32(x / 4294967296) + be32(x % 4294967296)
}

/// The shortest MessagePack form of an integer in `[i64::MIN, u64::MAX]`.
pub open spec fn int_bytes(x: int) -> Seq<u8> {
    if 0 <= x < 128 {
        seq![x as u8]
    } else if 128 <= x < 256 {
        seq![0xccu8, x as u8]
    } else if 256 <= x < 65536 {
        seq![0xcdu8] + be16(x as nat)
    } else if 65536 <= x < 4294967296 {
        seq![0xceu8] + be32(x as nat)
    } else if x >= 4294967296 {
        seq![0xcfu8] + be64(x as nat)
    } else if -32 <= x {
        seq![(256 + x) as u8]
    } else if -128 <= x {
        seq![0xd0u8, (256 + x) as u8]
    } else if -32768 <= x {
        seq![0xd1u8] + be16((65536 + x) as nat)
    } else if -2147483648 <= x {
        seq![0xd2u8] + be32((4294967296 + x) as nat)
    } else {
        seq![0xd3u8] + be64((18446744073709551616 + x) as nat)
    }
}

/// The header of a string of `n` bytes.
pub open spec fn str_header(n: nat) -> Seq<u8> {
    if n < 32 {
        seq![(0xa0 + n) as u8]
    } else if n < 256 {
        seq![0xd9u8, n as u8]
    } else if n < 65536 {
        seq![0xdau8] + be16(n)
    } else {
        seq![0xdbu8] + be32(n)
    }
}

/// The header of a byte string of `n` bytes.
pub open spec fn bin_header(n: nat) -> Seq<u8> {
    if n < 256 {
        seq![0xc4u8, n as u8]
    } else if n < 65536 {
        seq![0xc5u8] + be16(n)
    } else {
        seq![0xc6u8] + be32(n)
    }
}

/// The header of an array of `n` items.
pub open spec fn array_header(n: nat) -> Seq<u8> {
    if n < 16 {
        seq![(0x90 + n) as u8]
    } else if n < 65536 {
        seq![0xdcu8] + be16(n)
    } else {
        seq![0xddu8] + be32(n)
    }
}

/// The header of a map of `n` entries.
pub open spec fn map_header(n: nat) -> Seq<u8> {
    if n < 16 {
        seq![(0x80 + n) as u8]
    } else if n < 65536 {
        seq![0xdeu8] + be16(n)
    } else {
        seq![0xdfu8] + be32(n)
    }
}

/// A string with its header; `None` when it is too long for one.
pub open spec fn str_bytes(s: Seq<char>) -> Option<Seq<u8>> {
    if encode_utf8(s).len() <= MAX_LEN {
        Some(str_header(encode_utf8(s).len()) + encode_utf8(s))
    } else {
        None
    }
}

/// A byte string with its header; `None` when it is too long for one.
pub open spec fn bin_bytes(b: Seq<u8>) -> Option<Seq<u8>> {
    if b.len() <= MAX_LEN {
        Some(bin_header(b.len()) + b)
    } else {
        None
    }
}

/// The canonical encoding of a value; `None` when a string, byte string,
/// array or map in it is longer than a header can state.
pub open spec fn value_bytes(v: Value) -> Option<Seq<u8>>
    decreases v,
{
    match v {
        Value::Nil => Some(seq![0xc0u8]),
        Value::Boolean(b) => Some(seq![if b { 0xc3u8 } else { 0xc2u8 }]),
        Value::Integer(x) => Some(int_bytes(x as int)),
        Value::UInteger(x) => Some(int_bytes(x as int)),
        Value::F32(bits) => Some(seq![0xcau8] + be32(bits as nat)),
        Value::F64(bits) => Some(seq![0xcbu8] + be64(bits as nat)),
        Value::String(s) => str_bytes(s@),
        Value::Binary(b) => bin_bytes(b@),
        Value::Array(items) => {
            if items@.len() <= MAX_LEN {
                match items_bytes(items@) {
                    Some(body) => Some(array_header(items@.len()) + body),
                    None => None,
                }
            } else {
                None
            }
        },
        Value::Mapping(entries) => {
            if entries@.len() <= MAX_LEN {
                match entries_bytes(entries@) {
                    Some(body) => Some(map_header(entries@.len()) + body),
                    None => None,
                }
            } else {
                None
            }
        },
    }
}

/// The encodings of a list of values, one after another.
pub open spec fn items_bytes(s: Seq<Value>) -> Option<Seq<u8>>
    decreases s,
{
    if s.len() == 0 {
        Some(seq![])
    } else {
        match (items_bytes(s.subrange(0, s.len() - 1)), value_bytes(s[s.len() - 1])) {
            (Some(a), Some(b)) => Some(a + b),
            _ => None,
        }
    }
}

/// The encodings of map entries, each key followed by its value.
pub open spec fn entries_bytes(s: Seq<(String, Value)>) -> Option<Seq<u8>>
    decreases s,
{
    if s.len() == 0 {
        Some(seq![])
    } else {
        match (
            entries_bytes(s.subrange(0, s.len() - 1)),
            str_bytes(s[s.len() - 1].0@),
            value_bytes(s[s.len() - 1].1),
        ) {
            (Some(a), Some(k), Some(b)) => Some(a + k + b),
            _ => None,
        }
    }
}

proof fn lemma_items_prefix_fails(s: Seq<Value>, k: int)
    requires
        0 <= k <= s.len(),
        items_bytes(s.subrange(0, k)) is None,
    ensures
        items_bytes(s) is None,
    decreases s.len() - k,
{
    if k < s.len() {
        assert(s.subrange(0, k + 1).subrange(0, k) =~= s.subrange(0, k));
        lemma_items_prefix_fails(s, k + 1);
    } else {
        assert(s.subrange(0, k) =~= s);
    }
}

proof fn lemma_entries_prefix_fails(s: Seq<(String, Value)>, k: int)
    requires
        0 <= k <= s.len(),
        entries_bytes(s.subrange(0, k)) is None,
    ensures
        entries_bytes(s) is None,
    decreases s.len() - k,
{
    if k < s.len() {
        assert(s.subrange(0, k + 1).subrange(0, k) =~= s.subrange(0, k));
        lemma_entries_prefix_fails(s, k + 1);
    } else {
        assert(s.subrange(0, k) =~= s);
    }
}

fn push_be16(out: &mut Vec<u8>, x: u64)
    requires
        x < 65536,
    ensures
        final(out)@ == old(out)@ + be16(x as nat),
{
    out.push((x / 256 % 256) as u8);
    out.push((x % 256) as u8);
    assert(final(out)@ =~= old(out)@ + be16(x as nat));
}

fn push_be32(out: &mut Vec<u8>, x: u64)
    requires
        x < 4294967296,
    ensures
        final(out)@ == old(out)@ + be32(x as nat),
{
    out.push((x / 16777216 % 256) as u8);
    out.push((x / 65536 % 256) as u8);
    out.push((x / 256 % 256) as u8);
    out.push((x % 256) as u8);
    assert(final(out)@ =~= old(out)@ + be32(x as nat));
}

fn push_be64(out: &mut Vec<u8>, x: u64)
    ensures
        final(out)@ == old(out)@ + be64(x as nat),
{
    push_be32(out, x / 4294967296);
    push_be32(out, x % 4294967296);
    assert(final(out)@ =~= old(out)@ + be64(x as nat));
}

/// Appends the bytes of `b` to `out`.
pub fn append_bytes(out: &mut Vec<u8>, b: &Vec<u8>)
    ensures
        final(out)@ == old(out)@ + b@,
{
    let ghost start = out@;
    let mut i: usize = 0;
    while i < b.len()
        invariant
            i <= b@.len(),
            out@ == start + b@.subrange(0, i as int),
        decreases b@.len() - i,
    {
        out.push(b[i]);
        assert(b@.subrange(0, i + 1) =~= b@.subrange(0, i as int).push(b@[i as int]));
        i = i + 1;
    }
    assert(b@.subrange(0, b@.len() as int) =~= b@);
}

fn write_uint(out: &mut Vec<u8>, x: u64)
    ensures
        final(out)@ == old(out)@ + int_bytes(x as int),
{
    if x < 128 {
        out.push(x as u8);
    } else if x < 256 {
        out.push(0xcc);
        out.push(x as u8);
    } else if x < 65536 {
        out.push(0xcd);
        push_be16(out, x);
    } else if x < 4294967296 {
        out.push(0xce);
        push_be32(out, x);
    } else {
        out.push(0xcf);
        push_be64(out, x);
    }
    assert(final(out)@ =~= old(out)@ + int_bytes(x as int));
}

fn write_sint(out: &mut Vec<u8>, x: i64)
    ensures
        final(out)@ == old(out)@ + int_bytes(x as int),
{
    if x >= 0 {
        write_uint(out, x as u64);
    } else if x >= -32 {
        out.push((256 + x) as u8);
    } else if x >= -128 {
        out.push(0xd0);
        out.push((256 + x) as u8);
    } else if x >= -32768 {
        out.push(0xd1);
        push_be16(out, (65536 + x) as u64);
    } else if x >= -2147483648 {
        out.push(0xd2);
        push_be32(out, (4294967296 + x) as u64);
    } else {
        out.push(0xd3);
        let shifted: u64 = ((x + 1) + 9223372036854775807) as u64;
        push_be64(out, shifted + 9223372036854775808u64);
    }
    assert(final(out)@ =~= old(out)@ + int_bytes(x as int));
}

pub(crate) fn write_str(out: &mut Vec<u8>, s: &String) -> (ok: bool)
    ensures
        ok == str_bytes(s@) is Some,
        ok ==> final(out)@ == old(out)@ + str_bytes(s@)->Some_0,
{
    let b = s.as_str().as_bytes_vec();
    let n = b.len() as u64;
    if n > MAX_LEN {
        return false;
    }
    if n < 32 {
        out.push((0xa0 + n) as u8);
    } else if n < 256 {
        out.push(0xd9);
        out.push(n as u8);
    } else if n < 65536 {
        out.push(0xda);
        push_be16(out, n);
    } else {
        out.push(0xdb);
        push_be32(out, n);
    }
    assert(out@ =~= old(out)@ + str_header(n as nat));
    append_bytes(out, &b);
    assert(final(out)@ =~= old(out)@ + (str_header(n as nat) + b@));
    true
}

pub(crate) fn write_bin(out: &mut Vec<u8>, b: &Vec<u8>) -> (ok: bool)
    ensures
        ok == bin_bytes(b@) is Some,
        ok ==> final(out)@ == old(out)@ + bin_bytes(b@)->Some_0,
{
    let n = b.len() as u64;
    if n > MAX_LEN {
        return false;
    }
    if n < 256 {
        out.push(0xc4);
        out.push(n as u8);
    } else if n < 65536 {
        out.push(0xc5);
        push_be16(out, n);
    } else {
        out.push(0xc6);
        push_be32(out, n);
    }
    assert(out@ =~= old(out)@ + bin_header(n as nat));
    append_bytes(out, b);
    assert(final(out)@ =~= old(out)@ + (bin_header(n as nat) + b@));
    true
}

fn write_array_header(out: &mut Vec<u8>, n: u64)
    requires
        n <= MAX_LEN,
    ensures
        final(out)@ == old(out)@ + array_header(n as nat),
{
    if n < 16 {
        out.push((0x90 + n) as u8);
    } else if n < 65536 {
        out.push(0xdc);
        push_be16(out, n);
    } else {
        out.push(0xdd);
        push_be32(out, n);
    }
    assert(final(out)@ =~= old(out)@ + array_header(n as nat));
}

fn write_map_header(out: &mut Vec<u8>, n: u64)
    requires
        n <= MAX_LEN,
    ensures
        final(out)@ == old(out)@ + map_header(n as nat),
{
    if n < 16 {
        out.push((0x80 + n) as u8);
    } else if n < 65536 {
        out.push(0xde);
        push_be16(out, n);
    } else {
        out.push(0xdf);
        push_be32(out, n);
    }
    assert(final(out)@ =~= old(out)@ + map_header(n as nat));
}

fn write_items(items: &Vec<Value>, out: &mut Vec<u8>) -> (ok: bool)
    ensures
        ok == items_bytes(items@) is Some,
        ok ==> final(out)@ == old(out)@ + items_bytes(items@)->Some_0,
    decreases items,
{
    let ghost start = out@;
    let n = items.len();
    let mut i: usize = 0;
    assert(items@.subrange(0, 0) =~= Seq::<Value>::empty());
    while i < n
        invariant
            n == items@.len(),
            i <= n,
            items_bytes(items@.subrange(0, i as int)) is Some,
            out@ == start + items_bytes(items@.subrange(0, i as int))->Some_0,
        decreases n - i,
    {
        assert(decreases_to!(items => items@[i as int]));
        let ok = write_value(&items[i], out);
        assert(items@.subrange(0, i + 1).subrange(0, i as int) =~= items@.subrange(0, i as int));
        if !ok {
            proof {
                lemma_items_prefix_fails(items@, i + 1);
            }
            return false;
        }
        i = i + 1;
    }
    assert(items@.subrange(0, n as int) =~= items@);
    true
}

fn write_entries(entries: &Vec<(String, Value)>, out: &mut Vec<u8>) -> (ok: bool)
    ensures
        ok == entries_bytes(entries@) is Some,
        ok ==> final(out)@ == old(out)@ + entries_bytes(entries@)->Some_0,
    decreases entries,
{
    let ghost start = out@;
    let n = entries.len();
    let mut i: usize = 0;
    assert(entries@.subrange(0, 0) =~= Seq::<(String, Value)>::empty());
    while i < n
        invariant
            n == entries@.len(),
            i <= n,
            entries_bytes(entries@.subrange(0, i as int)) is Some,
            out@ == start + entries_bytes(entries@.subrange(0, i as int))->Some_0,
        decreases n - i,
    {
        let entry = &entries[i];
        assert(entries@.subrange(0, i + 1).subrange(0, i as int) =~= entries@.subrange(0, i as int));
        let ok_key = write_str(out, &entry.0);
        if !ok_key {
            proof {
                lemma_entries_prefix_fails(entries@, i + 1);
            }
            return false;
        }
        assert(decreases_to!(entries => entries@[i as int].1));
        let ok = write_value(&entry.1, out);
        if !ok {
            proof {
                lemma_entries_prefix_fails(entries@, i + 1);
            }
            return false;
        }
        i = i + 1;
    }
    assert(entries@.subrange(0, n as int) =~= entries@);
    true
}

pub(crate) fn write_value(v: &Value, out: &mut Vec<u8>) -> (ok: bool)
    ensures
        ok == value_bytes(*v) is Some,
        ok ==> final(out)@ == old(out)@ + value_bytes(*v)->Some_0,
    decreases v,
{
    match v {
        Value::Nil => {
            out.push(0xc0);
        },
        Value::Boolean(b) => {
            out.push(if *b { 0xc3 } else { 0xc2 });
        },
        Value::Integer(x) => {
            write_sint(out, *x);
        },
        Value::UInteger(x) => {
            write_uint(out, *x);
        },
        Value::F32(bits) => {
            out.push(0xca);
            push_be32(out, *bits as u64);
        },
        Value::F64(bits) => {
            out.push(0xcb);
            push_be64(out, *bits);
        },
        Value::String(s) => {
            return write_str(out, s);
        },
        Value::Binary(b) => {
            return write_bin(out, b);
        },
        Value::Array(items) => {
            let n = items.len() as u64;
            if n > MAX_LEN {
                return false;
            }
            write_array_header(out, n);
            let ok = write_items(items, out);
            if ok {
                assert(final(out)@ =~= old(out)@ + (array_header(n as nat) + items_bytes(items@)->Some_0));
            }
            return ok;
        },
        Value::Mapping(entries) => {
            let n = entries.len() as u64;
            if n > MAX_LEN {
                return false;
            }
            write_map_header(out, n);
            let ok = write_entries(entries, out);
            if ok {
                assert(final(out)@ =~= old(out)@ + (map_header(n as nat) + entries_bytes(entries@)->Some_0));
            }
            return ok;
        },
    }
    assert(final(out)@ =~= old(out)@ + value_bytes(*v)->Some_0);
    true
}

/// The canonical encoding of `v`.
pub fn encode_value(v: &Value) -> (r: Result<Vec<u8>, MerkleError>)
    ensures
        r is Ok <==> value_bytes(*v) is Some,
        r is Ok ==> r->Ok_0@ == value_bytes(*v)->Some_0,
        r is Err ==> r->Err_0 == MerkleError::SerializationError,
{
    let mut out: Vec<u8> = Vec::new();
    if write_value(v, &mut out) {
        assert(out@ =~= value_bytes(*v)->Some_0);
        Ok(out)
    } else {
        Err(MerkleError::SerializationError)
    }
}

} // verus!
