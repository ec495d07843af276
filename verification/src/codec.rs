//! The binary encoding of stored values.
//!
//! Integers are eight bytes, least significant first. A byte string is its
//! length followed by its bytes, a string is the byte string of its UTF-8
//! form, an optional value is a tag byte followed by the value if there is
//! one, and a list is its length followed by its items. A decoder reads one
//! value from the front of its input and hands back what follows it.
use byteorder::ByteOrder;
use vstd::bytes::{spec_u64_from_le_bytes, spec_u64_to_le_bytes};
use vstd::prelude::*;
use vstd::slice::slice_subrange;
use vstd::utf8::{decode_utf8, encode_utf8, valid_utf8};

verus! {

/// A value of the view type `T` read from the front of a byte string, with the rest.
pub type Parsed<T> = Option<(T, Seq<u8>)>;

/// The exec-side reader stands at `next` after reading from `pos`, with `rest` left.
pub open spec fn advanced(buf: Seq<u8>, pos: usize, next: usize, rest: Seq<u8>) -> bool {
    &&& pos <= next <= buf.len()
    &&& rest == buf.skip(next as int)
}

// ---------------------------------------------------------------------------
// Integers
// ---------------------------------------------------------------------------
/// The encoding of an integer.
pub open spec fn enc_u64(n: u64) -> Seq<u8> {
    spec_u64_to_le_bytes(n)
}

/// Reads an integer from the front of `s`: the value, and what follows it.
pub open spec fn dec_u64(s: Seq<u8>) -> Parsed<u64> {
    if s.len() >= 8 {
        Some((spec_u64_from_le_bytes(s.subrange(0, 8)), s.skip(8)))
    } else {
        None
    }
}

/// Decoding the encoding of an integer gives it back, with what followed it.
pub proof fn lemma_u64_roundtrip(n: u64, rest: Seq<u8>)
    ensures
        dec_u64(enc_u64(n) + rest) == Some((n, rest)),
        enc_u64(n).len() == 8,
{
    vstd::bytes::lemma_auto_spec_u64_to_from_le_bytes();
    let s = enc_u64(n) + rest;
    assert(s.subrange(0, 8) =~= enc_u64(n));
    assert(s.skip(8) =~= rest);
}

/// Calls `byteorder::LittleEndian::write_u64` on a buffer of eight bytes.
/// Trusted: the buffer then holds the bytes of `n`, least significant first.
#[verifier::external_body]
fn u64_to_le_bytes(n: u64) -> (bytes: Vec<u8>)
    ensures
        bytes@ == spec_u64_to_le_bytes(n),
{
    let mut buf = [0u8; 8];
    byteorder::LittleEndian::write_u64(&mut buf, n);
    buf.to_vec()
}

/// Calls `byteorder::LittleEndian::read_u64`. Trusted: the result is the
/// integer whose bytes, least significant first, are the first eight of `bytes`.
#[verifier::external_body]
fn u64_from_le_bytes(bytes: &[u8]) -> (n: u64)
    requires
        bytes@.len() >= 8,
    ensures
        n == spec_u64_from_le_bytes(bytes@.subrange(0, 8)),
{
    byteorder::LittleEndian::read_u64(bytes)
}

/// Appends the encoding of an integer to `out`.
pub fn write_u64(out: &mut Vec<u8>, n: u64)
    ensures
        final(out)@ == old(out)@ + enc_u64(n),
{
    let mut bytes = u64_to_le_bytes(n);
    out.append(&mut bytes);
}

/// Reads an integer from `buf` at `pos`: the value, and where the next one starts.
pub fn read_u64(buf: &[u8], pos: usize) -> (r: Option<(u64, usize)>)
    ensures
        pos > buf@.len() ==> r is None,
        pos <= buf@.len() ==> match dec_u64(buf@.skip(pos as int)) {
            Some((v, rest)) => r is Some && r.unwrap().0 == v && advanced(
                buf@,
                pos,
                r.unwrap().1,
                rest,
            ),
            None => r is None,
        },
{
    if pos > buf.len() {
        return None;
    }
    if buf.len() - pos < 8 {
        return None;
    }
    let word = slice_subrange(buf, pos, pos + 8);
    let n = u64_from_le_bytes(word);
    proof {
        let s = buf@.skip(pos as int);
        assert(s.subrange(0, 8) =~= word@.subrange(0, 8));
        assert(s.skip(8) =~= buf@.skip(pos + 8));
    }
    Some((n, pos + 8))
}

// ---------------------------------------------------------------------------
// Byte strings
// ---------------------------------------------------------------------------
/// The encoding of a byte string.
pub open spec fn enc_bytes(b: Seq<u8>) -> Seq<u8> {
    enc_u64(b.len() as u64) + b
}

/// Reads a byte string from the front of `s`: the value, and what follows it.
pub open spec fn dec_bytes(s: Seq<u8>) -> Parsed<Seq<u8>> {
    match dec_u64(s) {
        Some((n, rest)) => if n <= rest.len() {
            Some((rest.take(n as int), rest.skip(n as int)))
        } else {
            None
        },
        None => None,
    }
}

/// Decoding the encoding of a byte string gives it back, with what followed it.
pub proof fn lemma_bytes_roundtrip(b: Seq<u8>, rest: Seq<u8>)
    requires
        b.len() <= u64::MAX,
    ensures
        dec_bytes(enc_bytes(b) + rest) == Some((b, rest)),
{
    let n = b.len() as u64;
    lemma_u64_roundtrip(n, b + rest);
    assert(enc_bytes(b) + rest =~= enc_u64(n) + (b + rest));
    assert((b + rest).take(n as int) =~= b);
    assert((b + rest).skip(n as int) =~= rest);
}

/// Appends the encoding of a byte string to `out`.
pub fn write_bytes(out: &mut Vec<u8>, b: &[u8])
    ensures
        final(out)@ == old(out)@ + enc_bytes(b@),
{
    write_u64(out, b.len() as u64);
    out.extend_from_slice(b);
    assert(out@ =~= old(out)@ + enc_bytes(b@));
}

/// Reads a byte string from `buf` at `pos`: the value, and where the next one starts.
pub fn read_bytes(buf: &[u8], pos: usize) -> (r: Option<(Vec<u8>, usize)>)
    ensures
        pos > buf@.len() ==> r is None,
        pos <= buf@.len() ==> match dec_bytes(buf@.skip(pos as int)) {
            Some((v, rest)) => r is Some && r.unwrap().0@ == v && advanced(
                buf@,
                pos,
                r.unwrap().1,
                rest,
            ),
            None => r is None,
        },
{
    if pos > buf.len() {
        return None;
    }
    match read_u64(buf, pos) {
        None => None,
        Some((n, start)) => {
            if n > (buf.len() - start) as u64 {
                return None;
            }
            let end = start + n as usize;
            let data = slice_subrange(buf, start, end);
            let mut v: Vec<u8> = Vec::new();
            v.extend_from_slice(data);
            proof {
                let rest = buf@.skip(start as int);
                assert(v@ =~= rest.take(n as int));
                assert(rest.skip(n as int) =~= buf@.skip(end as int));
            }
            Some((v, end))
        },
    }
}

// ---------------------------------------------------------------------------
// Strings
// ---------------------------------------------------------------------------
/// The encoding of a string.
pub open spec fn enc_string(s: Seq<char>) -> Seq<u8> {
    enc_bytes(encode_utf8(s))
}

/// Reads a string from the front of `s`: the value, and what follows it.
pub open spec fn dec_string(s: Seq<u8>) -> Parsed<Seq<char>> {
    match dec_bytes(s) {
        Some((b, rest)) => if valid_utf8(b) {
            Some((decode_utf8(b), rest))
        } else {
            None
        },
        None => None,
    }
}

/// Decoding the encoding of a string gives it back, with what followed it.
pub proof fn lemma_string_roundtrip(s: Seq<char>, rest: Seq<u8>)
    requires
        encode_utf8(s).len() <= u64::MAX,
    ensures
        dec_string(enc_string(s) + rest) == Some((s, rest)),
{
    lemma_bytes_roundtrip(encode_utf8(s), rest);
    vstd::utf8::encode_utf8_valid_utf8(s);
    vstd::utf8::encode_utf8_decode_utf8(s);
}

/// Calls `String::from_utf8`. Trusted: it succeeds exactly on valid UTF-8,
/// and the string then holds the characters that the bytes encode.
#[verifier::external_body]
fn string_from_utf8(bytes: Vec<u8>) -> (r: Option<String>)
    ensures
        r is Some <==> valid_utf8(bytes@),
        r is Some ==> r.unwrap()@ == decode_utf8(bytes@),
{
    String::from_utf8(bytes).ok()
}

/// Appends the encoding of a string to `out`.
pub fn write_string(out: &mut Vec<u8>, s: &String)
    ensures
        final(out)@ == old(out)@ + enc_string(s@),
{
    write_bytes(out, s.as_str().as_bytes());
}

/// Reads a string from `buf` at `pos`: the value, and where the next one starts.
pub fn read_string(buf: &[u8], pos: usize) -> (r: Option<(String, usize)>)
    ensures
        pos > buf@.len() ==> r is None,
        pos <= buf@.len() ==> match dec_string(buf@.skip(pos as int)) {
            Some((v, rest)) => r is Some && r.unwrap().0@ == v && advanced(
                buf@,
                pos,
                r.unwrap().1,
                rest,
            ),
            None => r is None,
        },
{
    if pos > buf.len() {
        return None;
    }
    match read_bytes(buf, pos) {
        None => None,
        Some((b, next)) => match string_from_utf8(b) {
            None => None,
            Some(s) => Some((s, next)),
        },
    }
}

// ---------------------------------------------------------------------------
// Optional values
// ---------------------------------------------------------------------------
/// The encoding of an optional byte string.
pub open spec fn enc_opt_bytes(o: Option<Seq<u8>>) -> Seq<u8> {
    match o {
        Some(b) => seq![1u8] + enc_bytes(b),
        None => seq![0u8],
    }
}

/// Reads an optional byte string from the front of `s`: the value, and what follows it.
pub open spec fn dec_opt_bytes(s: Seq<u8>) -> Parsed<Option<Seq<u8>>> {
    if s.len() == 0 {
        None
    } else if s[0] == 0 {
        Some((None, s.skip(1)))
    } else if s[0] == 1 {
        match dec_bytes(s.skip(1)) {
            Some((b, rest)) => Some((Some(b), rest)),
            None => None,
        }
    } else {
        None
    }
}

/// Decoding the encoding of an optional byte string gives it back, with what followed it.
pub proof fn lemma_opt_bytes_roundtrip(o: Option<Seq<u8>>, rest: Seq<u8>)
    requires
        o is Some ==> o.unwrap().len() <= u64::MAX,
    ensures
        dec_opt_bytes(enc_opt_bytes(o) + rest) == Some((o, rest)),
{
    let s = enc_opt_bytes(o) + rest;
    match o {
        Some(b) => {
            lemma_bytes_roundtrip(b, rest);
            assert(s.skip(1) =~= enc_bytes(b) + rest);
        },
        None => {
            assert(s.skip(1) =~= rest);
        },
    }
}

/// Appends the encoding of an optional byte string to `out`.
pub fn write_opt_bytes(out: &mut Vec<u8>, o: &Option<Vec<u8>>)
    ensures
        final(out)@ == old(out)@ + enc_opt_bytes(crate::bytes::opt_bytes(*o)),
{
    match o {
        Some(b) => {
            out.push(1u8);
            write_bytes(out, b.as_slice());
            assert(out@ =~= old(out)@ + enc_opt_bytes(Some(b@)));
        },
        None => {
            out.push(0u8);
            assert(out@ =~= old(out)@ + enc_opt_bytes(None));
        },
    }
}

/// Reads an optional byte string from `buf` at `pos`: the value, and where the next one starts.
pub fn read_opt_bytes(buf: &[u8], pos: usize) -> (r: Option<(Option<Vec<u8>>, usize)>)
    ensures
        pos > buf@.len() ==> r is None,
        pos <= buf@.len() ==> match dec_opt_bytes(buf@.skip(pos as int)) {
            Some((v, rest)) => r is Some && crate::bytes::opt_bytes(r.unwrap().0) == v && advanced(
                buf@,
                pos,
                r.unwrap().1,
                rest,
            ),
            None => r is None,
        },
{
    if pos > buf.len() {
        return None;
    }
    if pos >= buf.len() {
        return None;
    }
    let tag = buf[pos];
    proof {
        assert(buf@.skip(pos as int).skip(1) =~= buf@.skip(pos + 1));
    }
    if tag == 0 {
        Some((None, pos + 1))
    } else if tag == 1 {
        match read_bytes(buf, pos + 1) {
            None => None,
            Some((b, next)) => Some((Some(b), next)),
        }
    } else {
        None
    }
}

/// The encoding of an optional string.
pub open spec fn enc_opt_string(o: Option<Seq<char>>) -> Seq<u8> {
    match o {
        Some(s) => seq![1u8] + enc_string(s),
        None => seq![0u8],
    }
}

/// Reads an optional string from the front of `s`: the value, and what follows it.
pub open spec fn dec_opt_string(s: Seq<u8>) -> Parsed<Option<Seq<char>>> {
    if s.len() == 0 {
        None
    } else if s[0] == 0 {
        Some((None, s.skip(1)))
    } else if s[0] == 1 {
        match dec_string(s.skip(1)) {
            Some((b, rest)) => Some((Some(b), rest)),
            None => None,
        }
    } else {
        None
    }
}

/// Decoding the encoding of an optional string gives it back, with what followed it.
pub proof fn lemma_opt_string_roundtrip(o: Option<Seq<char>>, rest: Seq<u8>)
    requires
        o is Some ==> encode_utf8(o.unwrap()).len() <= u64::MAX,
    ensures
        dec_opt_string(enc_opt_string(o) + rest) == Some((o, rest)),
{
    let s = enc_opt_string(o) + rest;
    match o {
        Some(b) => {
            lemma_string_roundtrip(b, rest);
            assert(s.skip(1) =~= enc_string(b) + rest);
        },
        None => {
            assert(s.skip(1) =~= rest);
        },
    }
}

/// Appends the encoding of an optional string to `out`.
pub fn write_opt_string(out: &mut Vec<u8>, o: &Option<String>)
    ensures
        final(out)@ == old(out)@ + enc_opt_string(crate::bytes::opt_chars(*o)),
{
    match o {
        Some(s) => {
            out.push(1u8);
            write_string(out, s);
            assert(out@ =~= old(out)@ + enc_opt_string(Some(s@)));
        },
        None => {
            out.push(0u8);
            assert(out@ =~= old(out)@ + enc_opt_string(None));
        },
    }
}

/// Reads an optional string from `buf` at `pos`: the value, and where the next one starts.
pub fn read_opt_string(buf: &[u8], pos: usize) -> (r: Option<(Option<String>, usize)>)
    ensures
        pos > buf@.len() ==> r is None,
        pos <= buf@.len() ==> match dec_opt_string(buf@.skip(pos as int)) {
            Some((v, rest)) => r is Some && crate::bytes::opt_chars(r.unwrap().0) == v && advanced(
                buf@,
                pos,
                r.unwrap().1,
                rest,
            ),
            None => r is None,
        },
{
    if pos > buf.len() {
        return None;
    }
    if pos >= buf.len() {
        return None;
    }
    let tag = buf[pos];
    proof {
        assert(buf@.skip(pos as int).skip(1) =~= buf@.skip(pos + 1));
    }
    if tag == 0 {
        Some((None, pos + 1))
    } else if tag == 1 {
        match read_string(buf, pos + 1) {
            None => None,
            Some((b, next)) => Some((Some(b), next)),
        }
    } else {
        None
    }
}

/// A byte string whose length fits the length field.
pub open spec fn bytes_encodable(b: Seq<u8>) -> bool {
    b.len() <= u64::MAX
}

/// An optional byte string whose length fits the length field.
pub open spec fn opt_bytes_encodable(o: Option<Seq<u8>>) -> bool {
    o is Some ==> o.unwrap().len() <= u64::MAX
}

// ---------------------------------------------------------------------------
// Lists of byte strings
// ---------------------------------------------------------------------------
/// The encoding of the items of a list of byte strings.
pub open spec fn enc_bytes_list_items(l: Seq<Seq<u8>>) -> Seq<u8>
    decreases l.len(),
{
    if l.len() == 0 {
        Seq::empty()
    } else {
        enc_bytes(l[0]) + enc_bytes_list_items(l.skip(1))
    }
}

/// Reads `n` items from the front of `s`: the items of a list of byte strings, and what follows them.
pub open spec fn dec_bytes_list_items(s: Seq<u8>, n: nat) -> Parsed<Seq<Seq<u8>>>
    decreases n,
{
    if n == 0 {
        Some((Seq::empty(), s))
    } else {
        match dec_bytes(s) {
            Some((v, rest)) => match dec_bytes_list_items(rest, (n - 1) as nat) {
                Some((tail, rest2)) => Some((seq![v] + tail, rest2)),
                None => None,
            },
            None => None,
        }
    }
}

/// The encoding of a list of byte strings.
pub open spec fn enc_bytes_list(l: Seq<Seq<u8>>) -> Seq<u8> {
    enc_u64(l.len() as u64) + enc_bytes_list_items(l)
}

/// Reads a list of byte strings from the front of `s`: the value, and what follows it.
pub open spec fn dec_bytes_list(s: Seq<u8>) -> Parsed<Seq<Seq<u8>>> {
    match dec_u64(s) {
        Some((n, rest)) => dec_bytes_list_items(rest, n as nat),
        None => None,
    }
}

/// Every item of the list can be encoded: its length fits the length field.
pub open spec fn bytes_list_encodable(l: Seq<Seq<u8>>) -> bool {
    &&& l.len() <= u64::MAX
    &&& forall|i: int| 0 <= i < l.len() ==> bytes_encodable(#[trigger] l[i])
}

/// The encoding of a list with one more item is that of the list followed by that of the item.
pub proof fn lemma_bytes_list_items_push(l: Seq<Seq<u8>>, v: Seq<u8>)
    ensures
        enc_bytes_list_items(l.push(v)) == enc_bytes_list_items(l) + enc_bytes(v),
    decreases l.len(),
{
    if l.len() == 0 {
        let t = l.push(v).skip(1);
        assert(t =~= Seq::empty());
        assert(enc_bytes_list_items(t) =~= Seq::empty());
        assert(l.push(v)[0] == v);
        assert(enc_bytes_list_items(l.push(v)) =~= enc_bytes(v));
        assert(enc_bytes_list_items(l) + enc_bytes(v) =~= enc_bytes(v));
    } else {
        lemma_bytes_list_items_push(l.skip(1), v);
        assert(l.push(v).skip(1) =~= l.skip(1).push(v));
        assert(enc_bytes_list_items(l.push(v)) =~= enc_bytes_list_items(l) + enc_bytes(v));
    }
}

/// Decoding the encoding of the items of a list of byte strings gives it back, with what followed it.
pub proof fn lemma_bytes_list_items_roundtrip(l: Seq<Seq<u8>>, rest: Seq<u8>)
    requires
        bytes_list_encodable(l),
    ensures
        dec_bytes_list_items(enc_bytes_list_items(l) + rest, l.len()) == Some((l, rest)),
    decreases l.len(),
{
    if l.len() == 0 {
        assert(enc_bytes_list_items(l) + rest =~= rest);
        assert(l =~= Seq::empty());
    } else {
        let tail = l.skip(1);
        assert(bytes_list_encodable(tail)) by {
            assert forall|i: int| 0 <= i < tail.len() implies bytes_encodable(#[trigger] tail[i]) by {
                assert(tail[i] == l[i + 1]);
            }
        }
        lemma_bytes_list_items_roundtrip(tail, rest);
        lemma_bytes_roundtrip(l[0], enc_bytes_list_items(tail) + rest);
        assert(enc_bytes_list_items(l) + rest =~= enc_bytes(l[0]) + (enc_bytes_list_items(tail) + rest));
        assert(seq![l[0]] + tail =~= l);
    }
}

/// Decoding the encoding of a list of byte strings gives it back, with what followed it.
pub proof fn lemma_bytes_list_roundtrip(l: Seq<Seq<u8>>, rest: Seq<u8>)
    requires
        bytes_list_encodable(l),
    ensures
        dec_bytes_list(enc_bytes_list(l) + rest) == Some((l, rest)),
{
    lemma_u64_roundtrip(l.len() as u64, enc_bytes_list_items(l) + rest);
    lemma_bytes_list_items_roundtrip(l, rest);
    assert(enc_bytes_list(l) + rest =~= enc_u64(l.len() as u64) + (enc_bytes_list_items(l) + rest));
}

/// Appends the encoding of a list of byte strings to `out`.
pub fn write_bytes_list(out: &mut Vec<u8>, l: &Vec<Vec<u8>>)
    ensures
        final(out)@ == old(out)@ + enc_bytes_list(crate::bytes::bytes_list(l@)),
{
    write_u64(out, l.len() as u64);
    let ghost start = out@;
    let ghost items = crate::bytes::bytes_list(l@);
    let mut i: usize = 0;
    assert(items.take(0) =~= Seq::empty());
    while i < l.len()
        invariant
            i <= l.len(),
            items == crate::bytes::bytes_list(l@),
            out@ == start + enc_bytes_list_items(items.take(i as int)),
        decreases l.len() - i,
    {
        write_bytes_vec(out, &l[i]);
        proof {
            lemma_bytes_list_items_push(items.take(i as int), items[i as int]);
            assert(items.take(i + 1) =~= items.take(i as int).push(items[i as int]));
            assert(out@ =~= start + enc_bytes_list_items(items.take(i + 1)));
        }
        i += 1;
    }
    assert(items.take(l.len() as int) =~= items);
    assert(out@ =~= old(out)@ + enc_bytes_list(items));
}

/// What a list decoder has when `done` items are read and `n` are wanted.
pub open spec fn bytes_list_pending(
    done: Seq<Seq<u8>>,
    cur: Seq<u8>,
    left: nat,
) -> Parsed<Seq<Seq<u8>>> {
    match dec_bytes_list_items(cur, left) {
        Some((tail, rest)) => Some((done + tail, rest)),
        None => None,
    }
}

/// Reads a list of byte strings from `buf` at `pos`: the value, and where the next one starts.
pub fn read_bytes_list(buf: &[u8], pos: usize) -> (r: Option<(Vec<Vec<u8>>, usize)>)
    ensures
        pos > buf@.len() ==> r is None,
        pos <= buf@.len() ==> match dec_bytes_list(buf@.skip(pos as int)) {
            Some((v, rest)) => r is Some && crate::bytes::bytes_list(r.unwrap().0@) == v && advanced(
                buf@,
                pos,
                r.unwrap().1,
                rest,
            ),
            None => r is None,
        },
{
    if pos > buf.len() {
        return None;
    }
    let (n, start) = match read_u64(buf, pos) {
        None => {
            return None;
        },
        Some(found) => found,
    };
    let ghost goal = dec_bytes_list(buf@.skip(pos as int));
    let mut items: Vec<Vec<u8>> = Vec::new();
    let mut cur: usize = start;
    let mut i: u64 = 0;
    assert(crate::bytes::bytes_list(items@) =~= Seq::empty());
    assert(goal == bytes_list_pending(Seq::empty(), buf@.skip(cur as int), n as nat)) by {
        match dec_bytes_list_items(buf@.skip(cur as int), n as nat) {
            Some((tail, rest)) => {
                assert(Seq::<Seq<u8>>::empty() + tail =~= tail);
            },
            None => {},
        }
    }
    while i < n
        invariant
            i <= n,
            pos <= cur <= buf@.len(),
            items@.len() == i,
            goal == dec_bytes_list(buf@.skip(pos as int)),
            goal == bytes_list_pending(crate::bytes::bytes_list(items@), buf@.skip(cur as int), (n - i) as nat),
        decreases n - i,
    {
        let ghost before = crate::bytes::bytes_list(items@);
        match read_bytes(buf, cur) {
            None => {
                assert(goal is None);
                return None;
            },
            Some((v, next)) => {
                items.push(v);
                proof {
                    let after = crate::bytes::bytes_list(items@);
                    assert(after =~= before.push(after[i as int]));
                    match dec_bytes_list_items(buf@.skip(next as int), (n - i - 1) as nat) {
                        Some((tail, rest)) => {
                            assert(before + (seq![after[i as int]] + tail) =~= after + tail);
                        },
                        None => {},
                    }
                }
                cur = next;
            },
        }
        i += 1;
    }
    proof {
        assert(crate::bytes::bytes_list(items@) + Seq::<Seq<u8>>::empty() =~= crate::bytes::bytes_list(items@));
    }
    Some((items, cur))
}

// ---------------------------------------------------------------------------
// Lists of optional byte strings
// ---------------------------------------------------------------------------
/// The encoding of the items of a list of optional byte strings.
pub open spec fn enc_opt_bytes_list_items(l: Seq<Option<Seq<u8>>>) -> Seq<u8>
    decreases l.len(),
{
    if l.len() == 0 {
        Seq::empty()
    } else {
        enc_opt_bytes(l[0]) + enc_opt_bytes_list_items(l.skip(1))
    }
}

/// Reads `n` items from the front of `s`: the items of a list of optional byte strings, and what follows them.
pub open spec fn dec_opt_bytes_list_items(s: Seq<u8>, n: nat) -> Parsed<Seq<Option<Seq<u8>>>>
    decreases n,
{
    if n == 0 {
        Some((Seq::empty(), s))
    } else {
        match dec_opt_bytes(s) {
            Some((v, rest)) => match dec_opt_bytes_list_items(rest, (n - 1) as nat) {
                Some((tail, rest2)) => Some((seq![v] + tail, rest2)),
                None => None,
            },
            None => None,
        }
    }
}

/// The encoding of a list of optional byte strings.
pub open spec fn enc_opt_bytes_list(l: Seq<Option<Seq<u8>>>) -> Seq<u8> {
    enc_u64(l.len() as u64) + enc_opt_bytes_list_items(l)
}

/// Reads a list of optional byte strings from the front of `s`: the value, and what follows it.
pub open spec fn dec_opt_bytes_list(s: Seq<u8>) -> Parsed<Seq<Option<Seq<u8>>>> {
    match dec_u64(s) {
        Some((n, rest)) => dec_opt_bytes_list_items(rest, n as nat),
        None => None,
    }
}

/// Every item of the list can be encoded: its length fits the length field.
pub open spec fn opt_bytes_list_encodable(l: Seq<Option<Seq<u8>>>) -> bool {
    &&& l.len() <= u64::MAX
    &&& forall|i: int| 0 <= i < l.len() ==> opt_bytes_encodable(#[trigger] l[i])
}

/// The encoding of a list with one more item is that of the list followed by that of the item.
pub proof fn lemma_opt_bytes_list_items_push(l: Seq<Option<Seq<u8>>>, v: Option<Seq<u8>>)
    ensures
        enc_opt_bytes_list_items(l.push(v)) == enc_opt_bytes_list_items(l) + enc_opt_bytes(v),
    decreases l.len(),
{
    if l.len() == 0 {
        let t = l.push(v).skip(1);
        assert(t =~= Seq::empty());
        assert(enc_opt_bytes_list_items(t) =~= Seq::empty());
        assert(l.push(v)[0] == v);
        assert(enc_opt_bytes_list_items(l.push(v)) =~= enc_opt_bytes(v));
        assert(enc_opt_bytes_list_items(l) + enc_opt_bytes(v) =~= enc_opt_bytes(v));
    } else {
        lemma_opt_bytes_list_items_push(l.skip(1), v);
        assert(l.push(v).skip(1) =~= l.skip(1).push(v));
        assert(enc_opt_bytes_list_items(l.push(v)) =~= enc_opt_bytes_list_items(l) + enc_opt_bytes(v));
    }
}

/// Decoding the encoding of the items of a list of optional byte strings gives it back, with what followed it.
pub proof fn lemma_opt_bytes_list_items_roundtrip(l: Seq<Option<Seq<u8>>>, rest: Seq<u8>)
    requires
        opt_bytes_list_encodable(l),
    ensures
        dec_opt_bytes_list_items(enc_opt_bytes_list_items(l) + rest, l.len()) == Some((l, rest)),
    decreases l.len(),
{
    if l.len() == 0 {
        assert(enc_opt_bytes_list_items(l) + rest =~= rest);
        assert(l =~= Seq::empty());
    } else {
        let tail = l.skip(1);
        assert(opt_bytes_list_encodable(tail)) by {
            assert forall|i: int| 0 <= i < tail.len() implies opt_bytes_encodable(#[trigger] tail[i]) by {
                assert(tail[i] == l[i + 1]);
            }
        }
        lemma_opt_bytes_list_items_roundtrip(tail, rest);
        lemma_opt_bytes_roundtrip(l[0], enc_opt_bytes_list_items(tail) + rest);
        assert(enc_opt_bytes_list_items(l) + rest =~= enc_opt_bytes(l[0]) + (enc_opt_bytes_list_items(tail) + rest));
        assert(seq![l[0]] + tail =~= l);
    }
}

/// Decoding the encoding of a list of optional byte strings gives it back, with what followed it.
pub proof fn lemma_opt_bytes_list_roundtrip(l: Seq<Option<Seq<u8>>>, rest: Seq<u8>)
    requires
        opt_bytes_list_encodable(l),
    ensures
        dec_opt_bytes_list(enc_opt_bytes_list(l) + rest) == Some((l, rest)),
{
    lemma_u64_roundtrip(l.len() as u64, enc_opt_bytes_list_items(l) + rest);
    lemma_opt_bytes_list_items_roundtrip(l, rest);
    assert(enc_opt_bytes_list(l) + rest =~= enc_u64(l.len() as u64) + (enc_opt_bytes_list_items(l) + rest));
}

/// Appends the encoding of a list of optional byte strings to `out`.
pub fn write_opt_bytes_list(out: &mut Vec<u8>, l: &Vec<Option<Vec<u8>>>)
    ensures
        final(out)@ == old(out)@ + enc_opt_bytes_list(crate::bytes::opt_bytes_list(l@)),
{
    write_u64(out, l.len() as u64);
    let ghost start = out@;
    let ghost items = crate::bytes::opt_bytes_list(l@);
    let mut i: usize = 0;
    assert(items.take(0) =~= Seq::empty());
    while i < l.len()
        invariant
            i <= l.len(),
            items == crate::bytes::opt_bytes_list(l@),
            out@ == start + enc_opt_bytes_list_items(items.take(i as int)),
        decreases l.len() - i,
    {
        write_opt_bytes(out, &l[i]);
        proof {
            lemma_opt_bytes_list_items_push(items.take(i as int), items[i as int]);
            assert(items.take(i + 1) =~= items.take(i as int).push(items[i as int]));
            assert(out@ =~= start + enc_opt_bytes_list_items(items.take(i + 1)));
        }
        i += 1;
    }
    assert(items.take(l.len() as int) =~= items);
    assert(out@ =~= old(out)@ + enc_opt_bytes_list(items));
}

/// What a list decoder has when `done` items are read and `n` are wanted.
pub open spec fn opt_bytes_list_pending(
    done: Seq<Option<Seq<u8>>>,
    cur: Seq<u8>,
    left: nat,
) -> Parsed<Seq<Option<Seq<u8>>>> {
    match dec_opt_bytes_list_items(cur, left) {
        Some((tail, rest)) => Some((done + tail, rest)),
        None => None,
    }
}

/// Reads a list of optional byte strings from `buf` at `pos`: the value, and where the next one starts.
pub fn read_opt_bytes_list(buf: &[u8], pos: usize) -> (r: Option<(Vec<Option<Vec<u8>>>, usize)>)
    ensures
        pos > buf@.len() ==> r is None,
        pos <= buf@.len() ==> match dec_opt_bytes_list(buf@.skip(pos as int)) {
            Some((v, rest)) => r is Some && crate::bytes::opt_bytes_list(r.unwrap().0@) == v && advanced(
                buf@,
                pos,
                r.unwrap().1,
                rest,
            ),
            None => r is None,
        },
{
    if pos > buf.len() {
        return None;
    }
    let (n, start) = match read_u64(buf, pos) {
        None => {
            return None;
        },
        Some(found) => found,
    };
    let ghost goal = dec_opt_bytes_list(buf@.skip(pos as int));
    let mut items: Vec<Option<Vec<u8>>> = Vec::new();
    let mut cur: usize = start;
    let mut i: u64 = 0;
    assert(crate::bytes::opt_bytes_list(items@) =~= Seq::empty());
    assert(goal == opt_bytes_list_pending(Seq::empty(), buf@.skip(cur as int), n as nat)) by {
        match dec_opt_bytes_list_items(buf@.skip(cur as int), n as nat) {
            Some((tail, rest)) => {
                assert(Seq::<Option<Seq<u8>>>::empty() + tail =~= tail);
            },
            None => {},
        }
    }
    while i < n
        invariant
            i <= n,
            pos <= cur <= buf@.len(),
            items@.len() == i,
            goal == dec_opt_bytes_list(buf@.skip(pos as int)),
            goal == opt_bytes_list_pending(crate::bytes::opt_bytes_list(items@), buf@.skip(cur as int), (n - i) as nat),
        decreases n - i,
    {
        let ghost before = crate::bytes::opt_bytes_list(items@);
        match read_opt_bytes(buf, cur) {
            None => {
                assert(goal is None);
                return None;
            },
            Some((v, next)) => {
                items.push(v);
                proof {
                    let after = crate::bytes::opt_bytes_list(items@);
                    assert(after =~= before.push(after[i as int]));
                    match dec_opt_bytes_list_items(buf@.skip(next as int), (n - i - 1) as nat) {
                        Some((tail, rest)) => {
                            assert(before + (seq![after[i as int]] + tail) =~= after + tail);
                        },
                        None => {},
                    }
                }
                cur = next;
            },
        }
        i += 1;
    }
    proof {
        assert(crate::bytes::opt_bytes_list(items@) + Seq::<Option<Seq<u8>>>::empty() =~= crate::bytes::opt_bytes_list(items@));
    }
    Some((items, cur))
}

/// Appends the encoding of a byte string to `out`.
pub fn write_bytes_vec(out: &mut Vec<u8>, b: &Vec<u8>)
    ensures
        final(out)@ == old(out)@ + enc_bytes(b@),
{
    write_bytes(out, b.as_slice());
}

} // verus!
