//! The byte layout of record fields.
//!
//! A record is its fields one after another. A number is eight bytes, least
//! significant first; a flag is one byte, 0 or 1; a text is the number of its
//! UTF-8 bytes followed by those bytes; a table of quantities is the number
//! of its rows followed by the rows, each an identifier and a quantity.
//!
//! The `read_*` functions say what stands at a position of a byte sequence;
//! the `put_*` functions append a field and the `take_*` functions read one.

use vstd::prelude::*;
use vstd::bytes::{
    lemma_auto_spec_u64_to_from_le_bytes, spec_u64_from_le_bytes, spec_u64_to_le_bytes,
    u64_from_le_bytes, u64_to_le_bytes,
};
use vstd::slice::{slice_subrange, slice_to_vec};
use vstd::string::{StrSliceExecFns, StringSliceAdditionalSpecFns};
use vstd::utf8::{decode_utf8, encode_utf8, valid_utf8};
use std::collections::HashMap;
use crate::text::text_from_utf8;

verus! {

broadcast use {
    vstd::std_specs::hash::group_hash_axioms,
    vstd::utf8::encode_utf8_valid_utf8,
    vstd::utf8::encode_utf8_decode_utf8,
};

/// The number at `at`, and the position after it.
pub open spec fn read_u64(s: Seq<u8>, at: int) -> Option<(u64, int)> {
    if 0 <= at && at + 8 <= s.len() {
        Some((spec_u64_from_le_bytes(s.subrange(at, at + 8)), at + 8))
    } else {
        None
    }
}

/// The flag at `at`, and the position after it.
pub open spec fn read_flag(s: Seq<u8>, at: int) -> Option<(bool, int)> {
    if 0 <= at < s.len() && s[at] <= 1 {
        Some((s[at] == 1, at + 1))
    } else {
        None
    }
}

/// The text at `at`, and the position after it.
pub open spec fn read_text(s: Seq<u8>, at: int) -> Option<(Seq<char>, int)> {
    match read_u64(s, at) {
        Some((len, start)) => if start + len <= s.len() && valid_utf8(
            s.subrange(start, start + len),
        ) {
            Some((decode_utf8(s.subrange(start, start + len)), start + len))
        } else {
            None
        },
        None => None,
    }
}

/// The identifier in row `row` of the rows that start at `start`.
pub open spec fn row_key(s: Seq<u8>, start: int, row: int) -> u64 {
    spec_u64_from_le_bytes(s.subrange(start + 16 * row, start + 16 * row + 8))
}

/// The quantity in row `row` of the rows that start at `start`.
pub open spec fn row_value(s: Seq<u8>, start: int, row: int) -> u64 {
    spec_u64_from_le_bytes(s.subrange(start + 16 * row + 8, start + 16 * row + 16))
}

/// The table made of the first `rows` rows; of two rows with one identifier
/// the later one counts.
pub open spec fn rows_upto(s: Seq<u8>, start: int, rows: nat) -> Map<u64, u64>
    decreases rows,
{
    if rows == 0 {
        Map::empty()
    } else {
        rows_upto(s, start, (rows - 1) as nat).insert(
            row_key(s, start, rows - 1),
            row_value(s, start, rows - 1),
        )
    }
}

/// The table of quantities at `at`, and the position after it.
pub open spec fn read_quantities(s: Seq<u8>, at: int) -> Option<(Map<u64, u64>, int)> {
    match read_u64(s, at) {
        Some((rows, start)) => if start + 16 * rows <= s.len() {
            Some((rows_upto(s, start, rows as nat), start + 16 * rows))
        } else {
            None
        },
        None => None,
    }
}

/// Where reading goes on after `read`; nowhere, which is -1, when nothing was
/// read. Nothing is read at -1, so a record is read to its end only if each
/// of its fields was.
pub open spec fn after<T>(read: Option<(T, int)>) -> int {
    match read {
        Some((_, next)) => next,
        None => -1,
    }
}

/// What was read.
pub open spec fn value<T>(read: Option<(T, int)>) -> T
    recommends
        read is Some,
{
    read->Some_0.0
}

/// Bytes that a text takes.
pub open spec fn text_size(text: Seq<char>) -> nat {
    8 + encode_utf8(text).len()
}

/// Bytes that a table of quantities takes.
pub open spec fn quantities_size(table: Map<u64, u64>) -> nat {
    8 + 16 * table.dom().len()
}

/// `longer` starts with `shorter`.
pub open spec fn extends(longer: Seq<u8>, shorter: Seq<u8>) -> bool {
    shorter.len() <= longer.len() && longer.subrange(0, shorter.len() as int) == shorter
}

/// A stretch of the shorter sequence is the same stretch of the longer one.
pub proof fn lemma_extends_subrange(longer: Seq<u8>, shorter: Seq<u8>, from: int, to: int)
    requires
        extends(longer, shorter),
        0 <= from <= to <= shorter.len(),
    ensures
        longer.subrange(from, to) == shorter.subrange(from, to),
{
    assert(longer.subrange(from, to) =~= longer.subrange(0, shorter.len() as int).subrange(
        from,
        to,
    ));
}

/// What extends an extension extends what was extended.
pub proof fn lemma_extends_chain(a: Seq<u8>, b: Seq<u8>, c: Seq<u8>)
    requires
        extends(a, b),
        extends(b, c),
    ensures
        extends(a, c),
{
    lemma_extends_subrange(a, b, 0, c.len() as int);
}

/// Appending extends, and every sequence extends itself.
pub proof fn lemma_extends_append(s: Seq<u8>, more: Seq<u8>)
    ensures
        extends(s + more, s),
        extends(s, s),
{
    assert((s + more).subrange(0, s.len() as int) =~= s);
    assert(s.subrange(0, s.len() as int) =~= s);
}

/// A number read from a sequence is read from every sequence that extends
/// it.
pub proof fn lemma_read_u64_kept(longer: Seq<u8>, shorter: Seq<u8>, at: int)
    requires
        extends(longer, shorter),
        read_u64(shorter, at) is Some,
    ensures
        read_u64(longer, at) == read_u64(shorter, at),
{
    lemma_extends_subrange(longer, shorter, at, at + 8);
}

/// A text read from a sequence is read from every sequence that extends it.
pub proof fn lemma_read_text_kept(longer: Seq<u8>, shorter: Seq<u8>, at: int)
    requires
        extends(longer, shorter),
        read_text(shorter, at) is Some,
    ensures
        read_text(longer, at) == read_text(shorter, at),
{
    lemma_read_u64_kept(longer, shorter, at);
    let (len, start) = read_u64(shorter, at)->Some_0;
    lemma_extends_subrange(longer, shorter, start, start + len);
}

/// Rows read from a sequence are read from every sequence that extends it.
pub proof fn lemma_rows_kept(longer: Seq<u8>, shorter: Seq<u8>, start: int, rows: nat)
    requires
        extends(longer, shorter),
        0 <= start,
        start + 16 * rows <= shorter.len(),
    ensures
        rows_upto(longer, start, rows) == rows_upto(shorter, start, rows),
    decreases rows,
{
    if rows > 0 {
        lemma_rows_kept(longer, shorter, start, (rows - 1) as nat);
        let row = start + 16 * (rows - 1);
        lemma_extends_subrange(longer, shorter, row, row + 8);
        lemma_extends_subrange(longer, shorter, row + 8, row + 16);
    }
}

/// A table read from a sequence is read from every sequence that extends
/// it.
pub proof fn lemma_read_quantities_kept(longer: Seq<u8>, shorter: Seq<u8>, at: int)
    requires
        extends(longer, shorter),
        read_quantities(shorter, at) is Some,
    ensures
        read_quantities(longer, at) == read_quantities(shorter, at),
{
    lemma_read_u64_kept(longer, shorter, at);
    let (rows, start) = read_u64(shorter, at)->Some_0;
    lemma_rows_kept(longer, shorter, start, rows as nat);
}

/// Appends a number.
pub fn put_u64(out: &mut Vec<u8>, value: u64)
    ensures
        extends(final(out)@, old(out)@),
        final(out)@.len() == old(out)@.len() + 8,
        read_u64(final(out)@, old(out)@.len() as int) == Some((value, final(out)@.len() as int)),
{
    let mut bytes = u64_to_le_bytes(value);
    out.append(&mut bytes);
    proof {
        lemma_auto_spec_u64_to_from_le_bytes();
        lemma_extends_append(old(out)@, spec_u64_to_le_bytes(value));
        assert(out@.subrange(old(out)@.len() as int, old(out)@.len() as int + 8)
            =~= spec_u64_to_le_bytes(value));
    }
}

/// Appends a flag.
pub fn put_flag(out: &mut Vec<u8>, value: bool)
    ensures
        extends(final(out)@, old(out)@),
        final(out)@.len() == old(out)@.len() + 1,
        read_flag(final(out)@, old(out)@.len() as int) == Some((value, final(out)@.len() as int)),
{
    let byte: u8 = if value {
        1
    } else {
        0
    };
    out.push(byte);
    proof {
        lemma_extends_append(old(out)@, seq![byte]);
        assert(out@ =~= old(out)@ + seq![byte]);
    }
}

/// Appends a text.
pub fn put_text(out: &mut Vec<u8>, value: &String)
    ensures
        extends(final(out)@, old(out)@),
        final(out)@.len() == old(out)@.len() + text_size(value@),
        read_text(final(out)@, old(out)@.len() as int) == Some(
            (value@, final(out)@.len() as int),
        ),
{
    let mut bytes = value.as_str().as_bytes_vec();
    let len = bytes.len();
    put_u64(out, len as u64);
    let ghost mid = out@;
    out.append(&mut bytes);
    proof {
        let body = encode_utf8(value@);
        let at = old(out)@.len() as int;
        lemma_extends_append(mid, body);
        lemma_extends_chain(out@, mid, old(out)@);
        lemma_read_u64_kept(out@, mid, at);
        assert(out@.subrange(at + 8, at + 8 + body.len()) =~= body);
    }
}

/// The rows of a table, each once, in the order in which the table hands
/// them out.
fn rows_of(table: &HashMap<u64, u64>) -> (rows: Vec<(u64, u64)>)
    ensures
        rows@.len() == table@.dom().len(),
        forall|i: int|
            0 <= i < rows@.len() ==> table@.contains_pair(#[trigger] rows@[i].0, rows@[i].1),
        forall|k: u64|
            table@.contains_key(k) ==> exists|i: int|
                0 <= i < rows@.len() && #[trigger] rows@[i].0 == k,
{
    let mut rows: Vec<(u64, u64)> = Vec::new();
    for row in it: table.iter()
        invariant
            rows@.len() == it.index(),
            it.seq().len() == table@.dom().len(),
            forall|i: int|
                0 <= i < it.seq().len() ==> table@.contains_key(*it.seq()[i].0)
                    && table@[*it.seq()[i].0] == *it.seq()[i].1,
            forall|i: int|
                #![trigger rows@[i]]
                #![trigger it.seq()[i]]
                0 <= i < rows@.len() ==> rows@[i].0 == *it.seq()[i].0 && rows@[i].1
                    == *it.seq()[i].1,
            forall|k: u64|
                table@.contains_key(k) ==> exists|j: int|
                    0 <= j < it.seq().len() && *(#[trigger] it.seq()[j]).0 == k,
    {
        let (key, quantity) = row;
        rows.push((*key, *quantity));
    }
    rows
}

/// Appends a table of quantities.
pub fn put_quantities(out: &mut Vec<u8>, table: &HashMap<u64, u64>)
    ensures
        extends(final(out)@, old(out)@),
        final(out)@.len() == old(out)@.len() + quantities_size(table@),
        read_quantities(final(out)@, old(out)@.len() as int) == Some(
            (table@, final(out)@.len() as int),
        ),
{
    let rows = rows_of(table);
    put_u64(out, rows.len() as u64);
    let ghost head = out@;
    let ghost at = old(out)@.len() as int;
    let ghost start = at + 8;
    proof {
        lemma_extends_append(head, Seq::empty());
    }
    let mut done: usize = 0;
    while done < rows.len()
        invariant
            done <= rows@.len(),
            start == at + 8,
            at == old(out)@.len(),
            extends(out@, head),
            head.len() == start,
            out@.len() == start + 16 * done,
            forall|i: int|
                0 <= i < rows@.len() ==> table@.contains_pair(#[trigger] rows@[i].0, rows@[i].1),
            forall|k: u64| #[trigger]
                rows_upto(out@, start, done as nat).contains_key(k) ==> table@.contains_pair(
                    k,
                    rows_upto(out@, start, done as nat)[k],
                ),
            forall|i: int|
                0 <= i < done ==> rows_upto(out@, start, done as nat).contains_key(
                    #[trigger] rows@[i].0,
                ),
        decreases rows@.len() - done,
    {
        let (key, quantity) = rows[done];
        let ghost before = out@;
        put_u64(out, key);
        let ghost between = out@;
        put_u64(out, quantity);
        proof {
            lemma_extends_chain(out@, between, before);
            lemma_extends_chain(out@, before, head);
            lemma_rows_kept(out@, before, start, done as nat);
            lemma_read_u64_kept(out@, between, start + 16 * done);
            assert(row_key(out@, start, done as int) == key);
            assert(row_value(out@, start, done as int) == quantity);
            assert(rows_upto(out@, start, (done + 1) as nat) == rows_upto(
                out@,
                start,
                done as nat,
            ).insert(key, quantity));
        }
        done = done + 1;
    }
    proof {
        let table_read = rows_upto(out@, start, rows@.len());
        lemma_extends_chain(out@, head, old(out)@);
        lemma_read_u64_kept(out@, head, at);
        assert forall|k: u64| table@.contains_key(k) implies table_read.contains_key(k) by {
            let i = choose|i: int| 0 <= i < rows@.len() && #[trigger] rows@[i].0 == k;
            assert(table_read.contains_key(rows@[i].0));
        }
        assert(table_read =~= table@);
    }
}

/// Reads the number at `at`.
pub fn take_u64(bytes: &Vec<u8>, at: usize) -> (found: Option<(u64, usize)>)
    ensures
        match found {
            Some((value, next)) => read_u64(bytes@, at as int) == Some((value, next as int)),
            None => read_u64(bytes@, at as int) is None,
        },
{
    if at > bytes.len() || bytes.len() - at < 8 {
        return None;
    }
    let chunk = slice_subrange(bytes.as_slice(), at, at + 8);
    Some((u64_from_le_bytes(chunk), at + 8))
}

/// Reads the flag at `at`.
pub fn take_flag(bytes: &Vec<u8>, at: usize) -> (found: Option<(bool, usize)>)
    ensures
        match found {
            Some((value, next)) => read_flag(bytes@, at as int) == Some((value, next as int)),
            None => read_flag(bytes@, at as int) is None,
        },
{
    if at >= bytes.len() {
        return None;
    }
    let byte = bytes[at];
    if byte > 1 {
        return None;
    }
    Some((byte == 1, at + 1))
}

/// Reads the text at `at`.
pub fn take_text(bytes: &Vec<u8>, at: usize) -> (found: Option<(String, usize)>)
    ensures
        match found {
            Some((value, next)) => read_text(bytes@, at as int) == Some((value@, next as int)),
            None => read_text(bytes@, at as int) is None,
        },
{
    let (len, start) = match take_u64(bytes, at) {
        Some(pair) => pair,
        None => { return None; },
    };
    if len > (bytes.len() - start) as u64 {
        return None;
    }
    let end = start + len as usize;
    let body = slice_to_vec(slice_subrange(bytes.as_slice(), start, end));
    match text_from_utf8(body) {
        Some(text) => Some((text, end)),
        None => None,
    }
}

/// Reads the table of quantities at `at`.
pub fn take_quantities(bytes: &Vec<u8>, at: usize) -> (found: Option<(HashMap<u64, u64>, usize)>)
    ensures
        match found {
            Some((table, next)) => read_quantities(bytes@, at as int) == Some(
                (table@, next as int),
            ),
            None => read_quantities(bytes@, at as int) is None,
        },
{
    let (rows, start) = match take_u64(bytes, at) {
        Some(pair) => pair,
        None => { return None; },
    };
    if rows > ((bytes.len() - start) / 16) as u64 {
        return None;
    }
    let rows = rows as usize;
    let mut table: HashMap<u64, u64> = HashMap::new();
    let mut row: usize = 0;
    while row < rows
        invariant
            row <= rows,
            start + 16 * rows <= bytes@.len() <= usize::MAX,
            table@ == rows_upto(bytes@, start as int, row as nat),
        decreases rows - row,
    {
        let key = u64_from_le_bytes(
            slice_subrange(bytes.as_slice(), start + 16 * row, start + 16 * row + 8),
        );
        let quantity = u64_from_le_bytes(
            slice_subrange(bytes.as_slice(), start + 16 * row + 8, start + 16 * row + 16),
        );
        table.insert(key, quantity);
        row = row + 1;
    }
    Some((table, start + 16 * rows))
}

} // verus!
