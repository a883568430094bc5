//! Writing a record back in the grammar that the reader takes.

use vstd::prelude::*;
use crate::reader::line_views;
use crate::text::{decimal_digits, encode_decimal, encode_hex, hex_encoded};
use crate::vector::{key_bytes, key_name, Key, SigVector, SigVectorView};

verus! {

/// The line `key = value`.
#[verifier::opaque]
pub open spec fn entry_line(k: Key, value: Seq<u8>) -> Seq<u8> {
    key_name(k) + seq![32u8, 61u8, 32u8] + value
}

/// The lines of the mandatory fields with the given values, in the
/// order of the format.
#[verifier::opaque]
pub open spec fn mandatory_entries(
    count: Seq<u8>,
    mlen: Seq<u8>,
    msg: Seq<u8>,
    smlen: Seq<u8>,
    sm: Seq<u8>,
    pk: Seq<u8>,
) -> Seq<Seq<u8>> {
    seq![
        entry_line(Key::Count, count),
        entry_line(Key::Mlen, mlen),
        entry_line(Key::Msg, msg),
        entry_line(Key::Smlen, smlen),
        entry_line(Key::Sm, sm),
        entry_line(Key::Pk, pk),
    ]
}

/// The lines of a record's mandatory fields.
pub open spec fn mandatory_lines(v: SigVectorView) -> Seq<Seq<u8>> {
    mandatory_entries(
        decimal_digits(v.count as nat),
        decimal_digits(v.msg.len()),
        hex_encoded(v.msg),
        decimal_digits(v.sm.len()),
        hex_encoded(v.sm),
        hex_encoded(v.pk),
    )
}

/// The lines of the block that stands for a record: the mandatory
/// fields, then the private key where there is one.
pub open spec fn encoded_lines(v: SigVectorView) -> Seq<Seq<u8>> {
    match v.sk {
        Some(sk) => mandatory_lines(v).push(entry_line(Key::Sk, hex_encoded(sk))),
        None => mandatory_lines(v),
    }
}

/// Writes one line `key = value`.
pub fn encode_entry(k: Key, value: &[u8]) -> (r: Vec<u8>)
    ensures
        r@ == entry_line(k, value@),
{
    reveal(entry_line);
    let mut out = key_bytes(k);
    out.push(32);
    out.push(61);
    out.push(32);
    let mut i: usize = 0;
    while i < value.len()
        invariant
            i <= value@.len(),
            out@ == key_name(k) + seq![32u8, 61u8, 32u8] + value@.take(i as int),
            entry_line(k, value@) == key_name(k) + seq![32u8, 61u8, 32u8] + value@,
        decreases value@.len() - i,
    {
        out.push(value[i]);
        assert(value@.take(i + 1) =~= value@.take(i as int).push(value@[i as int]));
        assert(out@ =~= key_name(k) + seq![32u8, 61u8, 32u8] + value@.take(i + 1));
        i = i + 1;
    }
    assert(value@.take(i as int) =~= value@);
    out
}

/// Writes a record as the lines of one block.
pub fn encode_vector(v: &SigVector) -> (r: Vec<Vec<u8>>)
    ensures
        line_views(r@) == encoded_lines(v@),
{
    let mut out: Vec<Vec<u8>> = Vec::new();
    out.push(encode_entry(Key::Count, encode_decimal(v.count).as_slice()));
    out.push(encode_entry(Key::Mlen, encode_decimal(v.msg.len() as u64).as_slice()));
    out.push(encode_entry(Key::Msg, encode_hex(v.msg.as_slice()).as_slice()));
    out.push(encode_entry(Key::Smlen, encode_decimal(v.sm.len() as u64).as_slice()));
    out.push(encode_entry(Key::Sm, encode_hex(v.sm.as_slice()).as_slice()));
    out.push(encode_entry(Key::Pk, encode_hex(v.pk.as_slice()).as_slice()));
    match &v.sk {
        Some(sk) => {
            out.push(encode_entry(Key::Sk, encode_hex(sk.as_slice()).as_slice()));
        },
        None => {},
    }
    proof {
        reveal(mandatory_entries);
        assert(line_views(out@) =~= encoded_lines(v@));
    }
    out
}

/// The text made of `lines`, each with a line feed behind it.
pub open spec fn text_of(lines: Seq<Seq<u8>>) -> Seq<u8>
    decreases lines.len(),
{
    if lines.len() == 0 {
        Seq::empty()
    } else {
        lines[0] + seq![10u8] + text_of(lines.skip(1))
    }
}

/// Writes lines as one text, each with a line feed behind it.
pub fn join_lines(lines: &Vec<Vec<u8>>) -> (r: Vec<u8>)
    ensures
        r@ == text_of(line_views(lines@)),
{
    let ghost all = line_views(lines@);
    let mut out: Vec<u8> = Vec::new();
    let mut i: usize = 0;
    assert(all.skip(0) =~= all);
    assert(out@ + text_of(all) =~= text_of(all));
    while i < lines.len()
        invariant
            all == line_views(lines@),
            i <= lines@.len(),
            out@ + text_of(all.skip(i as int)) == text_of(all),
        decreases lines@.len() - i,
    {
        let ghost before = out@;
        let line = &lines[i];
        let mut j: usize = 0;
        while j < line.len()
            invariant
                j <= line@.len(),
                out@ == before + line@.take(j as int),
            decreases line@.len() - j,
        {
            out.push(line[j]);
            assert(line@.take(j + 1) =~= line@.take(j as int).push(line@[j as int]));
            j = j + 1;
        }
        out.push(10);
        proof {
            assert(line@.take(j as int) =~= line@);
            assert(all.skip(i as int)[0] == line@);
            assert(all.skip(i as int).skip(1) =~= all.skip(i + 1));
            assert(out@ + text_of(all.skip(i + 1)) =~= before + (line@ + seq![10u8] + text_of(
                all.skip(i + 1),
            )));
        }
        i = i + 1;
    }
    assert(out@ + text_of(all.skip(i as int)) =~= out@);
    out
}

/// Writes a record as the text of one block.
pub fn write_vector(v: &SigVector) -> (r: Vec<u8>)
    ensures
        r@ == text_of(encoded_lines(v@)),
{
    let lines = encode_vector(v);
    join_lines(&lines)
}

} // verus!
