//! What holds of the reader on whole blocks and whole files.

use vstd::prelude::*;
use crate::reader::{
    absorbed, block_after, decimal_field, empty_block, fed, flushed, hex_field, is_complete,
    line_key, line_kind, line_value, lines_of, read_lines, read_text, record_of, BlockView,
    LineKind, StepView,
};
use crate::encode::{encoded_lines, entry_line, mandatory_entries, mandatory_lines, text_of};
use crate::text::{
    decimal_digits, first_index, hex_encoded, is_bare, is_digit, is_hex_digit,
    lemma_decimal_round_trip, lemma_first_index_after, lemma_hex_round_trip,
    lemma_trimmed_padded,
};
use crate::vector::{
    key_name, lemma_key_named, recognized, Family, Key, SigVectorView, TestVectorView,
};

verus! {

/// Whether a reader that holds `b` takes `line` as one more line of the
/// block: an entry whose key is unrecognised or whose field is accepted.
pub open spec fn takes(family: Family, b: BlockView, line: Seq<u8>) -> bool {
    line_kind(line) == LineKind::Entry && match recognized(family, line_key(line)) {
        None => true,
        Some(k) => absorbed(b, k, line_value(line)) is Some,
    }
}

/// The fields of `b` with those of the lines of a block added. `None`
/// where the reader does not take one of the lines.
#[verifier::opaque]
pub open spec fn gathered(family: Family, lines: Seq<Seq<u8>>, b: BlockView) -> Option<BlockView>
    decreases lines.len(),
{
    if lines.len() == 0 {
        Some(b)
    } else if takes(family, b, lines[0]) {
        gathered(family, lines.skip(1), block_after(family, b, lines[0]))
    } else {
        None
    }
}

/// Whether `lines` is a block that is well formed in itself: every line
/// is taken, and together they give a complete block.
pub open spec fn well_formed_block(family: Family, lines: Seq<Seq<u8>>) -> bool {
    gathered(family, lines, empty_block()) is Some && is_complete(
        gathered(family, lines, empty_block())->0,
    )
}

/// The record of a well-formed block.
pub open spec fn block_record(family: Family, id: u32, lines: Seq<Seq<u8>>) -> TestVectorView {
    record_of(family, id, gathered(family, lines, empty_block())->0)
}

/// The lines of a file made of `blocks` with the line `sep` between each
/// two of them.
pub open spec fn joined(blocks: Seq<Seq<Seq<u8>>>, sep: Seq<u8>) -> Seq<Seq<u8>>
    decreases blocks.len(),
{
    if blocks.len() == 0 {
        Seq::empty()
    } else if blocks.len() == 1 {
        blocks[0]
    } else {
        blocks[0] + seq![sep] + joined(blocks.skip(1), sep)
    }
}

/// The records of a list of well-formed blocks, in the order of the
/// blocks.
pub open spec fn block_records(family: Family, id: u32, blocks: Seq<Seq<Seq<u8>>>) -> Seq<
    TestVectorView,
> {
    Seq::new(blocks.len(), |k: int| block_record(family, id, blocks[k]))
}

/// Reading the lines of a block and then `rest` is reading `rest` with
/// the block's fields in hand.
pub proof fn lemma_block_then_rest(
    family: Family,
    id: u32,
    lines: Seq<Seq<u8>>,
    rest: Seq<Seq<u8>>,
    at: int,
    b: BlockView,
)
    requires
        gathered(family, lines, b) is Some,
    ensures
        read_lines(family, id, lines + rest, at, b) == read_lines(
            family,
            id,
            rest,
            at + lines.len(),
            gathered(family, lines, b)->0,
        ),
    decreases lines.len(),
{
    reveal(gathered);
    if lines.len() == 0 {
        assert(lines + rest =~= rest);
    } else {
        let all = lines + rest;
        assert(all[0] == lines[0]);
        assert(all.skip(1) =~= lines.skip(1) + rest);
        lemma_block_then_rest(
            family,
            id,
            lines.skip(1),
            rest,
            at + 1,
            block_after(family, b, lines[0]),
        );
    }
}

/// A file of one well-formed block gives exactly one record, and the
/// lengths of its message and signed message are those that the block
/// declares.
pub proof fn lemma_single_block(family: Family, id: u32, lines: Seq<Seq<u8>>)
    requires
        well_formed_block(family, lines),
    ensures
        read_lines(family, id, lines, 0, empty_block()) == Ok::<Seq<TestVectorView>, int>(
            seq![block_record(family, id, lines)],
        ),
        block_record(family, id, lines).sig.msg.len() == gathered(
            family,
            lines,
            empty_block(),
        )->0.mlen->0,
        block_record(family, id, lines).sig.sm.len() == gathered(
            family,
            lines,
            empty_block(),
        )->0.smlen->0,
{
    lemma_block_then_rest(family, id, lines, Seq::empty(), 0, empty_block());
    assert(lines + Seq::<Seq<u8>>::empty() =~= lines);
}

/// A file of well-formed blocks with a blank line between each two gives
/// one record for each block, in the order of the blocks.
pub proof fn lemma_blocks_in_order(
    family: Family,
    id: u32,
    blocks: Seq<Seq<Seq<u8>>>,
    sep: Seq<u8>,
    at: int,
)
    requires
        line_kind(sep) == LineKind::Blank,
        forall|k: int| 0 <= k < blocks.len() ==> well_formed_block(family, #[trigger] blocks[k]),
    ensures
        read_lines(family, id, joined(blocks, sep), at, empty_block()) == Ok::<
            Seq<TestVectorView>,
            int,
        >(block_records(family, id, blocks)),
        block_records(family, id, blocks).len() == blocks.len(),
    decreases blocks.len(),
{
    if blocks.len() == 0 {
        assert(block_records(family, id, blocks) =~= Seq::empty());
    } else if blocks.len() == 1 {
        let b = gathered(family, blocks[0], empty_block())->0;
        lemma_block_then_rest(family, id, blocks[0], Seq::empty(), at, empty_block());
        assert(blocks[0] + Seq::<Seq<u8>>::empty() =~= blocks[0]);
        assert(block_records(family, id, blocks) =~= seq![block_record(family, id, blocks[0])]);
    } else {
        let b = gathered(family, blocks[0], empty_block())->0;
        let tail = blocks.skip(1);
        let rest = seq![sep] + joined(tail, sep);
        assert(joined(blocks, sep) =~= blocks[0] + rest);
        lemma_block_then_rest(family, id, blocks[0], rest, at, empty_block());
        assert(rest[0] == sep);
        assert(rest.skip(1) =~= joined(tail, sep));
        assert(forall|k: int| 0 <= k < tail.len() ==> well_formed_block(family, #[trigger] tail[k]))
            by {
            assert(forall|k: int| 0 <= k < tail.len() ==> tail[k] == blocks[k + 1]);
        }
        lemma_blocks_in_order(family, id, tail, sep, at + blocks[0].len() + 1);
        assert(block_after(family, b, sep) == empty_block());
        assert(fed(family, id, b, sep) == StepView::Yield(block_record(family, id, blocks[0])));
        assert(seq![block_record(family, id, blocks[0])] + block_records(family, id, tail)
            =~= block_records(family, id, blocks));
    }
}

/// Whether a block declares a length that is not the length of the
/// field it speaks of.
pub open spec fn length_mismatch(b: BlockView) -> bool {
    ||| b.mlen is Some && b.msg is Some && b.mlen->0 != b.msg->0.len()
    ||| b.smlen is Some && b.sm is Some && b.smlen->0 != b.sm->0.len()
}

/// A block whose declared message length is not the length of its
/// message, or whose declared signed-message length is not that of its
/// signed message, gives a failure at the line that ends it, and the
/// file gives no record.
pub proof fn lemma_length_mismatch(
    family: Family,
    id: u32,
    lines: Seq<Seq<u8>>,
    rest: Seq<Seq<u8>>,
)
    requires
        gathered(family, lines, empty_block()) is Some,
        length_mismatch(gathered(family, lines, empty_block())->0),
        rest.len() > 0 ==> line_kind(rest[0]) == LineKind::Blank,
    ensures
        flushed(family, id, gathered(family, lines, empty_block())->0) == StepView::Malformed,
        read_lines(family, id, lines + rest, 0, empty_block()) == Err::<
            Seq<TestVectorView>,
            int,
        >(lines.len() as int),
{
    lemma_block_then_rest(family, id, lines, rest, 0, empty_block());
}

/// One more taken line adds its field to what was gathered.
pub proof fn lemma_gathered_push(
    family: Family,
    lines: Seq<Seq<u8>>,
    b: BlockView,
    line: Seq<u8>,
)
    requires
        gathered(family, lines, b) is Some,
        takes(family, gathered(family, lines, b)->0, line),
    ensures
        gathered(family, lines.push(line), b) == Some(
            block_after(family, gathered(family, lines, b)->0, line),
        ),
    decreases lines.len(),
{
    reveal(gathered);
    let more = lines.push(line);
    if lines.len() == 0 {
        assert(more[0] == line);
        assert(more.skip(1) =~= Seq::<Seq<u8>>::empty());
        assert(gathered(family, more.skip(1), block_after(family, b, line)) == Some(
            block_after(family, b, line),
        ));
    } else {
        assert(more[0] == lines[0]);
        assert(more.skip(1) =~= lines.skip(1).push(line));
        lemma_gathered_push(family, lines.skip(1), block_after(family, b, lines[0]), line);
    }
}

/// The line written for a key and a bare value is an entry with that
/// key and that value.
pub proof fn lemma_entry_line(k: Key, value: Seq<u8>)
    requires
        is_bare(value),
    ensures
        line_kind(entry_line(k, value)) == LineKind::Entry,
        line_key(entry_line(k, value)) == key_name(k),
        line_value(entry_line(k, value)) == value,
{
    reveal(entry_line);
    let key = key_name(k);
    let line = entry_line(k, value);
    let pad = seq![32u8];
    assert(key.len() >= 2);
    assert(forall|i: int| 0 <= i < key.len() ==> 97 <= #[trigger] key[i] <= 122);
    assert(line =~= key + (seq![32u8, 61u8, 32u8] + value));
    lemma_first_index_after(key, seq![32u8, 61u8, 32u8] + value, 61);
    assert(seq![32u8, 61u8, 32u8] + value =~= pad + (seq![61u8, 32u8] + value));
    lemma_first_index_after(pad, seq![61u8, 32u8] + value, 61);
    assert((seq![61u8, 32u8] + value)[0] == 61u8);
    assert(first_index(seq![61u8, 32u8] + value, 61) == 0);
    assert(first_index(line, 61) == key.len() + 1);
    let none = Seq::<u8>::empty();
    assert(line.take(key.len() as int + 1) =~= none + key + pad);
    assert(line.skip(key.len() as int + 2) =~= pad + value + none);
    lemma_trimmed_padded(none, key, pad);
    lemma_trimmed_padded(pad, value, none);
}

/// A written entry whose field the block accepts is taken, and adds
/// that field.
pub proof fn lemma_entry_taken(b: BlockView, k: Key, value: Seq<u8>)
    requires
        is_bare(value),
        absorbed(b, k, value) is Some,
    ensures
        takes(Family::Signature, b, entry_line(k, value)),
        block_after(Family::Signature, b, entry_line(k, value)) == absorbed(b, k, value)->0,
{
    lemma_entry_line(k, value);
    lemma_key_named(k);
}

/// A written number is bare and reads as itself.
pub proof fn lemma_written_decimal(n: nat)
    requires
        n <= u64::MAX,
    ensures
        is_bare(decimal_digits(n)),
        decimal_field(decimal_digits(n)) == Some(n as u64),
{
    lemma_decimal_round_trip(n);
    let d = decimal_digits(n);
    assert(is_digit(d[0]) && is_digit(d[d.len() - 1]));
}

/// Written bytes are bare and read as themselves.
pub proof fn lemma_written_hex(x: Seq<u8>)
    ensures
        is_bare(hex_encoded(x)),
        hex_field(hex_encoded(x)) == Some(x),
{
    lemma_hex_round_trip(x);
    let h = hex_encoded(x);
    if h.len() > 0 {
        assert(is_hex_digit(h[0]) && is_hex_digit(h[h.len() - 1]));
    }
}

/// Writing one more field behind the lines of a block adds that field
/// to what the lines give.
pub proof fn lemma_written_field(lines: Seq<Seq<u8>>, b: BlockView, k: Key, value: Seq<u8>)
    requires
        gathered(Family::Signature, lines, empty_block()) == Some(b),
        is_bare(value),
        absorbed(b, k, value) is Some,
    ensures
        gathered(Family::Signature, lines.push(entry_line(k, value)), empty_block()) == absorbed(
            b,
            k,
            value,
        ),
{
    lemma_entry_taken(b, k, value);
    lemma_gathered_push(Family::Signature, lines, empty_block(), entry_line(k, value));
}

/// The lines of the mandatory fields, written with bare values that
/// read without fault, give a block of exactly those fields.
#[verifier::spinoff_prover]
#[verifier::rlimit(60)]
pub proof fn lemma_written_entries(
    count: Seq<u8>,
    mlen: Seq<u8>,
    msg: Seq<u8>,
    smlen: Seq<u8>,
    sm: Seq<u8>,
    pk: Seq<u8>,
)
    requires
        is_bare(count) && decimal_field(count) is Some,
        is_bare(mlen) && decimal_field(mlen) is Some,
        is_bare(msg) && hex_field(msg) is Some,
        is_bare(smlen) && decimal_field(smlen) is Some,
        is_bare(sm) && hex_field(sm) is Some,
        is_bare(pk) && hex_field(pk) is Some,
    ensures
        gathered(
            Family::Signature,
            mandatory_entries(count, mlen, msg, smlen, sm, pk),
            empty_block(),
        ) == Some(
            BlockView {
                count: decimal_field(count),
                mlen: decimal_field(mlen),
                msg: hex_field(msg),
                smlen: decimal_field(smlen),
                sm: hex_field(sm),
                pk: hex_field(pk),
                sk: None,
            },
        ),
{
    let f = Family::Signature;
    let l0 = Seq::<Seq<u8>>::empty();
    let b0 = empty_block();
    assert(gathered(f, l0, b0) == Some(b0)) by {
        reveal(gathered);
    }
    let b1 = BlockView { count: decimal_field(count), ..b0 };
    let b2 = BlockView { mlen: decimal_field(mlen), ..b1 };
    let b3 = BlockView { msg: hex_field(msg), ..b2 };
    let b4 = BlockView { smlen: decimal_field(smlen), ..b3 };
    let b5 = BlockView { sm: hex_field(sm), ..b4 };
    let b6 = BlockView { pk: hex_field(pk), ..b5 };
    let l1 = l0.push(entry_line(Key::Count, count));
    let l2 = l1.push(entry_line(Key::Mlen, mlen));
    let l3 = l2.push(entry_line(Key::Msg, msg));
    let l4 = l3.push(entry_line(Key::Smlen, smlen));
    let l5 = l4.push(entry_line(Key::Sm, sm));
    let l6 = l5.push(entry_line(Key::Pk, pk));
    lemma_written_field(l0, b0, Key::Count, count);
    assert(gathered(f, l1, b0) == Some(b1));
    lemma_written_field(l1, b1, Key::Mlen, mlen);
    assert(gathered(f, l2, b0) == Some(b2));
    lemma_written_field(l2, b2, Key::Msg, msg);
    assert(gathered(f, l3, b0) == Some(b3));
    lemma_written_field(l3, b3, Key::Smlen, smlen);
    assert(gathered(f, l4, b0) == Some(b4));
    lemma_written_field(l4, b4, Key::Sm, sm);
    assert(gathered(f, l5, b0) == Some(b5));
    lemma_written_field(l5, b5, Key::Pk, pk);
    assert(gathered(f, l6, b0) == Some(b6));
    assert(l6 =~= mandatory_entries(count, mlen, msg, smlen, sm, pk)) by {
        reveal(mandatory_entries);
    }
}

/// The block that the written lines of a record give.
pub open spec fn written_block(s: SigVectorView) -> BlockView {
    BlockView {
        count: Some(s.count),
        mlen: Some(s.msg.len() as u64),
        msg: Some(s.msg),
        smlen: Some(s.sm.len() as u64),
        sm: Some(s.sm),
        pk: Some(s.pk),
        sk: s.sk,
    }
}

/// The written lines of a record's mandatory fields give those fields.
#[verifier::spinoff_prover]
#[verifier::rlimit(60)]
pub proof fn lemma_written_mandatory(s: SigVectorView)
    requires
        s.msg.len() <= u64::MAX,
        s.sm.len() <= u64::MAX,
    ensures
        gathered(Family::Signature, mandatory_lines(s), empty_block()) == Some(
            BlockView { sk: None, ..written_block(s) },
        ),
{
    lemma_written_decimal(s.count as nat);
    lemma_written_decimal(s.msg.len());
    lemma_written_decimal(s.sm.len());
    lemma_written_hex(s.msg);
    lemma_written_hex(s.sm);
    lemma_written_hex(s.pk);
    lemma_written_entries(
        decimal_digits(s.count as nat),
        decimal_digits(s.msg.len()),
        hex_encoded(s.msg),
        decimal_digits(s.sm.len()),
        hex_encoded(s.sm),
        hex_encoded(s.pk),
    );
}

/// The written lines of a record give the record's fields.
pub proof fn lemma_written_block(s: SigVectorView)
    requires
        s.msg.len() <= u64::MAX,
        s.sm.len() <= u64::MAX,
    ensures
        gathered(Family::Signature, encoded_lines(s), empty_block()) == Some(written_block(s)),
{
    lemma_written_mandatory(s);
    match s.sk {
        Some(key) => {
            lemma_written_hex(key);
            lemma_written_field(
                mandatory_lines(s),
                BlockView { sk: None, ..written_block(s) },
                Key::Sk,
                hex_encoded(key),
            );
        },
        None => {},
    }
}

/// Writing a record as a block and reading the block gives the record
/// back: on the records of the signature family, reading undoes writing.
pub proof fn lemma_round_trip(v: TestVectorView)
    requires
        v.scheme_type == Family::Signature,
        v.sig.msg.len() <= u64::MAX,
        v.sig.sm.len() <= u64::MAX,
    ensures
        well_formed_block(Family::Signature, encoded_lines(v.sig)),
        block_record(Family::Signature, v.scheme_id, encoded_lines(v.sig)) == v,
        read_lines(Family::Signature, v.scheme_id, encoded_lines(v.sig), 0, empty_block()) == Ok::<
            Seq<TestVectorView>,
            int,
        >(seq![v]),
{
    lemma_written_block(v.sig);
    assert(record_of(Family::Signature, v.scheme_id, written_block(v.sig)).sig == v.sig);
    lemma_single_block(Family::Signature, v.scheme_id, encoded_lines(v.sig));
}

/// Whether a line holds no line feed.
pub open spec fn no_line_feed(line: Seq<u8>) -> bool {
    forall|i: int| 0 <= i < line.len() ==> #[trigger] line[i] != 10
}

/// The lines of a text written from lines are those lines.
pub proof fn lemma_lines_of_text(lines: Seq<Seq<u8>>)
    requires
        forall|k: int| 0 <= k < lines.len() ==> no_line_feed(#[trigger] lines[k]),
    ensures
        lines_of(text_of(lines)) == lines,
    decreases lines.len(),
{
    if lines.len() > 0 {
        let first = lines[0];
        let rest = text_of(lines.skip(1));
        let text = text_of(lines);
        assert(text =~= first + (seq![10u8] + rest));
        lemma_first_index_after(first, seq![10u8] + rest, 10);
        assert((seq![10u8] + rest)[0] == 10u8);
        assert(first_index(seq![10u8] + rest, 10) == 0);
        assert(text.take(first.len() as int) =~= first);
        assert(text.skip(first.len() as int + 1) =~= rest);
        assert(forall|k: int|
            0 <= k < lines.skip(1).len() ==> no_line_feed(#[trigger] lines.skip(1)[k])) by {
            assert(forall|k: int| 0 <= k < lines.skip(1).len() ==> lines.skip(1)[k] == lines[k + 1]);
        }
        lemma_lines_of_text(lines.skip(1));
        assert(seq![first] + lines.skip(1) =~= lines);
    }
}

/// Reading a text written from lines is reading those lines: what holds
/// of a file's lines holds of its text.
pub proof fn lemma_read_text_of(family: Family, id: u32, lines: Seq<Seq<u8>>)
    requires
        forall|k: int| 0 <= k < lines.len() ==> no_line_feed(#[trigger] lines[k]),
    ensures
        read_text(family, id, text_of(lines)) == read_lines(family, id, lines, 0, empty_block()),
{
    lemma_lines_of_text(lines);
}

/// A written entry holds no line feed where its value holds none.
pub proof fn lemma_entry_on_one_line(k: Key, value: Seq<u8>)
    requires
        no_line_feed(value),
    ensures
        no_line_feed(entry_line(k, value)),
{
    reveal(entry_line);
    let key = key_name(k);
    assert(forall|i: int| 0 <= i < key.len() ==> 97 <= #[trigger] key[i] <= 122);
}

/// The text written for a record reads back as that record and nothing
/// else.
#[verifier::spinoff_prover]
#[verifier::rlimit(60)]
pub proof fn lemma_text_round_trip(v: TestVectorView)
    requires
        v.scheme_type == Family::Signature,
        v.sig.msg.len() <= u64::MAX,
        v.sig.sm.len() <= u64::MAX,
    ensures
        read_text(Family::Signature, v.scheme_id, text_of(encoded_lines(v.sig))) == Ok::<
            Seq<TestVectorView>,
            int,
        >(seq![v]),
{
    let s = v.sig;
    let lines = encoded_lines(s);
    lemma_round_trip(v);
    assert forall|k: int| 0 <= k < lines.len() implies no_line_feed(#[trigger] lines[k]) by {
        reveal(mandatory_entries);
        lemma_decimal_round_trip(s.count as nat);
        lemma_decimal_round_trip(s.msg.len());
        lemma_decimal_round_trip(s.sm.len());
        lemma_hex_round_trip(s.msg);
        lemma_hex_round_trip(s.sm);
        lemma_hex_round_trip(s.pk);
        lemma_entry_on_one_line(Key::Count, decimal_digits(s.count as nat));
        lemma_entry_on_one_line(Key::Mlen, decimal_digits(s.msg.len()));
        lemma_entry_on_one_line(Key::Msg, hex_encoded(s.msg));
        lemma_entry_on_one_line(Key::Smlen, decimal_digits(s.sm.len()));
        lemma_entry_on_one_line(Key::Sm, hex_encoded(s.sm));
        lemma_entry_on_one_line(Key::Pk, hex_encoded(s.pk));
        if s.sk is Some {
            lemma_hex_round_trip(s.sk->0);
            lemma_entry_on_one_line(Key::Sk, hex_encoded(s.sk->0));
        }
    }
    lemma_lines_of_text(lines);
}

} // verus!
