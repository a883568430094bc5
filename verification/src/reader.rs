//! The vector file reader: a block accumulator that is fed one line at a
//! time and hands out a record whenever a block ends.

use vstd::prelude::*;
use crate::error::HarnessError;
use crate::text::{
    decimal_value, decode_hex, find_byte, first_index, hex_decoded, is_decimal_text, is_hex_text,
    parse_decimal, trim, trimmed,
};
use crate::vector::{
    opt_bytes, recognize, recognized, Family, Key, SigVector, SigVectorView, TestVector,
    TestVectorView,
};

verus! {

/// The shape of one line of a vector file.
#[derive(Clone, Copy, Debug, PartialEq, Eq, Structural)]
pub enum LineKind {
    /// Nothing but blanks: the end of a block.
    Blank,
    /// `key = value`.
    Entry,
    /// A remark, which begins with `#` and holds no `=`: it is passed
    /// over, as the title line of a vector file is.
    Remark,
    /// Anything else: the file is malformed.
    Stray,
}

/// The shape of `line`: an entry wherever it holds `=`.
pub open spec fn line_kind(line: Seq<u8>) -> LineKind {
    if first_index(line, 61) < line.len() {
        LineKind::Entry
    } else if trimmed(line).len() == 0 {
        LineKind::Blank
    } else if trimmed(line)[0] == 35 {
        LineKind::Remark
    } else {
        LineKind::Stray
    }
}

/// The key of an entry: what stands before the first `=`, trimmed.
pub open spec fn line_key(line: Seq<u8>) -> Seq<u8> {
    trimmed(line.take(first_index(line, 61)))
}

/// The value of an entry: what stands behind the first `=`, trimmed.
pub open spec fn line_value(line: Seq<u8>) -> Seq<u8> {
    trimmed(line.skip(first_index(line, 61) + 1))
}

/// The fields gathered so far from the block being read.
#[derive(Clone, Debug, PartialEq, Eq)]
pub struct Block {
    pub count: Option<u64>,
    pub mlen: Option<u64>,
    pub msg: Option<Vec<u8>>,
    pub smlen: Option<u64>,
    pub sm: Option<Vec<u8>>,
    pub pk: Option<Vec<u8>>,
    pub sk: Option<Vec<u8>>,
}

/// What a `Block` holds, as mathematical values.
pub ghost struct BlockView {
    pub count: Option<u64>,
    pub mlen: Option<u64>,
    pub msg: Option<Seq<u8>>,
    pub smlen: Option<u64>,
    pub sm: Option<Seq<u8>>,
    pub pk: Option<Seq<u8>>,
    pub sk: Option<Seq<u8>>,
}

impl View for Block {
    type V = BlockView;

    open spec fn view(&self) -> BlockView {
        BlockView {
            count: self.count,
            mlen: self.mlen,
            msg: opt_bytes(self.msg),
            smlen: self.smlen,
            sm: opt_bytes(self.sm),
            pk: opt_bytes(self.pk),
            sk: opt_bytes(self.sk),
        }
    }
}

/// The block that holds no field.
pub open spec fn empty_block() -> BlockView {
    BlockView { count: None, mlen: None, msg: None, smlen: None, sm: None, pk: None, sk: None }
}

/// A decimal field's number, where the field is well formed and fits.
pub open spec fn decimal_field(value: Seq<u8>) -> Option<u64> {
    if is_decimal_text(value) && decimal_value(value) <= u64::MAX {
        Some(decimal_value(value) as u64)
    } else {
        None
    }
}

/// A base16 field's bytes, where the field is well formed.
pub open spec fn hex_field(value: Seq<u8>) -> Option<Seq<u8>> {
    if is_hex_text(value) {
        Some(hex_decoded(value))
    } else {
        None
    }
}

/// The block after one more field. `None` where the block holds that key
/// already or the value is malformed.
pub open spec fn absorbed(b: BlockView, key: Key, value: Seq<u8>) -> Option<BlockView> {
    match key {
        Key::Count => if b.count is None && decimal_field(value) is Some {
            Some(BlockView { count: decimal_field(value), ..b })
        } else {
            None
        },
        Key::Mlen => if b.mlen is None && decimal_field(value) is Some {
            Some(BlockView { mlen: decimal_field(value), ..b })
        } else {
            None
        },
        Key::Smlen => if b.smlen is None && decimal_field(value) is Some {
            Some(BlockView { smlen: decimal_field(value), ..b })
        } else {
            None
        },
        Key::Msg => if b.msg is None && hex_field(value) is Some {
            Some(BlockView { msg: hex_field(value), ..b })
        } else {
            None
        },
        Key::Sm => if b.sm is None && hex_field(value) is Some {
            Some(BlockView { sm: hex_field(value), ..b })
        } else {
            None
        },
        Key::Pk => if b.pk is None && hex_field(value) is Some {
            Some(BlockView { pk: hex_field(value), ..b })
        } else {
            None
        },
        Key::Sk => if b.sk is None && hex_field(value) is Some {
            Some(BlockView { sk: hex_field(value), ..b })
        } else {
            None
        },
    }
}

/// Whether a block holds every mandatory field, with the declared lengths
/// equal to the lengths of the decoded fields.
pub open spec fn is_complete(b: BlockView) -> bool {
    &&& b.count is Some
    &&& b.mlen is Some
    &&& b.msg is Some
    &&& b.smlen is Some
    &&& b.sm is Some
    &&& b.pk is Some
    &&& b.mlen->0 == b.msg->0.len()
    &&& b.smlen->0 == b.sm->0.len()
}

/// The record of a complete block.
pub open spec fn record_of(family: Family, id: u32, b: BlockView) -> TestVectorView {
    TestVectorView {
        scheme_type: family,
        scheme_id: id,
        sig: SigVectorView { count: b.count->0, msg: b.msg->0, sm: b.sm->0, pk: b.pk->0, sk: b.sk },
    }
}

/// What one step of the reader gives.
#[derive(Clone, Debug, PartialEq, Eq)]
pub enum Step {
    /// The block goes on, or no block has begun.
    Pending,
    /// A block ended and this is its record.
    Yield(TestVector),
    /// The input is malformed.
    Malformed,
}

/// What a `Step` holds, as mathematical values.
pub ghost enum StepView {
    Pending,
    Yield(TestVectorView),
    Malformed,
}

impl View for Step {
    type V = StepView;

    open spec fn view(&self) -> StepView {
        match self {
            Step::Pending => StepView::Pending,
            Step::Yield(v) => StepView::Yield(v@),
            Step::Malformed => StepView::Malformed,
        }
    }
}

/// The end of a block: nothing where no field was gathered, the record
/// where the block is complete, a failure otherwise. The reader starts
/// over with no field either way.
pub open spec fn flushed(family: Family, id: u32, b: BlockView) -> StepView {
    if b == empty_block() {
        StepView::Pending
    } else if is_complete(b) {
        StepView::Yield(record_of(family, id, b))
    } else {
        StepView::Malformed
    }
}

/// What feeding `line` to a reader that holds `b` gives.
pub open spec fn fed(family: Family, id: u32, b: BlockView, line: Seq<u8>) -> StepView {
    match line_kind(line) {
        LineKind::Blank => flushed(family, id, b),
        LineKind::Remark => StepView::Pending,
        LineKind::Stray => StepView::Malformed,
        LineKind::Entry => match recognized(family, line_key(line)) {
            None => StepView::Pending,
            Some(k) => if absorbed(b, k, line_value(line)) is Some {
                StepView::Pending
            } else {
                StepView::Malformed
            },
        },
    }
}

/// The fields that a reader holds after it was fed `line`: those of the
/// block so far with the line's field added, and none after a blank line
/// or a failure.
pub open spec fn block_after(family: Family, b: BlockView, line: Seq<u8>) -> BlockView {
    match line_kind(line) {
        LineKind::Blank => empty_block(),
        LineKind::Remark => b,
        LineKind::Stray => empty_block(),
        LineKind::Entry => match recognized(family, line_key(line)) {
            None => b,
            Some(k) => match absorbed(b, k, line_value(line)) {
                Some(b2) => b2,
                None => empty_block(),
            },
        },
    }
}

impl Block {
    /// A block with no field.
    pub fn new() -> (r: Block)
        ensures
            r@ == empty_block(),
    {
        Block { count: None, mlen: None, msg: None, smlen: None, sm: None, pk: None, sk: None }
    }

    /// Whether no field was gathered.
    pub fn is_empty(&self) -> (r: bool)
        ensures
            r == (self@ == empty_block()),
    {
        self.count.is_none() && self.mlen.is_none() && self.msg.is_none() && self.smlen.is_none()
            && self.sm.is_none() && self.pk.is_none() && self.sk.is_none()
    }

    /// Adds one field. On `false` the block is unchanged: it holds the
    /// key already, or the value is malformed.
    pub fn absorb(&mut self, key: Key, value: &[u8]) -> (ok: bool)
        ensures
            ok == absorbed(old(self)@, key, value@) is Some,
            ok ==> final(self)@ == absorbed(old(self)@, key, value@)->0,
            !ok ==> *final(self) == *old(self),
    {
        match key {
            Key::Count => {
                let v = parse_decimal(value);
                if self.count.is_some() || v.is_none() {
                    return false;
                }
                self.count = v;
            },
            Key::Mlen => {
                let v = parse_decimal(value);
                if self.mlen.is_some() || v.is_none() {
                    return false;
                }
                self.mlen = v;
            },
            Key::Smlen => {
                let v = parse_decimal(value);
                if self.smlen.is_some() || v.is_none() {
                    return false;
                }
                self.smlen = v;
            },
            Key::Msg => {
                let v = decode_hex(value);
                if self.msg.is_some() || v.is_none() {
                    return false;
                }
                self.msg = v;
            },
            Key::Sm => {
                let v = decode_hex(value);
                if self.sm.is_some() || v.is_none() {
                    return false;
                }
                self.sm = v;
            },
            Key::Pk => {
                let v = decode_hex(value);
                if self.pk.is_some() || v.is_none() {
                    return false;
                }
                self.pk = v;
            },
            Key::Sk => {
                let v = decode_hex(value);
                if self.sk.is_some() || v.is_none() {
                    return false;
                }
                self.sk = v;
            },
        }
        true
    }

    /// Turns a block into its record. `None` exactly when the block is not
    /// complete.
    pub fn complete(self, family: Family, id: u32) -> (r: Option<TestVector>)
        ensures
            r.is_some() == is_complete(self@),
            r.is_some() ==> r.unwrap()@ == record_of(family, id, self@),
    {
        match (self.count, self.mlen, self.msg, self.smlen, self.sm, self.pk) {
            (Some(count), Some(mlen), Some(msg), Some(smlen), Some(sm), Some(pk)) => {
                if msg.len() as u64 == mlen && sm.len() as u64 == smlen {
                    Some(
                        TestVector {
                            scheme_type: family,
                            scheme_id: id,
                            sig: SigVector { count, msg, sm, pk, sk: self.sk },
                        },
                    )
                } else {
                    None
                }
            },
            _ => None,
        }
    }
}

/// Tells the shape of a line and, of an entry, its key and value; of
/// any other line it gives the line itself in both places.
pub fn split_line(line: &[u8]) -> (r: (LineKind, &[u8], &[u8]))
    ensures
        r.0 == line_kind(line@),
        r.0 == LineKind::Entry ==> r.1@ == line_key(line@) && r.2@ == line_value(line@),
        r.0 != LineKind::Entry ==> r.1@ == line@ && r.2@ == line@,
{
    let eq: usize = find_byte(line, 61);
    if eq < line.len() {
        let key = trim(vstd::slice::slice_subrange(line, 0, eq));
        let value = trim(vstd::slice::slice_subrange(line, eq + 1, line.len()));
        (LineKind::Entry, key, value)
    } else {
        let bare = trim(line);
        if bare.len() == 0 {
            (LineKind::Blank, line, line)
        } else if bare[0] == 35 {
            (LineKind::Remark, line, line)
        } else {
            (LineKind::Stray, line, line)
        }
    }
}

impl Block {
    /// Ends the block: gives its record, or a failure where it is not
    /// complete, and starts over with no field. Nothing where no field
    /// was gathered.
    pub fn end(&mut self, family: Family, id: u32) -> (r: Step)
        ensures
            r@ == flushed(family, id, old(self)@),
            final(self)@ == empty_block(),
    {
        if self.is_empty() {
            return Step::Pending;
        }
        let mut taken = Block::new();
        core::mem::swap(self, &mut taken);
        match taken.complete(family, id) {
            Some(v) => Step::Yield(v),
            None => Step::Malformed,
        }
    }

    /// Takes one line of the file, without its line feed: a blank line
    /// ends the block, an entry adds its field.
    pub fn feed(&mut self, family: Family, id: u32, line: &[u8]) -> (r: Step)
        ensures
            r@ == fed(family, id, old(self)@, line@),
            final(self)@ == block_after(family, old(self)@, line@),
    {
        let (kind, key, value) = split_line(line);
        match kind {
            LineKind::Blank => self.end(family, id),
            LineKind::Remark => Step::Pending,
            LineKind::Stray => {
                *self = Block::new();
                Step::Malformed
            },
            LineKind::Entry => match recognize(family, key) {
                None => Step::Pending,
                Some(k) => {
                    if self.absorb(k, value) {
                        Step::Pending
                    } else {
                        *self = Block::new();
                        Step::Malformed
                    }
                },
            },
        }
    }
}

/// A reader of one vector file.
#[derive(Clone, Debug, PartialEq, Eq)]
pub struct KatReader {
    pub scheme_type: Family,
    pub scheme_id: u32,
    pub block: Block,
}

impl KatReader {
    /// A reader at the start of a file of the given scheme.
    pub fn new(scheme_type: Family, scheme_id: u32) -> (r: KatReader)
        ensures
            r.scheme_type == scheme_type,
            r.scheme_id == scheme_id,
            r.block@ == empty_block(),
    {
        KatReader { scheme_type, scheme_id, block: Block::new() }
    }

    /// Ends the block being read, as a blank line and the end of the
    /// stream both do.
    pub fn flush(&mut self) -> (r: Step)
        ensures
            r@ == flushed(old(self).scheme_type, old(self).scheme_id, old(self).block@),
            final(self).block@ == empty_block(),
            final(self).scheme_type == old(self).scheme_type,
            final(self).scheme_id == old(self).scheme_id,
    {
        self.block.end(self.scheme_type, self.scheme_id)
    }

    /// Takes the next line of the file, without its line feed.
    pub fn feed_line(&mut self, line: &[u8]) -> (r: Step)
        ensures
            r@ == fed(old(self).scheme_type, old(self).scheme_id, old(self).block@, line@),
            final(self).block@ == block_after(old(self).scheme_type, old(self).block@, line@),
            final(self).scheme_type == old(self).scheme_type,
            final(self).scheme_id == old(self).scheme_id,
    {
        self.block.feed(self.scheme_type, self.scheme_id, line)
    }
}

/// The lines of a text: what stands between its line feeds. A line feed
/// at the very end begins no further line.
pub open spec fn lines_of(s: Seq<u8>) -> Seq<Seq<u8>>
    decreases s.len(),
{
    if s.len() == 0 {
        Seq::empty()
    } else {
        let k = first_index(s, 10);
        if 0 <= k < s.len() {
            seq![s.take(k)] + lines_of(s.skip(k + 1))
        } else {
            seq![s]
        }
    }
}

/// The contents of a list of lines.
pub open spec fn line_views(v: Seq<Vec<u8>>) -> Seq<Seq<u8>> {
    v.map_values(|l: Vec<u8>| l@)
}

/// The contents of a list of records.
pub open spec fn record_views(v: Seq<TestVector>) -> Seq<TestVectorView> {
    v.map_values(|t: TestVector| t@)
}

/// `res` with the records `first` put before its own.
pub open spec fn preceded(
    first: Seq<TestVectorView>,
    res: Result<Seq<TestVectorView>, int>,
) -> Result<Seq<TestVectorView>, int> {
    match res {
        Ok(rest) => Ok(first + rest),
        Err(e) => Err(e),
    }
}

/// What reading `lines` gives to a reader that holds `b` and has taken
/// `at` lines before: the records in the order of their blocks, or the
/// number of the line at which the first fault shows. The end of the
/// stream ends the last block.
pub open spec fn read_lines(
    family: Family,
    id: u32,
    lines: Seq<Seq<u8>>,
    at: int,
    b: BlockView,
) -> Result<Seq<TestVectorView>, int>
    decreases lines.len(),
{
    if lines.len() == 0 {
        match flushed(family, id, b) {
            StepView::Pending => Ok(Seq::empty()),
            StepView::Yield(v) => Ok(seq![v]),
            StepView::Malformed => Err(at),
        }
    } else {
        let rest = read_lines(
            family,
            id,
            lines.skip(1),
            at + 1,
            block_after(family, b, lines[0]),
        );
        match fed(family, id, b, lines[0]) {
            StepView::Pending => rest,
            StepView::Yield(v) => preceded(seq![v], rest),
            StepView::Malformed => Err(at),
        }
    }
}

/// What reading a whole vector file gives.
pub open spec fn read_text(family: Family, id: u32, input: Seq<u8>) -> Result<
    Seq<TestVectorView>,
    int,
> {
    read_lines(family, id, lines_of(input), 0, empty_block())
}

/// Cuts a text into its lines.
pub fn split_lines(input: &[u8]) -> (r: Vec<Vec<u8>>)
    ensures
        line_views(r@) == lines_of(input@),
{
    let n: usize = input.len();
    let mut out: Vec<Vec<u8>> = Vec::new();
    let mut pos: usize = 0;
    assert(input@.skip(0) =~= input@);
    assert(line_views(out@) + lines_of(input@) =~= lines_of(input@));
    while pos < n
        invariant
            n == input@.len(),
            pos <= n,
            lines_of(input@) == line_views(out@) + lines_of(input@.skip(pos as int)),
        decreases n - pos,
    {
        let rest = vstd::slice::slice_subrange(input, pos, n);
        assert(rest@ =~= input@.skip(pos as int));
        let k: usize = find_byte(rest, 10);
        let line = vstd::slice::slice_to_vec(vstd::slice::slice_subrange(rest, 0, k));
        let ghost before = line_views(out@);
        out.push(line);
        assert(line_views(out@) =~= before.push(rest@.take(k as int)));
        if k < rest.len() {
            assert(rest@.skip(k + 1) =~= input@.skip(pos + k + 1));
            assert(before + (seq![rest@.take(k as int)] + lines_of(rest@.skip(k + 1)))
                =~= line_views(out@) + lines_of(rest@.skip(k + 1)));
            pos = pos + k + 1;
        } else {
            assert(rest@.take(k as int) =~= rest@);
            assert(before + seq![rest@] =~= line_views(out@) + lines_of(input@.skip(n as int)));
            pos = n;
        }
    }
    assert(line_views(out@) + lines_of(input@.skip(pos as int)) =~= line_views(out@));
    out
}

/// Reads every record of a vector file, in file order. Fails with
/// `MalformedVectorFile` at the first fault, and gives no record then.
pub fn read_vectors(family: Family, id: u32, input: &[u8]) -> (r: Result<
    Vec<TestVector>,
    HarnessError,
>)
    ensures
        match read_text(family, id, input@) {
            Ok(records) => r.is_ok() && record_views(r.unwrap()@) == records,
            Err(at) => r == Err::<Vec<TestVector>, HarnessError>(
                HarnessError::MalformedVectorFile { line: at as usize },
            ) && 0 <= at <= usize::MAX,
        },
{
    let lines = split_lines(input);
    let mut reader = KatReader::new(family, id);
    let mut out: Vec<TestVector> = Vec::new();
    let mut i: usize = 0;
    let ghost all = line_views(lines@);
    assert(all.skip(0) =~= all);
    assert(preceded(record_views(out@), read_lines(family, id, all, 0, empty_block()))
        == read_lines(family, id, all, 0, empty_block())) by {
        let res = read_lines(family, id, all, 0, empty_block());
        if res is Ok {
            assert(record_views(out@) + res->Ok_0 =~= res->Ok_0);
        }
    }
    while i < lines.len()
        invariant
            all == line_views(lines@),
            all == lines_of(input@),
            i <= lines@.len(),
            reader.scheme_type == family,
            reader.scheme_id == id,
            read_text(family, id, input@) == preceded(
                record_views(out@),
                read_lines(family, id, all.skip(i as int), i as int, reader.block@),
            ),
        decreases lines@.len() - i,
    {
        let ghost b = reader.block@;
        let ghost before = record_views(out@);
        assert(all.skip(i as int).skip(1) =~= all.skip(i + 1));
        assert(all.skip(i as int)[0] == lines@[i as int]@);
        match reader.feed_line(lines[i].as_slice()) {
            Step::Pending => {},
            Step::Yield(v) => {
                out.push(v);
                assert(record_views(out@) =~= before.push(v@));
                proof {
                    let rest = read_lines(family, id, all.skip(i + 1), i + 1, reader.block@);
                    if rest is Ok {
                        assert(before + (seq![v@] + rest->Ok_0) =~= record_views(out@)
                            + rest->Ok_0);
                    }
                }
            },
            Step::Malformed => {
                return Err(HarnessError::MalformedVectorFile { line: i });
            },
        }
        i = i + 1;
    }
    assert(all.skip(i as int).len() == 0);
    let ghost before = record_views(out@);
    match reader.flush() {
        Step::Pending => {
            assert(before + Seq::<TestVectorView>::empty() =~= before);
            Ok(out)
        },
        Step::Yield(v) => {
            out.push(v);
            assert(record_views(out@) =~= before + seq![v@]);
            Ok(out)
        },
        Step::Malformed => Err(HarnessError::MalformedVectorFile { line: i }),
    }
}

} // verus!
