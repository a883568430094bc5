use cavptool::encode::{encode_entry, encode_vector, join_lines, write_vector};
use cavptool::error::HarnessError;
use cavptool::reader::{read_vectors, split_line, split_lines, Block, KatReader, LineKind, Step};
use cavptool::text::same_bytes;
use cavptool::vector::{key_bytes, recognize, Family, Key, SigVector, TestVector};

fn abc(count: u64) -> TestVector {
    TestVector {
        scheme_type: Family::Signature,
        scheme_id: 0,
        sig: SigVector {
            count,
            msg: b"abc".to_vec(),
            sm: b"abc".to_vec(),
            pk: vec![1, 2],
            sk: None,
        },
    }
}

const ONE: &[u8] = b"count = 0\nmlen = 3\nmsg = 616263\nsmlen = 3\nsm = 616263\npk = 0102\n";

#[test]
fn single_block_yields_one_record_with_declared_lengths() {
    let got = read_vectors(Family::Signature, 0, ONE).unwrap();
    assert_eq!(got, vec![abc(0)]);
    assert_eq!(got[0].sig.msg.len(), 3);
    assert_eq!(got[0].sig.sm.len(), 3);
}

#[test]
fn blocks_come_out_in_file_order() {
    let text = b"count = 0\nmlen = 3\nmsg = 616263\nsmlen = 3\nsm = 616263\npk = 0102\n\n\
count = 1\nmlen = 3\nmsg = 616263\nsmlen = 3\nsm = 616263\npk = 0102\n\n\
count = 2\nmlen = 3\nmsg = 616263\nsmlen = 3\nsm = 616263\npk = 0102";
    let got = read_vectors(Family::Signature, 0, text).unwrap();
    assert_eq!(got, vec![abc(0), abc(1), abc(2)]);
}

#[test]
fn blank_lines_at_start_and_between_blocks_yield_nothing() {
    let text = b"\n\r\n  \ncount = 0\nmlen = 3\nmsg = 616263\nsmlen = 3\nsm = 616263\npk = 0102\n\n\n";
    assert_eq!(read_vectors(Family::Signature, 0, text).unwrap(), vec![abc(0)]);
    assert_eq!(read_vectors(Family::Signature, 0, b"").unwrap(), vec![]);
    assert_eq!(read_vectors(Family::Signature, 0, b"\n\n").unwrap(), vec![]);
}

#[test]
fn carriage_returns_and_loose_spacing_are_accepted() {
    let text = b"count=0\r\n mlen =3\r\nmsg   =   616263\r\nsmlen = 3\r\nsm = 616263\r\npk = 0102\r\n";
    assert_eq!(read_vectors(Family::Signature, 0, text).unwrap(), vec![abc(0)]);
}

#[test]
fn file_in_the_published_layout_is_read() {
    let text = b"# Dilithium2\n\ncount = 0\nseed = 061550\nmlen = 3\nmsg = 616263\n\
pk = 0102\nsk = 0A0B\nsmlen = 3\nsm = 616263\n\ncount = 1\nseed = 00\nmlen = 3\n\
msg = 616263\npk = 0102\nsk = 0A0B\nsmlen = 3\nsm = 616263\n\n";
    let mut first = abc(0);
    first.sig.sk = Some(vec![0x0a, 0x0b]);
    let mut second = abc(1);
    second.sig.sk = Some(vec![0x0a, 0x0b]);
    assert_eq!(read_vectors(Family::Signature, 0, text).unwrap(), vec![first, second]);
}

#[test]
fn remark_inside_a_block_changes_nothing() {
    let text = b"count = 0\n# note\nmlen = 3\nmsg = 616263\nsmlen = 3\nsm = 616263\npk = 0102\n";
    assert_eq!(read_vectors(Family::Signature, 0, text).unwrap(), vec![abc(0)]);
}

#[test]
fn unrecognized_keys_are_ignored() {
    let text = b"count = 0\nseed = 00FF\nmlen = 3\nmsg = 616263\nsmlen = 3\nsm = 616263\npk = 0102\n";
    assert_eq!(read_vectors(Family::Signature, 0, text).unwrap(), vec![abc(0)]);
}

#[test]
fn private_key_is_kept_where_given() {
    let text = b"count = 4\nmlen = 0\nmsg = \nsmlen = 1\nsm = ff\npk = 0102\nsk = 0A0B\n";
    let got = read_vectors(Family::Signature, 7, text).unwrap();
    assert_eq!(got.len(), 1);
    assert_eq!(got[0].scheme_id, 7);
    assert_eq!(got[0].sig.count, 4);
    assert_eq!(got[0].sig.msg, Vec::<u8>::new());
    assert_eq!(got[0].sig.sm, vec![0xff]);
    assert_eq!(got[0].sig.sk, Some(vec![0x0a, 0x0b]));
}

#[test]
fn declared_length_that_disagrees_is_malformed() {
    let text = b"count = 0\nmlen = 4\nmsg = 616263\nsmlen = 3\nsm = 616263\npk = 0102\n";
    assert_eq!(
        read_vectors(Family::Signature, 0, text),
        Err(HarnessError::MalformedVectorFile { line: 6 })
    );
    let text = b"count = 0\nmlen = 3\nmsg = 616263\nsmlen = 2\nsm = 616263\npk = 0102\n\ncount = 1\n";
    assert_eq!(
        read_vectors(Family::Signature, 0, text),
        Err(HarnessError::MalformedVectorFile { line: 6 })
    );
}

#[test]
fn malformed_hex_under_a_recognized_key_is_malformed() {
    let text = b"count = 0\nmlen = 3\nmsg = 61626\n";
    assert_eq!(
        read_vectors(Family::Signature, 0, text),
        Err(HarnessError::MalformedVectorFile { line: 2 })
    );
    let text = b"count = x\n";
    assert_eq!(
        read_vectors(Family::Signature, 0, text),
        Err(HarnessError::MalformedVectorFile { line: 0 })
    );
}

#[test]
fn stream_that_ends_inside_a_block_is_malformed() {
    let text = b"count = 0\nmlen = 3\nmsg = 616263\n";
    assert_eq!(
        read_vectors(Family::Signature, 0, text),
        Err(HarnessError::MalformedVectorFile { line: 3 })
    );
}

#[test]
fn line_without_equals_sign_and_repeated_key_are_malformed() {
    assert_eq!(
        read_vectors(Family::Signature, 0, b"count = 0\nnonsense\n"),
        Err(HarnessError::MalformedVectorFile { line: 1 })
    );
    assert_eq!(
        read_vectors(Family::Signature, 0, b"count = 0\ncount = 1\n"),
        Err(HarnessError::MalformedVectorFile { line: 1 })
    );
}

#[test]
fn other_families_recognize_no_key() {
    assert_eq!(read_vectors(Family::KeyEncapsulation, 0, ONE).unwrap(), vec![]);
    assert_eq!(recognize(Family::AuthenticatedEncryption, b"msg"), None);
    assert_eq!(recognize(Family::Signature, b"msg"), Some(Key::Msg));
    assert_eq!(recognize(Family::Signature, b"smlen"), Some(Key::Smlen));
    assert_eq!(recognize(Family::Signature, b"MSG"), None);
}

#[test]
fn key_names_are_those_of_the_format() {
    assert_eq!(key_bytes(Key::Count), b"count".to_vec());
    assert_eq!(key_bytes(Key::Mlen), b"mlen".to_vec());
    assert_eq!(key_bytes(Key::Msg), b"msg".to_vec());
    assert_eq!(key_bytes(Key::Smlen), b"smlen".to_vec());
    assert_eq!(key_bytes(Key::Sm), b"sm".to_vec());
    assert_eq!(key_bytes(Key::Pk), b"pk".to_vec());
    assert_eq!(key_bytes(Key::Sk), b"sk".to_vec());
    assert!(same_bytes(b"pk", b"pk"));
    assert!(!same_bytes(b"pk", b"sk"));
    assert!(!same_bytes(b"pk", b"pkk"));
}

#[test]
fn lines_are_cut_at_line_feeds() {
    assert_eq!(split_lines(b"a\nb\n\nc"), vec![b"a".to_vec(), b"b".to_vec(), vec![], b"c".to_vec()]);
    assert_eq!(split_lines(b"a\n"), vec![b"a".to_vec()]);
    assert_eq!(split_lines(b"\n"), vec![Vec::<u8>::new()]);
    assert_eq!(split_lines(b""), Vec::<Vec<u8>>::new());
}

#[test]
fn line_shapes() {
    assert_eq!(split_line(b"  \t").0, LineKind::Blank);
    assert_eq!(split_line(b"# header").0, LineKind::Remark);
    assert_eq!(split_line(b"header").0, LineKind::Stray);
    assert_eq!(split_line(b"# a = b").0, LineKind::Entry);
    let (kind, key, value) = split_line(b" msg =  6162 ");
    assert_eq!(kind, LineKind::Entry);
    assert_eq!(key, b"msg");
    assert_eq!(value, b"6162");
    let (kind, key, value) = split_line(b"a=b=c");
    assert_eq!(kind, LineKind::Entry);
    assert_eq!(key, b"a");
    assert_eq!(value, b"b=c");
}

#[test]
fn reader_steps_through_a_block() {
    let mut r = KatReader::new(Family::Signature, 0);
    assert_eq!(r.feed_line(b""), Step::Pending);
    for line in ONE.split(|c| *c == b'\n').take(6) {
        assert_eq!(r.feed_line(line), Step::Pending);
    }
    assert!(!r.block.is_empty());
    assert_eq!(r.feed_line(b""), Step::Yield(abc(0)));
    assert!(r.block.is_empty());
    assert_eq!(r.flush(), Step::Pending);
    assert_eq!(r.feed_line(b"pk = 01"), Step::Pending);
    assert_eq!(r.flush(), Step::Malformed);
    assert!(r.block.is_empty());
}

#[test]
fn block_keeps_its_fields_when_a_field_is_refused() {
    let mut b = Block::new();
    assert!(b.absorb(Key::Mlen, b"3"));
    let before = b.clone();
    assert!(!b.absorb(Key::Mlen, b"4"));
    assert!(!b.absorb(Key::Msg, b"zz"));
    assert_eq!(b, before);
    assert_eq!(b.complete(Family::Signature, 0), None);
}

#[test]
fn block_is_fed_and_ended_without_a_reader() {
    let mut b = Block::new();
    assert_eq!(b.end(Family::Signature, 0), Step::Pending);
    for line in ONE.split(|c| *c == b'\n').take(6) {
        assert_eq!(b.feed(Family::Signature, 5, line), Step::Pending);
    }
    let mut want = abc(0);
    want.scheme_id = 5;
    assert_eq!(b.end(Family::Signature, 5), Step::Yield(want));
    assert!(b.is_empty());
    assert_eq!(b.feed(Family::Signature, 5, b"sm = 0"), Step::Malformed);
    assert!(b.is_empty());
}

#[test]
fn encoded_record_reads_back_as_itself() {
    let mut v = abc(12);
    v.sig.sk = Some(vec![0, 255, 16]);
    v.sig.msg = vec![];
    let lines = encode_vector(&v.sig);
    assert_eq!(lines[0], b"count = 12".to_vec());
    assert_eq!(lines[1], b"mlen = 0".to_vec());
    assert_eq!(lines[2], b"msg = ".to_vec());
    assert_eq!(lines[4], b"sm = 616263".to_vec());
    assert_eq!(lines[6], b"sk = 00FF10".to_vec());
    let text = lines.join(&b'\n');
    assert_eq!(read_vectors(Family::Signature, 0, &text).unwrap(), vec![v]);
    let w = abc(3);
    let text = encode_vector(&w.sig).join(&b'\n');
    assert_eq!(read_vectors(Family::Signature, 0, &text).unwrap(), vec![w]);
    assert_eq!(encode_entry(Key::Pk, b"0A"), b"pk = 0A".to_vec());
}

#[test]
fn written_text_has_a_line_feed_behind_each_line() {
    assert_eq!(join_lines(&vec![b"a".to_vec(), vec![], b"bc".to_vec()]), b"a\n\nbc\n".to_vec());
    assert_eq!(join_lines(&vec![]), Vec::<u8>::new());
    assert_eq!(split_lines(&join_lines(&vec![b"a".to_vec(), vec![]])), vec![b"a".to_vec(), vec![]]);
    let v = abc(7);
    assert_eq!(
        write_vector(&v.sig),
        b"count = 7\nmlen = 3\nmsg = 616263\nsmlen = 3\nsm = 616263\npk = 0102\n".to_vec()
    );
    assert_eq!(read_vectors(Family::Signature, 0, &write_vector(&v.sig)).unwrap(), vec![v]);
}
