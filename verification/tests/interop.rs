use cavptool::reader::read_vectors;
use cavptool::vector::Family;
use katwalk::reader::{AlgType, KatReader};
use std::io::{BufReader, Cursor};

const PUBLISHED: &[u8] = b"# Dilithium2\n\n\
count = 0\nseed = 061550234D158C5EC95595FE04EF7A25\nmlen = 3\nmsg = D81C4D\n\
pk = 1C0EE1\nsk = 1C0EE111\nsmlen = 5\nsm = AF5920D81C\n\n\
count = 1\nseed = D81C4D8D734FCBFBEADE3D3F8A039FAA\nmlen = 0\nmsg = \n\
pk = 0A0B\nsk = 0C\nsmlen = 2\nsm = 0102\n\n";

#[test]
fn records_of_a_published_file_are_those_that_katwalk_reads() {
    let ours = read_vectors(Family::Signature, 3, PUBLISHED).unwrap();
    let theirs: Vec<_> =
        KatReader::new(BufReader::new(Cursor::new(PUBLISHED)), AlgType::AlgSignature, 3).collect();
    assert_eq!(ours.len(), 2);
    assert_eq!(theirs.len(), 2);
    for (a, b) in ours.iter().zip(theirs.iter()) {
        assert_eq!(a.scheme_id, b.scheme_id);
        assert_eq!(a.sig.count, b.sig.count as u64);
        assert_eq!(a.sig.msg, b.sig.msg);
        assert_eq!(a.sig.sm, b.sig.sm);
        assert_eq!(a.sig.pk, b.sig.pk);
        assert_eq!(a.sig.sk.as_ref(), Some(&b.sig.sk));
        assert_eq!(a.sig.msg.len(), b.sig.mlen);
        assert_eq!(a.sig.sm.len(), b.sig.smlen);
    }
    assert_eq!(ours[0].sig.msg, vec![0xd8, 0x1c, 0x4d]);
    assert_eq!(ours[1].sig.sm, vec![1, 2]);
}
