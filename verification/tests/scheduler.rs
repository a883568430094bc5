use cavptool::error::HarnessError;
use cavptool::registry::{registry, Registration, Routine};
use cavptool::scheduler::{check_signature, Action, Event, Phase, Scheduler};
use cavptool::vector::{Family, SigVector, TestVector};

fn lines() -> Vec<Vec<u8>> {
    ["count = 0", "mlen = 3", "msg = 616263", "smlen = 3", "sm = 616263", "pk = 0102"]
        .iter()
        .map(|l| l.as_bytes().to_vec())
        .collect()
}

fn open_and_feed(s: &mut Scheduler) {
    assert_eq!(s.request(), Action::Open { registration: 0 });
    assert_eq!(s.step(Event::Opened), Action::ReadLine);
    for l in lines() {
        assert_eq!(s.step(Event::Line(l)), Action::ReadLine);
    }
}

#[test]
fn registry_is_the_same_on_every_call() {
    let a = registry();
    let b = registry();
    assert_eq!(a, b);
    assert_eq!(a.len(), 1);
    assert_eq!(a[0].scheme_type, Family::Signature);
    assert_eq!(a[0].scheme_id, 0);
    assert_eq!(a[0].kat_file, "round3/dilithium/dilithium2/PQCsignKAT_2544.rsp");
    assert_eq!(a[0].routine, Routine::SignOpen);
}

#[test]
fn missing_file_fails_before_any_verification() {
    let mut s = Scheduler::new(registry());
    assert_eq!(s.request(), Action::Open { registration: 0 });
    assert_eq!(s.step(Event::Missing), Action::Abort(HarnessError::VectorFileNotFound));
    assert_eq!(s.phase, Phase::Failed(HarnessError::VectorFileNotFound));
    assert!(s.pending_record().is_none());
    assert_eq!(s.step(Event::Opened), Action::Ignored);
    assert_eq!(s.request(), Action::Abort(HarnessError::VectorFileNotFound));
}

#[test]
fn one_record_file_with_accepting_primitive_finishes() {
    let mut s = Scheduler::new(registry());
    open_and_feed(&mut s);
    assert_eq!(s.step(Event::EndOfStream), Action::Verify);
    let v = s.pending_record().unwrap().clone();
    assert_eq!(v.sig.count, 0);
    assert_eq!(v.sig.msg, b"abc".to_vec());
    let recovered = v.sig.sm.clone();
    assert_eq!(s.step(Event::Verified { status: 0, recovered }), Action::Finish);
    assert_eq!(s.phase, Phase::Finished);
    assert_eq!(s.step(Event::EndOfStream), Action::Ignored);
}

#[test]
fn rejecting_primitive_fails_the_run_at_that_record() {
    let mut s = Scheduler::new(registry());
    open_and_feed(&mut s);
    assert_eq!(s.step(Event::Line(vec![])), Action::Verify);
    let bad = HarnessError::VerificationFailed { count: 0 };
    assert_eq!(s.step(Event::Verified { status: -1, recovered: b"abc".to_vec() }), Action::Abort(bad));
    assert_eq!(s.step(Event::Line(b"count = 1".to_vec())), Action::Ignored);
    assert_eq!(s.request(), Action::Abort(bad));
}

#[test]
fn recovered_message_that_differs_fails_the_run() {
    let mut s = Scheduler::new(registry());
    open_and_feed(&mut s);
    assert_eq!(s.step(Event::Line(vec![])), Action::Verify);
    assert_eq!(
        s.step(Event::Verified { status: 0, recovered: b"abd".to_vec() }),
        Action::Abort(HarnessError::VerificationFailed { count: 0 })
    );
}

#[test]
fn no_second_verification_while_one_is_awaited() {
    let mut s = Scheduler::new(registry());
    open_and_feed(&mut s);
    assert_eq!(s.step(Event::Line(vec![])), Action::Verify);
    assert_eq!(s.step(Event::Line(b"count = 1".to_vec())), Action::Ignored);
    assert_eq!(s.step(Event::EndOfStream), Action::Ignored);
    assert_eq!(s.step(Event::Opened), Action::Ignored);
    assert_eq!(s.phase, Phase::Verifying { last: false });
    assert_eq!(s.step(Event::Verified { status: 0, recovered: b"abc".to_vec() }), Action::ReadLine);
    assert_eq!(s.step(Event::EndOfStream), Action::Finish);
}

#[test]
fn registrations_are_taken_in_order() {
    let mut table = registry();
    table.push(Registration {
        scheme_type: Family::Signature,
        scheme_id: 1,
        kat_file: "second.rsp",
        routine: Routine::SignOpen,
    });
    let mut s = Scheduler::new(table);
    open_and_feed(&mut s);
    assert_eq!(s.step(Event::EndOfStream), Action::Verify);
    assert_eq!(
        s.step(Event::Verified { status: 0, recovered: b"abc".to_vec() }),
        Action::Open { registration: 1 }
    );
    assert_eq!(s.step(Event::Opened), Action::ReadLine);
    assert_eq!(s.step(Event::Line(b"mlen = 1".to_vec())), Action::ReadLine);
    assert_eq!(s.pending_record(), None);
    assert_eq!(
        s.step(Event::EndOfStream),
        Action::Abort(HarnessError::MalformedVectorFile { line: 1 })
    );
}

#[test]
fn empty_registry_is_finished_at_once() {
    let mut s = Scheduler::new(vec![]);
    assert_eq!(s.request(), Action::Finish);
    assert_eq!(s.step(Event::Opened), Action::Ignored);
}

#[test]
fn read_failure_and_malformed_line_fail_the_run() {
    let mut s = Scheduler::new(registry());
    assert_eq!(s.step(Event::Opened), Action::ReadLine);
    assert_eq!(s.step(Event::ReadFailed), Action::Abort(HarnessError::VectorFileUnreadable));
    let mut s = Scheduler::new(registry());
    assert_eq!(s.step(Event::Opened), Action::ReadLine);
    assert_eq!(s.step(Event::Line(b"count = 0".to_vec())), Action::ReadLine);
    assert_eq!(
        s.step(Event::Line(b"msg = 6".to_vec())),
        Action::Abort(HarnessError::MalformedVectorFile { line: 1 })
    );
}

#[test]
fn signature_check_wants_zero_status_and_the_same_message() {
    let v = TestVector {
        scheme_type: Family::Signature,
        scheme_id: 0,
        sig: SigVector { count: 9, msg: vec![1, 2], sm: vec![3], pk: vec![], sk: None },
    };
    assert_eq!(check_signature(&v, 0, &[1, 2]), Ok(()));
    let bad = Err(HarnessError::VerificationFailed { count: 9 });
    assert_eq!(check_signature(&v, 1, &[1, 2]), bad);
    assert_eq!(check_signature(&v, 0, &[1]), bad);
    assert_eq!(check_signature(&v, 0, &[1, 3]), bad);
}

#[test]
fn error_names() {
    assert_eq!(HarnessError::VectorFileNotFound.name(), "VectorFileNotFound");
    assert_eq!(HarnessError::VectorFileUnreadable.name(), "VectorFileUnreadable");
    assert_eq!(HarnessError::MalformedVectorFile { line: 3 }.name(), "MalformedVectorFile");
    assert_eq!(HarnessError::VerificationFailed { count: 1 }.name(), "VerificationFailed");
    assert_eq!(HarnessError::UsageError.name(), "UsageError");
}

#[test]
fn records_are_verified_once_each_in_file_order() {
    let mut text = Vec::new();
    for count in [0u64, 1, 2, 3] {
        let v = SigVector { count, msg: vec![count as u8], sm: vec![9, count as u8], pk: vec![7], sk: None };
        text.extend(cavptool::encode::write_vector(&v));
        text.push(b'\n');
    }
    let mut s = Scheduler::new(registry());
    let mut action = s.step(Event::Opened);
    let mut lines = cavptool::reader::split_lines(&text).into_iter();
    let mut seen = Vec::new();
    loop {
        let event = match action {
            Action::ReadLine => match lines.next() {
                Some(l) => Event::Line(l),
                None => Event::EndOfStream,
            },
            Action::Verify => {
                let v = s.pending_record().unwrap();
                seen.push(v.sig.count);
                Event::Verified { status: 0, recovered: v.sig.msg.clone() }
            }
            Action::Finish => break,
            other => panic!("unexpected {:?}", other),
        };
        action = s.step(event);
    }
    assert_eq!(seen, vec![0, 1, 2, 3]);
    assert_eq!(s.phase, Phase::Finished);
}

#[test]
fn state_outside_the_registry_awaits_nothing() {
    let mut s = Scheduler::new(registry());
    s.at = 5;
    assert_eq!(s.step(Event::Opened), Action::Ignored);
    assert_eq!(s.phase, Phase::Opening);
}
