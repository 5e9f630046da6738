use subuidless::stat::{FileStatDef, StatField};
use subuidless::verdict::{
    classify, compare, judge, ExitStatus, Field, LaunchError, OpKind, Outcome, Verdict,
};

fn dev_stat() -> FileStatDef {
    FileStatDef {
        st_dev: 95,
        st_ino: 1,
        st_nlink: 5,
        st_mode: 16877,
        st_uid: 0,
        st_gid: 0,
        st_rdev: 0,
        st_size: 340,
        st_blksize: 4096,
        st_blocks: 0,
        st_atime: 1_700_000_000,
        st_atime_nsec: 1,
        st_mtime: -5,
        st_mtime_nsec: 2,
        st_ctime: 3,
        st_ctime_nsec: 999_999_999,
    }
}

fn success(st: &FileStatDef) -> Outcome {
    let text: String = st.encode().into_iter().collect();
    Outcome { status: ExitStatus::Success, stdout: text.into_bytes() }
}

#[test]
fn payload_text_is_flat_record() {
    let text: String = dev_stat().encode().into_iter().collect();
    assert_eq!(
        text,
        "{\"st_dev\":95,\"st_ino\":1,\"st_nlink\":5,\"st_mode\":16877,\"st_uid\":0,\"st_gid\":0,\
         \"st_rdev\":0,\"st_size\":340,\"st_blksize\":4096,\"st_blocks\":0,\
         \"st_atime\":1700000000,\"st_atime_nsec\":1,\"st_mtime\":-5,\"st_mtime_nsec\":2,\
         \"st_ctime\":3,\"st_ctime_nsec\":999999999}"
    );
}

#[test]
fn payload_round_trips() {
    let mut st = dev_stat();
    st.st_dev = u64::MAX;
    st.st_size = i64::MIN;
    st.st_uid = u32::MAX;
    let back = FileStatDef::decode(&st.encode());
    assert_eq!(back, Some(st));
}

#[test]
fn payload_with_wrong_width_is_refused() {
    let text = dev_stat().encode();
    let s: String = text.into_iter().collect();
    let bad = s.replace("\"st_uid\":0", "\"st_uid\":4294967296");
    assert_eq!(FileStatDef::decode(&bad.chars().collect()), None);
}

#[test]
fn load_bearing_dev_owner_and_group_match() {
    // Two stats of /dev that agree on owner and group (both root).
    let a = dev_stat();
    let b = dev_stat();
    assert_eq!(a.st_uid, 0);
    assert_eq!(b.st_gid, 0);
    assert!(matches!(judge(OpKind::MetadataQuery, &success(&a), &success(&b)), Verdict::Match));
}

#[test]
fn noise_fields_do_not_count() {
    let a = dev_stat();
    let mut b = dev_stat();
    b.st_dev = 7;
    b.st_ino = 99;
    b.st_atime = 0;
    b.st_mtime_nsec = 5;
    b.st_ctime = 1;
    b.st_blocks = 8;
    b.st_blksize = 512;
    assert!(matches!(judge(OpKind::MetadataQuery, &success(&a), &success(&b)), Verdict::Match));
}

#[test]
fn owner_divergence_is_named() {
    let a = dev_stat();
    let mut b = dev_stat();
    b.st_uid = 65534;
    match judge(OpKind::MetadataQuery, &success(&a), &success(&b)) {
        Verdict::Mismatch { fields, test, baseline } => {
            assert_eq!(fields, vec![Field::Stat(StatField::Uid)]);
            assert_eq!(test, Some(a));
            assert_eq!(baseline, Some(b));
        }
        _ => panic!("divergence missed"),
    }
    let mut c = dev_stat();
    c.st_uid = 1;
    c.st_gid = 1;
    match judge(OpKind::MetadataQuery, &success(&a), &success(&c)) {
        Verdict::Mismatch { fields, .. } => {
            assert_eq!(fields, vec![Field::Stat(StatField::Uid), Field::Stat(StatField::Gid)])
        }
        _ => panic!("divergence missed"),
    }
}

#[test]
fn failure_parity_is_required() {
    let ok = success(&dev_stat());
    let failed = Outcome { status: ExitStatus::Failure(1), stdout: vec![] };
    match judge(OpKind::MetadataQuery, &ok, &failed) {
        Verdict::Mismatch { fields, test, baseline } => {
            assert_eq!(fields, vec![Field::Status]);
            assert_eq!(test, None);
            assert_eq!(baseline, None);
        }
        _ => panic!("parity missed"),
    }
    assert!(matches!(
        judge(OpKind::OwnershipChange, &failed, &Outcome { status: ExitStatus::Success, stdout: vec![] }),
        Verdict::Mismatch { .. }
    ));
}

#[test]
fn consistent_failures_agree_whatever_they_print() {
    let a = Outcome { status: ExitStatus::Failure(1), stdout: b"one".to_vec() };
    let b = Outcome { status: ExitStatus::Failure(1), stdout: b"two".to_vec() };
    assert!(matches!(judge(OpKind::MetadataQuery, &a, &b), Verdict::BothFailedConsistently));
    let c = Outcome { status: ExitStatus::Failure(2), stdout: vec![] };
    assert!(matches!(judge(OpKind::MetadataQuery, &a, &c), Verdict::Mismatch { .. }));
}

#[test]
fn unreadable_payload_is_a_mismatch() {
    let ok = success(&dev_stat());
    let junk = Outcome { status: ExitStatus::Success, stdout: b"{\"st_dev\":1}".to_vec() };
    match judge(OpKind::MetadataQuery, &ok, &junk) {
        Verdict::Mismatch { fields, test, baseline } => {
            assert_eq!(fields, vec![Field::Payload]);
            assert_eq!(test, Some(dev_stat()));
            assert_eq!(baseline, None);
        }
        _ => panic!("junk accepted"),
    }
    let non_ascii = Outcome { status: ExitStatus::Success, stdout: vec![0xff] };
    assert!(matches!(judge(OpKind::MetadataQuery, &non_ascii, &non_ascii), Verdict::Mismatch { .. }));
}

#[test]
fn ownership_change_has_no_payload_to_compare() {
    let a = Outcome { status: ExitStatus::Success, stdout: vec![] };
    let b = Outcome { status: ExitStatus::Success, stdout: vec![] };
    assert!(matches!(judge(OpKind::OwnershipChange, &a, &b), Verdict::Match));
}

#[test]
fn launch_errors_are_not_verdicts() {
    let ok = || Outcome { status: ExitStatus::Success, stdout: vec![] };
    assert!(matches!(compare(OpKind::OwnershipChange, Err(LaunchError::Spawn), Ok(ok())), Err(LaunchError::Spawn)));
    assert!(matches!(
        compare(OpKind::OwnershipChange, Ok(ok()), Err(LaunchError::Incomplete)),
        Err(LaunchError::Incomplete)
    ));
    match compare(OpKind::OwnershipChange, Ok(ok()), Ok(ok())) {
        Ok(rec) => assert!(matches!(rec.verdict, Verdict::Match)),
        Err(_) => panic!("launch error invented"),
    }
}

#[test]
fn exit_codes_classify() {
    assert_eq!(classify(0), ExitStatus::Success);
    assert_eq!(classify(101), ExitStatus::Failure(101));
}
