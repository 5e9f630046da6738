//! The differential comparison of a test outcome against a baseline outcome,
//! under a comparison policy declared per operation kind.
use crate::stat::{field_value, parse_stat, FileStatDef, StatField};
use vstd::prelude::*;

verus! {

/// How an executor run ended: success, or failure with its exit code.
#[derive(PartialEq, Eq, Structural, Clone, Copy, Debug)]
pub enum ExitStatus {
    Success,
    Failure(i32),
}

/// The exit status that an exit code stands for.
pub fn classify(code: i32) -> (r: ExitStatus)
    ensures
        r == (if code == 0 {
            ExitStatus::Success
        } else {
            ExitStatus::Failure(code)
        }),
{
    if code == 0 {
        ExitStatus::Success
    } else {
        ExitStatus::Failure(code)
    }
}

/// What one sandboxed run of the executor produced.
pub struct Outcome {
    pub status: ExitStatus,
    pub stdout: Vec<u8>,
}

/// The sandbox itself could not start or finish the run.
#[derive(PartialEq, Eq, Structural, Clone, Copy, Debug)]
pub enum LaunchError {
    /// The runtime could not be started.
    Spawn,
    /// The runtime did not run to completion (killed, timed out).
    Incomplete,
}

/// The kind of an operation, which fixes its result shape.
#[derive(PartialEq, Eq, Structural, Clone, Copy, Debug)]
pub enum OpKind {
    /// Returns a metadata record.
    MetadataQuery,
    /// Returns nothing.
    OwnershipChange,
}

/// A field on which two outcomes diverge.
#[derive(PartialEq, Eq, Structural, Clone, Copy, Debug)]
pub enum Field {
    /// The exit statuses differ.
    Status,
    /// A payload that should be a record could not be read.
    Payload,
    /// A load-bearing field of the record differs.
    Stat(StatField),
}

/// The result of comparing two outcomes.
pub enum Verdict {
    Match,
    /// The outcomes diverge on these fields; the decoded payloads come along.
    Mismatch { fields: Vec<Field>, test: Option<FileStatDef>, baseline: Option<FileStatDef> },
    /// Both runs failed alike.
    BothFailedConsistently,
}

pub ghost enum VerdictModel {
    Match,
    Mismatch(Seq<Field>, Option<FileStatDef>, Option<FileStatDef>),
    BothFailedConsistently,
}

impl View for Verdict {
    type V = VerdictModel;

    open spec fn view(&self) -> VerdictModel {
        match self {
            Verdict::Match => VerdictModel::Match,
            Verdict::Mismatch { fields, test, baseline } => VerdictModel::Mismatch(
                fields@,
                *test,
                *baseline,
            ),
            Verdict::BothFailedConsistently => VerdictModel::BothFailedConsistently,
        }
    }
}

/// Both outcomes of one trial with the verdict on them.
pub struct EquivalenceRecord {
    pub test: Outcome,
    pub baseline: Outcome,
    pub verdict: Verdict,
}

/// The comparison policy: the load-bearing fields of each operation kind.
/// For a metadata query these are the owner and group ids; every other field
/// (device, inode, link count, mode, sizes, blocks, timestamps) is noise that
/// depends on the environment. An ownership change has no payload.
pub open spec fn load_bearing(kind: OpKind) -> Seq<StatField> {
    match kind {
        OpKind::MetadataQuery => seq![StatField::Uid, StatField::Gid],
        OpKind::OwnershipChange => Seq::empty(),
    }
}

pub fn load_bearing_fields(kind: OpKind) -> (r: Vec<StatField>)
    ensures
        r@ == load_bearing(kind),
{
    match kind {
        OpKind::MetadataQuery => vec![StatField::Uid, StatField::Gid],
        OpKind::OwnershipChange => Vec::new(),
    }
}

/// The text of an output that holds only ASCII bytes.
pub open spec fn ascii_text(b: Seq<u8>) -> Option<Seq<char>> {
    if forall|k: int| 0 <= k < b.len() ==> #[trigger] b[k] < 128 {
        Some(b.map_values(|x: u8| x as char))
    } else {
        None
    }
}

/// The metadata record that an output holds, when it holds one.
pub open spec fn payload_of(b: Seq<u8>) -> Option<FileStatDef> {
    match ascii_text(b) {
        Some(t) => parse_stat(t),
        None => None,
    }
}

/// The fields of `fs`, in order, on which `a` and `b` differ.
pub open spec fn diverging(fs: Seq<StatField>, a: FileStatDef, b: FileStatDef) -> Seq<Field>
    decreases fs.len(),
{
    if fs.len() == 0 {
        Seq::empty()
    } else {
        diverging(fs.drop_last(), a, b) + if field_value(a, fs.last()) != field_value(
            b,
            fs.last(),
        ) {
            seq![Field::Stat(fs.last())]
        } else {
            Seq::empty()
        }
    }
}

/// The verdict on a test outcome and a baseline outcome.
pub open spec fn judge_spec(
    kind: OpKind,
    ts: ExitStatus,
    tout: Seq<u8>,
    bs: ExitStatus,
    bout: Seq<u8>,
) -> VerdictModel {
    if ts != bs {
        VerdictModel::Mismatch(seq![Field::Status], None, None)
    } else if ts is Failure {
        VerdictModel::BothFailedConsistently
    } else if load_bearing(kind).len() == 0 {
        VerdictModel::Match
    } else {
        match (payload_of(tout), payload_of(bout)) {
            (Some(a), Some(b)) => if diverging(load_bearing(kind), a, b).len() == 0 {
                VerdictModel::Match
            } else {
                VerdictModel::Mismatch(diverging(load_bearing(kind), a, b), Some(a), Some(b))
            },
            (x, y) => VerdictModel::Mismatch(seq![Field::Payload], x, y),
        }
    }
}

fn ascii_chars(b: &Vec<u8>) -> (r: Option<Vec<char>>)
    ensures
        match r {
            Some(t) => ascii_text(b@) == Some(t@),
            None => ascii_text(b@) is None,
        },
{
    let mut out: Vec<char> = Vec::new();
    let mut k: usize = 0;
    while k < b.len()
        invariant
            k <= b.len(),
            out@ =~= b@.subrange(0, k as int).map_values(|x: u8| x as char),
            forall|j: int| 0 <= j < k ==> #[trigger] b@[j] < 128,
        decreases b.len() - k,
    {
        if b[k] >= 128 {
            return None;
        }
        out.push(b[k] as char);
        k = k + 1;
    }
    assert(b@.subrange(0, k as int) =~= b@);
    Some(out)
}

fn payload(b: &Vec<u8>) -> (r: Option<FileStatDef>)
    ensures
        r == payload_of(b@),
{
    match ascii_chars(b) {
        Some(t) => FileStatDef::decode(&t),
        None => None,
    }
}

fn stat_field_value(st: &FileStatDef, f: StatField) -> (r: i128)
    ensures
        r as int == field_value(*st, f),
{
    match f {
        StatField::Dev => st.st_dev as i128,
        StatField::Ino => st.st_ino as i128,
        StatField::Nlink => st.st_nlink as i128,
        StatField::Mode => st.st_mode as i128,
        StatField::Uid => st.st_uid as i128,
        StatField::Gid => st.st_gid as i128,
        StatField::Rdev => st.st_rdev as i128,
        StatField::Size => st.st_size as i128,
        StatField::Blksize => st.st_blksize as i128,
        StatField::Blocks => st.st_blocks as i128,
        StatField::Atime => st.st_atime as i128,
        StatField::AtimeNsec => st.st_atime_nsec as i128,
        StatField::Mtime => st.st_mtime as i128,
        StatField::MtimeNsec => st.st_mtime_nsec as i128,
        StatField::Ctime => st.st_ctime as i128,
        StatField::CtimeNsec => st.st_ctime_nsec as i128,
    }
}

/// The fields of `fs` on which two records differ, in the order of `fs`.
pub fn diverging_fields(fs: &Vec<StatField>, a: &FileStatDef, b: &FileStatDef) -> (r: Vec<Field>)
    ensures
        r@ == diverging(fs@, *a, *b),
{
    let mut out: Vec<Field> = Vec::new();
    let mut k: usize = 0;
    while k < fs.len()
        invariant
            k <= fs.len(),
            out@ == diverging(fs@.subrange(0, k as int), *a, *b),
        decreases fs.len() - k,
    {
        let f = fs[k];
        let ghost pre = fs@.subrange(0, k as int + 1);
        assert(pre.drop_last() =~= fs@.subrange(0, k as int));
        assert(pre.last() == f);
        if stat_field_value(a, f) != stat_field_value(b, f) {
            out.push(Field::Stat(f));
            assert(out@ =~= diverging(pre, *a, *b));
        } else {
            assert(out@ =~= diverging(pre, *a, *b));
        }
        k = k + 1;
    }
    assert(fs@.subrange(0, k as int) =~= fs@);
    out
}

/// The verdict on a test outcome against a baseline outcome: the statuses
/// must agree; two failures agree whatever they printed; two successes are
/// compared on the load-bearing fields of their payloads only.
pub fn judge(kind: OpKind, test: &Outcome, baseline: &Outcome) -> (r: Verdict)
    ensures
        r@ == judge_spec(kind, test.status, test.stdout@, baseline.status, baseline.stdout@),
{
    if test.status != baseline.status {
        let mut fields: Vec<Field> = Vec::new();
        fields.push(Field::Status);
        assert(fields@ =~= seq![Field::Status]);
        return Verdict::Mismatch { fields, test: None, baseline: None };
    }
    if let ExitStatus::Failure(_) = test.status {
        return Verdict::BothFailedConsistently;
    }
    let policy = load_bearing_fields(kind);
    if policy.len() == 0 {
        return Verdict::Match;
    }
    let a = payload(&test.stdout);
    let b = payload(&baseline.stdout);
    match (a, b) {
        (Some(a), Some(b)) => {
            let fields = diverging_fields(&policy, &a, &b);
            if fields.len() == 0 {
                Verdict::Match
            } else {
                Verdict::Mismatch { fields, test: Some(a), baseline: Some(b) }
            }
        },
        (a, b) => {
            let mut fields: Vec<Field> = Vec::new();
            fields.push(Field::Payload);
            assert(fields@ =~= seq![Field::Payload]);
            Verdict::Mismatch { fields, test: a, baseline: b }
        },
    }
}

/// One trial: the two launches' results and the verdict. A launch that could
/// not run is reported as such and never becomes a verdict.
pub fn compare(kind: OpKind, test: Result<Outcome, LaunchError>, baseline: Result<
    Outcome,
    LaunchError,
>) -> (r: Result<EquivalenceRecord, LaunchError>)
    ensures
        test is Err ==> r == Err::<EquivalenceRecord, LaunchError>(test->Err_0),
        test is Ok && baseline is Err ==> r == Err::<EquivalenceRecord, LaunchError>(
            baseline->Err_0,
        ),
        test is Ok && baseline is Ok ==> (r matches Ok(rec) && rec.test == test->Ok_0
            && rec.baseline == baseline->Ok_0 && rec.verdict@ == judge_spec(
            kind,
            rec.test.status,
            rec.test.stdout@,
            rec.baseline.status,
            rec.baseline.stdout@,
        )),
{
    let test = match test {
        Ok(t) => t,
        Err(e) => {
            return Err(e);
        },
    };
    let baseline = match baseline {
        Ok(b) => b,
        Err(e) => {
            return Err(e);
        },
    };
    let verdict = judge(kind, &test, &baseline);
    Ok(EquivalenceRecord { test, baseline, verdict })
}

/// Failure parity: when exactly one of the two runs fails, the verdict is a
/// mismatch on the exit status alone, whatever either run printed.
pub proof fn lemma_failure_parity(
    kind: OpKind,
    ts: ExitStatus,
    tout: Seq<u8>,
    bs: ExitStatus,
    bout: Seq<u8>,
)
    requires
        (ts is Failure) != (bs is Failure),
    ensures
        judge_spec(kind, ts, tout, bs, bout) == VerdictModel::Mismatch(
            seq![Field::Status],
            None,
            None,
        ),
{
}

/// Two runs that failed with the same status agree, whatever they printed.
pub proof fn lemma_both_failed(kind: OpKind, code: i32, tout: Seq<u8>, bout: Seq<u8>)
    ensures
        judge_spec(kind, ExitStatus::Failure(code), tout, ExitStatus::Failure(code), bout)
            == VerdictModel::BothFailedConsistently,
{
}

/// Noise tolerance: two successful metadata queries whose records agree on
/// owner and group match, however they differ on device, inode, timestamps,
/// block counts or any other field.
pub proof fn lemma_noise_tolerance(tout: Seq<u8>, bout: Seq<u8>, a: FileStatDef, b: FileStatDef)
    requires
        payload_of(tout) == Some(a),
        payload_of(bout) == Some(b),
        a.st_uid == b.st_uid,
        a.st_gid == b.st_gid,
    ensures
        judge_spec(OpKind::MetadataQuery, ExitStatus::Success, tout, ExitStatus::Success, bout)
            == VerdictModel::Match,
{
    let fs = load_bearing(OpKind::MetadataQuery);
    let f1 = fs.drop_last();
    assert(f1 =~= seq![StatField::Uid]);
    assert(f1.drop_last() =~= Seq::<StatField>::empty());
    assert(fs.last() == StatField::Gid);
    assert(f1.last() == StatField::Uid);
    assert(diverging(f1.drop_last(), a, b) =~= Seq::<Field>::empty());
    assert(diverging(f1, a, b) =~= Seq::<Field>::empty());
    assert(diverging(fs, a, b) =~= Seq::<Field>::empty());
}

/// A mismatch on record fields names only load-bearing fields of the
/// operation kind: noise never counts against a pair of outcomes.
pub proof fn lemma_only_load_bearing_named(
    kind: OpKind,
    ts: ExitStatus,
    tout: Seq<u8>,
    bs: ExitStatus,
    bout: Seq<u8>,
    f: StatField,
)
    requires
        judge_spec(kind, ts, tout, bs, bout) matches VerdictModel::Mismatch(fs, _, _)
            && fs.contains(Field::Stat(f)),
    ensures
        load_bearing(kind).contains(f),
{
    lemma_diverging_within(load_bearing(kind), payload_of(tout)->0, payload_of(bout)->0, f);
}

proof fn lemma_diverging_within(fs: Seq<StatField>, a: FileStatDef, b: FileStatDef, f: StatField)
    requires
        diverging(fs, a, b).contains(Field::Stat(f)),
    ensures
        fs.contains(f),
    decreases fs.len(),
{
    if fs.len() > 0 {
        let d = diverging(fs.drop_last(), a, b);
        let t = if field_value(a, fs.last()) != field_value(b, fs.last()) {
            seq![Field::Stat(fs.last())]
        } else {
            Seq::<Field>::empty()
        };
        let k = choose|k: int| 0 <= k < diverging(fs, a, b).len() && diverging(fs, a, b)[k] == Field::Stat(f);
        if k < d.len() {
            assert(d[k] == Field::Stat(f));
            lemma_diverging_within(fs.drop_last(), a, b, f);
            let j = choose|j: int| 0 <= j < fs.drop_last().len() && fs.drop_last()[j] == f;
            assert(fs[j] == f);
        } else {
            assert(t[k - d.len()] == Field::Stat(f));
            assert(fs[fs.len() - 1] == f);
        }
    }
}

} // verus!
