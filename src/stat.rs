//! The metadata record that a metadata query returns, and its payload text.
use crate::json::{
    decode_record, encode_record, lemma_record_round_trip, members_view, num_of, parse_record,
    record_text, JVal, Member, Value,
};
use vstd::prelude::*;

verus! {

/// File metadata, each field at a fixed width.
#[derive(PartialEq, Eq, Structural, Clone, Copy, Debug)]
pub struct FileStatDef {
    /// Device holding the file.
    pub st_dev: u64,
    /// Inode number.
    pub st_ino: u64,
    /// Number of hard links.
    pub st_nlink: u32,
    /// File type and mode bits.
    pub st_mode: u32,
    /// Owner id.
    pub st_uid: u32,
    /// Group id.
    pub st_gid: u32,
    /// Device id, for a special file.
    pub st_rdev: u64,
    /// Size in bytes.
    pub st_size: i64,
    /// Preferred I/O block size.
    pub st_blksize: u32,
    /// Number of 512-byte blocks allocated.
    pub st_blocks: i64,
    /// Last access, whole seconds.
    pub st_atime: i64,
    /// Last access, nanoseconds.
    pub st_atime_nsec: i64,
    /// Last modification, whole seconds.
    pub st_mtime: i64,
    /// Last modification, nanoseconds.
    pub st_mtime_nsec: i64,
    /// Last status change, whole seconds.
    pub st_ctime: i64,
    /// Last status change, nanoseconds.
    pub st_ctime_nsec: i64,
}

/// Which field of the record a comparison speaks of.
#[derive(PartialEq, Eq, Structural, Clone, Copy, Debug)]
pub enum StatField {
    Dev,
    Ino,
    Nlink,
    Mode,
    Uid,
    Gid,
    Rdev,
    Size,
    Blksize,
    Blocks,
    Atime,
    AtimeNsec,
    Mtime,
    MtimeNsec,
    Ctime,
    CtimeNsec,
}

/// The number of fields of the record.
pub const STAT_FIELDS: usize = 16;

/// The field at position `k` of the payload text.
pub open spec fn stat_field_at(k: int) -> StatField {
    if k == 0 {
        StatField::Dev
    } else if k == 1 {
        StatField::Ino
    } else if k == 2 {
        StatField::Nlink
    } else if k == 3 {
        StatField::Mode
    } else if k == 4 {
        StatField::Uid
    } else if k == 5 {
        StatField::Gid
    } else if k == 6 {
        StatField::Rdev
    } else if k == 7 {
        StatField::Size
    } else if k == 8 {
        StatField::Blksize
    } else if k == 9 {
        StatField::Blocks
    } else if k == 10 {
        StatField::Atime
    } else if k == 11 {
        StatField::AtimeNsec
    } else if k == 12 {
        StatField::Mtime
    } else if k == 13 {
        StatField::MtimeNsec
    } else if k == 14 {
        StatField::Ctime
    } else {
        StatField::CtimeNsec
    }
}

/// The key under which a field is written.
pub open spec fn stat_key(f: StatField) -> Seq<char> {
    match f {
        StatField::Dev => seq!['s', 't', '_', 'd', 'e', 'v'],
        StatField::Ino => seq!['s', 't', '_', 'i', 'n', 'o'],
        StatField::Nlink => seq!['s', 't', '_', 'n', 'l', 'i', 'n', 'k'],
        StatField::Mode => seq!['s', 't', '_', 'm', 'o', 'd', 'e'],
        StatField::Uid => seq!['s', 't', '_', 'u', 'i', 'd'],
        StatField::Gid => seq!['s', 't', '_', 'g', 'i', 'd'],
        StatField::Rdev => seq!['s', 't', '_', 'r', 'd', 'e', 'v'],
        StatField::Size => seq!['s', 't', '_', 's', 'i', 'z', 'e'],
        StatField::Blksize => seq!['s', 't', '_', 'b', 'l', 'k', 's', 'i', 'z', 'e'],
        StatField::Blocks => seq!['s', 't', '_', 'b', 'l', 'o', 'c', 'k', 's'],
        StatField::Atime => seq!['s', 't', '_', 'a', 't', 'i', 'm', 'e'],
        StatField::AtimeNsec => seq!['s', 't', '_', 'a', 't', 'i', 'm', 'e', '_', 'n', 's', 'e', 'c'],
        StatField::Mtime => seq!['s', 't', '_', 'm', 't', 'i', 'm', 'e'],
        StatField::MtimeNsec => seq!['s', 't', '_', 'm', 't', 'i', 'm', 'e', '_', 'n', 's', 'e', 'c'],
        StatField::Ctime => seq!['s', 't', '_', 'c', 't', 'i', 'm', 'e'],
        StatField::CtimeNsec => seq!['s', 't', '_', 'c', 't', 'i', 'm', 'e', '_', 'n', 's', 'e', 'c'],
    }
}

/// The value of a field.
pub open spec fn field_value(st: FileStatDef, f: StatField) -> int {
    match f {
        StatField::Dev => st.st_dev as int,
        StatField::Ino => st.st_ino as int,
        StatField::Nlink => st.st_nlink as int,
        StatField::Mode => st.st_mode as int,
        StatField::Uid => st.st_uid as int,
        StatField::Gid => st.st_gid as int,
        StatField::Rdev => st.st_rdev as int,
        StatField::Size => st.st_size as int,
        StatField::Blksize => st.st_blksize as int,
        StatField::Blocks => st.st_blocks as int,
        StatField::Atime => st.st_atime as int,
        StatField::AtimeNsec => st.st_atime_nsec as int,
        StatField::Mtime => st.st_mtime as int,
        StatField::MtimeNsec => st.st_mtime_nsec as int,
        StatField::Ctime => st.st_ctime as int,
        StatField::CtimeNsec => st.st_ctime_nsec as int,
    }
}

/// Whether a number fits the width of a field.
pub open spec fn fits_field(f: StatField, n: int) -> bool {
    match f {
        StatField::Dev => 0 <= n <= u64::MAX,
        StatField::Ino => 0 <= n <= u64::MAX,
        StatField::Nlink => 0 <= n <= u32::MAX,
        StatField::Mode => 0 <= n <= u32::MAX,
        StatField::Uid => 0 <= n <= u32::MAX,
        StatField::Gid => 0 <= n <= u32::MAX,
        StatField::Rdev => 0 <= n <= u64::MAX,
        StatField::Size => i64::MIN <= n <= i64::MAX,
        StatField::Blksize => 0 <= n <= u32::MAX,
        StatField::Blocks => i64::MIN <= n <= i64::MAX,
        StatField::Atime => i64::MIN <= n <= i64::MAX,
        StatField::AtimeNsec => i64::MIN <= n <= i64::MAX,
        StatField::Mtime => i64::MIN <= n <= i64::MAX,
        StatField::MtimeNsec => i64::MIN <= n <= i64::MAX,
        StatField::Ctime => i64::MIN <= n <= i64::MAX,
        StatField::CtimeNsec => i64::MIN <= n <= i64::MAX,
    }
}

/// The members of the payload record, one per field in the fixed order.
pub open spec fn stat_members(st: FileStatDef) -> Seq<(Seq<char>, JVal)> {
    Seq::new(16, |k: int| (stat_key(stat_field_at(k)), JVal::Num(field_value(st, stat_field_at(k)))))
}

/// The payload text of a record.
pub open spec fn stat_encoding(st: FileStatDef) -> Seq<char> {
    record_text(stat_members(st))
}

/// The record whose fields take these values, in the fixed order.
pub open spec fn stat_from_values(v: Seq<int>) -> FileStatDef {
    FileStatDef {
        st_dev: v[0] as u64,
        st_ino: v[1] as u64,
        st_nlink: v[2] as u32,
        st_mode: v[3] as u32,
        st_uid: v[4] as u32,
        st_gid: v[5] as u32,
        st_rdev: v[6] as u64,
        st_size: v[7] as i64,
        st_blksize: v[8] as u32,
        st_blocks: v[9] as i64,
        st_atime: v[10] as i64,
        st_atime_nsec: v[11] as i64,
        st_mtime: v[12] as i64,
        st_mtime_nsec: v[13] as i64,
        st_ctime: v[14] as i64,
        st_ctime_nsec: v[15] as i64,
    }
}

/// Whether the members are the sixteen fields, in order, each a number that
/// fits its field.
pub open spec fn stat_members_ok(ms: Seq<(Seq<char>, JVal)>) -> bool {
    ms.len() == 16 && forall|k: int|
        0 <= k < 16 ==> (#[trigger] ms[k]).0 == stat_key(stat_field_at(k)) && ms[k].1 is Num
            && fits_field(stat_field_at(k), num_of(ms[k].1))
}

/// The record that a payload text describes, when it describes one.
pub open spec fn parse_stat(s: Seq<char>) -> Option<FileStatDef> {
    match parse_record(s) {
        Some(ms) => if stat_members_ok(ms) {
            Some(stat_from_values(Seq::new(16, |k: int| num_of(ms[k].1))))
        } else {
            None
        },
        None => None,
    }
}

/// Decoding the payload text of any record gives that record back.
pub proof fn lemma_stat_round_trip(st: FileStatDef)
    ensures
        parse_stat(stat_encoding(st)) == Some(st),
{
    let ms = stat_members(st);
    lemma_record_round_trip(ms);
    assert forall|k: int| 0 <= k < 16 implies (#[trigger] ms[k]).0 == stat_key(stat_field_at(k))
        && ms[k].1 is Num && fits_field(stat_field_at(k), num_of(ms[k].1)) by {}
    let v = Seq::new(16, |k: int| num_of(ms[k].1));
    assert(v[0] == st.st_dev as int);
    assert(v[1] == st.st_ino as int);
    assert(v[2] == st.st_nlink as int);
    assert(v[3] == st.st_mode as int);
    assert(v[4] == st.st_uid as int);
    assert(v[5] == st.st_gid as int);
    assert(v[6] == st.st_rdev as int);
    assert(v[7] == st.st_size as int);
    assert(v[8] == st.st_blksize as int);
    assert(v[9] == st.st_blocks as int);
    assert(v[10] == st.st_atime as int);
    assert(v[11] == st.st_atime_nsec as int);
    assert(v[12] == st.st_mtime as int);
    assert(v[13] == st.st_mtime_nsec as int);
    assert(v[14] == st.st_ctime as int);
    assert(v[15] == st.st_ctime_nsec as int);
    assert(stat_from_values(v) == st);
}

fn stat_key_exec(k: usize) -> (r: Vec<char>)
    requires
        k < 16,
    ensures
        r@ == stat_key(stat_field_at(k as int)),
{
    if k == 0 {
        vec!['s', 't', '_', 'd', 'e', 'v']
    } else if k == 1 {
        vec!['s', 't', '_', 'i', 'n', 'o']
    } else if k == 2 {
        vec!['s', 't', '_', 'n', 'l', 'i', 'n', 'k']
    } else if k == 3 {
        vec!['s', 't', '_', 'm', 'o', 'd', 'e']
    } else if k == 4 {
        vec!['s', 't', '_', 'u', 'i', 'd']
    } else if k == 5 {
        vec!['s', 't', '_', 'g', 'i', 'd']
    } else if k == 6 {
        vec!['s', 't', '_', 'r', 'd', 'e', 'v']
    } else if k == 7 {
        vec!['s', 't', '_', 's', 'i', 'z', 'e']
    } else if k == 8 {
        vec!['s', 't', '_', 'b', 'l', 'k', 's', 'i', 'z', 'e']
    } else if k == 9 {
        vec!['s', 't', '_', 'b', 'l', 'o', 'c', 'k', 's']
    } else if k == 10 {
        vec!['s', 't', '_', 'a', 't', 'i', 'm', 'e']
    } else if k == 11 {
        vec!['s', 't', '_', 'a', 't', 'i', 'm', 'e', '_', 'n', 's', 'e', 'c']
    } else if k == 12 {
        vec!['s', 't', '_', 'm', 't', 'i', 'm', 'e']
    } else if k == 13 {
        vec!['s', 't', '_', 'm', 't', 'i', 'm', 'e', '_', 'n', 's', 'e', 'c']
    } else if k == 14 {
        vec!['s', 't', '_', 'c', 't', 'i', 'm', 'e']
    } else {
        vec!['s', 't', '_', 'c', 't', 'i', 'm', 'e', '_', 'n', 's', 'e', 'c']
    }
}

fn field_value_exec(st: &FileStatDef, k: usize) -> (r: i128)
    requires
        k < 16,
    ensures
        r as int == field_value(*st, stat_field_at(k as int)),
{
    if k == 0 {
        st.st_dev as i128
    } else if k == 1 {
        st.st_ino as i128
    } else if k == 2 {
        st.st_nlink as i128
    } else if k == 3 {
        st.st_mode as i128
    } else if k == 4 {
        st.st_uid as i128
    } else if k == 5 {
        st.st_gid as i128
    } else if k == 6 {
        st.st_rdev as i128
    } else if k == 7 {
        st.st_size as i128
    } else if k == 8 {
        st.st_blksize as i128
    } else if k == 9 {
        st.st_blocks as i128
    } else if k == 10 {
        st.st_atime as i128
    } else if k == 11 {
        st.st_atime_nsec as i128
    } else if k == 12 {
        st.st_mtime as i128
    } else if k == 13 {
        st.st_mtime_nsec as i128
    } else if k == 14 {
        st.st_ctime as i128
    } else {
        st.st_ctime_nsec as i128
    }
}

fn fits_field_exec(k: usize, n: i128) -> (r: bool)
    requires
        k < 16,
    ensures
        r == fits_field(stat_field_at(k as int), n as int),
{
    if k == 0 {
        0 <= n && n <= u64::MAX as i128
    } else if k == 1 {
        0 <= n && n <= u64::MAX as i128
    } else if k == 2 {
        0 <= n && n <= u32::MAX as i128
    } else if k == 3 {
        0 <= n && n <= u32::MAX as i128
    } else if k == 4 {
        0 <= n && n <= u32::MAX as i128
    } else if k == 5 {
        0 <= n && n <= u32::MAX as i128
    } else if k == 6 {
        0 <= n && n <= u64::MAX as i128
    } else if k == 7 {
        i64::MIN as i128 <= n && n <= i64::MAX as i128
    } else if k == 8 {
        0 <= n && n <= u32::MAX as i128
    } else if k == 9 {
        i64::MIN as i128 <= n && n <= i64::MAX as i128
    } else if k == 10 {
        i64::MIN as i128 <= n && n <= i64::MAX as i128
    } else if k == 11 {
        i64::MIN as i128 <= n && n <= i64::MAX as i128
    } else if k == 12 {
        i64::MIN as i128 <= n && n <= i64::MAX as i128
    } else if k == 13 {
        i64::MIN as i128 <= n && n <= i64::MAX as i128
    } else if k == 14 {
        i64::MIN as i128 <= n && n <= i64::MAX as i128
    } else {
        i64::MIN as i128 <= n && n <= i64::MAX as i128
    }
}

impl FileStatDef {
    /// The payload text of this record.
    pub fn encode(&self) -> (r: Vec<char>)
        ensures
            r@ == stat_encoding(*self),
    {
        let mut ms: Vec<Member> = Vec::new();
        let mut k: usize = 0;
        while k < STAT_FIELDS
            invariant
                k <= 16,
                ms@.len() == k,
                members_view(ms@) =~= stat_members(*self).subrange(0, k as int),
            decreases 16 - k,
        {
            let ghost before = ms@;
            ms.push(Member { key: stat_key_exec(k), value: Value::Num(field_value_exec(self, k)) });
            assert(members_view(ms@) =~= members_view(before).push(
                (ms@[k as int].key@, ms@[k as int].value@),
            ));
            assert(stat_members(*self).subrange(0, k as int + 1) =~= stat_members(*self).subrange(
                0,
                k as int,
            ).push(stat_members(*self)[k as int]));
            k = k + 1;
        }
        assert(members_view(ms@) =~= stat_members(*self));
        encode_record(&ms)
    }

    /// Reads a record from its payload text; `None` when the text is not one.
    pub fn decode(s: &Vec<char>) -> (r: Option<FileStatDef>)
        ensures
            r == parse_stat(s@),
    {
        let ms = match decode_record(s) {
            Some(ms) => ms,
            None => {
                proof {
                    if let Some(w0) = parse_record(s@) {
                        if stat_members_ok(w0) {
                            assert forall|j: int| 0 <= j < w0.len() implies crate::json::fits(
                                #[trigger] w0[j].1,
                            ) by {
                                assert(w0[j].0 == stat_key(stat_field_at(j)));
                            }
                        }
                    }
                }
                return None;
            },
        };
        let ghost w = members_view(ms@);
        proof {
            if stat_members_ok(w) {
                assert forall|j: int| 0 <= j < w.len() implies crate::json::fits(#[trigger] w[j].1) by {
                    assert(w[j].0 == stat_key(stat_field_at(j)));
                }
            }
        }
        if ms.len() != STAT_FIELDS {
            return None;
        }
        let mut vals: Vec<i128> = Vec::new();
        let mut k: usize = 0;
        while k < STAT_FIELDS
            invariant
                k <= 16,
                ms@.len() == 16,
                w == members_view(ms@),
                parse_record(s@) == Some(w),
                vals@.len() == k,
                forall|j: int|
                    0 <= j < k ==> (#[trigger] w[j]).0 == stat_key(stat_field_at(j)) && w[j].1 is Num
                        && fits_field(stat_field_at(j), num_of(w[j].1)) && vals@[j] as int
                        == num_of(w[j].1),
            decreases 16 - k,
        {
            assert(w[k as int] == (ms@[k as int].key@, ms@[k as int].value@));
            assert(w[k as int].0 == ms@[k as int].key@);
            let key = stat_key_exec(k);
            if !crate::json::same_chars(&ms[k].key, &key) {
                assert(!stat_members_ok(w));
                return None;
            }
            let n = match &ms[k].value {
                Value::Num(n) => *n,
                _ => {
                    assert(!(w[k as int].1 is Num));
                    assert(!stat_members_ok(w));
                    return None;
                },
            };
            if !fits_field_exec(k, n) {
                return None;
            }
            vals.push(n);
            k = k + 1;
        }
        let ghost v = Seq::new(16, |j: int| num_of(w[j].1));
        assert(stat_members_ok(w));
        proof {
            assert(vals@[0] as int == v[0]);
            assert(vals@[1] as int == v[1]);
            assert(vals@[2] as int == v[2]);
            assert(vals@[3] as int == v[3]);
            assert(vals@[4] as int == v[4]);
            assert(vals@[5] as int == v[5]);
            assert(vals@[6] as int == v[6]);
            assert(vals@[7] as int == v[7]);
            assert(vals@[8] as int == v[8]);
            assert(vals@[9] as int == v[9]);
            assert(vals@[10] as int == v[10]);
            assert(vals@[11] as int == v[11]);
            assert(vals@[12] as int == v[12]);
            assert(vals@[13] as int == v[13]);
            assert(vals@[14] as int == v[14]);
            assert(vals@[15] as int == v[15]);
        }
        Some(FileStatDef {
            st_dev: vals[0] as u64,
            st_ino: vals[1] as u64,
            st_nlink: vals[2] as u32,
            st_mode: vals[3] as u32,
            st_uid: vals[4] as u32,
            st_gid: vals[5] as u32,
            st_rdev: vals[6] as u64,
            st_size: vals[7] as i64,
            st_blksize: vals[8] as u32,
            st_blocks: vals[9] as i64,
            st_atime: vals[10] as i64,
            st_atime_nsec: vals[11] as i64,
            st_mtime: vals[12] as i64,
            st_mtime_nsec: vals[13] as i64,
            st_ctime: vals[14] as i64,
            st_ctime_nsec: vals[15] as i64,
        })
    }
}

} // verus!
