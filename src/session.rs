//! The benchmark session: runs commands against the one live table and
//! keeps the result buffer that reads return.
use vstd::prelude::*;
use std::time::Instant;
use crate::adapter::{
    DirEntry, FILE_INO, FsError, NodeAttr, OPEN_DIRECT_IO, ROOT_INO, dir_attr_spec, entries_view,
    file_attr_spec, file_name, list_dir, listing_spec, lookup_entry, node_attr, open_node, read_node,
    write_command,
};
use crate::command::{Command, Op, command_of};
use crate::response::{ResultBuffer, format_ok, is_ok_text, no_table_message, no_table_text, ready_text};
use crate::table::{HashTable, lookup_result};

verus! {

#[verifier::external_type_specification]
#[verifier::external_body]
pub struct ExInstant(std::time::Instant);

/// Relies on `Instant::now`: a reading of the monotonic clock. Nothing is
/// known of the value.
#[verifier::external_body]
fn clock_now() -> (r: Instant) {
    Instant::now()
}

/// Relies on `Instant::elapsed`: the time since `start`, as whole seconds
/// and the nanoseconds below them, which `Duration::subsec_nanos` keeps
/// under one billion.
#[verifier::external_body]
fn elapsed_since(start: &Instant) -> (r: (u64, u32))
    ensures
        r.1 < 1_000_000_000,
{
    let d = start.elapsed();
    (d.as_secs(), d.subsec_nanos())
}

/// Fewest buckets a benchmark table gets.
pub const MIN_BUCKETS: usize = 1024;

/// The bucket count for a run of `count` insertions: half the count, read as
/// unsigned, but at least `MIN_BUCKETS`. A negative count read as unsigned
/// asks for more buckets than memory holds, and building such a table fails
/// allocation, which is fatal.
pub open spec fn bucket_count_spec(count: i64) -> int {
    let half = (count as usize) / 2;
    if half > MIN_BUCKETS {
        half as int
    } else {
        MIN_BUCKETS as int
    }
}

/// The value stored under key `k` by an insertion run: `2 * k`, wrapped to
/// 64 bits.
pub open spec fn seq_value(k: i64) -> i64 {
    vstd::wrapping::i64_specs::wrapping_mul(k, 2)
}

/// The contents of the table after an insertion run of `count` keys: each
/// key of `0..count` bound to `seq_value` of it.
pub open spec fn seq_table(count: i64) -> Map<i64, i64> {
    Map::new(|k: i64| 0 <= k < count, |k: i64| seq_value(k))
}

/// The bucket count for a run of `count` insertions.
pub fn bucket_count_for(count: i64) -> (r: usize)
    ensures
        r == bucket_count_spec(count),
{
    let half = (count as usize) / 2;
    if half > MIN_BUCKETS {
        half
    } else {
        MIN_BUCKETS
    }
}

/// Builds a fresh table sized for `count` keys, inserts keys `0..count` in
/// ascending order with `seq_value` of each, and times the insertions alone.
/// Returns the table and the result text.
pub fn run_insert_seq(count: i64) -> (r: (HashTable, Vec<u8>))
    ensures
        r.0.wf(),
        r.0@ == seq_table(count),
        r.0.spec_bucket_count() == bucket_count_spec(count),
        r.0.spec_size() == (if count > 0 {
            count as int
        } else {
            0
        }),
        is_ok_text(r.1@),
{
    let mut table = HashTable::mc_new(bucket_count_for(count));
    let start = clock_now();
    let mut i: i64 = 0;
    while i < count
        invariant
            0 <= i,
            count > 0 ==> i <= count,
            count <= 0 ==> i == 0,
            table.wf(),
            table@ == Map::new(|k: i64| 0 <= k < i, |k: i64| seq_value(k)),
            table.spec_size() == i,
            table.spec_bucket_count() == bucket_count_spec(count),
        decreases count - i,
    {
        table.mc_insert(i, i.wrapping_mul(2));
        assert(table@ =~= Map::new(|k: i64| 0 <= k < i + 1, |k: i64| seq_value(k)));
        i = i + 1;
    }
    let (secs, nanos) = elapsed_since(&start);
    let report = format_ok(secs, nanos);
    assert(report@ == crate::response::ok_text(secs, nanos));
    assert(table@ =~= seq_table(count));
    (table, report)
}

/// Looks up keys `0..count` in `table`, discarding the results, and times
/// the loop. Returns the result text.
pub fn run_lookup_seq(table: &HashTable, count: i64) -> (r: Vec<u8>)
    requires
        table.wf(),
    ensures
        is_ok_text(r@),
{
    let start = clock_now();
    let mut i: i64 = 0;
    while i < count
        invariant
            table.wf(),
        decreases count - i,
    {
        let _found = table.mc_lookup(i);
        i = i + 1;
    }
    let (secs, nanos) = elapsed_since(&start);
    let report = format_ok(secs, nanos);
    assert(report@ == crate::response::ok_text(secs, nanos));
    report
}

/// The result text of a lookup run against `table`: `"ERROR NO_TABLE\n"`
/// when there is none.
pub fn lookup_report(table: &Option<HashTable>, count: i64) -> (r: Vec<u8>)
    requires
        match table {
            Some(t) => t.wf(),
            None => true,
        },
    ensures
        table is None ==> r@ == no_table_text(),
        table is Some ==> is_ok_text(r@),
{
    match table {
        Some(t) => run_lookup_seq(t, count),
        None => no_table_message(),
    }
}

/// The session: the table that commands run against, absent until the first
/// insertion run, and the result buffer that reads return.
pub struct McFrierFS {
    pub ht: Option<HashTable>,
    pub result_buffer: ResultBuffer,
}

/// What running command `c` does to a session in state `pre`, leaving it
/// in state `post`.
pub open spec fn command_outcome(pre: McFrierFS, post: McFrierFS, c: Command) -> bool {
    match c.op {
        Op::InsertSeq => {
            &&& post.ht is Some
            &&& post.ht->0@ == seq_table(c.count)
            &&& post.ht->0.spec_bucket_count() == bucket_count_spec(c.count)
            &&& is_ok_text(post.result_buffer@)
        },
        Op::LookupSeq => {
            &&& post.ht == pre.ht
            &&& pre.ht is None ==> post.result_buffer@ == no_table_text()
            &&& pre.ht is Some ==> is_ok_text(post.result_buffer@)
        },
        Op::Other => post == pre,
    }
}

/// What a write of `data` to node `ino` does to a session in state `pre`,
/// leaving it in state `post` with reply `r`.
pub open spec fn write_outcome(
    pre: McFrierFS,
    post: McFrierFS,
    ino: u64,
    data: Seq<u8>,
    r: Result<usize, FsError>,
) -> bool {
    if ino != FILE_INO {
        r == Err::<usize, FsError>(FsError::NotFound) && post == pre
    } else {
        match command_of(data) {
            Err(_) => r == Err::<usize, FsError>(FsError::Io) && post == pre,
            Ok(c) => r == Ok::<usize, FsError>(data.len() as usize) && command_outcome(pre, post, c),
        }
    }
}

impl McFrierFS {
    /// Well-formedness: the table, where there is one, is well formed.
    pub open spec fn wf(&self) -> bool {
        match self.ht {
            Some(t) => t.wf(),
            None => true,
        }
    }

    /// A session with no table and `"READY\n"` in its buffer.
    pub fn new() -> (r: McFrierFS)
        ensures
            r.wf(),
            r.ht is None,
            r.result_buffer@ == ready_text(),
    {
        McFrierFS { ht: None, result_buffer: ResultBuffer::new() }
    }

    /// Runs `cmd`. An insertion run replaces the table as a whole and
    /// reports its time; a lookup run reports its time, or
    /// `"ERROR NO_TABLE\n"` with no table; another operation changes nothing.
    pub fn run_command(&mut self, cmd: Command)
        requires
            old(self).wf(),
        ensures
            final(self).wf(),
            command_outcome(*old(self), *final(self), cmd),
    {
        match cmd.op {
            Op::InsertSeq => {
                let (table, report) = run_insert_seq(cmd.count);
                self.ht = Some(table);
                self.result_buffer.replace(report);
            },
            Op::LookupSeq => {
                let report = lookup_report(&self.ht, cmd.count);
                self.result_buffer.replace(report);
            },
            Op::Other => {},
        }
    }

    /// A write of `data` to node `ino`: runs the command it holds and
    /// returns the payload's length, whatever the command's outcome.
    pub fn write(&mut self, ino: u64, data: &[u8]) -> (r: Result<usize, FsError>)
        requires
            old(self).wf(),
        ensures
            final(self).wf(),
            write_outcome(*old(self), *final(self), ino, data@, r),
    {
        let cmd = match write_command(ino, data) {
            Ok(c) => c,
            Err(e) => {
                return Err(e);
            },
        };
        self.run_command(cmd);
        Ok(data.len())
    }

    /// A read of node `ino` from `offset` (see `read_node`).
    pub fn read(&self, ino: u64, offset: i64) -> (r: Result<Vec<u8>, FsError>)
        ensures
            ino != FILE_INO ==> r == Err::<Vec<u8>, FsError>(FsError::NotFound),
            ino == FILE_INO ==> r is Ok && r->Ok_0@ == (if (offset as u64)
                < self.result_buffer@.len() {
                self.result_buffer@.subrange(
                    offset as u64 as int,
                    self.result_buffer@.len() as int,
                )
            } else {
                Seq::<u8>::empty()
            }),
    {
        read_node(ino, &self.result_buffer, offset)
    }

    /// The attributes of `name` in directory `parent` (see `lookup_entry`).
    pub fn lookup(&self, parent: u64, name: &[u8], uid: u32, gid: u32) -> (r: Result<
        NodeAttr,
        FsError,
    >)
        ensures
            r == (if parent == ROOT_INO && name@ == file_name() {
                Ok::<NodeAttr, FsError>(
                    file_attr_spec(FILE_INO, self.result_buffer@.len() as u64, uid, gid),
                )
            } else {
                Err::<NodeAttr, FsError>(FsError::NotFound)
            }),
    {
        lookup_entry(parent, name, self.result_buffer.len(), uid, gid)
    }

    /// The attributes of node `ino` (see `node_attr`).
    pub fn getattr(&self, ino: u64, uid: u32, gid: u32) -> (r: Result<NodeAttr, FsError>)
        ensures
            r == (if ino == ROOT_INO {
                Ok::<NodeAttr, FsError>(dir_attr_spec(ROOT_INO, uid, gid))
            } else if ino == FILE_INO {
                Ok::<NodeAttr, FsError>(
                    file_attr_spec(FILE_INO, self.result_buffer@.len() as u64, uid, gid),
                )
            } else {
                Err::<NodeAttr, FsError>(FsError::NotFound)
            }),
    {
        node_attr(ino, self.result_buffer.len(), uid, gid)
    }

    /// Opens node `ino` (see `open_node`).
    pub fn open(&self, ino: u64) -> (r: Result<(u64, u32), FsError>)
        ensures
            r == (if ino == FILE_INO {
                Ok::<(u64, u32), FsError>((0u64, OPEN_DIRECT_IO))
            } else {
                Err::<(u64, u32), FsError>(FsError::NotFound)
            }),
    {
        open_node(ino)
    }

    /// Lists directory `ino` from `offset` (see `list_dir`).
    pub fn readdir(&self, ino: u64, offset: i64) -> (r: Result<Vec<DirEntry>, FsError>)
        ensures
            ino != ROOT_INO ==> r == Err::<Vec<DirEntry>, FsError>(FsError::NotFound),
            ino == ROOT_INO ==> r is Ok && entries_view(r->Ok_0@) == listing_spec(offset),
    {
        list_dir(ino, offset)
    }

    /// The control file's size: the result buffer's length.
    pub fn file_size(&self) -> (r: u64)
        ensures
            r == self.result_buffer@.len(),
    {
        self.result_buffer.len()
    }

    /// The value under `key` in the current table; `None` with no table.
    pub fn table_lookup(&self, key: i64) -> (r: Option<i64>)
        requires
            self.wf(),
        ensures
            r == (match self.ht {
                Some(t) => lookup_result(t@, key),
                None => None,
            }),
    {
        match &self.ht {
            Some(t) => t.mc_lookup(key),
            None => None,
        }
    }

    /// The number of keys in the current table; `None` with no table.
    pub fn table_size(&self) -> (r: Option<u64>)
        ensures
            r == (match self.ht {
                Some(t) => Some(t.spec_size() as u64),
                None => None,
            }),
    {
        match &self.ht {
            Some(t) => Some(t.size()),
            None => None,
        }
    }
}

/// An insertion run of `n` keys followed by a lookup run of `n` keys: the
/// table then binds every key `k` of `0..n` to `2 * k`, and the lookup run
/// reports a time. Keys above `i64::MAX / 2`, whose double wraps, are left
/// out.
pub proof fn lemma_insert_then_lookup(s0: McFrierFS, s1: McFrierFS, s2: McFrierFS, n: i64, k: i64)
    requires
        command_outcome(s0, s1, Command { op: Op::InsertSeq, count: n }),
        command_outcome(s1, s2, Command { op: Op::LookupSeq, count: n }),
        0 <= k < n,
        k <= i64::MAX / 2,
    ensures
        s2.ht is Some,
        lookup_result(s2.ht->0@, k) == Some((2 * k) as i64),
        lookup_result(s2.ht->0@, k)->0 == 2 * k,
        is_ok_text(s2.result_buffer@),
{
    assert(seq_table(n).contains_key(k));
    assert(vstd::wrapping::i64_specs::wrapping_mul(k, 2) == 2 * k) by {
        assert((k * 2) % 0x1_0000_0000_0000_0000int == k * 2);
    }
}

/// A lookup run with no table reports `"ERROR NO_TABLE\n"` and leaves the
/// table absent, so that any later command but an insertion run finds it
/// still absent, and a later lookup run reports the same error.
pub proof fn lemma_lookup_without_table(
    s0: McFrierFS,
    s1: McFrierFS,
    s2: McFrierFS,
    lookup_count: i64,
    next: Command,
)
    requires
        s0.ht is None,
        command_outcome(s0, s1, Command { op: Op::LookupSeq, count: lookup_count }),
        next.op != Op::InsertSeq,
        command_outcome(s1, s2, next),
    ensures
        s1.ht is None,
        s1.result_buffer@ == no_table_text(),
        s2.ht is None,
        next.op == Op::LookupSeq ==> s2.result_buffer@ == no_table_text(),
{
}

} // verus!
