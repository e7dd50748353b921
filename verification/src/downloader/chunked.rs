//! Chunked HTTP range downloads: how a stream is cut into chunks, what is
//! left to fetch, and how each response is checked.

use vstd::prelude::*;
use crate::fmt::{push_zero_padded, zero_pad, decimal, parse_u64_spec, parse_u64_chars, push_decimal};
use crate::paths::{path_join, join_facts, path_file_name, path_parent, is_plain_path, is_verbatim, last_piece, plain_parent};
use crate::text::{
    contains_seq, starts_with_seq, concat, to_owned_string, chars_of, split_char, split_char_exec,
    push_str, string_from_range, strings_view,
};

verus! {

/// One byte range `[start, end]` of the stream and the file that holds it.
#[derive(Debug, Clone)]
pub struct ChunkPlan {
    pub index: usize,
    pub start: u64,
    pub end: u64,
    pub len: u64,
    pub path: String,
}

/// File name of chunk `index`: the index zero-padded to six digits, then `.part`.
pub open spec fn chunk_file_name_spec(index: nat) -> Seq<char> {
    zero_pad(decimal(index), 6) + ".part"@
}

/// `plans` cut `[0, total)` into consecutive ranges of `chunk_size` bytes,
/// the last one possibly shorter, numbered from 0.
pub open spec fn valid_chunk_plans(plans: Seq<ChunkPlan>, total: u64, chunk_size: u64) -> bool {
    &&& (plans.len() == 0 <==> total == 0)
    &&& forall|i: int|
        0 <= i < plans.len() ==> {
            &&& (#[trigger] plans[i]).index == i
            &&& 1 <= plans[i].len <= chunk_size
            &&& plans[i].end == plans[i].start + plans[i].len - 1
        }
    &&& plans.len() > 0 ==> plans[0].start == 0 && plans[plans.len() - 1].end == total - 1
    &&& forall|i: int|
        0 <= i < plans.len() - 1 ==> (#[trigger] plans[i]).len == chunk_size && plans[i
            + 1].start == plans[i].end + 1
}

/// Byte `off` lies in chunk `p`.
pub open spec fn chunk_holds(p: ChunkPlan, off: int) -> bool {
    p.start <= off <= p.end
}

/// Some chunk of `plans` holds byte `off`.
pub open spec fn covered(plans: Seq<ChunkPlan>, off: int) -> bool {
    exists|i: int| 0 <= i < plans.len() && chunk_holds(#[trigger] plans[i], off)
}

/// Sum of the chunk lengths.
pub open spec fn total_len(plans: Seq<ChunkPlan>) -> int
    decreases plans.len(),
{
    if plans.len() == 0 {
        0
    } else {
        total_len(plans.drop_last()) + plans.last().len
    }
}

/// The file name of chunk `index`.
pub fn chunk_file_name(index: usize) -> (s: String)
    ensures
        s@ == chunk_file_name_spec(index as nat),
{
    let mut s = String::new();
    push_zero_padded(&mut s, index as u64, 6);
    crate::text::push_str(&mut s, ".part");
    assert(s@ =~= chunk_file_name_spec(index as nat));
    s
}

/// Cuts a stream of `total_size` bytes into chunks of `chunk_size` bytes
/// whose files live in `chunk_dir`.
pub fn build_chunk_plans(total_size: u64, chunk_size: u64, chunk_dir: &str) -> (plans: Vec<ChunkPlan>)
    requires
        chunk_size > 0,
    ensures
        valid_chunk_plans(plans@, total_size, chunk_size),
        forall|i: int|
            0 <= i < plans@.len() ==> join_facts(
                chunk_dir@,
                chunk_file_name_spec(i as nat),
                (#[trigger] plans@[i]).path@,
            ),
{
    let mut plans: Vec<ChunkPlan> = Vec::new();
    let mut index: usize = 0;
    let mut start: u64 = 0;
    while start < total_size
        invariant
            chunk_size > 0,
            start <= total_size,
            index == plans.len(),
            plans.len() == 0 ==> start == 0,
            plans.len() > 0 ==> plans@[plans.len() - 1].end + 1 == start,
            plans.len() > 0 ==> plans@[0].start == 0,
            plans.len() > 0 && plans@[plans.len() - 1].len != chunk_size ==> start == total_size,
            forall|i: int|
                0 <= i < plans.len() ==> {
                    &&& (#[trigger] plans@[i]).index == i
                    &&& 1 <= plans@[i].len <= chunk_size
                    &&& plans@[i].end == plans@[i].start + plans@[i].len - 1
                    &&& join_facts(chunk_dir@, chunk_file_name_spec(i as nat), plans@[i].path@)
                },
            forall|i: int|
                0 <= i < plans.len() - 1 ==> (#[trigger] plans@[i]).len == chunk_size && plans@[i
                    + 1].start == plans@[i].end + 1,
        decreases total_size - start,
    {
        let end = start.saturating_add(chunk_size).saturating_sub(1);
        let last = total_size.saturating_sub(1);
        let end = if end < last { end } else { last };
        let len = end.saturating_sub(start).saturating_add(1);
        let name = chunk_file_name(index);
        let path = path_join(chunk_dir, name.as_str());
        let ghost old_plans = plans@;
        plans.push(ChunkPlan { index, start, end, len, path });
        assert(forall|i: int| 0 <= i < old_plans.len() ==> plans@[i] == old_plans[i]);
        index = index.saturating_add(1);
        start = end.saturating_add(1);
    }
    plans
}

/// Consecutive chunks: the bytes before chunk `k` are exactly `[0, start_k)`.
proof fn lemma_prefix_len(plans: Seq<ChunkPlan>, total: u64, chunk_size: u64, k: int)
    requires
        valid_chunk_plans(plans, total, chunk_size),
        1 <= k <= plans.len(),
    ensures
        total_len(plans.take(k)) == plans[k - 1].end + 1,
    decreases k,
{
    let p = plans.take(k);
    assert(p.drop_last() =~= plans.take(k - 1));
    assert(p.last() == plans[k - 1]);
    assert(plans[k - 1].end == plans[k - 1].start + plans[k - 1].len - 1);
    assert(total_len(p) == total_len(p.drop_last()) + p.last().len);
    if k == 1 {
        assert(total_len(plans.take(0)) == 0);
    } else {
        lemma_prefix_len(plans, total, chunk_size, k - 1);
        assert(plans[k - 2].len == chunk_size);
        assert(plans[k - 1].start == plans[k - 2].end + 1);
    }
}

/// Law: valid chunk plans account for every byte of the stream exactly once
/// — their lengths add up to the stream's size, and each offset below it lies
/// in exactly one chunk.
pub proof fn lemma_chunk_plans_partition(plans: Seq<ChunkPlan>, total: u64, chunk_size: u64)
    requires
        valid_chunk_plans(plans, total, chunk_size),
    ensures
        total_len(plans) == total,
        forall|off: int| 0 <= off < total ==> #[trigger] covered(plans, off),
        forall|off: int, i: int, j: int|
            0 <= i < plans.len() && 0 <= j < plans.len() && #[trigger] chunk_holds(plans[i], off)
                && #[trigger] chunk_holds(plans[j], off) ==> i == j,
{
    if plans.len() > 0 {
        lemma_prefix_len(plans, total, chunk_size, plans.len() as int);
        assert(plans.take(plans.len() as int) =~= plans);
    }
    lemma_starts_increase(plans, total, chunk_size);
    assert forall|off: int| 0 <= off < total implies #[trigger] covered(plans, off) by {
        lemma_offset_in_some_chunk(plans, total, chunk_size, off, plans.len() as int);
    }
}

/// Chunk `k` starts `k` whole chunks into the stream.
proof fn lemma_start_is_multiple(plans: Seq<ChunkPlan>, total: u64, chunk_size: u64, k: int)
    requires
        valid_chunk_plans(plans, total, chunk_size),
        0 <= k < plans.len(),
    ensures
        plans[k].start == k * chunk_size,
    decreases k,
{
    if k > 0 {
        lemma_start_is_multiple(plans, total, chunk_size, k - 1);
        let prev = plans[k - 1];
        assert(prev.len == chunk_size);
        assert(prev.end == prev.start + prev.len - 1);
        assert(plans[k].start == prev.end + 1);
        assert((k - 1) * chunk_size + chunk_size == k * chunk_size) by (nonlinear_arith);
    } else {
        assert(plans[0].start == 0);
        assert(0 * chunk_size == 0);
    }
}

/// Law: a stream of `total` bytes cut into chunks of `chunk_size` bytes has
/// `⌈total / chunk_size⌉` chunks.
pub proof fn lemma_chunk_count(plans: Seq<ChunkPlan>, total: u64, chunk_size: u64)
    requires
        valid_chunk_plans(plans, total, chunk_size),
        chunk_size > 0,
    ensures
        plans.len() == (total + chunk_size - 1) / (chunk_size as int),
{
    let c = chunk_size as int;
    if plans.len() > 0 {
        let n = plans.len() as int;
        lemma_start_is_multiple(plans, total, chunk_size, n - 1);
        let l = plans[n - 1].len as int;
        assert(total == (n - 1) * c + l);
        assert(total + c - 1 == n * c + (l - 1)) by (nonlinear_arith)
            requires
                total == (n - 1) * c + l,
        ;
        vstd::arithmetic::div_mod::lemma_fundamental_div_mod_converse(total + c - 1, c, n, l - 1);
    } else {
        vstd::arithmetic::div_mod::lemma_fundamental_div_mod_converse(c - 1, c, 0, c - 1);
    }
}

/// Chunk boundaries increase: a later chunk starts after an earlier one ends.
proof fn lemma_starts_increase(plans: Seq<ChunkPlan>, total: u64, chunk_size: u64)
    requires
        valid_chunk_plans(plans, total, chunk_size),
    ensures
        forall|i: int, j: int| 0 <= i < j < plans.len() ==> #[trigger] plans[i].end < #[trigger] plans[j].start,
{
    assert forall|i: int, j: int| 0 <= i < j < plans.len() implies #[trigger] plans[i].end < #[trigger] plans[j].start by {
        lemma_starts_increase_from(plans, total, chunk_size, i, j);
    }
}

proof fn lemma_starts_increase_from(plans: Seq<ChunkPlan>, total: u64, chunk_size: u64, i: int, j: int)
    requires
        valid_chunk_plans(plans, total, chunk_size),
        0 <= i < j < plans.len(),
    ensures
        plans[i].end < plans[j].start,
    decreases j - i,
{
    assert(plans[j - 1].end + 1 == plans[j].start);
    if j - 1 > i {
        lemma_starts_increase_from(plans, total, chunk_size, i, j - 1);
        assert(plans[j - 1].start <= plans[j - 1].end);
    }
}

proof fn lemma_offset_in_some_chunk(plans: Seq<ChunkPlan>, total: u64, chunk_size: u64, off: int, k: int)
    requires
        valid_chunk_plans(plans, total, chunk_size),
        1 <= k <= plans.len(),
        0 <= off <= plans[k - 1].end,
    ensures
        exists|i: int| 0 <= i < k && chunk_holds(#[trigger] plans[i], off),
    decreases k,
{
    if off >= plans[k - 1].start {
        assert(chunk_holds(plans[k - 1], off));
    } else {
        assert(k > 1);
        assert(plans[k - 1].start == plans[k - 2].end + 1);
        lemma_offset_in_some_chunk(plans, total, chunk_size, off, k - 1);
    }
}


/// Why a chunked transfer cannot go on.
#[derive(Debug, Clone, Copy, PartialEq, Eq, Structural)]
pub enum ChunkError {
    /// The configured chunk size is zero.
    ZeroChunkSize,
    /// The stream is empty, so there is nothing to plan.
    EmptyPlan,
    /// The server reported neither a usable `Content-Range` nor `Content-Length`.
    UnknownTotalSize,
    /// The task was cancelled.
    Cancelled,
    /// A chunk file on disk does not have its planned length.
    ChunkSizeMismatch { index: usize, got: u64, expected: u64 },
    /// The server answered a range request with no bytes.
    EmptyChunk { index: usize, start: u64, end: u64 },
    /// The server answered a range request with the wrong number of bytes.
    LengthMismatch { index: usize, got: u64, expected: u64 },
    /// After writing, the chunk file does not have its planned length.
    WriteMismatch { index: usize, got: u64, expected: u64 },
    /// The server answered 416: the range cannot be satisfied.
    RangeNotSatisfiable { start: u64, end: u64 },
    /// The server answered with a status other than 206.
    BadStatus { status: u16 },
}

/// The first 100 characters of a URL, as error messages quote it.
pub open spec fn url_excerpt(url: Seq<char>) -> Seq<char> {
    if url.len() <= 100 {
        url
    } else {
        url.take(100)
    }
}

/// The line that names the URL at the end of a message about a response.
pub open spec fn url_line(url: Seq<char>) -> Seq<char> {
    "\nURL: "@ + url_excerpt(url)
}

/// `label` followed by `index=<index>, got=<got>, expected=<expected>`.
pub open spec fn mismatch_text(label: Seq<char>, index: usize, got: u64, expected: u64) -> Seq<char> {
    label + "index="@ + decimal(index as nat) + ", got="@ + decimal(got as nat) + ", expected="@
        + decimal(expected as nat)
}

/// The message shown for a chunk error met while fetching `url`.
pub open spec fn chunk_error_message(e: ChunkError, url: Seq<char>) -> Seq<char> {
    match e {
        ChunkError::ZeroChunkSize => "分块大小不能为 0"@,
        ChunkError::EmptyPlan => "分块规划失败，文件大小无效"@,
        ChunkError::UnknownTotalSize => "无法获取远端文件大小"@,
        ChunkError::Cancelled => "任务已取消"@,
        ChunkError::ChunkSizeMismatch { index, got, expected } => mismatch_text(
            "分块校验失败: "@,
            index,
            got,
            expected,
        ),
        ChunkError::EmptyChunk { index, start, end } => "服务器返回空分块: index="@ + decimal(
            index as nat,
        ) + ", range="@ + decimal(start as nat) + "-"@ + decimal(end as nat) + url_line(url),
        ChunkError::LengthMismatch { index, got, expected } => mismatch_text(
            "分块长度不匹配: "@,
            index,
            got,
            expected,
        ) + url_line(url),
        ChunkError::WriteMismatch { index, got, expected } => mismatch_text(
            "分块写入校验失败: "@,
            index,
            got,
            expected,
        ),
        ChunkError::RangeNotSatisfiable { start, end } => "Range请求不可满足: bytes="@ + decimal(
            start as nat,
        ) + "-"@ + decimal(end as nat) + ", 请尝试删除缓存重新下载"@ + url_line(url),
        ChunkError::BadStatus { status } => "下载状态码异常: status="@ + decimal(status as nat)
            + url_line(url),
    }
}

/// Appends the URL line of a message.
fn push_url_line(s: &mut String, url: &str)
    ensures
        final(s)@ == old(s)@ + url_line(url@),
{
    push_str(s, "\nURL: ");
    let cs = chars_of(url);
    let n = if cs.len() <= 100 { cs.len() } else { 100 };
    let ex = string_from_range(&cs, 0, n);
    push_str(s, ex.as_str());
    assert(cs@.subrange(0, cs@.len() as int) =~= cs@);
    assert(ex@ == url_excerpt(url@));
}

/// Appends `label` and the three numbers of a mismatch.
fn push_mismatch(s: &mut String, label: &str, index: usize, got: u64, expected: u64)
    ensures
        final(s)@ == old(s)@ + mismatch_text(label@, index, got, expected),
{
    push_str(s, label);
    push_str(s, "index=");
    push_decimal(s, index as u128);
    push_str(s, ", got=");
    push_decimal(s, got as u128);
    push_str(s, ", expected=");
    push_decimal(s, expected as u128);
    assert(final(s)@ =~= old(s)@ + mismatch_text(label@, index, got, expected));
}

impl ChunkError {
    /// The message shown for this error, met while fetching `url`; messages
    /// about a response quote the first 100 characters of the URL.
    pub fn message(&self, url: &str) -> (m: String)
        ensures
            m@ == chunk_error_message(*self, url@),
    {
        let mut s = String::new();
        match *self {
            ChunkError::ZeroChunkSize => push_str(&mut s, "分块大小不能为 0"),
            ChunkError::EmptyPlan => push_str(&mut s, "分块规划失败，文件大小无效"),
            ChunkError::UnknownTotalSize => push_str(&mut s, "无法获取远端文件大小"),
            ChunkError::Cancelled => push_str(&mut s, "任务已取消"),
            ChunkError::ChunkSizeMismatch { index, got, expected } => {
                push_mismatch(&mut s, "分块校验失败: ", index, got, expected);
            },
            ChunkError::EmptyChunk { index, start, end } => {
                push_str(&mut s, "服务器返回空分块: index=");
                push_decimal(&mut s, index as u128);
                push_str(&mut s, ", range=");
                push_decimal(&mut s, start as u128);
                push_str(&mut s, "-");
                push_decimal(&mut s, end as u128);
                push_url_line(&mut s, url);
            },
            ChunkError::LengthMismatch { index, got, expected } => {
                push_mismatch(&mut s, "分块长度不匹配: ", index, got, expected);
                push_url_line(&mut s, url);
            },
            ChunkError::WriteMismatch { index, got, expected } => {
                push_mismatch(&mut s, "分块写入校验失败: ", index, got, expected);
            },
            ChunkError::RangeNotSatisfiable { start, end } => {
                push_str(&mut s, "Range请求不可满足: bytes=");
                push_decimal(&mut s, start as u128);
                push_str(&mut s, "-");
                push_decimal(&mut s, end as u128);
                push_str(&mut s, ", 请尝试删除缓存重新下载");
                push_url_line(&mut s, url);
            },
            ChunkError::BadStatus { status } => {
                push_str(&mut s, "下载状态码异常: status=");
                push_decimal(&mut s, status as u128);
                push_url_line(&mut s, url);
            },
        }
        assert(s@ =~= chunk_error_message(*self, url@));
        s
    }
}

/// A chunk still to be fetched, and how many of its bytes are already on disk.
#[derive(Debug, Clone)]
pub struct ChunkJob {
    pub plan: ChunkPlan,
    pub existing: u64,
}

/// Outcome of fetching one stream.
#[derive(Debug, Clone)]
pub struct StreamDownloadResult {
    pub downloaded: u64,
    pub total: u64,
    pub output_paths: Vec<String>,
}

pub const MIB: u64 = 1024 * 1024;

/// Parallel connections chosen for a stream of `total` bytes: 2 below
/// 50 MiB, 4 below 200 MiB, 8 from there on.
pub open spec fn dynamic_concurrency_spec(total: u64) -> usize {
    if total < 50 * MIB {
        2
    } else if total < 200 * MIB {
        4
    } else {
        8
    }
}

/// The configured connection count raised to the size-based one, capped at 16.
pub open spec fn effective_concurrency_spec(configured: usize, total: u64) -> usize {
    let d = dynamic_concurrency_spec(total);
    let m = if configured > d { configured } else { d };
    if m < 16 { m } else { 16 }
}

pub fn dynamic_concurrency(total: u64) -> (r: usize)
    ensures
        r == dynamic_concurrency_spec(total),
{
    if total < 50 * MIB {
        2
    } else if total < 200 * MIB {
        4
    } else {
        8
    }
}

pub fn effective_concurrency(configured: usize, total: u64) -> (r: usize)
    ensures
        r == effective_concurrency_spec(configured, total),
        2 <= r <= 16,
{
    let d = dynamic_concurrency(total);
    let m = if configured > d { configured } else { d };
    if m < 16 { m } else { 16 }
}

/// A zero chunk size is refused before anything is fetched.
pub fn validate_chunk_size(chunk_size: usize) -> (r: Result<(), ChunkError>)
    ensures
        r == (if chunk_size == 0 { Err(ChunkError::ZeroChunkSize) } else { Ok(()) }),
{
    if chunk_size == 0 {
        Err(ChunkError::ZeroChunkSize)
    } else {
        Ok(())
    }
}

/// Plans the chunks of a stream of `total_size` bytes, each `chunk_size`
/// bytes long but the last. A zero chunk size is refused first, then an
/// empty stream.
pub fn plan_stream(total_size: u64, chunk_size: usize, chunk_dir: &str) -> (r: Result<Vec<ChunkPlan>, ChunkError>)
    ensures
        r is Ok <==> (chunk_size > 0 && total_size > 0),
        chunk_size == 0 <==> r == Err::<Vec<ChunkPlan>, ChunkError>(ChunkError::ZeroChunkSize),
        chunk_size > 0 ==> (total_size == 0 <==> r == Err::<Vec<ChunkPlan>, ChunkError>(ChunkError::EmptyPlan)),
        r is Ok ==> valid_chunk_plans(r->Ok_0@, total_size, chunk_size as u64),
        r is Ok ==> r->Ok_0@.len() == (total_size + chunk_size - 1) / (chunk_size as int),
        r is Ok ==> forall|i: int|
            0 <= i < r->Ok_0@.len() ==> join_facts(
                chunk_dir@,
                chunk_file_name_spec(i as nat),
                (#[trigger] r->Ok_0@[i]).path@,
            ),
{
    if chunk_size == 0 {
        return Err(ChunkError::ZeroChunkSize);
    }
    let plans = build_chunk_plans(total_size, chunk_size as u64, chunk_dir);
    proof {
        lemma_chunk_count(plans@, total_size, chunk_size as u64);
    }
    if plans.len() == 0 {
        Err(ChunkError::EmptyPlan)
    } else {
        Ok(plans)
    }
}

/// What is kept of a chunk file of `size` bytes planned at `len` bytes: all of
/// it when it is not too long; otherwise nothing, and the file is to be removed.
pub fn existing_chunk_size(size: u64, len: u64) -> (r: (u64, bool))
    ensures
        r == (if size <= len { (size, false) } else { (0u64, true) }),
{
    if size <= len {
        (size, false)
    } else {
        (0, true)
    }
}

/// `a + b`, or `u64::MAX` where that overflows.
pub open spec fn sat_add(a: u64, b: u64) -> u64 {
    if a + b > u64::MAX {
        u64::MAX
    } else {
        (a + b) as u64
    }
}

/// Saturating sum of the bytes already on disk.
pub open spec fn sat_sum(xs: Seq<u64>) -> u64
    decreases xs.len(),
{
    if xs.len() == 0 {
        0
    } else {
        sat_add(sat_sum(xs.drop_last()), xs.last())
    }
}

/// The chunks of `plans` that are not yet complete, in order, with what is on disk.
pub open spec fn pending_jobs(plans: Seq<ChunkPlan>, existing: Seq<u64>) -> Seq<ChunkJob>
    decreases plans.len(),
{
    if plans.len() == 0 {
        seq![]
    } else {
        let n = plans.len() - 1;
        let rest = pending_jobs(plans.drop_last(), existing.take(n));
        if existing[n] < plans[n].len {
            rest.push(ChunkJob { plan: plans[n], existing: existing[n] })
        } else {
            rest
        }
    }
}

fn copy_plan(p: &ChunkPlan) -> (r: ChunkPlan)
    ensures
        r == *p,
{
    ChunkPlan { index: p.index, start: p.start, end: p.end, len: p.len, path: p.path.clone() }
}

/// Bytes already on disk and the jobs still to run, given the size kept of
/// each chunk file.
pub fn plan_jobs(plans: &Vec<ChunkPlan>, existing: &Vec<u64>) -> (r: (u64, Vec<ChunkJob>))
    requires
        existing.len() == plans.len(),
    ensures
        r.0 == sat_sum(existing@),
        r.1@ == pending_jobs(plans@, existing@),
{
    let mut downloaded: u64 = 0;
    let mut jobs: Vec<ChunkJob> = Vec::new();
    let mut i: usize = 0;
    while i < plans.len()
        invariant
            i <= plans.len() == existing.len(),
            downloaded == sat_sum(existing@.take(i as int)),
            jobs@ == pending_jobs(plans@.take(i as int), existing@.take(i as int)),
        decreases plans.len() - i,
    {
        let e = existing[i];
        let ghost ex = existing@.take(i + 1);
        let ghost pl = plans@.take(i + 1);
        assert(ex.drop_last() =~= existing@.take(i as int));
        assert(pl.drop_last() =~= plans@.take(i as int));
        assert(ex.take(i as int) =~= existing@.take(i as int));
        downloaded = downloaded.saturating_add(e);
        if e < plans[i].len {
            jobs.push(ChunkJob { plan: copy_plan(&plans[i]), existing: e });
        }
        i = i + 1;
    }
    assert(existing@.take(i as int) =~= existing@);
    assert(plans@.take(i as int) =~= plans@);
    (downloaded, jobs)
}

pub open spec fn sum_u64(xs: Seq<u64>) -> int
    decreases xs.len(),
{
    if xs.len() == 0 {
        0
    } else {
        sum_u64(xs.drop_last()) + xs.last()
    }
}

proof fn lemma_sat_sum_le_sum(xs: Seq<u64>)
    ensures
        sat_sum(xs) <= sum_u64(xs),
    decreases xs.len(),
{
    if xs.len() > 0 {
        lemma_sat_sum_le_sum(xs.drop_last());
    }
}

proof fn lemma_existing_sum_le(plans: Seq<ChunkPlan>, existing: Seq<u64>, k: int)
    requires
        existing.len() == plans.len(),
        0 <= k <= plans.len(),
        forall|i: int| 0 <= i < plans.len() ==> existing[i] <= (#[trigger] plans[i]).len,
    ensures
        sum_u64(existing.take(k)) <= total_len(plans.take(k)),
    decreases k,
{
    if k > 0 {
        lemma_existing_sum_le(plans, existing, k - 1);
        assert(existing.take(k).drop_last() =~= existing.take(k - 1));
        assert(plans.take(k).drop_last() =~= plans.take(k - 1));
        assert(existing[k - 1] <= plans[k - 1].len);
    }
}

/// Law: when no chunk file is longer than its chunk, the bytes counted as
/// already downloaded never exceed the size of the stream.
pub proof fn lemma_resumed_bytes_bounded(
    plans: Seq<ChunkPlan>,
    existing: Seq<u64>,
    total: u64,
    chunk_size: u64,
)
    requires
        valid_chunk_plans(plans, total, chunk_size),
        existing.len() == plans.len(),
        forall|i: int| 0 <= i < plans.len() ==> existing[i] <= (#[trigger] plans[i]).len,
    ensures
        sat_sum(existing) <= total,
{
    lemma_chunk_plans_partition(plans, total, chunk_size);
    lemma_sat_sum_le_sum(existing);
    lemma_existing_sum_le(plans, existing, plans.len() as int);
    assert(existing.take(existing.len() as int) =~= existing);
    assert(plans.take(plans.len() as int) =~= plans);
}

/// Progress after a job reports `newly` fetched bytes: added with saturation
/// and capped at the stream's size.
pub fn progress_after(downloaded: u64, newly: u64, total: u64) -> (r: u64)
    ensures
        r == (if sat_add(downloaded, newly) < total { sat_add(downloaded, newly) } else { total }),
        r <= total,
{
    let s = downloaded.saturating_add(newly);
    if s < total { s } else { total }
}

/// First chunk whose file size differs from its planned length, if any.
pub open spec fn first_size_mismatch(plans: Seq<ChunkPlan>, sizes: Seq<u64>, k: int) -> Option<int>
    decreases plans.len() - k,
{
    if k < 0 || k >= plans.len() {
        None
    } else if sizes[k] != plans[k].len {
        Some(k)
    } else {
        first_size_mismatch(plans, sizes, k + 1)
    }
}

/// The chunk file paths of `plans`, in order.
pub open spec fn plan_paths(plans: Seq<ChunkPlan>) -> Seq<Seq<char>> {
    plans.map_values(|p: ChunkPlan| p.path@)
}

/// The outcome of a stream whose chunks are all on disk: all `total` bytes
/// downloaded, and the chunk files in order.
pub fn stream_result(plans: &Vec<ChunkPlan>, total: u64) -> (r: StreamDownloadResult)
    ensures
        r.downloaded == total,
        r.total == total,
        strings_view(r.output_paths@) == plan_paths(plans@),
{
    let mut paths: Vec<String> = Vec::new();
    let mut i: usize = 0;
    while i < plans.len()
        invariant
            i <= plans.len(),
            paths.len() == i,
            strings_view(paths@) == plan_paths(plans@.take(i as int)),
        decreases plans.len() - i,
    {
        let c = copy_plan(&plans[i]);
        let ghost before = paths@;
        paths.push(c.path);
        i = i + 1;
        assert forall|k: int| 0 <= k < i implies #[trigger] strings_view(paths@)[k] == plan_paths(plans@.take(i as int))[k] by {
            if k < i - 1 {
                assert(paths@[k] == before[k]);
                assert(strings_view(before)[k] == plan_paths(plans@.take(i - 1))[k]);
            }
        }
        assert(strings_view(paths@) =~= plan_paths(plans@.take(i as int)));
    }
    assert(plans@.take(plans@.len() as int) =~= plans@);
    StreamDownloadResult { downloaded: total, total, output_paths: paths }
}

/// After all jobs ran, every chunk file must have its planned length.
pub fn verify_chunk_sizes(plans: &Vec<ChunkPlan>, sizes: &Vec<u64>) -> (r: Result<(), ChunkError>)
    requires
        sizes.len() == plans.len(),
    ensures
        match first_size_mismatch(plans@, sizes@, 0) {
            None => r == Ok::<(), ChunkError>(()),
            Some(k) => r == Err::<(), ChunkError>(
                ChunkError::ChunkSizeMismatch {
                    index: plans@[k].index,
                    got: sizes@[k],
                    expected: plans@[k].len,
                },
            ),
        },
{
    let mut i: usize = 0;
    while i < plans.len()
        invariant
            i <= plans.len() == sizes.len(),
            first_size_mismatch(plans@, sizes@, 0) == first_size_mismatch(plans@, sizes@, i as int),
        decreases plans.len() - i,
    {
        if sizes[i] != plans[i].len {
            return Err(
                ChunkError::ChunkSizeMismatch {
                    index: plans[i].index,
                    got: sizes[i],
                    expected: plans[i].len,
                },
            );
        }
        i = i + 1;
    }
    Ok(())
}

/// The byte range still to request for a job, and how many bytes it must
/// return; `None` when the chunk is already complete.
pub fn chunk_request(job: &ChunkJob) -> (r: Option<(u64, u64, u64)>)
    ensures
        job.existing >= job.plan.len ==> r is None,
        job.existing < job.plan.len ==> r == Some(
            (
                sat_add(job.plan.start, job.existing),
                job.plan.end,
                (job.plan.len - job.existing) as u64,
            ),
        ),
{
    if job.existing >= job.plan.len {
        return None;
    }
    Some((job.plan.start.saturating_add(job.existing), job.plan.end, job.plan.len - job.existing))
}

/// A range response must be non-empty and exactly as long as requested.
pub fn check_fetched_chunk(index: usize, start: u64, end: u64, got: u64, expected: u64) -> (r: Result<(), ChunkError>)
    ensures
        got == 0 ==> r == Err::<(), ChunkError>(ChunkError::EmptyChunk { index, start, end }),
        got != 0 && got != expected ==> r == Err::<(), ChunkError>(
            ChunkError::LengthMismatch { index, got, expected },
        ),
        got != 0 && got == expected ==> r == Ok::<(), ChunkError>(()),
{
    if got == 0 {
        Err(ChunkError::EmptyChunk { index, start, end })
    } else if got != expected {
        Err(ChunkError::LengthMismatch { index, got, expected })
    } else {
        Ok(())
    }
}

/// After appending, the chunk file must have its planned length.
pub fn check_written_chunk(index: usize, final_size: u64, len: u64) -> (r: Result<(), ChunkError>)
    ensures
        r == (if final_size == len {
            Ok::<(), ChunkError>(())
        } else {
            Err(ChunkError::WriteMismatch { index, got: final_size, expected: len })
        }),
{
    if final_size == len {
        Ok(())
    } else {
        Err(ChunkError::WriteMismatch { index, got: final_size, expected: len })
    }
}

/// Status check of a range response: 416 and anything but 206 are refused.
pub fn check_chunk_status(status: u16, start: u64, end: u64) -> (r: Result<(), ChunkError>)
    ensures
        status == 416 ==> r == Err::<(), ChunkError>(ChunkError::RangeNotSatisfiable { start, end }),
        status != 416 && status != 206 ==> r == Err::<(), ChunkError>(ChunkError::BadStatus { status }),
        status == 206 ==> r == Ok::<(), ChunkError>(()),
{
    if status == 416 {
        Err(ChunkError::RangeNotSatisfiable { start, end })
    } else if status != 206 {
        Err(ChunkError::BadStatus { status })
    } else {
        Ok(())
    }
}

/// Pause before retry `attempt` of a chunk (counted from 0): `2^attempt`
/// seconds while retries remain, `None` after the last attempt.
pub fn chunk_retry_delay(attempt: usize, max_retry: usize) -> (r: Option<u64>)
    requires
        attempt < max_retry ==> (attempt as u32) < 64,
    ensures
        attempt < max_retry ==> r == Some(vstd::arithmetic::power2::pow2((attempt as u32) as nat) as u64),
        attempt >= max_retry ==> r is None,
{
    if attempt < max_retry {
        Some(crate::error_classification::pow2_u64(attempt as u32))
    } else {
        None
    }
}

/// `Cancelled` exactly when the cancel flag was read as set.
pub fn cancellation_check(cancelled: bool) -> (r: Result<(), ChunkError>)
    ensures
        r == (if cancelled { Err::<(), ChunkError>(ChunkError::Cancelled) } else { Ok(()) }),
{
    if cancelled {
        Err(ChunkError::Cancelled)
    } else {
        Ok(())
    }
}

/// Reads the task's cancel flag: `Cancelled` when it is set. The flag is
/// shared with other threads, so which outcome comes back is not stated.
pub fn ensure_not_cancelled(control: &crate::downloader::TaskControl) -> (r: Result<(), ChunkError>)
    ensures
        r is Ok || r == Err::<(), ChunkError>(ChunkError::Cancelled),
{
    let c = control.cancelled.load(std::sync::atomic::Ordering::SeqCst);
    cancellation_check(c)
}

/// `dir` and `base` are what the chunk directory of `output` is made of: the
/// parent of `output` (`.` where it has none) and its file name (`stream`
/// where it has none).
pub open spec fn chunk_dir_parts(output: Seq<char>, dir: Seq<char>, base: Seq<char>) -> bool {
    &&& (dir == "."@ || (dir.len() < output.len() && starts_with_seq(output, dir)))
    &&& (base == "stream"@ || (base.len() > 0 && contains_seq(output, base) && (!is_verbatim(output) ==> !base.contains('/'))))
}

/// The directory that holds the chunks of the file `output_path`: beside it,
/// named after its file name with `.chunks` appended. For a plain path that
/// is its parent joined with `<name>.chunks`; the root alone gives
/// `stream.chunks` under `.`.
pub fn chunk_dir_from_output(output_path: &str) -> (r: String)
    ensures
        is_plain_path(output_path@) ==> join_facts(plain_parent(output_path@), last_piece(output_path@) + ".chunks"@, r@),
        output_path@ == "/"@ ==> join_facts("."@, "stream.chunks"@, r@),
        exists|dir: Seq<char>, base: Seq<char>|
            #![trigger join_facts(dir, base + ".chunks"@, r@)]
            chunk_dir_parts(output_path@, dir, base) && join_facts(dir, base + ".chunks"@, r@),
{
    let base = match path_file_name(output_path) {
        Some(n) => n,
        None => to_owned_string("stream"),
    };
    let dir = match path_parent(output_path) {
        Some(d) => d,
        None => to_owned_string("."),
    };
    let name = concat(base.as_str(), ".chunks");
    let r = path_join(dir.as_str(), name.as_str());
    assert(chunk_dir_parts(output_path@, dir@, base@) && join_facts(dir@, base@ + ".chunks"@, r@));
    proof {
        if output_path@ == "/"@ {
            reveal_strlit("stream");
            reveal_strlit(".chunks");
            reveal_strlit("stream.chunks");
            assert(base@ + ".chunks"@ =~= "stream.chunks"@);
        }
    }
    r
}

/// The total size in a `Content-Range` value such as `bytes 0-0/1234`: the
/// second `/`-separated field, when it is a number.
pub open spec fn content_range_total(s: Seq<char>) -> Option<u64> {
    let p = split_char(s, '/');
    if p.len() >= 2 {
        parse_u64_spec(p[1])
    } else {
        None
    }
}

/// The total size in a `Content-Range` value.
pub fn parse_total_from_content_range(content_range: &str) -> (r: Option<u64>)
    ensures
        r == content_range_total(content_range@),
{
    let pieces = split_char_exec(content_range, '/');
    if pieces.len() < 2 {
        return None;
    }
    assert(pieces@[1]@ == split_char(content_range@, '/')[1]);
    let cs = chars_of(pieces[1].as_str());
    assert(cs@.subrange(0, cs@.len() as int) =~= cs@);
    parse_u64_chars(&cs, 0, cs.len())
}

/// The size of the remote file from the answer to a `bytes=0-0` request: the
/// total in the `Content-Range` of a 206 answer, else a positive
/// `Content-Length` of a successful answer. A header that is absent or not
/// text is `None`.
pub open spec fn probe_total(status: u16, content_range: Option<Seq<char>>, content_length: Option<Seq<char>>) -> Option<u64> {
    let from_range = if status == 206 {
        match content_range {
            Some(r) => content_range_total(r),
            None => None,
        }
    } else {
        None
    };
    match from_range {
        Some(t) => Some(t),
        None => if 200 <= status <= 299 {
            match content_length {
                Some(l) => match parse_u64_spec(l) {
                    Some(n) => if n > 0 {
                        Some(n)
                    } else {
                        None
                    },
                    None => None,
                },
                None => None,
            }
        } else {
            None
        },
    }
}

/// The size of the remote file from the answer to a `bytes=0-0` request.
pub fn total_size_from_response(status: u16, content_range: Option<&str>, content_length: Option<&str>) -> (r:
    Result<u64, ChunkError>)
    ensures
        match probe_total(
            status,
            match content_range {
                Some(c) => Some(c@),
                None => None,
            },
            match content_length {
                Some(c) => Some(c@),
                None => None,
            },
        ) {
            Some(t) => r == Ok::<u64, ChunkError>(t),
            None => r == Err::<u64, ChunkError>(ChunkError::UnknownTotalSize),
        },
{
    if status == 206 {
        if let Some(range) = content_range {
            if let Some(total) = parse_total_from_content_range(range) {
                return Ok(total);
            }
        }
    }
    if 200 <= status && status <= 299 {
        if let Some(len) = content_length {
            let cs = chars_of(len);
            assert(cs@.subrange(0, cs@.len() as int) =~= len@);
            if let Some(size) = parse_u64_chars(&cs, 0, cs.len()) {
                if size > 0 {
                    return Ok(size);
                }
            }
        }
    }
    Err(ChunkError::UnknownTotalSize)
}

/// Law: the connection count is at least the size-based one, at least the
/// configured one where that is at most 16, and never more than 16.
pub proof fn lemma_concurrency_bounds(configured: usize, total: u64)
    ensures
        2 <= dynamic_concurrency_spec(total) <= effective_concurrency_spec(configured, total) <= 16,
        configured <= 16 ==> configured <= effective_concurrency_spec(configured, total),
{
}

/// Law: the connections used for a stream: 2 below 50 MiB (52428800
/// bytes), 4 below 200 MiB (209715200 bytes), 8 from there on; the
/// configured count replaces that when it is larger, up to 16.
pub proof fn lemma_concurrency_policy(configured: usize, total: u64)
    ensures
        dynamic_concurrency_spec(total) == (if total < 52428800 {
            2usize
        } else if total < 209715200 {
            4usize
        } else {
            8usize
        }),
        effective_concurrency_spec(configured, total) == (if configured <= dynamic_concurrency_spec(total) {
            dynamic_concurrency_spec(total)
        } else if configured <= 16 {
            configured
        } else {
            16usize
        }),
{
}

/// Bytes the jobs still have to fetch.
pub open spec fn missing_bytes(jobs: Seq<ChunkJob>) -> int
    decreases jobs.len(),
{
    if jobs.len() == 0 {
        0
    } else {
        missing_bytes(jobs.drop_last()) + (jobs.last().plan.len - jobs.last().existing)
    }
}

proof fn lemma_pending_missing(plans: Seq<ChunkPlan>, existing: Seq<u64>)
    requires
        existing.len() == plans.len(),
        forall|i: int| 0 <= i < plans.len() ==> existing[i] <= (#[trigger] plans[i]).len,
    ensures
        sum_u64(existing) + missing_bytes(pending_jobs(plans, existing)) == total_len(plans),
    decreases plans.len(),
{
    if plans.len() > 0 {
        let n = plans.len() - 1;
        let ps = plans.drop_last();
        let ex = existing.take(n);
        assert forall|i: int| 0 <= i < ps.len() implies ex[i] <= (#[trigger] ps[i]).len by {
            assert(ex[i] == existing[i] && ps[i] == plans[i]);
        }
        lemma_pending_missing(ps, ex);
        assert(existing.drop_last() =~= ex);
        assert(existing[n] <= plans[n].len);
        let rest = pending_jobs(ps, ex);
        assert(sum_u64(existing) == sum_u64(ex) + existing[n]);
        assert(total_len(plans) == total_len(ps) + plans[n].len);
        if existing[n] < plans[n].len {
            let job = ChunkJob { plan: plans[n], existing: existing[n] };
            assert(pending_jobs(plans, existing) == rest.push(job));
            assert(rest.push(job).drop_last() =~= rest);
        } else {
            assert(pending_jobs(plans, existing) == rest);
        }
    }
}

proof fn lemma_sat_sum_exact(xs: Seq<u64>)
    requires
        sum_u64(xs) <= u64::MAX,
    ensures
        sat_sum(xs) == sum_u64(xs),
    decreases xs.len(),
{
    if xs.len() > 0 {
        lemma_sat_sum_exact(xs.drop_last());
    }
}

/// Law: resuming fetches exactly what is missing. When no chunk file is
/// longer than its chunk, the bytes counted as already on disk and the bytes
/// the pending jobs still request add up to the size of the stream.
pub proof fn lemma_resume_fetches_the_rest(
    plans: Seq<ChunkPlan>,
    existing: Seq<u64>,
    total: u64,
    chunk_size: u64,
)
    requires
        valid_chunk_plans(plans, total, chunk_size),
        existing.len() == plans.len(),
        forall|i: int| 0 <= i < plans.len() ==> existing[i] <= (#[trigger] plans[i]).len,
    ensures
        sat_sum(existing) + missing_bytes(pending_jobs(plans, existing)) == total,
{
    lemma_chunk_plans_partition(plans, total, chunk_size);
    lemma_existing_sum_le(plans, existing, plans.len() as int);
    assert(existing.take(existing.len() as int) =~= existing);
    assert(plans.take(plans.len() as int) =~= plans);
    lemma_sat_sum_exact(existing);
    lemma_pending_missing(plans, existing);
}

} // verus!
