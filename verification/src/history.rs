//! The download history: recording finished tasks, searching them, and
//! forgetting old ones. Reading and writing the history file is the caller's.

use vstd::prelude::*;
use crate::text::{contains_seq, lowercase, to_lowercase, str_contains, str_eq, starts_with, starts_with_seq};

verus! {

/// One finished (or failed) download.
#[derive(Debug, Clone)]
pub struct HistoryEntry {
    pub task_id: String,
    pub bvid: String,
    pub cid: i64,
    pub title: String,
    pub part_title: Option<String>,
    pub status: String,
    pub video_size: u64,
    pub audio_size: u64,
    pub total_size: u64,
    pub save_path: String,
    pub filename: String,
    pub created_at: i64,
    pub completed_at: Option<i64>,
    pub error_message: Option<String>,
}

/// The history file's content.
#[derive(Debug, Clone)]
pub struct HistoryData {
    pub version: u32,
    pub entries: Vec<HistoryEntry>,
    pub last_updated: i64,
}

/// Most entries kept.
pub const MAX_HISTORY_ENTRIES: usize = 1000;

impl HistoryData {
    /// The history of a fresh installation.
    pub fn empty(now: i64) -> (d: Self)
        ensures
            d.version == 1,
            d.entries@.len() == 0,
            d.last_updated == now,
    {
        HistoryData { version: 1, entries: Vec::new(), last_updated: now }
    }
}

/// First entry at or after `k` recording task `id`.
pub open spec fn first_with_task(es: Seq<HistoryEntry>, id: Seq<char>, k: int) -> Option<int>
    decreases es.len() - k,
{
    if k < 0 || k >= es.len() {
        None
    } else if es[k].task_id@ == id {
        Some(k)
    } else {
        first_with_task(es, id, k + 1)
    }
}

/// `entry` replaces the first entry of its task, or is appended.
pub open spec fn upsert_spec(es: Seq<HistoryEntry>, entry: HistoryEntry) -> Seq<HistoryEntry> {
    match first_with_task(es, entry.task_id@, 0) {
        Some(i) => es.update(i, entry),
        None => es.push(entry),
    }
}

/// Where `x` goes in `s`, searching from `k`: before the first entry created
/// earlier than it.
pub open spec fn insert_pos(s: Seq<HistoryEntry>, x: HistoryEntry, k: int) -> int
    decreases s.len() - k,
{
    if k < 0 || k >= s.len() {
        s.len() as int
    } else if s[k].created_at < x.created_at {
        k
    } else {
        insert_pos(s, x, k + 1)
    }
}

/// Entries ordered newest first; entries created at the same time keep
/// their order (a stable sort on `created_at`, descending).
pub open spec fn sort_newest_first(s: Seq<HistoryEntry>) -> Seq<HistoryEntry>
    decreases s.len(),
{
    if s.len() == 0 {
        s
    } else {
        let sorted = sort_newest_first(s.drop_last());
        sorted.insert(insert_pos(sorted, s.last(), 0), s.last())
    }
}

/// Newest first.
pub open spec fn newest_first(s: Seq<HistoryEntry>) -> bool {
    forall|i: int, j: int| 0 <= i < j < s.len() ==> #[trigger] s[i].created_at >= #[trigger] s[j].created_at
}

/// At most the first `MAX_HISTORY_ENTRIES` entries.
pub open spec fn cap_entries(s: Seq<HistoryEntry>) -> Seq<HistoryEntry> {
    if s.len() > MAX_HISTORY_ENTRIES {
        s.take(MAX_HISTORY_ENTRIES as int)
    } else {
        s
    }
}

/// The entries after recording `entry`.
pub open spec fn add_entry_spec(es: Seq<HistoryEntry>, entry: HistoryEntry) -> Seq<HistoryEntry> {
    cap_entries(sort_newest_first(upsert_spec(es, entry)))
}

fn find_task(es: &Vec<HistoryEntry>, id: &str) -> (r: Option<usize>)
    ensures
        match first_with_task(es@, id@, 0) {
            Some(i) => r == Some(i as usize),
            None => r is None,
        },
{
    let mut i: usize = 0;
    while i < es.len()
        invariant
            i <= es.len(),
            first_with_task(es@, id@, 0) == first_with_task(es@, id@, i as int),
        decreases es.len() - i,
    {
        if str_eq(es[i].task_id.as_str(), id) {
            return Some(i);
        }
        i = i + 1;
    }
    None
}

fn insert_position(s: &Vec<HistoryEntry>, created_at: i64, Ghost(x): Ghost<HistoryEntry>) -> (p: usize)
    requires
        x.created_at == created_at,
    ensures
        p as int == insert_pos(s@, x, 0),
{
    let mut k: usize = 0;
    while k < s.len()
        invariant
            k <= s.len(),
            x.created_at == created_at,
            insert_pos(s@, x, 0) == insert_pos(s@, x, k as int),
        decreases s.len() - k,
    {
        if s[k].created_at < created_at {
            return k;
        }
        k = k + 1;
    }
    k
}

/// Orders entries newest first, stably.
pub fn sort_entries_newest_first(es: Vec<HistoryEntry>) -> (r: Vec<HistoryEntry>)
    ensures
        r@ == sort_newest_first(es@),
{
    let ghost orig = es@;
    let mut rest = es;
    let mut out: Vec<HistoryEntry> = Vec::new();
    let mut i: usize = 0;
    let n = rest.len();
    while rest.len() > 0
        invariant
            n == orig.len(),
            i + rest@.len() == orig.len(),
            rest@ == orig.subrange(i as int, orig.len() as int),
            out@ == sort_newest_first(orig.take(i as int)),
        decreases rest.len(),
    {
        let x = rest.remove(0);
        assert(orig.take(i + 1).drop_last() =~= orig.take(i as int));
        assert(orig.take(i + 1).last() == x);
        let p = insert_position(&out, x.created_at, Ghost(x));
        proof {
            lemma_insert_pos_bound(out@, x, 0);
        }
        out.insert(p, x);
        i = i + 1;
        assert(rest@ =~= orig.subrange(i as int, orig.len() as int));
    }
    assert(orig.take(i as int) =~= orig);
    out
}

proof fn lemma_insert_pos_bound(s: Seq<HistoryEntry>, x: HistoryEntry, k: int)
    requires
        0 <= k,
    ensures
        k <= insert_pos(s, x, k) <= s.len() || (k > s.len() && insert_pos(s, x, k) == s.len()),
    decreases s.len() - k,
{
    if k < s.len() && s[k].created_at >= x.created_at {
        lemma_insert_pos_bound(s, x, k + 1);
    }
}

/// Records `entry` at time `now`: it replaces the entry of the same task or
/// is added; the entries are then ordered newest first (stably) and cut to
/// the newest `MAX_HISTORY_ENTRIES`.
pub fn add_history_entry(data: &mut HistoryData, entry: HistoryEntry, now: i64)
    ensures
        final(data).entries@ == add_entry_spec(old(data).entries@, entry),
        final(data).last_updated == now,
        final(data).version == old(data).version,
{
    let mut entries = Vec::new();
    std::mem::swap(&mut entries, &mut data.entries);
    let ghost es0 = entries@;
    proof {
        lemma_first_with_task(es0, entry.task_id@, 0);
    }
    match find_task(&entries, entry.task_id.as_str()) {
        Some(pos) => {
            entries.remove(pos);
            entries.insert(pos, entry);
            assert(entries@ =~= es0.update(pos as int, entry));
        },
        None => {
            entries.push(entry);
        },
    }
    let mut sorted = sort_entries_newest_first(entries);
    if sorted.len() > MAX_HISTORY_ENTRIES {
        sorted.truncate(MAX_HISTORY_ENTRIES);
    }
    data.entries = sorted;
    data.last_updated = now;
}

// ---------------------------------------------------------------------------
// Laws of the ordering
// ---------------------------------------------------------------------------

proof fn lemma_insert_pos_props(s: Seq<HistoryEntry>, x: HistoryEntry, k: int)
    requires
        0 <= k <= s.len(),
        newest_first(s),
        forall|j: int| 0 <= j < k ==> s[j].created_at >= x.created_at,
    ensures
        k <= insert_pos(s, x, k) <= s.len(),
        forall|j: int| 0 <= j < insert_pos(s, x, k) ==> s[j].created_at >= x.created_at,
        forall|j: int| insert_pos(s, x, k) <= j < s.len() ==> s[j].created_at < x.created_at,
    decreases s.len() - k,
{
    if k < s.len() {
        if s[k].created_at >= x.created_at {
            lemma_insert_pos_props(s, x, k + 1);
        } else {
            assert forall|j: int| k <= j < s.len() implies s[j].created_at < x.created_at by {
                if j > k {
                    assert(s[k].created_at >= s[j].created_at);
                }
            }
        }
    }
}

/// Law: the history is always ordered newest first, and ordering neither
/// adds nor loses entries.
pub proof fn lemma_sort_newest_first(s: Seq<HistoryEntry>)
    ensures
        newest_first(sort_newest_first(s)),
        sort_newest_first(s).to_multiset() == s.to_multiset(),
    decreases s.len(),
{
    if s.len() > 0 {
        let sorted = sort_newest_first(s.drop_last());
        lemma_sort_newest_first(s.drop_last());
        let x = s.last();
        lemma_insert_pos_props(sorted, x, 0);
        let p = insert_pos(sorted, x, 0);
        let r = sorted.insert(p, x);
        assert forall|i: int, j: int| 0 <= i < j < r.len() implies #[trigger] r[i].created_at >= #[trigger] r[j].created_at by {
            if j < p {
            } else if j == p {
                assert(r[i] == sorted[i]);
            } else if i < p {
                assert(r[j] == sorted[j - 1]);
                assert(r[i] == sorted[i]);
            } else if i == p {
                assert(r[j] == sorted[j - 1]);
            } else {
                assert(r[j] == sorted[j - 1]);
                assert(r[i] == sorted[i - 1]);
            }
        }
        vstd::seq_lib::to_multiset_insert(sorted, p, x);
        assert(s.drop_last().push(x) =~= s);
        vstd::seq_lib::to_multiset_build(s.drop_last(), x);
    }
}

/// Law: after recording an entry, the history holds it (unless it is older
/// than all of the newest `MAX_HISTORY_ENTRIES`), holds no more than
/// `MAX_HISTORY_ENTRIES` entries, and is ordered newest first.
pub proof fn lemma_add_entry_shape(es: Seq<HistoryEntry>, entry: HistoryEntry)
    ensures
        add_entry_spec(es, entry).len() <= MAX_HISTORY_ENTRIES,
        newest_first(add_entry_spec(es, entry)),
        upsert_spec(es, entry).len() <= MAX_HISTORY_ENTRIES ==> add_entry_spec(es, entry).to_multiset().count(entry) > 0,
{
    let u = upsert_spec(es, entry);
    lemma_sort_newest_first(u);
    let s = sort_newest_first(u);
    vstd::seq_lib::to_multiset_len(u);
    vstd::seq_lib::to_multiset_len(s);
    if u.len() <= MAX_HISTORY_ENTRIES {
        vstd::seq_lib::to_multiset_contains(u, entry);
        match first_with_task(es, entry.task_id@, 0) {
            Some(i) => {
                lemma_first_with_task(es, entry.task_id@, 0);
                assert(u[i] == entry);
                assert(u.contains(entry));
            },
            None => {
                assert(u[u.len() - 1] == entry);
                assert(u.contains(entry));
            },
        }
    }
}

proof fn lemma_first_with_task(es: Seq<HistoryEntry>, id: Seq<char>, k: int)
    requires
        0 <= k,
    ensures
        first_with_task(es, id, k) matches Some(i) ==> k <= i < es.len() && es[i].task_id@ == id,
        first_with_task(es, id, k) is None ==> forall|j: int| k <= j < es.len() ==> (#[trigger] es[j]).task_id@ != id,
    decreases es.len() - k,
{
    if k < es.len() && es[k].task_id@ != id {
        lemma_first_with_task(es, id, k + 1);
    }
}

/// No task is recorded twice.
pub open spec fn distinct_tasks(s: Seq<HistoryEntry>) -> bool {
    forall|i: int, j: int| 0 <= i < j < s.len() ==> (#[trigger] s[i]).task_id@ != (#[trigger] s[j]).task_id@
}

/// Ordering keeps the entries (as elements of the input) and keeps tasks distinct.
proof fn lemma_sort_keeps_distinct(s: Seq<HistoryEntry>)
    requires
        distinct_tasks(s),
    ensures
        distinct_tasks(sort_newest_first(s)),
        sort_newest_first(s).len() == s.len(),
        forall|k: int| 0 <= k < sort_newest_first(s).len() ==> s.contains(#[trigger] sort_newest_first(s)[k]),
    decreases s.len(),
{
    if s.len() > 0 {
        let s1 = s.drop_last();
        assert forall|i: int, j: int| 0 <= i < j < s1.len() implies (#[trigger] s1[i]).task_id@
            != (#[trigger] s1[j]).task_id@ by {
            assert(s1[i] == s[i] && s1[j] == s[j]);
        }
        lemma_sort_keeps_distinct(s1);
        let sorted = sort_newest_first(s1);
        let x = s.last();
        lemma_insert_pos_bound(sorted, x, 0);
        let p = insert_pos(sorted, x, 0);
        let r = sorted.insert(p, x);
        assert(r == sort_newest_first(s));
        assert forall|k: int| 0 <= k < sorted.len() implies (#[trigger] sorted[k]).task_id@ != x.task_id@ by {
            assert(s1.contains(sorted[k]));
            let a = choose|a: int| 0 <= a < s1.len() && s1[a] == sorted[k];
            assert(s[a] == s1[a]);
            assert(s[s.len() - 1] == x);
        }
        assert forall|i: int, j: int| 0 <= i < j < r.len() implies (#[trigger] r[i]).task_id@
            != (#[trigger] r[j]).task_id@ by {
            if j < p {
                assert(r[i] == sorted[i] && r[j] == sorted[j]);
            } else if j == p {
                assert(r[i] == sorted[i]);
            } else if i < p {
                assert(r[j] == sorted[j - 1]);
                assert(r[i] == sorted[i]);
            } else if i == p {
                assert(r[j] == sorted[j - 1]);
            } else {
                assert(r[j] == sorted[j - 1]);
                assert(r[i] == sorted[i - 1]);
            }
        }
        assert forall|k: int| 0 <= k < r.len() implies s.contains(#[trigger] r[k]) by {
            if k < p {
                assert(r[k] == sorted[k]);
                assert(s1.contains(sorted[k]));
                let a = choose|a: int| 0 <= a < s1.len() && s1[a] == sorted[k];
                assert(s[a] == s1[a]);
            } else if k == p {
                assert(s[s.len() - 1] == x);
            } else {
                assert(r[k] == sorted[k - 1]);
                assert(s1.contains(sorted[k - 1]));
                let a = choose|a: int| 0 <= a < s1.len() && s1[a] == sorted[k - 1];
                assert(s[a] == s1[a]);
            }
        }
    }
}

/// Replacing or appending `entry` keeps every task recorded at most once.
proof fn lemma_upsert_keeps_distinct(es: Seq<HistoryEntry>, entry: HistoryEntry)
    requires
        distinct_tasks(es),
    ensures
        distinct_tasks(upsert_spec(es, entry)),
{
    lemma_first_with_task(es, entry.task_id@, 0);
    let u = upsert_spec(es, entry);
    match first_with_task(es, entry.task_id@, 0) {
        Some(i) => {
            assert forall|a: int, b: int| 0 <= a < b < u.len() implies (#[trigger] u[a]).task_id@
                != (#[trigger] u[b]).task_id@ by {
                if a == i {
                    assert(u[b] == es[b]);
                } else if b == i {
                    assert(u[a] == es[a]);
                } else {
                    assert(u[a] == es[a] && u[b] == es[b]);
                }
            }
        },
        None => {
            assert forall|a: int, b: int| 0 <= a < b < u.len() implies (#[trigger] u[a]).task_id@
                != (#[trigger] u[b]).task_id@ by {
                if b == es.len() {
                    assert(u[a] == es[a]);
                } else {
                    assert(u[a] == es[a] && u[b] == es[b]);
                }
            }
        },
    }
}

/// Law: recording an entry in a history that holds every task at most once
/// keeps it so: the entry replaces its task's earlier record.
pub proof fn lemma_add_keeps_tasks_distinct(es: Seq<HistoryEntry>, entry: HistoryEntry)
    requires
        distinct_tasks(es),
    ensures
        distinct_tasks(add_entry_spec(es, entry)),
{
    lemma_upsert_keeps_distinct(es, entry);
    let u = upsert_spec(es, entry);
    lemma_sort_keeps_distinct(u);
    let sorted = sort_newest_first(u);
    if sorted.len() > MAX_HISTORY_ENTRIES {
        let t = sorted.take(MAX_HISTORY_ENTRIES as int);
        assert forall|a: int, b: int| 0 <= a < b < t.len() implies (#[trigger] t[a]).task_id@
            != (#[trigger] t[b]).task_id@ by {
            assert(t[a] == sorted[a] && t[b] == sorted[b]);
        }
    }
}

/// Some entry of `es` records task `id`.
pub open spec fn records_task(es: Seq<HistoryEntry>, id: Seq<char>) -> bool {
    exists|i: int| 0 <= i < es.len() && (#[trigger] es[i]).task_id@ == id
}

/// How many entries there are once `entry` is recorded, before the cap: one
/// more than before when its task is new.
pub open spec fn recorded_len(es: Seq<HistoryEntry>, entry: HistoryEntry) -> int {
    if records_task(es, entry.task_id@) {
        es.len() as int
    } else {
        es.len() + 1int
    }
}

/// Law: recording `entry` in a history that holds every task at most once
/// leaves exactly `min(MAX_HISTORY_ENTRIES, recorded_len)` entries, each of
/// them `entry` itself or an earlier entry of another task, and `entry` is
/// among them whenever the history had room for it.
pub proof fn lemma_add_entry_exact(es: Seq<HistoryEntry>, entry: HistoryEntry)
    requires
        distinct_tasks(es),
    ensures
        add_entry_spec(es, entry).len() == (if recorded_len(es, entry) < MAX_HISTORY_ENTRIES {
            recorded_len(es, entry)
        } else {
            MAX_HISTORY_ENTRIES as int
        }),
        forall|k: int|
            0 <= k < add_entry_spec(es, entry).len() ==> {
                let e = #[trigger] add_entry_spec(es, entry)[k];
                e == entry || (es.contains(e) && e.task_id@ != entry.task_id@)
            },
        recorded_len(es, entry) <= MAX_HISTORY_ENTRIES ==> add_entry_spec(es, entry).contains(entry),
{
    let id = entry.task_id@;
    lemma_first_with_task(es, id, 0);
    lemma_upsert_keeps_distinct(es, entry);
    let u = upsert_spec(es, entry);
    lemma_sort_keeps_distinct(u);
    let sorted = sort_newest_first(u);
    let r = add_entry_spec(es, entry);
    match first_with_task(es, id, 0) {
        Some(i) => {
            assert(es[i].task_id@ == id);
            assert(records_task(es, id));
        },
        None => {
            assert(!records_task(es, id));
        },
    }
    assert(u.len() == recorded_len(es, entry));
    assert forall|k: int| 0 <= k < r.len() implies {
        let e = #[trigger] r[k];
        e == entry || (es.contains(e) && e.task_id@ != id)
    } by {
        assert(r[k] == sorted[k]);
        assert(u.contains(sorted[k]));
        let a = choose|a: int| 0 <= a < u.len() && u[a] == sorted[k];
        match first_with_task(es, id, 0) {
            Some(i) => {
                if a != i {
                    assert(u[a] == es[a]);
                    assert(es[a].task_id@ != es[i].task_id@) by {
                        if a < i {
                            assert(es[a].task_id@ != es[i].task_id@);
                        } else {
                            assert(es[i].task_id@ != es[a].task_id@);
                        }
                    }
                }
            },
            None => {
                if a < es.len() {
                    assert(u[a] == es[a]);
                }
            },
        }
    }
    lemma_add_entry_shape(es, entry);
    vstd::seq_lib::to_multiset_contains(r, entry);
}

/// An entry passes the search filters: its title or part title contains the
/// keyword (both lowercased), its status equals the requested one, and it
/// was created within the date range; absent filters pass everything.
pub open spec fn history_matches(
    e: HistoryEntry,
    keyword: Option<String>,
    status: Option<String>,
    start_date: Option<i64>,
    end_date: Option<i64>,
) -> bool {
    &&& match keyword {
        Some(k) => contains_seq(lowercase(e.title@), lowercase(k@)) || match e.part_title {
            Some(t) => contains_seq(lowercase(t@), lowercase(k@)),
            None => false,
        },
        None => true,
    }
    &&& match status {
        Some(st) => e.status@ == st@,
        None => true,
    }
    &&& match start_date {
        Some(s) => e.created_at >= s,
        None => true,
    }
    &&& match end_date {
        Some(d) => e.created_at <= d,
        None => true,
    }
}

/// The search filters as a predicate.
pub open spec fn search_pred(
    keyword: Option<String>,
    status: Option<String>,
    start_date: Option<i64>,
    end_date: Option<i64>,
) -> spec_fn(HistoryEntry) -> bool {
    |e: HistoryEntry| history_matches(e, keyword, status, start_date, end_date)
}

/// The first `limit` entries passing the filters, in order.
pub open spec fn search_spec(
    es: Seq<HistoryEntry>,
    keyword: Option<String>,
    status: Option<String>,
    start_date: Option<i64>,
    end_date: Option<i64>,
    limit: usize,
) -> Seq<HistoryEntry> {
    let f = es.filter(search_pred(keyword, status, start_date, end_date));
    if f.len() > limit {
        f.take(limit as int)
    } else {
        f
    }
}

fn entry_matches(
    e: &HistoryEntry,
    kw_lower: &Option<String>,
    Ghost(keyword): Ghost<Option<String>>,
    status: &Option<String>,
    start_date: Option<i64>,
    end_date: Option<i64>,
) -> (b: bool)
    requires
        match keyword {
            Some(k) => kw_lower is Some && kw_lower->0@ == lowercase(k@),
            None => kw_lower is None,
        },
    ensures
        b == history_matches(*e, keyword, *status, start_date, end_date),
{
    match kw_lower {
        Some(k) => {
            let t = to_lowercase(e.title.as_str());
            let title_match = str_contains(t.as_str(), k.as_str());
            let part_match = match &e.part_title {
                Some(p) => {
                    let pl = to_lowercase(p.as_str());
                    str_contains(pl.as_str(), k.as_str())
                },
                None => false,
            };
            if !title_match && !part_match {
                return false;
            }
        },
        None => {},
    }
    match status {
        Some(st) => {
            if !str_eq(e.status.as_str(), st.as_str()) {
                return false;
            }
        },
        None => {},
    }
    match start_date {
        Some(s) => {
            if e.created_at < s {
                return false;
            }
        },
        None => {},
    }
    match end_date {
        Some(d) => {
            if e.created_at > d {
                return false;
            }
        },
        None => {},
    }
    true
}

/// Searches the history: the first `limit` entries, in order, that pass
/// the filters of `history_matches`.
pub fn search_history(
    entries: Vec<HistoryEntry>,
    keyword: Option<String>,
    status: Option<String>,
    start_date: Option<i64>,
    end_date: Option<i64>,
    limit: usize,
) -> (r: Vec<HistoryEntry>)
    ensures
        r@ == search_spec(entries@, keyword, status, start_date, end_date, limit),
{
    let kw_lower = match &keyword {
        Some(k) => Some(to_lowercase(k.as_str())),
        None => None,
    };
    let ghost orig = entries@;
    let ghost pred = search_pred(keyword, status, start_date, end_date);
    let mut rest = entries;
    let mut out: Vec<HistoryEntry> = Vec::new();
    let mut i: usize = 0;
    let n = rest.len();
    while rest.len() > 0
        invariant
            n == orig.len(),
            i + rest@.len() == orig.len(),
            rest@ == orig.subrange(i as int, orig.len() as int),
            out@ == orig.take(i as int).filter(pred),
            pred == search_pred(keyword, status, start_date, end_date),
            match keyword {
                Some(k) => kw_lower is Some && kw_lower->0@ == lowercase(k@),
                None => kw_lower is None,
            },
        decreases rest.len(),
    {
        let x = rest.remove(0);
        proof {
            reveal_with_fuel(Seq::filter, 1);
            assert(orig.take(i + 1).drop_last() =~= orig.take(i as int));
            assert(orig.take(i + 1).last() == x);
        }
        if entry_matches(&x, &kw_lower, Ghost(keyword), &status, start_date, end_date) {
            out.push(x);
        }
        i = i + 1;
        assert(rest@ =~= orig.subrange(i as int, orig.len() as int));
    }
    assert(orig.take(i as int) =~= orig);
    if out.len() > limit {
        out.truncate(limit);
    }
    out
}

/// An entry survives cleanup when it was created at or after `cutoff`, or
/// is not a completed download.
pub open spec fn keeps_entry(e: HistoryEntry, cutoff: int) -> bool {
    e.created_at >= cutoff || e.status@ != "Completed"@
}

/// The entries that survive a cleanup with this cutoff.
pub open spec fn kept_after(cutoff: int) -> spec_fn(HistoryEntry) -> bool {
    |e: HistoryEntry| keeps_entry(e, cutoff)
}

/// Filtering a sequence whose elements all pass keeps it whole.
proof fn lemma_filter_all_pass(s: Seq<HistoryEntry>, p: spec_fn(HistoryEntry) -> bool)
    requires
        forall|i: int| 0 <= i < s.len() ==> p(#[trigger] s[i]),
    ensures
        s.filter(p) == s,
    decreases s.len(),
{
    reveal(Seq::filter);
    if s.len() > 0 {
        let t = s.drop_last();
        assert forall|i: int| 0 <= i < t.len() implies p(#[trigger] t[i]) by {
            assert(t[i] == s[i]);
        }
        lemma_filter_all_pass(t, p);
        assert(p(s[s.len() - 1]));
        assert(t.push(s.last()) =~= s);
    }
}

/// Law: a cleanup keeps every entry that is not a completed download or was
/// created at or after the cutoff, and a second cleanup with the same cutoff
/// removes nothing more.
pub proof fn lemma_cleanup_stable(es: Seq<HistoryEntry>, cutoff: int)
    ensures
        forall|i: int|
            0 <= i < es.len() && keeps_entry(es[i], cutoff) ==> es.filter(kept_after(cutoff)).contains(
                #[trigger] es[i],
            ),
        es.filter(kept_after(cutoff)).filter(kept_after(cutoff)) == es.filter(kept_after(cutoff)),
{
    let p = kept_after(cutoff);
    let f = es.filter(p);
    assert forall|i: int| 0 <= i < es.len() && keeps_entry(es[i], cutoff) implies f.contains(
        #[trigger] es[i],
    ) by {
        es.lemma_filter_contains(p, i);
    }
    assert forall|i: int| 0 <= i < f.len() implies p(#[trigger] f[i]) by {
        es.lemma_filter_pred(p, i);
    }
    lemma_filter_all_pass(f, p);
}

/// Forgets completed downloads created more than `days_to_keep` days before
/// `now`. Returns how many entries were removed; the update time moves to
/// `now` only when some were.
pub fn cleanup_old_history(data: &mut HistoryData, days_to_keep: i64, now: i64) -> (removed: usize)
    requires
        i64::MIN <= days_to_keep * 86400 <= i64::MAX,
        i64::MIN <= now - days_to_keep * 86400 <= i64::MAX,
    ensures
        final(data).entries@ == old(data).entries@.filter(kept_after(now - days_to_keep * 86400)),
        removed == old(data).entries@.len() - final(data).entries@.len(),
        final(data).last_updated == (if removed > 0 { now } else { old(data).last_updated }),
        final(data).version == old(data).version,
{
    let cutoff = now - days_to_keep * 86400;
    let mut entries = Vec::new();
    std::mem::swap(&mut entries, &mut data.entries);
    let ghost orig = entries@;
    let ghost pred = kept_after(cutoff as int);
    let before = entries.len();
    let mut rest = entries;
    let mut out: Vec<HistoryEntry> = Vec::new();
    let mut i: usize = 0;
    while rest.len() > 0
        invariant
            before == orig.len(),
            i + rest@.len() == orig.len(),
            rest@ == orig.subrange(i as int, orig.len() as int),
            out@ == orig.take(i as int).filter(pred),
            pred == kept_after(cutoff as int),
        decreases rest.len(),
    {
        let x = rest.remove(0);
        proof {
            reveal_with_fuel(Seq::filter, 1);
            assert(orig.take(i + 1).drop_last() =~= orig.take(i as int));
            assert(orig.take(i + 1).last() == x);
        }
        if x.created_at >= cutoff || !str_eq(x.status.as_str(), "Completed") {
            out.push(x);
        }
        i = i + 1;
        assert(rest@ =~= orig.subrange(i as int, orig.len() as int));
    }
    assert(orig.take(i as int) =~= orig);
    proof {
        orig.lemma_filter_len(pred);
    }
    let after = out.len();
    data.entries = out;
    let removed = before - after;
    if removed > 0 {
        data.last_updated = now;
    }
    removed
}

/// Counts over the history, all in whole numbers.
#[derive(Debug, Clone, Copy, PartialEq, Eq, Structural)]
pub struct HistoryCounts {
    pub total_downloads: usize,
    pub completed_downloads: usize,
    pub failed_downloads: usize,
    pub total_bytes: u64,
    pub average_speed: u64,
    pub last_7_days: usize,
    pub last_30_days: usize,
}

pub open spec fn is_completed(e: HistoryEntry) -> bool {
    e.status@ == "Completed"@
}

pub open spec fn is_failed(e: HistoryEntry) -> bool {
    starts_with_seq(e.status@, "Failed"@)
}

/// Bytes of the completed downloads.
pub open spec fn completed_bytes(s: Seq<HistoryEntry>) -> int
    decreases s.len(),
{
    if s.len() == 0 {
        0
    } else {
        completed_bytes(s.drop_last()) + if is_completed(s.last()) { s.last().total_size as int } else { 0 }
    }
}

/// Sum, over completed downloads, of their size divided by 300 (a
/// five-minute transfer).
pub open spec fn completed_speeds(s: Seq<HistoryEntry>) -> int
    decreases s.len(),
{
    if s.len() == 0 {
        0
    } else {
        completed_speeds(s.drop_last()) + if is_completed(s.last()) { s.last().total_size as int / 300 } else { 0 }
    }
}

/// Counts over `s` at time `now`.
pub open spec fn counts_spec(s: Seq<HistoryEntry>, now: i64) -> HistoryCounts {
    let completed = s.filter(|e: HistoryEntry| is_completed(e)).len();
    HistoryCounts {
        total_downloads: s.len() as usize,
        completed_downloads: completed as usize,
        failed_downloads: s.filter(|e: HistoryEntry| is_failed(e)).len() as usize,
        total_bytes: completed_bytes(s) as u64,
        average_speed: if completed > 0 { (completed_speeds(s) / completed as int) as u64 } else { 0 },
        last_7_days: s.filter(|e: HistoryEntry| e.created_at >= now - 7 * 86400).len() as usize,
        last_30_days: s.filter(|e: HistoryEntry| e.created_at >= now - 30 * 86400).len() as usize,
    }
}

proof fn lemma_speeds_le_bytes(s: Seq<HistoryEntry>)
    ensures
        0 <= completed_speeds(s) <= completed_bytes(s),
    decreases s.len(),
{
    if s.len() > 0 {
        lemma_speeds_le_bytes(s.drop_last());
    }
}

/// The whole-number statistics of the history at time `now`; the success
/// rate is the caller's, as a ratio of two of them.
pub fn count_statistics(entries: &Vec<HistoryEntry>, now: i64) -> (c: HistoryCounts)
    requires
        completed_bytes(entries@) <= u64::MAX,
        now - 30 * 86400 >= i64::MIN,
    ensures
        c == counts_spec(entries@, now),
{
    let seven = now - 7 * 86400;
    let thirty = now - 30 * 86400;
    let ghost s = entries@;
    let mut completed: usize = 0;
    let mut failed: usize = 0;
    let mut bytes: u64 = 0;
    let mut speeds: u64 = 0;
    let mut l7: usize = 0;
    let mut l30: usize = 0;
    let mut i: usize = 0;
    while i < entries.len()
        invariant
            i <= entries.len(),
            s == entries@,
            completed_bytes(s) <= u64::MAX,
            seven == now - 7 * 86400,
            thirty == now - 30 * 86400,
            completed == s.take(i as int).filter(|e: HistoryEntry| is_completed(e)).len(),
            failed == s.take(i as int).filter(|e: HistoryEntry| is_failed(e)).len(),
            bytes == completed_bytes(s.take(i as int)),
            speeds == completed_speeds(s.take(i as int)),
            l7 == s.take(i as int).filter(|e: HistoryEntry| e.created_at >= now - 7 * 86400).len(),
            l30 == s.take(i as int).filter(|e: HistoryEntry| e.created_at >= now - 30 * 86400).len(),
            completed <= i,
            failed <= i,
            l7 <= i,
            l30 <= i,
        decreases entries.len() - i,
    {
        let e = &entries[i];
        let ghost t = s.take(i + 1);
        proof {
            reveal_with_fuel(Seq::filter, 1);
            assert(t.drop_last() =~= s.take(i as int));
            assert(t.last() == s[i as int]);
            lemma_bytes_prefix_le(s, i + 1);
            lemma_speeds_le_bytes(t);
        }
        if str_eq(e.status.as_str(), "Completed") {
            completed = completed + 1;
            bytes = bytes + e.total_size;
            speeds = speeds + e.total_size / 300;
        }
        if starts_with(e.status.as_str(), "Failed") {
            failed = failed + 1;
        }
        if e.created_at >= seven {
            l7 = l7 + 1;
        }
        if e.created_at >= thirty {
            l30 = l30 + 1;
        }
        i = i + 1;
    }
    assert(s.take(i as int) =~= s);
    let average_speed = if completed > 0 { speeds / (completed as u64) } else { 0 };
    HistoryCounts {
        total_downloads: entries.len(),
        completed_downloads: completed,
        failed_downloads: failed,
        total_bytes: bytes,
        average_speed,
        last_7_days: l7,
        last_30_days: l30,
    }
}

proof fn lemma_bytes_prefix_le(s: Seq<HistoryEntry>, k: int)
    requires
        0 <= k <= s.len(),
    ensures
        completed_bytes(s.take(k)) <= completed_bytes(s),
    decreases s.len() - k,
{
    if k < s.len() {
        lemma_bytes_prefix_le(s, k + 1);
        assert(s.take(k + 1).drop_last() =~= s.take(k));
    } else {
        assert(s.take(k) =~= s);
    }
}

/// Law: a search returns the first matching entries, in history order: as
/// many as match, up to `limit`, and the `i`-th result is the `i`-th entry of
/// the history that passes the filters. With more than `limit` matches, the
/// later ones (the older ones, as the history is kept) are left out.
pub proof fn lemma_search_takes_first_matches(
    es: Seq<HistoryEntry>,
    keyword: Option<String>,
    status: Option<String>,
    start_date: Option<i64>,
    end_date: Option<i64>,
    limit: usize,
)
    ensures
        search_spec(es, keyword, status, start_date, end_date, limit).len() == (if es.filter(
            search_pred(keyword, status, start_date, end_date),
        ).len() < limit {
            es.filter(search_pred(keyword, status, start_date, end_date)).len() as int
        } else {
            limit as int
        }),
        forall|i: int|
            0 <= i < search_spec(es, keyword, status, start_date, end_date, limit).len() ==> #[trigger] search_spec(
                es,
                keyword,
                status,
                start_date,
                end_date,
                limit,
            )[i] == es.filter(search_pred(keyword, status, start_date, end_date))[i],
{
}

/// Law: a search returns at most `limit` entries, each one from the history
/// and passing the filters; when no more than `limit` entries pass, every
/// one of them is returned.
pub proof fn lemma_search_results(
    es: Seq<HistoryEntry>,
    keyword: Option<String>,
    status: Option<String>,
    start_date: Option<i64>,
    end_date: Option<i64>,
    limit: usize,
)
    ensures
        search_spec(es, keyword, status, start_date, end_date, limit).len() <= limit,
        forall|i: int|
            0 <= i < search_spec(es, keyword, status, start_date, end_date, limit).len() ==> {
                let e = #[trigger] search_spec(es, keyword, status, start_date, end_date, limit)[i];
                history_matches(e, keyword, status, start_date, end_date) && es.contains(e)
            },
        es.filter(search_pred(keyword, status, start_date, end_date)).len() <= limit ==> forall|i: int|
            0 <= i < es.len() && history_matches(#[trigger] es[i], keyword, status, start_date, end_date)
                ==> search_spec(es, keyword, status, start_date, end_date, limit).contains(es[i]),
{
    let pred = search_pred(keyword, status, start_date, end_date);
    let f = es.filter(pred);
    let r = search_spec(es, keyword, status, start_date, end_date, limit);
    assert forall|i: int| 0 <= i < r.len() implies {
        let e = #[trigger] r[i];
        history_matches(e, keyword, status, start_date, end_date) && es.contains(e)
    } by {
        assert(r[i] == f[i]);
        es.lemma_filter_pred(pred, i);
        assert(f.contains(f[i]));
        es.lemma_filter_contains_rev(pred, f[i]);
    }
    if f.len() <= limit {
        assert forall|i: int|
            0 <= i < es.len() && history_matches(#[trigger] es[i], keyword, status, start_date, end_date)
            implies r.contains(es[i]) by {
            es.lemma_filter_contains(pred, i);
        }
    }
}

} // verus!
