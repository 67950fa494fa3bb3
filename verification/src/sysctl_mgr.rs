//! Idempotent management of kernel network parameters.
//!
//! A manager exposes `get` and `set` over a key-value table of kernel
//! parameters and records every operation it issues. [`ensure`] builds the
//! idempotent read-then-write on top of them: it reads the current value and
//! writes only if it differs from the desired one.
use vstd::prelude::*;
use vstd::string::StringExecFns;

verus! {

/// A failed kernel-parameter operation: the key does not exist or is
/// inaccessible.
#[derive(Debug)]
pub struct SysctlFault {
    pub message: String,
}

/// One operation issued against the kernel-parameter table, as recorded by an
/// in-memory manager.
#[derive(Debug)]
pub enum SysctlEvent {
    Read { key: String },
    Write { key: String, value: String },
}

/// Mathematical value of a [`SysctlEvent`].
pub enum SysctlEventV {
    Read { key: Seq<char> },
    Write { key: Seq<char>, value: Seq<char> },
}

impl View for SysctlEvent {
    type V = SysctlEventV;

    open spec fn view(&self) -> SysctlEventV {
        match self {
            SysctlEvent::Read { key } => SysctlEventV::Read { key: key@ },
            SysctlEvent::Write { key, value } => SysctlEventV::Write { key: key@, value: value@ },
        }
    }
}

/// The boundary contract this core requires from a kernel-parameter
/// collaborator: reads and writes over dotted keys, every issued operation
/// appended to a log, oldest first, and every failure counted.
///
/// `mapping()` is a table model of the stored values. Only a manager whose
/// `obeys_table()` holds claims that model is exact — the in-memory manager
/// proves it; the kernel-backed manager does not claim it, because the
/// kernel's table is shared with other processes, some of its keys are
/// volatile, and a key containing slashes aliases the dotted form of the same
/// parameter. All table clauses below are therefore guarded by
/// `obeys_table()`; the log and the failure count are claimed by every
/// manager.
pub trait SysctlApi: Sized {
    /// The key-value table of kernel parameters behind this manager.
    spec fn mapping(&self) -> Map<Seq<char>, Seq<char>>;

    /// Whether `mapping()` is an exact model of the stored values.
    spec fn obeys_table(&self) -> bool;

    /// Every operation issued through this manager, oldest first.
    spec fn log(&self) -> Seq<SysctlEventV>;

    /// How many issued operations have failed.
    spec fn failed(&self) -> nat;

    /// Read the current value stored under `key`. Fails if the key does not
    /// exist or is inaccessible.
    fn get(&mut self, key: &str) -> (r: Result<String, SysctlFault>)
        ensures
            final(self).obeys_table() == old(self).obeys_table(),
            final(self).log() == old(self).log().push(SysctlEventV::Read { key: key@ }),
            final(self).failed() == old(self).failed() + (if r is Ok {
                0nat
            } else {
                1nat
            }),
            old(self).obeys_table() ==> final(self).mapping() == old(self).mapping(),
            old(self).obeys_table() ==> (r matches Ok(v) ==> old(self).mapping().contains_key(
                key@,
            ) && v@ == old(self).mapping()[key@]),
            old(self).obeys_table() ==> (r is Ok <==> old(self).mapping().contains_key(key@)),
    ;

    /// Write `value` under `key` and return the value stored afterwards. The
    /// write is issued (logged) even when it fails.
    fn set(&mut self, key: &str, value: &str) -> (r: Result<String, SysctlFault>)
        ensures
            final(self).obeys_table() == old(self).obeys_table(),
            final(self).log() == old(self).log().push(
                SysctlEventV::Write { key: key@, value: value@ },
            ),
            final(self).failed() == old(self).failed() + (if r is Ok {
                0nat
            } else {
                1nat
            }),
            old(self).obeys_table() ==> (r matches Ok(v) && v@ == value@ && final(self).mapping() == old(self).mapping().insert(key@, value@)),
    ;
}

/// Read `key` and write `desired` only if the stored value differs.
///
/// This states the idempotence law: at most one underlying write is ever
/// issued; no write is issued when the read returned `desired`; the call
/// fails exactly when an underlying operation failed; and, on a manager
/// whose table model is exact, zero writes are issued when the stored value
/// already equals `desired`, exactly one when it differs, success is owed
/// whenever the key exists, and afterwards the stored value equals
/// `desired`.
pub fn ensure<S: SysctlApi>(mgr: &mut S, key: &str, desired: &str) -> (r: Result<(), SysctlFault>)
    ensures
        ({
            let pre_log = old(mgr).log();
            let post_log = final(mgr).log();
            let read_ev = SysctlEventV::Read { key: key@ };
            let write_ev = SysctlEventV::Write { key: key@, value: desired@ };
            &&& (post_log == pre_log.push(read_ev) || post_log == pre_log.push(read_ev).push(
                write_ev,
            ))
            &&& final(mgr).obeys_table() == old(mgr).obeys_table()
            &&& final(mgr).failed() <= old(mgr).failed() + 1
            &&& (r is Ok <==> final(mgr).failed() == old(mgr).failed())
            &&& (r is Err ==> final(mgr).failed() == old(mgr).failed() + 1)
        }),
        old(mgr).obeys_table() ==> ({
            let pre_log = old(mgr).log();
            let post_log = final(mgr).log();
            let pre_map = old(mgr).mapping();
            let post_map = final(mgr).mapping();
            let read_ev = SysctlEventV::Read { key: key@ };
            let write_ev = SysctlEventV::Write { key: key@, value: desired@ };
            &&& (pre_map.contains_key(key@) && pre_map[key@] == desired@ ==> r is Ok && post_log
                == pre_log.push(read_ev) && post_map == pre_map)
            &&& (pre_map.contains_key(key@) && pre_map[key@] != desired@ ==> r is Ok && post_log
                == pre_log.push(read_ev).push(write_ev) && post_map == pre_map.insert(
                key@,
                desired@,
            ))
            &&& (r is Ok <==> pre_map.contains_key(key@))
            &&& (r is Ok ==> post_map.contains_key(key@) && post_map[key@] == desired@)
            &&& (post_map == pre_map || post_map == pre_map.insert(key@, desired@))
            &&& (r is Err ==> post_map == pre_map)
        }),
{
    let current = mgr.get(key)?;
    let desired_string = desired.to_owned();
    if current.eq(&desired_string) {
        Ok(())
    } else {
        match mgr.set(key, desired) {
            Ok(_) => Ok(()),
            Err(fault) => Err(fault),
        }
    }
}

/// The value every kernel parameter of this core is ensured to.
pub open spec fn one_value() -> Seq<char> {
    "1"@
}

/// What one `ensure` call leaves in the operation log: a read, followed by a
/// write of `"1"` exactly when the stored value differed.
pub open spec fn is_ensure_trace(t: Seq<SysctlEventV>, k: Seq<char>) -> bool {
    t == seq![SysctlEventV::Read { key: k }] || t == seq![
        SysctlEventV::Read { key: k },
        SysctlEventV::Write { key: k, value: one_value() },
    ]
}

/// Whether `ext` is exactly the traces of one `ensure` call per key of `ks`,
/// in order.
pub open spec fn is_ensure_run(ext: Seq<SysctlEventV>, ks: Seq<Seq<char>>) -> bool
    decreases ext.len(),
{
    if ks.len() == 0 {
        ext.len() == 0
    } else if ext.len() == 0 {
        false
    } else if ext[0] != (SysctlEventV::Read { key: ks[0] }) {
        false
    } else if ext.len() >= 2 && ext[1] == (SysctlEventV::Write { key: ks[0], value: one_value() })
     {
        is_ensure_run(ext.skip(2), ks.skip(1))
    } else {
        is_ensure_run(ext.skip(1), ks.skip(1))
    }
}

/// Appending one more ensure trace extends an ensure run by its key.
pub proof fn lemma_ensure_run_append(
    ext: Seq<SysctlEventV>,
    ks: Seq<Seq<char>>,
    t: Seq<SysctlEventV>,
    k: Seq<char>,
)
    requires
        is_ensure_run(ext, ks),
        is_ensure_trace(t, k),
    ensures
        is_ensure_run(ext + t, ks.push(k)),
    decreases ext.len(),
{
    if ks.len() == 0 {
        assert(ext + t =~= t);
        assert(ks.push(k)[0] == k);
        assert(ks.push(k).skip(1) =~= Seq::<Seq<char>>::empty());
        if t == seq![SysctlEventV::Read { key: k }] {
            assert(t[0] == (SysctlEventV::Read { key: k }));
            assert(t.len() == 1);
            assert(t.skip(1) =~= Seq::<SysctlEventV>::empty());
            assert(is_ensure_run(t.skip(1), ks.push(k).skip(1)));
            assert(is_ensure_run(t, ks.push(k)));
        } else {
            assert(t[0] == (SysctlEventV::Read { key: k }));
            assert(t[1] == (SysctlEventV::Write { key: k, value: one_value() }));
            assert(t.len() == 2);
            assert(t.skip(2) =~= Seq::<SysctlEventV>::empty());
            assert(is_ensure_run(t.skip(2), ks.push(k).skip(1)));
            assert(is_ensure_run(t, ks.push(k)));
        }
    } else {
        assert((ext + t)[0] == ext[0]);
        assert(ks.push(k)[0] == ks[0]);
        if ext.len() >= 2 && ext[1] == (SysctlEventV::Write { key: ks[0], value: one_value() }) {
            assert((ext + t)[1] == ext[1]);
            assert((ext + t).skip(2) =~= ext.skip(2) + t);
            assert(ks.push(k).skip(1) =~= ks.skip(1).push(k));
            lemma_ensure_run_append(ext.skip(2), ks.skip(1), t, k);
        } else {
            assert(is_ensure_run(ext.skip(1), ks.skip(1)));
            if ext.len() >= 2 {
                assert(ext.skip(1).len() > 0);
                assert(ks.skip(1).len() > 0);
                assert(ext.skip(1)[0] == (SysctlEventV::Read { key: ks.skip(1)[0] }));
                assert(ext[1] == ext.skip(1)[0]);
                assert((ext + t)[1] == ext[1]);
            } else {
                assert((ext + t).len() >= 2 ==> (ext + t)[1] == t[0]);
                assert(t[0] == (SysctlEventV::Read { key: k }));
            }
            assert((ext + t).skip(1) =~= ext.skip(1) + t);
            assert(ks.push(k).skip(1) =~= ks.skip(1).push(k));
            lemma_ensure_run_append(ext.skip(1), ks.skip(1), t, k);
        }
    }
}

/// How many reads of key `k` an operation log holds.
pub open spec fn reads_of(ext: Seq<SysctlEventV>, k: Seq<char>) -> nat
    decreases ext.len(),
{
    if ext.len() == 0 {
        0
    } else {
        (match ext[0] {
            SysctlEventV::Read { key } => if key == k {
                1nat
            } else {
                0nat
            },
            SysctlEventV::Write { .. } => 0nat,
        }) + reads_of(ext.skip(1), k)
    }
}

/// How many writes under key `k` an operation log holds.
pub open spec fn writes_of(ext: Seq<SysctlEventV>, k: Seq<char>) -> nat
    decreases ext.len(),
{
    if ext.len() == 0 {
        0
    } else {
        (match ext[0] {
            SysctlEventV::Write { key, .. } => if key == k {
                1nat
            } else {
                0nat
            },
            SysctlEventV::Read { .. } => 0nat,
        }) + writes_of(ext.skip(1), k)
    }
}

/// Reads and writes count across concatenation.
pub proof fn lemma_counts_append(a: Seq<SysctlEventV>, b: Seq<SysctlEventV>, k: Seq<char>)
    ensures
        reads_of(a + b, k) == reads_of(a, k) + reads_of(b, k),
        writes_of(a + b, k) == writes_of(a, k) + writes_of(b, k),
    decreases a.len(),
{
    if a.len() == 0 {
        assert(a + b =~= b);
    } else {
        assert((a + b)[0] == a[0]);
        assert((a + b).skip(1) =~= a.skip(1) + b);
        lemma_counts_append(a.skip(1), b, k);
    }
}

/// What one ensure trace for key `k` contributes to the counts of any key.
pub proof fn lemma_trace_counts(t: Seq<SysctlEventV>, k: Seq<char>, k2: Seq<char>)
    requires
        is_ensure_trace(t, k),
    ensures
        reads_of(t, k2) == if k2 == k {
            1nat
        } else {
            0nat
        },
        writes_of(t, k2) <= 1,
        k2 != k ==> writes_of(t, k2) == 0,
{
    if t == seq![SysctlEventV::Read { key: k }] {
        assert(t[0] == (SysctlEventV::Read { key: k }));
        assert(t.skip(1) =~= Seq::<SysctlEventV>::empty());
        assert(reads_of(t.skip(1), k2) == 0);
        assert(writes_of(t.skip(1), k2) == 0);
    } else {
        assert(t[0] == (SysctlEventV::Read { key: k }));
        assert(t[1] == (SysctlEventV::Write { key: k, value: one_value() }));
        assert(t.skip(1) =~= seq![SysctlEventV::Write { key: k, value: one_value() }]);
        assert(t.skip(1)[0] == (SysctlEventV::Write { key: k, value: one_value() }));
        assert(t.skip(1).skip(1) =~= Seq::<SysctlEventV>::empty());
        assert(reads_of(t.skip(1).skip(1), k2) == 0);
        assert(writes_of(t.skip(1).skip(1), k2) == 0);
        assert(reads_of(t.skip(1), k2) == 0);
        assert(writes_of(t.skip(1), k2) == if k2 == k {
            1nat
        } else {
            0nat
        });
    }
}

/// How many writes an ensured key owes: none when the table already holds
/// `"1"`, exactly one otherwise.
pub open spec fn owed_writes(m0: Map<Seq<char>, Seq<char>>, k: Seq<char>) -> nat {
    if m0.contains_key(k) && m0[k] == one_value() {
        0nat
    } else {
        1nat
    }
}

/// The log trace one `ensure` of key `k` leaves on an exact table `m`: a
/// read, then a write of `"1"` exactly when the stored value differed.
pub open spec fn ensure_trace_for(m: Map<Seq<char>, Seq<char>>, k: Seq<char>) -> Seq<SysctlEventV> {
    if m.contains_key(k) && m[k] == one_value() {
        seq![SysctlEventV::Read { key: k }]
    } else {
        seq![SysctlEventV::Read { key: k }, SysctlEventV::Write { key: k, value: one_value() }]
    }
}

/// The exact table after one `ensure` of key `k`.
pub open spec fn map_after(m: Map<Seq<char>, Seq<char>>, k: Seq<char>) -> Map<Seq<char>, Seq<char>> {
    if m.contains_key(k) && m[k] == one_value() {
        m
    } else {
        m.insert(k, one_value())
    }
}

/// The full log trace of ensuring the keys `ks` in order on an exact table.
#[verifier::opaque]
pub open spec fn run_for(m: Map<Seq<char>, Seq<char>>, ks: Seq<Seq<char>>) -> Seq<SysctlEventV>
    decreases ks.len(),
{
    if ks.len() == 0 {
        Seq::empty()
    } else {
        ensure_trace_for(m, ks[0]) + run_for(map_after(m, ks[0]), ks.skip(1))
    }
}

/// The exact table after ensuring the keys `ks` in order.
#[verifier::opaque]
pub open spec fn map_after_run(m: Map<Seq<char>, Seq<char>>, ks: Seq<Seq<char>>) -> Map<
    Seq<char>,
    Seq<char>,
>
    decreases ks.len(),
{
    if ks.len() == 0 {
        m
    } else {
        map_after_run(map_after(m, ks[0]), ks.skip(1))
    }
}

/// An empty run leaves no trace and an unchanged table.
pub proof fn lemma_run_for_empty(m: Map<Seq<char>, Seq<char>>)
    ensures
        run_for(m, Seq::<Seq<char>>::empty()) == Seq::<SysctlEventV>::empty(),
        map_after_run(m, Seq::<Seq<char>>::empty()) == m,
{
    reveal(run_for);
    reveal(map_after_run);
}

/// Ensuring one more key appends its trace for the table reached so far.
pub proof fn lemma_run_for_push(m: Map<Seq<char>, Seq<char>>, ks: Seq<Seq<char>>, k: Seq<char>)
    ensures
        run_for(m, ks.push(k)) == run_for(m, ks) + ensure_trace_for(map_after_run(m, ks), k),
        map_after_run(m, ks.push(k)) == map_after(map_after_run(m, ks), k),
    decreases ks.len(),
{
    reveal(run_for);
    reveal(map_after_run);
    if ks.len() == 0 {
        assert(ks.push(k)[0] == k);
        assert(ks.push(k).skip(1) =~= Seq::<Seq<char>>::empty());
        lemma_run_for_empty(m);
        lemma_run_for_empty(map_after(m, k));
        assert(run_for(m, ks.push(k)) == ensure_trace_for(m, k) + run_for(
            map_after(m, k),
            Seq::<Seq<char>>::empty(),
        ));
        assert(run_for(m, ks.push(k)) =~= run_for(m, ks) + ensure_trace_for(
            map_after_run(m, ks),
            k,
        ));
        assert(map_after_run(m, ks.push(k)) == map_after_run(
            map_after(m, k),
            Seq::<Seq<char>>::empty(),
        ));
    } else {
        assert(ks.push(k)[0] == ks[0]);
        assert(ks.push(k).skip(1) =~= ks.skip(1).push(k));
        lemma_run_for_push(map_after(m, ks[0]), ks.skip(1), k);
        assert(run_for(m, ks.push(k)) == ensure_trace_for(m, ks[0]) + run_for(
            map_after(m, ks[0]),
            ks.skip(1).push(k),
        ));
        assert(run_for(m, ks) == ensure_trace_for(m, ks[0]) + run_for(
            map_after(m, ks[0]),
            ks.skip(1),
        ));
        assert(map_after_run(m, ks.push(k)) == map_after_run(
            map_after(m, ks[0]),
            ks.skip(1).push(k),
        ));
        assert(map_after_run(m, ks) == map_after_run(map_after(m, ks[0]), ks.skip(1)));
        assert(run_for(m, ks.push(k)) =~= run_for(m, ks) + ensure_trace_for(
            map_after_run(m, ks),
            k,
        ));
    }
}

/// A key holding `"1"` is never written along a run.
pub proof fn lemma_run_for_writes_when_one(
    m: Map<Seq<char>, Seq<char>>,
    ks: Seq<Seq<char>>,
    k: Seq<char>,
)
    requires
        m.contains_key(k),
        m[k] == one_value(),
    ensures
        writes_of(run_for(m, ks), k) == 0,
    decreases ks.len(),
{
    reveal(run_for);
    reveal(map_after_run);
    if ks.len() > 0 {
        let t = ensure_trace_for(m, ks[0]);
        lemma_counts_append(t, run_for(map_after(m, ks[0]), ks.skip(1)), k);
        if ks[0] == k {
            assert(t == seq![SysctlEventV::Read { key: k }]);
            assert(t[0] == (SysctlEventV::Read { key: k }));
            assert(t.skip(1) =~= Seq::<SysctlEventV>::empty());
            assert(writes_of(t.skip(1), k) == 0);
            assert(writes_of(t, k) == 0);
        } else {
            lemma_trace_counts(t, ks[0], k);
        }
        lemma_run_for_writes_when_one(map_after(m, ks[0]), ks.skip(1), k);
    }
}

/// Each ensured key receives zero writes when the table already held `"1"`
/// under it and exactly one write otherwise, no matter how many times it is
/// ensured in one run: the write-suppression law of `ensure`, at the level of
/// a whole invocation.
pub proof fn lemma_run_for_writes(m: Map<Seq<char>, Seq<char>>, ks: Seq<Seq<char>>, k: Seq<char>)
    requires
        ks.contains(k),
    ensures
        writes_of(run_for(m, ks), k) == owed_writes(m, k),
    decreases ks.len(),
{
    reveal(run_for);
    reveal(map_after_run);
    if ks.len() == 0 {
        assert(!ks.contains(k));
        assert(false);
    }
    let t = ensure_trace_for(m, ks[0]);
    let m2 = map_after(m, ks[0]);
    let rest = run_for(m2, ks.skip(1));
    assert(run_for(m, ks) == ensure_trace_for(m, ks[0]) + run_for(map_after(m, ks[0]), ks.skip(1)));
    lemma_counts_append(t, rest, k);
    if ks[0] == k {
        if m.contains_key(k) && m[k] == one_value() {
            assert(t == seq![SysctlEventV::Read { key: k }]);
            assert(t[0] == (SysctlEventV::Read { key: k }));
            assert(t.skip(1) =~= Seq::<SysctlEventV>::empty());
            assert(writes_of(t.skip(1), k) == 0);
            assert(writes_of(t, k) == 0);
            lemma_run_for_writes_when_one(m2, ks.skip(1), k);
        } else {
            assert(t == seq![
                SysctlEventV::Read { key: k },
                SysctlEventV::Write { key: k, value: one_value() },
            ]);
            assert(t[0] == (SysctlEventV::Read { key: k }));
            assert(t[1] == (SysctlEventV::Write { key: k, value: one_value() }));
            assert(t.skip(1) =~= seq![SysctlEventV::Write { key: k, value: one_value() }]);
            assert(t.skip(1)[0] == (SysctlEventV::Write { key: k, value: one_value() }));
            assert(t.skip(1).skip(1) =~= Seq::<SysctlEventV>::empty());
            assert(writes_of(t.skip(1).skip(1), k) == 0);
            assert(writes_of(t.skip(1), k) == 1);
            assert(writes_of(t, k) == 1);
            lemma_run_for_writes_when_one(m2, ks.skip(1), k);
        }
    } else {
        lemma_trace_counts(t, ks[0], k);
        let i = choose|i: int| 0 <= i < ks.len() && ks[i] == k;
        assert(ks.skip(1)[i - 1] == k);
        assert(ks.skip(1).contains(k));
        lemma_run_for_writes(m2, ks.skip(1), k);
        assert(owed_writes(m2, k) == owed_writes(m, k));
    }
}

/// A key never ensured in a run is never written by it.
pub proof fn lemma_run_for_writes_absent(
    m: Map<Seq<char>, Seq<char>>,
    ks: Seq<Seq<char>>,
    k: Seq<char>,
)
    requires
        !ks.contains(k),
    ensures
        writes_of(run_for(m, ks), k) == 0,
    decreases ks.len(),
{
    reveal(run_for);
    reveal(map_after_run);
    if ks.len() > 0 {
        let t = ensure_trace_for(m, ks[0]);
        lemma_counts_append(t, run_for(map_after(m, ks[0]), ks.skip(1)), k);
        assert(ks[0] != k);
        lemma_trace_counts(t, ks[0], k);
        assert(!ks.skip(1).contains(k)) by {
            if ks.skip(1).contains(k) {
                let i = choose|i: int| 0 <= i < ks.skip(1).len() && ks.skip(1)[i] == k;
                assert(ks[i + 1] == k);
            }
        }
        lemma_run_for_writes_absent(map_after(m, ks[0]), ks.skip(1), k);
    }
}

/// The value stored under `k`, if any.
pub open spec fn stored(m: Map<Seq<char>, Seq<char>>, k: Seq<char>) -> Option<Seq<char>> {
    if m.contains_key(k) {
        Some(m[k])
    } else {
        None
    }
}

/// The table described by an association list; an earlier entry wins over a
/// later one with the same key.
pub open spec fn map_of(entries: Seq<(String, String)>) -> Map<Seq<char>, Seq<char>>
    decreases entries.len(),
{
    if entries.len() == 0 {
        Map::empty()
    } else {
        map_of(entries.skip(1)).insert(entries[0].0@, entries[0].1@)
    }
}

/// An in-memory kernel-parameter table. It meets the same boundary contract
/// as the kernel-backed manager, so the orchestrator can be exercised against
/// it; its entries and its recorded events are open for inspection.
pub struct MemSysctl {
    pub entries: Vec<(String, String)>,
    pub events: Vec<SysctlEvent>,
    pub failures: Ghost<nat>,
}

impl MemSysctl {
    /// A table holding exactly `entries`, with an empty history.
    pub fn new(entries: Vec<(String, String)>) -> (s: MemSysctl)
        ensures
            s.mapping() == map_of(entries@),
            s.log() == Seq::<SysctlEventV>::empty(),
            s.failed() == 0,
    {
        let s = MemSysctl { entries, events: Vec::new(), failures: Ghost(0) };
        proof {
            assert(s.events@.map_values(|e: SysctlEvent| e@) =~= Seq::<SysctlEventV>::empty());
        }
        s
    }
}

impl SysctlApi for MemSysctl {
    open spec fn mapping(&self) -> Map<Seq<char>, Seq<char>> {
        map_of(self.entries@)
    }

    open spec fn obeys_table(&self) -> bool {
        true
    }

    open spec fn log(&self) -> Seq<SysctlEventV> {
        self.events@.map_values(|e: SysctlEvent| e@)
    }

    open spec fn failed(&self) -> nat {
        self.failures@
    }

    #[verifier::loop_isolation(false)]
    fn get(&mut self, key: &str) -> (r: Result<String, SysctlFault>) {
        let ghost pre_events = self.events@;
        let key_string = key.to_owned();
        self.events.push(SysctlEvent::Read { key: key.to_owned() });
        proof {
            assert(self.events@.map_values(|e: SysctlEvent| e@) =~= pre_events.map_values(
                |e: SysctlEvent| e@,
            ).push(SysctlEventV::Read { key: key@ }));
        }
        let ghost full = self.entries@;
        proof {
            assert(full.skip(0) =~= full);
        }
        let mut i: usize = 0;
        while i < self.entries.len()
            invariant
                i <= full.len(),
                stored(map_of(full), key@) == stored(map_of(full.skip(i as int)), key@),
            decreases full.len() - i,
        {
            let hit = self.entries[i].0.eq(&key_string);
            proof {
                assert(full.skip(i as int)[0] == full[i as int]);
                assert(full.skip(i as int).skip(1) =~= full.skip(i + 1));
            }
            if hit {
                return Ok(self.entries[i].1.clone());
            }
            i = i + 1;
        }
        proof {
            assert(full.skip(full.len() as int) =~= Seq::<(String, String)>::empty());
            self.failures@ = self.failures@ + 1;
        }
        Err(SysctlFault { message: String::from_str("no such key") })
    }

    fn set(&mut self, key: &str, value: &str) -> (r: Result<String, SysctlFault>) {
        let ghost pre_events = self.events@;
        let ghost pre_entries = self.entries@;
        self.events.push(SysctlEvent::Write { key: key.to_owned(), value: value.to_owned() });
        proof {
            assert(self.events@.map_values(|e: SysctlEvent| e@) =~= pre_events.map_values(
                |e: SysctlEvent| e@,
            ).push(SysctlEventV::Write { key: key@, value: value@ }));
        }
        self.entries.insert(0, (key.to_owned(), value.to_owned()));
        proof {
            assert(self.entries@.skip(1) =~= pre_entries);
        }
        Ok(value.to_owned())
    }
}

} // verus!
