use vstd::prelude::*;

verus! {

/// Decimal digits of `n`, most significant first, as ASCII bytes.
pub open spec fn decimal(n: nat) -> Seq<u8>
    decreases n,
{
    if n < 10 {
        seq![(48 + n) as u8]
    } else {
        decimal(n / 10).push((48 + n % 10) as u8)
    }
}

/// The tag that every snapshot starts with: `checkpoint_cycle_`.
pub open spec fn snapshot_tag() -> Seq<u8> {
    seq![99u8, 104, 101, 99, 107, 112, 111, 105, 110, 116, 95, 99, 121, 99, 108, 101, 95]
}

/// The snapshot at cycle `offset`. It records the offset alone, not the
/// machine state there: resuming from it still replays execution up to the
/// offset. Capturing the full machine state is not done yet; until it is,
/// shards are not independent of the cycles before them.
pub open spec fn snapshot_at(offset: u64) -> Seq<u8> {
    snapshot_tag() + decimal(offset as nat)
}

/// Appends the decimal digits of `n` to `out`.
fn push_decimal(out: &mut Vec<u8>, n: u64)
    ensures
        final(out)@ == old(out)@ + decimal(n as nat),
    decreases n,
{
    if n >= 10 {
        push_decimal(out, n / 10);
    }
    out.push(48u8 + (n % 10) as u8);
    proof {
        assert(old(out)@ + decimal(n as nat) =~= final(out)@) by {
            if n >= 10 {
                assert(decimal(n as nat) == decimal((n / 10) as nat).push((48 + n % 10) as u8));
            }
        }
    }
}

/// Encodes the snapshot at cycle `offset` (the offset alone; see `snapshot_at`).
pub fn encode_snapshot(offset: u64) -> (r: Vec<u8>)
    ensures
        r@ == snapshot_at(offset),
{
    let tag: [u8; 17] = [99u8, 104, 101, 99, 107, 112, 111, 105, 110, 116, 95, 99, 121, 99, 108, 101, 95];
    let mut out: Vec<u8> = Vec::new();
    let mut i: usize = 0;
    while i < 17
        invariant
            i <= 17,
            tag@ == snapshot_tag(),
            out@ == snapshot_tag().subrange(0, i as int),
        decreases 17 - i,
    {
        out.push(tag[i]);
        i = i + 1;
        assert(out@ =~= snapshot_tag().subrange(0, i as int));
    }
    assert(out@ =~= snapshot_tag());
    push_decimal(&mut out, offset);
    out
}

/// Copies a byte buffer.
pub fn copy_bytes(v: &Vec<u8>) -> (r: Vec<u8>)
    ensures
        r@ == v@,
{
    let mut out: Vec<u8> = Vec::new();
    let mut i: usize = 0;
    while i < v.len()
        invariant
            i <= v@.len(),
            out@ == v@.subrange(0, i as int),
        decreases v@.len() - i,
    {
        out.push(v[i]);
        i = i + 1;
        assert(out@ =~= v@.subrange(0, i as int));
    }
    assert(out@ =~= v@);
    out
}

/// No two entries share a (workload, offset) key.
pub open spec fn keys_distinct(entries: Seq<Checkpoint>) -> bool {
    forall|i: int, j: int| 0 <= i < j < entries.len() ==> !((#[trigger] entries[i]).workload_id == (#[trigger] entries[j]).workload_id
        && entries[i].offset == entries[j].offset)
}

/// A stored snapshot of one workload at one cycle offset.
pub struct Checkpoint {
    pub workload_id: u64,
    pub offset: u64,
    pub state: Vec<u8>,
}

/// Snapshots keyed by workload and cycle offset. Each snapshot is made once
/// and handed out again on later requests.
///
/// The entries are kept in a vector, searched in order, with each key at most
/// once. A workload has one snapshot per shard, so the store stays small, and
/// vstd's hash-map model covers integer keys but not a pair of them.
pub struct CheckpointStore {
    entries: Vec<Checkpoint>,
}

impl CheckpointStore {
    /// Every stored snapshot is the one of its own offset, and no key is
    /// stored twice.
    pub closed spec fn wf(&self) -> bool {
        &&& forall|i: int| 0 <= i < self.entries@.len()
            ==> (#[trigger] self.entries@[i]).state@ == snapshot_at(self.entries@[i].offset)
        &&& keys_distinct(self.entries@)
    }

    pub closed spec fn holds(&self, key: (u64, u64)) -> bool {
        exists|i: int| 0 <= i < self.entries@.len()
            && (#[trigger] self.entries@[i]).workload_id == key.0 && self.entries@[i].offset == key.1
    }

    /// Number of snapshots made and kept so far.
    pub closed spec fn stored(&self) -> nat {
        self.entries@.len()
    }

    /// An empty store.
    pub fn new() -> (s: Self)
        ensures
            s.wf(),
            s@ == Set::<(u64, u64)>::empty(),
            s.stored() == 0,
    {
        let s = CheckpointStore { entries: Vec::new() };
        assert(s@ =~= Set::<(u64, u64)>::empty());
        s
    }

    /// Number of stored snapshots.
    pub fn len(&self) -> (n: usize)
        ensures
            n == self.stored(),
    {
        self.entries.len()
    }

    /// Position of the snapshot for `(workload_id, offset)`, if there is one.
    fn find(&self, workload_id: u64, offset: u64) -> (r: Option<usize>)
        ensures
            r.is_some() <==> self@.contains((workload_id, offset)),
            r.is_some() ==> r.unwrap() < self.entries@.len()
                && self.entries@[r.unwrap() as int].offset == offset,
    {
        let mut i: usize = 0;
        while i < self.entries.len()
            invariant
                i <= self.entries@.len(),
                forall|j: int| 0 <= j < i ==> !((#[trigger] self.entries@[j]).workload_id == workload_id
                    && self.entries@[j].offset == offset),
            decreases self.entries@.len() - i,
        {
            if self.entries[i].workload_id == workload_id && self.entries[i].offset == offset {
                assert(self.holds((workload_id, offset)));
                return Some(i);
            }
            i = i + 1;
        }
        None
    }

    /// The snapshot of `workload_id` at `offset`: the stored one when there is
    /// one, else a new one, which is stored.
    pub fn obtain(&mut self, workload_id: u64, offset: u64) -> (r: Vec<u8>)
        requires
            old(self).wf(),
        ensures
            final(self).wf(),
            r@ == snapshot_at(offset),
            final(self)@ == old(self)@.insert((workload_id, offset)),
            final(self).stored() == old(self).stored()
                + if old(self)@.contains((workload_id, offset)) { 0nat } else { 1nat },
    {
        match self.find(workload_id, offset) {
            Some(i) => {
                proof {
                    assert(self@ =~= old(self)@.insert((workload_id, offset)));
                }
                copy_bytes(&self.entries[i].state)
            },
            None => {
                let state = encode_snapshot(offset);
                let out = copy_bytes(&state);
                let ghost before = self.entries@;
                self.entries.push(Checkpoint { workload_id, offset, state });
                proof {
                    assert forall|key: (u64, u64)| self.holds(key) <==> (old(self).holds(key) || key == (workload_id, offset)) by {
                        if old(self).holds(key) {
                            let j = choose|j: int| 0 <= j < before.len()
                                && (#[trigger] before[j]).workload_id == key.0 && before[j].offset == key.1;
                            assert(self.entries@[j] == before[j]);
                        }
                        if self.holds(key) && key != (workload_id, offset) {
                            let j = choose|j: int| 0 <= j < self.entries@.len()
                                && (#[trigger] self.entries@[j]).workload_id == key.0 && self.entries@[j].offset == key.1;
                            assert(j < before.len());
                            assert(before[j] == self.entries@[j]);
                        }
                        if key == (workload_id, offset) {
                            assert(self.entries@[before.len() as int].workload_id == workload_id);
                        }
                    }
                    assert(self@ =~= old(self)@.insert((workload_id, offset)));
                    assert forall|i: int| 0 <= i < self.entries@.len() implies
                        (#[trigger] self.entries@[i]).state@ == snapshot_at(self.entries@[i].offset) by {
                        if i < before.len() {
                            assert(self.entries@[i] == before[i]);
                        }
                    }
                }
                out
            },
        }
    }

    /// Drops every snapshot of `workload_id`, once the workload is done.
    pub fn discard(&mut self, workload_id: u64)
        requires
            old(self).wf(),
        ensures
            final(self).wf(),
            final(self)@ == old(self)@.filter(|key: (u64, u64)| key.0 != workload_id),
    {
        let ghost before = self.entries@;
        let mut kept: Vec<Checkpoint> = Vec::new();
        let mut rest: Vec<Checkpoint> = Vec::new();
        std::mem::swap(&mut self.entries, &mut rest);
        // Walk the entries from the back, keeping those of other workloads.
        while rest.len() > 0
            invariant
                rest@.len() <= before.len(),
                rest@ == before.subrange(0, rest@.len() as int),
                forall|i: int| 0 <= i < before.len() ==> (#[trigger] before[i]).state@ == snapshot_at(before[i].offset),
                keys_distinct(before),
                keys_distinct(kept@),
                forall|i: int| 0 <= i < kept@.len() ==> (#[trigger] kept@[i]).state@ == snapshot_at(kept@[i].offset)
                    && kept@[i].workload_id != workload_id,
                forall|key: (u64, u64)| key.0 != workload_id ==> ((exists|i: int| rest@.len() <= i < before.len()
                    && (#[trigger] before[i]).workload_id == key.0 && before[i].offset == key.1)
                    <==> (exists|i: int| 0 <= i < kept@.len()
                    && (#[trigger] kept@[i]).workload_id == key.0 && kept@[i].offset == key.1)),
            decreases rest@.len(),
        {
            let ghost n = rest@.len() as int;
            let c = rest.pop().unwrap();
            assert(c == before[n - 1]);
            let ghost kept_before = kept@;
            if c.workload_id != workload_id {
                proof {
                    assert forall|j: int| 0 <= j < kept_before.len() implies !((#[trigger] kept_before[j]).workload_id == c.workload_id
                        && kept_before[j].offset == c.offset) by {
                        if kept_before[j].workload_id == c.workload_id && kept_before[j].offset == c.offset {
                            let key = (c.workload_id, c.offset);
                            assert(exists|i: int| 0 <= i < kept_before.len()
                                && (#[trigger] kept_before[i]).workload_id == key.0 && kept_before[i].offset == key.1);
                            let i = choose|i: int| n <= i < before.len()
                                && (#[trigger] before[i]).workload_id == key.0 && before[i].offset == key.1;
                            assert(before[n - 1].workload_id == before[i].workload_id);
                        }
                    }
                }
                kept.push(c);
                proof {
                    assert forall|a: int, b: int| 0 <= a < b < kept@.len() implies !((#[trigger] kept@[a]).workload_id == (#[trigger] kept@[b]).workload_id
                        && kept@[a].offset == kept@[b].offset) by {
                        if b == kept@.len() - 1 {
                            assert(kept@[a] == kept_before[a]);
                        } else {
                            assert(kept@[a] == kept_before[a] && kept@[b] == kept_before[b]);
                        }
                    }
                }
            }
            assert forall|key: (u64, u64)| key.0 != workload_id implies ((exists|i: int| rest@.len() <= i < before.len()
                && (#[trigger] before[i]).workload_id == key.0 && before[i].offset == key.1)
                <==> (exists|i: int| 0 <= i < kept@.len()
                && (#[trigger] kept@[i]).workload_id == key.0 && kept@[i].offset == key.1)) by {
                if exists|i: int| rest@.len() <= i < before.len()
                    && (#[trigger] before[i]).workload_id == key.0 && before[i].offset == key.1 {
                    let i = choose|i: int| rest@.len() <= i < before.len()
                        && (#[trigger] before[i]).workload_id == key.0 && before[i].offset == key.1;
                    if i == n - 1 {
                        assert(kept@[kept@.len() - 1] == c);
                    } else {
                        assert(exists|i: int| n <= i < before.len()
                            && (#[trigger] before[i]).workload_id == key.0 && before[i].offset == key.1);
                        let j = choose|j: int| 0 <= j < kept_before.len()
                            && (#[trigger] kept_before[j]).workload_id == key.0 && kept_before[j].offset == key.1;
                        assert(kept@[j] == kept_before[j]);
                    }
                }
                if exists|i: int| 0 <= i < kept@.len()
                    && (#[trigger] kept@[i]).workload_id == key.0 && kept@[i].offset == key.1 {
                    let j = choose|j: int| 0 <= j < kept@.len()
                        && (#[trigger] kept@[j]).workload_id == key.0 && kept@[j].offset == key.1;
                    if j < kept_before.len() {
                        assert(kept_before[j] == kept@[j]);
                        let i = choose|i: int| n <= i < before.len()
                            && (#[trigger] before[i]).workload_id == key.0 && before[i].offset == key.1;
                        assert(rest@.len() <= i);
                    } else {
                        assert(before[n - 1].workload_id == key.0);
                    }
                }
            }
        }
        self.entries = kept;
        proof {
            assert forall|key: (u64, u64)| self.holds(key) <==> (old(self).holds(key) && key.0 != workload_id) by {
                if key.0 != workload_id {
                    if old(self).holds(key) {
                        let i = choose|i: int| 0 <= i < before.len()
                            && (#[trigger] before[i]).workload_id == key.0 && before[i].offset == key.1;
                        assert(0 <= i < before.len());
                    }
                    if exists|i: int| 0 <= i < before.len()
                        && (#[trigger] before[i]).workload_id == key.0 && before[i].offset == key.1 {
                        let i = choose|i: int| 0 <= i < before.len()
                            && (#[trigger] before[i]).workload_id == key.0 && before[i].offset == key.1;
                        assert(old(self).entries@[i] == before[i]);
                    }
                } else if self.holds(key) {
                    let i = choose|i: int| 0 <= i < self.entries@.len()
                        && (#[trigger] self.entries@[i]).workload_id == key.0 && self.entries@[i].offset == key.1;
                    assert(self.entries@[i].workload_id != workload_id);
                }
            }
            assert(self@ =~= old(self)@.filter(|key: (u64, u64)| key.0 != workload_id));
        }
    }
}

impl View for CheckpointStore {
    type V = Set<(u64, u64)>;

    /// The (workload, offset) keys that have a stored snapshot.
    closed spec fn view(&self) -> Set<(u64, u64)> {
        Set::new(|key: (u64, u64)| self.holds(key))
    }
}

/// Asking twice for the snapshot of one workload at one offset yields the same
/// snapshot, and the second request stores nothing new.
pub proof fn lemma_snapshot_reuse(
    s0: CheckpointStore,
    s1: CheckpointStore,
    s2: CheckpointStore,
    workload_id: u64,
    offset: u64,
    first: Seq<u8>,
    second: Seq<u8>,
)
    requires
        s0.wf(),
        s1@ == s0@.insert((workload_id, offset)),
        s1.stored() == s0.stored() + if s0@.contains((workload_id, offset)) { 0nat } else { 1nat },
        first == snapshot_at(offset),
        s2@ == s1@.insert((workload_id, offset)),
        s2.stored() == s1.stored() + if s1@.contains((workload_id, offset)) { 0nat } else { 1nat },
        second == snapshot_at(offset),
    ensures
        second == first,
        s2@ == s1@,
        s2.stored() == s1.stored(),
{
    assert(s1@.contains((workload_id, offset)));
    assert(s2@ =~= s1@);
}

} // verus!
