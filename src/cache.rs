use vstd::prelude::*;

use crate::hash::{hash_data, xxh3_of};
use crate::table::{flagged_keys, KeyedTable};

verus! {

/// Format version of the persisted cache; a stored cache of any other
/// version is discarded on load.
pub const CACHE_VERSION: u32 = 1;

/// What the cache remembers of the last successful build of one input.
pub struct CacheEntry {
    /// Fingerprint of the input's content.
    pub input_hash: u64,
    /// Fingerprint of the processing configuration.
    pub config_hash: u64,
    /// Where the artifact was written.
    pub output_path: String,
    /// Modification time of the input (seconds since the epoch).
    pub mtime: u64,
    /// When the build happened (seconds since the epoch).
    pub processed_at: u64,
}

impl CacheEntry {
    /// A copy of the record.
    pub fn duplicate(&self) -> (r: CacheEntry)
        ensures
            r == *self,
    {
        CacheEntry {
            input_hash: self.input_hash,
            config_hash: self.config_hash,
            output_path: self.output_path.clone(),
            mtime: self.mtime,
            processed_at: self.processed_at,
        }
    }
}

/// The records of past builds, one per input path.
pub struct BuildCache {
    pub entries: KeyedTable<CacheEntry>,
    pub version: u32,
}

/// Counts over the records of a cache.
pub struct CacheStats {
    pub total_entries: usize,
    pub valid_entries: usize,
    pub stale_entries: usize,
}

/// The texts of a list, as a set.
pub open spec fn text_set(v: Seq<String>) -> Set<Seq<char>> {
    Set::new(|t: Seq<char>| exists|i: int| 0 <= i < v.len() && (#[trigger] v[i])@ == t)
}

/// Whether `input` has to be rebuilt: it has no record, or its record was
/// made under another configuration, or the recorded output is gone, or the
/// content's fingerprint differs from the recorded one. The modification
/// time plays no part: the content fingerprint decides.
pub open spec fn rebuild_needed(
    records: Map<Seq<char>, CacheEntry>,
    input: Seq<char>,
    config_hash: u64,
    output_exists: bool,
    content_hash: u64,
) -> bool {
    ||| !records.contains_key(input)
    ||| records[input].config_hash != config_hash
    ||| !output_exists
    ||| records[input].input_hash != content_hash
}

/// The record that a successful build writes.
pub open spec fn fresh_entry(
    output: String,
    config_hash: u64,
    content_hash: u64,
    mtime: u64,
    now: u64,
) -> CacheEntry {
    CacheEntry {
        input_hash: content_hash,
        config_hash,
        output_path: output,
        mtime,
        processed_at: now,
    }
}

/// The map that a list of stored records describes; a later record for the
/// same path replaces an earlier one.
pub open spec fn records_of(list: Seq<(String, CacheEntry)>) -> Map<Seq<char>, CacheEntry>
    decreases list.len(),
{
    if list.len() == 0 {
        Map::empty()
    } else {
        records_of(list.drop_last()).insert(list.last().0@, list.last().1)
    }
}

/// What loading a stored cache yields: its records when its version is the
/// current one, and no records otherwise.
pub open spec fn restored(list: Seq<(String, CacheEntry)>, version: u32) -> Map<Seq<char>, CacheEntry> {
    if version == CACHE_VERSION {
        records_of(list)
    } else {
        Map::empty()
    }
}

/// Whether the record of `key` points at one of the listed outputs.
pub open spec fn output_listed(
    records: Map<Seq<char>, CacheEntry>,
    outputs: Seq<String>,
    key: Seq<char>,
) -> bool {
    text_set(outputs).contains(records[key].output_path@)
}

impl View for BuildCache {
    type V = Map<Seq<char>, CacheEntry>;

    open spec fn view(&self) -> Map<Seq<char>, CacheEntry> {
        self.entries@
    }
}

fn list_contains(v: &Vec<String>, s: &String) -> (r: bool)
    ensures
        r == text_set(v@).contains(s@),
{
    let mut i: usize = 0;
    while i < v.len()
        invariant
            i <= v@.len(),
            forall|j: int| 0 <= j < i ==> (#[trigger] v@[j])@ != s@,
        decreases v@.len() - i,
    {
        if v[i] == *s {
            return true;
        }
        i += 1;
    }
    false
}

impl BuildCache {
    /// An empty cache of the current version.
    pub fn new() -> (r: BuildCache)
        ensures
            r@ == Map::<Seq<char>, CacheEntry>::empty(),
            r.version == CACHE_VERSION,
    {
        BuildCache { entries: KeyedTable::new(), version: CACHE_VERSION }
    }

    /// The cache described by what was read from the sidecar file: nothing
    /// read, or a stored cache of another version, gives an empty cache.
    pub fn load(stored: Option<(Vec<(String, CacheEntry)>, u32)>) -> (r: BuildCache)
        ensures
            r.version == CACHE_VERSION,
            r@ == match stored {
                Some(s) => restored(s.0@, s.1),
                None => Map::<Seq<char>, CacheEntry>::empty(),
            },
    {
        match stored {
            None => BuildCache::new(),
            Some((list, version)) => {
                if version != CACHE_VERSION {
                    return BuildCache::new();
                }
                let mut cache = BuildCache::new();
                let mut list = list;
                let ghost orig = list@;
                let mut rest: Vec<(String, CacheEntry)> = Vec::new();
                // Reverse first so that records are taken in their stored order.
                while list.len() > 0
                    invariant
                        orig == list@ + rest@.reverse(),
                    decreases list@.len(),
                {
                    let e = list.pop().unwrap();
                    let ghost prev_rest = rest@;
                    rest.push(e);
                    proof {
                        assert(rest@.reverse() =~= seq![e] + prev_rest.reverse());
                    }
                }
                assert(rest@.reverse() =~= orig);
                let ghost total = rest@.len();
                while rest.len() > 0
                    invariant
                        rest@.len() <= total,
                        orig.len() == total,
                        rest@.reverse() == orig.subrange(total - rest@.len(), total as int),
                        cache@ == records_of(orig.subrange(0, total - rest@.len())),
                        cache.version == CACHE_VERSION,
                    decreases rest@.len(),
                {
                    let ghost before = rest@;
                    let (path, entry) = rest.pop().unwrap();
                    let ghost done = total - rest@.len();
                    proof {
                        assert(before.reverse()[0] == before.last());
                        assert(orig[done - 1] == (path, entry));
                        assert(orig.subrange(0, done).drop_last() =~= orig.subrange(0, done - 1));
                        assert(rest@.reverse() =~= before.reverse().subrange(1, before.len() as int));
                    }
                    cache.entries.insert(path, entry);
                }
                assert(orig.subrange(0, total as int) =~= orig);
                cache
            },
        }
    }

    /// The records to persist, with the cache's version: the list describes
    /// exactly this cache's records.
    pub fn save(&self) -> (r: (Vec<(String, CacheEntry)>, u32))
        ensures
            records_of(r.0@) == self@,
            r.1 == self.version,
    {
        let n = self.entries.len();
        let ghost keys = self.entries.keys();
        let mut out: Vec<(String, CacheEntry)> = Vec::new();
        let mut i: usize = 0;
        while i < n
            invariant
                i <= n,
                n == keys.len(),
                keys == self.entries.keys(),
                keys.no_duplicates(),
                keys.to_set() == self@.dom(),
                out@.len() == i,
                forall|j: int| 0 <= j < i ==> (#[trigger] out@[j]).0@ == keys[j],
                records_of(out@) == self@.restrict(keys.subrange(0, i as int).to_set()),
            decreases n - i,
        {
            let (k, e) = self.entries.entry_at(i);
            let ghost prev = out@;
            out.push((k.clone(), e.duplicate()));
            proof {
                assert(out@.drop_last() =~= prev);
                assert(keys.subrange(0, i + 1).to_set() =~= keys.subrange(0, i as int).to_set().insert(keys[i as int])) by {
                    assert(keys.subrange(0, i + 1) =~= keys.subrange(0, i as int).push(keys[i as int]));
                    keys.subrange(0, i as int).lemma_push_to_set_commute(keys[i as int]);
                }
                assert(records_of(out@) =~= self@.restrict(keys.subrange(0, i + 1).to_set()));
            }
            i += 1;
        }
        assert(keys.subrange(0, n as int) =~= keys);
        assert(self@.restrict(keys.to_set()) =~= self@);
        (out, self.version)
    }

    /// Whether `input` has to be rebuilt under configuration `config_hash`,
    /// given whether its recorded output still exists and its current
    /// content. The content is fingerprinted only when the other checks pass.
    pub fn needs_rebuild(
        &self,
        input: &String,
        config_hash: u64,
        output_exists: bool,
        content: &[u8],
    ) -> (r: bool)
        ensures
            r == rebuild_needed(self@, input@, config_hash, output_exists, xxh3_of(content@)),
    {
        let entry = match self.entries.get(input) {
            Some(e) => e,
            None => return true,
        };
        if entry.config_hash != config_hash {
            return true;
        }
        if !output_exists {
            return true;
        }
        let current_hash = hash_data(content);
        current_hash != entry.input_hash
    }

    /// Records a successful build of `input`, replacing any earlier record.
    pub fn update(
        &mut self,
        input: String,
        output: String,
        config_hash: u64,
        content: &[u8],
        mtime: u64,
        now: u64,
    )
        ensures
            final(self)@ == old(self)@.insert(
                input@,
                fresh_entry(output, config_hash, xxh3_of(content@), mtime, now),
            ),
            final(self).version == old(self).version,
    {
        let input_hash = hash_data(content);
        let entry = CacheEntry { input_hash, config_hash, output_path: output, mtime, processed_at: now };
        proof {
            assert(entry == fresh_entry(output, config_hash, xxh3_of(content@), mtime, now));
        }
        self.entries.insert(input, entry);
    }

    /// Drops the records of inputs that no longer exist: only the records
    /// of the listed paths stay.
    pub fn cleanup(&mut self, existing_inputs: &Vec<String>)
        ensures
            final(self)@ == old(self)@.restrict(text_set(existing_inputs@)),
            final(self).version == old(self).version,
    {
        let n = self.entries.len();
        let ghost keys = self.entries.keys();
        let mut keep: Vec<bool> = Vec::new();
        let mut i: usize = 0;
        while i < n
            invariant
                i <= n,
                n == keys.len(),
                keys == self.entries.keys(),
                keep@.len() == i,
                forall|j: int| 0 <= j < i ==> #[trigger] keep@[j] == text_set(existing_inputs@).contains(keys[j]),
            decreases n - i,
        {
            let (k, _) = self.entries.entry_at(i);
            keep.push(list_contains(existing_inputs, k));
            i += 1;
        }
        let ghost old_map = self@;
        self.entries.retain_flags(&keep);
        proof {
            assert(old_map.restrict(flagged_keys(keys, keep@)) =~= old_map.restrict(text_set(existing_inputs@))) by {
                assert forall|k: Seq<char>| old_map.contains_key(k) implies
                    (#[trigger] flagged_keys(keys, keep@).contains(k) <==> text_set(existing_inputs@).contains(k)) by {
                    assert(keys.to_set().contains(k));
                    let j = choose|j: int| 0 <= j < keys.len() && keys[j] == k;
                    assert(keep@[j] == text_set(existing_inputs@).contains(keys[j]));
                }
            }
        }
    }

    /// Counts the records, and among them those whose output is one of the
    /// listed existing outputs.
    pub fn stats(&self, existing_outputs: &Vec<String>) -> (r: CacheStats)
        ensures
            r.total_entries == self@.len(),
            r.valid_entries == self.entries.keys().filter(
                |k: Seq<char>| output_listed(self@, existing_outputs@, k),
            ).len(),
            r.stale_entries == r.total_entries - r.valid_entries,
    {
        let n = self.entries.len();
        let ghost keys = self.entries.keys();
        let ghost pred = |k: Seq<char>| output_listed(self@, existing_outputs@, k);
        let mut valid: usize = 0;
        let mut i: usize = 0;
        while i < n
            invariant
                i <= n,
                n == keys.len(),
                n == self@.len(),
                keys == self.entries.keys(),
                pred == (|k: Seq<char>| output_listed(self@, existing_outputs@, k)),
                valid == keys.subrange(0, i as int).filter(pred).len(),
                valid <= i,
            decreases n - i,
        {
            let (k, e) = self.entries.entry_at(i);
            let listed = list_contains(existing_outputs, &e.output_path);
            proof {
                assert(keys.subrange(0, i + 1) =~= keys.subrange(0, i as int).push(keys[i as int]));
                keys.subrange(0, i as int).lemma_filter_push(keys[i as int], pred);
                keys.subrange(0, i as int).filter(pred).lemma_filter_len(pred);
            }
            if listed {
                valid += 1;
            }
            i += 1;
        }
        assert(keys.subrange(0, n as int) =~= keys);
        CacheStats { total_entries: n, valid_entries: valid, stale_entries: n - valid }
    }

    /// Removes every record.
    pub fn clear(&mut self)
        ensures
            final(self)@ == Map::<Seq<char>, CacheEntry>::empty(),
            final(self).version == old(self).version,
    {
        self.entries.clear();
    }
}

/// The content fingerprint decides: a record made under the same
/// configuration, whose recorded modification time equals the file's, still
/// calls for a rebuild when the content fingerprint differs from the
/// recorded one.
pub proof fn lemma_content_change_forces_rebuild(
    records: Map<Seq<char>, CacheEntry>,
    input: Seq<char>,
    config_hash: u64,
    output_exists: bool,
    content_hash: u64,
    file_mtime: u64,
)
    requires
        records.contains_key(input),
        records[input].config_hash == config_hash,
        records[input].mtime == file_mtime,
        records[input].input_hash != content_hash,
    ensures
        rebuild_needed(records, input, config_hash, output_exists, content_hash),
{
}

/// Unchanged content under another configuration calls for a rebuild.
pub proof fn lemma_config_change_forces_rebuild(
    records: Map<Seq<char>, CacheEntry>,
    input: Seq<char>,
    config_hash: u64,
    output_exists: bool,
    content_hash: u64,
)
    requires
        records.contains_key(input),
        records[input].input_hash == content_hash,
        records[input].config_hash != config_hash,
    ensures
        rebuild_needed(records, input, config_hash, output_exists, content_hash),
{
}

/// Loading what `save` produced for a cache of the current version gives
/// back exactly its records.
pub proof fn lemma_saved_records_load_back(records: Map<Seq<char>, CacheEntry>, list: Seq<(String, CacheEntry)>)
    requires
        records_of(list) == records,
    ensures
        restored(list, CACHE_VERSION) == records,
{
}

/// A stored cache of any version other than the current one loads as an
/// empty cache.
pub proof fn lemma_other_version_loads_empty(list: Seq<(String, CacheEntry)>, version: u32)
    requires
        version != CACHE_VERSION,
    ensures
        restored(list, version) == Map::<Seq<char>, CacheEntry>::empty(),
{
}

} // verus!
