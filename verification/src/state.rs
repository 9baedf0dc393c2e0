//! The persisted enable/disable state of devices, keyed by device identity.
use vstd::prelude::*;

verus! {

/// Whether the keys of `entries` are pairwise distinct.
pub open spec fn keys_distinct(entries: Seq<(String, bool)>) -> bool {
    forall|i: int, j: int|
        0 <= i < entries.len() && 0 <= j < entries.len() && i != j ==> (#[trigger] entries[i]).0@
            != (#[trigger] entries[j]).0@
}

/// The map that a list of (identity, enabled) entries stands for.
pub open spec fn entries_map(entries: Seq<(String, bool)>) -> Map<Seq<char>, bool> {
    Map::new(
        |k: Seq<char>| exists|i: int| 0 <= i < entries.len() && #[trigger] entries[i].0@ == k,
        |k: Seq<char>|
            entries[choose|i: int| 0 <= i < entries.len() && #[trigger] entries[i].0@ == k].1,
    )
}

/// Whether a device of identity `id` is enabled under `m`: unseen devices
/// default to enabled, matching the udev rule's default-allow.
pub open spec fn spec_is_enabled(m: Map<Seq<char>, bool>, id: Seq<char>) -> bool {
    if m.contains_key(id) {
        m[id]
    } else {
        true
    }
}

/// The index of the entry for `key` in `entries`, if there is one.
fn position_of(entries: &Vec<(String, bool)>, key: &String) -> (r: Option<usize>)
    ensures
        match r {
            Some(i) => i < entries@.len() && entries@[i as int].0@ == key@,
            None => forall|j: int| 0 <= j < entries@.len() ==> entries@[j].0@ != key@,
        },
{
    let n = entries.len();
    let mut i: usize = 0;
    while i < n
        invariant
            n == entries@.len(),
            i <= n,
            forall|j: int| 0 <= j < i ==> entries@[j].0@ != key@,
        decreases n - i,
    {
        if entries[i].0 == *key {
            return Some(i);
        }
        i = i + 1;
    }
    None
}

/// The saved enable/disable choice per device identity.
#[derive(Debug)]
pub struct StateFile {
    entries: Vec<(String, bool)>,
}

impl View for StateFile {
    type V = Map<Seq<char>, bool>;

    closed spec fn view(&self) -> Map<Seq<char>, bool> {
        entries_map(self.entries@)
    }
}

impl StateFile {
    #[verifier::type_invariant]
    closed spec fn wf(self) -> bool {
        keys_distinct(self.entries@)
    }

    /// Whether the device of identity `id` is enabled. Unseen devices default
    /// to enabled, matching the underlying udev rule's default-allow.
    pub fn is_enabled(&self, id: &str) -> (r: bool)
        ensures
            r == spec_is_enabled(self@, id@),
    {
        proof {
            use_type_invariant(self);
        }
        let key = id.to_owned();
        match position_of(&self.entries, &key) {
            Some(i) => {
                proof {
                    let c = choose|c: int|
                        0 <= c < self.entries@.len() && #[trigger] self.entries@[c].0@ == id@;
                    assert(self.entries@[i as int].0@ == id@);
                    assert(c == i);
                }
                self.entries[i].1
            },
            None => {
                proof {
                    assert(!self@.contains_key(id@));
                }
                true
            },
        }
    }

    /// Records the choice `enabled` for the device of identity `id`.
    pub fn set(&mut self, id: &str, enabled: bool)
        ensures
            final(self)@ == old(self)@.insert(id@, enabled),
    {
        proof {
            use_type_invariant(&*self);
        }
        let key = id.to_owned();
        let mut entries: Vec<(String, bool)> = Vec::new();
        std::mem::swap(&mut entries, &mut self.entries);
        let ghost before = entries@;
        match position_of(&entries, &key) {
            Some(i) => {
                entries.set(i, (key, enabled));
                proof {
                    assert forall|k: Seq<char>| #![trigger entries_map(entries@).contains_key(k)]
                        entries_map(entries@).contains_key(k) == entries_map(
                        before,
                    ).insert(id@, enabled).contains_key(k) by {
                        if k != id@ {
                            if entries_map(before).contains_key(k) {
                                let w = choose|w: int|
                                    0 <= w < before.len() && #[trigger] before[w].0@ == k;
                                assert(entries@[w].0@ == k);
                            }
                            if entries_map(entries@).contains_key(k) {
                                let w = choose|w: int|
                                    0 <= w < entries@.len() && #[trigger] entries@[w].0@ == k;
                                assert(before[w].0@ == k);
                            }
                        } else {
                            assert(entries@[i as int].0@ == k);
                        }
                    }
                    assert forall|k: Seq<char>| #[trigger]
                        entries_map(entries@).contains_key(k) implies entries_map(entries@)[k]
                        == entries_map(before).insert(id@, enabled)[k] by {
                        let w = choose|w: int|
                            0 <= w < entries@.len() && #[trigger] entries@[w].0@ == k;
                        if k == id@ {
                            assert(entries@[i as int].0@ == k);
                            assert(w == i);
                        } else {
                            assert(before[w].0@ == k);
                            let v = choose|v: int|
                                0 <= v < before.len() && #[trigger] before[v].0@ == k;
                            assert(v == w);
                        }
                    }
                    assert(entries_map(entries@) =~= entries_map(before).insert(id@, enabled));
                }
            },
            None => {
                entries.push((key, enabled));
                proof {
                    let n = before.len();
                    assert forall|k: Seq<char>| #![trigger entries_map(entries@).contains_key(k)]
                        entries_map(entries@).contains_key(k) == entries_map(
                        before,
                    ).insert(id@, enabled).contains_key(k) by {
                        if k != id@ {
                            if entries_map(before).contains_key(k) {
                                let w = choose|w: int|
                                    0 <= w < before.len() && #[trigger] before[w].0@ == k;
                                assert(entries@[w].0@ == k);
                            }
                            if entries_map(entries@).contains_key(k) {
                                let w = choose|w: int|
                                    0 <= w < entries@.len() && #[trigger] entries@[w].0@ == k;
                                assert(before[w].0@ == k);
                            }
                        } else {
                            assert(entries@[n as int].0@ == k);
                        }
                    }
                    assert forall|k: Seq<char>| #[trigger]
                        entries_map(entries@).contains_key(k) implies entries_map(entries@)[k]
                        == entries_map(before).insert(id@, enabled)[k] by {
                        let w = choose|w: int|
                            0 <= w < entries@.len() && #[trigger] entries@[w].0@ == k;
                        if k == id@ {
                            assert(entries@[n as int].0@ == k);
                            assert(w == n);
                        } else {
                            assert(w < n);
                            assert(before[w].0@ == k);
                            let v = choose|v: int|
                                0 <= v < before.len() && #[trigger] before[v].0@ == k;
                            assert(v == w);
                        }
                    }
                    assert(entries_map(entries@) =~= entries_map(before).insert(id@, enabled));
                }
            },
        }
        self.entries = entries;
    }
}

impl StateFile {
    /// The saved choices as (identity, enabled) pairs, each identity once.
    pub fn entries(&self) -> (r: Vec<(String, bool)>)
        ensures
            keys_distinct(r@),
            entries_map(r@) == self@,
    {
        proof {
            use_type_invariant(self);
        }
        let n = self.entries.len();
        let mut r: Vec<(String, bool)> = Vec::new();
        let mut i: usize = 0;
        while i < n
            invariant
                n == self.entries@.len(),
                i <= n,
                r@.len() == i,
                forall|j: int|
                    0 <= j < i ==> (#[trigger] r@[j]).0@ == self.entries@[j].0@ && r@[j].1
                        == self.entries@[j].1,
            decreases n - i,
        {
            let key = self.entries[i].0.clone();
            r.push((key, self.entries[i].1));
            i = i + 1;
        }
        proof {
            assert forall|i: int, j: int|
                0 <= i < r@.len() && 0 <= j < r@.len() && i != j implies (#[trigger] r@[i]).0@
                != (#[trigger] r@[j]).0@ by {
                assert(self.entries@[i].0@ != self.entries@[j].0@);
            }
            assert forall|k: Seq<char>| #[trigger] entries_map(r@).contains_key(k)
                == entries_map(self.entries@).contains_key(k) by {
                if entries_map(r@).contains_key(k) {
                    let w = choose|w: int| 0 <= w < r@.len() && #[trigger] r@[w].0@ == k;
                    assert(self.entries@[w].0@ == k);
                }
                if entries_map(self.entries@).contains_key(k) {
                    let w = choose|w: int|
                        0 <= w < self.entries@.len() && #[trigger] self.entries@[w].0@ == k;
                    assert(r@[w].0@ == k);
                }
            }
            assert forall|k: Seq<char>| #[trigger]
                entries_map(r@).contains_key(k) implies entries_map(r@)[k] == entries_map(
                self.entries@,
            )[k] by {
                let w = choose|w: int| 0 <= w < r@.len() && #[trigger] r@[w].0@ == k;
                let v = choose|v: int|
                    0 <= v < self.entries@.len() && #[trigger] self.entries@[v].0@ == k;
                assert(r@[v].0@ == k);
                assert(v == w);
            }
            assert(entries_map(r@) =~= entries_map(self.entries@));
        }
        r
    }
}

/// Whether every entry of `a` is saved in `b` with the same choice.
fn covered_by(a: &Vec<(String, bool)>, b: &Vec<(String, bool)>) -> (r: bool)
    requires
        keys_distinct(b@),
    ensures
        r == forall|i: int|
            0 <= i < a@.len() ==> entries_map(b@).contains_key((#[trigger] a@[i]).0@)
                && entries_map(b@)[a@[i].0@] == a@[i].1,
{
    let n = a.len();
    let mut i: usize = 0;
    while i < n
        invariant
            n == a@.len(),
            i <= n,
            keys_distinct(b@),
            forall|j: int|
                0 <= j < i ==> entries_map(b@).contains_key((#[trigger] a@[j]).0@)
                    && entries_map(b@)[a@[j].0@] == a@[j].1,
        decreases n - i,
    {
        match position_of(b, &a[i].0) {
            Some(p) => {
                proof {
                    let k = a@[i as int].0@;
                    assert(b@[p as int].0@ == k);
                    let c = choose|c: int| 0 <= c < b@.len() && #[trigger] b@[c].0@ == k;
                    assert(c == p);
                }
                if b[p].1 != a[i].1 {
                    return false;
                }
            },
            None => {
                proof {
                    assert(!entries_map(b@).contains_key(a@[i as int].0@));
                }
                return false;
            },
        }
        i = i + 1;
    }
    true
}

/// With distinct keys, each entry is what the map holds for its key.
proof fn lemma_entry_in_map(e: Seq<(String, bool)>, i: int)
    requires
        keys_distinct(e),
        0 <= i < e.len(),
    ensures
        entries_map(e).contains_key(e[i].0@),
        entries_map(e)[e[i].0@] == e[i].1,
{
    let k = e[i].0@;
    let c = choose|c: int| 0 <= c < e.len() && #[trigger] e[c].0@ == k;
    assert(c == i);
}

impl PartialEq for StateFile {
    fn eq(&self, other: &Self) -> (r: bool) {
        proof {
            use_type_invariant(self);
            use_type_invariant(other);
        }
        let r = covered_by(&self.entries, &other.entries) && covered_by(
            &other.entries,
            &self.entries,
        );
        proof {
            let a = self.entries@;
            let b = other.entries@;
            if r {
                assert forall|k: Seq<char>| #[trigger]
                    entries_map(a).contains_key(k) == entries_map(b).contains_key(k) by {
                    if entries_map(a).contains_key(k) {
                        let w = choose|w: int| 0 <= w < a.len() && #[trigger] a[w].0@ == k;
                        assert(entries_map(b).contains_key(a[w].0@));
                    }
                    if entries_map(b).contains_key(k) {
                        let w = choose|w: int| 0 <= w < b.len() && #[trigger] b[w].0@ == k;
                        assert(entries_map(a).contains_key(b[w].0@));
                    }
                }
                assert forall|k: Seq<char>| #[trigger]
                    entries_map(a).contains_key(k) implies entries_map(a)[k] == entries_map(
                    b,
                )[k] by {
                    let w = choose|w: int| 0 <= w < a.len() && #[trigger] a[w].0@ == k;
                    lemma_entry_in_map(a, w);
                    assert(entries_map(b).contains_key(a[w].0@));
                }
                assert(entries_map(a) =~= entries_map(b));
            } else {
                if entries_map(a) == entries_map(b) {
                    assert forall|i: int| 0 <= i < a.len() implies entries_map(b).contains_key(
                        (#[trigger] a[i]).0@,
                    ) && entries_map(b)[a[i].0@] == a[i].1 by {
                        lemma_entry_in_map(a, i);
                    }
                    assert forall|i: int| 0 <= i < b.len() implies entries_map(a).contains_key(
                        (#[trigger] b[i]).0@,
                    ) && entries_map(a)[b[i].0@] == b[i].1 by {
                        lemma_entry_in_map(b, i);
                    }
                }
            }
        }
        r
    }
}

impl vstd::std_specs::cmp::PartialEqSpecImpl for StateFile {
    open spec fn obeys_eq_spec() -> bool {
        true
    }

    /// Two states are equal when they save the same choices for the same devices.
    open spec fn eq_spec(&self, other: &StateFile) -> bool {
        self@ == other@
    }
}

impl Eq for StateFile {

}

/// A device that no choice was saved for counts as enabled.
pub proof fn lemma_unseen_is_enabled(state: Map<Seq<char>, bool>, id: Seq<char>)
    requires
        !state.contains_key(id),
    ensures
        spec_is_enabled(state, id),
{
}

/// Saving a choice for one device: that device then reads as the choice made,
/// and every other device reads as before.
pub proof fn lemma_set_then_is_enabled(
    state: Map<Seq<char>, bool>,
    id: Seq<char>,
    enabled: bool,
    other: Seq<char>,
)
    ensures
        spec_is_enabled(state.insert(id, enabled), id) == enabled,
        other != id ==> spec_is_enabled(state.insert(id, enabled), other) == spec_is_enabled(
            state,
            other,
        ),
{
}

/// Saving twice for one device is the same as saving the last choice once.
pub proof fn lemma_last_choice_wins(
    state: Map<Seq<char>, bool>,
    id: Seq<char>,
    first: bool,
    second: bool,
)
    ensures
        state.insert(id, first).insert(id, second) == state.insert(id, second),
{
    assert(state.insert(id, first).insert(id, second) =~= state.insert(id, second));
}

impl Default for StateFile {
    /// A state with no saved choices: every device counts as enabled.
    fn default() -> (r: Self)
        ensures
            r@ == Map::<Seq<char>, bool>::empty(),
    {
        let r = StateFile { entries: Vec::new() };
        assert(r@ =~= Map::<Seq<char>, bool>::empty());
        r
    }
}

} // verus!
