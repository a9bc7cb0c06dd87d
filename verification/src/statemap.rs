//! A small association table from input codes to input states, with a
//! deterministic entry order so that whole-table passes (snapshotting,
//! zeroing the axes) can be verified entry by entry.

use vstd::prelude::*;
use crate::input::InputState;

verus! {

/// The table as a mathematical map, built from the entry sequence.
pub open spec fn map_of(s: Seq<(u64, InputState)>) -> Map<u64, InputState>
    decreases s.len(),
{
    if s.len() == 0 {
        Map::<u64, InputState>::empty()
    } else {
        map_of(s.drop_last()).insert(s.last().0, s.last().1)
    }
}

/// No input code occurs twice in the entry sequence.
pub open spec fn keys_unique(s: Seq<(u64, InputState)>) -> bool {
    forall|i: int, j: int| 0 <= i < j < s.len() ==> s[i].0 != s[j].0
}

/// A key is in the map exactly when some entry carries it.
pub proof fn lemma_map_of_dom(s: Seq<(u64, InputState)>, k: u64)
    ensures
        map_of(s).contains_key(k) <==> exists|i: int| 0 <= i < s.len() && s[i].0 == k,
    decreases s.len(),
{
    if s.len() > 0 {
        lemma_map_of_dom(s.drop_last(), k);
        if s.last().0 == k {
            assert(s[s.len() - 1].0 == k);
        } else if map_of(s).contains_key(k) {
            let i = choose|i: int| 0 <= i < s.drop_last().len() && s.drop_last()[i].0 == k;
            assert(s[i].0 == k);
        } else if exists|i: int| 0 <= i < s.len() && s[i].0 == k {
            let i = choose|i: int| 0 <= i < s.len() && s[i].0 == k;
            assert(s.drop_last()[i].0 == k);
        }
    }
}

/// With unique keys, the map sends each entry's key to that entry's state.
pub proof fn lemma_map_of_at(s: Seq<(u64, InputState)>, i: int)
    requires
        keys_unique(s),
        0 <= i < s.len(),
    ensures
        map_of(s).contains_key(s[i].0),
        map_of(s)[s[i].0] == s[i].1,
    decreases s.len(),
{
    if i < s.len() - 1 {
        assert(keys_unique(s.drop_last())) by {
            assert(forall|a: int, b: int|
                0 <= a < b < s.drop_last().len() ==> s.drop_last()[a].0 != s.drop_last()[b].0);
        }
        lemma_map_of_at(s.drop_last(), i);
        assert(s[i].0 != s.last().0);
    }
}

/// Replacing the entry at `i` by one with the same key updates the map at
/// exactly that key.
pub proof fn lemma_map_of_update(s: Seq<(u64, InputState)>, i: int, v: InputState)
    requires
        keys_unique(s),
        0 <= i < s.len(),
    ensures
        map_of(s.update(i, (s[i].0, v))) == map_of(s).insert(s[i].0, v),
        keys_unique(s.update(i, (s[i].0, v))),
    decreases s.len(),
{
    let t = s.update(i, (s[i].0, v));
    assert(forall|a: int| 0 <= a < s.len() ==> t[a].0 == s[a].0);
    if i == s.len() - 1 {
        assert(t.drop_last() =~= s.drop_last());
        assert(t.last() == (s[i].0, v));
        assert(map_of(t) =~= map_of(s).insert(s[i].0, v));
    } else {
        assert(keys_unique(s.drop_last()));
        assert(t.drop_last() =~= s.drop_last().update(i, (s[i].0, v)));
        lemma_map_of_update(s.drop_last(), i, v);
        assert(t.last() == s.last());
        assert(map_of(t) =~= map_of(s).insert(s[i].0, v)) by {
            assert(map_of(t) == map_of(s.drop_last()).insert(s[i].0, v).insert(
                s.last().0,
                s.last().1,
            ));
            assert(s[i].0 != s.last().0);
        }
    }
}

/// Appending an entry with a fresh key inserts it into the map.
pub proof fn lemma_map_of_push(s: Seq<(u64, InputState)>, k: u64, v: InputState)
    requires
        keys_unique(s),
        forall|i: int| 0 <= i < s.len() ==> s[i].0 != k,
    ensures
        map_of(s.push((k, v))) == map_of(s).insert(k, v),
        keys_unique(s.push((k, v))),
{
    assert(s.push((k, v)).drop_last() =~= s);
    assert(map_of(s.push((k, v))) =~= map_of(s).insert(k, v));
}

/// The table itself: a vector of entries with pairwise distinct keys.
pub struct StateTable {
    entries: Vec<(u64, InputState)>,
}

impl StateTable {
    pub closed spec fn view(&self) -> Map<u64, InputState> {
        map_of(self.entries@)
    }

    pub closed spec fn wf(&self) -> bool {
        keys_unique(self.entries@)
    }

    pub fn new() -> (r: StateTable)
        ensures
            r.wf(),
            r@ == Map::<u64, InputState>::empty(),
    {
        StateTable { entries: Vec::new() }
    }

    /// The state recorded for a code, if any.
    pub fn get(&self, k: u64) -> (r: Option<InputState>)
        requires
            self.wf(),
        ensures
            match r {
                Some(v) => self@.contains_key(k) && self@[k] == v,
                None => !self@.contains_key(k),
            },
    {
        let n: usize = self.entries.len();
        let mut i: usize = 0;
        while i < n
            invariant
                n == self.entries@.len(),
                self.wf(),
                forall|j: int| 0 <= j < i ==> self.entries@[j].0 != k,
            decreases n - i,
        {
            if self.entries[i].0 == k {
                proof {
                    lemma_map_of_at(self.entries@, i as int);
                }
                return Some(self.entries[i].1);
            }
            i = i + 1;
        }
        proof {
            lemma_map_of_dom(self.entries@, k);
        }
        None
    }

    /// Records `v` for code `k`, replacing any earlier state.
    pub fn set(&mut self, k: u64, v: InputState)
        requires
            old(self).wf(),
        ensures
            final(self).wf(),
            final(self)@ == old(self)@.insert(k, v),
    {
        let n: usize = self.entries.len();
        let mut i: usize = 0;
        while i < n
            invariant
                n == self.entries@.len(),
                self.wf(),
                self.entries@ == old(self).entries@,
                forall|j: int| 0 <= j < i ==> self.entries@[j].0 != k,
            decreases n - i,
        {
            if self.entries[i].0 == k {
                proof {
                    lemma_map_of_update(self.entries@, i as int, v);
                }
                self.entries.set(i, (k, v));
                return ;
            }
            i = i + 1;
        }
        proof {
            lemma_map_of_push(self.entries@, k, v);
        }
        self.entries.push((k, v));
    }

    /// An independent copy with the same contents.
    pub fn duplicate(&self) -> (r: StateTable)
        requires
            self.wf(),
        ensures
            r.wf(),
            r@ == self@,
    {
        let n: usize = self.entries.len();
        let mut out: Vec<(u64, InputState)> = Vec::new();
        let mut i: usize = 0;
        while i < n
            invariant
                n == self.entries@.len(),
                out@ =~= self.entries@.subrange(0, i as int),
                i <= n,
            decreases n - i,
        {
            out.push(self.entries[i]);
            i = i + 1;
        }
        assert(out@ =~= self.entries@);
        StateTable { entries: out }
    }

    /// Sets every axis reading back to zero, leaving buttons untouched.
    pub fn zero_axes(&mut self)
        requires
            old(self).wf(),
        ensures
            final(self).wf(),
            final(self)@ == spec_zero_axes(old(self)@),
    {
        let n: usize = self.entries.len();
        let mut out: Vec<(u64, InputState)> = Vec::new();
        let mut i: usize = 0;
        while i < n
            invariant
                n == self.entries@.len(),
                i <= n,
                out@.len() == i,
                forall|j: int|
                    0 <= j < i ==> #[trigger] out@[j] == (
                    self.entries@[j].0,
                    spec_zeroed(self.entries@[j].1),
                ),
            decreases n - i,
        {
            let (k, st): (u64, InputState) = self.entries[i];
            let z: InputState = match st {
                InputState::Axis1D(_) => InputState::Axis1D(0),
                b => b,
            };
            out.push((k, z));
            i = i + 1;
        }
        proof {
            lemma_map_of_zero(self.entries@, out@);
        }
        self.entries = out;
    }

    /// How many codes have a recorded state.
    pub fn len(&self) -> (r: usize)
        requires
            self.wf(),
        ensures
            r == self@.len(),
    {
        proof {
            lemma_map_of_len(self.entries@);
        }
        self.entries.len()
    }
}

/// An axis reading set back to zero; button states are untouched.
pub open spec fn spec_zeroed(st: InputState) -> InputState {
    match st {
        InputState::Axis1D(_) => InputState::Axis1D(0),
        b => b,
    }
}

/// The whole table with every axis reading set back to zero.
pub open spec fn spec_zero_axes(m: Map<u64, InputState>) -> Map<u64, InputState> {
    Map::new(|k: u64| m.contains_key(k), |k: u64| spec_zeroed(m[k]))
}

/// Zeroing the entries zeroes the map.
proof fn lemma_map_of_zero(s: Seq<(u64, InputState)>, t: Seq<(u64, InputState)>)
    requires
        keys_unique(s),
        t.len() == s.len(),
        forall|j: int| 0 <= j < s.len() ==> #[trigger] t[j] == (s[j].0, spec_zeroed(s[j].1)),
    ensures
        keys_unique(t),
        map_of(t) == spec_zero_axes(map_of(s)),
    decreases s.len(),
{
    assert(forall|a: int, b: int| 0 <= a < b < t.len() ==> t[a].0 != t[b].0) by {
        assert(forall|a: int| 0 <= a < t.len() ==> #[trigger] t[a].0 == s[a].0);
    }
    if s.len() == 0 {
        assert(map_of(t) =~= spec_zero_axes(map_of(s)));
    } else {
        assert(keys_unique(s.drop_last()));
        lemma_map_of_zero(s.drop_last(), t.drop_last());
        lemma_map_of_dom(s.drop_last(), s.last().0);
        assert(t.last() == (s.last().0, spec_zeroed(s.last().1)));
        assert(map_of(t) =~= spec_zero_axes(map_of(s))) by {
            assert(map_of(t) == map_of(t.drop_last()).insert(
                s.last().0,
                spec_zeroed(s.last().1),
            ));
            assert(map_of(s) == map_of(s.drop_last()).insert(s.last().0, s.last().1));
        }
    }
}

/// With unique keys the map is exactly as large as the entry sequence.
pub proof fn lemma_map_of_len(s: Seq<(u64, InputState)>)
    requires
        keys_unique(s),
    ensures
        map_of(s).dom().finite(),
        map_of(s).len() == s.len(),
    decreases s.len(),
{
    if s.len() == 0 {
        assert(map_of(s).dom() =~= Set::<u64>::empty());
    } else {
        assert(keys_unique(s.drop_last()));
        lemma_map_of_len(s.drop_last());
        lemma_map_of_dom(s.drop_last(), s.last().0);
        assert(!map_of(s.drop_last()).contains_key(s.last().0));
        assert(map_of(s).dom() =~= map_of(s.drop_last()).dom().insert(s.last().0));
    }
}

} // verus!
