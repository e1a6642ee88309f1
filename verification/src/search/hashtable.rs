use vstd::prelude::*;
use vstd::std_specs::cmp::PartialEqSpec;

verus! {

/// The type of the keys of a hash table.
pub type HashType = u64;

/// A table of entries found by key: a key picks the entry at the key modulo the table's length,
/// and a newer entry replaces whatever stood there.
pub struct Hashtable<T: Copy + Default + PartialEq> {
    entries: Vec<T>,
    blank: T,
}

/// The number of entries below `n` of `entries` that differ from `blank`.
pub open spec fn filled_count<T: PartialEq>(entries: Seq<T>, blank: T, n: nat) -> nat
    decreases n,
{
    if n == 0 {
        0
    } else {
        filled_count(entries, blank, (n - 1) as nat) + if entries[n - 1].eq_spec(&blank) {
            0nat
        } else {
            1nat
        }
    }
}

/// The number of entries a table of `megabytes` megabytes holds.
pub open spec fn entries_for<T>(megabytes: usize) -> int {
    (megabytes * 1048576) / vstd::layout::size_of::<T>() as int
}

impl<T: Copy + Default + PartialEq> Hashtable<T> {
    /// The entry of an empty slot is what `T::default()` gives.
    #[verifier::type_invariant]
    spec fn blank_is_default(self) -> bool {
        call_ensures(T::default, (), self.blank)
    }

    /// The entries, in order.
    pub closed spec fn view(&self) -> Seq<T> {
        self.entries@
    }

    /// The entry of an empty slot: the default value of the entry type, taken when the table was
    /// made.
    pub closed spec fn spec_blank(&self) -> T {
        self.blank
    }

    /// The slot a key picks.
    pub open spec fn spec_idx(&self, key: HashType) -> int {
        (key as usize) as int % self@.len() as int
    }

    /// The entry in the slot `key` picks.
    pub open spec fn spec_poll(&self, key: HashType) -> T {
        self@[self.spec_idx(key)]
    }

    /// A table of `megabytes` megabytes, every entry empty.
    pub fn new(megabytes: usize) -> (r: Self)
        requires
            megabytes * 1048576 <= usize::MAX,
            vstd::layout::size_of::<T>() > 0,
        ensures
            r@.len() == entries_for::<T>(megabytes),
            forall|i: int| 0 <= i < r@.len() ==> #[trigger] r@[i] == r.spec_blank(),
            call_ensures(T::default, (), r.spec_blank()),
    {
        let blank = T::default();
        assert(call_ensures(T::default, (), blank));
        let mut tt = Hashtable { entries: Vec::new(), blank };
        tt.resize(megabytes);
        tt
    }

    /// The entry in the slot `key` picks.
    pub fn poll(&self, key: HashType) -> (r: T)
        requires
            self@.len() > 0,
        ensures
            r == self.spec_poll(key),
    {
        let idx = self.get_idx(key);
        self.entries[idx]
    }

    /// Puts `entry` in the slot `key` picks.
    pub fn add(&mut self, key: HashType, entry: &T)
        requires
            old(self)@.len() > 0,
        ensures
            final(self)@ == old(self)@.update(old(self).spec_idx(key), *entry),
            final(self).spec_blank() == old(self).spec_blank(),
    {
        let idx = self.get_idx(key);
        proof {
            use_type_invariant(&*self);
        }
        let mut entries: Vec<T> = Vec::new();
        std::mem::swap(&mut entries, &mut self.entries);
        entries.set(idx, *entry);
        self.entries = entries;
    }

    /// How many of the first thousand slots (or of all, if fewer) hold an entry, or `None` for
    /// a table without slots.
    pub fn hashfull(&self) -> (r: Option<i32>)
        ensures
            self@.len() == 0 <==> r.is_none(),
            r matches Some(k) ==> 0 <= k <= 1000,
            call_ensures(T::default, (), self.spec_blank()),
            T::obeys_eq_spec() && r is Some ==> r->0 == filled_count(
                self@,
                self.spec_blank(),
                if self@.len() < 1000 { self@.len() } else { 1000 },
            ),
    {
        proof {
            use_type_invariant(self);
        }
        let size = if self.entries.len() < 1000 {
            self.entries.len()
        } else {
            1000
        };
        if size == 0 {
            return None;
        }
        let mut filled: i32 = 0;
        let mut i: usize = 0;
        while i < size
            invariant
                i <= size <= 1000,
                size <= self.entries.len(),
                0 <= filled <= i,
                T::obeys_eq_spec() ==> filled == filled_count(self.entries@, self.blank, i as nat),
            decreases size - i,
        {
            if self.entries[i] != self.blank {
                filled = filled + 1;
            }
            i = i + 1;
        }
        Some(filled)
    }

    /// The number of slots.
    pub fn len(&self) -> (r: usize)
        ensures
            r == self@.len(),
    {
        self.entries.len()
    }

    /// Makes the table `megabytes` megabytes large: entries that still fit stay where they are,
    /// new slots are empty.
    pub fn resize(&mut self, megabytes: usize)
        requires
            megabytes * 1048576 <= usize::MAX,
            vstd::layout::size_of::<T>() > 0,
        ensures
            final(self)@.len() == entries_for::<T>(megabytes),
            final(self).spec_blank() == old(self).spec_blank(),
            forall|i: int| 0 <= i < final(self)@.len() ==> #[trigger] final(self)@[i] == (if i
                < old(self)@.len() {
                old(self)@[i]
            } else {
                old(self).spec_blank()
            }),
    {
        let num_entries = (megabytes * 1024 * 1024) / std::mem::size_of::<T>();
        proof {
            use_type_invariant(&*self);
        }
        let mut entries: Vec<T> = Vec::new();
        std::mem::swap(&mut entries, &mut self.entries);
        let b = self.blank;
        if num_entries <= entries.len() {
            entries.truncate(num_entries);
        } else {
            while entries.len() < num_entries
                invariant
                    num_entries > old(self)@.len(),
                    old(self)@.len() <= entries.len() <= num_entries,
                    b == old(self).blank,
                    forall|i: int| 0 <= i < entries.len() ==> #[trigger] entries@[i] == (if i
                        < old(self)@.len() {
                        old(self)@[i]
                    } else {
                        old(self).blank
                    }),
                decreases num_entries - entries.len(),
            {
                entries.push(b);
            }
        }
        self.entries = entries;
    }

    /// Empties every slot.
    pub fn clear(&mut self)
        ensures
            final(self)@.len() == old(self)@.len(),
            final(self).spec_blank() == old(self).spec_blank(),
            forall|i: int| 0 <= i < final(self)@.len() ==> #[trigger] final(self)@[i] == final(self).spec_blank(),
    {
        proof {
            use_type_invariant(&*self);
        }
        let mut entries: Vec<T> = Vec::new();
        std::mem::swap(&mut entries, &mut self.entries);
        let b = self.blank;
        let mut i: usize = 0;
        while i < entries.len()
            invariant
                entries.len() == old(self)@.len(),
                b == old(self).blank,
                forall|j: int| 0 <= j < i ==> #[trigger] entries@[j] == b,
            decreases entries.len() - i,
        {
            entries.set(i, b);
            i = i + 1;
        }
        self.entries = entries;
    }

    fn get_idx(&self, key: HashType) -> (r: usize)
        requires
            self@.len() > 0,
        ensures
            r == self.spec_idx(key),
    {
        key as usize % self.entries.len()
    }
}

/// A poll right after an add under the same key gives the entry added back, and an add leaves
/// the slot of every key that picks another slot as it was.
pub proof fn lemma_poll_after_add<T: Copy + Default + PartialEq>(
    before: Hashtable<T>,
    after: Hashtable<T>,
    key: HashType,
    entry: T,
    other: HashType,
)
    requires
        before@.len() > 0,
        after@ == before@.update(before.spec_idx(key), entry),
    ensures
        after.spec_poll(key) == entry,
        before.spec_idx(other) != before.spec_idx(key) ==> after.spec_poll(other) == before.spec_poll(
            other,
        ),
{
    assert(0 <= before.spec_idx(key) < before@.len());
    assert(0 <= before.spec_idx(other) < before@.len());
}

} // verus!
