//! A map keyed by text.
use vstd::prelude::*;

verus! {

/// Is `i` where the entry of `key` stands?
pub open spec fn stands_at<V>(entries: Seq<(String, V)>, key: Seq<char>, i: int) -> bool {
    0 <= i < entries.len() && entries[i].0@ == key
}

/// No key occurs twice.
spec fn keys_differ<V>(entries: Seq<(String, V)>) -> bool {
    forall|i: int, j: int|
        0 <= i < j < entries.len() ==> (#[trigger] entries[i]).0@ != (#[trigger] entries[j]).0@
}

/// The map that a list of entries stands for.
closed spec fn map_of<V>(entries: Seq<(String, V)>) -> Map<Seq<char>, V> {
    Map::new(
        |key: Seq<char>| exists|i: int| stands_at(entries, key, i),
        |key: Seq<char>| entries[choose|i: int| stands_at(entries, key, i)].1,
    )
}

/// The entry that stands at `i` is what the map holds under its key.
proof fn entry_is_value<V>(entries: Seq<(String, V)>, i: int)
    requires
        keys_differ(entries),
        0 <= i < entries.len(),
    ensures
        map_of(entries).contains_key(entries[i].0@),
        map_of(entries)[entries[i].0@] == entries[i].1,
{
    let key = entries[i].0@;
    assert(stands_at(entries, key, i));
}

proof fn removal_removes<V>(before: Seq<(String, V)>, at: int)
    requires
        keys_differ(before),
        0 <= at < before.len(),
    ensures
        keys_differ(before.remove(at)),
        map_of(before.remove(at)) == map_of(before).remove(before[at].0@),
{
    let after = before.remove(at);
    let key = before[at].0@;
    assert forall|i: int, j: int| 0 <= i < j < after.len() implies (#[trigger] after[i]).0@ != (
    #[trigger] after[j]).0@ by {
        let a = if i < at {
            i
        } else {
            i + 1
        };
        let b = if j < at {
            j
        } else {
            j + 1
        };
    }
    let m = map_of(after);
    let n = map_of(before).remove(key);
    assert forall|k: Seq<char>|
        #![trigger m.dom().contains(k)]
        #![trigger n.dom().contains(k)]
        m.dom().contains(k) == n.dom().contains(k) && (m.dom().contains(k) ==> m[k] == n[k]) by {
        if m.contains_key(k) {
            let i = choose|i: int| stands_at(after, k, i);
            let a = if i < at {
                i
            } else {
                i + 1
            };
            entry_is_value(after, i);
            entry_is_value(before, a);
        }
        if map_of(before).contains_key(k) && k != key {
            let i = choose|i: int| stands_at(before, k, i);
            let b = if i < at {
                i
            } else {
                i - 1
            };
            assert(stands_at(after, k, b));
        }
    }
}

proof fn push_inserts<V>(before: Seq<(String, V)>, entry: (String, V))
    requires
        keys_differ(before),
        !map_of(before).contains_key(entry.0@),
    ensures
        keys_differ(before.push(entry)),
        map_of(before.push(entry)) == map_of(before).insert(entry.0@, entry.1),
{
    let after = before.push(entry);
    let last = before.len() as int;
    assert forall|i: int, j: int| 0 <= i < j < after.len() implies (#[trigger] after[i]).0@ != (
    #[trigger] after[j]).0@ by {
        if j == last {
            entry_is_value(before, i);
        }
    }
    entry_is_value(after, last);
    let m = map_of(after);
    let n = map_of(before).insert(entry.0@, entry.1);
    assert forall|k: Seq<char>|
        #![trigger m.dom().contains(k)]
        #![trigger n.dom().contains(k)]
        m.dom().contains(k) == n.dom().contains(k) && (m.dom().contains(k) ==> m[k] == n[k]) by {
        if m.contains_key(k) && k != entry.0@ {
            let i = choose|i: int| stands_at(after, k, i);
            entry_is_value(after, i);
            entry_is_value(before, i);
        }
        if map_of(before).contains_key(k) {
            let i = choose|i: int| stands_at(before, k, i);
            assert(stands_at(after, k, i));
        }
    }
}

/// A map keyed by text, kept as a list in which no key occurs twice.
#[derive(Debug)]
pub struct TextMap<V> {
    entries: Vec<(String, V)>,
}

impl<V> View for TextMap<V> {
    type V = Map<Seq<char>, V>;

    closed spec fn view(&self) -> Map<Seq<char>, V> {
        map_of(self.entries@)
    }
}

impl<V> TextMap<V> {
    #[verifier::type_invariant]
    spec fn no_key_twice(&self) -> bool {
        keys_differ(self.entries@)
    }

    pub fn new() -> (r: Self)
        ensures
            r@ == Map::<Seq<char>, V>::empty(),
    {
        TextMap { entries: Vec::new() }
    }

    fn position(&self, key: &str) -> (r: Option<usize>)
        ensures
            r is Some <==> self@.contains_key(key@),
            r matches Some(i) ==> {
                &&& stands_at(self.entries@, key@, i as int)
                &&& self.entries@[i as int].1 == self@[key@]
            },
    {
        proof {
            use_type_invariant(self);
        }
        let wanted = key.to_owned();
        let mut i: usize = 0;
        while i < self.entries.len()
            invariant
                keys_differ(self.entries@),
                wanted@ == key@,
                0 <= i <= self.entries.len(),
                forall|j: int| 0 <= j < i ==> !stands_at(self.entries@, key@, j),
            decreases self.entries.len() - i,
        {
            if self.entries[i].0 == wanted {
                proof {
                    entry_is_value(self.entries@, i as int);
                }
                return Some(i);
            }
            i = i + 1;
        }
        None
    }

    pub fn contains(&self, key: &str) -> (r: bool)
        ensures
            r == self@.contains_key(key@),
    {
        self.position(key).is_some()
    }

    pub fn get(&self, key: &str) -> (r: Option<&V>)
        ensures
            r == (if self@.contains_key(key@) {
                Some(&self@[key@])
            } else {
                None
            }),
    {
        match self.position(key) {
            Some(i) => Some(&self.entries[i].1),
            None => None,
        }
    }

    /// Take the value under a key out of the map.
    pub fn take(&mut self, key: &str) -> (r: Option<V>)
        ensures
            final(self)@ == old(self)@.remove(key@),
            r == (if old(self)@.contains_key(key@) {
                Some(old(self)@[key@])
            } else {
                None
            }),
    {
        proof {
            use_type_invariant(&*self);
        }
        match self.position(key) {
            Some(at) => {
                let ghost before = self.entries@;
                let mut entries: Vec<(String, V)> = Vec::new();
                std::mem::swap(&mut entries, &mut self.entries);
                let entry = entries.remove(at);
                proof {
                    removal_removes(before, at as int);
                }
                self.entries = entries;
                Some(entry.1)
            },
            None => {
                None
            },
        }
    }

    /// Put a value under a key, in place of any before it.
    pub fn insert(&mut self, key: String, value: V)
        ensures
            final(self)@ == old(self)@.insert(key@, value),
    {
        let _replaced = self.take(key.as_str());
        proof {
            use_type_invariant(&*self);
        }
        let ghost before = self.entries@;
        let ghost entry = (key, value);
        let mut entries: Vec<(String, V)> = Vec::new();
        std::mem::swap(&mut entries, &mut self.entries);
        entries.push((key, value));
        proof {
            push_inserts(before, entry);
        }
        self.entries = entries;
    }
}

} // verus!
