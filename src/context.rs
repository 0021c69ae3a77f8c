//! The per-request context: string keys to string values, threaded through
//! every middleware stage.
use vstd::prelude::*;
use crate::text::{owned, same_text};

verus! {

/// Entries in insertion order; a later entry for a key hides earlier ones.
#[derive(Debug, Clone)]
pub struct HttpContext {
    pub entries: Vec<(String, String)>,
}

pub open spec fn entry_views(v: Seq<(String, String)>) -> Seq<(Seq<char>, Seq<char>)> {
    v.map_values(|e: (String, String)| (e.0@, e.1@))
}

/// The value that `key` has in `entries`: that of its latest entry.
pub open spec fn lookup(entries: Seq<(Seq<char>, Seq<char>)>, key: Seq<char>) -> Option<Seq<char>>
    decreases entries.len(),
{
    if entries.len() == 0 {
        None
    } else if entries.last().0 == key {
        Some(entries.last().1)
    } else {
        lookup(entries.drop_last(), key)
    }
}

impl HttpContext {
    pub open spec fn view_entries(&self) -> Seq<(Seq<char>, Seq<char>)> {
        entry_views(self.entries@)
    }

    pub open spec fn value_of(&self, key: Seq<char>) -> Option<Seq<char>> {
        lookup(self.view_entries(), key)
    }

    pub fn new() -> (r: HttpContext)
        ensures
            r.view_entries().len() == 0,
            forall|k: Seq<char>| r.value_of(k) is None,
    {
        HttpContext { entries: Vec::new() }
    }

    /// Sets `key` to `value`.
    pub fn insert(&mut self, key: String, value: String)
        ensures
            final(self).view_entries() == old(self).view_entries().push((key@, value@)),
            final(self).value_of(key@) == Some(value@),
            forall|k: Seq<char>| k != key@ ==> final(self).value_of(k) == old(self).value_of(k),
    {
        let ghost before = self.view_entries();
        let ghost kv = key@;
        let ghost vv = value@;
        self.entries.push((key, value));
        proof {
            assert(self.view_entries() =~= before.push((kv, vv)));
            assert(self.view_entries().drop_last() =~= before);
        }
    }

    /// The value of `key`, if it was set.
    pub fn get(&self, key: &str) -> (r: Option<String>)
        ensures
            r matches Some(v) ==> self.value_of(key@) == Some(v@),
            r is None ==> self.value_of(key@) is None,
    {
        let mut i: usize = self.entries.len();
        assert(self.view_entries().subrange(0, i as int) =~= self.view_entries());
        while i > 0
            invariant
                i <= self.entries@.len(),
                lookup(self.view_entries(), key@) == lookup(
                    self.view_entries().subrange(0, i as int),
                    key@,
                ),
            decreases i,
        {
            let ghost sub = self.view_entries().subrange(0, i as int);
            assert(sub.drop_last() =~= self.view_entries().subrange(0, i - 1));
            assert(sub.last() == (self.entries@[i - 1].0@, self.entries@[i - 1].1@));
            if same_text(self.entries[i - 1].0.as_str(), key) {
                return Some(owned(self.entries[i - 1].1.as_str()));
            }
            i = i - 1;
        }
        None
    }
}

} // verus!
