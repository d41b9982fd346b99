//! The process environment, handed to the library as a value.
use vstd::prelude::*;

verus! {

/// The value that the last entry named `key` gives, if any.
pub open spec fn lookup(entries: Seq<(Seq<char>, Seq<char>)>, key: Seq<char>) -> Option<Seq<char>>
    decreases entries.len(),
{
    if entries.len() == 0 {
        None
    } else if entries.last().0 == key {
        Some(entries.last().1)
    } else {
        lookup(entries.drop_last(), key)
    }
}

/// A set of environment variables. A later entry for a name overrides an
/// earlier one.
pub struct Environment {
    entries: Vec<(String, String)>,
}

impl Environment {
    pub closed spec fn entries(&self) -> Seq<(Seq<char>, Seq<char>)> {
        self.entries@.map_values(|e: (String, String)| (e.0@, e.1@))
    }

    /// The value of the variable `key`, if it is set.
    pub open spec fn var(&self, key: Seq<char>) -> Option<Seq<char>> {
        lookup(self.entries(), key)
    }

    /// An environment with no variables.
    pub fn new() -> (r: Environment)
        ensures
            forall|k: Seq<char>| r.var(k) is None,
    {
        let r = Environment { entries: Vec::new() };
        assert(r.entries().len() == 0);
        r
    }

    /// Sets the variable `key` to `value`.
    pub fn set(&mut self, key: &str, value: &str)
        ensures
            final(self).var(key@) == Some(value@),
            forall|k: Seq<char>| k != key@ ==> final(self).var(k) == old(self).var(k),
    {
        self.entries.push((String::from_str(key), String::from_str(value)));
        assert(self.entries().drop_last() =~= old(self).entries());
    }

    /// The value of the variable `key`, if it is set.
    pub fn get(&self, key: &str) -> (r: Option<String>)
        ensures
            match r {
                Some(v) => self.var(key@) == Some(v@),
                None => self.var(key@) is None,
            },
    {
        let key_text = String::from_str(key);
        let mut i: usize = self.entries.len();
        assert(self.entries().subrange(0, i as int) =~= self.entries());
        while i > 0
            invariant
                i <= self.entries@.len(),
                key_text@ == key@,
                lookup(self.entries(), key@) == lookup(self.entries().subrange(0, i as int), key@),
            decreases i,
        {
            let entry = &self.entries[i - 1];
            assert(self.entries().subrange(0, i - 1) =~= self.entries().subrange(0, i as int).drop_last());
            if entry.0 == key_text {
                return Some(entry.1.clone());
            }
            i = i - 1;
        }
        None
    }
}

} // verus!
