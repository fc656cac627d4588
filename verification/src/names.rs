//! Named global lookup: retrieval of a host-registered value by string
//! name, used by native bootstrap code to reach host-side closures and
//! configuration. An absent name yields `None`.

use vstd::prelude::*;

use crate::value::Value;

verus! {

/// The last binding registered under `name`, if any.
pub open spec fn lookup_spec(entries: Seq<(Vec<u8>, Value)>, name: Seq<u8>) -> Option<Value>
    decreases entries.len(),
{
    if entries.len() == 0 {
        None
    } else if entries.last().0@ == name {
        Some(entries.last().1)
    } else {
        lookup_spec(entries.drop_last(), name)
    }
}

/// The registry of host-registered named values. Registering a name again
/// shadows the earlier binding. The registry lives outside what the
/// collector scans: a value reachable only through it must also be
/// registered as a global root.
pub struct NamedRegistry {
    pub entries: Vec<(Vec<u8>, Value)>,
}

fn bytes_eq(a: &Vec<u8>, b: &Vec<u8>) -> (r: bool)
    ensures
        r == (a@ == b@),
{
    if a.len() != b.len() {
        return false;
    }
    let n = a.len();
    let mut i: usize = 0;
    while i < n
        invariant
            n == a@.len(),
            n == b@.len(),
            i <= n,
            forall|j: int| 0 <= j < i ==> a@[j] == b@[j],
        decreases n - i,
    {
        if a[i] != b[i] {
            return false;
        }
        i += 1;
    }
    proof {
        assert(a@ =~= b@);
    }
    true
}

impl NamedRegistry {
    /// The empty registry of process startup.
    pub fn new() -> (r: NamedRegistry)
        ensures
            r.entries@.len() == 0,
    {
        NamedRegistry { entries: Vec::new() }
    }

    /// Registers `v` under `name`, shadowing any earlier binding.
    pub fn register(&mut self, name: Vec<u8>, v: Value)
        ensures
            final(self).entries@ == old(self).entries@.push((name, v)),
    {
        self.entries.push((name, v));
    }

    /// The value registered under `name`: the most recent binding, or
    /// `None` when the name was never registered.
    pub fn lookup(&self, name: &Vec<u8>) -> (r: Option<Value>)
        ensures
            r == lookup_spec(self.entries@, name@),
    {
        let n = self.entries.len();
        let mut k: usize = n;
        proof {
            assert(self.entries@.take(n as int) =~= self.entries@);
        }
        while k > 0
            invariant
                n == self.entries@.len(),
                k <= n,
                lookup_spec(self.entries@, name@) == lookup_spec(
                    self.entries@.take(k as int),
                    name@,
                ),
            decreases k,
        {
            k -= 1;
            let hit = bytes_eq(&self.entries[k].0, name);
            proof {
                assert(self.entries@.take(k + 1).drop_last() =~= self.entries@.take(k as int));
                assert(self.entries@.take(k + 1).last() == self.entries@[k as int]);
            }
            if hit {
                return Some(self.entries[k].1);
            }
        }
        proof {
            assert(self.entries@.take(0) =~= Seq::<(Vec<u8>, Value)>::empty());
        }
        None
    }
}

} // verus!
