//! The DNS server of the simulated cluster.

use vstd::prelude::*;
use crate::addr::{IpAddr, IPV4_LOCALHOST};

verus! {

/// The address of `name` among `records`, by the text of the names.
pub open spec fn record_of(records: Seq<(String, IpAddr)>, name: Seq<char>) -> Option<IpAddr> {
    if exists|i: int| 0 <= i < records.len() && records[i].0@ == name {
        Some(records[choose|i: int| 0 <= i < records.len() && records[i].0@ == name].1)
    } else {
        None
    }
}

/// No name has two records.
pub open spec fn names_unique(records: Seq<(String, IpAddr)>) -> bool {
    forall|i: int, j: int| 0 <= i < j < records.len() ==> records[i].0@ != records[j].0@
}

/// The global DNS server in the cluster.
pub struct DnsServer {
    records: Vec<(String, IpAddr)>,
}

impl DnsServer {
    /// The address recorded for `name`, if any.
    pub closed spec fn spec_lookup(&self, name: Seq<char>) -> Option<IpAddr> {
        record_of(self.records@, name)
    }

    /// The invariant: one record per name.
    pub closed spec fn wf(&self) -> bool {
        names_unique(self.records@)
    }

    /// A server that knows only "localhost", at 127.0.0.1.
    pub fn new() -> (d: DnsServer)
        ensures
            d.wf(),
            d.spec_lookup("localhost"@) == Some(IpAddr::V4(IPV4_LOCALHOST)),
            forall|n: Seq<char>| n != "localhost"@ ==> d.spec_lookup(n) is None,
    {
        let mut records: Vec<(String, IpAddr)> = Vec::new();
        records.push(("localhost".to_owned(), IpAddr::V4(IPV4_LOCALHOST)));
        let d = DnsServer { records };
        proof {
            assert(d.records@[0].0@ == "localhost"@);
        }
        d
    }

    /// The position of the record of `name`, if any.
    fn find(&self, name: &String) -> (r: Option<usize>)
        requires
            self.wf(),
        ensures
            match r {
                Some(i) => i < self.records@.len() && self.records@[i as int].0@ == name@
                    && self.spec_lookup(name@) == Some(self.records@[i as int].1),
                None => self.spec_lookup(name@) is None,
            },
    {
        let mut i: usize = 0;
        while i < self.records.len()
            invariant
                i <= self.records@.len(),
                names_unique(self.records@),
                forall|j: int| 0 <= j < i ==> self.records@[j].0@ != name@,
            decreases self.records@.len() - i,
        {
            if self.records[i].0 == *name {
                proof {
                    let k = choose|k: int| 0 <= k < self.records@.len() && self.records@[k].0@ == name@;
                    assert(k == i);
                }
                return Some(i);
            }
            i = i + 1;
        }
        None
    }

    /// Records `ip` as the address of `name`, replacing its previous record.
    pub fn add(&mut self, name: &str, ip: IpAddr)
        requires
            old(self).wf(),
        ensures
            final(self).wf(),
            final(self).spec_lookup(name@) == Some(ip),
            forall|n: Seq<char>| n != name@ ==> final(self).spec_lookup(n) == old(self).spec_lookup(n),
    {
        let key = name.to_owned();
        match self.find(&key) {
            Some(i) => {
                let ghost before = self.records@;
                let ghost kv = key@;
                self.records.set(i, (key, ip));
                proof {
                    let after = self.records@;
                    assert(names_unique(after)) by {
                        assert forall|a: int, b: int| 0 <= a < b < after.len() implies after[a].0@ != after[b].0@ by {
                            assert(after[a].0@ == before[a].0@ && after[b].0@ == before[b].0@);
                        }
                    }
                    assert(after[i as int].0@ == name@);
                    let k = choose|k: int| 0 <= k < after.len() && after[k].0@ == name@;
                    assert(k == i as int);
                    assert forall|n: Seq<char>| n != name@ implies record_of(after, n) == record_of(before, n) by {
                        if exists|a: int| 0 <= a < before.len() && before[a].0@ == n {
                            let a = choose|a: int| 0 <= a < before.len() && before[a].0@ == n;
                            assert(after[a] == before[a]);
                            let b = choose|b: int| 0 <= b < after.len() && after[b].0@ == n;
                            assert(after[b] == before[b]);
                        } else {
                            if exists|b: int| 0 <= b < after.len() && after[b].0@ == n {
                                let b = choose|b: int| 0 <= b < after.len() && after[b].0@ == n;
                                assert(after[b] == before[b]);
                            }
                        }
                    }
                }
            },
            None => {
                let ghost before = self.records@;
                self.records.push((key, ip));
                proof {
                    let after = self.records@;
                    assert(after[before.len() as int].0@ == name@);
                    let k = choose|k: int| 0 <= k < after.len() && after[k].0@ == name@;
                    if k < before.len() {
                        assert(after[k] == before[k]);
                    }
                    assert forall|n: Seq<char>| n != name@ implies record_of(after, n) == record_of(before, n) by {
                        if exists|a: int| 0 <= a < before.len() && before[a].0@ == n {
                            let a = choose|a: int| 0 <= a < before.len() && before[a].0@ == n;
                            assert(after[a] == before[a]);
                            let b = choose|b: int| 0 <= b < after.len() && after[b].0@ == n;
                            assert(b < before.len());
                            assert(after[b] == before[b]);
                        } else {
                            if exists|b: int| 0 <= b < after.len() && after[b].0@ == n {
                                let b = choose|b: int| 0 <= b < after.len() && after[b].0@ == n;
                                assert(after[b] == before[b]);
                            }
                        }
                    }
                }
            },
        }
    }

    /// Performs a DNS lookup.
    pub fn lookup(&self, name: &str) -> (r: Option<IpAddr>)
        requires
            self.wf(),
        ensures
            r == self.spec_lookup(name@),
    {
        let key = name.to_owned();
        match self.find(&key) {
            Some(i) => Some(self.records[i].1),
            None => None,
        }
    }
}

} // verus!
