//! The children that are alive as far as the multiplexer knows, by pid.

use crate::pid::Pid;
use std::collections::BTreeMap;
use vstd::std_specs::iter::IteratorSpec;
use vstd::prelude::*;

verus! {

broadcast use vstd::std_specs::btree::group_btree_axioms;

/// What the multiplexer keeps of a child it has spawned.
#[derive(Debug)]
pub struct MuxerChild {
    pub pid: Pid,
    pub prog_path: String,
    /// Where the child's exit status will be published.
    pub ticket: usize,
}

/// A child record as contracts see it.
pub struct MuxerChildView {
    pub pid: Pid,
    pub prog_path: Seq<char>,
    pub ticket: usize,
}

impl View for MuxerChild {
    type V = MuxerChildView;

    open spec fn view(&self) -> MuxerChildView {
        MuxerChildView { pid: self.pid, prog_path: self.prog_path@, ticket: self.ticket }
    }
}

/// The live children, each under its pid.
pub struct Children {
    pub map: BTreeMap<u32, MuxerChild>,
}

impl View for Children {
    type V = Map<u32, MuxerChildView>;

    open spec fn view(&self) -> Map<u32, MuxerChildView> {
        self.map@.map_values(|c: MuxerChild| c@)
    }
}

impl Children {
    /// No children.
    pub fn new() -> (children: Children)
        ensures
            children@ == Map::<u32, MuxerChildView>::empty(),
    {
        let children = Children { map: BTreeMap::new() };
        assert(children@ =~= Map::<u32, MuxerChildView>::empty());
        children
    }

    /// Files `child` under its pid, in place of a child that was filed there.
    pub fn insert(&mut self, child: MuxerChild)
        ensures
            final(self)@ == old(self)@.insert(child.pid.inner, child@),
    {
        let ghost v = child@;
        let key = child.pid.inner;
        self.map.insert(key, child);
        assert(self@ =~= old(self)@.insert(key, v));
    }

    /// Takes out the child filed under `pid`, if there is one.
    pub fn remove(&mut self, pid: Pid) -> (gone: Option<MuxerChild>)
        ensures
            final(self)@ == old(self)@.remove(pid.inner),
            match gone {
                Some(child) => old(self)@.contains_key(pid.inner) && child@ == old(self)@[pid.inner],
                None => !old(self)@.contains_key(pid.inner),
            },
    {
        let key = pid.inner;
        let gone = self.map.remove(&key);
        assert(self@ =~= old(self)@.remove(key));
        gone
    }

    /// The ticket of the child filed under `pid`, if there is one.
    pub fn ticket_of(&self, pid: Pid) -> (ticket: Option<usize>)
        ensures
            ticket == if self@.contains_key(pid.inner) {
                Some(self@[pid.inner].ticket)
            } else {
                None
            },
    {
        let key = pid.inner;
        match self.map.get(&key) {
            Some(child) => Some(child.ticket),
            None => None,
        }
    }

    /// The pids of the children, each once.
    pub fn pids(&self) -> (pids: Vec<Pid>)
        ensures
            pids@.no_duplicates(),
            forall|p: Pid| pids@.contains(p) <==> self@.contains_key(p.inner),
    {
        let mut out: Vec<Pid> = Vec::new();
        let ghost keys = vstd::std_specs::btree::spec_keys_iter(&self.map).remaining();
        for k in it: self.map.keys()
            invariant
                it.seq() == keys,
                out@.len() == it.index(),
                forall|j: int| 0 <= j < out@.len() ==> out@[j].inner == *it.seq()[j],
        {
            out.push(Pid { inner: *k });
        }
        proof {
            let plain = keys.unref();
            assert(plain.to_set() == self.map@.dom());
            assert(out@.len() == keys.len());
            assert forall|p: Pid| out@.contains(p) <==> self@.contains_key(p.inner) by {
                if out@.contains(p) {
                    let j = choose|j: int| 0 <= j < out@.len() && out@[j] == p;
                    assert(plain[j] == p.inner);
                    assert(plain.to_set().contains(p.inner));
                }
                if self@.contains_key(p.inner) {
                    assert(plain.to_set().contains(p.inner));
                    let j = choose|j: int| 0 <= j < plain.len() && plain[j] == p.inner;
                    assert(out@[j] == p);
                }
            }
            assert forall|a: int, b: int| 0 <= a < out@.len() && 0 <= b < out@.len() && a != b implies out@[a] != out@[b] by {
                assert(keys[a] != keys[b]);
            }
        }
        out
    }
}

} // verus!
