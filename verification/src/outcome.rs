//! The set of ports found open, in the order they were found.

use vstd::prelude::*;

verus! {

/// `found` after one more finding: a new port goes to the end, a known one
/// changes nothing.
pub open spec fn recorded(found: Seq<u16>, port: u16) -> Seq<u16> {
    if found.contains(port) {
        found
    } else {
        found.push(port)
    }
}

/// The ports confirmed open by one scan. Each port stands in it once; the
/// order is the order of discovery and carries no meaning of its own.
#[derive(Debug)]
pub struct ScanOutcome {
    ports: Vec<u16>,
}

impl View for ScanOutcome {
    type V = Seq<u16>;

    closed spec fn view(&self) -> Seq<u16> {
        self.ports@
    }
}

impl ScanOutcome {
    /// No port stands in the outcome twice.
    pub open spec fn wf(&self) -> bool {
        self@.no_duplicates()
    }

    /// The outcome as a set.
    pub open spec fn open_ports(&self) -> Set<u16> {
        self@.to_set()
    }

    /// The outcome of a scan that has found nothing yet.
    pub fn new() -> (r: ScanOutcome)
        ensures
            r@ == Seq::<u16>::empty(),
            r.wf(),
    {
        ScanOutcome { ports: Vec::new() }
    }

    /// Whether `port` was found open.
    pub fn contains(&self, port: u16) -> (r: bool)
        ensures
            r == self@.contains(port),
    {
        let mut i: usize = 0;
        while i < self.ports.len()
            invariant
                i <= self.ports@.len(),
                forall|j: int| 0 <= j < i ==> self.ports@[j] != port,
            decreases self.ports@.len() - i,
        {
            if self.ports[i] == port {
                return true;
            }
            i += 1;
        }
        false
    }

    /// Takes in one finding: a port not seen before goes to the end, a port
    /// already there changes nothing.
    pub fn record(&mut self, port: u16)
        requires
            old(self).wf(),
        ensures
            final(self).wf(),
            final(self)@ == recorded(old(self)@, port),
            final(self).open_ports() == old(self).open_ports().insert(port),
    {
        proof {
            lemma_recorded_as_set(self@, port);
        }
        if !self.contains(port) {
            self.ports.push(port);
        }
    }

    /// How many ports were found open.
    pub fn count(&self) -> (r: usize)
        ensures
            r == self@.len(),
    {
        self.ports.len()
    }

    /// The ports in discovery order.
    pub fn ports(&self) -> (r: &Vec<u16>)
        ensures
            r@ == self@,
    {
        &self.ports
    }
}

/// As sets, recording is insertion.
pub proof fn lemma_recorded_as_set(found: Seq<u16>, port: u16)
    ensures
        recorded(found, port).to_set() == found.to_set().insert(port),
{
    let after = recorded(found, port);
    assert forall|p: u16| after.to_set().contains(p) <==> found.to_set().insert(port).contains(
        p,
    ) by {
        if !found.contains(port) {
            if p == port {
                assert(after[found.len() as int] == port);
            } else if found.contains(p) {
                let j = choose|j: int| 0 <= j < found.len() && found[j] == p;
                assert(after[j] == p);
            }
        }
    }
    assert(after.to_set() =~= found.to_set().insert(port));
}

} // verus!
