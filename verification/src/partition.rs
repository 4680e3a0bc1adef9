//! Strided partitioning of a port range over workers.

use vstd::prelude::*;
use crate::request::ScanRequest;

verus! {

/// How many values `start, start + stride, ...` do not exceed `last`.
pub open spec fn strided_len(start: int, stride: int, last: int) -> nat {
    if start > last || stride <= 0 {
        0
    } else {
        ((last - start) / stride + 1) as nat
    }
}

/// The increasing sequence `start, start + stride, ...` up to `last`.
pub open spec fn strided(start: int, stride: int, last: int) -> Seq<u16> {
    Seq::new(strided_len(start, stride, last), |k: int| (start + k * stride) as u16)
}

impl ScanRequest {
    /// The ports that worker `worker` probes, in the order it probes them:
    /// `port_from + worker`, then every `worker_count`-th port after it.
    pub open spec fn assigned(&self, worker: int) -> Seq<u16> {
        strided(self.port_from + worker, self.worker_count as int, self.port_to as int)
    }

    /// The worker that owns `port`.
    pub open spec fn owner_of(&self, port: u16) -> int {
        (port - self.port_from) % (self.worker_count as int)
    }

    /// The position of `port` in its owner's sequence.
    pub open spec fn slot_of(&self, port: u16) -> int {
        (port - self.port_from) / (self.worker_count as int)
    }
}

/// The `k`-th value of a strided sequence, and its bounds.
pub proof fn lemma_strided_index(start: int, stride: int, last: int, k: int)
    requires
        0 <= start,
        stride >= 1,
        last <= u16::MAX,
        0 <= k < strided_len(start, stride, last),
    ensures
        start + k * stride <= last,
        strided(start, stride, last)[k] == start + k * stride,
{
    assert(k * stride <= last - start) by (nonlinear_arith)
        requires
            0 <= k <= (last - start) / stride,
            stride >= 1,
            last - start >= 0,
    ;
    assert(k * stride >= 0) by (nonlinear_arith)
        requires
            k >= 0,
            stride >= 1,
    ;
}

/// Stepping past the first value leaves the rest of the sequence.
pub proof fn lemma_strided_step(start: int, stride: int, last: int)
    requires
        0 <= start <= last,
        stride >= 1,
        last <= u16::MAX,
    ensures
        strided(start, stride, last).len() >= 1,
        strided(start, stride, last)[0] == start,
        strided(start + stride, stride, last) == strided(start, stride, last).skip(1),
{
    let whole = strided(start, stride, last);
    let rest = strided(start + stride, stride, last);
    assert((last - start) / stride >= 0) by (nonlinear_arith)
        requires
            last - start >= 0,
            stride >= 1,
    ;
    if start + stride > last {
        assert((last - start) / stride == 0) by (nonlinear_arith)
            requires
                0 <= last - start < stride,
        ;
    } else {
        assert((last - start - stride) / stride + 1 == (last - start) / stride)
            by (nonlinear_arith)
            requires
                last - start - stride >= 0,
                stride >= 1,
        ;
    }
    assert(rest.len() + 1 == whole.len());
    assert forall|k: int| 0 <= k < rest.len() implies rest[k] == whole.skip(1)[k] by {
        assert((start + stride) + k * stride == start + (k + 1) * stride) by (nonlinear_arith);
    }
    assert(rest =~= whole.skip(1));
}

/// One worker's walk over its share of the range.
///
/// The worker holds the next port it would probe (which may lie past the end
/// of the range, and then the walk is over), its stride and the last port of
/// the range.
#[derive(Clone, Copy, Debug)]
pub struct Worker {
    next: u32,
    stride: u16,
    last: u16,
}

impl Worker {
    /// What every worker satisfies: a positive stride, and a next port that
    /// is at most one stride past the range.
    pub closed spec fn wf(&self) -> bool {
        self.stride >= 1 && self.next <= self.last + self.stride
    }

    /// The ports still to be probed, in order.
    pub closed spec fn remaining(&self) -> Seq<u16> {
        strided(self.next as int, self.stride as int, self.last as int)
    }

    /// Worker number `index` of `request`, before its first probe.
    pub fn new(request: &ScanRequest, index: u16) -> (w: Worker)
        requires
            request.wf(),
        ensures
            w.wf(),
            w.remaining() == request.assigned(index as int),
    {
        let start: u32 = request.port_from as u32 + index as u32;
        let last: u16 = request.port_to;
        // A start past the range is pulled back to just past it: the share is empty either way.
        let next: u32 = if start > last as u32 {
            last as u32 + 1
        } else {
            start
        };
        let w = Worker { next, stride: request.worker_count, last };
        proof {
            assert(w.remaining() =~= request.assigned(index as int));
        }
        w
    }

    /// The port to probe now, or `None` when the share is exhausted.
    pub fn current(&self) -> (r: Option<u16>)
        requires
            self.wf(),
        ensures
            r.is_some() <==> self.remaining().len() > 0,
            r.is_some() ==> r.unwrap() == self.remaining()[0],
    {
        if self.next <= self.last as u32 {
            proof {
                lemma_strided_step(self.next as int, self.stride as int, self.last as int);
            }
            Some(self.next as u16)
        } else {
            None
        }
    }

    /// Moves past the current port.
    pub fn advance(&mut self)
        requires
            old(self).wf(),
            old(self).remaining().len() > 0,
        ensures
            final(self).wf(),
            final(self).remaining() == old(self).remaining().skip(1),
    {
        proof {
            lemma_strided_step(self.next as int, self.stride as int, self.last as int);
        }
        self.next = self.next + self.stride as u32;
    }
}

impl ScanRequest {
    /// The ports of worker `worker`, in probing order.
    pub fn assigned_ports(&self, worker: u16) -> (ports: Vec<u16>)
        requires
            self.wf(),
        ensures
            ports@ == self.assigned(worker as int),
    {
        let mut w = Worker::new(self, worker);
        let mut ports: Vec<u16> = Vec::new();
        loop
            invariant
                w.wf(),
                ports@ + w.remaining() == self.assigned(worker as int),
            ensures
                w.remaining().len() == 0,
            decreases w.remaining().len(),
        {
            match w.current() {
                Some(port) => {
                    let ghost before = w.remaining();
                    w.advance();
                    ports.push(port);
                    proof {
                        assert(ports@ + w.remaining() =~= ports@.drop_last() + before);
                    }
                },
                None => {
                    break ;
                },
            }
        }
        proof {
            assert(ports@ =~= ports@ + w.remaining());
        }
        ports
    }
}

/// Every share lies inside the requested range and is strictly increasing.
pub proof fn lemma_assigned_within_range(request: ScanRequest, worker: int)
    requires
        request.wf(),
        0 <= worker,
    ensures
        forall|k: int|
            0 <= k < request.assigned(worker).len() ==> request.covers(
                #[trigger] request.assigned(worker)[k],
            ),
        forall|k: int, l: int|
            0 <= k < l < request.assigned(worker).len() ==> request.assigned(worker)[k]
                < request.assigned(worker)[l],
{
    let start = request.port_from + worker;
    let stride = request.worker_count as int;
    let last = request.port_to as int;
    assert forall|k: int| 0 <= k < request.assigned(worker).len() implies request.covers(
        #[trigger] request.assigned(worker)[k],
    ) by {
        lemma_strided_index(start, stride, last, k);
    }
    assert forall|k: int, l: int| 0 <= k < l < request.assigned(worker).len() implies request.assigned(
        worker,
    )[k] < request.assigned(worker)[l] by {
        lemma_strided_index(start, stride, last, k);
        lemma_strided_index(start, stride, last, l);
        assert(k * stride < l * stride) by (nonlinear_arith)
            requires
                k < l,
                stride >= 1,
        ;
    }
}

/// Every port of the range stands in the share of the worker that owns it.
pub proof fn lemma_port_is_assigned(request: ScanRequest, port: u16)
    requires
        request.wf(),
        request.covers(port),
    ensures
        0 <= request.owner_of(port) < request.worker_count,
        0 <= request.slot_of(port) < request.assigned(request.owner_of(port)).len(),
        request.assigned(request.owner_of(port))[request.slot_of(port)] == port,
{
    let n = request.worker_count as int;
    let d = port - request.port_from;
    let i = d % n;
    let k = d / n;
    assert(d == n * k + i && 0 <= i < n && k >= 0) by (nonlinear_arith)
        requires
            d >= 0,
            n >= 1,
            i == d % n,
            k == d / n,
    ;
    let start = request.port_from + i;
    let last = request.port_to as int;
    assert((last - start) / n >= k) by (nonlinear_arith)
        requires
            last - start >= n * k,
            n >= 1,
            k >= 0,
    ;
    lemma_strided_index(start, n, last, k);
    assert(k * n == n * k) by (nonlinear_arith);
}

/// A port stands in one place only: two places that hold the same port are
/// the same worker and the same position.
pub proof fn lemma_port_assigned_once(request: ScanRequest, i: int, k: int, j: int, l: int)
    requires
        request.wf(),
        0 <= i < request.worker_count,
        0 <= j < request.worker_count,
        0 <= k < request.assigned(i).len(),
        0 <= l < request.assigned(j).len(),
        request.assigned(i)[k] == request.assigned(j)[l],
    ensures
        i == j,
        k == l,
{
    let n = request.worker_count as int;
    let last = request.port_to as int;
    lemma_strided_index(request.port_from + i, n, last, k);
    lemma_strided_index(request.port_from + j, n, last, l);
    assert(i + k * n == j + l * n);
    assert(i == j && k == l) by (nonlinear_arith)
        requires
            i + k * n == j + l * n,
            0 <= i < n,
            0 <= j < n,
    ;
}

/// The shares of all workers hold each port of the range exactly once, and
/// nothing else.
pub proof fn lemma_partition_exact(request: ScanRequest)
    requires
        request.wf(),
    ensures
        forall|port: u16| #[trigger]
            request.covers(port) ==> {
                &&& 0 <= request.owner_of(port) < request.worker_count
                &&& 0 <= request.slot_of(port) < request.assigned(request.owner_of(port)).len()
                &&& request.assigned(request.owner_of(port))[request.slot_of(port)] == port
            },
        forall|i: int, k: int|
            0 <= i < request.worker_count && 0 <= k < request.assigned(i).len()
                ==> request.covers(#[trigger] request.assigned(i)[k]),
        forall|i: int, k: int, j: int, l: int|
            0 <= i < request.worker_count && 0 <= j < request.worker_count && 0 <= k
                < request.assigned(i).len() && 0 <= l < request.assigned(j).len()
                && #[trigger] request.assigned(i)[k] == #[trigger] request.assigned(j)[l] ==> i
                == j && k == l,
{
    assert forall|port: u16| #[trigger] request.covers(port) implies {
        &&& 0 <= request.owner_of(port) < request.worker_count
        &&& 0 <= request.slot_of(port) < request.assigned(request.owner_of(port)).len()
        &&& request.assigned(request.owner_of(port))[request.slot_of(port)] == port
    } by {
        lemma_port_is_assigned(request, port);
    }
    assert forall|i: int, k: int|
        0 <= i < request.worker_count && 0 <= k < request.assigned(i).len()
            implies request.covers(#[trigger] request.assigned(i)[k]) by {
        lemma_assigned_within_range(request, i);
    }
    assert forall|i: int, k: int, j: int, l: int|
        0 <= i < request.worker_count && 0 <= j < request.worker_count && 0 <= k
            < request.assigned(i).len() && 0 <= l < request.assigned(j).len()
            && #[trigger] request.assigned(i)[k] == #[trigger] request.assigned(j)[l] implies i
        == j && k == l by {
        lemma_port_assigned_once(request, i, k, j, l);
    }
}

/// A worker whose number is not below the number of ports has nothing to do.
pub proof fn lemma_excess_worker_idle(request: ScanRequest, worker: int)
    requires
        request.wf(),
        worker >= request.port_count(),
    ensures
        request.assigned(worker).len() == 0,
{
}

} // verus!
