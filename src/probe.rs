//! The decisions of a probe scan over batches of candidate addresses.
//!
//! A driver outside the library performs the probes: it asks the scan for
//! its next step, probes every address of a batch it is handed (all of them
//! at once, in any order), records each outcome as it arrives, and asks again.
//! The first live address recorded wins; later ones change nothing.
use vstd::prelude::*;

use crate::error::{TwitchRecoverError, TwitchRecoverResult};
use crate::vod_recover::{batches_of, string_views};

verus! {

/// The status that marks a probed address as live.
pub const LIVE_STATUS: u16 = 200;

/// The found address after the outcome `status` of the probe at `offset` in
/// `batch` is recorded: the first live address wins.
pub open spec fn record_found(found: Option<Seq<char>>, batch: Seq<Seq<char>>, offset: int, status: int) -> Option<Seq<char>> {
    if found is None && 0 <= offset < batch.len() && status == LIVE_STATUS {
        Some(batch[offset])
    } else {
        found
    }
}

/// A copy of a batch of addresses.
fn copy_batch(batch: &Vec<String>) -> (r: Vec<String>)
    ensures
        string_views(r@) == string_views(batch@),
{
    let mut out: Vec<String> = Vec::new();
    for i in 0..batch.len()
        invariant
            out@.len() == i,
            forall|k: int| 0 <= k < i ==> #[trigger] out@[k]@ == batch@[k]@,
    {
        out.push(batch[i].clone());
    }
    assert(string_views(out@) =~= string_views(batch@));
    out
}

/// What a scan asks its driver to do next.
#[derive(Debug)]
pub enum ProbeStep {
    /// Probe every address of this batch and record each outcome.
    Probe(Vec<String>),
    /// The scan is over: the live address, or `VodNotFound`.
    Done(TwitchRecoverResult<String>),
}

/// A scan over batches of candidate addresses, visited in order.
#[derive(Debug)]
pub struct ProbeScan {
    batches: Vec<Vec<String>>,
    next: usize,
    found: Option<String>,
}

/// What a scan holds: its batches, how many of them it has handed out, and
/// the live address recorded so far.
pub struct ScanView {
    pub batches: Seq<Seq<Seq<char>>>,
    pub next: nat,
    pub found: Option<Seq<char>>,
}

/// The views of a sequence of batches.
pub open spec fn batch_views(b: Seq<Vec<String>>) -> Seq<Seq<Seq<char>>> {
    b.map_values(|c: Vec<String>| string_views(c@))
}

impl View for ProbeScan {
    type V = ScanView;

    closed spec fn view(&self) -> ScanView {
        ScanView {
            batches: batch_views(self.batches@),
            next: self.next as nat,
            found: match self.found {
                Some(u) => Some(u@),
                None => None,
            },
        }
    }
}

impl ProbeScan {
    /// No more batches have been handed out than the scan holds.
    pub closed spec fn wf(&self) -> bool {
        self.next <= self.batches@.len()
    }

    /// A scan over `batches` that has probed nothing.
    pub fn new(batches: Vec<Vec<String>>) -> (r: ProbeScan)
        ensures
            r.wf(),
            r@.batches == batch_views(batches@),
            r@.next == 0,
            r@.found is None,
    {
        ProbeScan { batches, next: 0, found: None }
    }

    /// The next step: the live address once one is recorded; else the next
    /// batch to probe; else, with every batch probed, `VodNotFound`.
    pub fn next_step(&mut self) -> (r: ProbeStep)
        requires
            old(self).wf(),
        ensures
            final(self).wf(),
            final(self)@.batches == old(self)@.batches,
            final(self)@.found == old(self)@.found,
            match old(self)@.found {
                Some(u) => {
                    &&& final(self)@.next == old(self)@.next
                    &&& r matches ProbeStep::Done(Ok(v)) && v@ == u
                },
                None => if old(self)@.next < old(self)@.batches.len() {
                    &&& final(self)@.next == old(self)@.next + 1
                    &&& r matches ProbeStep::Probe(b) && string_views(b@) == old(
                        self,
                    )@.batches[old(self)@.next as int]
                } else {
                    &&& final(self)@.next == old(self)@.next
                    &&& r matches ProbeStep::Done(Err(TwitchRecoverError::VodNotFound))
                },
            },
    {
        match &self.found {
            Some(u) => {
                return ProbeStep::Done(Ok(u.clone()));
            },
            None => {},
        }
        if self.next < self.batches.len() {
            let batch = copy_batch(&self.batches[self.next]);
            self.next = self.next + 1;
            ProbeStep::Probe(batch)
        } else {
            ProbeStep::Done(Err(TwitchRecoverError::VodNotFound))
        }
    }

    /// Records that the probe at `offset` in the batch last handed out
    /// answered `status`. An offset outside that batch, or a call before any
    /// batch was handed out, changes nothing.
    pub fn record(&mut self, offset: usize, status: u16)
        requires
            old(self).wf(),
        ensures
            final(self).wf(),
            final(self)@.batches == old(self)@.batches,
            final(self)@.next == old(self)@.next,
            old(self)@.next == 0 ==> final(self)@.found == old(self)@.found,
            old(self)@.next > 0 ==> final(self)@.found == record_found(
                old(self)@.found,
                old(self)@.batches[old(self)@.next - 1],
                offset as int,
                status as int,
            ),
    {
        if self.next == 0 || self.found.is_some() || status != LIVE_STATUS {
            return;
        }
        let batch = &self.batches[self.next - 1];
        if offset < batch.len() {
            self.found = Some(batch[offset].clone());
        }
    }
}

/// The status a probe of `url` answers when the live addresses are `live`:
/// 200 for a live one, 404 for any other.
pub open spec fn probe_status(live: Set<Seq<char>>, url: Seq<char>) -> int {
    if live.contains(url) {
        LIVE_STATUS as int
    } else {
        404
    }
}

/// The found address after the outcomes of a batch's probes are recorded in
/// the order of arrival `order` (offsets into the batch).
pub open spec fn batch_found(
    found: Option<Seq<char>>,
    batch: Seq<Seq<char>>,
    order: Seq<int>,
    live: Set<Seq<char>>,
) -> Option<Seq<char>>
    decreases order.len(),
{
    if order.len() == 0 {
        found
    } else {
        let o = order[0];
        let status = if 0 <= o < batch.len() {
            probe_status(live, batch[o])
        } else {
            404
        };
        batch_found(record_found(found, batch, o, status), batch, order.drop_first(), live)
    }
}

/// How a scan ends when its driver, from batch `k` on with `found` recorded,
/// asks for each next step, probes each batch it is handed and records the
/// outcomes of batch `j` in the order of arrival `orders[j]`: the address
/// reported (none for `VodNotFound`) and how many probes were issued.
pub open spec fn run_from(
    batches: Seq<Seq<Seq<char>>>,
    k: int,
    found: Option<Seq<char>>,
    orders: Seq<Seq<int>>,
    live: Set<Seq<char>>,
) -> (Option<Seq<char>>, int)
    decreases batches.len() - k,
{
    if found is Some {
        (found, 0)
    } else if k < 0 || k >= batches.len() {
        (None, 0)
    } else {
        let rest = run_from(batches, k + 1, batch_found(found, batches[k], orders[k], live), orders, live);
        (rest.0, rest.1 + batches[k].len())
    }
}

/// A batch's outcomes keep a found address, add only a live address of the
/// batch, add one wherever a live address was probed, and change nothing
/// where no address of the batch is live.
proof fn lemma_batch_found(
    found: Option<Seq<char>>,
    batch: Seq<Seq<char>>,
    order: Seq<int>,
    live: Set<Seq<char>>,
)
    ensures
        found is Some ==> batch_found(found, batch, order, live) == found,
        (found is None && batch_found(found, batch, order, live) is Some) ==> exists|o: int|
            0 <= o < batch.len() && batch_found(found, batch, order, live) == Some(batch[o])
                && live.contains(batch[o]),
        (exists|j: int|
            0 <= j < order.len() && 0 <= order[j] < batch.len() && live.contains(
                #[trigger] batch[order[j]],
            )) ==> batch_found(found, batch, order, live) is Some,
        (forall|o: int| 0 <= o < batch.len() ==> !live.contains(#[trigger] batch[o]))
            ==> batch_found(found, batch, order, live) == found,
    decreases order.len(),
{
    if order.len() > 0 {
        let o = order[0];
        let status = if 0 <= o < batch.len() {
            probe_status(live, batch[o])
        } else {
            404
        };
        let next = record_found(found, batch, o, status);
        lemma_batch_found(next, batch, order.drop_first(), live);
        if exists|j: int|
            0 <= j < order.len() && 0 <= order[j] < batch.len() && live.contains(
                #[trigger] batch[order[j]],
            ) {
            let j = choose|j: int|
                0 <= j < order.len() && 0 <= order[j] < batch.len() && live.contains(
                    #[trigger] batch[order[j]],
                );
            if j > 0 {
                assert(order.drop_first()[j - 1] == order[j]);
            }
        }
    }
}

/// The number of probes in the batches from `k` on.
pub open spec fn probes_from(batches: Seq<Seq<Seq<char>>>, k: int) -> int
    decreases batches.len() - k,
{
    if k < 0 || k >= batches.len() {
        0
    } else {
        batches[k].len() + probes_from(batches, k + 1)
    }
}

/// With no live address left in the batches from `k` on, a scan that has
/// found nothing probes all of them and ends without an address.
proof fn lemma_run_without_live(
    batches: Seq<Seq<Seq<char>>>,
    k: int,
    orders: Seq<Seq<int>>,
    live: Set<Seq<char>>,
)
    requires
        0 <= k,
        forall|j: int, o: int|
            k <= j < batches.len() && 0 <= o < batches[j].len() ==> !live.contains(
                #[trigger] batches[j][o],
            ),
    ensures
        run_from(batches, k, None, orders, live) == (None::<Seq<char>>, probes_from(batches, k)),
    decreases batches.len() - k,
{
    if k < batches.len() {
        lemma_batch_found(None, batches[k], orders[k], live);
        lemma_run_without_live(batches, k + 1, orders, live);
    }
}

/// The batches of `s` from `k` on hold as many items as `s` holds from
/// `k * n` on.
proof fn lemma_batches_probes_from(s: Seq<Seq<char>>, n: nat, k: int)
    requires
        n > 0,
        0 <= k <= batches_of(s, n).len(),
    ensures
        probes_from(batches_of(s, n), k) == if k * n <= s.len() {
            s.len() - k * n
        } else {
            0
        },
    decreases batches_of(s, n).len() - k,
{
    let b = batches_of(s, n);
    let q = (s.len() + n - 1) / (n as int);
    vstd::arithmetic::div_mod::lemma_fundamental_div_mod(s.len() + n - 1, n as int);
    vstd::arithmetic::div_mod::lemma_mod_bound(s.len() + n - 1, n as int);
    if s.len() == 0 {
        assert(k == 0);
    } else {
        assert(q * n >= s.len()) by (nonlinear_arith)
            requires
                s.len() + n - 1 == n * q + (s.len() + n - 1) % (n as int),
                (s.len() + n - 1) % (n as int) < n;
        if k < b.len() {
            assert(k * n + n <= q * n) by (nonlinear_arith)
                requires k + 1 <= q, n > 0;
            assert((k + 1) * n == k * n + n) by (nonlinear_arith);
            assert(q * n <= s.len() + n - 1) by (nonlinear_arith)
                requires
                    s.len() + n - 1 == n * q + (s.len() + n - 1) % (n as int),
                    (s.len() + n - 1) % (n as int) >= 0;
            lemma_batches_probes_from(s, n, k + 1);
        }
    }
}

/// The item at `o` in batch `j` of `s` is the item of `s` at `j * n + o`.
proof fn lemma_batches_index(s: Seq<Seq<char>>, n: nat, j: int, o: int) -> (m: int)
    requires
        0 <= j < batches_of(s, n).len(),
        0 <= o < batches_of(s, n)[j].len(),
    ensures
        0 <= m < s.len(),
        batches_of(s, n)[j][o] == s[m],
        n == 0 ==> m == o,
        n > 0 ==> m == j * n + o && o < n,
{
    if n == 0 {
        o
    } else {
        let q = (s.len() + n - 1) / (n as int);
        vstd::arithmetic::div_mod::lemma_fundamental_div_mod(s.len() + n - 1, n as int);
        vstd::arithmetic::div_mod::lemma_mod_bound(s.len() + n - 1, n as int);
        assert(j * n + n <= q * n) by (nonlinear_arith)
            requires j + 1 <= q, n > 0;
        assert(q * n <= s.len() + n - 1) by (nonlinear_arith)
            requires
                s.len() + n - 1 == n * q + (s.len() + n - 1) % (n as int),
                (s.len() + n - 1) % (n as int) >= 0;
        assert(j * n >= 0) by (nonlinear_arith)
            requires j >= 0, n > 0;
        assert((j + 1) * n == j * n + n) by (nonlinear_arith);
        j * n + o
    }
}

/// Where the item at `i` of `s` stands in the batches of `s`.
proof fn lemma_batches_locate(s: Seq<Seq<char>>, n: nat, i: int) -> (ko: (int, int))
    requires
        0 <= i < s.len(),
    ensures
        0 <= ko.0 < batches_of(s, n).len(),
        0 <= ko.1 < batches_of(s, n)[ko.0].len(),
        batches_of(s, n)[ko.0][ko.1] == s[i],
{
    let b = batches_of(s, n);
    if n == 0 {
        (0, i)
    } else {
        let k = i / (n as int);
        let o = i % (n as int);
        vstd::arithmetic::div_mod::lemma_fundamental_div_mod(i, n as int);
        vstd::arithmetic::div_mod::lemma_mod_bound(i, n as int);
        let q = (s.len() + n - 1) / (n as int);
        vstd::arithmetic::div_mod::lemma_fundamental_div_mod(s.len() + n - 1, n as int);
        vstd::arithmetic::div_mod::lemma_mod_bound(s.len() + n - 1, n as int);
        assert(k >= 0) by (nonlinear_arith)
            requires i == n * k + o, 0 <= i, o < n, n > 0;
        assert(k < q) by (nonlinear_arith)
            requires
                i == n * k + o,
                0 <= o,
                i < s.len(),
                s.len() + n - 1 == n * q + (s.len() + n - 1) % (n as int),
                (s.len() + n - 1) % (n as int) < n,
                n > 0;
        assert(k * n + o == i) by (nonlinear_arith)
            requires i == n * k + o;
        assert((k + 1) * n == k * n + n) by (nonlinear_arith);
        (k, o)
    }
}

/// A scan over candidates of which none is live probes every one of them,
/// once, and ends with `VodNotFound`, whatever the batch size and the order
/// in which outcomes arrive.
pub proof fn lemma_scan_without_live_probes_all(
    candidates: Seq<Seq<char>>,
    batch_size: nat,
    orders: Seq<Seq<int>>,
    live: Set<Seq<char>>,
)
    requires
        forall|i: int| 0 <= i < candidates.len() ==> !live.contains(#[trigger] candidates[i]),
    ensures
        run_from(batches_of(candidates, batch_size), 0, None, orders, live) == (
            None::<Seq<char>>,
            candidates.len() as int,
        ),
{
    let b = batches_of(candidates, batch_size);
    assert forall|j: int, o: int| 0 <= j < b.len() && 0 <= o < b[j].len() implies !live.contains(
        #[trigger] b[j][o],
    ) by {
        let m = lemma_batches_index(candidates, batch_size, j, o);
        assert(b[j][o] == candidates[m]);
    }
    lemma_run_without_live(b, 0, orders, live);
    if batch_size == 0 {
        if candidates.len() > 0 {
            assert(probes_from(b, 1) == 0);
        }
    } else {
        lemma_batches_probes_from(candidates, batch_size, 0);
    }
}

/// From batch `k` on, with nothing found yet, a scan reports `u` where `u`
/// is the only live address among the candidates and stands in batch `kb`
/// at or after `k`, at an offset that the order of arrival of that batch
/// names.
proof fn lemma_run_single_live(
    batches: Seq<Seq<Seq<char>>>,
    k: int,
    kb: int,
    ob: int,
    orders: Seq<Seq<int>>,
    live: Set<Seq<char>>,
)
    requires
        0 <= k <= kb < batches.len(),
        0 <= ob < batches[kb].len(),
        live.contains(batches[kb][ob]),
        forall|j: int, o: int|
            0 <= j < batches.len() && 0 <= o < batches[j].len() && live.contains(
                #[trigger] batches[j][o],
            ) ==> batches[j][o] == batches[kb][ob],
        exists|x: int| 0 <= x < orders[kb].len() && orders[kb][x] == ob,
    ensures
        run_from(batches, k, None, orders, live).0 == Some(batches[kb][ob]),
    decreases kb - k,
{
    let f = batch_found(None, batches[k], orders[k], live);
    lemma_batch_found(None, batches[k], orders[k], live);
    if f is Some {
        let o = choose|o: int|
            0 <= o < batches[k].len() && f == Some(batches[k][o]) && live.contains(batches[k][o]);
        assert(batches[k][o] == batches[kb][ob]);
        assert(run_from(batches, k + 1, f, orders, live) == (f, 0int));
    } else {
        if k == kb {
            let x = choose|x: int| 0 <= x < orders[kb].len() && orders[kb][x] == ob;
            assert(live.contains(batches[k][orders[k][x]]));
        }
        lemma_run_single_live(batches, k + 1, kb, ob, orders, live);
    }
}

/// Where exactly one candidate address is live, a scan reports it, wherever
/// it stands in its batch and in whatever order the outcomes of each batch
/// arrive, as long as every probe's outcome is recorded.
pub proof fn lemma_scan_finds_single_live(
    candidates: Seq<Seq<char>>,
    batch_size: nat,
    orders: Seq<Seq<int>>,
    live: Set<Seq<char>>,
    i: int,
)
    requires
        0 <= i < candidates.len(),
        live.contains(candidates[i]),
        forall|j: int|
            0 <= j < candidates.len() && live.contains(#[trigger] candidates[j]) ==> candidates[j]
                == candidates[i],
        orders.len() == batches_of(candidates, batch_size).len(),
        forall|k: int, o: int|
            0 <= k < orders.len() && 0 <= o < batches_of(candidates, batch_size)[k].len()
                ==> #[trigger] orders[k].contains(o),
    ensures
        run_from(batches_of(candidates, batch_size), 0, None, orders, live).0 == Some(candidates[i]),
{
    let b = batches_of(candidates, batch_size);
    let (kb, ob) = lemma_batches_locate(candidates, batch_size, i);
    assert forall|j: int, o: int|
        0 <= j < b.len() && 0 <= o < b[j].len() && live.contains(#[trigger] b[j][o]) implies b[j][o]
        == b[kb][ob] by {
        let m = lemma_batches_index(candidates, batch_size, j, o);
    }
    assert(orders[kb].contains(ob));
    lemma_run_single_live(b, 0, kb, ob, orders, live);
}

} // verus!
