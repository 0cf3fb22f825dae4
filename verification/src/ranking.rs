//! Ranking of probe results: the reachable addresses in ascending order of
//! latency, equal latencies in the order in which their results came in.

use vstd::prelude::*;
use crate::address::Address;
use crate::probe::Latency;

verus! {

/// What one probe found out about one address.
#[derive(Debug, Clone, Copy, PartialEq, Eq, Hash, Structural)]
pub struct ProbeResult {
    pub address: Address,
    /// The measured latency; none where the address did not answer in time.
    pub latency: Option<Latency>,
}

/// An address that answered, with its latency.
#[derive(Debug, Clone, Copy, PartialEq, Eq, Hash, Structural)]
pub struct RankedEntry {
    pub address: Address,
    pub latency: Latency,
}

/// The results that carry a latency, in their order.
pub open spec fn present(results: Seq<ProbeResult>) -> Seq<RankedEntry>
    decreases results.len(),
{
    if results.len() == 0 {
        Seq::empty()
    } else {
        let before = present(results.drop_last());
        match results.last().latency {
            Some(latency) => before.push(RankedEntry { address: results.last().address, latency }),
            None => before,
        }
    }
}

/// Whether no entry has a lower latency than one before it.
pub open spec fn sorted_by_latency(entries: Seq<RankedEntry>) -> bool {
    forall|i: int, j: int|
        0 <= i <= j < entries.len() ==> entries[i].latency.micros <= entries[j].latency.micros
}

/// The entries of one latency, in their order.
pub open spec fn with_latency(entries: Seq<RankedEntry>, micros: u64) -> Seq<RankedEntry>
    decreases entries.len(),
{
    if entries.len() == 0 {
        Seq::empty()
    } else {
        let before = with_latency(entries.drop_last(), micros);
        if entries.last().latency.micros == micros {
            before.push(entries.last())
        } else {
            before
        }
    }
}

/// Whether `ranked` is `entries` sorted by latency with ties left in their
/// order: it ascends, and for each latency it holds the same entries in the
/// same order as `entries` does.
pub open spec fn is_stable_ranking(ranked: Seq<RankedEntry>, entries: Seq<RankedEntry>) -> bool {
    &&& sorted_by_latency(ranked)
    &&& forall|micros: u64| #[trigger] with_latency(ranked, micros) == with_latency(entries, micros)
}

/// Appending an entry appends it to the entries of its latency and to no others.
pub proof fn with_latency_of_push(entries: Seq<RankedEntry>, entry: RankedEntry, micros: u64)
    ensures
        with_latency(entries.push(entry), micros) == if entry.latency.micros == micros {
            with_latency(entries, micros).push(entry)
        } else {
            with_latency(entries, micros)
        },
{
    assert(entries.push(entry).drop_last() =~= entries);
}

/// The entries of one latency in two lists joined are those of the first
/// followed by those of the second.
pub proof fn with_latency_of_concat(a: Seq<RankedEntry>, b: Seq<RankedEntry>, micros: u64)
    ensures
        with_latency(a + b, micros) == with_latency(a, micros) + with_latency(b, micros),
    decreases b.len(),
{
    if b.len() == 0 {
        assert(a + b =~= a);
        assert(with_latency(a, micros) + with_latency(b, micros) =~= with_latency(a, micros));
    } else {
        with_latency_of_concat(a, b.drop_last(), micros);
        assert((a + b).drop_last() =~= a + b.drop_last());
        assert((a + b).last() == b.last());
        if b.last().latency.micros == micros {
            assert((with_latency(a, micros) + with_latency(b.drop_last(), micros)).push(b.last())
                =~= with_latency(a, micros) + with_latency(b.drop_last(), micros).push(b.last()));
        }
    }
}

/// A list without an entry of some latency has no entries of that latency.
pub proof fn with_latency_of_absent(entries: Seq<RankedEntry>, micros: u64)
    requires
        forall|k: int| 0 <= k < entries.len() ==> entries[k].latency.micros != micros,
    ensures
        with_latency(entries, micros) == Seq::<RankedEntry>::empty(),
    decreases entries.len(),
{
    if entries.len() > 0 {
        with_latency_of_absent(entries.drop_last(), micros);
    }
}

/// Each entry of a list stands among the entries of its latency.
pub proof fn position_in_class(entries: Seq<RankedEntry>, at: int) -> (k: int)
    requires
        0 <= at < entries.len(),
    ensures
        0 <= k < with_latency(entries, entries[at].latency.micros).len(),
        with_latency(entries, entries[at].latency.micros)[k] == entries[at],
    decreases entries.len(),
{
    let micros = entries[at].latency.micros;
    if at == entries.len() - 1 {
        with_latency(entries.drop_last(), micros).len() as int
    } else {
        position_in_class(entries.drop_last(), at)
    }
}

/// Each of the entries of one latency is an entry of the list, of that latency.
pub proof fn origin_in_list(entries: Seq<RankedEntry>, micros: u64, k: int) -> (at: int)
    requires
        0 <= k < with_latency(entries, micros).len(),
    ensures
        0 <= at < entries.len(),
        entries[at] == with_latency(entries, micros)[k],
        entries[at].latency.micros == micros,
    decreases entries.len(),
{
    if entries.last().latency.micros == micros && k == with_latency(
        entries.drop_last(),
        micros,
    ).len() {
        entries.len() - 1
    } else {
        origin_in_list(entries.drop_last(), micros, k)
    }
}

/// Two ascending lists that hold, for each latency, the same entries in the
/// same order are the same list.
pub proof fn ascending_lists_with_equal_classes_are_equal(a: Seq<RankedEntry>, b: Seq<RankedEntry>)
    requires
        sorted_by_latency(a),
        sorted_by_latency(b),
        forall|micros: u64| #[trigger] with_latency(a, micros) == with_latency(b, micros),
    ensures
        a == b,
    decreases a.len(),
{
    if a.len() == 0 {
        if b.len() > 0 {
            position_in_class(b, 0);
            assert(with_latency(a, b[0].latency.micros) == with_latency(b, b[0].latency.micros));
        }
        assert(a =~= b);
    } else {
        let x = a.last();
        let v = x.latency.micros;
        position_in_class(a, a.len() - 1);
        assert(with_latency(a, v) == with_latency(b, v));
        let k = origin_in_list(b, v, 0);
        let y = b.last();
        let w = y.latency.micros;
        position_in_class(b, b.len() - 1);
        assert(with_latency(a, w) == with_latency(b, w));
        let k2 = origin_in_list(a, w, 0);
        assert(v == w);
        let a0 = a.drop_last();
        let b0 = b.drop_last();
        assert(with_latency(a, v) == with_latency(a0, v).push(x));
        assert(with_latency(b, v) == with_latency(b0, v).push(y));
        assert(with_latency(a0, v).push(x).last() == x);
        assert(with_latency(b0, v).push(y).last() == y);
        assert(x == y);
        assert(with_latency(a0, v).push(x).drop_last() =~= with_latency(a0, v));
        assert(with_latency(b0, v).push(y).drop_last() =~= with_latency(b0, v));
        assert forall|micros: u64| #[trigger]
            with_latency(a0, micros) == with_latency(b0, micros) by {
            assert(with_latency(a, micros) == with_latency(b, micros));
        }
        assert(sorted_by_latency(a0));
        assert(sorted_by_latency(b0));
        ascending_lists_with_equal_classes_are_equal(a0, b0);
        assert(a =~= a0.push(x));
        assert(b =~= b0.push(y));
    }
}

/// A list has at most one stable ranking.
pub proof fn stable_ranking_is_unique(
    first: Seq<RankedEntry>,
    second: Seq<RankedEntry>,
    entries: Seq<RankedEntry>,
)
    requires
        is_stable_ranking(first, entries),
        is_stable_ranking(second, entries),
    ensures
        first == second,
{
    assert forall|micros: u64| #[trigger]
        with_latency(first, micros) == with_latency(second, micros) by {
        assert(with_latency(first, micros) == with_latency(entries, micros));
        assert(with_latency(second, micros) == with_latency(entries, micros));
    }
    ascending_lists_with_equal_classes_are_equal(first, second);
}

/// Ranking changes nothing in a list that already ascends.
pub proof fn ranking_of_ascending_list_is_the_list(
    ranked: Seq<RankedEntry>,
    entries: Seq<RankedEntry>,
)
    requires
        sorted_by_latency(entries),
        is_stable_ranking(ranked, entries),
    ensures
        ranked == entries,
{
    stable_ranking_is_unique(ranked, entries, entries);
}


/// An ascending list with one more entry, put behind every entry that is not
/// slower than it.
pub open spec fn placed(ranked: Seq<RankedEntry>, entry: RankedEntry) -> Seq<RankedEntry>
    decreases ranked.len(),
{
    if ranked.len() == 0 || ranked.last().latency.micros <= entry.latency.micros {
        ranked.push(entry)
    } else {
        placed(ranked.drop_last(), entry).push(ranked.last())
    }
}

/// The ranking of a list: its entries in ascending order of latency, entries
/// of equal latency in the order they have in the list.
pub open spec fn ranking(entries: Seq<RankedEntry>) -> Seq<RankedEntry>
    decreases entries.len(),
{
    if entries.len() == 0 {
        Seq::empty()
    } else {
        placed(ranking(entries.drop_last()), entries.last())
    }
}

/// Placing an entry keeps a list ascending and below any bound that holds of
/// the list and the entry, and adds the entry behind those of its latency.
pub proof fn placed_is_stable(ranked: Seq<RankedEntry>, entry: RankedEntry, bound: u64)
    requires
        sorted_by_latency(ranked),
    ensures
        sorted_by_latency(placed(ranked, entry)),
        placed(ranked, entry).len() == ranked.len() + 1,
        (forall|k: int| 0 <= k < ranked.len() ==> ranked[k].latency.micros <= bound)
            && entry.latency.micros <= bound ==> forall|k: int|
            0 <= k < placed(ranked, entry).len() ==> placed(ranked, entry)[k].latency.micros
                <= bound,
        forall|micros: u64| #[trigger]
            with_latency(placed(ranked, entry), micros) == with_latency(ranked.push(entry), micros),
    decreases ranked.len(),
{
    if ranked.len() == 0 || ranked.last().latency.micros <= entry.latency.micros {
    } else {
        let shorter = ranked.drop_last();
        let last = ranked.last();
        placed_is_stable(shorter, entry, bound);
        placed_is_stable(shorter, entry, last.latency.micros);
        assert(ranked =~= shorter.push(last));
        assert forall|micros: u64| #[trigger]
            with_latency(placed(ranked, entry), micros) == with_latency(
                ranked.push(entry),
                micros,
            ) by {
            with_latency_of_push(placed(shorter, entry), last, micros);
            with_latency_of_push(shorter, entry, micros);
            with_latency_of_push(shorter, last, micros);
            with_latency_of_push(ranked, entry, micros);
            assert(with_latency(placed(shorter, entry), micros) == with_latency(
                shorter.push(entry),
                micros,
            ));
        }
    }
}

/// The ranking of a list is a stable ranking of it, of the same length.
pub proof fn ranking_is_stable(entries: Seq<RankedEntry>)
    ensures
        is_stable_ranking(ranking(entries), entries),
        ranking(entries).len() == entries.len(),
    decreases entries.len(),
{
    if entries.len() > 0 {
        let shorter = entries.drop_last();
        ranking_is_stable(shorter);
        placed_is_stable(ranking(shorter), entries.last(), u64::MAX);
        assert(entries =~= shorter.push(entries.last()));
        assert forall|micros: u64| #[trigger]
            with_latency(ranking(entries), micros) == with_latency(entries, micros) by {
            with_latency_of_push(ranking(shorter), entries.last(), micros);
            with_latency_of_push(shorter, entries.last(), micros);
            assert(with_latency(ranking(shorter), micros) == with_latency(shorter, micros));
            assert(with_latency(placed(ranking(shorter), entries.last()), micros) == with_latency(
                ranking(shorter).push(entries.last()),
                micros,
            ));
        }
    }
}

/// Every stable ranking of a list is its ranking.
pub proof fn stable_ranking_is_ranking(ranked: Seq<RankedEntry>, entries: Seq<RankedEntry>)
    requires
        is_stable_ranking(ranked, entries),
    ensures
        ranked == ranking(entries),
{
    ranking_is_stable(entries);
    stable_ranking_is_unique(ranked, ranking(entries), entries);
}

/// Ranking a list that ascends already gives the list back; so ranking a
/// ranking changes nothing.
pub proof fn ranking_is_idempotent(entries: Seq<RankedEntry>)
    ensures
        sorted_by_latency(entries) ==> ranking(entries) == entries,
        ranking(ranking(entries)) == ranking(entries),
{
    ranking_is_stable(entries);
    ranking_is_stable(ranking(entries));
    if sorted_by_latency(entries) {
        ranking_of_ascending_list_is_the_list(ranking(entries), entries);
    }
    ranking_of_ascending_list_is_the_list(ranking(ranking(entries)), ranking(entries));
}

/// Keeps the results that carry a latency.
fn reachable(results: &Vec<ProbeResult>) -> (entries: Vec<RankedEntry>)
    ensures
        entries@ == present(results@),
{
    let mut entries: Vec<RankedEntry> = Vec::new();
    let mut at: usize = 0;
    assert(results@.take(0) =~= Seq::<ProbeResult>::empty());
    while at < results.len()
        invariant
            at <= results@.len(),
            entries@ == present(results@.take(at as int)),
        decreases results@.len() - at,
    {
        proof {
            assert(results@.take(at + 1).drop_last() =~= results@.take(at as int));
        }
        match results[at].latency {
            Some(latency) => {
                entries.push(RankedEntry { address: results[at].address, latency });
            },
            None => {},
        }
        at = at + 1;
    }
    assert(results@.take(at as int) =~= results@);
    entries
}

/// Merges two ascending lists into one; where latencies are equal the entries
/// of `left` come first.
fn merge(left: &Vec<RankedEntry>, right: &Vec<RankedEntry>) -> (merged: Vec<RankedEntry>)
    requires
        sorted_by_latency(left@),
        sorted_by_latency(right@),
        left@.len() + right@.len() <= usize::MAX,
    ensures
        sorted_by_latency(merged@),
        merged@.len() == left@.len() + right@.len(),
        forall|micros: u64| #[trigger]
            with_latency(merged@, micros) == with_latency(left@, micros) + with_latency(
                right@,
                micros,
            ),
{
    let mut merged: Vec<RankedEntry> = Vec::new();
    let mut i: usize = 0;
    let mut j: usize = 0;
    proof {
        assert(left@.take(0) =~= Seq::<RankedEntry>::empty());
        assert(right@.take(0) =~= Seq::<RankedEntry>::empty());
        assert forall|micros: u64| #[trigger]
            with_latency(merged@, micros) == with_latency(left@.take(0), micros) + with_latency(
                right@.take(0),
                micros,
            ) by {
            assert(with_latency(merged@, micros) =~= Seq::<RankedEntry>::empty());
        }
    }
    while i < left.len() || j < right.len()
        invariant
            i <= left@.len(),
            j <= right@.len(),
            left@.len() + right@.len() <= usize::MAX,
            merged@.len() == i + j,
            sorted_by_latency(left@),
            sorted_by_latency(right@),
            sorted_by_latency(merged@),
            forall|k: int|
                0 <= k < merged@.len() && i < left@.len() ==> merged@[k].latency.micros
                    <= left@[i as int].latency.micros,
            forall|k: int|
                0 <= k < merged@.len() && j < right@.len() ==> merged@[k].latency.micros
                    <= right@[j as int].latency.micros,
            forall|k: int|
                0 <= k < j && i < left@.len() ==> right@[k].latency.micros
                    < left@[i as int].latency.micros,
            forall|micros: u64| #[trigger]
                with_latency(merged@, micros) == with_latency(left@.take(i as int), micros)
                    + with_latency(right@.take(j as int), micros),
        decreases left@.len() - i + right@.len() - j,
    {
        let ghost before = merged@;
        let take_left = if i < left.len() {
            if j < right.len() {
                left[i].latency.micros <= right[j].latency.micros
            } else {
                true
            }
        } else {
            false
        };
        if take_left {
            let entry = left[i];
            merged.push(entry);
            proof {
                assert(left@.take(i + 1) =~= left@.take(i as int).push(entry));
                assert forall|micros: u64| #[trigger]
                    with_latency(merged@, micros) == with_latency(left@.take(i + 1), micros)
                        + with_latency(right@.take(j as int), micros) by {
                    with_latency_of_push(before, entry, micros);
                    with_latency_of_push(left@.take(i as int), entry, micros);
                    assert(with_latency(before, micros) == with_latency(
                        left@.take(i as int),
                        micros,
                    ) + with_latency(right@.take(j as int), micros));
                    if entry.latency.micros == micros {
                        with_latency_of_absent(right@.take(j as int), micros);
                        assert(with_latency(merged@, micros) =~= with_latency(
                            left@.take(i + 1),
                            micros,
                        ) + with_latency(right@.take(j as int), micros));
                    }
                }
            }
            i = i + 1;
        } else {
            let entry = right[j];
            merged.push(entry);
            proof {
                assert(right@.take(j + 1) =~= right@.take(j as int).push(entry));
                assert forall|micros: u64| #[trigger]
                    with_latency(merged@, micros) == with_latency(left@.take(i as int), micros)
                        + with_latency(right@.take(j + 1), micros) by {
                    with_latency_of_push(before, entry, micros);
                    with_latency_of_push(right@.take(j as int), entry, micros);
                    assert(with_latency(before, micros) == with_latency(
                        left@.take(i as int),
                        micros,
                    ) + with_latency(right@.take(j as int), micros));
                    if entry.latency.micros == micros {
                        assert(with_latency(merged@, micros) =~= with_latency(
                            left@.take(i as int),
                            micros,
                        ) + with_latency(right@.take(j + 1), micros));
                    }
                }
            }
            j = j + 1;
        }
    }
    proof {
        assert(left@.take(i as int) =~= left@);
        assert(right@.take(j as int) =~= right@);
    }
    merged
}

/// Ranks the entries in `from..to`.
fn sort_range(entries: &Vec<RankedEntry>, from: usize, to: usize) -> (ranked: Vec<RankedEntry>)
    requires
        from <= to <= entries@.len(),
    ensures
        is_stable_ranking(ranked@, entries@.subrange(from as int, to as int)),
        ranked@.len() == to - from,
    decreases to - from,
{
    let ghost range = entries@.subrange(from as int, to as int);
    if to - from <= 1 {
        let mut ranked: Vec<RankedEntry> = Vec::new();
        if to - from == 1 {
            ranked.push(entries[from]);
        }
        assert(ranked@ =~= range);
        ranked
    } else {
        let middle = from + (to - from) / 2;
        let left = sort_range(entries, from, middle);
        let right = sort_range(entries, middle, to);
        let ranked = merge(&left, &right);
        proof {
            let lower = entries@.subrange(from as int, middle as int);
            let upper = entries@.subrange(middle as int, to as int);
            assert(lower + upper =~= range);
            assert forall|micros: u64| #[trigger]
                with_latency(ranked@, micros) == with_latency(range, micros) by {
                with_latency_of_concat(lower, upper, micros);
                assert(with_latency(left@, micros) == with_latency(lower, micros));
                assert(with_latency(right@, micros) == with_latency(upper, micros));
            }
        }
        ranked
    }
}

/// The addresses that answered, in ascending order of latency.
#[derive(Debug)]
pub struct RankedList {
    entries: Vec<RankedEntry>,
}

impl View for RankedList {
    type V = Seq<RankedEntry>;

    closed spec fn view(&self) -> Seq<RankedEntry> {
        self.entries@
    }
}

impl RankedList {
    #[verifier::type_invariant]
    spec fn ascends(&self) -> bool {
        sorted_by_latency(self.entries@)
    }

    /// Number of ranked addresses.
    pub fn len(&self) -> (n: usize)
        ensures
            n == self@.len(),
    {
        self.entries.len()
    }

    /// Whether no address answered.
    pub fn is_empty(&self) -> (empty: bool)
        ensures
            empty == (self@.len() == 0),
    {
        self.entries.len() == 0
    }

    /// The whole ranking, fastest first.
    pub fn entries(&self) -> (entries: &Vec<RankedEntry>)
        ensures
            entries@ == self@,
            sorted_by_latency(self@),
    {
        proof {
            use_type_invariant(self);
        }
        &self.entries
    }

    /// The first `k` entries, or all of them where there are fewer.
    pub fn top(&self, k: usize) -> (first: Vec<RankedEntry>)
        ensures
            first@ == self@.take(if k <= self@.len() {
                k as int
            } else {
                self@.len() as int
            }),
            sorted_by_latency(self@),
    {
        proof {
            use_type_invariant(self);
        }
        let count = if k <= self.entries.len() {
            k
        } else {
            self.entries.len()
        };
        let mut first: Vec<RankedEntry> = Vec::new();
        let mut at: usize = 0;
        while at < count
            invariant
                at <= count <= self.entries@.len(),
                first@ == self.entries@.take(at as int),
            decreases count - at,
        {
            first.push(self.entries[at]);
            assert(first@ =~= self.entries@.take(at + 1));
            at = at + 1;
        }
        first
    }

    /// The fastest address, none where no address answered.
    pub fn best(&self) -> (fastest: Option<RankedEntry>)
        ensures
            fastest == if self@.len() == 0 {
                None
            } else {
                Some(self@[0])
            },
            sorted_by_latency(self@),
    {
        proof {
            use_type_invariant(self);
        }
        if self.entries.len() == 0 {
            None
        } else {
            Some(self.entries[0])
        }
    }
}

impl Clone for RankedList {
    fn clone(&self) -> (copy: Self)
        ensures
            copy@ == self@,
    {
        proof {
            use_type_invariant(self);
        }
        let entries = self.top(self.entries.len());
        assert(entries@ =~= self.entries@);
        RankedList { entries }
    }
}

/// Ranks the results of a cycle: results without a latency are dropped, the
/// others are put in ascending order of latency, and results of equal latency
/// stay in the order in which they came.
pub fn rank(results: &Vec<ProbeResult>) -> (ranked: RankedList)
    ensures
        ranked@ == ranking(present(results@)),
        is_stable_ranking(ranked@, present(results@)),
        sorted_by_latency(ranked@),
        ranked@.len() == present(results@).len(),
{
    let entries = reachable(results);
    let sorted = sort_range(&entries, 0, entries.len());
    proof {
        assert(entries@.subrange(0, entries@.len() as int) =~= entries@);
        stable_ranking_is_ranking(sorted@, entries@);
    }
    RankedList { entries: sorted }
}

/// The first `n` entries of an ascending list are `n` entries, and none of
/// them has a higher latency than any entry left out.
pub proof fn top_is_lowest_prefix(ranked: Seq<RankedEntry>, n: int)
    requires
        sorted_by_latency(ranked),
        0 <= n <= ranked.len(),
    ensures
        ranked.take(n).len() == n,
        forall|i: int, j: int|
            0 <= i < n <= j < ranked.len() ==> ranked.take(n)[i].latency.micros
                <= ranked[j].latency.micros,
        sorted_by_latency(ranked.take(n)),
{
}

/// A ranking holds no entry that is not among the entries it ranks, and
/// leaves out none of them.
pub proof fn ranking_holds_the_same_entries(ranked: Seq<RankedEntry>, entries: Seq<RankedEntry>)
    requires
        is_stable_ranking(ranked, entries),
    ensures
        forall|at: int| 0 <= at < ranked.len() ==> entries.contains(#[trigger] ranked[at]),
        forall|at: int| 0 <= at < entries.len() ==> ranked.contains(#[trigger] entries[at]),
{
    assert forall|at: int| 0 <= at < ranked.len() implies entries.contains(
        #[trigger] ranked[at],
    ) by {
        let micros = ranked[at].latency.micros;
        let k = position_in_class(ranked, at);
        assert(with_latency(ranked, micros) == with_latency(entries, micros));
        let origin = origin_in_list(entries, micros, k);
        assert(entries[origin] == ranked[at]);
    }
    assert forall|at: int| 0 <= at < entries.len() implies ranked.contains(
        #[trigger] entries[at],
    ) by {
        let micros = entries[at].latency.micros;
        let k = position_in_class(entries, at);
        assert(with_latency(ranked, micros) == with_latency(entries, micros));
        let place = origin_in_list(ranked, micros, k);
        assert(ranked[place] == entries[at]);
    }
}

} // verus!
