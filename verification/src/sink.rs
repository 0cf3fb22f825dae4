//! What a cycle hands on: the text of the results file and the address to
//! publish. Writing the file and sending the update are the caller's part.

use vstd::prelude::*;
use vstd::string::*;
use crate::address::Address;
use crate::ranking::{sorted_by_latency, RankedEntry, RankedList};
use crate::text::{append_decimal, decimal};

verus! {

/// One line of the results file: the address, a comma, the latency in whole
/// milliseconds, and a line feed.
pub open spec fn artifact_line(entry: RankedEntry) -> Seq<char> {
    entry.address.text() + seq![','] + decimal(entry.latency.millis()) + seq!['\n']
}

/// The lines of some entries, one after the other.
pub open spec fn artifact_lines(entries: Seq<RankedEntry>) -> Seq<char>
    decreases entries.len(),
{
    if entries.len() == 0 {
        Seq::empty()
    } else {
        artifact_lines(entries.drop_last()) + artifact_line(entries.last())
    }
}

/// How many entries are kept of `available` when `top` are asked for.
pub open spec fn kept(top: usize, available: nat) -> int {
    if top <= available {
        top as int
    } else {
        available as int
    }
}

/// The text of the results file: the lines of the first `top` entries, or of
/// all entries where there are fewer. It replaces what the file held before.
pub open spec fn artifact_text(entries: Seq<RankedEntry>, top: usize) -> Seq<char> {
    artifact_lines(entries.take(kept(top, entries.len())))
}

/// Writes out the text of the results file for a list of entries.
pub fn top_ips_text(ips: &Vec<RankedEntry>, top: usize) -> (text: String)
    ensures
        text@ == artifact_text(ips@, top),
{
    let count = if top <= ips.len() {
        top
    } else {
        ips.len()
    };
    let mut text = String::new();
    let mut at: usize = 0;
    assert(ips@.take(0) =~= Seq::<RankedEntry>::empty());
    assert(text@ =~= artifact_lines(ips@.take(0)));
    while at < count
        invariant
            at <= count <= ips@.len(),
            text@ == artifact_lines(ips@.take(at as int)),
        decreases count - at,
    {
        let ghost before = text@;
        let entry = ips[at];
        let address = entry.address.to_text();
        text.append(address.as_str());
        text.append(",");
        append_decimal(&mut text, entry.latency.as_millis());
        text.append("\n");
        proof {
            reveal_strlit(",");
            reveal_strlit("\n");
            assert(ips@.take(at + 1).drop_last() =~= ips@.take(at as int));
            assert(ips@.take(at + 1).last() == entry);
            assert(text@ =~= before + artifact_line(entry));
        }
        at = at + 1;
    }
    text
}

/// The address to publish: the fastest one, where publishing is enabled and
/// an address answered; otherwise none, and nothing is published.
pub open spec fn publish_target(update_dns: bool, ranked: Seq<RankedEntry>) -> Option<Address> {
    if update_dns && ranked.len() > 0 {
        Some(ranked[0].address)
    } else {
        None
    }
}

/// What one cycle hands on after ranking.
#[derive(Debug, Clone)]
pub struct SinkPlan {
    /// The new content of the results file.
    pub artifact: String,
    /// The address the DNS record is to point at, if it is to change.
    pub publish: Option<Address>,
}

/// Decides what is written and what is published for a ranking.
pub fn plan_sink(ranked: &RankedList, top: usize, update_dns: bool) -> (plan: SinkPlan)
    ensures
        plan.artifact@ == artifact_text(ranked@, top),
        plan.publish == publish_target(update_dns, ranked@),
        sorted_by_latency(ranked@),
{
    let artifact = top_ips_text(ranked.entries(), top);
    let publish = if update_dns {
        match ranked.best() {
            Some(entry) => Some(entry.address),
            None => None,
        }
    } else {
        None
    };
    SinkPlan { artifact, publish }
}

/// The file holds one line for each entry kept, in the order of the ranking.
pub proof fn artifact_keeps_ranking_order(entries: Seq<RankedEntry>, count: int)
    requires
        0 < count <= entries.len(),
    ensures
        artifact_lines(entries.take(count)) == artifact_lines(entries.take(count - 1))
            + artifact_line(entries[count - 1]),
{
    assert(entries.take(count).drop_last() =~= entries.take(count - 1));
}

/// Where no address answered the file is empty and nothing is published.
pub proof fn empty_ranking_publishes_nothing(top: usize, update_dns: bool)
    ensures
        artifact_text(Seq::<RankedEntry>::empty(), top) == Seq::<char>::empty(),
        publish_target(update_dns, Seq::<RankedEntry>::empty()) is None,
{
    assert(Seq::<RankedEntry>::empty().take(0) =~= Seq::<RankedEntry>::empty());
}

} // verus!
