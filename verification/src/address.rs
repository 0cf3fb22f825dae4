//! Network addresses as numbers, and the text they are written as.

use vstd::prelude::*;
use vstd::string::*;
use crate::text::{append_decimal, append_hexadecimal, decimal, hexadecimal};

verus! {

/// A single network address: 32 bits of IPv4 or 128 bits of IPv6, most
/// significant bit first.
#[derive(Debug, Clone, Copy, PartialEq, Eq, Hash, Structural)]
pub enum Address {
    V4(u32),
    V6(u128),
}

/// An IPv4 address as four decimal numbers separated by dots.
pub open spec fn dotted_quad(bits: nat) -> Seq<char> {
    decimal(bits / 0x100_0000 % 256) + seq!['.'] + decimal(bits / 0x1_0000 % 256) + seq!['.']
        + decimal(bits / 0x100 % 256) + seq!['.'] + decimal(bits % 256)
}

/// The lowest `count` 16-bit groups of a number, most significant first.
pub open spec fn groups_of(bits: nat, count: nat) -> Seq<nat>
    decreases count,
{
    if count == 0 {
        Seq::empty()
    } else {
        groups_of(bits / 0x1_0000, (count - 1) as nat).push(bits % 0x1_0000)
    }
}

/// How many zero groups stand in a row from position `at` on.
pub open spec fn zero_run(groups: Seq<nat>, at: int) -> nat
    decreases groups.len() - at,
{
    if 0 <= at < groups.len() && groups[at] == 0 {
        1 + zero_run(groups, at + 1)
    } else {
        0
    }
}

/// Start and length of the longest row of zero groups at or after `from`, the
/// leftmost of them where several are as long; length 0 where no group is zero.
pub open spec fn longest_zero_run(groups: Seq<nat>, from: int) -> (int, nat)
    decreases groups.len() - from,
{
    if 0 <= from < groups.len() {
        let later = longest_zero_run(groups, from + 1);
        let here = zero_run(groups, from);
        if here > 0 && here >= later.1 {
            (from, here)
        } else {
            later
        }
    } else {
        (from, 0)
    }
}

/// The row that `longest_zero_run` names is a row of zero groups that starts at
/// or after `from`; no row that starts at or after `from` is longer, and none
/// that starts earlier than it is as long.
pub proof fn longest_zero_run_is_leftmost_longest(groups: Seq<nat>, from: int, at: int)
    requires
        0 <= from <= at < groups.len(),
    ensures
        zero_run(groups, at) <= longest_zero_run(groups, from).1,
        longest_zero_run(groups, from).1 > 0 ==> {
            &&& from <= longest_zero_run(groups, from).0 < groups.len()
            &&& zero_run(groups, longest_zero_run(groups, from).0) == longest_zero_run(groups, from).1
            &&& at < longest_zero_run(groups, from).0 ==> zero_run(groups, at) < longest_zero_run(
                groups,
                from,
            ).1
        },
    decreases groups.len() - from,
{
    if from < at {
        longest_zero_run_is_leftmost_longest(groups, from + 1, at);
    } else if from + 1 < groups.len() {
        longest_zero_run_is_leftmost_longest(groups, from + 1, from + 1);
    }
}

/// Groups in base sixteen with a colon between neighbours.
pub open spec fn joined_groups(groups: Seq<nat>) -> Seq<char>
    decreases groups.len(),
{
    if groups.len() == 0 {
        Seq::empty()
    } else if groups.len() == 1 {
        hexadecimal(groups[0])
    } else {
        joined_groups(groups.drop_last()) + seq![':'] + hexadecimal(groups.last())
    }
}

/// Whether eight groups hold an IPv4 address mapped into IPv6.
pub open spec fn is_mapped_v4(groups: Seq<nat>) -> bool {
    groups.len() == 8 && groups[0] == 0 && groups[1] == 0 && groups[2] == 0 && groups[3] == 0
        && groups[4] == 0 && groups[5] == 0xffff
}

/// An IPv6 address in its canonical text: groups in lower-case base sixteen
/// without leading zeros, the longest row of two or more zero groups (the
/// leftmost such) shortened to `::`, and a mapped IPv4 address in dotted form.
pub open spec fn canonical_v6(bits: nat) -> Seq<char> {
    let groups = groups_of(bits, 8);
    if is_mapped_v4(groups) {
        "::ffff:"@ + dotted_quad(groups[6] * 0x1_0000 + groups[7])
    } else {
        let (start, length) = longest_zero_run(groups, 0);
        if length >= 2 {
            joined_groups(groups.take(start)) + "::"@ + joined_groups(groups.skip(start + length))
        } else {
            joined_groups(groups)
        }
    }
}

impl Address {
    /// The address as it is written in files, commands and requests.
    pub open spec fn text(self) -> Seq<char> {
        match self {
            Address::V4(bits) => dotted_quad(bits as nat),
            Address::V6(bits) => canonical_v6(bits as nat),
        }
    }

    /// Writes the address out as text.
    pub fn to_text(&self) -> (r: String)
        ensures
            r@ == self.text(),
    {
        let mut out = String::new();
        match self {
            Address::V4(bits) => {
                append_dotted_quad(&mut out, *bits);
                assert(out@ =~= dotted_quad(*bits as nat));
            },
            Address::V6(bits) => {
                append_canonical_v6(&mut out, *bits);
                assert(out@ =~= canonical_v6(*bits as nat));
            },
        }
        out
    }
}

/// Appends an IPv4 address in dotted form.
pub fn append_dotted_quad(out: &mut String, bits: u32)
    ensures
        final(out)@ == old(out)@ + dotted_quad(bits as nat),
{
    proof {
        reveal_strlit(".");
    }
    append_decimal(out, (bits / 0x100_0000 % 256) as u64);
    out.append(".");
    append_decimal(out, (bits / 0x1_0000 % 256) as u64);
    out.append(".");
    append_decimal(out, (bits / 0x100 % 256) as u64);
    out.append(".");
    append_decimal(out, (bits % 256) as u64);
    assert(out@ =~= old(out)@ + dotted_quad(bits as nat));
}

/// Splits a number into its lowest `count` 16-bit groups.
fn push_groups(groups: &mut Vec<u16>, bits: u128, count: usize)
    ensures
        final(groups)@.len() == old(groups)@.len() + count,
        final(groups)@.take(old(groups)@.len() as int) == old(groups)@,
        final(groups)@.skip(old(groups)@.len() as int).map_values(|g: u16| g as nat) == groups_of(
            bits as nat,
            count as nat,
        ),
    decreases count,
{
    if count > 0 {
        push_groups(groups, bits / 0x1_0000, count - 1);
        let ghost before = groups@;
        groups.push((bits % 0x1_0000) as u16);
        proof {
            let base = old(groups)@.len() as int;
            assert(groups@.take(base) =~= before.take(base));
            assert(groups@.skip(base).map_values(|g: u16| g as nat) =~= before.skip(base).map_values(
                |g: u16| g as nat,
            ).push((bits % 0x1_0000) as nat));
        }
    } else {
        assert(groups@.take(old(groups)@.len() as int) =~= old(groups)@);
        assert(groups@.skip(old(groups)@.len() as int).map_values(|g: u16| g as nat) =~= groups_of(
            bits as nat,
            0,
        ));
    }
}

/// The eight groups of an IPv6 address.
fn groups_of_v6(bits: u128) -> (groups: Vec<u16>)
    ensures
        groups@.map_values(|g: u16| g as nat) == groups_of(bits as nat, 8),
        groups@.len() == 8,
{
    let mut groups: Vec<u16> = Vec::new();
    push_groups(&mut groups, bits, 8);
    assert(groups@.skip(0) =~= groups@);
    groups
}

/// Finds the longest row of zero groups, the leftmost where several are as long.
fn find_longest_zero_run(groups: &Vec<u16>) -> (found: (usize, usize))
    ensures
        (found.0 as int, found.1 as nat) == longest_zero_run(groups@.map_values(|g: u16| g as nat), 0),
        found.0 + found.1 <= groups@.len(),
{
    let ghost model = groups@.map_values(|g: u16| g as nat);
    let n = groups.len();
    let mut at: usize = n;
    let mut here: usize = 0;
    let mut best_start: usize = n;
    let mut best_length: usize = 0;
    while at > 0
        invariant
            at <= n,
            n == groups@.len(),
            model == groups@.map_values(|g: u16| g as nat),
            here as nat == zero_run(model, at as int),
            at + here <= n,
            (best_start as int, best_length as nat) == longest_zero_run(model, at as int),
            best_start + best_length <= n,
        decreases at,
    {
        at = at - 1;
        if groups[at] == 0 {
            here = here + 1;
        } else {
            here = 0;
        }
        if here > 0 && here >= best_length {
            best_start = at;
            best_length = here;
        }
    }
    (best_start, best_length)
}

/// Appends groups `from..to` in base sixteen with colons between them.
fn append_joined_groups(out: &mut String, groups: &Vec<u16>, from: usize, to: usize)
    requires
        from <= to <= groups@.len(),
    ensures
        final(out)@ == old(out)@ + joined_groups(
            groups@.map_values(|g: u16| g as nat).subrange(from as int, to as int),
        ),
{
    let ghost model = groups@.map_values(|g: u16| g as nat);
    let mut at: usize = from;
    assert(model.subrange(from as int, from as int) =~= Seq::<nat>::empty());
    assert(out@ =~= old(out)@ + joined_groups(model.subrange(from as int, at as int)));
    while at < to
        invariant
            from <= at <= to <= groups@.len(),
            model == groups@.map_values(|g: u16| g as nat),
            out@ == old(out)@ + joined_groups(model.subrange(from as int, at as int)),
        decreases to - at,
    {
        let ghost before = out@;
        if at > from {
            out.append(":");
        }
        append_hexadecimal(out, groups[at] as u64);
        proof {
            reveal_strlit(":");
            let shorter = model.subrange(from as int, at as int);
            let longer = model.subrange(from as int, at + 1);
            assert(longer.drop_last() =~= shorter);
            assert(longer.last() == groups@[at as int] as nat);
            if at == from {
                assert(shorter =~= Seq::<nat>::empty());
                assert(out@ =~= old(out)@ + joined_groups(longer));
            } else {
                assert(out@ =~= before + seq![':'] + hexadecimal(groups@[at as int] as nat));
                assert(out@ =~= old(out)@ + joined_groups(longer));
            }
        }
        at = at + 1;
    }
}

/// Appends an IPv6 address in its canonical text.
pub fn append_canonical_v6(out: &mut String, bits: u128)
    ensures
        final(out)@ == old(out)@ + canonical_v6(bits as nat),
{
    let groups = groups_of_v6(bits);
    let ghost model = groups@.map_values(|g: u16| g as nat);
    if groups[0] == 0 && groups[1] == 0 && groups[2] == 0 && groups[3] == 0 && groups[4] == 0
        && groups[5] == 0xffff {
        assert(is_mapped_v4(model));
        out.append("::ffff:");
        let low: u32 = (groups[6] as u32) * 0x1_0000 + (groups[7] as u32);
        append_dotted_quad(out, low);
        assert(out@ =~= old(out)@ + canonical_v6(bits as nat));
    } else {
        assert(!is_mapped_v4(model));
        let (start, length) = find_longest_zero_run(&groups);
        if length >= 2 {
            append_joined_groups(out, &groups, 0, start);
            out.append("::");
            append_joined_groups(out, &groups, start + length, 8);
            proof {
                assert(model.subrange(0, start as int) =~= model.take(start as int));
                assert(model.subrange(start + length, 8) =~= model.skip(start + length));
                assert(out@ =~= old(out)@ + canonical_v6(bits as nat));
            }
        } else {
            append_joined_groups(out, &groups, 0, 8);
            proof {
                assert(model.subrange(0, 8) =~= model);
                assert(out@ =~= old(out)@ + canonical_v6(bits as nat));
            }
        }
    }
}

} // verus!
