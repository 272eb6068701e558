//! Listing saved conversations: the order they are shown in.

use vstd::prelude::*;
use crate::chat::{lemma_lex_total, lemma_lex_trans, lex_less, lex_lt};

verus! {

/// `order` lists the conversations with creation times `keys` newest first:
/// each index once, later times (by string order, which ISO-8601 times sort
/// by) before earlier ones, and equal times in their original order.
pub open spec fn newest_first(keys: Seq<Seq<char>>, order: Seq<usize>) -> bool {
    &&& order.len() == keys.len()
    &&& forall|a: int| 0 <= a < order.len() ==> #[trigger] order[a] < keys.len()
    &&& forall|a: int, b: int| 0 <= a < b < order.len() ==> #[trigger] order[a] != #[trigger] order[b]
    &&& forall|a: int, b: int| 0 <= a < b < order.len()
        ==> !lex_lt(#[trigger] keys[order[a] as int], #[trigger] keys[order[b] as int])
    &&& forall|a: int, b: int| 0 <= a < b < order.len() && keys[order[a] as int] == keys[order[b] as int]
        ==> #[trigger] order[a] < #[trigger] order[b]
}

/// The order to list conversations in, given their creation times: newest
/// first, ties kept in the order given (a stable sort).
pub fn newest_first_order(created: &Vec<String>) -> (r: Vec<usize>)
    ensures
        newest_first(created@.map_values(|s: String| s@), r@),
{
    let ghost keys = created@.map_values(|s: String| s@);
    let n = created.len();
    let mut order: Vec<usize> = Vec::new();
    let mut i: usize = 0;
    while i < n
        invariant
            i <= n,
            n == keys.len(),
            keys == created@.map_values(|s: String| s@),
            order@.len() == i,
            forall|a: int| 0 <= a < order@.len() ==> #[trigger] order@[a] < i,
            forall|a: int, b: int| 0 <= a < b < order@.len() ==> #[trigger] order@[a] != #[trigger] order@[b],
            forall|a: int, b: int| 0 <= a < b < order@.len()
                ==> !lex_lt(#[trigger] keys[order@[a] as int], #[trigger] keys[order@[b] as int]),
            forall|a: int, b: int| 0 <= a < b < order@.len() && keys[order@[a] as int] == keys[order@[b] as int]
                ==> #[trigger] order@[a] < #[trigger] order@[b],
        decreases n - i,
    {
        let ghost ki = keys[i as int];
        let mut p: usize = 0;
        while p < order.len() && !lex_less(created[order[p]].as_str(), created[i].as_str())
            invariant
                p <= order@.len(),
                i < n,
                n == keys.len(),
                keys == created@.map_values(|s: String| s@),
                ki == keys[i as int],
                forall|a: int| 0 <= a < order@.len() ==> #[trigger] order@[a] < i,
                forall|a: int| 0 <= a < p ==> !lex_lt(#[trigger] keys[order@[a] as int], ki),
            decreases order@.len() - p,
        {
            p = p + 1;
        }
        let ghost old_order = order@;
        proof {
            // Past `p` every time is earlier than the new one.
            assert forall|q: int| p <= q < old_order.len() implies lex_lt(#[trigger] keys[old_order[q] as int], ki) by {
                let kp = keys[old_order[p as int] as int];
                let kq = keys[old_order[q] as int];
                lemma_lex_total(kp, ki);
                if q > p {
                    lemma_lex_total(kq, kp);
                    if kq != kp {
                        lemma_lex_trans(kq, kp, ki);
                    }
                }
            }
        }
        order.insert(p, i);
        proof {
            let o = order@;
            assert forall|a: int| 0 <= a < o.len() implies #[trigger] o[a] < i + 1 by {
                if a < p { assert(o[a] == old_order[a]); } else if a > p { assert(o[a] == old_order[a - 1]); }
            }
            assert forall|a: int, b: int| 0 <= a < b < o.len() implies #[trigger] o[a] != #[trigger] o[b] by {
                if a < p { assert(o[a] == old_order[a]); } else if a > p { assert(o[a] == old_order[a - 1]); }
                if b < p { assert(o[b] == old_order[b]); } else if b > p { assert(o[b] == old_order[b - 1]); }
            }
            assert forall|a: int, b: int| 0 <= a < b < o.len()
                implies !lex_lt(#[trigger] keys[o[a] as int], #[trigger] keys[o[b] as int]) by {
                if a < p { assert(o[a] == old_order[a]); } else if a > p { assert(o[a] == old_order[a - 1]); }
                if b < p { assert(o[b] == old_order[b]); } else if b > p { assert(o[b] == old_order[b - 1]); }
                if a == p {
                    lemma_lex_total(keys[o[b] as int], ki);
                } else if b == p {
                    assert(!lex_lt(keys[old_order[a] as int], ki));
                }
            }
            assert forall|a: int, b: int| 0 <= a < b < o.len() && keys[o[a] as int] == keys[o[b] as int]
                implies #[trigger] o[a] < #[trigger] o[b] by {
                if a < p { assert(o[a] == old_order[a]); } else if a > p { assert(o[a] == old_order[a - 1]); }
                if b < p { assert(o[b] == old_order[b]); } else if b > p { assert(o[b] == old_order[b - 1]); }
                if a == p {
                    lemma_lex_total(keys[o[b] as int], ki);
                }
            }
        }
        i = i + 1;
    }
    order
}

} // verus!
