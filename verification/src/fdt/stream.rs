//! The token stream of a device-tree structure block, as a value.
//!
//! A stream is a sequence of `Begin`, `Prop` and `End` tokens. A
//! well-formed stream encodes one node: its `Begin`, then properties
//! and child nodes, then its `End`. This module defines that grammar
//! and proves the shape every consumer leans on: the nesting depth of
//! a well-formed stream returns to zero exactly once, at its end.

use vstd::prelude::*;

verus! {

/// One structure-block token, with its strings resolved.
pub enum TokenModel {
    /// A node opens, with its name.
    Begin { name: Seq<u8> },
    /// A property of the open node.
    Prop { name: Seq<u8>, value: Seq<u8> },
    /// The open node closes.
    End,
}

/// How one token changes the nesting depth.
pub open spec fn token_delta(t: TokenModel) -> int {
    match t {
        TokenModel::Begin { .. } => 1,
        TokenModel::Prop { .. } => 0,
        TokenModel::End => -1,
    }
}

/// Nesting depth after the first `k` tokens: `Begin`s minus `End`s.
pub open spec fn depth_through(ts: Seq<TokenModel>, k: int) -> int
    decreases k,
{
    if k <= 0 {
        0
    } else {
        depth_through(ts, k - 1) + token_delta(ts[k - 1])
    }
}

/// Parse one node starting at `i`: a `Begin`, then its body. Returns
/// the index just past the node's `End`, or `None` when no node
/// starts at `i`.
pub open spec fn parse_node(ts: Seq<TokenModel>, i: int) -> Option<int>
    decreases ts.len() - i, 0int
        when 0 <= i <= ts.len()
{
    if i < ts.len() && (ts[i] matches TokenModel::Begin { .. }) {
        parse_items(ts, i + 1)
    } else {
        None
    }
}

/// Parse a node body starting at `i`: properties and child nodes in
/// any order, closed by the owning node's `End`. Returns the index
/// just past that `End`.
pub open spec fn parse_items(ts: Seq<TokenModel>, i: int) -> Option<int>
    decreases ts.len() - i, 1int
        when 0 <= i <= ts.len()
{
    if i >= ts.len() {
        None
    } else {
        match ts[i] {
            TokenModel::End => Some(i + 1),
            TokenModel::Prop { .. } => parse_items(ts, i + 1),
            TokenModel::Begin { .. } => {
                match parse_node(ts, i) {
                    Some(j) => if i < j <= ts.len() {
                        parse_items(ts, j)
                    } else {
                        None
                    },
                    None => None,
                }
            },
        }
    }
}

/// A well-formed stream is exactly one node.
pub open spec fn well_formed(ts: Seq<TokenModel>) -> bool {
    parse_node(ts, 0) == Some(ts.len() as int)
}

/// Depth counted over the segment `[i, k)`.
pub open spec fn depth_seg(ts: Seq<TokenModel>, i: int, k: int) -> int {
    depth_through(ts, k) - depth_through(ts, i)
}

/// A parsed node body spans a segment whose running depth never drops
/// below zero before its closing `End`, and ends one below where it
/// began.
proof fn lemma_items_depth(ts: Seq<TokenModel>, i: int, j: int)
    requires
        0 <= i <= ts.len(),
        parse_items(ts, i) == Some(j),
    ensures
        i < j <= ts.len(),
        depth_seg(ts, i, j) == -1,
        forall|k: int| i <= k < j ==> depth_seg(ts, i, k) >= 0,
    decreases ts.len() - i, 1int,
{
    match ts[i] {
        TokenModel::End => {
            assert(depth_through(ts, i + 1) == depth_through(ts, i) - 1);
        },
        TokenModel::Prop { .. } => {
            lemma_items_depth(ts, i + 1, j);
            assert(depth_through(ts, i + 1) == depth_through(ts, i));
            assert forall|k: int| i <= k < j implies depth_seg(ts, i, k) >= 0 by {
                if k > i {
                    assert(depth_seg(ts, i + 1, k) >= 0);
                }
            }
        },
        TokenModel::Begin { .. } => {
            let m = parse_node(ts, i)->0;
            lemma_node_depth(ts, i, m);
            lemma_items_depth(ts, m, j);
            assert forall|k: int| i <= k < j implies depth_seg(ts, i, k) >= 0 by {
                if k < m {
                    assert(depth_seg(ts, i, k) >= 1 || k == i);
                } else {
                    assert(depth_seg(ts, m, k) >= 0);
                    assert(depth_seg(ts, i, m) == 0);
                }
            }
        },
    }
}

/// A parsed node spans a balanced segment: depth returns to its
/// starting value exactly at the node's end, and stays strictly above
/// it inside.
proof fn lemma_node_depth(ts: Seq<TokenModel>, i: int, j: int)
    requires
        0 <= i <= ts.len(),
        parse_node(ts, i) == Some(j),
    ensures
        i < j <= ts.len(),
        depth_seg(ts, i, j) == 0,
        forall|k: int| i < k < j ==> depth_seg(ts, i, k) >= 1,
    decreases ts.len() - i, 0int,
{
    lemma_items_depth(ts, i + 1, j);
    assert(depth_through(ts, i + 1) == depth_through(ts, i) + 1);
    assert forall|k: int| i < k < j implies depth_seg(ts, i, k) >= 1 by {
        if k > i + 1 {
            assert(depth_seg(ts, i + 1, k) >= 0);
        }
    }
}

/// In a well-formed stream the nesting depth returns to zero exactly
/// once: it is strictly positive after every proper nonempty prefix
/// and zero exactly at the stream's end.
pub proof fn lemma_depth_returns_to_zero_once(ts: Seq<TokenModel>)
    requires
        well_formed(ts),
    ensures
        depth_through(ts, ts.len() as int) == 0,
        forall|k: int| 0 < k < ts.len() ==> depth_through(ts, k) >= 1,
{
    lemma_node_depth(ts, 0, ts.len() as int);
    assert(depth_through(ts, 0) == 0);
    assert forall|k: int| 0 < k < ts.len() implies depth_through(ts, k) >= 1 by {
        assert(depth_seg(ts, 0, k) >= 1);
    }
}

} // verus!
