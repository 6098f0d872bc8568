//! Loop brackets: which `]` closes which `[`, and the two jump tables that
//! record it.
//!
//! Matching is defined by nesting depth alone. The tables are built in one
//! pass with a stack, and the pass is proved to record exactly the matched
//! pairs. A bracket without a partner is not an error here: it is simply
//! absent from both tables.

use crate::instruction::Instruction;
use crate::program::Program;
use std::collections::HashMap;
use vstd::prelude::*;

verus! {

/// What an instruction adds to the nesting depth.
pub open spec fn weight(ins: Instruction) -> int {
    match ins {
        Instruction::While => 1,
        Instruction::WhileEnd => -1,
        _ => 0,
    }
}

/// Loop starts minus loop ends among the instructions at `from..to`.
pub open spec fn depth(p: Seq<Instruction>, from: int, to: int) -> int
    decreases to - from,
{
    if to <= from {
        0
    } else {
        depth(p, from, to - 1) + weight(p[to - 1])
    }
}

/// The nesting depth at position `at`, counted from just behind the loop
/// start at `open`.
pub open spec fn rise(p: Seq<Instruction>, open: int, at: int) -> int {
    depth(p, open + 1, at)
}

/// The loop started at `open` is still open just before position `upto`:
/// the depth behind `open` has not dropped below zero anywhere up to there.
pub open spec fn open_until(p: Seq<Instruction>, open: int, upto: int) -> bool {
    forall|k: int| open < k <= upto ==> #[trigger] rise(p, open, k) >= 0
}

/// The loop end at `close` is the partner of the loop start at `open`: what
/// lies between them is balanced.
pub open spec fn matched(p: Seq<Instruction>, open: int, close: int) -> bool {
    &&& 0 <= open < close < p.len()
    &&& p[open] == Instruction::While
    &&& p[close] == Instruction::WhileEnd
    &&& rise(p, open, close) == 0
    &&& open_until(p, open, close)
}

/// The position of the loop end that closes the loop start at `open`, if
/// there is one.
pub open spec fn close_of(p: Seq<Instruction>, open: int) -> Option<int> {
    if exists|c: int| matched(p, open, c) {
        Some(choose|c: int| matched(p, open, c))
    } else {
        None
    }
}

/// The position of the loop start that the loop end at `close` closes, if
/// there is one.
pub open spec fn open_of(p: Seq<Instruction>, close: int) -> Option<int> {
    if exists|o: int| matched(p, o, close) {
        Some(choose|o: int| matched(p, o, close))
    } else {
        None
    }
}

/// The depth over a range is the sum of the depths over its two parts.
pub proof fn lemma_depth_split(p: Seq<Instruction>, from: int, mid: int, to: int)
    requires
        from <= mid <= to,
    ensures
        depth(p, from, to) == depth(p, from, mid) + depth(p, mid, to),
    decreases to - mid,
{
    if mid < to {
        lemma_depth_split(p, from, mid, to - 1);
    }
}

/// A loop start has at most one partner.
pub proof fn lemma_close_unique(p: Seq<Instruction>, open: int, c1: int, c2: int)
    requires
        matched(p, open, c1),
        matched(p, open, c2),
    ensures
        c1 == c2,
{
    if c1 < c2 {
        assert(rise(p, open, c1 + 1) == -1);
    } else if c2 < c1 {
        assert(rise(p, open, c2 + 1) == -1);
    }
}

/// A loop end has at most one partner.
pub proof fn lemma_open_unique(p: Seq<Instruction>, o1: int, o2: int, close: int)
    requires
        matched(p, o1, close),
        matched(p, o2, close),
    ensures
        o1 == o2,
{
    if o1 < o2 {
        lemma_depth_split(p, o1 + 1, o2 + 1, close);
        assert(depth(p, o1 + 1, o2 + 1) == depth(p, o1 + 1, o2) + 1);
        assert(rise(p, o1, o2) >= 0);
    } else if o2 < o1 {
        lemma_depth_split(p, o2 + 1, o1 + 1, close);
        assert(depth(p, o2 + 1, o1 + 1) == depth(p, o2 + 1, o1) + 1);
        assert(rise(p, o2, o1) >= 0);
    }
}

/// The partner of a matched loop start is its `close_of`.
pub proof fn lemma_close_of(p: Seq<Instruction>, open: int, close: int)
    requires
        matched(p, open, close),
    ensures
        close_of(p, open) == Some(close),
{
    let c = choose|c: int| matched(p, open, c);
    lemma_close_unique(p, open, c, close);
}

/// The partner of a matched loop end is its `open_of`.
pub proof fn lemma_open_of(p: Seq<Instruction>, open: int, close: int)
    requires
        matched(p, open, close),
    ensures
        open_of(p, close) == Some(open),
{
    let o = choose|o: int| matched(p, o, close);
    lemma_open_unique(p, o, open, close);
}

/// Every loop start before `upto` that is still open there is on the stack.
pub open spec fn holds_open(p: Seq<Instruction>, stack: Seq<usize>, upto: int) -> bool {
    forall|o: int|
        0 <= o < upto && p[o] == Instruction::While && #[trigger] open_until(p, o, upto)
            ==> exists|s: int| 0 <= s < stack.len() && stack[s] == o
}

/// A stack that holds every loop start still open before `upto` holds every
/// one still open before `upto + 1` as well, if what is still open there
/// stayed in its place on the stack and a loop start at `upto` is on top.
pub proof fn lemma_open_carried(
    p: Seq<Instruction>,
    before: Seq<usize>,
    after: Seq<usize>,
    upto: int,
)
    requires
        holds_open(p, before, upto),
        forall|s: int|
            0 <= s < before.len() && open_until(p, (#[trigger] before[s]) as int, upto + 1)
                ==> s < after.len() && after[s] == before[s],
        p[upto] == Instruction::While ==> after.len() > 0 && after.last() == upto,
    ensures
        holds_open(p, after, upto + 1),
{
    assert forall|o: int|
        0 <= o < upto + 1 && p[o] == Instruction::While && #[trigger] open_until(
            p,
            o,
            upto + 1,
        ) implies exists|s: int| 0 <= s < after.len() && after[s] == o by {
        if o < upto {
            assert(open_until(p, o, upto));
            let s = choose|s: int| 0 <= s < before.len() && before[s] == o;
            assert(after[s] == o);
        } else {
            assert(after[after.len() - 1] == o);
        }
    }
}

/// The two jump tables of a program: from each matched loop start to its
/// loop end, and back.
#[derive(Debug)]
pub struct JumpTable {
    open_to_close: HashMap<usize, usize>,
    close_to_open: HashMap<usize, usize>,
}

impl JumpTable {
    /// The table from loop starts to loop ends.
    pub closed spec fn forward(&self) -> Map<usize, usize> {
        self.open_to_close@
    }

    /// The table from loop ends to loop starts.
    pub closed spec fn backward(&self) -> Map<usize, usize> {
        self.close_to_open@
    }

    /// The tables hold exactly the matched pairs among the first `upto`
    /// instructions of `p`.
    pub open spec fn resolves_prefix(&self, p: Seq<Instruction>, upto: int) -> bool {
        &&& forall|o: usize, c: usize| #[trigger]
            self.forward().contains_pair(o, c) <==> matched(p, o as int, c as int) && c < upto
        &&& forall|o: usize, c: usize| #[trigger]
            self.backward().contains_pair(c, o) <==> matched(p, o as int, c as int) && c < upto
    }

    /// The tables hold exactly the matched pairs of `p`, in both directions.
    pub open spec fn resolves(&self, p: Seq<Instruction>) -> bool {
        self.resolves_prefix(p, p.len() as int)
    }

    /// Builds the jump tables of a program in one pass from left to right.
    ///
    /// A loop start is pushed on a stack. A loop end pops the stack and is
    /// recorded with what it popped; on an empty stack it is left out.
    /// Loop starts still on the stack at the end are left out too.
    pub fn build(program: &Program) -> (table: JumpTable)
        ensures
            table.resolves(program@),
    {
        broadcast use vstd::std_specs::hash::group_hash_axioms;

        let ghost p = program@;
        let n = program.len();
        let mut table = JumpTable { open_to_close: HashMap::new(), close_to_open: HashMap::new() };
        let mut open_stack: Vec<usize> = Vec::new();
        let mut i: usize = 0;
        while i < n
            invariant
                p == program@,
                n == p.len(),
                i <= n,
                table.resolves_prefix(p, i as int),
                forall|s: int|
                    0 <= s < open_stack@.len() ==> {
                        &&& (#[trigger] open_stack@[s]) < i
                        &&& p[open_stack@[s] as int] == Instruction::While
                        &&& open_until(p, open_stack@[s] as int, i as int)
                        &&& rise(p, open_stack@[s] as int, i as int) == open_stack@.len() - 1 - s
                    },
                holds_open(p, open_stack@, i as int),
            decreases n - i,
        {
            let instruction = program.get(i).unwrap();
            let ghost old_stack = open_stack@;
            let ghost old_table = table;
            if instruction == Instruction::While {
                open_stack.push(i);
                proof {
                    lemma_open_carried(p, old_stack, open_stack@, i as int);
                }
            } else if instruction == Instruction::WhileEnd {
                match open_stack.pop() {
                    Some(open) => {
                        proof {
                            assert(old_stack[old_stack.len() - 1] == open);
                            assert(matched(p, open as int, i as int));
                            // `open` had no partner so far, and `i` is new.
                            assert forall|c: usize| !old_table.forward().contains_pair(open, c) by {
                                if old_table.forward().contains_pair(open, c) {
                                    assert(rise(p, open as int, c + 1) == -1);
                                }
                            }
                            assert(!old_table.forward().contains_key(open)) by {
                                if old_table.forward().contains_key(open) {
                                    assert(old_table.forward().contains_pair(
                                        open,
                                        old_table.forward()[open],
                                    ));
                                }
                            }
                            assert(!old_table.backward().contains_key(i)) by {
                                if old_table.backward().contains_key(i) {
                                    assert(old_table.backward().contains_pair(
                                        i,
                                        old_table.backward()[i],
                                    ));
                                }
                            }
                        }
                        table.open_to_close.insert(open, i);
                        table.close_to_open.insert(i, open);
                        proof {
                            // Any loop start that `i` closes is on the stack, at the top.
                            assert forall|o: usize| matched(p, o as int, i as int) implies o
                                == open by {
                                assert(open_until(p, o as int, i as int));
                                let s = choose|s: int|
                                    0 <= s < old_stack.len() && old_stack[s] == o;
                                assert(old_stack[s] == o);
                            }
                            assert forall|o: usize, c: usize| #[trigger]
                                table.forward().contains_pair(o, c) <==> matched(
                                    p,
                                    o as int,
                                    c as int,
                                ) && c < i + 1 by {
                                if o == open {
                                    assert(!old_table.forward().contains_pair(o, c));
                                    if matched(p, o as int, c as int) {
                                        lemma_close_unique(p, o as int, c as int, i as int);
                                    }
                                } else {
                                    assert(table.forward().contains_pair(o, c)
                                        == old_table.forward().contains_pair(o, c));
                                }
                            }
                            assert forall|o: usize, c: usize| #[trigger]
                                table.backward().contains_pair(c, o) <==> matched(
                                    p,
                                    o as int,
                                    c as int,
                                ) && c < i + 1 by {
                                if c == i {
                                    assert(!old_table.backward().contains_pair(c, o));
                                } else {
                                    assert(table.backward().contains_pair(c, o)
                                        == old_table.backward().contains_pair(c, o));
                                }
                            }
                            // The loop start that was popped is closed at `i`.
                            assert(rise(p, open as int, i + 1) == -1);
                            lemma_open_carried(p, old_stack, open_stack@, i as int);
                        }
                    },
                    None => {
                        proof {
                            assert forall|o: usize| !matched(p, o as int, i as int) by {
                                if matched(p, o as int, i as int) {
                                    assert(open_until(p, o as int, i as int));
                                }
                            }
                            lemma_open_carried(p, old_stack, open_stack@, i as int);
                        }
                    },
                }
            } else {
                proof {
                    lemma_open_carried(p, old_stack, open_stack@, i as int);
                }
            }
            i += 1;
        }
        table
    }

    /// In tables that resolve `p`, looking up a loop start finds its partner
    /// as `close_of` defines it, and finds nothing where it has none.
    pub proof fn lemma_forward(&self, p: Seq<Instruction>, open: usize)
        requires
            self.resolves(p),
            p.len() <= usize::MAX,
        ensures
            self.forward().contains_key(open) ==> close_of(p, open as int) == Some(
                self.forward()[open] as int,
            ) && self.forward()[open] < p.len(),
            !self.forward().contains_key(open) ==> close_of(p, open as int) is None,
    {
        if self.forward().contains_key(open) {
            let close = self.forward()[open];
            assert(self.forward().contains_pair(open, close));
            lemma_close_of(p, open as int, close as int);
        } else {
            assert forall|c: int| !matched(p, open as int, c) by {
                if matched(p, open as int, c) {
                    assert(self.forward().contains_pair(open, c as usize));
                }
            }
        }
    }

    /// In tables that resolve `p`, looking up a loop end finds its partner
    /// as `open_of` defines it, and finds nothing where it has none.
    pub proof fn lemma_backward(&self, p: Seq<Instruction>, close: usize)
        requires
            self.resolves(p),
            p.len() <= usize::MAX,
        ensures
            self.backward().contains_key(close) ==> open_of(p, close as int) == Some(
                self.backward()[close] as int,
            ) && self.backward()[close] < close,
            !self.backward().contains_key(close) ==> open_of(p, close as int) is None,
    {
        if self.backward().contains_key(close) {
            let open = self.backward()[close];
            assert(self.backward().contains_pair(close, open));
            lemma_open_of(p, open as int, close as int);
        } else {
            assert forall|o: int| !matched(p, o, close as int) by {
                if matched(p, o, close as int) {
                    assert(self.backward().contains_pair(close, o as usize));
                }
            }
        }
    }

    /// The loop end recorded for the loop start at `open`, if any.
    pub fn close_of(&self, open: usize) -> (r: Option<usize>)
        ensures
            r == (if self.forward().contains_key(open) {
                Some(self.forward()[open])
            } else {
                None
            }),
    {
        broadcast use vstd::std_specs::hash::group_hash_axioms;

        match self.open_to_close.get(&open) {
            Some(close) => Some(*close),
            None => None,
        }
    }

    /// The loop start recorded for the loop end at `close`, if any.
    pub fn open_of(&self, close: usize) -> (r: Option<usize>)
        ensures
            r == (if self.backward().contains_key(close) {
                Some(self.backward()[close])
            } else {
                None
            }),
    {
        broadcast use vstd::std_specs::hash::group_hash_axioms;

        match self.close_to_open.get(&close) {
            Some(open) => Some(*open),
            None => None,
        }
    }
}

} // verus!
