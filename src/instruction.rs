//! The instruction catalog and bracket matching.

use vstd::prelude::*;

verus! {

/// One operation of the tape language. Two instructions are equal exactly
/// when their symbols are.
#[derive(Clone, Copy, Debug, PartialEq, Eq, Structural)]
pub enum Instruction {
    IncrementPointer,
    DecrementPointer,
    Increment,
    Decrement,
    Output,
    Input,
    JumpForward,
    JumpBackward,
    Breakpoint,
}

/// The instruction that a source character stands for, if any.
pub open spec fn instruction_of(c: char) -> Option<Instruction> {
    if c == '>' {
        Some(Instruction::IncrementPointer)
    } else if c == '<' {
        Some(Instruction::DecrementPointer)
    } else if c == '+' {
        Some(Instruction::Increment)
    } else if c == '-' {
        Some(Instruction::Decrement)
    } else if c == '.' {
        Some(Instruction::Output)
    } else if c == ',' {
        Some(Instruction::Input)
    } else if c == '[' {
        Some(Instruction::JumpForward)
    } else if c == ']' {
        Some(Instruction::JumpBackward)
    } else if c == '$' {
        Some(Instruction::Breakpoint)
    } else {
        None
    }
}

/// The display symbol of an instruction.
pub open spec fn symbol_of(i: Instruction) -> char {
    match i {
        Instruction::IncrementPointer => '>',
        Instruction::DecrementPointer => '<',
        Instruction::Increment => '+',
        Instruction::Decrement => '-',
        Instruction::Output => '.',
        Instruction::Input => ',',
        Instruction::JumpForward => '[',
        Instruction::JumpBackward => ']',
        Instruction::Breakpoint => '$',
    }
}

/// How an instruction changes the bracket depth: an opening bracket adds
/// one, a closing bracket takes one away.
pub open spec fn nesting(i: Instruction) -> int {
    match i {
        Instruction::JumpForward => 1,
        Instruction::JumpBackward => -1,
        _ => 0,
    }
}

/// Opening minus closing brackets among `s[a..b)`.
pub open spec fn depth(s: Seq<Instruction>, a: int, b: int) -> int
    decreases b - a,
{
    if b <= a {
        0
    } else {
        depth(s, a, b - 1) + nesting(s[b - 1])
    }
}

/// Scanning forward from `i`, `k` is the first position at which the
/// brackets seen (`i` included) balance.
pub open spec fn is_forward_match(s: Seq<Instruction>, i: int, k: int) -> bool {
    &&& 0 <= i <= k < s.len()
    &&& depth(s, i, k + 1) == 0
    &&& forall|m: int| i < m <= k ==> #[trigger] depth(s, i, m) != 0
}

/// Scanning backward from `i`, `k` is the first position at which the
/// brackets seen (`i` included) balance.
pub open spec fn is_backward_match(s: Seq<Instruction>, i: int, k: int) -> bool {
    &&& 0 <= k <= i < s.len()
    &&& depth(s, k, i + 1) == 0
    &&& forall|m: int| k < m <= i ==> #[trigger] depth(s, m, i + 1) != 0
}

/// `k` is the bracket that matches the bracket at `i`.
pub open spec fn is_match(s: Seq<Instruction>, i: int, k: int) -> bool {
    &&& 0 <= i < s.len()
    &&& {
        ||| s[i] == Instruction::JumpForward && is_forward_match(s, i, k)
        ||| s[i] == Instruction::JumpBackward && is_backward_match(s, i, k)
    }
}

/// The bracket that matches the one at `i`; `None` for an unmatched bracket
/// or an instruction that is no bracket.
pub open spec fn match_of(s: Seq<Instruction>, i: int) -> Option<int> {
    if exists|k: int| is_match(s, i, k) {
        Some(choose|k: int| is_match(s, i, k))
    } else {
        None
    }
}

proof fn lemma_depth_split(s: Seq<Instruction>, a: int, b: int, c: int)
    requires
        a <= b <= c,
    ensures
        depth(s, a, c) == depth(s, a, b) + depth(s, b, c),
    decreases c - b,
{
    if c > b {
        lemma_depth_split(s, a, b, c - 1);
    }
}

proof fn lemma_depth_single(s: Seq<Instruction>, a: int)
    ensures
        depth(s, a, a + 1) == nesting(s[a]),
{
    assert(depth(s, a, a) == 0);
}

proof fn lemma_match_unique(s: Seq<Instruction>, i: int, k1: int, k2: int)
    requires
        is_match(s, i, k1),
        is_match(s, i, k2),
    ensures
        k1 == k2,
{
    if s[i] == Instruction::JumpForward {
        if k1 < k2 {
            assert(depth(s, i, k1 + 1) != 0);
        } else if k2 < k1 {
            assert(depth(s, i, k2 + 1) != 0);
        }
    } else {
        if k1 < k2 {
            assert(depth(s, k2, i + 1) != 0);
        } else if k2 < k1 {
            assert(depth(s, k1, i + 1) != 0);
        }
    }
}

proof fn lemma_match_of(s: Seq<Instruction>, i: int, k: int)
    requires
        is_match(s, i, k),
    ensures
        match_of(s, i) == Some(k),
{
    let c = choose|k: int| is_match(s, i, k);
    lemma_match_unique(s, i, k, c);
}

/// Between a bracket and its forward match the depth stays positive.
proof fn lemma_forward_positive(s: Seq<Instruction>, i: int, k: int, m: int)
    requires
        s[i] == Instruction::JumpForward,
        is_forward_match(s, i, k),
        i < m <= k,
    ensures
        depth(s, i, m) > 0,
    decreases m - i,
{
    lemma_depth_single(s, i);
    if m > i + 1 {
        lemma_forward_positive(s, i, k, m - 1);
        assert(depth(s, i, m) != 0);
    }
}

/// Between a bracket and its backward match the depth stays negative.
proof fn lemma_backward_negative(s: Seq<Instruction>, i: int, k: int, m: int)
    requires
        s[i] == Instruction::JumpBackward,
        is_backward_match(s, i, k),
        k < m <= i,
    ensures
        depth(s, m, i + 1) < 0,
    decreases i - m,
{
    lemma_depth_split(s, m, m + 1, i + 1);
    lemma_depth_single(s, m);
    lemma_depth_single(s, i);
    if m < i {
        lemma_backward_negative(s, i, k, m + 1);
        assert(depth(s, m, i + 1) != 0);
    }
}

/// A bracket's match lies in the list.
pub proof fn lemma_match_in_bounds(s: Seq<Instruction>, i: int)
    ensures
        match_of(s, i) matches Some(k) ==> 0 <= k < s.len(),
{
}

/// Matching is symmetric: the match of a bracket's match is the bracket
/// itself.
pub proof fn lemma_match_symmetric(s: Seq<Instruction>, i: int, k: int)
    requires
        is_match(s, i, k),
    ensures
        is_match(s, k, i),
{
    if s[i] == Instruction::JumpForward {
        assert forall|m: int| i < m <= k implies #[trigger] depth(s, m, k + 1) != 0 by {
            lemma_depth_split(s, i, m, k + 1);
        }
        lemma_depth_single(s, i);
        lemma_depth_single(s, k);
        lemma_depth_split(s, i, k, k + 1);
        if k > i {
            lemma_forward_positive(s, i, k, k);
        }
        assert(s[k] == Instruction::JumpBackward);
    } else {
        assert forall|m: int| k < m <= i implies #[trigger] depth(s, k, m) != 0 by {
            lemma_depth_split(s, k, m, i + 1);
        }
        lemma_depth_split(s, k, k + 1, i + 1);
        lemma_depth_single(s, k);
        lemma_depth_single(s, i);
        if k < i {
            lemma_backward_negative(s, i, k, k + 1);
        }
        assert(s[k] == Instruction::JumpForward);
    }
}

/// Bracket matching is an involution: where a bracket at `i` has a match
/// `k`, the bracket at `k` has the match `i`. An unmatched bracket is the
/// match of no bracket.
pub proof fn lemma_matching_jump_involution(s: Seq<Instruction>, i: int)
    ensures
        match_of(s, i) matches Some(k) ==> match_of(s, k) == Some(i),
        match_of(s, i) is None ==> forall|j: int| match_of(s, j) != Some(i),
{
    if let Some(k) = match_of(s, i) {
        lemma_match_symmetric(s, i, k);
        lemma_match_of(s, k, i);
    }
    assert forall|j: int| match_of(s, i) is None implies match_of(s, j) != Some(i) by {
        if match_of(s, j) == Some(i) {
            lemma_match_symmetric(s, j, i);
        }
    }
}

impl Instruction {
    /// The instruction written as `symbol`, if it is one.
    pub fn read(symbol: char) -> (r: Option<Instruction>)
        ensures
            r == instruction_of(symbol),
    {
        match symbol {
            '>' => Some(Instruction::IncrementPointer),
            '<' => Some(Instruction::DecrementPointer),
            '+' => Some(Instruction::Increment),
            '-' => Some(Instruction::Decrement),
            '.' => Some(Instruction::Output),
            ',' => Some(Instruction::Input),
            '[' => Some(Instruction::JumpForward),
            ']' => Some(Instruction::JumpBackward),
            '$' => Some(Instruction::Breakpoint),
            _ => None,
        }
    }

    /// Given the index of a `[` or `]`, the index of the matching bracket;
    /// `None` when the scan runs off the list first, or when `index` holds
    /// no bracket.
    pub fn matching_jump(index: usize, instructions: &[Instruction]) -> (r: Option<usize>)
        ensures
            r matches Some(k) ==> match_of(instructions@, index as int) == Some(k as int),
            r is None ==> match_of(instructions@, index as int) is None,
    {
        let ghost s = instructions@;
        if index >= instructions.len() {
            return None;
        }
        let mut open_brackets: usize = 0;
        let mut close_brackets: usize = 0;
        match instructions[index] {
            Instruction::JumpForward => {
                let mut j: usize = index;
                while j < instructions.len()
                    invariant
                        s == instructions@,
                        s[index as int] == Instruction::JumpForward,
                        index <= j <= s.len(),
                        open_brackets + close_brackets <= j - index,
                        open_brackets - close_brackets == depth(s, index as int, j as int),
                        forall|m: int| index < m <= j ==> #[trigger] depth(s, index as int, m) != 0,
                    decreases s.len() - j,
                {
                    match instructions[j] {
                        Instruction::JumpForward => open_brackets += 1,
                        Instruction::JumpBackward => close_brackets += 1,
                        _ => {},
                    }
                    if open_brackets == close_brackets {
                        proof {
                            lemma_match_of(s, index as int, j as int);
                        }
                        return Some(j);
                    }
                    j += 1;
                }
                proof {
                    if exists|k: int| is_match(s, index as int, k) {
                        let k = choose|k: int| is_match(s, index as int, k);
                        assert(depth(s, index as int, k + 1) != 0);
                    }
                }
                None
            },
            Instruction::JumpBackward => {
                let mut k: usize = index + 1;
                while k > 0
                    invariant
                        s == instructions@,
                        s[index as int] == Instruction::JumpBackward,
                        index < s.len(),
                        k <= index + 1,
                        open_brackets + close_brackets <= index + 1 - k,
                        open_brackets - close_brackets == depth(s, k as int, index + 1),
                        forall|m: int| k <= m <= index ==> #[trigger] depth(s, m, index + 1) != 0,
                    decreases k,
                {
                    k -= 1;
                    proof {
                        lemma_depth_split(s, k as int, k + 1, index + 1);
                        lemma_depth_single(s, k as int);
                    }
                    match instructions[k] {
                        Instruction::JumpForward => open_brackets += 1,
                        Instruction::JumpBackward => close_brackets += 1,
                        _ => {},
                    }
                    if open_brackets == close_brackets {
                        proof {
                            lemma_match_of(s, index as int, k as int);
                        }
                        return Some(k);
                    }
                }
                proof {
                    if exists|k: int| is_match(s, index as int, k) {
                        let k = choose|k: int| is_match(s, index as int, k);
                        assert(depth(s, k, index + 1) != 0);
                    }
                }
                None
            },
            _ => {
                proof {
                    assert(!exists|k: int| is_match(s, index as int, k));
                }
                None
            },
        }
    }

    /// The character that stands for this instruction in source text.
    pub fn symbol(&self) -> (r: char)
        ensures
            r == symbol_of(*self),
            instruction_of(r) == Some(*self),
    {
        match self {
            Instruction::IncrementPointer => '>',
            Instruction::DecrementPointer => '<',
            Instruction::Increment => '+',
            Instruction::Decrement => '-',
            Instruction::Output => '.',
            Instruction::Input => ',',
            Instruction::JumpForward => '[',
            Instruction::JumpBackward => ']',
            Instruction::Breakpoint => '$',
        }
    }
}

} // verus!
