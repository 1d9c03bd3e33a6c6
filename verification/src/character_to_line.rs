use crate::text::chars_of;
use std::ops::Range;
use vstd::prelude::*;

verus! {

/// The indices at which the lines after the first one start: one past every newline.
pub open spec fn newline_starts(chars: Seq<char>) -> Seq<usize>
    decreases chars.len(),
{
    if chars.len() == 0 {
        Seq::empty()
    } else if chars.last() == '\n' {
        newline_starts(chars.drop_last()).push(chars.len() as usize)
    } else {
        newline_starts(chars.drop_last())
    }
}

/// The indices at which the lines of a text start: 0, and one past every newline.
pub open spec fn line_starts(chars: Seq<char>) -> Seq<usize> {
    seq![0usize] + newline_starts(chars)
}

/// The number of line starts at or before `index`: the number of the line of character `index`
/// when the line starts are increasing.
pub open spec fn count_upto(starts: Seq<usize>, index: usize) -> nat
    decreases starts.len(),
{
    if starts.len() == 0 {
        0
    } else {
        count_upto(starts.drop_last(), index) + if starts.last() <= index {
            1nat
        } else {
            0nat
        }
    }
}

/// The entries are strictly increasing.
pub open spec fn strictly_increasing(s: Seq<usize>) -> bool {
    forall|i: int, j: int| 0 <= i < j < s.len() ==> s[i] < s[j]
}

proof fn lemma_count_upto_split(s: Seq<usize>, index: usize, k: int)
    requires
        0 <= k <= s.len(),
        forall|j: int| 0 <= j < k ==> s[j] <= index,
        forall|j: int| k <= j < s.len() ==> s[j] > index,
    ensures
        count_upto(s, index) == k,
    decreases s.len(),
{
    if s.len() > 0 {
        if k == s.len() {
            lemma_count_upto_split(s.drop_last(), index, k - 1);
        } else {
            lemma_count_upto_split(s.drop_last(), index, k);
        }
    }
}

/// A mapping from character offsets to line numbers. Its view is the list of the offsets at
/// which the lines start, strictly increasing.
///
/// Character offsets start at 0, line numbers start at 1.
#[derive(PartialEq, Debug)]
pub struct CharacterToLineMap {
    line_start_indices: Vec<usize>,
}

impl View for CharacterToLineMap {
    type V = Seq<usize>;

    closed spec fn view(&self) -> Seq<usize> {
        self.line_start_indices@
    }
}

impl CharacterToLineMap {
    #[verifier::type_invariant]
    spec fn increasing(self) -> bool {
        strictly_increasing(self.line_start_indices@)
    }

    /// Constructs a map without any line.
    pub fn new() -> (r: Self)
        ensures
            r@.len() == 0,
    {
        CharacterToLineMap { line_start_indices: Vec::new() }
    }

    /// Constructs the map of the given text: a line starts at 0 and after every newline.
    pub fn from_str(source: &str) -> (r: Self)
        ensures
            r@ == line_starts(source@),
    {
        let chars = chars_of(source);
        let mut res = Self::new();
        res.add_line(0);
        let mut index: usize = 0;
        assert(seq![0usize] + newline_starts(chars@.take(0)) =~= seq![0usize]);
        while index < chars.len()
            invariant
                index <= chars@.len(),
                chars@ == source@,
                res@ == seq![0usize] + newline_starts(chars@.take(index as int)),
                res@.len() > 0,
                res@.last() <= index,
            decreases chars.len() - index,
        {
            proof {
                assert(chars@.take(index + 1).drop_last() =~= chars@.take(index as int));
            }
            if chars[index] == '\n' {
                res.add_line(index + 1);
                proof {
                    assert(res@ =~= seq![0usize] + newline_starts(chars@.take(index + 1)));
                }
            } else {
                proof {
                    assert(res@ =~= seq![0usize] + newline_starts(chars@.take(index + 1)));
                }
            }
            index = index + 1;
        }
        proof {
            assert(chars@.take(index as int) =~= source@);
        }
        res
    }

    /// Adds a line starting at `line_start_index`, which must lie after the start of the last
    /// line.
    pub fn add_line(&mut self, line_start_index: usize)
        requires
            old(self)@.len() > 0 ==> old(self)@.last() < line_start_index,
        ensures
            final(self)@ == old(self)@.push(line_start_index),
    {
        proof {
            use_type_invariant(&*self);
        }
        let mut starts: Vec<usize> = Vec::new();
        std::mem::swap(&mut starts, &mut self.line_start_indices);
        starts.push(line_start_index);
        self.line_start_indices = starts;
    }

    /// Returns the number of the line of the character at `char_index` (the first line being
    /// line 1): the number of lines that start at or before it.
    pub fn get_line(&self, char_index: usize) -> (r: usize)
        ensures
            r == count_upto(self@, char_index),
    {
        proof {
            use_type_invariant(self);
        }
        let starts = &self.line_start_indices;
        let mut lo: usize = 0;
        let mut hi: usize = starts.len();
        while lo < hi
            invariant
                strictly_increasing(starts@),
                lo <= hi <= starts@.len(),
                forall|j: int| 0 <= j < lo ==> starts@[j] <= char_index,
                forall|j: int| hi <= j < starts@.len() ==> starts@[j] > char_index,
            decreases hi - lo,
        {
            let mid = lo + (hi - lo) / 2;
            if starts[mid] <= char_index {
                lo = mid + 1;
            } else {
                hi = mid;
            }
        }
        proof {
            lemma_count_upto_split(starts@, char_index, lo as int);
        }
        lo
    }

    /// Returns the range of lines occupied by the characters in `char_range` (whose end is
    /// exclusive and not 0): from the line of its first character to the line of its last one
    /// (of its start, if it is empty), end exclusive.
    pub fn get_lines(&self, char_range: Range<usize>) -> (r: Range<usize>)
        requires
            char_range.end > 0,
            self@.len() < usize::MAX,
        ensures
            r.start == count_upto(self@, char_range.start),
            r.end == count_upto(self@, if char_range.end - 1 >= char_range.start {
                (char_range.end - 1) as usize
            } else {
                char_range.start
            }) + 1,
    {
        let start_range = self.get_line(char_range.start);
        let last = if char_range.end - 1 >= char_range.start {
            char_range.end - 1
        } else {
            char_range.start
        };
        let end_range = self.get_line(last);
        proof {
            lemma_count_upto_bounded(self@, last);
        }
        Range { start: start_range, end: end_range + 1 }
    }
}

proof fn lemma_count_upto_bounded(s: Seq<usize>, index: usize)
    ensures
        count_upto(s, index) <= s.len(),
    decreases s.len(),
{
    if s.len() > 0 {
        lemma_count_upto_bounded(s.drop_last(), index);
    }
}


/// The number of newlines among the characters of `chars` before index `i`.
pub open spec fn newlines_before(chars: Seq<char>, i: int) -> nat
    decreases chars.len(),
{
    if chars.len() == 0 {
        0
    } else {
        newlines_before(chars.drop_last(), i) + if chars.last() == '\n' && chars.len() - 1 < i {
            1nat
        } else {
            0nat
        }
    }
}

proof fn lemma_count_upto_concat(a: Seq<usize>, b: Seq<usize>, index: usize)
    ensures
        count_upto(a + b, index) == count_upto(a, index) + count_upto(b, index),
    decreases b.len(),
{
    if b.len() == 0 {
        assert(a + b =~= a);
    } else {
        assert((a + b).drop_last() =~= a + b.drop_last());
        lemma_count_upto_concat(a, b.drop_last(), index);
    }
}

proof fn lemma_newline_starts_count(chars: Seq<char>, index: usize)
    requires
        chars.len() <= usize::MAX,
    ensures
        count_upto(newline_starts(chars), index) == newlines_before(chars, index as int),
    decreases chars.len(),
{
    if chars.len() > 0 {
        lemma_newline_starts_count(chars.drop_last(), index);
        if chars.last() == '\n' {
            assert(newline_starts(chars).drop_last() =~= newline_starts(chars.drop_last()));
            assert(newline_starts(chars).last() == chars.len() as usize);
            assert((chars.len() as usize) as int == chars.len());
        }
    }
}

/// In the map of a text, the line of the character at `i` is one more than the number of
/// newlines before it: the first character is on line 1, and every newline starts a new line.
pub proof fn law_line_counts_newlines(chars: Seq<char>, i: usize)
    requires
        chars.len() <= usize::MAX,
    ensures
        count_upto(line_starts(chars), i) == 1 + newlines_before(chars, i as int),
{
    lemma_count_upto_concat(seq![0usize], newline_starts(chars), i);
    let one = seq![0usize];
    assert(one.drop_last() =~= Seq::<usize>::empty());
    assert(count_upto(one.drop_last(), i) == 0);
    assert(one.last() == 0);
    assert(count_upto(one, i) == 1);
    lemma_newline_starts_count(chars, i);
}

/// Later characters are on the same line or on later lines.
pub proof fn law_lines_monotone(starts: Seq<usize>, i: usize, j: usize)
    requires
        i <= j,
    ensures
        count_upto(starts, i) <= count_upto(starts, j),
    decreases starts.len(),
{
    if starts.len() > 0 {
        law_lines_monotone(starts.drop_last(), i, j);
    }
}

} // verus!
