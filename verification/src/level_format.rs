//! The text form of a level: one row of tile numbers in each line, the
//! numbers of a row separated by blanks.

use vstd::prelude::*;
use crate::strings::chars_of;

verus! {

/// Whether the character separates numbers within a line.
pub open spec fn is_blank(c: char) -> bool {
    c == ' ' || c == '\t' || c == '\r'
}

/// Whether the character is a decimal digit.
pub open spec fn is_digit(c: char) -> bool {
    '0' <= c <= '9'
}

/// The value of a decimal digit.
pub open spec fn digit_value(c: char) -> int {
    c as int - '0' as int
}

/// The numbers written in a line, from the left. Digits that follow each
/// other without a blank form one number.
pub open spec fn numbers_in(line: Seq<char>) -> Seq<int>
    decreases line.len(),
{
    if line.len() == 0 {
        Seq::empty()
    } else {
        let before = line.drop_last();
        let found = numbers_in(before);
        if !is_digit(line.last()) {
            found
        } else if before.len() > 0 && is_digit(before.last()) && found.len() > 0 {
            found.drop_last().push(found.last() * 10 + digit_value(line.last()))
        } else {
            found.push(digit_value(line.last()))
        }
    }
}

/// A line is well formed if it holds nothing but digits and blanks, and no
/// number in it is larger than a tile number can be.
pub open spec fn line_ok(line: Seq<char>) -> bool {
    &&& forall|i: int| 0 <= i < line.len() ==> is_blank(#[trigger] line[i]) || is_digit(line[i])
    &&& forall|k: int| 0 <= k < numbers_in(line).len() ==> #[trigger] numbers_in(line)[k] <= u32::MAX
}

/// The lines of a text if a line were still open at its end: each line
/// feed closes a line and opens the next.
pub open spec fn open_lines(text: Seq<char>) -> Seq<Seq<char>>
    decreases text.len(),
{
    if text.len() == 0 {
        seq![Seq::empty()]
    } else {
        let before = open_lines(text.drop_last());
        if text.last() == '\n' {
            before.push(Seq::empty())
        } else {
            before.drop_last().push(before.last().push(text.last()))
        }
    }
}

/// The lines of a text. What stands behind the last line feed is a line
/// only if it is not empty.
pub open spec fn lines_of(text: Seq<char>) -> Seq<Seq<char>> {
    let lines = open_lines(text);
    if lines.last().len() == 0 {
        lines.drop_last()
    } else {
        lines
    }
}

/// The tile numbers written in a line.
pub open spec fn tiles_in(line: Seq<char>) -> Seq<u32> {
    Seq::new(numbers_in(line).len(), |k: int| numbers_in(line)[k] as u32)
}

/// A text is well formed if each of its lines is.
pub open spec fn text_ok(text: Seq<char>) -> bool {
    forall|r: int| 0 <= r < lines_of(text).len() ==> line_ok(#[trigger] lines_of(text)[r])
}

/// The grid of tile numbers that a text describes: a row for each line.
pub open spec fn grid_of(text: Seq<char>) -> Seq<Seq<u32>> {
    Seq::new(lines_of(text).len(), |r: int| tiles_in(lines_of(text)[r]))
}

/// The numbers of a line's beginning are there in the whole line too, each
/// at least as large: more digits only add numbers or make the last larger.
proof fn lemma_numbers_grow(line: Seq<char>, n: int)
    requires
        0 <= n <= line.len(),
    ensures
        numbers_in(line.take(n)).len() <= numbers_in(line).len(),
        forall|k: int|
            0 <= k < numbers_in(line.take(n)).len() ==> 0 <= #[trigger] numbers_in(line.take(n))[k]
                <= numbers_in(line)[k],
    decreases line.len() - n,
{
    if n == line.len() {
        assert(line.take(n) =~= line);
        lemma_numbers_positive(line);
    } else {
        lemma_numbers_grow(line, n + 1);
        let shorter = line.take(n);
        let longer = line.take(n + 1);
        assert(longer.drop_last() =~= shorter);
        lemma_numbers_positive(shorter);
        let found = numbers_in(shorter);
        let more = numbers_in(longer);
        assert(found.len() <= more.len());
        assert forall|k: int| 0 <= k < found.len() implies 0 <= #[trigger] found[k]
            <= numbers_in(line)[k] by {
            assert(found[k] <= more[k]) by {
                if is_digit(longer.last()) {
                    assert(digit_value(longer.last()) >= 0);
                }
            }
            assert(more[k] <= numbers_in(line)[k]);
        }
    }
}

/// No number in a line is negative.
proof fn lemma_numbers_positive(line: Seq<char>)
    ensures
        forall|k: int| 0 <= k < numbers_in(line).len() ==> 0 <= #[trigger] numbers_in(line)[k],
    decreases line.len(),
{
    if line.len() > 0 {
        let before = line.drop_last();
        let found = numbers_in(before);
        lemma_numbers_positive(before);
        assert forall|k: int| 0 <= k < numbers_in(line).len() implies 0 <= #[trigger] numbers_in(
            line,
        )[k] by {
            if k < found.len() {
                assert(0 <= found[k]);
            }
            if is_digit(line.last()) {
                assert(digit_value(line.last()) >= 0);
            }
        }
    }
}

/// Reads the tile numbers between two places of a text, which hold one line.
/// Answers nothing if the line is not well formed.
pub fn parse_row(chars: &Vec<char>, start: usize, end: usize) -> (row: Option<Vec<u32>>)
    requires
        start <= end <= chars@.len(),
    ensures
        match row {
            Some(tiles) => line_ok(chars@.subrange(start as int, end as int)) && tiles@ == tiles_in(
                chars@.subrange(start as int, end as int),
            ),
            None => !line_ok(chars@.subrange(start as int, end as int)),
        },
{
    let ghost line = chars@.subrange(start as int, end as int);
    let mut tiles: Vec<u32> = Vec::new();
    let mut number: u64 = 0;
    let mut in_number = false;
    let mut i: usize = start;
    proof {
        assert(line.take(0) =~= Seq::<char>::empty());
    }
    while i < end
        invariant
            start <= i <= end <= chars@.len(),
            line == chars@.subrange(start as int, end as int),
            forall|j: int| 0 <= j < i - start ==> is_blank(#[trigger] line[j]) || is_digit(line[j]),
            in_number == (i > start && is_digit(line[i - start - 1])),
            numbers_in(line.take(i - start)).len() == tiles@.len() + if in_number {
                1int
            } else {
                0int
            },
            forall|k: int|
                0 <= k < tiles@.len() ==> numbers_in(line.take(i - start))[k]
                    == #[trigger] tiles@[k] as int,
            in_number ==> numbers_in(line.take(i - start)).last() == number as int,
            number <= u32::MAX,
        decreases end - i,
    {
        let c = chars[i];
        proof {
            assert(line[i - start] == c);
            assert(line.take(i - start + 1).drop_last() =~= line.take(i - start));
            assert(line.take(i - start + 1).last() == c);
            if i > start {
                assert(line.take(i - start).last() == line[i - start - 1]);
            }
        }
        if c == ' ' || c == '\t' || c == '\r' {
            if in_number {
                tiles.push(number as u32);
                in_number = false;
            }
        } else if '0' <= c && c <= '9' {
            let d: u64 = (c as u32 - '0' as u32) as u64;
            let next: u64 = if in_number {
                number * 10 + d
            } else {
                d
            };
            if next > 0xFFFF_FFFF {
                proof {
                    lemma_numbers_grow(line, i - start + 1);
                    let found = numbers_in(line.take(i - start + 1));
                    assert(found[found.len() - 1] == next);
                    assert(numbers_in(line)[found.len() - 1] > u32::MAX);
                }
                return None;
            }
            number = next;
            in_number = true;
        } else {
            return None;
        }
        i += 1;
    }
    proof {
        assert(line.take(end - start) =~= line);
    }
    if in_number {
        tiles.push(number as u32);
    }
    proof {
        assert(tiles@.len() == numbers_in(line).len());
        assert forall|k: int| 0 <= k < numbers_in(line).len() implies #[trigger] numbers_in(
            line,
        )[k] == tiles@[k] as int by {}
        assert(tiles@ =~= tiles_in(line));
        assert forall|k: int| 0 <= k < numbers_in(line).len() implies #[trigger] numbers_in(
            line,
        )[k] <= u32::MAX by {
            assert(numbers_in(line)[k] == tiles@[k] as int);
        }
    }
    Some(tiles)
}

/// The lines that a beginning of a text has closed are closed lines of the
/// whole text as well.
proof fn lemma_closed_lines_stay(text: Seq<char>, n: int)
    requires
        0 <= n <= text.len(),
    ensures
        open_lines(text.take(n)).len() <= open_lines(text).len(),
        open_lines(text).len() >= 1,
        forall|r: int|
            0 <= r < open_lines(text.take(n)).len() - 1 ==> #[trigger] open_lines(text)[r]
                == open_lines(text.take(n))[r],
    decreases text.len() - n,
{
    if n == text.len() {
        assert(text.take(n) =~= text);
        lemma_open_lines_len(text);
    } else {
        lemma_closed_lines_stay(text, n + 1);
        assert(text.take(n + 1).drop_last() =~= text.take(n));
        lemma_open_lines_len(text.take(n));
    }
}

/// There is always an open line.
proof fn lemma_open_lines_len(text: Seq<char>)
    ensures
        open_lines(text).len() >= 1,
    decreases text.len(),
{
    if text.len() > 0 {
        lemma_open_lines_len(text.drop_last());
    }
}

/// Reads the grid of tile numbers that a text describes. Answers nothing
/// if a line of the text is not well formed.
pub fn parse_grid(text: &str) -> (grid: Option<Vec<Vec<u32>>>)
    ensures
        match grid {
            Some(rows) => text_ok(text@) && crate::game_level::rows_of(rows@) == grid_of(text@),
            None => !text_ok(text@),
        },
{
    let chars = chars_of(text);
    let mut rows: Vec<Vec<u32>> = Vec::new();
    let mut start: usize = 0;
    let mut i: usize = 0;
    proof {
        assert(chars@.take(0) =~= Seq::<char>::empty());
        assert(chars@.subrange(0, 0) =~= Seq::<char>::empty());
    }
    while i < chars.len()
        invariant
            chars@ == text@,
            start <= i <= chars@.len(),
            open_lines(chars@.take(i as int)).len() == rows@.len() + 1,
            open_lines(chars@.take(i as int)).last() == chars@.subrange(start as int, i as int),
            forall|r: int|
                0 <= r < rows@.len() ==> line_ok(#[trigger] open_lines(chars@.take(i as int))[r])
                    && rows@[r]@ == tiles_in(open_lines(chars@.take(i as int))[r]),
        decreases chars@.len() - i,
    {
        let c = chars[i];
        let ghost before = open_lines(chars@.take(i as int));
        proof {
            assert(chars@.take(i + 1).drop_last() =~= chars@.take(i as int));
            assert(chars@.take(i + 1).last() == c);
        }
        if c == '\n' {
            match parse_row(&chars, start, i) {
                Some(tiles) => {
                    rows.push(tiles);
                },
                None => {
                    proof {
                        lemma_closed_lines_stay(chars@, i + 1);
                        let r = before.len() - 1;
                        assert(open_lines(chars@.take(i + 1))[r] == before[r]);
                        assert(open_lines(chars@)[r] == before[r]);
                        assert(lines_of(chars@)[r] == before[r]);
                    }
                    return None;
                },
            }
            start = i + 1;
            proof {
                assert(chars@.subrange(start as int, start as int) =~= Seq::<char>::empty());
            }
        } else {
            proof {
                assert(chars@.subrange(start as int, i + 1) =~= chars@.subrange(
                    start as int,
                    i as int,
                ).push(c));
            }
        }
        i += 1;
    }
    proof {
        assert(chars@.take(chars@.len() as int) =~= chars@);
    }
    if start < chars.len() {
        match parse_row(&chars, start, chars.len()) {
            Some(tiles) => {
                rows.push(tiles);
            },
            None => {
                proof {
                    let r = open_lines(chars@).len() - 1;
                    assert(lines_of(chars@)[r] == open_lines(chars@)[r]);
                }
                return None;
            },
        }
    }
    proof {
        assert(crate::game_level::rows_of(rows@) =~= grid_of(text@));
    }
    Some(rows)
}

} // verus!
