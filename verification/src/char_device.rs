//! An editable text buffer addressed by a cursor and a derived per-line
//! length index. The line separator is `'\r'`, because raw keyboard input
//! decodes the enter key to `'\r'`.

use vstd::prelude::*;

use crate::text::chars_to_string;
use crate::text::char_is_alphanumeric;
use crate::text::char_is_whitespace;
use crate::text::control_char;
use crate::text::dec_digits;
use crate::text::is_control_char;
use crate::text::push_decimal;
use crate::text::unicode_alphanumeric;
use crate::text::unicode_whitespace;

verus! {

// ---------------------------------------------------------------------------
// Line structure of a buffer
// ---------------------------------------------------------------------------

/// Index of the first `'\r'` in `s` at or after `from`, or `s.len()` if
/// there is none.
pub open spec fn find_cr(s: Seq<char>, from: int) -> int
    decreases s.len() - from,
{
    if from < 0 || from >= s.len() {
        s.len() as int
    } else if s[from] == '\r' {
        from
    } else {
        find_cr(s, from + 1)
    }
}

/// The lengths of the lines of `s.skip(pos)`, where a line is a maximal
/// run of characters not containing `'\r'`.
pub open spec fn line_lengths_from(s: Seq<char>, pos: int) -> Seq<int>
    decreases s.len() - pos,
    via line_lengths_from_decreases
{
    let j = find_cr(s, pos);
    if j >= s.len() {
        seq![s.len() - pos]
    } else {
        seq![j - pos] + line_lengths_from(s, j + 1)
    }
}

#[via_fn]
proof fn line_lengths_from_decreases(s: Seq<char>, pos: int) {
    if 0 <= pos <= s.len() {
        lemma_find_cr(s, pos);
    }
}

/// The lengths of the lines of `s`.
pub open spec fn line_lengths(s: Seq<char>) -> Seq<int> {
    line_lengths_from(s, 0)
}

/// How many `'\r'` characters `s` holds.
pub open spec fn count_cr(s: Seq<char>) -> int
    decreases s.len(),
{
    if s.len() == 0 {
        0
    } else {
        count_cr(s.drop_last()) + if s.last() == '\r' { 1int } else { 0int }
    }
}

/// The sum of a sequence of integers.
pub open spec fn sum_ints(s: Seq<int>) -> int
    decreases s.len(),
{
    if s.len() == 0 {
        0
    } else {
        sum_ints(s.drop_last()) + s.last()
    }
}

/// The content of line `n` of `s.skip(pos)`, if it has that many lines.
pub open spec fn nth_line_from(s: Seq<char>, pos: int, n: int) -> Option<Seq<char>>
    decreases s.len() - pos,
    via nth_line_from_decreases
{
    let j = find_cr(s, pos);
    if n == 0 {
        Some(s.subrange(pos, j))
    } else if j >= s.len() || n < 0 {
        None
    } else {
        nth_line_from(s, j + 1, n - 1)
    }
}

#[via_fn]
proof fn nth_line_from_decreases(s: Seq<char>, pos: int, n: int) {
    if 0 <= pos <= s.len() {
        lemma_find_cr(s, pos);
    }
}

/// The content of line `n` of `s`.
pub open spec fn nth_line(s: Seq<char>, n: int) -> Option<Seq<char>> {
    nth_line_from(s, 0, n)
}

proof fn lemma_find_cr(s: Seq<char>, pos: int)
    requires
        0 <= pos <= s.len(),
    ensures
        pos <= find_cr(s, pos) <= s.len(),
        forall|j: int| pos <= j < find_cr(s, pos) ==> s[j] != '\r',
        find_cr(s, pos) < s.len() ==> s[find_cr(s, pos)] == '\r',
    decreases s.len() - pos,
{
    if pos < s.len() && s[pos] != '\r' {
        lemma_find_cr(s, pos + 1);
    }
}

proof fn lemma_count_cr_take_succ(s: Seq<char>, i: int)
    requires
        0 <= i < s.len(),
    ensures
        count_cr(s.take(i + 1)) == count_cr(s.take(i)) + if s[i] == '\r' { 1int } else { 0int },
{
    assert(s.take(i + 1).drop_last() =~= s.take(i));
    assert(s.take(i + 1).last() == s[i]);
}

proof fn lemma_count_cr_bound(s: Seq<char>)
    ensures
        0 <= count_cr(s) <= s.len(),
    decreases s.len(),
{
    if s.len() > 0 {
        lemma_count_cr_bound(s.drop_last());
    }
}

proof fn lemma_count_cr_take_monotone(s: Seq<char>, i: int)
    requires
        0 <= i <= s.len(),
    ensures
        count_cr(s.take(i)) <= count_cr(s),
    decreases s.len() - i,
{
    if i == s.len() {
        assert(s.take(i) =~= s);
    } else {
        lemma_count_cr_take_succ(s, i);
        lemma_count_cr_take_monotone(s, i + 1);
    }
}

proof fn lemma_count_cr_no_cr_range(s: Seq<char>, p: int, q: int)
    requires
        0 <= p <= q <= s.len(),
        forall|j: int| p <= j < q ==> s[j] != '\r',
    ensures
        count_cr(s.take(q)) == count_cr(s.take(p)),
    decreases q - p,
{
    if p < q {
        lemma_count_cr_take_succ(s, q - 1);
        lemma_count_cr_no_cr_range(s, p, q - 1);
    }
}

proof fn lemma_sum_prepend(x: int, t: Seq<int>)
    ensures
        sum_ints(seq![x] + t) == x + sum_ints(t),
    decreases t.len(),
{
    if t.len() == 0 {
        assert(seq![x] + t =~= seq![x]);
        assert(sum_ints(seq![x]) == sum_ints(seq![x].drop_last()) + x);
        assert(seq![x].drop_last() =~= Seq::<int>::empty());
    } else {
        assert((seq![x] + t).drop_last() =~= seq![x] + t.drop_last());
        assert((seq![x] + t).last() == t.last());
        lemma_sum_prepend(x, t.drop_last());
    }
}

/// Where line `n` starts, as the sum of the preceding lines' lengths plus
/// one separator per preceding line, and how the prefix up to that point
/// relates to the separator count.
proof fn lemma_line_start_from(s: Seq<char>, pos: int, n: int)
    requires
        0 <= pos <= s.len(),
        0 <= n < line_lengths_from(s, pos).len(),
    ensures
        ({
            let st = pos + n + sum_ints(line_lengths_from(s, pos).take(n));
            &&& pos <= st <= s.len()
            &&& st + line_lengths_from(s, pos)[n] <= s.len()
            &&& count_cr(s.take(st)) == count_cr(s.take(pos)) + n
        }),
    decreases n,
{
    let lines = line_lengths_from(s, pos);
    let j = find_cr(s, pos);
    lemma_find_cr(s, pos);
    if n == 0 {
        assert(lines.take(0) =~= Seq::<int>::empty());
        assert(pos + lines[0] <= s.len());
    } else {
        // more than one line remains, so a separator exists
        assert(j < s.len());
        let rest = line_lengths_from(s, j + 1);
        assert(lines == seq![j - pos] + rest);
        assert(lines.take(n) =~= seq![j - pos] + rest.take(n - 1));
        lemma_sum_prepend(j - pos, rest.take(n - 1));
        lemma_line_start_from(s, j + 1, n - 1);
        let st = pos + n + sum_ints(lines.take(n));
        assert(st == (j + 1) + (n - 1) + sum_ints(rest.take(n - 1)));
        lemma_count_cr_no_cr_range(s, pos, j);
        lemma_count_cr_take_succ(s, j);
        assert(lines[n] == rest[n - 1]);
    }
}

proof fn lemma_lines_from_count(s: Seq<char>, pos: int)
    requires
        0 <= pos <= s.len(),
    ensures
        line_lengths_from(s, pos).len() == count_cr(s) - count_cr(s.take(pos)) + 1,
    decreases s.len() - pos,
{
    let j = find_cr(s, pos);
    lemma_find_cr(s, pos);
    if j >= s.len() {
        lemma_count_cr_no_cr_range(s, pos, s.len() as int);
        assert(s.take(s.len() as int) =~= s);
    } else {
        lemma_count_cr_no_cr_range(s, pos, j);
        lemma_count_cr_take_succ(s, j);
        lemma_lines_from_count(s, j + 1);
    }
}

proof fn lemma_nth_line_some(s: Seq<char>, pos: int, n: int)
    requires
        0 <= pos <= s.len(),
        0 <= n,
    ensures
        nth_line_from(s, pos, n) is Some <==> n < line_lengths_from(s, pos).len(),
    decreases s.len() - pos,
{
    let j = find_cr(s, pos);
    lemma_find_cr(s, pos);
    if n != 0 && j < s.len() {
        lemma_nth_line_some(s, j + 1, n - 1);
    }
}

/// The relation the line-length index maintains with the buffer: the line
/// lengths together with one separator between each pair of adjacent lines
/// account for the whole buffer.
pub proof fn lemma_line_lengths_sum(s: Seq<char>)
    ensures
        sum_ints(line_lengths(s)) + line_lengths(s).len() - 1 == s.len(),
{
    lemma_lines_sum_from(s, 0);
}

proof fn lemma_lines_sum_from(s: Seq<char>, pos: int)
    requires
        0 <= pos <= s.len(),
    ensures
        sum_ints(line_lengths_from(s, pos)) + line_lengths_from(s, pos).len() - 1 == s.len()
            - pos,
    decreases s.len() - pos,
{
    let j = find_cr(s, pos);
    lemma_find_cr(s, pos);
    if j >= s.len() {
        assert(seq![s.len() - pos].drop_last() =~= Seq::<int>::empty());
        assert(sum_ints(Seq::<int>::empty()) == 0);
        assert(sum_ints(seq![s.len() - pos]) == s.len() - pos);
    } else {
        lemma_lines_sum_from(s, j + 1);
        lemma_sum_prepend(j - pos, line_lengths_from(s, j + 1));
    }
}

// ---------------------------------------------------------------------------
// The device and its transitions
// ---------------------------------------------------------------------------

/// The mathematical state of a [`CharDevice`].
#[verifier::ext_equal]
pub struct DeviceView {
    /// The buffered text, as a sequence of Unicode scalar values.
    pub buffer: Seq<char>,
    /// Offset into `buffer`; `0 <= cursor <= buffer.len()`.
    pub cursor: int,
    /// Index of the line the cursor is on.
    pub line: int,
}

/// The state of a device that holds nothing.
pub open spec fn empty_device() -> DeviceView {
    DeviceView { buffer: Seq::empty(), cursor: 0, line: 0 }
}

/// Whether writing `c` inserts it into the buffer: a letter, a digit or
/// whitespace, but not a control character.
pub open spec fn printable(c: char) -> bool {
    !control_char(c) && (unicode_alphanumeric(c) || unicode_whitespace(c))
}

/// The effect of a backspace: with the cursor past the start, the character
/// before the cursor is removed, and the line index steps back when that
/// character was a separator.
pub open spec fn device_after_backspace(d: DeviceView) -> DeviceView {
    if d.cursor > 0 && d.cursor <= d.buffer.len() {
        let removed = d.buffer[d.cursor - 1];
        DeviceView {
            buffer: d.buffer.remove(d.cursor - 1),
            cursor: d.cursor - 1,
            line: if removed == '\r' && d.line > 0 {
                d.line - 1
            } else {
                d.line
            },
        }
    } else {
        d
    }
}

/// The effect of one decoded keystroke on the device: delete and backspace
/// erase, enter inserts the line separator, printable characters are
/// inserted at the cursor, and every other character is ignored.
pub open spec fn device_after_write(d: DeviceView, c: char) -> DeviceView {
    if c == '\u{7f}' || c == '\u{8}' {
        device_after_backspace(d)
    } else if c == '\r' {
        DeviceView {
            buffer: d.buffer.insert(d.cursor, '\r'),
            cursor: d.cursor + 1,
            line: d.line + 1,
        }
    } else if control_char(c) {
        d
    } else if unicode_alphanumeric(c) || unicode_whitespace(c) {
        DeviceView { buffer: d.buffer.insert(d.cursor, c), cursor: d.cursor + 1, line: d.line }
    } else {
        d
    }
}

/// The device state after a sequence of keystrokes, oldest first.
pub open spec fn device_after_writes(d: DeviceView, cs: Seq<char>) -> DeviceView
    decreases cs.len(),
{
    if cs.len() == 0 {
        d
    } else {
        device_after_write(device_after_writes(d, cs.drop_last()), cs.last())
    }
}

/// Where line `n` starts: the sum of the preceding lines' lengths plus
/// one separator per preceding line.
pub open spec fn goto_view(d: DeviceView, n: int) -> DeviceView {
    DeviceView {
        buffer: d.buffer,
        cursor: n + sum_ints(line_lengths(d.buffer).take(n)),
        line: n,
    }
}

/// The effect of moving the cursor left one character: crossing the line
/// separator steps the line index back.
pub open spec fn device_after_cursor_left(d: DeviceView) -> DeviceView {
    if d.cursor <= 0 || d.cursor > d.buffer.len() {
        d
    } else {
        let crossed = d.buffer[d.cursor - 1];
        DeviceView {
            buffer: d.buffer,
            cursor: d.cursor - 1,
            line: if crossed == '\r' && d.line > 0 {
                d.line - 1
            } else {
                d.line
            },
        }
    }
}

/// The effect of moving the cursor right one character: crossing the line
/// separator steps the line index forward.
pub open spec fn device_after_cursor_right(d: DeviceView) -> DeviceView {
    if d.cursor < 0 || d.cursor >= d.buffer.len() {
        d
    } else {
        let crossed = d.buffer[d.cursor];
        DeviceView {
            buffer: d.buffer,
            cursor: d.cursor + 1,
            line: if crossed == '\r' {
                d.line + 1
            } else {
                d.line
            },
        }
    }
}

/// The effect of moving the cursor up a line: on any line but the first,
/// the cursor lands at the start of the line above.
pub open spec fn device_after_cursor_up(d: DeviceView) -> DeviceView {
    if d.line <= 0 {
        d
    } else {
        goto_view(d, d.line - 1)
    }
}

/// The effect of moving the cursor down a line: above the last line, the
/// cursor lands at the start of the line below.
pub open spec fn device_after_cursor_down(d: DeviceView) -> DeviceView {
    if d.line + 1 >= line_lengths(d.buffer).len() {
        d
    } else {
        goto_view(d, d.line + 1)
    }
}

/// Where `after_cursor` starts: one before the cursor, clamped to zero
/// while the cursor is at most one.
pub open spec fn cursor_tail_spec(d: DeviceView) -> int {
    if d.cursor > 1 {
        d.cursor - 1
    } else {
        0
    }
}

/// What stands before the cursor.
pub open spec fn before_cursor_spec(d: DeviceView) -> Seq<char> {
    d.buffer.take(d.cursor)
}

/// What stands after the cursor's tail.
pub open spec fn after_cursor_spec(d: DeviceView) -> Seq<char> {
    d.buffer.skip(cursor_tail_spec(d))
}

/// The line-number gutter for `k` lines: the numbers `0` to `k - 1`,
/// separated by the line separator.
pub open spec fn line_nos_seq(k: int) -> Seq<char>
    decreases k,
{
    if k <= 0 {
        Seq::empty()
    } else if k == 1 {
        dec_digits(0)
    } else {
        line_nos_seq(k - 1) + seq!['\r'] + dec_digits(k - 1)
    }
}

/// Component that decodes a sequence of terminal characters into an
/// editable buffer.
pub struct CharDevice {
    /// The current buffer this device is writing to.
    buffer: Vec<char>,
    /// Character counts per line, recomputed after each mutation.
    line_info: Vec<usize>,
    /// Cursor offset into `buffer`.
    cursor: usize,
    /// Line number the cursor is on.
    line: usize,
}

impl View for CharDevice {
    type V = DeviceView;

    closed spec fn view(&self) -> DeviceView {
        DeviceView { buffer: self.buffer@, cursor: self.cursor as int, line: self.line as int }
    }
}

fn find_cr_exec(s: &Vec<char>, pos: usize) -> (j: usize)
    requires
        pos <= s@.len(),
    ensures
        j == find_cr(s@, pos as int),
{
    let n = s.len();
    let mut i = pos;
    while i < n && s[i] != '\r'
        invariant
            pos <= i <= n,
            n == s@.len(),
            find_cr(s@, pos as int) == find_cr(s@, i as int),
        decreases n - i,
    {
        i = i + 1;
    }
    i
}

fn push_line_info(s: &Vec<char>, pos: usize, li: &mut Vec<usize>)
    requires
        pos <= s@.len(),
    ensures
        final(li)@.map_values(|v: usize| v as int) == old(li)@.map_values(|v: usize| v as int)
            + line_lengths_from(s@, pos as int),
    decreases s@.len() - pos,
{
    let j = find_cr_exec(s, pos);
    proof {
        lemma_find_cr(s@, pos as int);
    }
    li.push(j - pos);
    if j < s.len() {
        push_line_info(s, j + 1, li);
        proof {
            assert(final(li)@.map_values(|v: usize| v as int) =~= old(li)@.map_values(
                |v: usize| v as int,
            ) + line_lengths_from(s@, pos as int));
        }
    } else {
        proof {
            assert(li@.map_values(|v: usize| v as int) =~= old(li)@.map_values(|v: usize| v as int)
                + line_lengths_from(s@, pos as int));
        }
    }
}

/// Recomputes the per-line character counts of `s` by splitting on the
/// line separator.
fn compute_line_info(s: &Vec<char>) -> (li: Vec<usize>)
    ensures
        li@.map_values(|v: usize| v as int) == line_lengths(s@),
{
    let mut li: Vec<usize> = Vec::new();
    proof {
        assert(li@.map_values(|v: usize| v as int) =~= Seq::<int>::empty());
    }
    push_line_info(s, 0, &mut li);
    proof {
        assert(li@.map_values(|v: usize| v as int) =~= line_lengths(s@));
    }
    li
}

impl CharDevice {
    /// The device's internal invariant: the cursor is in bounds, the line
    /// index counts the separators before the cursor, and the line-length
    /// index matches the buffer (it is empty only while the device has not
    /// been written to since creation or the last take).
    pub closed spec fn wf(&self) -> bool {
        &&& self.cursor <= self.buffer@.len()
        &&& self.line as int == count_cr(self.buffer@.take(self.cursor as int))
        &&& (self.line_info@.map_values(|v: usize| v as int) == line_lengths(self.buffer@)
            || (self.line_info@.len() == 0 && self.buffer@.len() == 0))
    }

    /// What `line_count` returns: the number of entries of the line-length
    /// index.
    pub closed spec fn spec_line_count(&self) -> int {
        self.line_info@.len() as int
    }

    /// A fresh, empty device.
    pub fn new() -> (d: CharDevice)
        ensures
            d.wf(),
            d@ == empty_device(),
            d.spec_line_count() == 0,
    {
        let d = CharDevice { buffer: Vec::new(), line_info: Vec::new(), cursor: 0, line: 0 };
        proof {
            assert(d@ =~= empty_device());
            assert(d.buffer@.take(0) =~= Seq::<char>::empty());
        }
        d
    }

    /// Returns the number of lines in the buffer.
    pub fn line_count(&self) -> (n: usize)
        ensures
            n as int == self.spec_line_count(),
    {
        self.line_info.len()
    }

    /// Moves the cursor to the start of line `line_no`: the sum of the
    /// preceding lines' lengths plus one separator per preceding line. An
    /// out-of-range line number is clamped to the last line; on a device
    /// that was never written to, this is a no-op.
    pub fn goto_line(&mut self, line_no: usize)
        requires
            old(self).wf(),
        ensures
            final(self).wf(),
            final(self)@.buffer == old(self)@.buffer,
            final(self).spec_line_count() == old(self).spec_line_count(),
            old(self).spec_line_count() == 0 ==> final(self)@ == old(self)@,
            old(self).spec_line_count() > 0 ==> ({
                let lines = line_lengths(old(self)@.buffer);
                let n = if line_no < lines.len() {
                    line_no as int
                } else {
                    lines.len() - 1
                };
                &&& final(self)@.line == n
                &&& final(self)@.cursor == n + sum_ints(lines.take(n))
            }),
    {
        if self.line_info.len() == 0 {
            return ;
        }
        let ghost s = self.buffer@;
        let ghost lines = line_lengths(s);
        let n = if line_no < self.line_info.len() {
            line_no
        } else {
            self.line_info.len() - 1
        };
        let total: usize = self.buffer.len();
        let mut sum: usize = 0;
        let mut i: usize = 0;
        proof {
            lemma_line_start_from(s, 0, n as int);
            assert(lines.take(0) =~= Seq::<int>::empty());
        }
        while i < n
            invariant
                i <= n,
                n < lines.len(),
                self.wf(),
                lines == line_lengths(self.buffer@),
                total as int == self.buffer@.len(),
                self.line_info@.map_values(|v: usize| v as int) == lines,
                sum as int == sum_ints(lines.take(i as int)),
                sum + i <= total,
            decreases n - i,
        {
            proof {
                lemma_line_start_from(self.buffer@, 0, i as int + 1);
                assert(lines.take(i as int + 1).drop_last() =~= lines.take(i as int));
                assert(lines.take(i as int + 1).last() == lines[i as int]);
                assert(self.line_info@.map_values(|v: usize| v as int)[i as int]
                    == self.line_info@[i as int] as int);
            }
            sum = sum + self.line_info[i];
            i = i + 1;
        }
        proof {
            lemma_line_start_from(s, 0, n as int);
        }
        self.cursor = sum + n;
        self.line = n;
    }

    /// Moves the cursor position up a line.
    pub fn cursor_up(&mut self)
        requires
            old(self).wf(),
        ensures
            final(self).wf(),
            final(self)@ == device_after_cursor_up(old(self)@),
            final(self).spec_line_count() == old(self).spec_line_count(),
    {
        if self.line > 0 {
            proof {
                if self.line_info@.len() == 0 {
                    assert(line_lengths(self.buffer@).len() >= 1);
                    assert(self.buffer@.len() == 0);
                    assert(self.buffer@.take(0) =~= Seq::<char>::empty());
                }
                self.lemma_line_in_range();
            }
            let target = self.line - 1;
            self.goto_line(target);
        }
        proof {
            assert(self@ =~= device_after_cursor_up(old(self)@));
        }
    }

    /// Moves the cursor down a line.
    pub fn cursor_down(&mut self)
        requires
            old(self).wf(),
        ensures
            final(self).wf(),
            final(self)@ == device_after_cursor_down(old(self)@),
            final(self).spec_line_count() == old(self).spec_line_count(),
    {
        if self.line_info.len() > 0 && self.line < self.line_info.len() - 1 {
            let target = self.line + 1;
            self.goto_line(target);
        }
        proof {
            if old(self).line_info@.len() == 0 {
                assert(line_lengths(old(self).buffer@).len() >= 1);
                assert(old(self).buffer@.len() == 0);
                assert(old(self).buffer@.take(0) =~= Seq::<char>::empty());
            }
            assert(self@ =~= device_after_cursor_down(old(self)@));
        }
    }

    /// With a non-empty line index, the cursor's line is in range.
    proof fn lemma_line_in_range(&self)
        requires
            self.wf(),
            self.spec_line_count() > 0,
        ensures
            self@.line < self.spec_line_count(),
    {
        lemma_count_cr_take_monotone(self.buffer@, self.cursor as int);
        lemma_lines_from_count(self.buffer@, 0);
        assert(self.buffer@.take(0) =~= Seq::<char>::empty());
    }

    /// Moves the cursor left one character. Crossing the line separator
    /// steps the line index back.
    pub fn cursor_left(&mut self)
        requires
            old(self).wf(),
        ensures
            final(self).wf(),
            final(self)@ == device_after_cursor_left(old(self)@),
            final(self).spec_line_count() == old(self).spec_line_count(),
    {
        if self.cursor > 0 {
            proof {
                lemma_count_cr_take_succ(self.buffer@, self.cursor as int - 1);
                lemma_count_cr_bound(self.buffer@.take(self.cursor as int - 1));
            }
            self.cursor = self.cursor - 1;
            if self.buffer[self.cursor] == '\r' {
                if self.line > 0 {
                    self.line = self.line - 1;
                }
            }
        }
        proof {
            assert(self@ =~= device_after_cursor_left(old(self)@));
        }
    }

    /// Moves the cursor right one character. Crossing the line separator
    /// steps the line index forward.
    pub fn cursor_right(&mut self)
        requires
            old(self).wf(),
        ensures
            final(self).wf(),
            final(self)@ == device_after_cursor_right(old(self)@),
            final(self).spec_line_count() == old(self).spec_line_count(),
    {
        if self.cursor < self.buffer.len() {
            proof {
                lemma_count_cr_take_succ(self.buffer@, self.cursor as int);
                lemma_count_cr_bound(self.buffer@.take(self.cursor as int));
                lemma_count_cr_bound(self.buffer@.take(self.cursor as int + 1));
            }
            let crossed = self.buffer[self.cursor];
            self.cursor = self.cursor + 1;
            if crossed == '\r' {
                self.line = self.line + 1;
            }
        }
        proof {
            assert(self@ =~= device_after_cursor_right(old(self)@));
        }
    }

    /// Writes the next character to the internal buffer and updates the
    /// internal counters. Backspace on a non-empty buffer with the cursor
    /// past the start removes exactly one character and steps the cursor
    /// back by one; at the start of the buffer it is a no-op.
    pub fn write_char(&mut self, next: u8)
        requires
            old(self).wf(),
        ensures
            final(self).wf(),
            final(self)@ == device_after_write(old(self)@, next as char),
            final(self).spec_line_count() == line_lengths(final(self)@.buffer).len(),
            (next == 0x7f || next == 0x08) && old(self)@.cursor > 0 ==> final(self)@.buffer.len()
                == old(self)@.buffer.len() - 1 && final(self)@.cursor == old(self)@.cursor - 1,
            (next == 0x7f || next == 0x08) && old(self)@.cursor == 0 ==> final(self)@.buffer
                == old(self)@.buffer && final(self)@.cursor == 0,
    {
        let c = next as char;
        if is_control_char(c) {
            if c == '\u{7f}' || c == '\u{8}' {
                self.backspace();
            } else if c == '\r' {
                proof {
                    lemma_count_cr_bound(self.buffer@.take(self.cursor as int));
                    assert(self.buffer@.insert(self.cursor as int, '\r').take(
                        self.cursor as int + 1,
                    ) =~= self.buffer@.take(self.cursor as int).push('\r'));
                    assert(self.buffer@.take(self.cursor as int).push('\r').drop_last()
                        =~= self.buffer@.take(self.cursor as int));
                }
                self.buffer.insert(self.cursor, '\r');
                let n: usize = self.buffer.len();
                proof {
                    assert(self.cursor < n);
                    assert(self.line as int <= self.cursor as int);
                }
                self.cursor = self.cursor + 1;
                self.line = self.line + 1;
            }
        } else if char_is_alphanumeric(c) || char_is_whitespace(c) {
            proof {
                assert(self.buffer@.insert(self.cursor as int, c).take(self.cursor as int + 1)
                    =~= self.buffer@.take(self.cursor as int).push(c));
                assert(self.buffer@.take(self.cursor as int).push(c).drop_last()
                    =~= self.buffer@.take(self.cursor as int));
            }
            self.buffer.insert(self.cursor, c);
            let n: usize = self.buffer.len();
            proof {
                assert(self.cursor < n);
            }
            self.cursor = self.cursor + 1;
        }
        self.line_info = compute_line_info(&self.buffer);
        proof {
            assert(final(self)@ =~= device_after_write(old(self)@, next as char));
        }
    }

    /// Removes the character before the cursor, if any.
    fn backspace(&mut self)
        requires
            old(self).cursor <= old(self).buffer@.len(),
            old(self).line as int == count_cr(old(self).buffer@.take(old(self).cursor as int)),
        ensures
            final(self)@ == device_after_backspace(old(self)@),
            final(self).cursor <= final(self).buffer@.len(),
            final(self).line as int == count_cr(final(self).buffer@.take(final(self).cursor as int)),
            final(self).line_info == old(self).line_info,
    {
        if self.cursor > 0 {
            proof {
                lemma_count_cr_take_succ(self.buffer@, self.cursor as int - 1);
                lemma_count_cr_bound(self.buffer@.take(self.cursor as int - 1));
                assert(self.buffer@.remove(self.cursor as int - 1).take(self.cursor as int - 1)
                    =~= self.buffer@.take(self.cursor as int - 1));
            }
            self.cursor = self.cursor - 1;
            // only '\r' acts as a separator; write_char never buffers '\n'
            let removed = self.buffer.remove(self.cursor);
            if removed == '\r' {
                if self.line > 0 {
                    self.line = self.line - 1;
                }
            }
            proof {
                assert(final(self)@ =~= device_after_backspace(old(self)@));
            }
        }
    }

    /// Returns the cursor's tail: one before the cursor, clamped to zero.
    pub fn cursor_tail(&self) -> (t: usize)
        ensures
            t as int == cursor_tail_spec(self@),
    {
        if self.cursor > 1 {
            self.cursor - 1
        } else {
            0
        }
    }

    /// Returns the string before the cursor.
    pub fn before_cursor(&self) -> (r: String)
        requires
            self.wf(),
        ensures
            r@ == before_cursor_spec(self@),
    {
        let r = self.copy_range(0, self.cursor);
        proof {
            assert(self.buffer@.subrange(0, self.cursor as int) =~= before_cursor_spec(self@));
        }
        chars_to_string(&r)
    }

    /// Returns the string after the cursor's tail.
    pub fn after_cursor(&self) -> (r: String)
        requires
            self.wf(),
        ensures
            r@ == after_cursor_spec(self@),
    {
        let tail = self.cursor_tail();
        let r = self.copy_range(tail, self.buffer.len());
        proof {
            assert(self.buffer@.subrange(cursor_tail_spec(self@), self.buffer@.len() as int)
                =~= after_cursor_spec(self@));
        }
        chars_to_string(&r)
    }

    /// Returns the current output of the buffer.
    pub fn output(&self) -> (r: String)
        ensures
            r@ == self@.buffer,
    {
        chars_to_string(&self.buffer)
    }

    /// Returns the line numbers of the current buffer, one per line,
    /// separated by the line separator.
    pub fn line_nos(&self) -> (r: String)
        ensures
            r@ == line_nos_seq(self.spec_line_count()),
    {
        let k = self.line_info.len();
        let mut v: Vec<char> = Vec::new();
        let mut i: usize = 0;
        while i < k
            invariant
                i <= k,
                v@ == line_nos_seq(i as int),
            decreases k - i,
        {
            if i == 0 {
                push_decimal(&mut v, 0);
                proof {
                    assert(v@ =~= line_nos_seq(1));
                }
            } else {
                v.push('\r');
                push_decimal(&mut v, i);
                proof {
                    assert(v@ =~= line_nos_seq(i as int + 1));
                }
            }
            i = i + 1;
        }
        chars_to_string(&v)
    }

    /// Returns the line the cursor is on; the cursor always stands on a
    /// line, so this never comes back empty.
    pub fn get_current_line(&self) -> (r: Option<String>)
        requires
            self.wf(),
        ensures
            r is Some,
            r->Some_0@ == nth_line(self@.buffer, self@.line)->Some_0,
    {
        proof {
            lemma_count_cr_take_monotone(self.buffer@, self.cursor as int);
            lemma_lines_from_count(self.buffer@, 0);
            assert(self.buffer@.take(0) =~= Seq::<char>::empty());
            lemma_nth_line_some(self.buffer@, 0, self.line as int);
        }
        self.get_line(self.line)
    }

    /// Returns the line at `line_no`, or nothing when the buffer has fewer
    /// lines.
    pub fn get_line(&self, line_no: usize) -> (r: Option<String>)
        ensures
            match r {
                Some(line) => nth_line(self@.buffer, line_no as int) == Some(line@),
                None => nth_line(self@.buffer, line_no as int) is None,
            },
    {
        match self.nth_line_exec(0, line_no) {
            Some(v) => Some(chars_to_string(&v)),
            None => None,
        }
    }

    fn nth_line_exec(&self, pos: usize, n: usize) -> (r: Option<Vec<char>>)
        requires
            pos <= self.buffer@.len(),
        ensures
            match r {
                Some(line) => nth_line_from(self@.buffer, pos as int, n as int) == Some(line@),
                None => nth_line_from(self@.buffer, pos as int, n as int) is None,
            },
        decreases self.buffer@.len() - pos,
{
        let j = find_cr_exec(&self.buffer, pos);
        proof {
            lemma_find_cr(self.buffer@, pos as int);
        }
        if n == 0 {
            Some(self.copy_range(pos, j))
        } else if j >= self.buffer.len() {
            None
        } else {
            self.nth_line_exec(j + 1, n - 1)
        }
    }

    /// The characters of `buffer[from..to]`.
    fn copy_range(&self, from: usize, to: usize) -> (r: Vec<char>)
        requires
            from <= to <= self.buffer@.len(),
        ensures
            r@ == self.buffer@.subrange(from as int, to as int),
    {
        let mut r: Vec<char> = Vec::new();
        let mut i = from;
        while i < to
            invariant
                from <= i <= to <= self.buffer@.len(),
                r@ == self.buffer@.subrange(from as int, i as int),
            decreases to - i,
        {
            r.push(self.buffer[i]);
            proof {
                assert(r@ =~= self.buffer@.subrange(from as int, i as int + 1));
            }
            i = i + 1;
        }
        proof {
            assert(r@ =~= self.buffer@.subrange(from as int, to as int));
        }
        r
    }

    /// Takes the current buffer, resetting the device to its empty initial
    /// state; ownership of the drained text passes to the caller.
    pub fn take_buffer(&mut self) -> (r: String)
        ensures
            r@ == old(self)@.buffer,
            final(self)@ == empty_device(),
            final(self).spec_line_count() == 0,
            final(self).wf(),
    {
        let r = chars_to_string(&self.buffer);
        self.buffer = Vec::new();
        self.cursor = 0;
        self.line = 0;
        self.line_info = Vec::new();
        proof {
            assert(final(self)@ =~= empty_device());
            assert(final(self).buffer@.take(0) =~= Seq::<char>::empty());
        }
        r
    }
}

impl Default for CharDevice {
    /// A fresh, empty device.
    fn default() -> (d: CharDevice)
        ensures
            d.wf(),
            d@ == empty_device(),
            d.spec_line_count() == 0,
    {
        CharDevice::new()
    }
}

// ---------------------------------------------------------------------------
// Laws
// ---------------------------------------------------------------------------

/// For every sequence of printable-character writes with no navigation,
/// starting from the empty device, the buffer holds exactly the characters
/// written and the cursor stands at the end of the buffer.
pub proof fn lemma_printable_writes(cs: Seq<char>)
    requires
        forall|i: int| 0 <= i < cs.len() ==> printable(cs[i]),
    ensures
        device_after_writes(empty_device(), cs).buffer.len() == cs.len(),
        device_after_writes(empty_device(), cs).cursor == cs.len(),
    decreases cs.len(),
{
    if cs.len() > 0 {
        lemma_printable_writes(cs.drop_last());
        let c = cs.last();
        assert(printable(c));
        assert(c as u32 != 0x7f && c as u32 != 0x8 && c as u32 != 0xd);
    }
}

/// A device that was just taken reads as empty everywhere: the buffer, the
/// text before and after the cursor are empty, and the cursor tail is zero.
pub proof fn lemma_taken_device_reads_empty(d: DeviceView)
    requires
        d == empty_device(),
    ensures
        before_cursor_spec(d) == Seq::<char>::empty(),
        after_cursor_spec(d) == Seq::<char>::empty(),
        cursor_tail_spec(d) == 0,
        d.buffer.len() == 0,
{
    assert(before_cursor_spec(d) =~= Seq::<char>::empty());
    assert(after_cursor_spec(d) =~= Seq::<char>::empty());
}

} // verus!
