//! The developer console: the captured log, its display, the input line and its history.

use vstd::prelude::*;
use crate::text::{trim, push_char, pop_char, concat_str, str_eq};
use crate::numparse::{format_decimal, decimal_text};
use crate::control::ov;

verus! {

/// Lines kept in the captured log.
pub const DEV_CONSOLE_MAX_BUFFER_LINES: usize = 10000;
/// Lines drawn at once.
pub const DEV_CONSOLE_VISIBLE_LINES: usize = 120;
/// Lines kept for display.
pub const DEV_CONSOLE_DISPLAYED_LINES_CAP: usize = 2000;

/// The severity of a log line.
#[derive(Debug, Clone, Copy, PartialEq, Eq)]
pub enum ConsoleLogLevel {
    Error,
    Warn,
    Info,
    Debug,
    Trace,
}

/// A captured log line.
#[derive(Debug)]
pub struct ConsoleLogLine {
    pub ts_epoch_ms: u64,
    pub level: ConsoleLogLevel,
    pub target: String,
    pub message: String,
}

/// A captured line with its sequence number.
#[derive(Debug)]
pub struct SequencedConsoleLogLine {
    pub seq: u64,
    pub line: ConsoleLogLine,
}

/// The captured log: the latest lines, numbered in order.
#[derive(Debug)]
pub struct ConsoleLogBuffer {
    pub lines: Vec<SequencedConsoleLogLine>,
    pub next_seq: u64,
}

/// A copy of a log line.
pub fn copy_line(l: &ConsoleLogLine) -> (r: ConsoleLogLine)
    ensures
        r.ts_epoch_ms == l.ts_epoch_ms,
        r.level == l.level,
        r.target@ == l.target@,
        r.message@ == l.message@,
{
    ConsoleLogLine { ts_epoch_ms: l.ts_epoch_ms, level: l.level, target: l.target.clone(), message: l.message.clone() }
}

impl ConsoleLogBuffer {
    /// Sequence numbers increase strictly along the lines and stay below the next one; at
    /// most the cap of lines is kept.
    pub open spec fn wf(&self) -> bool {
        &&& self.lines@.len() <= DEV_CONSOLE_MAX_BUFFER_LINES
        &&& forall|i: int, j: int| 0 <= i < j < self.lines@.len() ==> #[trigger] self.lines@[i].seq < #[trigger] self.lines@[j].seq
        &&& forall|i: int| 0 <= i < self.lines@.len() ==> #[trigger] self.lines@[i].seq < self.next_seq
    }

    /// An empty log whose first line is numbered 1.
    pub fn new() -> (r: Self)
        ensures
            r.wf(),
            r.lines@.len() == 0,
            r.next_seq == 1,
    {
        ConsoleLogBuffer { lines: Vec::new(), next_seq: 1 }
    }

    /// Appends a line with the next sequence number, dropping the oldest lines beyond the cap.
    pub fn push_line(&mut self, line: ConsoleLogLine)
        requires
            old(self).wf(),
            old(self).next_seq < u64::MAX,
        ensures
            final(self).wf(),
            final(self).next_seq == old(self).next_seq + 1,
            final(self).lines@.last().seq == old(self).next_seq,
            final(self).lines@.last().line == line,
            final(self).lines@.len() == if old(self).lines@.len() < DEV_CONSOLE_MAX_BUFFER_LINES {
                old(self).lines@.len() + 1
            } else {
                DEV_CONSOLE_MAX_BUFFER_LINES as nat
            },
            final(self).lines@ == old(self).lines@.push(SequencedConsoleLogLine { seq: old(self).next_seq, line }).subrange(
                old(self).lines@.len() + 1 - final(self).lines@.len(),
                (old(self).lines@.len() + 1) as int,
            ),
            final(self).lines@ == lines_after_push(old(self).lines@, (SequencedConsoleLogLine { seq: old(self).next_seq, line })),
    {
        let seq = self.next_seq;
        self.next_seq = self.next_seq + 1;
        let ghost pushed = self.lines@.push(SequencedConsoleLogLine { seq, line });
        self.lines.push(SequencedConsoleLogLine { seq, line });
        let ghost mut dropped: int = 0;
        while self.lines.len() > DEV_CONSOLE_MAX_BUFFER_LINES
            invariant
                old(self).wf(),
                seq == old(self).next_seq,
                self.next_seq == seq + 1,
                pushed == old(self).lines@.push(SequencedConsoleLogLine { seq, line }),
                0 <= dropped <= pushed.len(),
                self.lines@ == pushed.subrange(dropped, pushed.len() as int),
                self.lines@.len() >= 1,
                self.lines@.len() <= DEV_CONSOLE_MAX_BUFFER_LINES + 1,
                dropped == 0 || self.lines@.len() == DEV_CONSOLE_MAX_BUFFER_LINES,
            decreases self.lines.len(),
        {
            self.lines.remove(0);
            proof {
                dropped = dropped + 1;
            }
            assert(self.lines@ =~= pushed.subrange(dropped, pushed.len() as int));
        }
        proof {
            let n = self.lines@;
            assert(n.last() == pushed.last());
            assert forall|i: int, j: int| 0 <= i < j < n.len() implies #[trigger] n[i].seq < #[trigger] n[j].seq by {
                assert(n[i] == pushed[i + dropped]);
                assert(n[j] == pushed[j + dropped]);
                if j + dropped < pushed.len() - 1 {
                    assert(old(self).lines@[i + dropped].seq < old(self).lines@[j + dropped].seq);
                } else {
                    assert(old(self).lines@[i + dropped].seq < old(self).next_seq);
                }
            }
            assert forall|i: int| 0 <= i < n.len() implies #[trigger] n[i].seq < self.next_seq by {
                assert(n[i] == pushed[i + dropped]);
                if i + dropped < pushed.len() - 1 {
                    assert(old(self).lines@[i + dropped].seq < old(self).next_seq);
                }
            }
            if pushed.len() <= DEV_CONSOLE_MAX_BUFFER_LINES {
                assert(n =~= pushed);
            } else {
                assert(n =~= pushed.subrange(pushed.len() - DEV_CONSOLE_MAX_BUFFER_LINES, pushed.len() as int));
            }
        }
    }
}

/// The numbers a reader has already seen: all up to `last_seq`, or, when lines before the
/// oldest kept one were dropped, up to just before the oldest kept line.
pub open spec fn effective_last_seq(lines: Seq<SequencedConsoleLogLine>, last_seq: u64) -> u64 {
    let first = if lines.len() > 0 { lines[0].seq } else { last_seq.saturating_add(1) };
    if (last_seq as int) < first.saturating_sub(1) as int { first.saturating_sub(1) } else { last_seq }
}

/// The lines numbered after `after`, in order.
pub open spec fn lines_after(lines: Seq<SequencedConsoleLogLine>, after: u64) -> Seq<SequencedConsoleLogLine>
    decreases lines.len(),
{
    if lines.len() == 0 {
        Seq::empty()
    } else {
        let p = lines_after(lines.drop_last(), after);
        if lines.last().seq > after { p.push(lines.last()) } else { p }
    }
}

impl ConsoleLogBuffer {
    /// The lines a reader that has seen everything up to `last_seq` has not seen yet, and the
    /// newest sequence number (`last_seq` when the log is empty).
    pub fn read_since(&self, last_seq: u64) -> (r: (u64, Vec<ConsoleLogLine>))
        ensures
            r.0 == if self.lines@.len() > 0 { self.lines@.last().seq } else { last_seq },
            r.1@.len() == lines_after(self.lines@, effective_last_seq(self.lines@, last_seq)).len(),
            forall|k: int| 0 <= k < r.1@.len() ==> {
                let src = lines_after(self.lines@, effective_last_seq(self.lines@, last_seq))[k].line;
                &&& (#[trigger] r.1@[k]).ts_epoch_ms == src.ts_epoch_ms
                &&& r.1@[k].level == src.level
                &&& r.1@[k].target@ == src.target@
                &&& r.1@[k].message@ == src.message@
            },
    {
        let n = self.lines.len();
        let newest = if n > 0 { self.lines[n - 1].seq } else { last_seq };
        let first = if n > 0 { self.lines[0].seq } else { last_seq.saturating_add(1) };
        let effective = if last_seq < first.saturating_sub(1) { first.saturating_sub(1) } else { last_seq };
        let ghost ls = self.lines@;
        let mut out: Vec<ConsoleLogLine> = Vec::new();
        let mut i: usize = 0;
        assert(ls.take(0) =~= Seq::<SequencedConsoleLogLine>::empty());
        while i < n
            invariant
                ls == self.lines@,
                n == ls.len(),
                i <= n,
                out@.len() == lines_after(ls.take(i as int), effective).len(),
                forall|k: int| 0 <= k < out@.len() ==> {
                    let src = lines_after(ls.take(i as int), effective)[k].line;
                    &&& (#[trigger] out@[k]).ts_epoch_ms == src.ts_epoch_ms
                    &&& out@[k].level == src.level
                    &&& out@[k].target@ == src.target@
                    &&& out@[k].message@ == src.message@
                },
            decreases n - i,
        {
            assert(ls.take(i + 1).drop_last() =~= ls.take(i as int));
            assert(ls.take(i + 1).last() == ls[i as int]);
            if self.lines[i].seq > effective {
                let ghost before = lines_after(ls.take(i as int), effective);
                out.push(copy_line(&self.lines[i].line));
                assert(lines_after(ls.take(i + 1), effective) == before.push(ls[i as int]));
            }
            i = i + 1;
        }
        assert(ls.take(i as int) =~= ls);
        (newest, out)
    }
}

/// No line numbered after `after` is among lines all numbered up to it.
proof fn lemma_lines_after_none(lines: Seq<SequencedConsoleLogLine>, after: u64)
    requires
        forall|i: int| 0 <= i < lines.len() ==> #[trigger] lines[i].seq <= after,
    ensures
        lines_after(lines, after).len() == 0,
    decreases lines.len(),
{
    if lines.len() > 0 {
        assert forall|i: int| 0 <= i < lines.drop_last().len() implies #[trigger] lines.drop_last()[i].seq <= after by {
            assert(lines.drop_last()[i] == lines[i]);
        }
        lemma_lines_after_none(lines.drop_last(), after);
    }
}

/// A reader that has read up to the newest line finds nothing new.
pub proof fn lemma_console_reader_caught_up(b: ConsoleLogBuffer)
    requires
        b.wf(),
        b.lines@.len() > 0,
    ensures
        lines_after(b.lines@, effective_last_seq(b.lines@, b.lines@.last().seq)).len() == 0,
{
    let s = b.lines@;
    let last = s.last().seq;
    if s.len() > 1 {
        assert(s[0].seq < s[s.len() - 1].seq);
    }
    assert(effective_last_seq(s, last) == last);
    assert forall|i: int| 0 <= i < s.len() implies #[trigger] s[i].seq <= last by {
        if i < s.len() - 1 {
            assert(s[i].seq < s[s.len() - 1].seq);
        }
    }
    lemma_lines_after_none(s, last);
}

/// A reader that has read up to the newest line reads, once one more line is pushed, exactly
/// that line (the buffer after the push is as `push_line` leaves it).
pub proof fn lemma_console_reader_sees_next_line(old_b: ConsoleLogBuffer, new_b: ConsoleLogBuffer, line: ConsoleLogLine)
    requires
        old_b.wf(),
        old_b.lines@.len() > 0,
        old_b.next_seq < u64::MAX,
        new_b.lines@.len() == if old_b.lines@.len() < DEV_CONSOLE_MAX_BUFFER_LINES {
            old_b.lines@.len() + 1
        } else {
            DEV_CONSOLE_MAX_BUFFER_LINES as nat
        },
        new_b.lines@ == old_b.lines@.push((SequencedConsoleLogLine { seq: old_b.next_seq, line })).subrange(
            old_b.lines@.len() + 1 - new_b.lines@.len(),
            (old_b.lines@.len() + 1) as int,
        ),
    ensures
        lines_after(new_b.lines@, effective_last_seq(new_b.lines@, old_b.lines@.last().seq)) == seq![
            (SequencedConsoleLogLine { seq: old_b.next_seq, line }),
        ],
{
    let s = old_b.lines@;
    let x = SequencedConsoleLogLine { seq: old_b.next_seq, line };
    let t = new_b.lines@;
    let c = s.last().seq;
    let d = s.len() + 1 - t.len();
    assert(d == 0 || d == 1);
    assert(t.len() >= 2);
    assert(t.last() == x);
    assert(t[0] == s[d as int]);
    if d as int <= s.len() - 1 {
        if (d as int) < s.len() - 1 {
            assert(s[d as int].seq < s[s.len() - 1].seq);
        }
    }
    assert(effective_last_seq(t, c) == c);
    assert forall|i: int| 0 <= i < t.drop_last().len() implies #[trigger] t.drop_last()[i].seq <= c by {
        assert(t.drop_last()[i] == s[i + d]);
        if i + d < s.len() - 1 {
            assert(s[i + d].seq < s[s.len() - 1].seq);
        }
    }
    lemma_lines_after_none(t.drop_last(), c);
    assert(s[s.len() - 1].seq < old_b.next_seq);
    assert(lines_after(t, c) =~= seq![x]);
}

/// The lines after pushing `x`, the oldest dropped beyond the cap (as `push_line` leaves them).
pub open spec fn lines_after_push(s: Seq<SequencedConsoleLogLine>, x: SequencedConsoleLogLine) -> Seq<SequencedConsoleLogLine> {
    let p = s.push(x);
    if p.len() > DEV_CONSOLE_MAX_BUFFER_LINES {
        p.subrange(p.len() - DEV_CONSOLE_MAX_BUFFER_LINES, p.len() as int)
    } else {
        p
    }
}

/// The lines `ls` numbered from `next_seq` on.
pub open spec fn numbered_from(next_seq: u64, ls: Seq<ConsoleLogLine>) -> Seq<SequencedConsoleLogLine> {
    Seq::new(ls.len(), |i: int| SequencedConsoleLogLine { seq: (next_seq + i) as u64, line: ls[i] })
}

/// The lines after pushing `ls` in order, the first numbered `next_seq`.
pub open spec fn lines_after_pushes(
    s: Seq<SequencedConsoleLogLine>,
    next_seq: u64,
    ls: Seq<ConsoleLogLine>,
) -> Seq<SequencedConsoleLogLine>
    decreases ls.len(),
{
    if ls.len() == 0 {
        s
    } else {
        lines_after_push(
            lines_after_pushes(s, next_seq, ls.drop_last()),
            SequencedConsoleLogLine { seq: (next_seq + ls.len() - 1) as u64, line: ls.last() },
        )
    }
}

/// Pushing lines keeps the newest ones: the old lines and the pushed ones, less the oldest
/// beyond the cap.
proof fn lemma_lines_after_pushes_suffix(s: Seq<SequencedConsoleLogLine>, next_seq: u64, ls: Seq<ConsoleLogLine>)
    requires
        s.len() <= DEV_CONSOLE_MAX_BUFFER_LINES,
    ensures
        ({
            let all = s + numbered_from(next_seq, ls);
            let d = if all.len() > DEV_CONSOLE_MAX_BUFFER_LINES { all.len() - DEV_CONSOLE_MAX_BUFFER_LINES } else { 0 };
            lines_after_pushes(s, next_seq, ls) == all.subrange(d, all.len() as int)
        }),
    decreases ls.len(),
{
    let all = s + numbered_from(next_seq, ls);
    if ls.len() == 0 {
        assert(all =~= s);
        assert(all.subrange(0, all.len() as int) =~= s);
    } else {
        let prev_ls = ls.drop_last();
        lemma_lines_after_pushes_suffix(s, next_seq, prev_ls);
        let prev_all = s + numbered_from(next_seq, prev_ls);
        let pd = if prev_all.len() > DEV_CONSOLE_MAX_BUFFER_LINES { prev_all.len() - DEV_CONSOLE_MAX_BUFFER_LINES } else { 0 };
        let a = prev_all.subrange(pd, prev_all.len() as int);
        let x = SequencedConsoleLogLine { seq: (next_seq + ls.len() - 1) as u64, line: ls.last() };
        assert(all =~= prev_all.push(x));
        assert(a.push(x) =~= all.subrange(pd, all.len() as int));
        let d = if all.len() > DEV_CONSOLE_MAX_BUFFER_LINES { all.len() - DEV_CONSOLE_MAX_BUFFER_LINES } else { 0 };
        let p = a.push(x);
        if p.len() > DEV_CONSOLE_MAX_BUFFER_LINES {
            assert(p.subrange(p.len() - DEV_CONSOLE_MAX_BUFFER_LINES, p.len() as int) =~= all.subrange(d, all.len() as int));
        } else {
            assert(d == pd);
        }
    }
}

/// The lines after `e` of old lines numbered up to `e` followed by new lines numbered after it
/// are the new lines.
proof fn lemma_lines_after_new(old_part: Seq<SequencedConsoleLogLine>, new_part: Seq<SequencedConsoleLogLine>, e: u64)
    requires
        forall|i: int| 0 <= i < old_part.len() ==> #[trigger] old_part[i].seq <= e,
        forall|i: int| 0 <= i < new_part.len() ==> #[trigger] new_part[i].seq > e,
    ensures
        lines_after(old_part + new_part, e) == new_part,
    decreases new_part.len(),
{
    if new_part.len() == 0 {
        assert(old_part + new_part =~= old_part);
        lemma_lines_after_none(old_part, e);
        assert(lines_after(old_part, e) =~= new_part);
    } else {
        let shorter = new_part.drop_last();
        lemma_lines_after_new(old_part, shorter, e);
        assert((old_part + new_part).drop_last() =~= old_part + shorter);
        assert((old_part + new_part).last() == new_part.last());
        assert(shorter.push(new_part.last()) =~= new_part);
    }
}

/// The lines after `e` of lines numbered consecutively from `base + 1` are those from
/// position `e - base` on.
proof fn lemma_lines_after_consecutive(t: Seq<SequencedConsoleLogLine>, base: int, e: u64)
    requires
        forall|i: int| 0 <= i < t.len() ==> #[trigger] t[i].seq == base + 1 + i,
    ensures
        lines_after(t, e) == t.skip(if e - base < 0 { 0 } else if e - base > t.len() { t.len() as int } else { e - base }),
    decreases t.len(),
{
    let c = if e - base < 0 { 0 } else if e - base > t.len() { t.len() as int } else { e - base };
    if t.len() == 0 {
        assert(t.skip(c) =~= t);
        assert(lines_after(t, e) =~= t);
    } else {
        let d = t.drop_last();
        assert forall|i: int| 0 <= i < d.len() implies #[trigger] d[i].seq == base + 1 + i by {
            assert(d[i] == t[i]);
        }
        lemma_lines_after_consecutive(d, base, e);
        assert(t.last().seq == base + t.len());
        if (e as int) < base + t.len() {
            assert(t.skip(c) =~= d.skip(c).push(t.last()));
        } else {
            assert(d.skip(d.len() as int) =~= Seq::<SequencedConsoleLogLine>::empty());
            assert(t.skip(c) =~= Seq::<SequencedConsoleLogLine>::empty());
        }
    }
}

/// A reader of a log that started empty and took the lines `ls` in order: `read_since(k)`
/// returns the lines numbered after `k` that the buffer still holds (the last
/// `DEV_CONSOLE_MAX_BUFFER_LINES`), in order, and the newest number `ls.len()` (`k` when
/// nothing was pushed). Reading leaves the buffer as it is, so reading again gives the same.
pub proof fn lemma_console_read_since_after_pushes(ls: Seq<ConsoleLogLine>, k: u64)
    requires
        ls.len() < u64::MAX,
    ensures
        ({
            let b = lines_after_pushes(Seq::empty(), 1, ls);
            let n = ls.len() as int;
            let d = if n > DEV_CONSOLE_MAX_BUFFER_LINES { n - DEV_CONSOLE_MAX_BUFFER_LINES } else { 0 };
            let m = if k as int > n { n } else if (k as int) < d { d } else { k as int };
            &&& (if b.len() > 0 { b.last().seq as int } else { k as int }) == (if n > 0 { n } else { k as int })
            &&& lines_after(b, effective_last_seq(b, k)) == numbered_from(1, ls).subrange(m, n)
        }),
{
    let all = numbered_from(1, ls);
    let n = ls.len() as int;
    lemma_lines_after_pushes_suffix(Seq::empty(), 1, ls);
    assert(Seq::<SequencedConsoleLogLine>::empty() + all =~= all);
    let d = if n > DEV_CONSOLE_MAX_BUFFER_LINES { n - DEV_CONSOLE_MAX_BUFFER_LINES } else { 0 };
    let b = lines_after_pushes(Seq::empty(), 1, ls);
    assert(b == all.subrange(d, n));
    assert forall|i: int| 0 <= i < b.len() implies #[trigger] b[i].seq == d + 1 + i by {
        assert(b[i] == all[d + i]);
    }
    let e = effective_last_seq(b, k);
    lemma_lines_after_consecutive(b, d, e);
    let m = if k as int > n { n } else if (k as int) < d { d } else { k as int };
    if b.len() > 0 {
        assert(b[0].seq == d + 1);
        assert(b.last().seq == n);
        assert(e as int == if (k as int) < d { d } else { k as int });
    } else {
        assert(n == 0);
    }
    assert(b.skip(m - d) =~= all.subrange(m, n));
}

/// A reader that has read up to the newest line reads, after up to a buffer's worth of pushes,
/// exactly the pushed lines, numbered in order from the buffer's next number.
pub proof fn lemma_console_reader_sees_pushed_lines(b: ConsoleLogBuffer, ls: Seq<ConsoleLogLine>)
    requires
        b.wf(),
        b.lines@.len() > 0,
        ls.len() <= DEV_CONSOLE_MAX_BUFFER_LINES,
        b.next_seq + ls.len() <= u64::MAX,
    ensures
        ({
            let after = lines_after_pushes(b.lines@, b.next_seq, ls);
            lines_after(after, effective_last_seq(after, b.lines@.last().seq)) == numbered_from(b.next_seq, ls)
        }),
{
    let s = b.lines@;
    let c = s.last().seq;
    let nw = numbered_from(b.next_seq, ls);
    let all = s + nw;
    let d = if all.len() > DEV_CONSOLE_MAX_BUFFER_LINES { all.len() - DEV_CONSOLE_MAX_BUFFER_LINES } else { 0 };
    lemma_lines_after_pushes_suffix(s, b.next_seq, ls);
    let t = lines_after_pushes(s, b.next_seq, ls);
    assert(d <= s.len());
    let old_part = s.subrange(d, s.len() as int);
    assert(t =~= old_part + nw);
    assert forall|i: int| 0 <= i < s.len() implies #[trigger] s[i].seq <= c by {
        if i < s.len() - 1 {
            assert(s[i].seq < s[s.len() - 1].seq);
        }
    }
    assert(c < b.next_seq);
    let e = effective_last_seq(t, c);
    assert(e >= c);
    if t.len() > 0 {
        if d < s.len() {
            assert(t[0] == s[d]);
        } else {
            assert(t[0] == nw[0]);
        }
    }
    assert(e < b.next_seq);
    assert forall|i: int| 0 <= i < old_part.len() implies #[trigger] old_part[i].seq <= e by {
        assert(old_part[i] == s[i + d]);
    }
    assert forall|i: int| 0 <= i < nw.len() implies #[trigger] nw[i].seq > e by {}
    lemma_lines_after_new(old_part, nw, e);
}

/// Whether `c` is a control character (general category Cc).
pub open spec fn is_control_spec(c: char) -> bool {
    (c as u32) <= 0x1f || (0x7f <= (c as u32) && (c as u32) <= 0x9f)
}

/// Whether `c` is a control character (general category Cc).
pub fn is_control_char(c: char) -> (r: bool)
    ensures
        r == is_control_spec(c),
{
    let v = c as u32;
    v <= 0x1f || (0x7f <= v && v <= 0x9f)
}

/// The characters of `s` that are not control characters, in order.
pub open spec fn printable_part(s: Seq<char>) -> Seq<char>
    decreases s.len(),
{
    if s.len() == 0 {
        Seq::empty()
    } else {
        let p = printable_part(s.drop_last());
        if is_control_spec(s.last()) { p } else { p.push(s.last()) }
    }
}

/// A key press that the open console handles.
#[derive(Debug)]
pub enum ConsoleKey {
    Enter,
    Backspace,
    ArrowUp,
    ArrowDown,
    /// A key that produced text.
    Text(String),
    /// Any other key.
    Other,
}

/// The console: whether it is open, the input line, the command history and the lines shown.
#[derive(Debug)]
pub struct DevConsoleState {
    pub is_open: bool,
    pub input_line: String,
    pub history: Vec<String>,
    pub history_index: Option<usize>,
    pub log_cursor_seq: u64,
    pub displayed_lines: Vec<ConsoleLogLine>,
    pub logs_dirty: bool,
}

impl DevConsoleState {
    /// A closed console with nothing typed or shown.
    pub fn new() -> (r: Self)
        ensures
            !r.is_open,
            r.input_line@.len() == 0,
            r.history@.len() == 0,
            r.history_index is None,
            r.log_cursor_seq == 0,
            r.displayed_lines@.len() == 0,
            r.logs_dirty,
    {
        DevConsoleState {
            is_open: false,
            input_line: String::new(),
            history: Vec::new(),
            history_index: None,
            log_cursor_seq: 0,
            displayed_lines: Vec::new(),
            logs_dirty: true,
        }
    }

    /// A history index, when present, points into the history.
    pub open spec fn wf(&self) -> bool {
        self.history_index matches Some(i) ==> i < self.history@.len()
    }
}

/// Whether the console is open.
pub fn is_console_open(state: Option<&DevConsoleState>) -> (r: bool)
    ensures
        r == (state matches Some(s) && s.is_open),
{
    match state {
        Some(s) => s.is_open,
        None => false,
    }
}

/// Opens or closes the console; the history browsing restarts.
pub fn toggle_dev_console(state: &mut DevConsoleState)
    ensures
        final(state).is_open == !old(state).is_open,
        final(state).history_index is None,
        final(state).logs_dirty,
        final(state).input_line == old(state).input_line,
        final(state).history == old(state).history,
{
    state.is_open = !state.is_open;
    state.history_index = None;
    state.logs_dirty = true;
}

/// What a log line shows: time, level, target and message.
pub open spec fn line_view(l: ConsoleLogLine) -> (u64, ConsoleLogLevel, Seq<char>, Seq<char>) {
    (l.ts_epoch_ms, l.level, l.target@, l.message@)
}

/// What each of the lines shows.
pub open spec fn line_views(s: Seq<ConsoleLogLine>) -> Seq<(u64, ConsoleLogLevel, Seq<char>, Seq<char>)> {
    s.map_values(|l: ConsoleLogLine| line_view(l))
}

/// What each of the numbered lines shows.
pub open spec fn seq_line_views(s: Seq<SequencedConsoleLogLine>) -> Seq<(u64, ConsoleLogLevel, Seq<char>, Seq<char>)> {
    s.map_values(|l: SequencedConsoleLogLine| line_view(l.line))
}

/// The last `n` items of `s` (all of them when it is shorter).
pub open spec fn last_n<A>(s: Seq<A>, n: int) -> Seq<A> {
    if s.len() > n { s.subrange(s.len() - n, s.len() as int) } else { s }
}

/// Shows the log lines not seen yet after those shown, keeping only the newest lines up to
/// the display cap.
pub fn sync_dev_console_log_lines(state: &mut DevConsoleState, buffer: &ConsoleLogBuffer)
    ensures
        ({
            let fresh = lines_after(buffer.lines@, effective_last_seq(buffer.lines@, old(state).log_cursor_seq));
            if fresh.len() == 0 {
                *final(state) == *old(state)
            } else {
                &&& final(state).log_cursor_seq == buffer.lines@.last().seq
                &&& final(state).logs_dirty
                &&& line_views(final(state).displayed_lines@) == last_n(
                    line_views(old(state).displayed_lines@) + seq_line_views(fresh),
                    DEV_CONSOLE_DISPLAYED_LINES_CAP as int,
                )
                &&& final(state).history == old(state).history
                &&& final(state).history_index == old(state).history_index
                &&& final(state).input_line == old(state).input_line
                &&& final(state).is_open == old(state).is_open
            }
        }),
{
    let ghost fresh = lines_after(buffer.lines@, effective_last_seq(buffer.lines@, state.log_cursor_seq));
    let (newest, lines) = buffer.read_since(state.log_cursor_seq);
    if lines.len() == 0 {
        return;
    }
    proof {
        if buffer.lines@.len() == 0 {
            assert(fresh.len() == 0);
        }
    }
    assert(line_views(lines@) =~= seq_line_views(fresh));
    state.log_cursor_seq = newest;
    let ghost d0 = line_views(state.displayed_lines@);
    let ghost all = d0 + line_views(lines@);
    let ghost h = state.history;
    let ghost hi = state.history_index;
    let ghost input = state.input_line;
    let ghost open = state.is_open;
    let mut i: usize = 0;
    while i < lines.len()
        invariant
            i <= lines@.len(),
            all == d0 + line_views(lines@),
            line_views(state.displayed_lines@) == all.take(d0.len() + i),
            state.log_cursor_seq == newest,
            state.history == h,
            state.history_index == hi,
            state.input_line == input,
            state.is_open == open,
        decreases lines.len() - i,
    {
        let ghost before = state.displayed_lines@;
        let c = copy_line(&lines[i as usize]);
        assert(line_view(c) == line_views(lines@)[i as int]);
        assert(all[d0.len() + i] == line_views(lines@)[i as int]);
        state.displayed_lines.push(c);
        assert(line_views(state.displayed_lines@) =~= line_views(before).push(line_view(c)));
        assert(all.take(d0.len() + i + 1) =~= all.take(d0.len() + i).push(all[d0.len() + i]));
        i = i + 1;
    }
    assert(all.take(d0.len() + i) =~= all);
    while state.displayed_lines.len() > DEV_CONSOLE_DISPLAYED_LINES_CAP
        invariant
            line_views(state.displayed_lines@) == all.subrange(all.len() - state.displayed_lines@.len(), all.len() as int),
            state.displayed_lines@.len() <= all.len(),
            all.len() <= DEV_CONSOLE_DISPLAYED_LINES_CAP ==> state.displayed_lines@.len() == all.len(),
            all.len() > DEV_CONSOLE_DISPLAYED_LINES_CAP ==> DEV_CONSOLE_DISPLAYED_LINES_CAP <= state.displayed_lines@.len(),
            state.log_cursor_seq == newest,
            state.history == h,
            state.history_index == hi,
            state.input_line == input,
            state.is_open == open,
        decreases state.displayed_lines.len(),
    {
        let ghost before = state.displayed_lines@;
        state.displayed_lines.remove(0);
        assert(state.displayed_lines@ =~= before.subrange(1, before.len() as int));
        assert(line_views(state.displayed_lines@) =~= line_views(before).subrange(1, before.len() as int));
        assert(line_views(state.displayed_lines@) =~= all.subrange(all.len() - state.displayed_lines@.len(), all.len() as int));
    }
    assert(line_views(state.displayed_lines@) =~= last_n(all, DEV_CONSOLE_DISPLAYED_LINES_CAP as int));
    state.logs_dirty = true;
}

/// What the open console did with this frame's keys.
#[derive(Debug)]
pub enum ConsoleInputOutcome {
    /// The console is closed: keys are not for it.
    Closed,
    /// Escape closed it.
    Dismissed,
    /// Keys were taken into the input line.
    Edited,
    /// A command was submitted: these lines go to the log.
    Submitted { echo: String, reply: String },
}

/// One history step up: from nothing to the newest entry, else one older, staying at the oldest.
pub open spec fn history_up(index: Option<usize>, len: nat) -> usize {
    match index {
        Some(i) => if i > 0 { (i - 1) as usize } else { i },
        None => if len > 0 { (len - 1) as usize } else { 0 },
    }
}

/// One history step down: one newer, or back to nothing past the newest.
pub open spec fn history_down(index: Option<usize>, len: nat) -> Option<usize> {
    match index {
        Some(i) => if i + 1 < len { Some((i + 1) as usize) } else { None },
        None => None,
    }
}

/// Applies one key to the open console's input line. Returns whether it asks to submit.
pub fn apply_console_key(state: &mut DevConsoleState, key: &ConsoleKey) -> (submit: bool)
    requires
        old(state).wf(),
    ensures
        final(state).wf(),
        final(state).history == old(state).history,
        final(state).is_open == old(state).is_open,
        final(state).displayed_lines == old(state).displayed_lines,
        submit == (key is Enter),
        match key {
            ConsoleKey::Enter => *final(state) == *old(state),
            ConsoleKey::Backspace => final(state).input_line@ == if old(state).input_line@.len() > 0 {
                old(state).input_line@.drop_last()
            } else {
                old(state).input_line@
            } && final(state).history_index == old(state).history_index,
            ConsoleKey::ArrowUp => if old(state).history@.len() == 0 {
                *final(state) == *old(state)
            } else {
                let i = history_up(old(state).history_index, old(state).history@.len());
                final(state).history_index == Some(i) && final(state).input_line@ == old(state).history@[i as int]@
            },
            ConsoleKey::ArrowDown => if old(state).history@.len() == 0 {
                *final(state) == *old(state)
            } else {
                let n = history_down(old(state).history_index, old(state).history@.len());
                &&& final(state).history_index == n
                &&& final(state).input_line@ == match n {
                    Some(i) => old(state).history@[i as int]@,
                    None => Seq::<char>::empty(),
                }
            },
            ConsoleKey::Text(t) => final(state).input_line@ == old(state).input_line@ + printable_part(t@)
                && final(state).history_index == old(state).history_index,
            ConsoleKey::Other => *final(state) == *old(state),
        },
{
    match key {
        ConsoleKey::Enter => true,
        ConsoleKey::Backspace => {
            let _ = pop_char(&mut state.input_line);
            false
        },
        ConsoleKey::ArrowUp => {
            if state.history.len() == 0 {
                return false;
            }
            let next = match state.history_index {
                Some(i) => if i > 0 { i - 1 } else { i },
                None => state.history.len() - 1,
            };
            state.history_index = Some(next);
            state.input_line = state.history[next].clone();
            false
        },
        ConsoleKey::ArrowDown => {
            if state.history.len() == 0 {
                return false;
            }
            let next = match state.history_index {
                Some(i) => if i + 1 < state.history.len() { Some(i + 1) } else { None },
                None => None,
            };
            state.history_index = next;
            state.input_line = match next {
                Some(i) => state.history[i].clone(),
                None => String::new(),
            };
            false
        },
        ConsoleKey::Text(t) => {
            let chars = crate::text::chars_of(t.as_str());
            let ghost base = state.input_line@;
            let mut i: usize = 0;
            assert(t@.take(0) =~= Seq::<char>::empty());
            while i < chars.len()
                invariant
                    chars@ == t@,
                    i <= chars@.len(),
                    state.input_line@ == base + printable_part(t@.take(i as int)),
                    state.history == old(state).history,
                    state.history_index == old(state).history_index,
                    state.is_open == old(state).is_open,
                    state.displayed_lines == old(state).displayed_lines,
                    old(state).wf(),
                decreases chars.len() - i,
            {
                let c = chars[i];
                assert(t@.take(i + 1).drop_last() =~= t@.take(i as int));
                assert(t@.take(i + 1).last() == c);
                if !is_control_char(c) {
                    push_char(&mut state.input_line, c);
                    assert(state.input_line@ =~= base + printable_part(t@.take(i + 1)));
                }
                i = i + 1;
            }
            assert(t@.take(i as int) =~= t@);
            false
        },
        ConsoleKey::Other => false,
    }
}

/// Submits the input line: a blank line is just cleared; otherwise the trimmed command enters
/// the history (unless it repeats the newest entry), browsing restarts, and the echo and the
/// reply go to the log.
pub fn submit_console_command(state: &mut DevConsoleState) -> (r: Option<(String, String)>)
    requires
        old(state).wf(),
    ensures
        final(state).wf(),
        final(state).input_line@.len() == 0,
        ({
            let cmd = crate::text::trimmed(old(state).input_line@);
            if cmd.len() == 0 {
                r is None && final(state).history == old(state).history && final(state).history_index
                    == old(state).history_index
            } else {
                &&& r matches Some((echo, reply)) && echo@ == "> "@ + cmd && reply@ == "not implemented yet"@
                &&& final(state).history_index is None
                &&& if old(state).history@.len() > 0 && old(state).history@.last()@ == cmd {
                    final(state).history@ == old(state).history@
                } else {
                    final(state).history@.len() == old(state).history@.len() + 1 && final(state).history@.last()@ == cmd
                        && final(state).history@.drop_last() == old(state).history@
                }
            }
        }),
{
    let command = trim(state.input_line.as_str()).to_string();
    if command.as_str().unicode_len() == 0 {
        state.input_line = String::new();
        return None;
    }
    let repeat = if state.history.len() > 0 {
        let n = state.history.len();
        state.history[n - 1] == command
    } else {
        false
    };
    if !repeat {
        let ghost h0 = state.history@;
        state.history.push(command.clone());
        assert(state.history@.drop_last() =~= h0);
    }
    state.history_index = None;
    let echo = concat_str("> ", command.as_str());
    state.input_line = String::new();
    Some((echo, "not implemented yet".to_string()))
}

/// A log record's message and its other fields as `name=value`.
#[derive(Debug)]
pub struct ConsoleFieldVisitor {
    pub message: Option<String>,
    pub extras: Vec<String>,
}

/// The strings joined with single spaces.
pub open spec fn join_spaces(s: Seq<Seq<char>>) -> Seq<char>
    decreases s.len(),
{
    if s.len() == 0 {
        Seq::empty()
    } else if s.len() == 1 {
        s[0]
    } else {
        join_spaces(s.drop_last()) + " "@ + s.last()
    }
}

/// The characters of each string.
pub open spec fn views(s: Seq<String>) -> Seq<Seq<char>> {
    s.map_values(|x: String| x@)
}

/// The strings joined with single spaces.
pub fn join_with_spaces(parts: &Vec<String>) -> (r: String)
    ensures
        r@ == join_spaces(views(parts@)),
{
    let ghost v = views(parts@);
    let mut out = String::new();
    let mut i: usize = 0;
    assert(v.take(0) =~= Seq::<Seq<char>>::empty());
    while i < parts.len()
        invariant
            v == views(parts@),
            i <= parts@.len(),
            out@ == join_spaces(v.take(i as int)),
        decreases parts.len() - i,
    {
        assert(v.take(i + 1).drop_last() =~= v.take(i as int));
        assert(v.take(i + 1).last() == parts@[i as int]@);
        if i > 0 {
            out.append(" ");
        }
        out.append(parts[i].as_str());
        proof {
            if i == 0 {
                assert(v.take(1) =~= seq![parts@[0]@]);
            }
        }
        assert(out@ =~= join_spaces(v.take(i + 1)));
        i = i + 1;
    }
    assert(v.take(i as int) =~= v);
    out
}

impl ConsoleFieldVisitor {
    pub fn new() -> (r: Self)
        ensures
            r.message is None,
            r.extras@.len() == 0,
    {
        ConsoleFieldVisitor { message: None, extras: Vec::new() }
    }

    /// Records a field: `message` is the message, any other becomes `name=value`.
    pub fn record_value(&mut self, field_name: &str, value: String)
        ensures
            field_name@ == "message"@ ==> ov(final(self).message) == Some(value@) && final(self).extras == old(self).extras,
            field_name@ != "message"@ ==> final(self).message == old(self).message && views(final(self).extras@) == views(
                old(self).extras@,
            ).push(field_name@ + "="@ + value@),
    {
        if str_eq(field_name, "message") {
            self.message = Some(value);
        } else {
            let mut entry = concat_str(field_name, "=");
            entry.append(value.as_str());
            let ghost e0 = views(self.extras@);
            self.extras.push(entry);
            assert(views(self.extras@) =~= e0.push(field_name@ + "="@ + value@));
        }
    }

    /// The text of the record: the message, then the other fields; `<event>` when empty.
    pub fn render_message(self) -> (r: String)
        ensures
            r@ == match self.message {
                Some(m) => if self.extras@.len() == 0 { m@ } else { m@ + " "@ + join_spaces(views(self.extras@)) },
                None => if self.extras@.len() == 0 { "<event>"@ } else { join_spaces(views(self.extras@)) },
            },
    {
        match self.message {
            Some(m) => {
                if self.extras.len() == 0 {
                    m
                } else {
                    let mut out = concat_str(m.as_str(), " ");
                    let rest = join_with_spaces(&self.extras);
                    out.append(rest.as_str());
                    out
                }
            },
            None => {
                if self.extras.len() == 0 {
                    "<event>".to_string()
                } else {
                    join_with_spaces(&self.extras)
                }
            },
        }
    }
}

/// The fixed-width label of a level.
pub open spec fn level_label(l: ConsoleLogLevel) -> Seq<char> {
    match l {
        ConsoleLogLevel::Error => "ERROR"@,
        ConsoleLogLevel::Warn => "WARN "@,
        ConsoleLogLevel::Info => "INFO "@,
        ConsoleLogLevel::Debug => "DEBUG"@,
        ConsoleLogLevel::Trace => "TRACE"@,
    }
}

/// `n` below a thousand, in three digits.
pub open spec fn three_digits(n: nat) -> Seq<char> {
    let t = decimal_text(n);
    if t.len() == 1 { "00"@ + t } else if t.len() == 2 { "0"@ + t } else { t }
}

/// How a log line is shown: `[seconds.millis] LEVEL target: message` and a line break.
pub open spec fn rendered_line(l: ConsoleLogLine) -> Seq<char> {
    "["@ + decimal_text((l.ts_epoch_ms / 1000) as nat) + "."@ + three_digits((l.ts_epoch_ms % 1000) as nat) + "] "@
        + level_label(l.level) + " "@ + l.target@ + ": "@ + l.message@ + "\n"@
}

/// Renders one log line.
pub fn render_log_line(l: &ConsoleLogLine) -> (r: String)
    ensures
        r@ == rendered_line(*l),
{
    let secs = format_decimal(l.ts_epoch_ms / 1000);
    let millis = format_decimal(l.ts_epoch_ms % 1000);
    let mut out = concat_str("[", secs.as_str());
    out.append(".");
    let ml = millis.as_str().unicode_len();
    if ml == 1 {
        out.append("00");
    } else if ml == 2 {
        out.append("0");
    }
    out.append(millis.as_str());
    out.append("] ");
    let label = match l.level {
        ConsoleLogLevel::Error => "ERROR",
        ConsoleLogLevel::Warn => "WARN ",
        ConsoleLogLevel::Info => "INFO ",
        ConsoleLogLevel::Debug => "DEBUG",
        ConsoleLogLevel::Trace => "TRACE",
    };
    out.append(label);
    out.append(" ");
    out.append(l.target.as_str());
    out.append(": ");
    out.append(l.message.as_str());
    out.append("\n");
    assert(out@ =~= rendered_line(*l));
    out
}

} // verus!
