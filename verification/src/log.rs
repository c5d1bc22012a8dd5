//! The rolling log: a bounded history of received lines, oldest first.

use vstd::prelude::*;
use crate::fields::texts;

verus! {

/// The largest number of lines that the log keeps.
pub const LOG_CAPACITY: usize = 500;

/// The newest 500 entries of a history, in arrival order; the whole history
/// where it is no longer than that.
pub open spec fn keep_newest(lines: Seq<Seq<char>>) -> Seq<Seq<char>> {
    if lines.len() > 500 {
        lines.skip(lines.len() - 500)
    } else {
        lines
    }
}

/// The log after `lines` were appended to `log` one at a time, each append
/// followed by the eviction of what exceeds the capacity.
pub open spec fn appended(log: Seq<Seq<char>>, lines: Seq<Seq<char>>) -> Seq<Seq<char>>
    decreases lines.len(),
{
    if lines.len() == 0 {
        log
    } else {
        keep_newest(appended(log, lines.drop_last()).push(lines.last()))
    }
}

/// Evicting after every append leaves the same log as evicting once at the end.
pub proof fn lemma_keep_newest_push(history: Seq<Seq<char>>, line: Seq<char>)
    ensures
        keep_newest(keep_newest(history).push(line)) == keep_newest(history.push(line)),
{
    if history.len() > 500 {
        let kept = history.skip(history.len() - 500);
        assert(kept.push(line).skip(1) =~= history.push(line).skip(history.len() + 1 - 500));
    }
}

/// However many lines are appended, the log never holds more than 500 of them,
/// and it holds exactly the newest lines of everything it was given, in the
/// order in which they arrived.
pub proof fn lemma_appended_is_newest(log: Seq<Seq<char>>, lines: Seq<Seq<char>>)
    requires
        log.len() <= 500,
    ensures
        appended(log, lines).len() <= 500,
        appended(log, lines) == keep_newest(log + lines),
    decreases lines.len(),
{
    if lines.len() == 0 {
        assert(log + lines =~= log);
    } else {
        let front = lines.drop_last();
        lemma_appended_is_newest(log, front);
        lemma_keep_newest_push(log + front, lines.last());
        assert((log + front).push(lines.last()) =~= log + lines);
    }
}

/// Appending to a full log evicts exactly its oldest line: what was second
/// becomes first, and the new line comes last.
pub proof fn lemma_append_when_full(log: Seq<Seq<char>>, line: Seq<char>)
    requires
        log.len() == 500,
    ensures
        keep_newest(log.push(line)) == log.skip(1).push(line),
        keep_newest(log.push(line)).len() == 500,
        keep_newest(log.push(line))[0] == log[1],
        keep_newest(log.push(line)).last() == line,
{
    assert(log.push(line).skip(1) =~= log.skip(1).push(line));
}

/// Drops the oldest lines of a history until at most 500 are left.
pub fn trim_log(lines: &mut Vec<String>)
    ensures
        texts(final(lines)@) == keep_newest(texts(old(lines)@)),
        final(lines)@.len() <= 500,
{
    let ghost before = lines@;
    assert(before.skip(0) =~= before);
    while lines.len() > LOG_CAPACITY
        invariant
            lines@.len() <= before.len(),
            lines@ == before.skip(before.len() - lines@.len()),
            before.len() >= 500 ==> lines@.len() >= 500,
            before.len() <= 500 ==> lines@.len() == before.len(),
        decreases lines.len(),
    {
        let ghost cur = lines@;
        lines.remove(0);
        assert(lines@ =~= before.skip(before.len() - (cur.len() - 1)));
    }
    assert(texts(lines@) =~= texts(before).skip(before.len() - lines@.len()));
}

/// A bounded history of lines in arrival order. It never holds more than 500
/// lines: an append to a full log evicts the oldest one.
pub struct RollingLog {
    lines: Vec<String>,
}

impl View for RollingLog {
    type V = Seq<Seq<char>>;

    closed spec fn view(&self) -> Seq<Seq<char>> {
        texts(self.lines@)
    }
}

impl RollingLog {
    /// The log is within its capacity.
    pub open spec fn wf(&self) -> bool {
        self@.len() <= 500
    }

    /// An empty log.
    pub fn new() -> (log: RollingLog)
        ensures
            log.wf(),
            log@ == Seq::<Seq<char>>::empty(),
    {
        let log = RollingLog { lines: Vec::new() };
        assert(log@ =~= Seq::<Seq<char>>::empty());
        log
    }

    /// Appends a line, evicting the oldest one if the log was full.
    pub fn append(&mut self, line: String)
        ensures
            final(self).wf(),
            final(self)@ == keep_newest(old(self)@.push(line@)),
    {
        let ghost before = self.lines@;
        self.lines.push(line);
        assert(texts(self.lines@) =~= texts(before).push(line@));
        trim_log(&mut self.lines);
    }

    /// The number of lines held.
    pub fn len(&self) -> (n: usize)
        ensures
            n == self@.len(),
    {
        self.lines.len()
    }

    /// The lines held, oldest first.
    pub fn lines(&self) -> (lines: &Vec<String>)
        ensures
            texts(lines@) == self@,
    {
        &self.lines
    }
}

/// Once 501 lines were appended to an empty log, its first line is the second
/// line that was ever appended.
pub proof fn lemma_first_eviction(lines: Seq<Seq<char>>)
    requires
        lines.len() == 501,
    ensures
        appended(Seq::empty(), lines).len() == 500,
        appended(Seq::empty(), lines)[0] == lines[1],
{
    lemma_appended_is_newest(Seq::empty(), lines);
    assert(Seq::<Seq<char>>::empty() + lines =~= lines);
}

} // verus!
