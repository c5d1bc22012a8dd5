//! The state that the ingestion loop publishes and that readers look at.

use vstd::prelude::*;
use crate::fields::texts;
use crate::framing::{SentenceBuffer, complete_lines, lossy_texts, partial_line};
use crate::gsv::{
    RecordView, SatelliteRecord, decode_all, decode_cycle, is_gsv, lemma_no_gsv_no_satellites,
    record_views,
};
use crate::log::{RollingLog, keep_newest, lemma_keep_newest_push};

verus! {

/// The published state: the latest satellite snapshot, the rolling log, and
/// whether a session is reading.
pub struct IngestionState {
    satellites: Vec<SatelliteRecord>,
    log: RollingLog,
    is_reading: bool,
}

/// What the published state holds, as plain values.
pub struct StateView {
    pub satellites: Seq<RecordView>,
    pub log: Seq<Seq<char>>,
    pub is_reading: bool,
}

/// A copy of the published state, for a reader to keep.
pub struct StateSnapshot {
    pub satellites: Vec<SatelliteRecord>,
    pub log_tail: Vec<String>,
    pub is_reading: bool,
}

impl View for IngestionState {
    type V = StateView;

    closed spec fn view(&self) -> StateView {
        StateView {
            satellites: record_views(self.satellites@),
            log: self.log@,
            is_reading: self.is_reading,
        }
    }
}

impl View for StateSnapshot {
    type V = StateView;

    open spec fn view(&self) -> StateView {
        StateView {
            satellites: record_views(self.satellites@),
            log: texts(self.log_tail@),
            is_reading: self.is_reading,
        }
    }
}

/// Whether a start request may go ahead: it names a port and no session is
/// reading.
pub open spec fn start_permitted(is_reading: bool, port_named: bool) -> bool {
    port_named && !is_reading
}

/// The reading flag after a start request.
pub open spec fn reading_after_start(is_reading: bool, port_named: bool) -> bool {
    is_reading || port_named
}

/// Of two start requests on one state, whatever ports they name, at most one
/// is permitted; and where the state was idle and both name a port, exactly
/// the first one is.
pub proof fn lemma_single_active_session(is_reading: bool, first_named: bool, second_named: bool)
    ensures
        !(start_permitted(is_reading, first_named) && start_permitted(
            reading_after_start(is_reading, first_named),
            second_named,
        )),
        !is_reading && first_named && second_named ==> start_permitted(is_reading, first_named)
            && !start_permitted(reading_after_start(is_reading, first_named), second_named),
{
}

/// The state after the lines of one read cycle were published: every line is
/// in the log, in order and within its capacity, and the satellites are those
/// that these lines report, whatever was there before.
pub open spec fn after_cycle(state: StateView, lines: Seq<Seq<char>>) -> StateView {
    StateView {
        satellites: decode_all(lines),
        log: keep_newest(state.log + lines),
        is_reading: state.is_reading,
    }
}

impl IngestionState {
    /// The log is within its capacity.
    pub open spec fn wf(&self) -> bool {
        self@.log.len() <= 500
    }

    /// The state at the start of a session: nothing logged, no satellite, not
    /// reading.
    pub fn new() -> (state: IngestionState)
        ensures
            state.wf(),
            state@.satellites == Seq::<RecordView>::empty(),
            state@.log == Seq::<Seq<char>>::empty(),
            !state@.is_reading,
    {
        let state = IngestionState {
            satellites: Vec::new(),
            log: RollingLog::new(),
            is_reading: false,
        };
        assert(record_views(state.satellites@) =~= Seq::<RecordView>::empty());
        state
    }

    /// Appends a line to the log, evicting the oldest one if the log was full.
    pub fn append_log_line(&mut self, line: String)
        requires
            old(self).wf(),
        ensures
            final(self).wf(),
            final(self)@ == (StateView {
                log: keep_newest(old(self)@.log.push(line@)),
                ..old(self)@
            }),
    {
        self.log.append(line);
    }

    /// Replaces the satellite snapshot as a whole.
    pub fn replace_satellites(&mut self, satellites: Vec<SatelliteRecord>)
        requires
            old(self).wf(),
        ensures
            final(self).wf(),
            final(self)@ == (StateView {
                satellites: record_views(satellites@),
                ..old(self)@
            }),
    {
        self.satellites = satellites;
    }

    /// Sets the reading flag.
    pub fn set_is_reading(&mut self, is_reading: bool)
        requires
            old(self).wf(),
        ensures
            final(self).wf(),
            final(self)@ == (StateView { is_reading, ..old(self)@ }),
    {
        self.is_reading = is_reading;
    }

    /// Asks to start a session on `port`. The answer is yes where a port is
    /// named and no session is reading; the flag is then set in the same step,
    /// so that the next request is refused.
    pub fn start_if_idle(&mut self, port: &Option<String>) -> (may_start: bool)
        requires
            old(self).wf(),
        ensures
            final(self).wf(),
            may_start == start_permitted(old(self)@.is_reading, port.is_some()),
            final(self)@ == (StateView {
                is_reading: reading_after_start(old(self)@.is_reading, port.is_some()),
                ..old(self)@
            }),
    {
        if port.is_some() && !self.is_reading {
            self.is_reading = true;
            true
        } else {
            false
        }
    }

    /// Whether a session is reading.
    pub fn is_reading(&self) -> (flag: bool)
        ensures
            flag == self@.is_reading,
    {
        self.is_reading
    }

    /// The latest satellite snapshot.
    pub fn satellites(&self) -> (satellites: &Vec<SatelliteRecord>)
        ensures
            record_views(satellites@) == self@.satellites,
    {
        &self.satellites
    }

    /// The logged lines, oldest first.
    pub fn log_lines(&self) -> (lines: &Vec<String>)
        ensures
            texts(lines@) == self@.log,
    {
        self.log.lines()
    }

    /// Copies the state for a reader.
    pub fn get_state(&self) -> (snapshot: StateSnapshot)
        ensures
            snapshot@ == self@,
    {
        let source = self.log.lines();
        let mut log_tail: Vec<String> = Vec::new();
        let mut i: usize = 0;
        while i < source.len()
            invariant
                i <= source.len(),
                log_tail@ == source@.take(i as int),
            decreases source.len() - i,
        {
            log_tail.push(source[i].clone());
            assert(log_tail@ =~= source@.take(i + 1));
            i += 1;
        }
        assert(source@.take(i as int) =~= source@);
        let mut satellites: Vec<SatelliteRecord> = Vec::new();
        let mut k: usize = 0;
        while k < self.satellites.len()
            invariant
                k <= self.satellites.len(),
                satellites.len() == k,
                forall|j: int| 0 <= j < k ==> (#[trigger] satellites[j])@ == self.satellites[j]@,
            decreases self.satellites.len() - k,
        {
            satellites.push(self.satellites[k].clone());
            k += 1;
        }
        assert(record_views(satellites@) =~= record_views(self.satellites@));
        StateSnapshot { satellites, log_tail, is_reading: self.is_reading }
    }

    /// Publishes the lines of one read cycle: logs each of them, then replaces
    /// the satellite snapshot by what these lines report. Lines without a GSV
    /// sentence therefore leave the snapshot empty.
    pub fn publish_lines(&mut self, lines: &Vec<String>)
        requires
            old(self).wf(),
        ensures
            final(self).wf(),
            final(self)@ == after_cycle(old(self)@, texts(lines@)),
    {
        let ghost start = self@.log;
        let mut i: usize = 0;
        assert(start + texts(lines@).take(0) =~= start);
        while i < lines.len()
            invariant
                i <= lines.len(),
                self.wf(),
                self.log@ == keep_newest(start + texts(lines@).take(i as int)),
                self.is_reading == old(self).is_reading,
            decreases lines.len() - i,
        {
            proof {
                lemma_keep_newest_push(start + texts(lines@).take(i as int), lines[i as int]@);
                assert((start + texts(lines@).take(i as int)).push(lines[i as int]@) =~= start
                    + texts(lines@).take(i + 1));
            }
            self.log.append(lines[i].clone());
            i += 1;
        }
        assert(texts(lines@).take(i as int) =~= texts(lines@));
        self.satellites = decode_cycle(lines);
    }

    /// Runs one read cycle on a chunk of bytes: frames it into lines with what
    /// the buffer held, and publishes those lines.
    pub fn ingest_chunk(&mut self, buffer: &mut SentenceBuffer, bytes: &[u8])
        requires
            old(self).wf(),
            old(buffer).wf(),
        ensures
            final(self).wf(),
            final(buffer).wf(),
            final(buffer)@ == partial_line(old(buffer)@ + bytes@),
            final(self)@ == after_cycle(
                old(self)@,
                lossy_texts(complete_lines(old(buffer)@ + bytes@)),
            ),
    {
        let lines = buffer.feed(bytes);
        self.publish_lines(&lines);
    }
}

/// A read cycle whose lines hold no GSV sentence leaves the satellite snapshot
/// empty, whatever it held before; the last cycle always wins.
pub proof fn lemma_cycle_without_gsv_clears(state: StateView, lines: Seq<Seq<char>>)
    requires
        forall|i: int| 0 <= i < lines.len() ==> !is_gsv(#[trigger] lines[i]),
    ensures
        after_cycle(state, lines).satellites == Seq::<RecordView>::empty(),
{
    lemma_no_gsv_no_satellites(lines);
}

/// The snapshot after a cycle depends on that cycle's lines alone.
pub proof fn lemma_last_cycle_wins(first: StateView, second: StateView, lines: Seq<Seq<char>>)
    ensures
        after_cycle(first, lines).satellites == after_cycle(second, lines).satellites,
{
}

} // verus!
