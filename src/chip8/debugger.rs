use vstd::prelude::*;

verus! {

/// Largest number of trace records kept in the history.
pub const HISTORY_CAP: usize = 20;

/// One executed instruction, as handed to the trace.
#[derive(Clone, Copy, Debug, PartialEq, Eq, Structural)]
pub struct TraceRecord {
    pub opcode: u16,
    pub first_byte: u16,
    pub second_byte: u16,
    pub pc: u16,
    pub sp: u8,
}

/// Whether executed instructions are traced.
#[derive(Clone, Copy, Debug, PartialEq, Eq, Structural)]
pub enum Propagate {
    Enable,
    Disable,
}

impl Default for Propagate {
    fn default() -> (r: Self)
        ensures
            r == Propagate::Disable,
    {
        Propagate::Disable
    }
}

/// The instruction trace: a two-state toggle and the most recent records.
#[derive(Debug)]
pub struct Debugger {
    debug: Propagate,
    list: Vec<TraceRecord>,
}

/// A record is spam when the three records before it are equal to it.
pub open spec fn is_spam(history: Seq<TraceRecord>, rec: TraceRecord) -> bool {
    history.len() >= 3 && history[history.len() - 1] == rec && history[history.len() - 2] == rec
        && history[history.len() - 3] == rec
}

/// The history after `rec` is kept: the oldest record leaves once the cap is reached.
pub open spec fn pushed_history(history: Seq<TraceRecord>, rec: TraceRecord) -> Seq<TraceRecord> {
    if history.len() >= HISTORY_CAP {
        history.drop_first().push(rec)
    } else {
        history.push(rec)
    }
}

/// The history after `rec` is handed to a trace in state `status`.
pub open spec fn traced_history(status: Propagate, history: Seq<TraceRecord>, rec: TraceRecord) -> Seq<
    TraceRecord,
> {
    if status == Propagate::Enable {
        pushed_history(history, rec)
    } else {
        history
    }
}

/// What the trace hands on for output when `rec` reaches it in state `status`.
pub open spec fn traced_output(status: Propagate, history: Seq<TraceRecord>, rec: TraceRecord) -> Option<
    TraceRecord,
> {
    if status == Propagate::Enable && !is_spam(history, rec) {
        Some(rec)
    } else {
        None
    }
}

impl Default for Debugger {
    fn default() -> (r: Self)
        ensures
            r.status() == Propagate::Disable,
            r.history() == Seq::<TraceRecord>::empty(),
            r.wf(),
    {
        Debugger { debug: Propagate::Disable, list: Vec::new() }
    }
}

impl Debugger {
    pub closed spec fn status(&self) -> Propagate {
        self.debug
    }

    /// The records kept, oldest first.
    pub closed spec fn history(&self) -> Seq<TraceRecord> {
        self.list@
    }

    pub open spec fn wf(&self) -> bool {
        self.history().len() <= HISTORY_CAP
    }

    pub fn new() -> (r: Self)
        ensures
            r.status() == Propagate::Enable,
            r.history() == Seq::<TraceRecord>::empty(),
            r.wf(),
    {
        Debugger { debug: Propagate::Enable, list: Vec::new() }
    }

    /// Hands one executed instruction to the trace. While tracing is enabled
    /// the record joins the history and is returned for output, unless the
    /// three records before it are equal to it; while it is disabled nothing
    /// changes and nothing is returned.
    pub fn propagate(&mut self, pc: u16, first_byte: u16, second_byte: u16, opcode: u16, sp: u8) -> (r:
        Option<TraceRecord>)
        requires
            old(self).wf(),
        ensures
            final(self).wf(),
            final(self).status() == old(self).status(),
            ({
                let rec = TraceRecord { opcode, first_byte, second_byte, pc, sp };
                &&& final(self).history() == traced_history(old(self).status(), old(self).history(), rec)
                &&& r == traced_output(old(self).status(), old(self).history(), rec)
            }),
    {
        if self.debug == Propagate::Enable {
            let key = TraceRecord { opcode, first_byte, second_byte, pc, sp };
            let length = self.list.len();
            let is_spam = length >= 3 && self.list[length - 1] == key && self.list[length - 2]
                == key && self.list[length - 3] == key;
            if length >= HISTORY_CAP {
                self.list.remove(0);
            }
            self.list.push(key);
            if is_spam {
                None
            } else {
                Some(key)
            }
        } else {
            None
        }
    }

    pub fn enable(&mut self)
        ensures
            final(self).status() == Propagate::Enable,
            final(self).history() == old(self).history(),
    {
        self.debug = Propagate::Enable;
    }

    pub fn disable(&mut self)
        ensures
            final(self).status() == Propagate::Disable,
            final(self).history() == old(self).history(),
    {
        self.debug = Propagate::Disable;
    }

    pub fn get_status(&self) -> (r: &Propagate)
        ensures
            *r == self.status(),
    {
        &self.debug
    }

    /// Number of records kept.
    pub fn history_len(&self) -> (r: usize)
        ensures
            r == self.history().len(),
    {
        self.list.len()
    }
}

} // verus!
