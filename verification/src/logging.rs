//! The init's log: each message becomes one line, which goes to every
//! output that was added. The library decides what is written where; the
//! caller takes the pending writes and performs them.

use vstd::prelude::*;
use crate::text::{chars_of, push_str, string_of};

verus! {

/// The line that a message becomes: `"[prefix] info\n"`, or `"info\n"`
/// without a prefix.
pub open spec fn log_line(prefix: Option<Seq<char>>, info: Seq<char>) -> Seq<char> {
    match prefix {
        Some(p) => seq!['['] + p + seq![']', ' '] + info + seq!['\n'],
        None => info + seq!['\n'],
    }
}

/// The message that a service's log entry becomes: `"[service] info"`.
pub open spec fn service_message(service: Seq<char>, info: Seq<char>) -> Seq<char> {
    seq!['['] + service + seq![']', ' '] + info
}

/// One write of `data` to each of `writers` outputs, in the order the
/// outputs were added.
pub open spec fn writes_to_all(writers: nat, data: Seq<char>) -> Seq<(nat, Seq<char>)> {
    Seq::new(writers, |i: int| (i as nat, data))
}

/// What output `w` receives of the writes `pending`, in order.
pub open spec fn output_of(pending: Seq<(nat, Seq<char>)>, w: nat) -> Seq<Seq<char>>
    decreases pending.len(),
{
    if pending.len() == 0 {
        Seq::empty()
    } else {
        output_of(pending.drop_last(), w) + if pending.last().0 == w {
            seq![pending.last().1]
        } else {
            Seq::empty()
        }
    }
}

/// Every output receives what is written once, after what it received
/// before; a write reaches no output that does not exist.
pub proof fn lemma_each_output_receives_once(
    pending: Seq<(nat, Seq<char>)>,
    writers: nat,
    data: Seq<char>,
    w: nat,
)
    ensures
        output_of(pending + writes_to_all(writers, data), w) == output_of(pending, w) + if w
            < writers {
            seq![data]
        } else {
            Seq::empty()
        },
    decreases writers,
{
    if writers == 0 {
        assert(pending + writes_to_all(writers, data) =~= pending);
    } else {
        let k = (writers - 1) as nat;
        lemma_each_output_receives_once(pending, k, data, w);
        let whole = pending + writes_to_all(writers, data);
        assert(whole.drop_last() =~= pending + writes_to_all(k, data));
        assert(whole.last() == (k, data));
    }
}

/// What a logger is: its prefix, how many outputs it has, and the writes
/// (output index, data) not yet performed.
pub ghost struct LoggerView {
    pub prefix: Option<Seq<char>>,
    pub writers: nat,
    pub pending: Seq<(nat, Seq<char>)>,
}

/// The init's logger.
pub struct Logger {
    pub prefix: Option<String>,
    writers: usize,
    pending: Vec<(usize, String)>,
}

impl View for Logger {
    type V = LoggerView;

    closed spec fn view(&self) -> LoggerView {
        LoggerView {
            prefix: match self.prefix {
                Some(p) => Some(p@),
                None => None,
            },
            writers: self.writers as nat,
            pending: self.pending@.map_values(|w: (usize, String)| (w.0 as nat, w.1@)),
        }
    }
}

impl Logger {
    /// A logger with no prefix and no outputs.
    pub fn new() -> (l: Logger)
        ensures
            l@.prefix is None,
            l@.writers == 0,
            l@.pending == Seq::<(nat, Seq<char>)>::empty(),
    {
        let l = Logger { prefix: None, writers: 0, pending: Vec::new() };
        assert(l@.pending =~= Seq::<(nat, Seq<char>)>::empty());
        l
    }

    /// Adds an output; it receives every line logged from now on. Returns
    /// the index of the new output.
    pub fn add(&mut self) -> (index: usize)
        requires
            old(self)@.writers < usize::MAX,
        ensures
            index == old(self)@.writers,
            final(self)@ == (LoggerView { writers: old(self)@.writers + 1, ..old(self)@ }),
    {
        let index = self.writers;
        self.writers = self.writers + 1;
        index
    }

    /// Number of outputs.
    pub fn writers(&self) -> (n: usize)
        ensures
            n == self@.writers,
    {
        self.writers
    }

    /// Writes `data` to every output.
    pub fn output(&mut self, data: &str)
        ensures
            final(self)@ == (LoggerView {
                pending: old(self)@.pending + writes_to_all(old(self)@.writers, data@),
                ..old(self)@
            }),
    {
        let ghost start = self@.pending;
        let mut i: usize = 0;
        while i < self.writers
            invariant
                i <= self.writers,
                self@.writers == old(self)@.writers,
                self@.prefix == old(self)@.prefix,
                start == old(self)@.pending,
                self@.pending == start + writes_to_all(i as nat, data@),
            decreases self.writers - i,
        {
            let ghost before = self@.pending;
            let d = string_of(chars_of(data).as_slice());
            self.pending.push((i, d));
            assert(self@.pending =~= before.push((i as nat, data@)));
            assert(writes_to_all((i + 1) as nat, data@) =~= writes_to_all(i as nat, data@).push(
                (i as nat, data@),
            ));
            i = i + 1;
        }
        assert(self@ =~= (LoggerView {
            pending: old(self)@.pending + writes_to_all(old(self)@.writers, data@),
            ..old(self)@
        }));
    }

    /// Logs `info` as one line (see `log_line`).
    pub fn log(&mut self, info: &str)
        ensures
            final(self)@ == (LoggerView {
                pending: old(self)@.pending + writes_to_all(
                    old(self)@.writers,
                    log_line(old(self)@.prefix, info@),
                ),
                ..old(self)@
            }),
    {
        let mut line: Vec<char> = Vec::new();
        match &self.prefix {
            Some(p) => {
                line.push('[');
                push_str(&mut line, p.as_str());
                line.push(']');
                line.push(' ');
            },
            None => {},
        }
        push_str(&mut line, info);
        line.push('\n');
        assert(line@ =~= log_line(self@.prefix, info@));
        let text = string_of(line.as_slice());
        self.output(text.as_str());
    }

    /// Logs `info` on behalf of `service`: the message `"[service] info"`.
    pub fn service_log(&mut self, service: &str, info: &str)
        ensures
            final(self)@ == (LoggerView {
                pending: old(self)@.pending + writes_to_all(
                    old(self)@.writers,
                    log_line(old(self)@.prefix, service_message(service@, info@)),
                ),
                ..old(self)@
            }),
    {
        let mut msg: Vec<char> = Vec::new();
        msg.push('[');
        push_str(&mut msg, service);
        msg.push(']');
        msg.push(' ');
        push_str(&mut msg, info);
        assert(msg@ =~= service_message(service@, info@));
        let text = string_of(msg.as_slice());
        self.log(text.as_str());
    }

    /// Hands over the writes not yet performed, in order, and forgets them.
    pub fn take_pending(&mut self) -> (w: Vec<(usize, String)>)
        ensures
            w@.map_values(|x: (usize, String)| (x.0 as nat, x.1@)) == old(self)@.pending,
            final(self)@ == (LoggerView {
                pending: Seq::<(nat, Seq<char>)>::empty(),
                ..old(self)@
            }),
    {
        let mut w: Vec<(usize, String)> = Vec::new();
        core::mem::swap(&mut w, &mut self.pending);
        assert(self@.pending =~= Seq::<(nat, Seq<char>)>::empty());
        w
    }
}

} // verus!
