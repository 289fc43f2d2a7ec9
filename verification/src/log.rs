use vstd::prelude::*;

verus! {

/// How serious a log entry is.
#[derive(Debug, Clone, Copy, PartialEq, Eq, Structural)]
pub enum LogLevel {
    Message,
    Warning,
    Error,
}

/// A log of messages, oldest first.
#[derive(Debug)]
pub struct Log {
    log: Vec<(LogLevel, String)>,
}

/// A log entry with its text as characters.
pub open spec fn entry_view(e: (LogLevel, String)) -> (LogLevel, Seq<char>) {
    (e.0, e.1@)
}

impl View for Log {
    type V = Seq<(LogLevel, Seq<char>)>;

    closed spec fn view(&self) -> Seq<(LogLevel, Seq<char>)> {
        self.log@.map_values(|e: (LogLevel, String)| entry_view(e))
    }
}

impl Log {
    pub fn new() -> (r: Self)
        ensures
            r@ == Seq::<(LogLevel, Seq<char>)>::empty(),
    {
        let r = Log { log: Vec::new() };
        proof {
            assert(r@ =~= Seq::<(LogLevel, Seq<char>)>::empty());
        }
        r
    }

    pub fn message(&mut self, msg: String)
        ensures
            final(self)@ == old(self)@.push((LogLevel::Message, msg@)),
    {
        self.log(msg, LogLevel::Message)
    }

    pub fn warning(&mut self, msg: String)
        ensures
            final(self)@ == old(self)@.push((LogLevel::Warning, msg@)),
    {
        self.log(msg, LogLevel::Warning)
    }

    pub fn error(&mut self, msg: String)
        ensures
            final(self)@ == old(self)@.push((LogLevel::Error, msg@)),
    {
        self.log(msg, LogLevel::Error)
    }

    /// Appends an entry.
    pub fn log(&mut self, msg: String, level: LogLevel)
        ensures
            final(self)@ == old(self)@.push((level, msg@)),
    {
        self.log.push((level, msg));
        proof {
            assert(self@ =~= old(self)@.push((level, msg@)));
        }
    }

    /// The last `amount` entries, oldest first, or all of them when there are
    /// fewer.
    pub fn get_last_n(&self, amount: usize) -> (r: Vec<(LogLevel, String)>)
        ensures
            r@.map_values(|e: (LogLevel, String)| entry_view(e)) == self@.skip(
                (if self@.len() > amount {
                    self@.len() - amount
                } else {
                    0
                }) as int,
            ),
    {
        let mut out: Vec<(LogLevel, String)> = Vec::new();
        let start = self.log.len().saturating_sub(amount);
        let mut k = start;
        while k < self.log.len()
            invariant
                start <= k <= self.log@.len(),
                start == (if self.log@.len() > amount {
                    self.log@.len() - amount
                } else {
                    0
                }),
                out@.len() == k - start,
                forall|j: int|
                    0 <= j < out@.len() ==> entry_view(#[trigger] out@[j]) == entry_view(
                        self.log@[start + j],
                    ),
            decreases self.log@.len() - k,
        {
            let e = &self.log[k];
            let s = e.1.clone();
            out.push((e.0, s));
            k = k + 1;
        }
        proof {
            assert(out@.map_values(|e: (LogLevel, String)| entry_view(e)) =~= self@.skip(
                start as int,
            ));
        }
        out
    }
}

impl Default for Log {
    fn default() -> (r: Self)
        ensures
            r@ == Seq::<(LogLevel, Seq<char>)>::empty(),
    {
        Log::new()
    }
}

} // verus!
