use vstd::prelude::*;
use vstd::string::*;

verus! {

/// The messages of an error and of its causes, each in its own `String`.
pub open spec fn messages_view(messages: Seq<String>) -> Seq<Seq<char>> {
    messages.map_values(|m: String| m@)
}

/// The indent that the first line of a chain of several errors carries, as
/// wide as the prefix of the lines after it.
pub open spec fn first_prefix() -> Seq<char> {
    "           "@
}

/// The prefix of each line after the first in a chain of several errors.
pub open spec fn cause_prefix() -> Seq<char> {
    "caused by: "@
}

/// The lines under which an error and its causes are logged: a lone error as
/// it is; a chain of several with the first indented and each later one
/// marked as the cause of the one before.
pub open spec fn log_lines(chain: Seq<Seq<char>>) -> Seq<Seq<char>> {
    if chain.len() <= 1 {
        chain
    } else {
        Seq::new(
            chain.len(),
            |i: int|
                if i == 0 {
                    first_prefix() + chain[0]
                } else {
                    cause_prefix() + chain[i]
                },
        )
    }
}

/// The lines to log for an error whose message and whose causes' messages
/// are `chain`, outermost first.
pub fn log_err(chain: &Vec<String>) -> (lines: Vec<String>)
    ensures
        messages_view(lines@) == log_lines(messages_view(chain@)),
{
    let mut lines: Vec<String> = Vec::new();
    let n = chain.len();
    let mut i: usize = 0;
    while i < n
        invariant
            n == chain@.len(),
            i <= n,
            lines@.len() == i,
            forall|k: int|
                0 <= k < i ==> (#[trigger] lines@[k])@ == log_lines(messages_view(chain@))[k],
        decreases n - i,
    {
        let line = if n <= 1 {
            chain[i].clone()
        } else if i == 0 {
            String::from_str("           ").concat(chain[i].as_str())
        } else {
            String::from_str("caused by: ").concat(chain[i].as_str())
        };
        lines.push(line);
        i = i + 1;
    }
    assert(messages_view(lines@) =~= log_lines(messages_view(chain@)));
    lines
}

/// An iterator over the causes of an error: its own message first, then the
/// message of its source, and so on.
#[derive(Debug)]
pub struct ErrorCauseIter {
    chain: Vec<String>,
    pos: usize,
}

impl ErrorCauseIter {
    /// The messages that are still to come, in order.
    pub closed spec fn remaining(&self) -> Seq<Seq<char>> {
        messages_view(self.chain@).skip(self.pos as int)
    }

    pub closed spec fn wf(&self) -> bool {
        self.pos <= self.chain@.len()
    }

    /// An iterator that hands out `chain`, outermost message first.
    pub fn from(chain: Vec<String>) -> (r: ErrorCauseIter)
        ensures
            r.wf(),
            r.remaining() == messages_view(chain@),
    {
        let r = ErrorCauseIter { chain, pos: 0 };
        assert(r.remaining() =~= messages_view(r.chain@));
        r
    }

    /// The next message, or `None` once all were handed out.
    pub fn next(&mut self) -> (r: Option<String>)
        requires
            old(self).wf(),
        ensures
            final(self).wf(),
            old(self).remaining().len() == 0 ==> r is None && final(self).remaining() == old(
                self,
            ).remaining(),
            old(self).remaining().len() > 0 ==> r is Some && r->Some_0@ == old(
                self,
            ).remaining()[0] && final(self).remaining() == old(self).remaining().drop_first(),
    {
        if self.pos >= self.chain.len() {
            None
        } else {
            let m = self.chain[self.pos].clone();
            self.pos = self.pos + 1;
            assert(self.remaining() =~= old(self).remaining().drop_first());
            Some(m)
        }
    }

    /// How many messages are still to come.
    pub fn count(&self) -> (r: usize)
        requires
            self.wf(),
        ensures
            r == self.remaining().len(),
    {
        self.chain.len() - self.pos
    }
}

} // verus!
