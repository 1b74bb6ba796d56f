use vstd::prelude::*;

use crate::text::{from_utf8_lossy, lossy_utf8, push_text, utf8_byte_len};

verus! {

/// The concatenation of `logs`, in order.
pub open spec fn joined(logs: Seq<Seq<char>>) -> Seq<char>
    decreases logs.len(),
{
    if logs.len() == 0 {
        Seq::empty()
    } else {
        joined(logs.drop_last()) + logs.last()
    }
}

/// An append-only record of the messages a guest wrote, each decoded as UTF-8.
#[derive(Debug)]
pub struct LogStream {
    logs: Vec<String>,
    current_bytesize: usize,
}

impl Default for LogStream {
    /// An empty stream.
    fn default() -> (r: LogStream)
        ensures
            r.messages() == Seq::<Seq<char>>::empty(),
            r.spec_byte_size() == 0,
    {
        LogStream::new()
    }
}

impl LogStream {
    /// The messages, in the order they came.
    pub closed spec fn messages(&self) -> Seq<Seq<char>> {
        self.logs@.map_values(|m: String| m@)
    }

    /// The number of UTF-8 bytes recorded so far (it stops at `usize::MAX`).
    pub closed spec fn spec_byte_size(&self) -> usize {
        self.current_bytesize
    }

    /// An empty stream.
    pub fn new() -> (r: LogStream)
        ensures
            r.messages() == Seq::<Seq<char>>::empty(),
            r.spec_byte_size() == 0,
    {
        let r = LogStream { logs: Vec::new(), current_bytesize: 0 };
        assert(r.messages() =~= Seq::<Seq<char>>::empty());
        r
    }

    /// Append a buffer to the stream, decoded as UTF-8 with invalid sequences
    /// replaced; returns the number of bytes of the decoded message.
    pub fn append(&mut self, buf: &[u8]) -> (r: usize)
        ensures
            final(self).messages() == old(self).messages().push(lossy_utf8(buf@)),
            r == crate::text::utf8_len(lossy_utf8(buf@)),
            final(self).spec_byte_size() == (if old(self).spec_byte_size() + r > usize::MAX {
                usize::MAX as int
            } else {
                old(self).spec_byte_size() + r
            }),
    {
        let log = from_utf8_lossy(buf);
        let log_length = utf8_byte_len(&log);
        self.current_bytesize = if log_length > usize::MAX - self.current_bytesize {
            usize::MAX
        } else {
            self.current_bytesize + log_length
        };
        let ghost before = self.logs@;
        self.logs.push(log);
        assert(self.messages() =~= before.map_values(|m: String| m@).push(lossy_utf8(buf@)));
        log_length
    }

    /// The number of UTF-8 bytes recorded so far.
    pub fn byte_size(&self) -> (r: usize)
        ensures
            r == self.spec_byte_size(),
    {
        self.current_bytesize
    }

    /// The last message.
    pub fn last(&self) -> (r: Option<&String>)
        ensures
            self.messages().len() == 0 ==> r is None,
            self.messages().len() > 0 ==> r is Some && r->0@ == self.messages().last(),
    {
        if self.logs.len() == 0 {
            None
        } else {
            Some(&self.logs[self.logs.len() - 1])
        }
    }

    /// The last message, as a string slice.
    pub fn last_message(&self) -> (r: Option<&str>)
        ensures
            self.messages().len() == 0 ==> r is None,
            self.messages().len() > 0 ==> r is Some && r->0@ == self.messages().last(),
    {
        match self.last() {
            Some(s) => Some(s.as_str()),
            None => None,
        }
    }

    /// All messages, one after the other.
    pub fn to_string(&self) -> (r: String)
        ensures
            r@ == joined(self.messages()),
    {
        let mut r = String::new();
        let mut i: usize = 0;
        while i < self.logs.len()
            invariant
                i <= self.logs.len(),
                r@ == joined(self.messages().take(i as int)),
            decreases self.logs.len() - i,
        {
            push_text(&mut r, self.logs[i].as_str());
            assert(self.messages().take(i + 1).drop_last() =~= self.messages().take(i as int));
            i = i + 1;
        }
        assert(self.messages().take(self.logs.len() as int) =~= self.messages());
        r
    }
}

} // verus!
