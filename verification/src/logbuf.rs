use vstd::prelude::*;

verus! {

/// The append-only log of a job's merged output, with a flag that says
/// whether more may come.
#[derive(Debug)]
pub struct LogBuffer {
    bytes: Vec<u8>,
    closed: bool,
}

/// A subscriber's place in a log: the number of bytes delivered so far.
#[derive(Clone, Copy, Debug, PartialEq, Eq)]
pub struct Cursor {
    pos: usize,
}

/// What a subscriber gets when it asks for more.
#[derive(Clone, Debug, PartialEq, Eq)]
pub enum LogPoll {
    /// The bytes that were appended since the subscriber last asked.
    Chunk(Vec<u8>),
    /// Nothing new yet; more may come.
    Pending,
    /// Nothing new, and the log is closed.
    End,
}

/// The mathematical value of a `LogPoll`.
pub enum Delivery {
    Chunk(Seq<u8>),
    Pending,
    End,
}

impl View for LogPoll {
    type V = Delivery;

    open spec fn view(&self) -> Delivery {
        match self {
            LogPoll::Chunk(bytes) => Delivery::Chunk(bytes@),
            LogPoll::Pending => Delivery::Pending,
            LogPoll::End => Delivery::End,
        }
    }
}

/// What a subscriber at `pos` gets from a log with the given content: all
/// the bytes beyond `pos` if there are any; else the end if the log is
/// closed; else nothing yet.
pub open spec fn delivery(content: Seq<u8>, closed: bool, pos: nat) -> Delivery {
    if pos < content.len() {
        Delivery::Chunk(content.subrange(pos as int, content.len() as int))
    } else if closed {
        Delivery::End
    } else {
        Delivery::Pending
    }
}

/// The subscriber's place after it asked.
pub open spec fn advanced(content: Seq<u8>, pos: nat) -> nat {
    if pos < content.len() {
        content.len()
    } else {
        pos
    }
}

/// A subscriber at `pos` has received exactly the first `pos` bytes.
pub open spec fn in_step(content: Seq<u8>, pos: nat, received: Seq<u8>) -> bool {
    pos <= content.len() && received == content.subrange(0, pos as int)
}

impl Cursor {
    /// The number of bytes delivered so far.
    pub closed spec fn position(&self) -> nat {
        self.pos as nat
    }

    /// The number of bytes delivered so far.
    pub fn delivered(&self) -> (r: usize)
        ensures
            r == self.position(),
    {
        self.pos
    }
}

impl LogBuffer {
    /// The bytes appended so far, in order.
    pub closed spec fn content(&self) -> Seq<u8> {
        self.bytes@
    }

    /// Whether the log was closed.
    pub closed spec fn is_closed(&self) -> bool {
        self.closed
    }

    /// An empty, open log.
    pub fn new() -> (r: LogBuffer)
        ensures
            r.content() == Seq::<u8>::empty(),
            !r.is_closed(),
    {
        LogBuffer { bytes: Vec::new(), closed: false }
    }

    /// Appends `chunk`, unless the log is closed: a closed log stays as it
    /// is, and `false` is returned.
    pub fn append(&mut self, chunk: &[u8]) -> (accepted: bool)
        ensures
            accepted == !old(self).is_closed(),
            final(self).is_closed() == old(self).is_closed(),
            final(self).content() == if accepted {
                old(self).content() + chunk@
            } else {
                old(self).content()
            },
    {
        if self.closed {
            false
        } else {
            self.bytes.extend_from_slice(chunk);
            true
        }
    }

    /// Closes the log. The content stays.
    pub fn close(&mut self)
        ensures
            final(self).is_closed(),
            final(self).content() == old(self).content(),
    {
        self.closed = true;
    }

    pub fn closed(&self) -> (r: bool)
        ensures
            r == self.is_closed(),
    {
        self.closed
    }

    /// The number of bytes appended so far.
    pub fn len(&self) -> (r: usize)
        ensures
            r == self.content().len(),
    {
        self.bytes.len()
    }

    /// A new subscriber, which has received nothing yet: it will be given
    /// the whole content, whenever it attaches.
    pub fn subscribe(&self) -> (r: Cursor)
        ensures
            r.position() == 0,
    {
        Cursor { pos: 0 }
    }

    /// Gives the subscriber what was appended since it last asked, and
    /// moves it to the end of the content.
    pub fn next_chunk(&self, cursor: &mut Cursor) -> (r: LogPoll)
        ensures
            r@ == delivery(self.content(), self.is_closed(), old(cursor).position()),
            final(cursor).position() == advanced(self.content(), old(cursor).position()),
    {
        let n: usize = self.bytes.len();
        if cursor.pos < n {
            let mut out: Vec<u8> = Vec::new();
            let mut i: usize = cursor.pos;
            while i < n
                invariant
                    n == self.bytes.len(),
                    cursor.pos <= i <= n,
                    out@ == self.bytes@.subrange(cursor.pos as int, i as int),
                decreases n - i,
            {
                out.push(self.bytes[i]);
                i = i + 1;
                assert(out@ =~= self.bytes@.subrange(cursor.pos as int, i as int));
            }
            cursor.pos = n;
            LogPoll::Chunk(out)
        } else if self.closed {
            LogPoll::End
        } else {
            LogPoll::Pending
        }
    }
}

/// What a subscriber has received stays a prefix of the log when it asks
/// for more: the chunk continues exactly where the last one ended, so
/// nothing is repeated, left out or reordered.
pub proof fn lemma_delivery_extends_prefix(
    content: Seq<u8>,
    closed: bool,
    pos: nat,
    received: Seq<u8>,
)
    requires
        in_step(content, pos, received),
    ensures
        match delivery(content, closed, pos) {
            Delivery::Chunk(chunk) => chunk.len() > 0 && in_step(
                content,
                advanced(content, pos),
                received + chunk,
            ),
            _ => advanced(content, pos) == pos,
        },
{
    if pos < content.len() {
        let chunk = content.subrange(pos as int, content.len() as int);
        assert(received + chunk =~= content.subrange(0, content.len() as int));
    }
}

/// An append or a close leaves every subscriber in step: the log only grows
/// at its end.
pub proof fn lemma_append_keeps_step(
    content: Seq<u8>,
    chunk: Seq<u8>,
    pos: nat,
    received: Seq<u8>,
)
    requires
        in_step(content, pos, received),
    ensures
        in_step(content + chunk, pos, received),
{
    assert((content + chunk).subrange(0, pos as int) =~= content.subrange(0, pos as int));
}

/// A subscriber that is told of the end has received the whole log.
pub proof fn lemma_end_is_complete(content: Seq<u8>, closed: bool, pos: nat, received: Seq<u8>)
    requires
        in_step(content, pos, received),
        delivery(content, closed, pos) is End,
    ensures
        received == content,
{
    assert(content.subrange(0, pos as int) =~= content);
}

/// Two subscribers that were both told of the end have received the same
/// bytes, whenever each of them attached.
pub proof fn lemma_subscribers_agree(
    content: Seq<u8>,
    closed: bool,
    first_pos: nat,
    first: Seq<u8>,
    second_pos: nat,
    second: Seq<u8>,
)
    requires
        in_step(content, first_pos, first),
        in_step(content, second_pos, second),
        delivery(content, closed, first_pos) is End,
        delivery(content, closed, second_pos) is End,
    ensures
        first == second,
        first == content,
{
    lemma_end_is_complete(content, closed, first_pos, first);
    lemma_end_is_complete(content, closed, second_pos, second);
}

} // verus!
