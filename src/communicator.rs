//! The transcript of one conversation with a program, the framing of its
//! lines, and how the end of the program is judged.

use vstd::prelude::*;

verus! {

/// One line of a conversation, as the library reasons about it.
pub enum Exchange {
    Sent(Seq<u8>),
    Received(Seq<u8>),
}

/// One line of a conversation.
#[derive(Debug)]
pub enum Entry {
    /// A line written to the program, without its line break.
    Sent(Vec<u8>),
    /// A line (or the rest of the output) read from the program.
    Received(Vec<u8>),
}

impl Entry {
    pub open spec fn view(&self) -> Exchange {
        match self {
            Entry::Sent(b) => Exchange::Sent(b@),
            Entry::Received(b) => Exchange::Received(b@),
        }
    }
}

/// The lines sent and received in one trial, in order.
#[derive(Debug)]
pub struct History {
    items: Vec<Entry>,
}

/// How a transcript is written out: `> ` before a sent line, `< ` before
/// a received one, each ended by a line break.
pub open spec fn render(xs: Seq<Exchange>) -> Seq<u8>
    decreases xs.len(),
{
    if xs.len() == 0 {
        seq![]
    } else {
        let line = match xs.last() {
            Exchange::Sent(b) => seq![62u8, 32u8] + b,
            Exchange::Received(b) => seq![60u8, 32u8] + b,
        };
        render(xs.drop_last()) + line + seq![10u8]
    }
}

fn copy_bytes(b: &Vec<u8>) -> (r: Vec<u8>)
    ensures
        r@ == b@,
{
    let mut r: Vec<u8> = Vec::new();
    for i in 0..b.len()
        invariant
            r@ == b@.take(i as int),
    {
        r.push(b[i]);
        assert(b@.take(i + 1) =~= b@.take(i as int).push(b@[i as int]));
    }
    assert(b@.take(b.len() as int) =~= b@);
    r
}

impl History {
    pub closed spec fn view(&self) -> Seq<Exchange> {
        self.items@.map_values(|e: Entry| e.view())
    }

    /// An empty transcript.
    pub fn new() -> (r: History)
        ensures
            r.view() == Seq::<Exchange>::empty(),
    {
        let r = History { items: Vec::new() };
        assert(r.view() =~= Seq::<Exchange>::empty());
        r
    }

    /// A copy of the transcript.
    pub fn duplicate(&self) -> (r: History)
        ensures
            r.view() == self.view(),
    {
        let mut items: Vec<Entry> = Vec::new();
        for i in 0..self.items.len()
            invariant
                items@.map_values(|e: Entry| e.view()) == self.view().take(i as int),
        {
            let e = match &self.items[i] {
                Entry::Sent(b) => Entry::Sent(copy_bytes(b)),
                Entry::Received(b) => Entry::Received(copy_bytes(b)),
            };
            let ghost before = items@;
            items.push(e);
            assert(items@.map_values(|e: Entry| e.view()) =~= before.map_values(|e: Entry| e.view()).push(self.view()[i as int]));
            assert(self.view().take(i + 1) =~= self.view().take(i as int).push(self.view()[i as int]));
        }
        assert(self.view().take(self.items.len() as int) =~= self.view());
        History { items }
    }

    /// How many lines the transcript holds.
    pub fn len(&self) -> (r: usize)
        ensures
            r == self.view().len(),
    {
        self.items.len()
    }

    /// The lines of the transcript.
    pub fn entries(&self) -> (r: &Vec<Entry>)
        ensures
            r@.map_values(|e: Entry| e.view()) == self.view(),
    {
        &self.items
    }

    /// Notes a line written to the program.
    pub fn record_sent(&mut self, line: &Vec<u8>)
        ensures
            final(self).view() == old(self).view().push(Exchange::Sent(line@)),
    {
        self.items.push(Entry::Sent(copy_bytes(line)));
        assert(self.view() =~= old(self).view().push(Exchange::Sent(line@)));
    }

    /// Notes what was read from the program.
    pub fn record_received(&mut self, line: &Vec<u8>)
        ensures
            final(self).view() == old(self).view().push(Exchange::Received(line@)),
    {
        self.items.push(Entry::Received(copy_bytes(line)));
        assert(self.view() =~= old(self).view().push(Exchange::Received(line@)));
    }

    /// The transcript as text: `> ` before each sent line, `< ` before
    /// each received one.
    pub fn to_text(&self) -> (r: Vec<u8>)
        ensures
            r@ == render(self.view()),
    {
        let mut out: Vec<u8> = Vec::new();
        for i in 0..self.items.len()
            invariant
                out@ == render(self.view().take(i as int)),
        {
            let ghost before = out@;
            let (tag, bytes) = match &self.items[i] {
                Entry::Sent(b) => (62u8, b),
                Entry::Received(b) => (60u8, b),
            };
            assert(self.view()[i as int] == self.items[i as int].view());
            assert(self.items[i as int].view() == (if tag == 62u8 {
                Exchange::Sent(bytes@)
            } else {
                Exchange::Received(bytes@)
            }));
            out.push(tag);
            out.push(32u8);
            assert(out@ =~= before + seq![tag, 32u8] + bytes@.take(0));
            for j in 0..bytes.len()
                invariant
                    out@ == before + seq![tag, 32u8] + bytes@.take(j as int),
            {
                out.push(bytes[j]);
                assert(bytes@.take(j + 1) =~= bytes@.take(j as int).push(bytes@[j as int]));
            }
            out.push(10u8);
            proof {
                let xs = self.view().take(i + 1);
                assert(xs.drop_last() =~= self.view().take(i as int));
                assert(bytes@.take(bytes.len() as int) =~= bytes@);
                assert(out@ =~= render(xs));
            }
        }
        assert(self.view().take(self.items.len() as int) =~= self.view());
        out
    }
}

/// A line as it is written to the program: the bytes and a line break.
pub fn line_to_send(bytes: &Vec<u8>) -> (r: Vec<u8>)
    ensures
        r@ == bytes@.push(10u8),
{
    let mut r = copy_bytes(bytes);
    r.push(10u8);
    r
}

/// A chunk read from the program without its line ending (`\n` or `\r\n`).
pub open spec fn line_payload(chunk: Seq<u8>) -> Seq<u8> {
    let c = if chunk.len() > 0 && chunk.last() == 10u8 {
        chunk.drop_last()
    } else {
        chunk
    };
    if c.len() > 0 && c.last() == 13u8 && chunk.len() > 0 && chunk.last() == 10u8 {
        c.drop_last()
    } else {
        c
    }
}

/// A chunk read from the program without its line ending (`\n` or `\r\n`).
pub fn strip_line_end(chunk: &Vec<u8>) -> (r: Vec<u8>)
    ensures
        r@ == line_payload(chunk@),
{
    let mut r = copy_bytes(chunk);
    if r.len() > 0 && r[r.len() - 1] == 10u8 {
        r.pop();
        if r.len() > 0 && r[r.len() - 1] == 13u8 {
            r.pop();
        }
    }
    r
}

/// How a program ended once the script was done with it.
#[derive(Debug)]
pub enum CommReport {
    /// It exited with success and printed nothing more.
    Success(History),
    /// It exited with success but printed more than the script read.
    NonEmptyStdout(History),
    /// It exited with failure; what it wrote to its error stream.
    ProgramError(History, Vec<u8>),
}

impl CommReport {
    /// Judges the end of a program: whether it exited with success, the
    /// output left unread and its error stream. Output left unread is added
    /// to the transcript first.
    pub fn classify(history: History, success: bool, rest: Vec<u8>, stderr: Vec<u8>) -> (r:
        CommReport)
        ensures
            ({
                let h = if rest@.len() > 0 {
                    history.view().push(Exchange::Received(rest@))
                } else {
                    history.view()
                };
                match r {
                    CommReport::Success(hr) => success && rest@.len() == 0 && hr.view() == h,
                    CommReport::NonEmptyStdout(hr) => success && rest@.len() > 0 && hr.view()
                        == h,
                    CommReport::ProgramError(hr, e) => !success && hr.view() == h && e@
                        == stderr@,
                }
            }),
    {
        let mut history = history;
        let empty = rest.len() == 0;
        if !empty {
            history.record_received(&rest);
        }
        if success {
            if empty {
                CommReport::Success(history)
            } else {
                CommReport::NonEmptyStdout(history)
            }
        } else {
            CommReport::ProgramError(history, stderr)
        }
    }
}

} // verus!
