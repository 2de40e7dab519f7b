//! Where the log goes, and the ring buffer of console lines shown in the UI.
use vstd::prelude::*;
use std::collections::VecDeque;

use crate::text;

verus! {

pub open spec fn default_log_file() -> Seq<char> {
    "/tmp/rulmee.log"@
}

/// The log file: the path given, unless it is missing or blank.
pub fn resolve_log_path(cli_log_file: Option<&str>) -> (r: String)
    ensures
        r@ == match cli_log_file {
            Some(p) => if text::trim_seq(p@).len() > 0 {
                p@
            } else {
                default_log_file()
            },
            None => default_log_file(),
        },
{
    if let Some(cli_path) = cli_log_file {
        if !text::is_blank(cli_path) {
            return text::str_to_string(cli_path);
        }
    }
    text::str_to_string("/tmp/rulmee.log")
}

/// How many console lines are kept.
pub const MAX_CONSOLE_LINES: usize = 50;

/// The last `n` elements of `s` (all of them when there are fewer).
pub open spec fn last_n(s: Seq<Seq<char>>, n: nat) -> Seq<Seq<char>> {
    if s.len() > n {
        s.skip(s.len() - n)
    } else {
        s
    }
}

/// The most recent console lines, oldest first, at most `MAX_CONSOLE_LINES`.
#[derive(Debug)]
pub struct ConsoleLog {
    lines: VecDeque<String>,
}

impl ConsoleLog {
    #[verifier::type_invariant]
    closed spec fn bounded(&self) -> bool {
        self.lines@.len() <= 50
    }

    pub closed spec fn view(&self) -> Seq<Seq<char>> {
        self.lines@.map_values(|s: String| s@)
    }

    pub fn new() -> (r: Self)
        ensures
            r@ == Seq::<Seq<char>>::empty(),
    {
        let r = ConsoleLog { lines: VecDeque::new() };
        assert(r@ =~= Seq::<Seq<char>>::empty());
        r
    }

    /// The number of lines kept.
    pub fn len(&self) -> (r: usize)
        ensures
            r == self@.len(),
            r <= MAX_CONSOLE_LINES,
    {
        proof {
            use_type_invariant(self);
        }
        self.lines.len()
    }

    /// Adds a line at the end, dropping the oldest when the buffer is full.
    pub fn push_line(&mut self, line: String)
        ensures
            final(self)@ == last_n(old(self)@.push(line@), 50),
    {
        proof {
            use_type_invariant(&*self);
        }
        let ghost before = self@;
        let mut lines: VecDeque<String> = VecDeque::new();
        std::mem::swap(&mut lines, &mut self.lines);
        if lines.len() >= 50 {
            lines.pop_front();
        }
        lines.push_back(line);
        self.lines = lines;
        assert(self@ =~= last_n(before.push(line@), 50));
    }

    /// Adds each line of `text` (as `str::lines` splits it), in order.
    pub fn push_text(&mut self, text: &str)
        ensures
            final(self)@ == push_all(old(self)@, text::lines_seq(text@)),
    {
        let ls = text::lines(text);
        let ghost start = self@;
        let mut i: usize = 0;
        while i < ls.len()
            invariant
                i <= ls@.len(),
                ls.deep_view() == text::lines_seq(text@),
                self@ == push_all(start, ls.deep_view().take(i as int)),
            decreases ls@.len() - i,
        {
            assert(ls.deep_view().take(i + 1).drop_last() =~= ls.deep_view().take(i as int));
            self.push_line(ls[i].clone());
            i = i + 1;
        }
        assert(ls.deep_view().take(ls@.len() as int) =~= ls.deep_view());
    }

    /// Adds the lines of `buf`, decoded as UTF-8 with invalid sequences
    /// replaced (valid UTF-8, ASCII among it, comes out as its own text);
    /// returns how many bytes were taken, which is all of them.
    pub fn write(&mut self, buf: &[u8]) -> (r: usize)
        ensures
            r == buf@.len(),
            final(self)@ == push_all(old(self)@, text::lines_seq(utf8_lossy(buf@))),
            vstd::utf8::valid_utf8(buf@) ==> final(self)@ == push_all(
                old(self)@,
                text::lines_seq(vstd::utf8::decode_utf8(buf@)),
            ),
    {
        let t = from_utf8_lossy(buf);
        self.push_text(t.as_str());
        buf.len()
    }

    /// The lines kept, oldest first.
    pub fn lines(&self) -> (r: Vec<String>)
        ensures
            r.deep_view() == self@,
    {
        let mut r: Vec<String> = Vec::new();
        let mut i: usize = 0;
        while i < self.lines.len()
            invariant
                i <= self.lines@.len(),
                r.deep_view() == self@.take(i as int),
            decreases self.lines@.len() - i,
        {
            let ghost before = r.deep_view();
            r.push(self.lines[i].clone());
            assert(r.deep_view() =~= before.push(self.lines@[i as int]@));
            assert(self@.take(i + 1) =~= self@.take(i as int).push(self.lines@[i as int]@));
            i = i + 1;
        }
        assert(self@.take(self.lines@.len() as int) =~= self@);
        r
    }
}

/// The buffer after pushing `ls` in order.
pub open spec fn push_all(s: Seq<Seq<char>>, ls: Seq<Seq<char>>) -> Seq<Seq<char>>
    decreases ls.len(),
{
    if ls.len() == 0 {
        s
    } else {
        last_n(push_all(s, ls.drop_last()).push(ls.last()), 50)
    }
}

/// The text `String::from_utf8_lossy` gives for `b`.
pub uninterp spec fn utf8_lossy(b: Seq<u8>) -> Seq<char>;

/// Calls `String::from_utf8_lossy`. The text is a function of the bytes,
/// named `utf8_lossy`; for valid UTF-8 it is the decoded text, as the
/// standard library documents. How invalid sequences are replaced is not
/// restated here.
#[verifier::external_body]
fn from_utf8_lossy(b: &[u8]) -> (r: String)
    ensures
        r@ == utf8_lossy(b@),
        vstd::utf8::valid_utf8(b@) ==> r@ == vstd::utf8::decode_utf8(b@),
{
    String::from_utf8_lossy(b).into_owned()
}

/// Pushing lines one by one keeps exactly the last fifty of all the lines
/// pushed, in order.
pub proof fn law_console_keeps_last_lines(s: Seq<Seq<char>>, ls: Seq<Seq<char>>)
    requires
        s.len() <= 50,
    ensures
        push_all(s, ls) == last_n(s + ls, 50),
    decreases ls.len(),
{
    if ls.len() == 0 {
        assert(s + ls =~= s);
    } else {
        law_console_keeps_last_lines(s, ls.drop_last());
        let p = last_n(s + ls.drop_last(), 50);
        assert(s + ls =~= (s + ls.drop_last()).push(ls.last()));
        let full = s + ls;
        assert(last_n(p.push(ls.last()), 50) =~= last_n(full, 50));
    }
}

// ---------------------------------------------------------------------------
// Lines read from the console
// ---------------------------------------------------------------------------

/// Reading `bytes` with the unfinished line `cur`: the lines that a newline
/// byte ends, in order, and the unfinished line after them.
pub open spec fn assemble(cur: Seq<u8>, bytes: Seq<u8>) -> (Seq<Seq<u8>>, Seq<u8>)
    decreases bytes.len(),
{
    if bytes.len() == 0 {
        (Seq::empty(), cur)
    } else {
        let (done, c) = assemble(cur, bytes.drop_last());
        if bytes.last() == 10u8 {
            (done.push(c), Seq::empty())
        } else {
            (done, c.push(bytes.last()))
        }
    }
}

/// Collects console output into lines as it arrives in reads of any size.
pub struct LineAssembler {
    pending: Vec<u8>,
}

impl View for LineAssembler {
    /// The bytes of the line not ended yet.
    type V = Seq<u8>;

    closed spec fn view(&self) -> Seq<u8> {
        self.pending@
    }
}

impl LineAssembler {
    pub fn new() -> (r: Self)
        ensures
            r@ == Seq::<u8>::empty(),
    {
        LineAssembler { pending: Vec::new() }
    }

    /// Takes the bytes of one read and returns the lines they end, each
    /// decoded as UTF-8 with invalid sequences replaced; a line of valid
    /// UTF-8 (ASCII among it) comes out as its own text.
    pub fn feed(&mut self, bytes: &[u8]) -> (r: Vec<String>)
        ensures
            r@.len() == assemble(old(self)@, bytes@).0.len(),
            forall|i: int|
                0 <= i < r@.len() ==> #[trigger] r@[i]@ == utf8_lossy(
                    assemble(old(self)@, bytes@).0[i],
                ),
            forall|i: int|
                0 <= i < r@.len() && vstd::utf8::valid_utf8(assemble(old(self)@, bytes@).0[i])
                    ==> #[trigger] r@[i]@ == vstd::utf8::decode_utf8(
                    assemble(old(self)@, bytes@).0[i],
                ),
            final(self)@ == assemble(old(self)@, bytes@).1,
    {
        let ghost start = self.pending@;
        let ghost raw: Seq<Seq<u8>> = Seq::empty();
        let mut out: Vec<String> = Vec::new();
        let mut i: usize = 0;
        while i < bytes.len()
            invariant
                i <= bytes@.len(),
                (raw, self.pending@) == assemble(start, bytes@.take(i as int)),
                out@.len() == raw.len(),
                forall|j: int| 0 <= j < out@.len() ==> #[trigger] out@[j]@ == utf8_lossy(raw[j]),
                forall|j: int|
                    0 <= j < out@.len() && vstd::utf8::valid_utf8(raw[j]) ==> #[trigger] out@[j]@
                        == vstd::utf8::decode_utf8(raw[j]),
            decreases bytes@.len() - i,
        {
            let b = bytes[i];
            assert(bytes@.take(i + 1).drop_last() =~= bytes@.take(i as int));
            if b == 10u8 {
                let line = from_utf8_lossy(self.pending.as_slice());
                proof {
                    raw = raw.push(self.pending@);
                }
                out.push(line);
                self.pending = Vec::new();
            } else {
                self.pending.push(b);
            }
            i = i + 1;
        }
        assert(bytes@.take(bytes@.len() as int) =~= bytes@);
        out
    }
}

/// However the output is split into reads, the same lines come out and the
/// same unfinished line is left.
pub proof fn law_reads_split_anywhere(cur: Seq<u8>, a: Seq<u8>, b: Seq<u8>)
    ensures
        assemble(cur, a + b) == ({
            let (d1, c1) = assemble(cur, a);
            let (d2, c2) = assemble(c1, b);
            (d1 + d2, c2)
        }),
    decreases b.len(),
{
    if b.len() == 0 {
        assert(a + b =~= a);
        let (d1, c1) = assemble(cur, a);
        assert(d1 + Seq::<Seq<u8>>::empty() =~= d1);
    } else {
        law_reads_split_anywhere(cur, a, b.drop_last());
        assert((a + b).drop_last() =~= a + b.drop_last());
        let (d1, c1) = assemble(cur, a);
        let (d2, c2) = assemble(c1, b.drop_last());
        if b.last() == 10u8 {
            assert((d1 + d2).push(c2) =~= d1 + d2.push(c2));
        }
    }
}

} // verus!
