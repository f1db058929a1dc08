//! Complete output lines.

use vstd::prelude::*;

verus! {

/// The byte that ends a line.
pub const LINE_END: u8 = 10;

/// `bytes` is one complete line: it ends with the line end and holds no
/// other one, so it can neither be cut short nor be read as two lines.
pub open spec fn is_complete_line(bytes: Seq<u8>) -> bool {
    &&& bytes.len() > 0
    &&& bytes.last() == LINE_END
    &&& forall|i: int| 0 <= i < bytes.len() - 1 ==> bytes[i] != LINE_END
}

/// `payload` can be sent as one line: it holds no line end.
pub open spec fn is_single_line(payload: Seq<u8>) -> bool {
    forall|i: int| 0 <= i < payload.len() ==> payload[i] != LINE_END
}

/// One line of output, line end included. A `Line` is always complete, which
/// is what lets many producers share one writer without corrupting the
/// stream: the writer only ever sees whole lines.
#[derive(Debug, PartialEq, Eq)]
pub struct Line {
    bytes: Vec<u8>,
}

impl View for Line {
    type V = Seq<u8>;

    /// The bytes of the line, line end included.
    closed spec fn view(&self) -> Seq<u8> {
        self.bytes@
    }
}

impl Clone for Line {
    fn clone(&self) -> (line: Line)
        ensures
            line@ == self@,
    {
        proof {
            use_type_invariant(self);
        }
        Line { bytes: self.bytes.clone() }
    }
}

impl Line {
    #[verifier::type_invariant]
    spec fn complete(&self) -> bool {
        is_complete_line(self.bytes@)
    }

    /// Recalls, where a line is at hand, that it is complete. Does nothing
    /// when run.
    pub(crate) fn recall_complete(&self)
        ensures
            is_complete_line(self@),
    {
        proof {
            use_type_invariant(self);
        }
    }

    /// Whether `payload` holds no line end.
    pub fn fits(payload: &Vec<u8>) -> (b: bool)
        ensures
            b == is_single_line(payload@),
    {
        let mut i: usize = 0;
        while i < payload.len()
            invariant
                i <= payload.len(),
                forall|j: int| 0 <= j < i ==> payload[j] != LINE_END,
            decreases payload.len() - i,
        {
            if payload[i] == LINE_END {
                return false;
            }
            i = i + 1;
        }
        true
    }

    /// Frames `payload` as a line by appending the line end. A payload that
    /// holds a line end itself would break the stream in two and is refused.
    pub fn frame(payload: Vec<u8>) -> (line: Option<Line>)
        ensures
            line is Some <==> is_single_line(payload@),
            line matches Some(l) ==> l@ == payload@.push(LINE_END) && is_complete_line(l@),
    {
        if Line::fits(&payload) {
            let mut bytes = payload;
            bytes.push(LINE_END);
            Some(Line { bytes })
        } else {
            None
        }
    }

    /// The bytes to write for this line.
    pub fn as_bytes(&self) -> (bytes: &Vec<u8>)
        ensures
            bytes@ == self@,
            is_complete_line(bytes@),
    {
        proof {
            use_type_invariant(self);
        }
        &self.bytes
    }

    /// The line without its line end.
    pub fn payload(&self) -> (payload: Vec<u8>)
        ensures
            payload@ == self@.drop_last(),
            is_single_line(payload@),
            self@ == payload@.push(LINE_END),
    {
        proof {
            use_type_invariant(self);
        }
        let mut payload = self.bytes.clone();
        payload.pop();
        proof {
            assert(self@ =~= payload@.push(LINE_END));
        }
        payload
    }
}

/// Framing loses nothing: the payload of a framed line is the payload that
/// was framed, and two payloads that frame to the same line are the same.
pub proof fn lemma_frame_is_injective(first: Seq<u8>, second: Seq<u8>)
    requires
        first.push(LINE_END) == second.push(LINE_END),
    ensures
        first == second,
{
    assert(first =~= first.push(LINE_END).drop_last());
    assert(second =~= second.push(LINE_END).drop_last());
}

/// The bytes of `lines` written one after the other.
pub open spec fn stream_of(lines: Seq<Seq<u8>>) -> Seq<u8>
    decreases lines.len(),
{
    if lines.len() == 0 {
        Seq::empty()
    } else {
        lines[0] + stream_of(lines.drop_first())
    }
}

/// Every one of `lines` is complete.
pub open spec fn all_complete(lines: Seq<Seq<u8>>) -> bool {
    forall|i: int| 0 <= i < lines.len() ==> is_complete_line(#[trigger] lines[i])
}

/// Writing one more line appends its bytes to the stream.
pub proof fn lemma_stream_grows_by_lines(lines: Seq<Seq<u8>>, line: Seq<u8>)
    ensures
        stream_of(lines.push(line)) == stream_of(lines) + line,
    decreases lines.len(),
{
    let longer = lines.push(line);
    if lines.len() == 0 {
        assert(longer.drop_first() =~= Seq::<Seq<u8>>::empty());
        assert(stream_of(longer.drop_first()) =~= Seq::<u8>::empty());
        assert(stream_of(longer) =~= longer[0] + stream_of(longer.drop_first()));
        assert(stream_of(longer) =~= stream_of(lines) + line);
    } else {
        assert(longer.drop_first() =~= lines.drop_first().push(line));
        lemma_stream_grows_by_lines(lines.drop_first(), line);
        assert(stream_of(longer) =~= longer[0] + stream_of(longer.drop_first()));
        assert(stream_of(longer) =~= stream_of(lines) + line);
    }
}

/// A stream of complete lines can be read back in one way only: two
/// sequences of complete lines that give the same bytes are the same
/// sequence. No line is lost, cut short, or run together with the next.
pub proof fn lemma_stream_determines_lines(first: Seq<Seq<u8>>, second: Seq<Seq<u8>>)
    requires
        all_complete(first),
        all_complete(second),
        stream_of(first) == stream_of(second),
    ensures
        first == second,
    decreases first.len(),
{
    if first.len() == 0 || second.len() == 0 {
        if first.len() > 0 {
            assert(is_complete_line(first[0]));
            assert(stream_of(first).len() > 0);
        }
        if second.len() > 0 {
            assert(is_complete_line(second[0]));
            assert(stream_of(second).len() > 0);
        }
        assert(first =~= second);
    } else {
        let bytes = stream_of(first);
        let a = first[0];
        let b = second[0];
        assert(is_complete_line(a));
        assert(is_complete_line(b));
        assert(forall|i: int| 0 <= i < a.len() ==> bytes[i] == a[i]);
        assert(forall|i: int| 0 <= i < b.len() ==> bytes[i] == b[i]);
        if a.len() < b.len() {
            assert(bytes[a.len() - 1] == a[a.len() - 1]);
            assert(bytes[a.len() - 1] == b[a.len() - 1]);
        } else if b.len() < a.len() {
            assert(bytes[b.len() - 1] == b[b.len() - 1]);
            assert(bytes[b.len() - 1] == a[b.len() - 1]);
        }
        assert(a =~= b);
        let rest_first = first.drop_first();
        let rest_second = second.drop_first();
        assert(stream_of(rest_first) =~= bytes.subrange(a.len() as int, bytes.len() as int));
        assert(stream_of(rest_second) =~= bytes.subrange(b.len() as int, bytes.len() as int));
        assert forall|i: int| 0 <= i < rest_first.len() implies is_complete_line(
            #[trigger] rest_first[i],
        ) by {
            assert(rest_first[i] == first[i + 1]);
        }
        assert forall|i: int| 0 <= i < rest_second.len() implies is_complete_line(
            #[trigger] rest_second[i],
        ) by {
            assert(rest_second[i] == second[i + 1]);
        }
        lemma_stream_determines_lines(rest_first, rest_second);
        assert(first =~= seq![a] + rest_first);
        assert(second =~= seq![b] + rest_second);
    }
}

} // verus!
