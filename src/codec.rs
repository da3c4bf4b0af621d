//! Structured sequence mode: an array is written out as its elements in order
//! followed by an end marker, and read back one event at a time.
//!
//! The events are what a structured-encoding framework reports while it walks
//! a sequence: an element, the end of the sequence, or input that could not be
//! decoded. A malformed element fails the whole decode; it is never skipped.

use vstd::prelude::*;
use crate::array::Array;

verus! {

/// What the encoding framework reports at one step of reading a sequence.
pub enum SeqEvent<T> {
    /// One decoded element.
    Element(T),
    /// The sequence has ended.
    End,
    /// The input at this point could not be decoded as an element.
    Malformed,
}

/// Where a [`SequenceDecoder`] stands, and what its caller should do next.
#[derive(PartialEq, Eq, Structural, Clone, Copy, Debug)]
pub enum DecodeAction {
    /// The sequence goes on: hand over the next event.
    Continue,
    /// The sequence has ended and the array can be taken.
    Complete,
    /// The input was malformed: the decode has failed.
    Fail,
}

/// The events that encode the elements `s`: each element in order, then the end.
pub open spec fn encoding<T>(s: Seq<T>) -> Seq<SeqEvent<T>> {
    Seq::new(s.len(), |i: int| SeqEvent::Element(s[i])).push(SeqEvent::End)
}

/// `Some(p + d)` for `o == Some(d)`, and `None` for `None`.
pub open spec fn prepend<T>(p: Seq<T>, o: Option<Seq<T>>) -> Option<Seq<T>> {
    match o {
        Some(d) => Some(p + d),
        None => None,
    }
}

/// The elements that the events decode to: those before the first `End`, or
/// `None` where a `Malformed` event comes first or no `End` comes at all.
/// Events after the first `End` are not read.
pub open spec fn decoding<T>(events: Seq<SeqEvent<T>>) -> Option<Seq<T>>
    decreases events.len(),
{
    if events.len() == 0 {
        None
    } else {
        match events[0] {
            SeqEvent::End => Some(Seq::empty()),
            SeqEvent::Malformed => None,
            SeqEvent::Element(x) => prepend(seq![x], decoding(events.drop_first())),
        }
    }
}

/// The decoder's status and elements after one more event.
pub open spec fn step<T>(status: DecodeAction, decoded: Seq<T>, event: SeqEvent<T>) -> (
    DecodeAction,
    Seq<T>,
) {
    if status != DecodeAction::Continue {
        (status, decoded)
    } else {
        match event {
            SeqEvent::Element(x) => (DecodeAction::Continue, decoded.push(x)),
            SeqEvent::End => (DecodeAction::Complete, decoded),
            SeqEvent::Malformed => (DecodeAction::Fail, decoded),
        }
    }
}

/// The most elements reserved up front from a size hint; a longer sequence
/// grows the buffer as it goes.
pub const PREALLOCATE_LIMIT: usize = 4096;

/// Rebuilds an array from the events of a sequence, one event at a time.
pub struct SequenceDecoder<T> {
    buffer: Vec<T>,
    status: DecodeAction,
}

impl<T> SequenceDecoder<T> {
    /// The elements taken so far, in order.
    pub closed spec fn decoded(&self) -> Seq<T> {
        self.buffer@
    }

    /// Whether the decoder reads on, has completed, or has failed.
    pub closed spec fn status(&self) -> DecodeAction {
        self.status
    }

    /// A decoder that has read nothing yet. `size_hint` is the length that the
    /// framework announces, if any; it only decides how much room is reserved.
    pub fn with_size_hint(size_hint: Option<usize>) -> (r: SequenceDecoder<T>)
        ensures
            r.decoded() == Seq::<T>::empty(),
            r.status() == DecodeAction::Continue,
    {
        let capacity: usize = match size_hint {
            Some(n) => if n < PREALLOCATE_LIMIT {
                n
            } else {
                PREALLOCATE_LIMIT
            },
            None => 0,
        };
        SequenceDecoder { buffer: Vec::with_capacity(capacity), status: DecodeAction::Continue }
    }

    /// What the decoder does with the next event: while reading, it keeps an
    /// element, completes on the end, and fails on malformed input; once it has
    /// completed or failed, it ignores every further event.
    pub fn accept(&mut self, event: SeqEvent<T>) -> (r: DecodeAction)
        ensures
            (final(self).status(), final(self).decoded()) == step(
                old(self).status(),
                old(self).decoded(),
                event,
            ),
            r == final(self).status(),
    {
        if self.status != DecodeAction::Continue {
            return self.status;
        }
        match event {
            SeqEvent::Element(x) => {
                self.buffer.push(x);
            },
            SeqEvent::End => {
                self.status = DecodeAction::Complete;
            },
            SeqEvent::Malformed => {
                self.status = DecodeAction::Fail;
            },
        }
        self.status
    }

    /// The decoded array, once the sequence has completed; `None` while it is
    /// still being read or after it failed.
    pub fn finish(self) -> (r: Option<Array<T>>)
        ensures
            self.status() == DecodeAction::Complete <==> r is Some,
            r matches Some(a) ==> a@ == self.decoded(),
    {
        if self.status == DecodeAction::Complete {
            Some(Array::from_vec(self.buffer))
        } else {
            None
        }
    }
}

/// Moves past the leading element `x` of the events still to be read.
proof fn lemma_decoding_element<T>(events: Seq<SeqEvent<T>>, i: int, x: T)
    requires
        0 <= i < events.len(),
        events[i] == SeqEvent::Element(x),
    ensures
        decoding(events.subrange(i, events.len() as int)) == prepend(
            seq![x],
            decoding(events.subrange(i + 1, events.len() as int)),
        ),
{
    let rest = events.subrange(i, events.len() as int);
    assert(rest.drop_first() =~= events.subrange(i + 1, events.len() as int));
}

/// Prepending twice is prepending the concatenation.
proof fn lemma_prepend_twice<T>(p: Seq<T>, q: Seq<T>, o: Option<Seq<T>>)
    ensures
        prepend(p, prepend(q, o)) == prepend(p + q, o),
{
    if let Some(d) = o {
        assert(p + (q + d) =~= (p + q) + d);
    }
}

impl<T: Copy> Array<T> {
    /// Writes the array out as a sequence: each element in index order, then
    /// the end marker. The sequence carries no length header of its own.
    pub fn encode_sequence(&self) -> (r: Vec<SeqEvent<T>>)
        ensures
            r@ == encoding(self@),
    {
        let mut out: Vec<SeqEvent<T>> = Vec::with_capacity(self.len());
        let mut it = self.iter();
        loop
            invariant
                it.wf(),
                it.elements() == self@,
                out@ == Seq::new(it.position(), |i: int| SeqEvent::Element(self@[i])),
            ensures
                it.position() == self@.len(),
                out@ == Seq::new(self@.len(), |i: int| SeqEvent::Element(self@[i])),
            decreases self@.len() - it.position(),
        {
            match it.next() {
                Some(x) => {
                    out.push(SeqEvent::Element(*x));
                    assert(out@ =~= Seq::new(it.position(), |i: int| SeqEvent::Element(self@[i])));
                },
                None => {
                    break;
                },
            }
        }
        out.push(SeqEvent::End);
        assert(out@ =~= encoding(self@));
        out
    }
}

/// Reads a sequence back into an array: `Some` exactly when the events decode,
/// and then holding the decoded elements.
pub fn decode_sequence<T: Copy>(events: &Vec<SeqEvent<T>>) -> (r: Option<Array<T>>)
    ensures
        decoding(events@) is Some <==> r is Some,
        r matches Some(a) ==> decoding(events@) == Some(a@),
{
    let n = events.len();
    let mut decoder: SequenceDecoder<T> = SequenceDecoder::with_size_hint(Some(n));
    let mut i: usize = 0;
    let mut done = false;
    proof {
        assert(events@.subrange(0, n as int) =~= events@);
        assert(Seq::<T>::empty() + decoding(events@).unwrap_or(Seq::empty()) =~= decoding(
            events@,
        ).unwrap_or(Seq::empty()));
    }
    while i < n && !done
        invariant
            n == events@.len(),
            i <= n,
            !done ==> decoder.status() == DecodeAction::Continue,
            !done ==> decoding(events@) == prepend(
                decoder.decoded(),
                decoding(events@.subrange(i as int, n as int)),
            ),
            done ==> decoder.status() != DecodeAction::Continue,
            done && decoder.status() == DecodeAction::Complete ==> decoding(events@) == Some(
                decoder.decoded(),
            ),
            done && decoder.status() == DecodeAction::Fail ==> decoding(events@) is None,
        decreases n - i,
    {
        let event = match &events[i] {
            SeqEvent::Element(x) => SeqEvent::Element(*x),
            SeqEvent::End => SeqEvent::End,
            SeqEvent::Malformed => SeqEvent::Malformed,
        };
        proof {
            let rest = events@.subrange(i as int, n as int);
            assert(rest[0] == events@[i as int]);
            match events@[i as int] {
                SeqEvent::Element(x) => {
                    lemma_decoding_element(events@, i as int, x);
                    lemma_prepend_twice(decoder.decoded(), seq![x], decoding(events@.subrange(i + 1, n as int)));
                },
                SeqEvent::End => {
                    assert(decoder.decoded() + Seq::<T>::empty() =~= decoder.decoded());
                },
                SeqEvent::Malformed => {},
            }
        }
        let action = decoder.accept(event);
        if action != DecodeAction::Continue {
            done = true;
        }
        i = i + 1;
    }
    decoder.finish()
}

/// A sequence written out by `encode_sequence` and read back by
/// `decode_sequence` gives the elements of the array it came from.
pub proof fn lemma_sequence_round_trip<T>(a: Array<T>)
    ensures
        decoding(encoding(a@)) == Some(a@),
{
    lemma_round_trip_elements(a@);
}

proof fn lemma_round_trip_elements<T>(s: Seq<T>)
    ensures
        decoding(encoding(s)) == Some(s),
    decreases s.len(),
{
    if s.len() == 0 {
        assert(encoding(s)[0] == SeqEvent::<T>::End);
    } else {
        let rest = s.drop_first();
        assert(encoding(s).drop_first() =~= encoding(rest));
        lemma_round_trip_elements(rest);
        assert(seq![s[0]] + rest =~= s);
    }
}

/// An empty array encodes as the end marker alone, and that encoding decodes
/// to an empty sequence of elements.
pub proof fn lemma_empty_round_trip<T>(a: Array<T>)
    requires
        a@.len() == 0,
    ensures
        encoding(a@) == seq![SeqEvent::<T>::End],
        decoding(encoding(a@)) == Some(Seq::<T>::empty()),
{
    assert(encoding(a@) =~= seq![SeqEvent::<T>::End]);
    lemma_round_trip_elements(a@);
    assert(a@ =~= Seq::<T>::empty());
}

/// The elements after `n` round trips through structured sequence mode,
/// starting from `s`; `None` once a decode has failed.
pub open spec fn repeated_round_trip<T>(s: Seq<T>, n: nat) -> Option<Seq<T>>
    decreases n,
{
    if n == 0 {
        Some(s)
    } else {
        match repeated_round_trip(s, (n - 1) as nat) {
            Some(t) => decoding(encoding(t)),
            None => None,
        }
    }
}

/// Round trips are stable: after any number of them of an array, at least
/// one, the elements are those after the first, which are the array's own.
pub proof fn lemma_round_trips_stable<T>(a: Array<T>, n: nat)
    requires
        n >= 1,
    ensures
        repeated_round_trip(a@, n) == repeated_round_trip(a@, 1),
        repeated_round_trip(a@, n) == Some(a@),
    decreases n,
{
    lemma_round_trip_elements(a@);
    assert(repeated_round_trip(a@, 0) == Some(a@));
    if n > 1 {
        lemma_round_trips_stable(a, (n - 1) as nat);
    }
}

} // verus!
