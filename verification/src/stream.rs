//! Decoding packets from a byte stream that arrives in pieces.
//!
//! A reader hands the bytes it reads to a [`StreamDecoder`], which queues
//! them and feeds them to a parser; the reader asks it for the next packet
//! and reads more only when the queued bytes complete none. The I/O itself
//! stays with the reader.
use vstd::prelude::*;

use crate::error::CrsfStreamError;
use crate::fixed::{queue128, queue128_new, queue128_pop_front, queue128_push_back};
use crate::packets::{Packet, PacketView};
use crate::parser::{
    byte_results, idle_model, item_seq, lemma_byte_results_append, lemma_next_item_end, lemma_next_item_prefix,
    lemma_next_item_unfold, next_item, CrsfParser, ParserModel,
};

verus! {

/// The most bytes queued for decoding.
pub const STREAM_BUFFER_SIZE: usize = 128;

/// A parser and the bytes queued for it.
pub struct StreamDecoder {
    parser: CrsfParser,
    input_buffer: heapless::Deque<u8, 128>,
}

/// A decoder as the contracts see it: the parser's model and the queued
/// bytes, front first.
pub ghost struct StreamDecoderView {
    pub parser: ParserModel,
    pub queued: Seq<u8>,
}

impl View for StreamDecoder {
    type V = StreamDecoderView;

    closed spec fn view(&self) -> StreamDecoderView {
        StreamDecoderView { parser: self.parser.model(), queued: queue128(self.input_buffer) }
    }
}

/// What decoding the queued bytes gives: the decoder after it, and the
/// first packet or error the bytes yield, `Ok(None)` when they yield
/// neither (all bytes then used up).
pub open spec fn buffered_decoded(s: StreamDecoderView) -> (StreamDecoderView, Result<
    Option<PacketView>,
    CrsfStreamError,
>) {
    let (m, pos, item) = next_item(s.parser, s.queued, 0);
    (
        StreamDecoderView { parser: m, queued: s.queued.skip(pos) },
        match item {
            Some(Ok(p)) => Ok(Some(p)),
            Some(Err(e)) => Err(e),
            None => Ok(None),
        },
    )
}

/// What queueing `bytes` gives: all of them when they fit, with `Ok`;
/// otherwise as many as fit, with `InputBufferTooSmall`.
pub open spec fn bytes_queued(s: StreamDecoderView, bytes: Seq<u8>) -> (StreamDecoderView, Result<
    (),
    CrsfStreamError,
>) {
    let room = 128 - s.queued.len();
    if bytes.len() <= room {
        (StreamDecoderView { queued: s.queued + bytes, ..s }, Ok(()))
    } else {
        (
            StreamDecoderView { queued: s.queued + bytes.take(room), ..s },
            Err(CrsfStreamError::InputBufferTooSmall),
        )
    }
}

impl StreamDecoder {
    /// The decoder's invariant.
    pub closed spec fn wf(&self) -> bool {
        &&& self.parser.wf()
        &&& queue128(self.input_buffer).len() <= 128
    }

    /// A decoder with an idle parser and nothing queued.
    pub fn new() -> (r: Self)
        ensures
            r.wf(),
            r@ == (StreamDecoderView { parser: idle_model(), queued: Seq::empty() }),
    {
        Self { parser: CrsfParser::new(), input_buffer: queue128_new() }
    }

    /// Feeds the queued bytes to the parser until one completes a packet or
    /// yields an error; `Ok(None)` once they are used up.
    pub fn decode_buffered(&mut self) -> (r: Result<Option<Packet>, CrsfStreamError>)
        requires
            old(self).wf(),
        ensures
            final(self).wf(),
            (final(self)@, match r {
                Ok(Some(p)) => Ok(Some(p@)),
                Ok(None) => Ok(None),
                Err(e) => Err(e),
            }) == buffered_decoded(old(self)@),
    {
        let ghost q0 = self@.queued;
        let ghost m_start = self@.parser;
        let ghost mut pos: int = 0;
        loop
            invariant
                self.wf(),
                0 <= pos <= q0.len(),
                self@.queued == q0.skip(pos),
                next_item(self@.parser, q0, pos) == next_item(m_start, q0, 0),
                m_start == old(self)@.parser,
                q0 == old(self)@.queued,
            decreases q0.len() - pos,
        {
            let byte = match queue128_pop_front(&mut self.input_buffer) {
                Some(b) => b,
                None => {
                    proof {
                        lemma_next_item_end(self@.parser, q0);
                    }
                    assert(q0.skip(pos).len() == 0);
                    assert(pos == q0.len());
                    assert(self@.queued =~= q0.skip(q0.len() as int));
                    return Ok(None);
                },
            };
            proof {
                assert(q0.skip(pos)[0] == q0[pos]);
                lemma_next_item_unfold(self@.parser, q0, pos);
                assert(q0.skip(pos).drop_first() =~= q0.skip(pos + 1));
                pos = pos + 1;
            }
            match self.parser.push_byte(byte) {
                Ok(Some(packet)) => return Ok(Some(packet)),
                Ok(None) => {},
                Err(e) => return Err(e),
            }
        }
    }

    /// Queues `bytes` for decoding; `InputBufferTooSmall` when they do not
    /// all fit, the ones that fit queued.
    pub fn buffer_bytes(&mut self, bytes: &[u8]) -> (r: Result<(), CrsfStreamError>)
        requires
            old(self).wf(),
        ensures
            final(self).wf(),
            (final(self)@, r) == bytes_queued(old(self)@, bytes@),
    {
        let ghost q0 = self@.queued;
        let mut i: usize = 0;
        while i < bytes.len()
            invariant
                self.wf(),
                0 <= i <= bytes@.len(),
                self@.parser == old(self)@.parser,
                q0 == old(self)@.queued,
                self@.queued == q0 + bytes@.take(i as int),
            decreases bytes@.len() - i,
        {
            if !queue128_push_back(&mut self.input_buffer, bytes[i]) {
                assert(i == 128 - q0.len());
                return Err(CrsfStreamError::InputBufferTooSmall);
            }
            assert(bytes@.take(i + 1) =~= bytes@.take(i as int).push(bytes@[i as int]));
            i += 1;
        }
        assert(bytes@.take(bytes@.len() as int) =~= bytes@);
        Ok(())
    }
}

/// A decode result as a sequence of results: none for `Ok(None)`, else the
/// packet or the error.
pub open spec fn decoded_seq(r: Result<Option<PacketView>, CrsfStreamError>) -> Seq<
    Result<PacketView, CrsfStreamError>,
> {
    match r {
        Ok(None) => Seq::empty(),
        Ok(Some(p)) => seq![Ok::<PacketView, CrsfStreamError>(p)],
        Err(e) => seq![Err::<PacketView, CrsfStreamError>(e)],
    }
}

/// Decoding is one parser pass over the stream: when the decoder's parser
/// stands where feeding the bytes `fed` from idle leaves it, a decode step
/// feeds a front part of the queued bytes, keeps the rest queued, and leaves
/// the parser where feeding `fed` and that part leaves it; the results so
/// far followed by the step's result are those of feeding them byte by
/// byte. With queueing (which leaves the parser and the queued bytes in
/// order, new bytes last), the results of any run of `buffer_bytes` and
/// `decode_buffered` calls are those of one parser fed the whole stream, no
/// byte lost or read twice.
pub proof fn lemma_decode_one_pass(s: StreamDecoderView, fed: Seq<u8>)
    requires
        s.parser == byte_results(idle_model(), fed, 0).0,
    ensures
        ({
            let (s2, r) = buffered_decoded(s);
            let k = next_item(s.parser, s.queued, 0).1;
            &&& 0 <= k <= s.queued.len()
            &&& s2.queued == s.queued.skip(k)
            &&& byte_results(idle_model(), fed + s.queued.take(k), 0) == (
                s2.parser,
                byte_results(idle_model(), fed, 0).1 + decoded_seq(r),
            )
        }),
{
    lemma_next_item_prefix(s.parser, s.queued, 0);
    let (m2, k, it) = next_item(s.parser, s.queued, 0);
    assert(s.queued.subrange(0, k) =~= s.queued.take(k));
    lemma_byte_results_append(idle_model(), fed, s.queued.take(k));
    let (s2, r) = buffered_decoded(s);
    assert(decoded_seq(r) == item_seq(it));
}

} // verus!
