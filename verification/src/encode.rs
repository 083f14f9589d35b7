//! The byte-sink and style-aware writer capabilities.
//!
//! A [`ByteSink`] is the destination a writer wraps: it accepts bytes, and
//! its contract speaks of the stream of bytes accepted so far. A
//! [`StyleWrite`] extends a plain byte sink with two style operations,
//! each of which renders its request as bytes written to the underlying
//! stream. Either operation may fail only if the sink's own write fails,
//! never because of the style value itself.

use crate::style::Style;
use vstd::prelude::*;

verus! {

/// The failure a byte sink may report on a write or a flush.
#[derive(Clone, Copy, Debug, PartialEq, Eq, Structural)]
pub struct WriteError;

/// The stream grew from `pre` to `post` by some prefix of `of`: what a
/// failed write leaves behind — never reordered, never invented bytes.
pub open spec fn appended_prefix(pre: Seq<u8>, post: Seq<u8>, of: Seq<u8>) -> bool {
    exists|k: int| 0 <= k <= of.len() && post == pre + of.subrange(0, k)
}

/// A destination for bytes. The spec view `stream` is the whole sequence
/// of bytes the sink has accepted, in order; a failed write may leave a
/// prefix of the attempted bytes behind, and never reorders or invents
/// bytes.
pub trait ByteSink {
    /// The bytes this sink has accepted so far, in order. An impl outside
    /// the verified world may leave the default, whose contracts then say
    /// nothing.
    open spec fn stream(&self) -> Seq<u8> {
        Seq::<u8>::empty()
    }

    /// Writes as much of `buf` as the sink accepts, returning how many
    /// bytes were taken; on failure nothing was taken.
    fn write(&mut self, buf: &[u8]) -> (r: Result<usize, WriteError>)
        ensures
            r matches Ok(k) ==> k <= buf@.len() && final(self).stream() == old(self).stream()
                + buf@.subrange(0, k as int),
            r is Err ==> final(self).stream() == old(self).stream(),
    ;

    /// Writes all of `buf`; on failure some prefix of `buf` may have been
    /// taken.
    fn write_all(&mut self, buf: &[u8]) -> (r: Result<(), WriteError>)
        ensures
            r is Ok ==> final(self).stream() == old(self).stream() + buf@,
            r is Err ==> appended_prefix(old(self).stream(), final(self).stream(), buf@),
    ;

    /// Pushes buffered bytes onward; the stream of accepted bytes is
    /// unchanged.
    fn flush(&mut self) -> (r: Result<(), WriteError>)
        ensures
            final(self).stream() == old(self).stream(),
    ;
}

/// A byte sink extended with style awareness: a writer that can render a
/// requested style, and a return to the default style, as bytes on its own
/// stream. Which bytes stand for a style is fixed per writer type.
pub trait StyleWrite: ByteSink {
    /// The byte sequence this writer emits to apply a style.
    open spec fn style_seq(style: Style) -> Seq<u8> {
        Seq::<u8>::empty()
    }

    /// The byte sequence this writer emits to return to the default style.
    open spec fn reset_seq() -> Seq<u8> {
        Seq::<u8>::empty()
    }

    /// Requests that subsequently written bytes render in the given style;
    /// emits exactly this writer's byte rendering of the style. Fails only
    /// if the underlying sink's write fails.
    fn set_style(&mut self, style: &Style) -> (r: Result<(), WriteError>)
        ensures
            r is Ok ==> final(self).stream() == old(self).stream() + Self::style_seq(*style),
            r is Err ==> appended_prefix(
                old(self).stream(),
                final(self).stream(),
                Self::style_seq(*style),
            ),
    ;

    /// Requests that subsequently written bytes render in the default
    /// style; emits exactly this writer's reset rendering. Fails only if
    /// the underlying sink's write fails.
    fn reset_style(&mut self) -> (r: Result<(), WriteError>)
        ensures
            r is Ok ==> final(self).stream() == old(self).stream() + Self::reset_seq(),
            r is Err ==> appended_prefix(
                old(self).stream(),
                final(self).stream(),
                Self::reset_seq(),
            ),
    ;
}

proof fn lemma_appended_prefix_extends(pre: Seq<u8>, post: Seq<u8>, a: Seq<u8>, b: Seq<u8>)
    requires
        appended_prefix(pre, post, a),
    ensures
        appended_prefix(pre, post, a + b),
{
    let k = choose|k: int| 0 <= k <= a.len() && post == pre + a.subrange(0, k);
    assert((a + b).subrange(0, k) =~= a.subrange(0, k));
    assert(post == pre + (a + b).subrange(0, k));
}

proof fn lemma_appended_prefix_after(pre: Seq<u8>, a: Seq<u8>, post: Seq<u8>, b: Seq<u8>)
    requires
        appended_prefix(pre + a, post, b),
    ensures
        appended_prefix(pre, post, a + b),
{
    let k = choose|k: int| 0 <= k <= b.len() && post == (pre + a) + b.subrange(0, k);
    assert((a + b).subrange(0, a.len() + k) =~= a + b.subrange(0, k));
    assert(post =~= pre + (a + b).subrange(0, a.len() + k));
}

/// Writes a styled run of text: the style, then the payload, then a reset.
/// On success the stream grows by exactly those three renderings with the
/// payload bytes unchanged, in order, between them; on failure, by some
/// prefix of them.
pub fn write_styled<W: StyleWrite>(w: &mut W, style: &Style, payload: &[u8]) -> (r: Result<
    (),
    WriteError,
>)
    ensures
        r is Ok ==> final(w).stream() == old(w).stream() + W::style_seq(*style) + payload@
            + W::reset_seq(),
        r is Err ==> appended_prefix(
            old(w).stream(),
            final(w).stream(),
            W::style_seq(*style) + payload@ + W::reset_seq(),
        ),
{
    match w.set_style(style) {
        Ok(_) => {},
        Err(e) => {
            proof {
                lemma_appended_prefix_extends(
                    old(w).stream(),
                    w.stream(),
                    W::style_seq(*style),
                    payload@,
                );
                lemma_appended_prefix_extends(
                    old(w).stream(),
                    w.stream(),
                    W::style_seq(*style) + payload@,
                    W::reset_seq(),
                );
            }
            return Err(e);
        },
    }
    match w.write_all(payload) {
        Ok(_) => {},
        Err(e) => {
            proof {
                lemma_appended_prefix_after(old(w).stream(), W::style_seq(*style), w.stream(), payload@);
                lemma_appended_prefix_extends(
                    old(w).stream(),
                    w.stream(),
                    W::style_seq(*style) + payload@,
                    W::reset_seq(),
                );
            }
            return Err(e);
        },
    }
    match w.reset_style() {
        Ok(_) => {},
        Err(e) => {
            proof {
                assert(old(w).stream() + (W::style_seq(*style) + payload@) =~= old(w).stream()
                    + W::style_seq(*style) + payload@);
                lemma_appended_prefix_after(
                    old(w).stream(),
                    W::style_seq(*style) + payload@,
                    w.stream(),
                    W::reset_seq(),
                );
            }
            return Err(e);
        },
    }
    Ok(())
}

/// A byte sink backed by memory: it accepts every byte and never fails.
#[derive(Debug)]
pub struct VecSink {
    buf: Vec<u8>,
}

impl VecSink {
    /// Returns a new, empty sink.
    pub fn new() -> (r: VecSink)
        ensures
            r.stream() == Seq::<u8>::empty(),
    {
        VecSink { buf: Vec::new() }
    }

    /// The bytes accepted so far.
    pub fn bytes(&self) -> (r: &Vec<u8>)
        ensures
            r@ == self.stream(),
    {
        &self.buf
    }

    /// Hands the accepted bytes out, consuming the sink.
    pub fn into_bytes(self) -> (r: Vec<u8>)
        ensures
            r@ == self.stream(),
    {
        self.buf
    }

    fn append_all(&mut self, buf: &[u8])
        ensures
            final(self).buf@ == old(self).buf@ + buf@,
    {
        let mut i: usize = 0;
        while i < buf.len()
            invariant
                0 <= i <= buf@.len(),
                self.buf@ == old(self).buf@ + buf@.subrange(0, i as int),
            decreases buf@.len() - i,
        {
            proof {
                assert(buf@.subrange(0, i + 1) =~= buf@.subrange(0, i as int) + seq![
                    buf@[i as int],
                ]);
            }
            self.buf.push(buf[i]);
            i = i + 1;
        }
        proof {
            assert(buf@.subrange(0, buf@.len() as int) =~= buf@);
        }
    }
}

impl ByteSink for VecSink {
    closed spec fn stream(&self) -> Seq<u8> {
        self.buf@
    }

    fn write(&mut self, buf: &[u8]) -> (r: Result<usize, WriteError>)
        ensures
            r == Ok::<usize, WriteError>(buf@.len() as usize),
    {
        proof {
            assert(buf@.subrange(0, buf@.len() as int) =~= buf@);
        }
        self.append_all(buf);
        Ok(buf.len())
    }

    fn write_all(&mut self, buf: &[u8]) -> (r: Result<(), WriteError>)
        ensures
            r == Ok::<(), WriteError>(()),
    {
        self.append_all(buf);
        Ok(())
    }

    fn flush(&mut self) -> (r: Result<(), WriteError>)
        ensures
            r == Ok::<(), WriteError>(()),
    {
        Ok(())
    }
}

} // verus!
