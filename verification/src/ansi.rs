//! A style-aware writer that wraps any byte sink and renders style
//! requests as ANSI SGR escape sequences.
//!
//! Applying a style emits `ESC [ 3<fg> ; 4<bg> ; <intensity> m`, where the
//! intensity slot is `1` (bold) for intense text and `22` (normal
//! intensity) otherwise, so the sequence is 10 bytes when intense and 11
//! when not. Resetting always emits the full SGR reset `ESC [ 0 m`,
//! whatever style came before. All plain byte-sink operations pass through
//! to the wrapped sink unchanged; the wrapper adds no buffering of its own.

use crate::encode::{ByteSink, StyleWrite, WriteError};
use crate::style::{Color, Style};
use vstd::prelude::*;

verus! {

/// The ANSI SGR color parameter digit of a color, as an ASCII byte.
/// `Default` maps to `9`, the standard terminal default-color parameter.
pub open spec fn color_code(c: Color) -> u8 {
    match c {
        Color::Black => 48,  // b'0'
        Color::Red => 49,  // b'1'
        Color::Green => 50,  // b'2'
        Color::Yellow => 51,  // b'3'
        Color::Blue => 52,  // b'4'
        Color::Magenta => 53,  // b'5'
        Color::Cyan => 54,  // b'6'
        Color::White => 55,  // b'7'
        Color::Default => 57,  // b'9'
    }
}

/// The exact escape sequence the ANSI writer emits to apply a style:
/// `ESC [ 3<fg> ; 4<bg> ;` then `1 m` for intense text or `2 2 m` for
/// normal intensity.
pub open spec fn ansi_style_seq(s: Style) -> Seq<u8> {
    let head = seq![
        27u8,  // ESC
        91u8,  // b'['
        51u8,  // b'3'
        color_code(s.text),
        59u8,  // b';'
        52u8,  // b'4'
        color_code(s.background),
        59u8,  // b';'
    ];
    if s.intense {
        head + seq![49u8, 109u8]  // b"1m"
    } else {
        head + seq![50u8, 50u8, 109u8]  // b"22m"
    }
}

/// The exact escape sequence the ANSI writer emits to reset the style:
/// `ESC [ 0 m`, a full SGR reset.
pub open spec fn ansi_reset_seq() -> Seq<u8> {
    seq![27u8, 91u8, 48u8, 109u8]
}

/// The style sequence is 10 bytes for intense text and 11 otherwise, and
/// the reset sequence is always the same 4 bytes, whatever style was
/// applied before.
pub proof fn lemma_ansi_seq_shape(s: Style)
    ensures
        s.intense ==> ansi_style_seq(s).len() == 10,
        !s.intense ==> ansi_style_seq(s).len() == 11,
        ansi_reset_seq().len() == 4,
        ansi_style_seq(s)[0] == 27,
        ansi_style_seq(s)[1] == 91,
        ansi_style_seq(s)[2] == 51,
        ansi_style_seq(s)[3] == color_code(s.text),
        ansi_style_seq(s)[4] == 59,
        ansi_style_seq(s)[5] == 52,
        ansi_style_seq(s)[6] == color_code(s.background),
        ansi_style_seq(s)[7] == 59,
        ansi_style_seq(s).last() == 109,
{
}

fn color_byte(c: Color) -> (r: u8)
    ensures
        r == color_code(c),
{
    match c {
        Color::Black => 48,
        Color::Red => 49,
        Color::Green => 50,
        Color::Yellow => 51,
        Color::Blue => 52,
        Color::Magenta => 53,
        Color::Cyan => 54,
        Color::White => 55,
        Color::Default => 57,
    }
}

/// A byte sink wrapper that emits ANSI escape codes for text style.
#[derive(Debug)]
pub struct AnsiWriter<W>(W);

impl<W: ByteSink> AnsiWriter<W> {
    /// The wrapped sink.
    pub closed spec fn spec_inner(&self) -> W {
        self.0
    }

    /// Constructs a new `AnsiWriter` around the sink it will exclusively
    /// own.
    pub fn new(w: W) -> (r: AnsiWriter<W>)
        ensures
            r.spec_inner() == w,
    {
        AnsiWriter(w)
    }

    /// Hands the wrapped sink back, consuming the writer.
    pub fn into_inner(self) -> (r: W)
        ensures
            r == self.spec_inner(),
    {
        self.0
    }
}

impl<W: ByteSink> ByteSink for AnsiWriter<W> {
    open spec fn stream(&self) -> Seq<u8> {
        self.spec_inner().stream()
    }

    fn write(&mut self, buf: &[u8]) -> (r: Result<usize, WriteError>) {
        self.0.write(buf)
    }

    fn write_all(&mut self, buf: &[u8]) -> (r: Result<(), WriteError>) {
        self.0.write_all(buf)
    }

    fn flush(&mut self) -> (r: Result<(), WriteError>) {
        self.0.flush()
    }
}

impl<W: ByteSink> StyleWrite for AnsiWriter<W> {
    open spec fn style_seq(style: Style) -> Seq<u8> {
        ansi_style_seq(style)
    }

    open spec fn reset_seq() -> Seq<u8> {
        ansi_reset_seq()
    }

    fn set_style(&mut self, style: &Style) -> (r: Result<(), WriteError>) {
        let mut buf: Vec<u8> = Vec::new();
        buf.push(27);
        buf.push(91);
        buf.push(51);
        buf.push(color_byte(style.text));
        buf.push(59);
        buf.push(52);
        buf.push(color_byte(style.background));
        buf.push(59);
        if style.intense {
            buf.push(49);
            buf.push(109);
        } else {
            buf.push(50);
            buf.push(50);
            buf.push(109);
        }
        proof {
            assert(buf@ =~= ansi_style_seq(*style));
        }
        self.0.write_all(buf.as_slice())
    }

    fn reset_style(&mut self) -> (r: Result<(), WriteError>) {
        let mut buf: Vec<u8> = Vec::new();
        buf.push(27);
        buf.push(91);
        buf.push(48);
        buf.push(109);
        proof {
            assert(buf@ =~= ansi_reset_seq());
        }
        self.0.write_all(buf.as_slice())
    }
}

} // verus!
