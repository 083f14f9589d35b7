use log4rs::ansi::AnsiWriter;
use log4rs::encode::{write_styled, ByteSink, StyleWrite, VecSink};
use log4rs::style::{Color, Style};

const COLORS: [Color; 9] = [
    Color::Black,
    Color::Red,
    Color::Green,
    Color::Yellow,
    Color::Blue,
    Color::Magenta,
    Color::Cyan,
    Color::White,
    Color::Default,
];

const DIGITS: [u8; 9] = [b'0', b'1', b'2', b'3', b'4', b'5', b'6', b'7', b'9'];

#[test]
fn basic() {
    let mut w = AnsiWriter::new(VecSink::new());

    w.write_all(b"normal ").unwrap();
    w.set_style(&Style {
        text: Color::Red,
        background: Color::Blue,
        intense: true,
    })
    .unwrap();
    w.write_all(b"styled").unwrap();
    w.set_style(&Style {
        text: Color::Green,
        background: Color::Default,
        intense: false,
    })
    .unwrap();
    w.write_all(b" styled2").unwrap();
    w.reset_style().unwrap();
    w.write_all(b" normal\n").unwrap();
    w.flush().unwrap();

    let out = w.into_inner().into_bytes();
    assert_eq!(
        out,
        b"normal \x1b[31;44;1mstyled\x1b[32;49;22m styled2\x1b[0m normal\n".to_vec()
    );
}

#[test]
fn every_style_triple_matches_the_template() {
    for (i, &text) in COLORS.iter().enumerate() {
        for (j, &background) in COLORS.iter().enumerate() {
            for &intense in &[true, false] {
                let mut w = AnsiWriter::new(VecSink::new());
                w.set_style(&Style {
                    text,
                    background,
                    intense,
                })
                .unwrap();
                let out = w.into_inner().into_bytes();

                let mut expect = vec![0x1b, b'[', b'3', DIGITS[i], b';', b'4', DIGITS[j], b';'];
                if intense {
                    expect.push(b'1');
                } else {
                    expect.push(b'2');
                    expect.push(b'2');
                }
                expect.push(b'm');

                assert_eq!(out, expect);
                assert_eq!(out.len(), if intense { 10 } else { 11 });
            }
        }
    }
}

#[test]
fn reset_is_the_fixed_sgr_reset() {
    for &text in COLORS.iter() {
        let mut w = AnsiWriter::new(VecSink::new());
        w.set_style(&Style {
            text,
            background: Color::Default,
            intense: true,
        })
        .unwrap();
        w.reset_style().unwrap();
        let out = w.into_inner().into_bytes();
        assert_eq!(&out[out.len() - 4..], b"\x1b[0m");
    }

    let mut w = AnsiWriter::new(VecSink::new());
    w.reset_style().unwrap();
    assert_eq!(w.into_inner().into_bytes(), b"\x1b[0m".to_vec());
}

#[test]
fn payload_bytes_pass_through_unchanged() {
    let mut w = AnsiWriter::new(VecSink::new());
    let payload: Vec<u8> = (0u8..=255).collect();
    w.write_all(&payload).unwrap();
    let sink = w.into_inner();
    assert_eq!(sink.bytes(), &payload);
    assert_eq!(sink.into_bytes(), payload);
}

#[test]
fn write_reports_full_length() {
    let mut w = AnsiWriter::new(VecSink::new());
    assert_eq!(w.write(b"abc"), Ok(3));
    assert_eq!(w.into_inner().into_bytes(), b"abc".to_vec());
}

#[test]
fn styled_run_keeps_payload_between_style_and_reset() {
    let mut w = AnsiWriter::new(VecSink::new());
    write_styled(
        &mut w,
        &Style {
            text: Color::Red,
            background: Color::Blue,
            intense: true,
        },
        b"payload",
    )
    .unwrap();
    assert_eq!(
        w.into_inner().into_bytes(),
        b"\x1b[31;44;1mpayload\x1b[0m".to_vec()
    );
}
