use raster::esc::{EscSeq, States};
use raster::input::{mouse_action, OrbitAction};

fn feed(seq: &mut EscSeq, text: &str) -> bool {
    let mut done = false;
    for c in text.chars() {
        done = seq.parse_one(c);
    }
    done
}

#[test]
fn new_parser_is_fresh() {
    let seq = EscSeq::new();
    assert_eq!(seq.state, States::Esc);
    assert!(!seq.is_mouse);
    assert!(seq.args.is_empty());
    assert_eq!(seq.current_arg, 0);
    assert_eq!(seq.command, ' ');
}

#[test]
fn parses_sgr_mouse_report() {
    let mut seq = EscSeq::new();
    assert!(feed(&mut seq, "\x1b[<0;32;64M"));
    assert!(seq.is_mouse);
    assert_eq!(seq.args, vec![0, 32, 64]);
    assert_eq!(seq.command, 'M');
}

#[test]
fn ignores_bytes_before_escape() {
    let mut seq = EscSeq::new();
    assert!(!seq.parse_one('x'));
    assert_eq!(seq.state, States::Esc);
    assert!(!seq.parse_one('\x1b'));
    assert_eq!(seq.state, States::Square);
    assert!(!seq.parse_one('q'));
    assert_eq!(seq.state, States::Square);
    assert!(!seq.parse_one('['));
    assert_eq!(seq.state, States::Args);
}

#[test]
fn plain_sequence_is_not_mouse() {
    let mut seq = EscSeq::new();
    assert!(feed(&mut seq, "\x1b[12A"));
    assert!(!seq.is_mouse);
    assert_eq!(seq.args, vec![12]);
    assert_eq!(seq.command, 'A');
}

#[test]
fn reset_clears_everything() {
    let mut seq = EscSeq::new();
    feed(&mut seq, "\x1b[<65;3");
    seq.reset();
    assert_eq!(seq.state, States::Esc);
    assert!(!seq.is_mouse);
    assert!(seq.args.is_empty());
    assert_eq!(seq.current_arg, 0);
    assert_eq!(seq.command, ' ');
}

#[test]
fn long_argument_wraps() {
    let mut seq = EscSeq::new();
    feed(&mut seq, "\x1b[4294967296");
    assert_eq!(seq.current_arg, 0);
}

#[test]
fn mouse_reports_map_to_actions() {
    let cases = [
        ("\x1b[<0;10;20M", OrbitAction::RotateStart { x: 10, y: 20 }),
        ("\x1b[<32;11;21M", OrbitAction::Rotate { x: 11, y: 21 }),
        ("\x1b[<64;1;1M", OrbitAction::ScrollUp),
        ("\x1b[<65;1;1M", OrbitAction::ScrollDown),
        ("\x1b[<2;1;1M", OrbitAction::Nothing),
        ("\x1b[<0;1M", OrbitAction::Nothing),
        ("\x1b[0;1;1M", OrbitAction::Nothing),
        ("\x1b[<0;1;1m", OrbitAction::Nothing),
    ];
    for (text, want) in cases {
        let mut seq = EscSeq::new();
        assert!(feed(&mut seq, text));
        assert_eq!(mouse_action(&seq), want, "{:?}", text);
    }
}
