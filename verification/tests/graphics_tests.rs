use no_more_termius::graphics::{base64, clear, detect, emit, iterm2_sequence, kitty_sequences, wrap_tmux, EncodedImage, Protocol, TermEnv};

#[test]
fn base64_pads_correctly() {
    assert_eq!(base64(b"hello"), "aGVsbG8=");
    assert_eq!(base64(b"hell"), "aGVsbA==");
    assert_eq!(base64(b"hel"), "aGVs");
    assert_eq!(base64(b""), "");
}

#[test]
fn tmux_wrapping_doubles_escapes() {
    assert_eq!(wrap_tmux("\x1b_Gx\x1b\\", false), "\x1b_Gx\x1b\\");
    assert_eq!(wrap_tmux("\x1b_Gx\x1b\\", true), "\x1bPtmux;\x1b\x1b_Gx\x1b\x1b\\\x1b\\");
}

#[test]
fn kitty_single_chunk_has_all_controls() {
    let img = EncodedImage { b64: "QUJD".into(), cols: 40, rows: 20 };
    let seqs = kitty_sequences(&img);
    assert_eq!(seqs.len(), 1);
    assert_eq!(seqs[0], "\x1b_Ga=T,f=100,q=2,c=40,r=20,m=0;QUJD\x1b\\");
}

#[test]
fn kitty_chunking_splits_payload() {
    let img = EncodedImage { b64: "A".repeat(5000), cols: 10, rows: 5 };
    let seqs = kitty_sequences(&img);
    assert_eq!(seqs.len(), 2);
    assert!(seqs[0].starts_with("\x1b_Ga=T,f=100,q=2,c=10,r=5,m=1;"));
    assert!(seqs[1].starts_with("\x1b_Gm=0;"));
}

#[test]
fn kitty_chunks_rejoin_to_the_payload() {
    let payload: String = (0..9000).map(|i| if i % 3 == 0 { 'a' } else { 'Z' }).collect();
    let img = EncodedImage { b64: payload.clone(), cols: 3, rows: 4 };
    let seqs = kitty_sequences(&img);
    assert_eq!(seqs.len(), 3);
    let mut joined = String::new();
    for (k, s) in seqs.iter().enumerate() {
        let start = s.find(';').unwrap() + 1;
        let end = s.len() - 2;
        joined.push_str(&s[start..end]);
        assert_eq!(s.contains("m=0;"), k == 2);
    }
    assert_eq!(joined, payload);
}

#[test]
fn iterm2_format() {
    let img = EncodedImage { b64: "QUJD".into(), cols: 12, rows: 6 };
    assert_eq!(iterm2_sequence(&img), "\x1b]1337;File=inline=1;width=12;height=6;preserveAspectRatio=1:QUJD\x07");
}

#[test]
fn emit_places_the_cursor_first() {
    let img = EncodedImage { b64: "QUJD".into(), cols: 12, rows: 6 };
    let s = emit(Protocol::Iterm2, &img, 4, 2, false);
    assert_eq!(s, "\x1b[3;5H\x1b]1337;File=inline=1;width=12;height=6;preserveAspectRatio=1:QUJD\x07");
    let s = emit(Protocol::Kitty, &img, 0, 0, true);
    assert_eq!(s, "\x1b[1;1H\x1bPtmux;\x1b\x1b_Ga=T,f=100,q=2,c=12,r=6,m=0;QUJD\x1b\x1b\\\x1b\\");
}

#[test]
fn kitty_clear_deletes_images() {
    assert_eq!(clear(Protocol::Kitty, false), "\x1b_Ga=d,d=A,q=2\x1b\\");
    assert_eq!(clear(Protocol::Iterm2, true), "");
}

fn env(term: &str, program: &str) -> TermEnv {
    TermEnv {
        kitty_window_id: false,
        ghostty_resources_dir: false,
        iterm_session_id: false,
        term: term.into(),
        term_program: program.into(),
    }
}

#[test]
fn detect_reads_the_terminal() {
    assert!(matches!(detect(&env("xterm-kitty", "")), Some(Protocol::Kitty)));
    assert!(matches!(detect(&env("xterm-256color", "WezTerm")), Some(Protocol::Kitty)));
    assert!(matches!(detect(&env("xterm-256color", "iTerm.app")), Some(Protocol::Iterm2)));
    assert!(detect(&env("xterm-256color", "Apple_Terminal")).is_none());
    let mut e = env("", "");
    e.ghostty_resources_dir = true;
    assert!(matches!(detect(&e), Some(Protocol::Kitty)));
}

#[test]
fn base64_shape() {
    for n in 0..10usize {
        let data: Vec<u8> = (0..n as u8).map(|b| b.wrapping_mul(37)).collect();
        let s = base64(&data);
        assert_eq!(s.len(), 4 * n.div_ceil(3));
        let pad = (3 - n % 3) % 3;
        assert!(s[..s.len() - pad].chars().all(|c| c.is_ascii_alphanumeric() || c == '+' || c == '/'));
        assert!(s[s.len() - pad..].chars().all(|c| c == '='));
    }
}
