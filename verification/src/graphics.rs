//! Terminal graphics protocols for pixel-perfect image previews: Kitty
//! graphics protocol (kitty, Ghostty, WezTerm) and iTerm2 inline images.
//! Sequences are wrapped in a tmux passthrough envelope inside tmux.

use vstd::prelude::*;

use crate::text::{append_chars, chars_eq, chars_of, decimal, decimal_chars, slice_of, string_of};

verus! {

#[derive(PartialEq, Eq, Structural, Clone, Copy)]
pub enum Protocol {
    Kitty,
    Iterm2,
}

/// What `detect` reads from the environment.
pub struct TermEnv {
    pub kitty_window_id: bool,
    pub ghostty_resources_dir: bool,
    pub iterm_session_id: bool,
    /// `$TERM`, empty when unset.
    pub term: String,
    /// `$TERM_PROGRAM`, empty when unset.
    pub term_program: String,
}

pub open spec fn has_infix(s: Seq<char>, t: Seq<char>) -> bool {
    exists|i: int| 0 <= i && i + t.len() <= s.len() && #[trigger] s.subrange(i, i + t.len()) == t
}

pub fn contains_text(s: &Vec<char>, t: &Vec<char>) -> (r: bool)
    ensures
        r == has_infix(s@, t@),
{
    if t.len() > s.len() {
        return false;
    }
    let mut i: usize = 0;
    while i <= s.len() - t.len()
        invariant
            t.len() <= s.len(),
            i <= s.len() - t.len() + 1,
            forall|k: int| 0 <= k < i ==> #[trigger] s@.subrange(k, k + t@.len()) != t@,
        decreases s.len() - i,
    {
        let mut j: usize = 0;
        while j < t.len() && s[i + j] == t[j]
            invariant
                j <= t.len(),
                i + t.len() <= s.len(),
                forall|m: int| 0 <= m < j ==> s@[i + m] == t@[m],
            decreases t.len() - j,
        {
            j += 1;
        }
        if j == t.len() {
            assert(s@.subrange(i as int, i + t@.len()) =~= t@);
            return true;
        }
        assert(s@.subrange(i as int, i + t@.len())[j as int] != t@[j as int]);
        i += 1;
    }
    proof {
        assert forall|k: int| 0 <= k && k + t@.len() <= s@.len() implies #[trigger] s@.subrange(k, k + t@.len()) != t@ by {
            assert(k < i);
        }
    }
    false
}

/// The protocol the terminal supports, judged from the environment.
pub open spec fn detected(env: TermEnv) -> Option<Protocol> {
    if env.kitty_window_id || env.ghostty_resources_dir || has_infix(env.term@, "kitty"@) || has_infix(
        env.term@,
        "ghostty"@,
    ) || env.term_program@ == "WezTerm"@ || env.term_program@ == "ghostty"@ {
        Some(Protocol::Kitty)
    } else if env.iterm_session_id || env.term_program@ == "iTerm.app"@ {
        Some(Protocol::Iterm2)
    } else {
        None
    }
}

/// Detection by the environment: any Kitty sign (a Kitty window id, a Ghostty
/// resources directory, a `$TERM` naming kitty or ghostty, or WezTerm or
/// Ghostty as `$TERM_PROGRAM`) gives Kitty; otherwise an iTerm2 session id or
/// iTerm.app as `$TERM_PROGRAM` gives iTerm2, whatever else `$TERM` and
/// `$TERM_PROGRAM` hold (both leak into tmux); with no sign at all there is no
/// protocol.
pub proof fn lemma_detection(env: TermEnv)
    ensures
        env.kitty_window_id ==> detected(env) == Some(Protocol::Kitty),
        env.ghostty_resources_dir ==> detected(env) == Some(Protocol::Kitty),
        has_infix(env.term@, "kitty"@) ==> detected(env) == Some(Protocol::Kitty),
        has_infix(env.term@, "ghostty"@) ==> detected(env) == Some(Protocol::Kitty),
        env.term_program@ == "WezTerm"@ ==> detected(env) == Some(Protocol::Kitty),
        env.term_program@ == "ghostty"@ ==> detected(env) == Some(Protocol::Kitty),
        ({
            let no_kitty_sign = !env.kitty_window_id && !env.ghostty_resources_dir && !has_infix(env.term@, "kitty"@)
                && !has_infix(env.term@, "ghostty"@) && env.term_program@ != "WezTerm"@ && env.term_program@ != "ghostty"@;
            &&& no_kitty_sign && env.iterm_session_id ==> detected(env) == Some(Protocol::Iterm2)
            &&& no_kitty_sign && env.term_program@ == "iTerm.app"@ ==> detected(env) == Some(Protocol::Iterm2)
            &&& no_kitty_sign && !env.iterm_session_id && env.term_program@ != "iTerm.app"@ ==> detected(env) is None
        }),
{
}

/// Detect a supported graphics protocol from the environment.
pub fn detect(env: &TermEnv) -> (r: Option<Protocol>)
    ensures
        r == detected(*env),
{
    let term = chars_of(env.term.as_str());
    let program = chars_of(env.term_program.as_str());
    let kitty = chars_of("kitty");
    let ghostty = chars_of("ghostty");
    let wezterm = chars_of("WezTerm");
    let iterm = chars_of("iTerm.app");
    if env.kitty_window_id || env.ghostty_resources_dir || contains_text(&term, &kitty)
        || contains_text(&term, &ghostty) || chars_eq(&program, &wezterm) || chars_eq(
        &program,
        &ghostty,
    ) {
        Some(Protocol::Kitty)
    } else if env.iterm_session_id || chars_eq(&program, &iterm) {
        Some(Protocol::Iterm2)
    } else {
        None
    }
}

/// A base64-encoded PNG plus the cell box it should occupy on screen.
pub struct EncodedImage {
    pub b64: String,
    pub cols: u16,
    pub rows: u16,
}

// ------------------------------------------------------------------ base64

pub open spec fn b64_alphabet() -> Seq<char> {
    "ABCDEFGHIJKLMNOPQRSTUVWXYZabcdefghijklmnopqrstuvwxyz0123456789+/"@
}

/// The four characters for a chunk of `n` (1 to 3) bytes `a b c` (missing
/// bytes are 0); with `pad`, the characters of missing bytes become `=`,
/// without, they are left out.
pub open spec fn b64_group(a: u8, b: u8, c: u8, n: nat, pad: bool) -> Seq<char> {
    let v = a as nat * 65536 + b as nat * 256 + c as nat;
    let third = if n > 1 {
        seq![b64_alphabet()[((v / 64) % 64) as int]]
    } else if pad {
        seq!['=']
    } else {
        Seq::empty()
    };
    let fourth = if n > 2 {
        seq![b64_alphabet()[(v % 64) as int]]
    } else if pad {
        seq!['=']
    } else {
        Seq::empty()
    };
    seq![b64_alphabet()[(v / 262144) as int], b64_alphabet()[((v / 4096) % 64) as int]] + third + fourth
}

pub open spec fn byte_or_zero(d: Seq<u8>, i: int) -> u8 {
    if 0 <= i < d.len() {
        d[i]
    } else {
        0
    }
}

/// Base64 of the bytes, in chunks of three; `pad` decides whether the last
/// chunk is padded with `=`.
pub open spec fn base64_text(d: Seq<u8>, pad: bool) -> Seq<char>
    decreases d.len(),
{
    if d.len() == 0 {
        Seq::empty()
    } else {
        let n: nat = if d.len() >= 3 { 3 } else { d.len() };
        b64_group(d[0], byte_or_zero(d, 1), byte_or_zero(d, 2), n, pad) + base64_text(
            d.skip(n as int),
            pad,
        )
    }
}

/// Standard base64, with padding (`pad`) or without.
pub fn encode_base64(data: &[u8], pad: bool) -> (r: String)
    ensures
        r@ == base64_text(data@, pad),
{
    proof {
        reveal_strlit("ABCDEFGHIJKLMNOPQRSTUVWXYZabcdefghijklmnopqrstuvwxyz0123456789+/");
    }
    let alphabet = chars_of("ABCDEFGHIJKLMNOPQRSTUVWXYZabcdefghijklmnopqrstuvwxyz0123456789+/");
    assert(alphabet@.len() == 64);
    let mut out: Vec<char> = Vec::new();
    let mut i: usize = 0;
    assert(data@.skip(0) =~= data@);
    while i < data.len()
        invariant
            i <= data@.len(),
            alphabet@ == b64_alphabet(),
            alphabet@.len() == 64,
            base64_text(data@, pad) == out@ + base64_text(data@.skip(i as int), pad),
        decreases data@.len() - i,
    {
        let rest = data.len() - i;
        let n: usize = if rest >= 3 {
            3
        } else {
            rest
        };
        let a = data[i];
        let b: u8 = if n > 1 {
            data[i + 1]
        } else {
            0
        };
        let c: u8 = if n > 2 {
            data[i + 2]
        } else {
            0
        };
        let ghost d = data@.skip(i as int);
        assert(d[0] == a);
        assert(byte_or_zero(d, 1) == b);
        assert(byte_or_zero(d, 2) == c);
        let v: u32 = a as u32 * 65536 + b as u32 * 256 + c as u32;
        let ghost before = out@;
        out.push(alphabet[(v / 262144) as usize]);
        out.push(alphabet[((v / 4096) % 64) as usize]);
        if n > 1 {
            out.push(alphabet[((v / 64) % 64) as usize]);
        } else if pad {
            out.push('=');
        }
        if n > 2 {
            out.push(alphabet[(v % 64) as usize]);
        } else if pad {
            out.push('=');
        }
        assert(out@ =~= before + b64_group(a, b, c, n as nat, pad));
        assert(d.skip(n as int) =~= data@.skip(i + n));
        assert(base64_text(d, pad) == b64_group(a, b, c, n as nat, pad) + base64_text(d.skip(n as int), pad));
        i += n;
    }
    assert(data@.skip(i as int) =~= Seq::<u8>::empty());
    assert(out@ =~= out@ + base64_text(Seq::<u8>::empty(), pad));
    string_of(&out)
}

/// Standard base64 with padding.
pub fn base64(data: &[u8]) -> (r: String)
    ensures
        r@ == base64_text(data@, true),
{
    encode_base64(data, true)
}

/// The `=` that padding adds to base64 of `n` bytes.
pub open spec fn b64_padding(n: nat) -> Seq<char> {
    if n % 3 == 1 {
        seq!['=', '=']
    } else if n % 3 == 2 {
        seq!['=']
    } else {
        Seq::empty()
    }
}

/// Padded base64 is the unpadded text followed by one `=` per missing byte
/// of the last chunk.
pub proof fn lemma_base64_padding(d: Seq<u8>)
    ensures
        base64_text(d, true) == base64_text(d, false) + b64_padding(d.len()),
    decreases d.len(),
{
    if d.len() > 0 {
        let n: nat = if d.len() >= 3 { 3 } else { d.len() };
        lemma_base64_padding(d.skip(n as int));
        let (a, b, c) = (d[0], byte_or_zero(d, 1), byte_or_zero(d, 2));
        if d.len() >= 3 {
            assert(b64_padding(d.skip(3).len()) == b64_padding(d.len()));
            assert(b64_group(a, b, c, 3, true) == b64_group(a, b, c, 3, false));
            assert(base64_text(d, true) =~= base64_text(d, false) + b64_padding(d.len()));
        } else {
            assert(d.skip(n as int) =~= Seq::<u8>::empty());
            assert(base64_text(d, true) =~= base64_text(d, false) + b64_padding(d.len()));
        }
    } else {
        assert(base64_text(d, true) =~= base64_text(d, false) + b64_padding(d.len()));
    }
}

/// The number a base64 character stands for (`=` and others: 0).
pub open spec fn b64_value(c: char) -> nat {
    let u = c as u32;
    if 65 <= u <= 90 {
        (u - 65) as nat
    } else if 97 <= u <= 122 {
        (u - 71) as nat
    } else if 48 <= u <= 57 {
        (u + 4) as nat
    } else if u == 43 {
        62
    } else if u == 47 {
        63
    } else {
        0
    }
}

/// Standard (RFC 4648) decoding of padded base64, four characters at a
/// time: `=` in the third or fourth place shortens the group to one or two
/// bytes.
pub open spec fn b64_decode(s: Seq<char>) -> Seq<u8>
    decreases s.len(),
{
    if s.len() < 4 {
        Seq::empty()
    } else {
        let v = b64_value(s[0]) * 262144 + b64_value(s[1]) * 4096 + b64_value(s[2]) * 64 + b64_value(s[3]);
        let n: int = if s[2] == '=' {
            1
        } else if s[3] == '=' {
            2
        } else {
            3
        };
        seq![(v / 65536) as u8, ((v / 256) % 256) as u8, (v % 256) as u8].take(n) + b64_decode(s.skip(4))
    }
}

proof fn lemma_alphabet()
    ensures
        b64_alphabet().len() == 64,
        forall|k: int| 0 <= k < 64 ==> b64_value(#[trigger] b64_alphabet()[k]) == k,
        forall|k: int| 0 <= k < 64 ==> #[trigger] b64_alphabet()[k] != '=',
{
    reveal_strlit("ABCDEFGHIJKLMNOPQRSTUVWXYZabcdefghijklmnopqrstuvwxyz0123456789+/");
    assert forall|k: int| 0 <= k < 64 implies b64_value(#[trigger] b64_alphabet()[k]) == k && b64_alphabet()[k] != '=' by {
        let a = b64_alphabet();
        if k < 26 {
            assert(a[k] as u32 == 65 + k);
        } else if k < 52 {
            assert(a[k] as u32 == 71 + k);
        } else if k < 62 {
            assert(a[k] as u32 == k - 4);
        }
    }
}

proof fn lemma_group_arith(a: u8, b: u8, c: u8)
    ensures
        ({
            let v = a as nat * 65536 + b as nat * 256 + c as nat;
            &&& v / 262144 < 64
            &&& (v / 262144) * 262144 + ((v / 4096) % 64) * 4096 + ((v / 64) % 64) * 64 + v % 64 == v
            &&& v / 65536 == a
            &&& (v / 256) % 256 == b
            &&& v % 256 == c
            &&& c == 0 ==> v % 64 == 0
            &&& b == 0 && c == 0 ==> (v / 64) % 64 == 0
        }),
{
    let v = a as nat * 65536 + b as nat * 256 + c as nat;
    assert(v / 65536 == a && (v / 256) % 256 == b && v % 256 == c) by (nonlinear_arith)
        requires
            v == a as nat * 65536 + b as nat * 256 + c as nat,
            a < 256,
            b < 256,
            c < 256,
    ;
    assert((v / 262144) * 262144 + ((v / 4096) % 64) * 4096 + ((v / 64) % 64) * 64 + v % 64 == v) by (nonlinear_arith)
        requires
            v < 16777216,
    ;
    assert(c == 0 ==> v % 64 == 0) by (nonlinear_arith)
        requires
            v == a as nat * 65536 + b as nat * 256 + c as nat,
    ;
    assert(b == 0 && c == 0 ==> (v / 64) % 64 == 0) by (nonlinear_arith)
        requires
            v == a as nat * 65536 + b as nat * 256 + c as nat,
    ;
}

/// Base64 text is four characters per started group of three bytes; the
/// unpadded part uses only the 64-letter alphabet, and the padding that
/// follows is only `=`, which the alphabet does not hold.
pub proof fn lemma_base64_shape(d: Seq<u8>)
    ensures
        base64_text(d, true).len() == 4 * ((d.len() + 2) / 3),
        base64_text(d, true) == base64_text(d, false) + b64_padding(d.len()),
        forall|i: int| 0 <= i < base64_text(d, false).len() ==> b64_alphabet().contains(#[trigger] base64_text(d, false)[i]),
        forall|i: int| 0 <= i < b64_padding(d.len()).len() ==> #[trigger] b64_padding(d.len())[i] == '=',
        !b64_alphabet().contains('='),
    decreases d.len(),
{
    lemma_alphabet();
    lemma_base64_padding(d);
    if d.len() > 0 {
        let n: nat = if d.len() >= 3 { 3 } else { d.len() };
        lemma_base64_shape(d.skip(n as int));
        let (a, b, c) = (d[0], byte_or_zero(d, 1), byte_or_zero(d, 2));
        lemma_group_arith(a, b, c);
        let g = b64_group(a, b, c, n, false);
        let rest = base64_text(d.skip(n as int), false);
        assert(base64_text(d, false) == g + rest);
        let v = a as nat * 65536 + b as nat * 256 + c as nat;
        assert forall|i: int| 0 <= i < g.len() implies b64_alphabet().contains(#[trigger] g[i]) by {
            if i == 0 {
                assert(g[0] == b64_alphabet()[(v / 262144) as int]);
            } else if i == 1 {
                assert(g[1] == b64_alphabet()[((v / 4096) % 64) as int]);
            } else if i == 2 {
                assert(g[2] == b64_alphabet()[((v / 64) % 64) as int]);
            } else {
                assert(g[3] == b64_alphabet()[(v % 64) as int]);
            }
        }
        assert forall|i: int| 0 <= i < base64_text(d, false).len() implies b64_alphabet().contains(
            #[trigger] base64_text(d, false)[i],
        ) by {
            if i < g.len() {
                assert(base64_text(d, false)[i] == g[i]);
            } else {
                assert(base64_text(d, false)[i] == rest[i - g.len()]);
            }
        }
        assert(base64_text(d, true).len() == 4 + base64_text(d.skip(n as int), true).len());
    }
    assert(!b64_alphabet().contains('=')) by {
        if b64_alphabet().contains('=') {
            let k = choose|k: int| 0 <= k < b64_alphabet().len() && b64_alphabet()[k] == '=';
        }
    }
}

/// Decoding base64 text gives the bytes back.
pub proof fn lemma_base64_decodes(d: Seq<u8>)
    ensures
        b64_decode(base64_text(d, true)) == d,
    decreases d.len(),
{
    lemma_alphabet();
    if d.len() > 0 {
        let n: nat = if d.len() >= 3 { 3 } else { d.len() };
        lemma_base64_decodes(d.skip(n as int));
        let (a, b, c) = (d[0], byte_or_zero(d, 1), byte_or_zero(d, 2));
        lemma_group_arith(a, b, c);
        let g = b64_group(a, b, c, n, true);
        let rest = base64_text(d.skip(n as int), true);
        let s = g + rest;
        assert(base64_text(d, true) == s);
        assert(s.skip(4) =~= rest);
        assert(s[0] == g[0] && s[1] == g[1] && s[2] == g[2] && s[3] == g[3]);
        let v = a as nat * 65536 + b as nat * 256 + c as nat;
        let w = b64_value(s[0]) * 262144 + b64_value(s[1]) * 4096 + b64_value(s[2]) * 64 + b64_value(s[3]);
        assert(b64_value(s[0]) == v / 262144);
        assert(b64_value(s[1]) == (v / 4096) % 64);
        if n == 3 {
            assert(b64_value(s[2]) == (v / 64) % 64);
            assert(b64_value(s[3]) == v % 64);
        } else if n == 2 {
            assert(c == 0);
            assert(b64_value(s[2]) == (v / 64) % 64);
            assert(b64_value(s[3]) == 0);
        } else {
            assert(b == 0 && c == 0);
            assert(b64_value(s[2]) == 0);
            assert(b64_value(s[3]) == 0);
        }
        assert(w == v);
        let bytes = seq![(w / 65536) as u8, ((w / 256) % 256) as u8, (w % 256) as u8];
        assert(bytes.take(n as int) =~= d.take(n as int));
        assert(d =~= d.take(n as int) + d.skip(n as int));
    }
}

// ------------------------------------------------------------------ tmux

/// Every ESC doubled.
pub open spec fn escapes_doubled(s: Seq<char>) -> Seq<char>
    decreases s.len(),
{
    if s.len() == 0 {
        Seq::empty()
    } else if s.last() == '\x1b' {
        escapes_doubled(s.drop_last()) + seq!['\x1b', '\x1b']
    } else {
        escapes_doubled(s.drop_last()).push(s.last())
    }
}

/// tmux passthrough envelope: DCS-wrapped with every ESC doubled.
pub open spec fn tmux_wrapped(seq: Seq<char>, tmux: bool) -> Seq<char> {
    if !tmux {
        seq
    } else {
        "\x1bPtmux;"@ + escapes_doubled(seq) + "\x1b\\"@
    }
}

pub fn wrap_tmux(seq: &str, tmux: bool) -> (r: String)
    ensures
        r@ == tmux_wrapped(seq@, tmux),
{
    if !tmux {
        return seq.to_owned();
    }
    let s = chars_of(seq);
    let mut out = chars_of("\x1bPtmux;");
    let ghost head = out@;
    let mut i: usize = 0;
    while i < s.len()
        invariant
            i <= s.len(),
            out@ == head + escapes_doubled(s@.subrange(0, i as int)),
        decreases s.len() - i,
    {
        assert(s@.subrange(0, i + 1).drop_last() =~= s@.subrange(0, i as int));
        if s[i] == '\x1b' {
            out.push('\x1b');
            out.push('\x1b');
        } else {
            out.push(s[i]);
        }
        i += 1;
        assert(out@ =~= head + escapes_doubled(s@.subrange(0, i as int)));
    }
    assert(s@.subrange(0, s.len() as int) =~= s@);
    let tail = chars_of("\x1b\\");
    append_chars(&mut out, &tail);
    string_of(&out)
}

// ------------------------------------------------------------------ kitty

pub open spec fn is_ascii_text(s: Seq<char>) -> bool {
    forall|i: int| 0 <= i < s.len() ==> (#[trigger] s[i] as u32) < 128
}

pub open spec fn kitty_chunk_count(len: nat) -> nat {
    (len + 4095) / 4096
}

/// The `k`-th 4096-character piece of the payload.
pub open spec fn kitty_chunk(b: Seq<char>, k: nat) -> Seq<char> {
    let start = 4096 * k;
    let end: int = if start + 4096 < b.len() { (start + 4096) as int } else { b.len() as int };
    b.subrange(start as int, end)
}

pub open spec fn kitty_more(len: nat, k: nat) -> Seq<char> {
    if 4096 * k + 4096 < len {
        seq!['1']
    } else {
        seq!['0']
    }
}

/// Kitty payloads are chunked at 4096 bytes; control keys go on the first
/// chunk only. `q=2` suppresses replies, which would corrupt tmux's input.
pub open spec fn kitty_sequence(b: Seq<char>, cols: u16, rows: u16, k: nat) -> Seq<char> {
    if k == 0 {
        "\x1b_Ga=T,f=100,q=2,c="@ + decimal(cols as nat) + ",r="@ + decimal(rows as nat) + ",m="@
            + kitty_more(b.len(), k) + ";"@ + kitty_chunk(b, k) + "\x1b\\"@
    } else {
        "\x1b_Gm="@ + kitty_more(b.len(), k) + ";"@ + kitty_chunk(b, k) + "\x1b\\"@
    }
}

/// The payload pieces of the first `n` chunks, in order.
pub open spec fn kitty_joined(b: Seq<char>, n: nat) -> Seq<char>
    decreases n,
{
    if n == 0 {
        Seq::empty()
    } else {
        kitty_joined(b, (n - 1) as nat) + kitty_chunk(b, (n - 1) as nat)
    }
}

proof fn lemma_kitty_prefix(b: Seq<char>, n: nat)
    requires
        n <= kitty_chunk_count(b.len()),
    ensures
        kitty_joined(b, n) == b.subrange(0, if 4096 * n < b.len() { (4096 * n) as int } else { b.len() as int }),
    decreases n,
{
    if n > 0 {
        lemma_kitty_prefix(b, (n - 1) as nat);
        let len = b.len();
        assert(4096 * (n - 1) < len) by (nonlinear_arith)
            requires
                n >= 1,
                n <= (len + 4095) / 4096,
        ;
        assert(4096 * n == 4096 * (n - 1) + 4096) by (nonlinear_arith);
        let prev = kitty_joined(b, (n - 1) as nat);
        assert(kitty_joined(b, n) =~= b.subrange(0, if 4096 * n < b.len() { (4096 * n) as int } else { b.len() as int }));
    }
}

/// Kitty chunks lose nothing: their payload pieces, in order, are the whole
/// payload, and only the last chunk says no more follow (`m=0`).
pub proof fn lemma_kitty_chunks_rejoin(b: Seq<char>)
    ensures
        kitty_joined(b, kitty_chunk_count(b.len())) == b,
        forall|k: nat| k < kitty_chunk_count(b.len()) ==> (#[trigger] kitty_more(b.len(), k) == seq!['0'] <==> k + 1
            == kitty_chunk_count(b.len())),
{
    let n = kitty_chunk_count(b.len());
    let len = b.len();
    lemma_kitty_prefix(b, n);
    assert(4096 * n >= len) by (nonlinear_arith)
        requires
            n == (len + 4095) / 4096,
    ;
    assert(b.subrange(0, len as int) =~= b);
    assert forall|k: nat| k < n implies (#[trigger] kitty_more(len, k) == seq!['0'] <==> k + 1 == n) by {
        assert(4096 * k + 4096 < len <==> k + 1 < n) by (nonlinear_arith)
            requires
                n == (len + 4095) / 4096,
                k < n,
        ;
        assert(seq!['1'] != seq!['0']) by {
            assert(seq!['1'][0] != seq!['0'][0]);
        }
    }
}

pub fn kitty_sequences(img: &EncodedImage) -> (r: Vec<String>)
    requires
        is_ascii_text(img.b64@),
    ensures
        r@.len() == kitty_chunk_count(img.b64@.len()),
        forall|k: int| 0 <= k < r@.len() ==> (#[trigger] r@[k])@ == kitty_sequence(img.b64@, img.cols, img.rows, k as nat),
{
    let data = chars_of(img.b64.as_str());
    let len = data.len();
    let mut sequences: Vec<String> = Vec::new();
    let mut start: usize = 0;
    let mut k: usize = 0;
    while start < len
        invariant
            data@ == img.b64@,
            len == data@.len(),
            start <= len,
            start < len ==> start == 4096 * k,
            start < len ==> k < kitty_chunk_count(len as nat),
            start == len ==> k == kitty_chunk_count(len as nat),
            sequences@.len() == k,
            forall|m: int| 0 <= m < k ==> (#[trigger] sequences@[m])@ == kitty_sequence(img.b64@, img.cols, img.rows, m as nat),
        decreases len - start,
    {
        let end = if len - start > 4096 {
            start + 4096
        } else {
            len
        };
        let chunk = slice_of(&data, start, end);
        let more: char = if end < len {
            '1'
        } else {
            '0'
        };
        let mut out: Vec<char>;
        if start == 0 {
            out = chars_of("\x1b_Ga=T,f=100,q=2,c=");
            let c = decimal_chars(img.cols as u128);
            append_chars(&mut out, &c);
            let r1 = chars_of(",r=");
            append_chars(&mut out, &r1);
            let r = decimal_chars(img.rows as u128);
            append_chars(&mut out, &r);
            let m1 = chars_of(",m=");
            append_chars(&mut out, &m1);
        } else {
            out = chars_of("\x1b_Gm=");
        }
        out.push(more);
        let semi = chars_of(";");
        append_chars(&mut out, &semi);
        append_chars(&mut out, &chunk);
        let tail = chars_of("\x1b\\");
        append_chars(&mut out, &tail);
        assert(seq![more] == kitty_more(len as nat, k as nat));
        assert(chunk@ == kitty_chunk(img.b64@, k as nat));
        assert(out@ =~= kitty_sequence(img.b64@, img.cols, img.rows, k as nat));
        sequences.push(string_of(&out));
        start = end;
        k += 1;
    }
    sequences
}

pub open spec fn iterm2_text(b: Seq<char>, cols: u16, rows: u16) -> Seq<char> {
    "\x1b]1337;File=inline=1;width="@ + decimal(cols as nat) + ";height="@ + decimal(rows as nat)
        + ";preserveAspectRatio=1:"@ + b + "\x07"@
}

pub fn iterm2_sequence(img: &EncodedImage) -> (r: String)
    ensures
        r@ == iterm2_text(img.b64@, img.cols, img.rows),
{
    let mut out = chars_of("\x1b]1337;File=inline=1;width=");
    let c = decimal_chars(img.cols as u128);
    append_chars(&mut out, &c);
    let h = chars_of(";height=");
    append_chars(&mut out, &h);
    let r = decimal_chars(img.rows as u128);
    append_chars(&mut out, &r);
    let p = chars_of(";preserveAspectRatio=1:");
    append_chars(&mut out, &p);
    let b = chars_of(img.b64.as_str());
    append_chars(&mut out, &b);
    let bell = chars_of("\x07");
    append_chars(&mut out, &bell);
    assert(out@ =~= iterm2_text(img.b64@, img.cols, img.rows));
    string_of(&out)
}

pub open spec fn concat_wrapped(seqs: Seq<Seq<char>>, tmux: bool) -> Seq<char>
    decreases seqs.len(),
{
    if seqs.len() == 0 {
        Seq::empty()
    } else {
        concat_wrapped(seqs.drop_last(), tmux) + tmux_wrapped(seqs.last(), tmux)
    }
}

/// The cursor move to cell (x, y), 0-based.
pub open spec fn cursor_to(x: u16, y: u16) -> Seq<char> {
    "\x1b["@ + decimal(y as nat + 1) + ";"@ + decimal(x as nat + 1) + "H"@
}

/// What `emit` writes: the cursor move, then the image sequences, each
/// wrapped for tmux when `tmux`.
pub open spec fn emitted(protocol: Protocol, b: Seq<char>, cols: u16, rows: u16, x: u16, y: u16, tmux: bool) -> Seq<char> {
    cursor_to(x, y) + match protocol {
        Protocol::Kitty => concat_wrapped(
            Seq::new(kitty_chunk_count(b.len()), |k: int| kitty_sequence(b, cols, rows, k as nat)),
            tmux,
        ),
        Protocol::Iterm2 => tmux_wrapped(iterm2_text(b, cols, rows), tmux),
    }
}

/// The bytes that draw the image with its top-left corner at cell (x, y), 0-based.
pub fn emit(protocol: Protocol, img: &EncodedImage, x: u16, y: u16, tmux: bool) -> (r: String)
    requires
        x < 65535,
        y < 65535,
        is_ascii_text(img.b64@),
    ensures
        r@ == emitted(protocol, img.b64@, img.cols, img.rows, x, y, tmux),
{
    let mut out = chars_of("\x1b[");
    let yy = decimal_chars((y + 1) as u128);
    append_chars(&mut out, &yy);
    let semi = chars_of(";");
    append_chars(&mut out, &semi);
    let xx = decimal_chars((x + 1) as u128);
    append_chars(&mut out, &xx);
    let h = chars_of("H");
    append_chars(&mut out, &h);
    assert(out@ =~= cursor_to(x, y));
    match protocol {
        Protocol::Kitty => {
            let seqs = kitty_sequences(img);
            let ghost all = Seq::new(
                kitty_chunk_count(img.b64@.len()),
                |k: int| kitty_sequence(img.b64@, img.cols, img.rows, k as nat),
            );
            let ghost head = out@;
            let mut i: usize = 0;
            while i < seqs.len()
                invariant
                    i <= seqs@.len(),
                    seqs@.len() == all.len(),
                    forall|k: int| 0 <= k < seqs@.len() ==> (#[trigger] seqs@[k])@ == all[k],
                    out@ == head + concat_wrapped(all.subrange(0, i as int), tmux),
                decreases seqs@.len() - i,
            {
                let w = wrap_tmux(seqs[i].as_str(), tmux);
                let wc = chars_of(w.as_str());
                append_chars(&mut out, &wc);
                assert(all.subrange(0, i + 1).drop_last() =~= all.subrange(0, i as int));
                i += 1;
                assert(out@ =~= head + concat_wrapped(all.subrange(0, i as int), tmux));
            }
            assert(all.subrange(0, all.len() as int) =~= all);
        },
        Protocol::Iterm2 => {
            let s = iterm2_sequence(img);
            let w = wrap_tmux(s.as_str(), tmux);
            let wc = chars_of(w.as_str());
            append_chars(&mut out, &wc);
        },
    }
    string_of(&out)
}

pub open spec fn cleared(protocol: Protocol, tmux: bool) -> Seq<char> {
    if protocol == Protocol::Kitty {
        tmux_wrapped("\x1b_Ga=d,d=A,q=2\x1b\\"@, tmux)
    } else {
        Seq::empty()
    }
}

/// The bytes that remove previously drawn images: Kitty keeps them on a
/// separate layer; iTerm2 images live in cells and are overwritten by normal
/// redraws, so nothing is written for it.
pub fn clear(protocol: Protocol, tmux: bool) -> (r: String)
    ensures
        r@ == cleared(protocol, tmux),
{
    if protocol == Protocol::Kitty {
        wrap_tmux("\x1b_Ga=d,d=A,q=2\x1b\\", tmux)
    } else {
        String::new()
    }
}

} // verus!
