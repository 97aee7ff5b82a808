//! Comment stripping.
//!
//! The configuration text is JSON with comments: `//` line comments and
//! `/* ... */` block comments. Stripping removes both, while leaving the
//! contents of JSON string literals untouched, so that a string value that
//! happens to contain `//` or `/*` survives unchanged. The scanner is an
//! explicit state machine over bytes; every byte of a multi-byte UTF-8
//! character is at least 0x80, so the machine never mistakes one for a
//! delimiter.
use vstd::prelude::*;

verus! {

/// `/`
pub const BYTE_SLASH: u8 = 47;

/// `*`
pub const BYTE_STAR: u8 = 42;

/// `"`
pub const BYTE_QUOTE: u8 = 34;

/// `\`
pub const BYTE_BACKSLASH: u8 = 92;

/// Line feed.
pub const BYTE_NEWLINE: u8 = 10;

/// The scanner's state: outside any special region, inside a string literal,
/// right after a backslash inside a string literal, inside a line comment, or
/// inside a block comment.
#[derive(Clone, Copy)]
pub enum ScanState {
    Normal,
    InString,
    Escaped,
    LineComment,
    BlockComment,
}

/// The text that the scanner emits from position `i` onward, starting in
/// state `st`. Comment delimiters and comment bodies are dropped; the newline
/// that ends a line comment is kept; everything else is kept. Stripping is
/// total: a comment still open when the text ends is dropped to the end, so
/// no input is ever refused.
pub open spec fn strip_from(s: Seq<u8>, i: int, st: ScanState) -> Seq<u8>
    decreases s.len() - i,
{
    if i < 0 || i >= s.len() {
        Seq::empty()
    } else {
        match st {
            ScanState::Normal => {
                if s[i] == BYTE_SLASH && i + 1 < s.len() && s[i + 1] == BYTE_SLASH {
                    strip_from(s, i + 2, ScanState::LineComment)
                } else if s[i] == BYTE_SLASH && i + 1 < s.len() && s[i + 1] == BYTE_STAR {
                    strip_from(s, i + 2, ScanState::BlockComment)
                } else if s[i] == BYTE_QUOTE {
                    seq![s[i]] + strip_from(s, i + 1, ScanState::InString)
                } else {
                    seq![s[i]] + strip_from(s, i + 1, ScanState::Normal)
                }
            },
            ScanState::InString => {
                if s[i] == BYTE_BACKSLASH {
                    seq![s[i]] + strip_from(s, i + 1, ScanState::Escaped)
                } else if s[i] == BYTE_QUOTE {
                    seq![s[i]] + strip_from(s, i + 1, ScanState::Normal)
                } else {
                    seq![s[i]] + strip_from(s, i + 1, ScanState::InString)
                }
            },
            ScanState::Escaped => seq![s[i]] + strip_from(s, i + 1, ScanState::InString),
            ScanState::LineComment => {
                if s[i] == BYTE_NEWLINE {
                    seq![s[i]] + strip_from(s, i + 1, ScanState::Normal)
                } else {
                    strip_from(s, i + 1, ScanState::LineComment)
                }
            },
            ScanState::BlockComment => {
                if s[i] == BYTE_STAR && i + 1 < s.len() && s[i + 1] == BYTE_SLASH {
                    strip_from(s, i + 2, ScanState::Normal)
                } else {
                    strip_from(s, i + 1, ScanState::BlockComment)
                }
            },
        }
    }
}

/// The comment-stripped form of a whole text.
pub open spec fn spec_strip(s: Seq<u8>) -> Seq<u8> {
    strip_from(s, 0, ScanState::Normal)
}

/// Removes line comments and block comments from `text`, leaving string
/// literal contents intact. Total: never fails, whatever the bytes are.
pub fn strip_comments(text: &Vec<u8>) -> (r: Vec<u8>)
    ensures
        r@ == spec_strip(text@),
{
    let mut out: Vec<u8> = Vec::new();
    let mut i: usize = 0;
    let mut st = ScanState::Normal;
    while i < text.len()
        invariant
            i <= text@.len(),
            spec_strip(text@) == out@ + strip_from(text@, i as int, st),
        decreases text@.len() - i,
    {
        let c = text[i];
        match st {
            ScanState::Normal => {
                if c == BYTE_SLASH && i + 1 < text.len() && text[i + 1] == BYTE_SLASH {
                    i = i + 2;
                    st = ScanState::LineComment;
                } else if c == BYTE_SLASH && i + 1 < text.len() && text[i + 1] == BYTE_STAR {
                    i = i + 2;
                    st = ScanState::BlockComment;
                } else if c == BYTE_QUOTE {
                    out.push(c);
                    i = i + 1;
                    st = ScanState::InString;
                } else {
                    out.push(c);
                    i = i + 1;
                }
            },
            ScanState::InString => {
                if c == BYTE_BACKSLASH {
                    out.push(c);
                    i = i + 1;
                    st = ScanState::Escaped;
                } else if c == BYTE_QUOTE {
                    out.push(c);
                    i = i + 1;
                    st = ScanState::Normal;
                } else {
                    out.push(c);
                    i = i + 1;
                }
            },
            ScanState::Escaped => {
                out.push(c);
                i = i + 1;
                st = ScanState::InString;
            },
            ScanState::LineComment => {
                if c == BYTE_NEWLINE {
                    out.push(c);
                    i = i + 1;
                    st = ScanState::Normal;
                } else {
                    i = i + 1;
                }
            },
            ScanState::BlockComment => {
                if c == BYTE_STAR && i + 1 < text.len() && text[i + 1] == BYTE_SLASH {
                    i = i + 2;
                    st = ScanState::Normal;
                } else {
                    i = i + 1;
                }
            },
        }
        proof {
            assert(spec_strip(text@) =~= out@ + strip_from(text@, i as int, st));
        }
    }
    proof {
        assert(out@ =~= out@ + strip_from(text@, i as int, st));
    }
    out
}

/// The state in which stripped output is rescanned: text emitted while a
/// comment was being skipped continues in `Normal`; otherwise the state
/// carries over.
pub open spec fn restrip_state(st: ScanState) -> ScanState {
    match st {
        ScanState::LineComment => ScanState::Normal,
        ScanState::BlockComment => ScanState::Normal,
        _ => st,
    }
}

/// The scanner only ever looks at positions at or after its cursor, so a
/// prefix in front of the text shifts the cursor and changes nothing else.
proof fn lemma_strip_shift(prefix: Seq<u8>, t: Seq<u8>, j: int, st: ScanState)
    requires
        0 <= j,
    ensures
        strip_from(prefix + t, prefix.len() + j, st) == strip_from(t, j, st),
    decreases t.len() - j,
{
    let u = prefix + t;
    if j >= t.len() {
    } else {
        assert(u[prefix.len() + j] == t[j]);
        if j + 1 < t.len() {
            assert(u[prefix.len() + j + 1] == t[j + 1]);
        }
        lemma_strip_shift(prefix, t, j + 1, st);
        lemma_strip_shift(prefix, t, j + 1, ScanState::Normal);
        lemma_strip_shift(prefix, t, j + 1, ScanState::InString);
        lemma_strip_shift(prefix, t, j + 1, ScanState::Escaped);
        lemma_strip_shift(prefix, t, j + 1, ScanState::LineComment);
        lemma_strip_shift(prefix, t, j + 1, ScanState::BlockComment);
        if j + 2 <= t.len() {
            lemma_strip_shift(prefix, t, j + 2, ScanState::Normal);
            lemma_strip_shift(prefix, t, j + 2, ScanState::LineComment);
            lemma_strip_shift(prefix, t, j + 2, ScanState::BlockComment);
        }
    }
}

/// Rescanning stripped output reproduces it: the scanner leaves no comment
/// opener outside a string literal, so a second pass has nothing to remove.
proof fn lemma_restrip(s: Seq<u8>, i: int, st: ScanState)
    ensures
        strip_from(strip_from(s, i, st), 0, restrip_state(st)) == strip_from(s, i, st),
    decreases s.len() - i,
{
    if i < 0 || i >= s.len() {
    } else {
        let out = strip_from(s, i, st);
        match st {
            ScanState::Normal => {
                if s[i] == BYTE_SLASH && i + 1 < s.len() && s[i + 1] == BYTE_SLASH {
                    lemma_restrip(s, i + 2, ScanState::LineComment);
                } else if s[i] == BYTE_SLASH && i + 1 < s.len() && s[i + 1] == BYTE_STAR {
                    lemma_restrip(s, i + 2, ScanState::BlockComment);
                } else if s[i] == BYTE_QUOTE {
                    let rest = strip_from(s, i + 1, ScanState::InString);
                    lemma_restrip(s, i + 1, ScanState::InString);
                    lemma_strip_shift(seq![s[i]], rest, 0, ScanState::InString);
                    assert(strip_from(out, 0, ScanState::Normal) =~= out);
                } else if s[i] == BYTE_SLASH {
                    // Emitted slash: the byte after it in the output, if any,
                    // is the next input byte, which opens no comment.
                    let rest = strip_from(s, i + 1, ScanState::Normal);
                    lemma_restrip(s, i + 1, ScanState::Normal);
                    lemma_strip_shift(seq![s[i]], rest, 0, ScanState::Normal);
                    if i + 1 < s.len() {
                        assert(rest.len() == 0 || rest[0] == s[i + 1]);
                    }
                    assert(strip_from(out, 0, ScanState::Normal) =~= out);
                } else {
                    let rest = strip_from(s, i + 1, ScanState::Normal);
                    lemma_restrip(s, i + 1, ScanState::Normal);
                    lemma_strip_shift(seq![s[i]], rest, 0, ScanState::Normal);
                    assert(strip_from(out, 0, ScanState::Normal) =~= out);
                }
            },
            ScanState::InString => {
                if s[i] == BYTE_BACKSLASH {
                    let rest = strip_from(s, i + 1, ScanState::Escaped);
                    lemma_restrip(s, i + 1, ScanState::Escaped);
                    lemma_strip_shift(seq![s[i]], rest, 0, ScanState::Escaped);
                    assert(strip_from(out, 0, ScanState::InString) =~= out);
                } else if s[i] == BYTE_QUOTE {
                    let rest = strip_from(s, i + 1, ScanState::Normal);
                    lemma_restrip(s, i + 1, ScanState::Normal);
                    lemma_strip_shift(seq![s[i]], rest, 0, ScanState::Normal);
                    assert(strip_from(out, 0, ScanState::InString) =~= out);
                } else {
                    let rest = strip_from(s, i + 1, ScanState::InString);
                    lemma_restrip(s, i + 1, ScanState::InString);
                    lemma_strip_shift(seq![s[i]], rest, 0, ScanState::InString);
                    assert(strip_from(out, 0, ScanState::InString) =~= out);
                }
            },
            ScanState::Escaped => {
                let rest = strip_from(s, i + 1, ScanState::InString);
                lemma_restrip(s, i + 1, ScanState::InString);
                lemma_strip_shift(seq![s[i]], rest, 0, ScanState::InString);
                assert(strip_from(out, 0, ScanState::Escaped) =~= out);
            },
            ScanState::LineComment => {
                if s[i] == BYTE_NEWLINE {
                    let rest = strip_from(s, i + 1, ScanState::Normal);
                    lemma_restrip(s, i + 1, ScanState::Normal);
                    lemma_strip_shift(seq![s[i]], rest, 0, ScanState::Normal);
                    assert(strip_from(out, 0, ScanState::Normal) =~= out);
                } else {
                    lemma_restrip(s, i + 1, ScanState::LineComment);
                }
            },
            ScanState::BlockComment => {
                if s[i] == BYTE_STAR && i + 1 < s.len() && s[i + 1] == BYTE_SLASH {
                    lemma_restrip(s, i + 2, ScanState::Normal);
                } else {
                    lemma_restrip(s, i + 1, ScanState::BlockComment);
                }
            },
        }
    }
}

/// Stripping is idempotent: stripping an already-stripped text yields the
/// same text.
pub proof fn lemma_strip_idempotent(s: Seq<u8>)
    ensures
        spec_strip(spec_strip(s)) == spec_strip(s),
{
    lemma_restrip(s, 0, ScanState::Normal);
}

} // verus!

