use vstd::prelude::*;
use vstd::string::StringSliceAdditionalSpecFns;
use crate::error::ToyArmsExternalError;

verus! {

/// One position of a byte signature.
#[derive(Clone, Copy, Debug, PartialEq, Eq, Structural)]
pub enum PatternToken {
    /// Matches exactly this byte.
    ExactByte(u8),
    /// Matches any byte.
    Wildcard,
}

/// Whether a token accepts a byte.
pub open spec fn token_matches(t: PatternToken, b: u8) -> bool {
    match t {
        PatternToken::ExactByte(x) => x == b,
        PatternToken::Wildcard => true,
    }
}

impl PatternToken {
    /// Whether this token accepts `b`.
    pub fn accepts(&self, b: u8) -> (r: bool)
        ensures
            r == token_matches(*self, b),
    {
        match self {
            PatternToken::ExactByte(x) => *x == b,
            PatternToken::Wildcard => true,
        }
    }
}

/// Bytes that separate the tokens of a signature string: ASCII whitespace.
pub open spec fn is_separator(b: u8) -> bool {
    b == 32 || b == 9 || b == 10 || b == 12 || b == 13
}

/// The maximal runs of non-separator bytes of `s`, in order.
pub open spec fn words(s: Seq<u8>) -> Seq<Seq<u8>>
    decreases s.len(),
{
    if s.len() == 0 {
        Seq::empty()
    } else {
        let prev = words(s.drop_last());
        let b = s.last();
        if is_separator(b) {
            prev
        } else if s.len() >= 2 && !is_separator(s[s.len() - 2]) && prev.len() > 0 {
            prev.update(prev.len() - 1, prev.last().push(b))
        } else {
            prev.push(seq![b])
        }
    }
}

pub open spec fn is_hex_digit(b: u8) -> bool {
    (48 <= b <= 57) || (65 <= b <= 70) || (97 <= b <= 102)
}

/// The value of a hexadecimal digit, either case.
pub open spec fn hex_value(b: u8) -> int {
    if 48 <= b <= 57 {
        b - 48
    } else if 65 <= b <= 70 {
        b - 55
    } else {
        b - 87
    }
}

/// The token that one word of a signature string stands for: `?` is a
/// wildcard, two hexadecimal digits are a byte; anything else is malformed.
pub open spec fn parse_word(w: Seq<u8>) -> Option<PatternToken> {
    if w == seq![63u8] {
        Some(PatternToken::Wildcard)
    } else if w.len() == 2 && is_hex_digit(w[0]) && is_hex_digit(w[1]) {
        Some(PatternToken::ExactByte((hex_value(w[0]) * 16 + hex_value(w[1])) as u8))
    } else {
        None
    }
}

/// The pattern that the signature string with bytes `s` compiles to: one
/// token per word; `None` when there is no word or a word is malformed.
pub open spec fn compile_spec(s: Seq<u8>) -> Option<Seq<PatternToken>> {
    let ws = words(s);
    if ws.len() > 0 && forall|j: int| 0 <= j < ws.len() ==> (#[trigger] parse_word(ws[j])) is Some {
        Some(Seq::new(ws.len(), |j: int| parse_word(ws[j])->Some_0))
    } else {
        None
    }
}

fn hex_digit_value(b: u8) -> (r: Option<u8>)
    ensures
        r is Some <==> is_hex_digit(b),
        r is Some ==> r->Some_0 as int == hex_value(b) && r->Some_0 < 16,
{
    if 48 <= b && b <= 57 {
        Some(b - 48)
    } else if 65 <= b && b <= 70 {
        Some(b - 55)
    } else if 97 <= b && b <= 102 {
        Some(b - 87)
    } else {
        None
    }
}

/// Parses the word `bytes[start..end]` of a signature string.
fn parse_token(bytes: &[u8], start: usize, end: usize) -> (r: Option<PatternToken>)
    requires
        start <= end <= bytes@.len(),
    ensures
        r == parse_word(bytes@.subrange(start as int, end as int)),
{
    let ghost w = bytes@.subrange(start as int, end as int);
    if end - start == 1 && bytes[start] == 63 {
        assert(w =~= seq![63u8]);
        return Some(PatternToken::Wildcard);
    }
    assert(w != seq![63u8]) by {
        if w == seq![63u8] {
            assert(w[0] == 63u8);
        }
    }
    if end - start != 2 {
        return None;
    }
    match (hex_digit_value(bytes[start]), hex_digit_value(bytes[start + 1])) {
        (Some(hi), Some(lo)) => Some(PatternToken::ExactByte(hi * 16 + lo)),
        _ => None,
    }
}

/// Compiles a signature string such as `"89 0D ? ? 8B"` into its tokens.
///
/// Tokens are separated by ASCII whitespace, which may also lead, trail or
/// repeat. Each token is `?` or two hexadecimal digits of either case.
pub fn compile_pattern(pattern: &str) -> (r: Result<Vec<PatternToken>, ToyArmsExternalError>)
    ensures
        match r {
            Ok(tokens) => compile_spec(pattern.spec_bytes()) == Some(tokens@),
            Err(e) => compile_spec(pattern.spec_bytes()) is None && e == ToyArmsExternalError::MalformedPattern,
        },
{
    let bytes = pattern.as_bytes();
    let n = bytes.len();
    let mut tokens: Vec<PatternToken> = Vec::new();
    let mut valid = true;
    let mut start: usize = 0;
    let mut in_word = false;
    let ghost mut done: Seq<Seq<u8>> = Seq::empty();
    let mut i: usize = 0;
    while i < n
        invariant
            n == bytes@.len(),
            i <= n,
            start <= i,
            in_word <==> (i > 0 && !is_separator(bytes@[i - 1])),
            in_word ==> words(bytes@.take(i as int)) == done.push(bytes@.subrange(start as int, i as int)),
            in_word ==> start < i,
            !in_word ==> words(bytes@.take(i as int)) == done,
            valid <==> forall|j: int| 0 <= j < done.len() ==> (#[trigger] parse_word(done[j])) is Some,
            valid ==> tokens@ == Seq::new(done.len(), |j: int| parse_word(done[j])->Some_0),
        decreases n - i,
    {
        let b = bytes[i];
        let ghost prefix = bytes@.take(i as int + 1);
        assert(prefix.drop_last() =~= bytes@.take(i as int));
        assert(prefix.last() == b);
        if is_separator_byte(b) {
            if in_word {
                let t = parse_token(bytes, start, i);
                let ghost old_done = done;
                proof {
                    done = done.push(bytes@.subrange(start as int, i as int));
                }
                assert(forall|j: int| 0 <= j < old_done.len() ==> done[j] == old_done[j]);
                assert(parse_word(done[done.len() - 1]) == t);
                match t {
                    Some(tok) => {
                        if valid {
                            tokens.push(tok);
                        }
                    },
                    None => {
                        valid = false;
                    },
                }
                in_word = false;
                assert(valid ==> tokens@ =~= Seq::new(done.len(), |j: int| parse_word(done[j])->Some_0));
            }
        } else if in_word {
            let ghost prev = words(bytes@.take(i as int));
            assert(bytes@.subrange(start as int, i as int).push(b) =~= bytes@.subrange(start as int, i as int + 1));
            assert(prev.update(prev.len() - 1, prev.last().push(b)) =~= done.push(bytes@.subrange(start as int, i as int + 1)));
        } else {
            start = i;
            in_word = true;
            assert(seq![b] =~= bytes@.subrange(start as int, i as int + 1));
        }
        i = i + 1;
    }
    assert(bytes@.take(n as int) =~= bytes@);
    if in_word {
        let t = parse_token(bytes, start, n);
        let ghost old_done = done;
        proof {
            done = done.push(bytes@.subrange(start as int, n as int));
        }
        assert(forall|j: int| 0 <= j < old_done.len() ==> done[j] == old_done[j]);
        assert(parse_word(done[done.len() - 1]) == t);
        match t {
            Some(tok) => {
                if valid {
                    tokens.push(tok);
                }
            },
            None => {
                valid = false;
            },
        }
        assert(valid ==> tokens@ =~= Seq::new(done.len(), |j: int| parse_word(done[j])->Some_0));
    }
    assert(words(bytes@) == done);
    if !valid || tokens.len() == 0 {
        if valid {
            assert(done.len() == 0);
        }
        return Err(ToyArmsExternalError::MalformedPattern);
    }
    Ok(tokens)
}

fn is_separator_byte(b: u8) -> (r: bool)
    ensures
        r == is_separator(b),
{
    b == 32 || b == 9 || b == 10 || b == 12 || b == 13
}

} // verus!
