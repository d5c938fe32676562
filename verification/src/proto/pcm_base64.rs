//! Audio bytes as a base64 string, the form that they have on the wire.

use base64::engine::general_purpose::STANDARD;
use base64::Engine;
use vstd::prelude::*;

verus! {

// ─── Model ─────────────────────────────────────────────────────────────

/// The character of a base64 digit: the upper-case letters, the lower-case
/// letters, the decimal digits, plus and slash.
pub open spec fn base64_digit(n: int) -> char {
    if n < 26 {
        (65 + n) as char
    } else if n < 52 {
        (97 + (n - 26)) as char
    } else if n < 62 {
        (48 + (n - 52)) as char
    } else if n == 62 {
        '+'
    } else {
        '/'
    }
}

/// The standard base64 text of `bytes`: four digits of six bits for each three
/// bytes. A last group of one or two bytes is filled up with zero bits to whole
/// digits, and with equals signs to four characters.
pub open spec fn base64_text(bytes: Seq<u8>) -> Seq<char>
    decreases bytes.len(),
{
    if bytes.len() == 0 {
        seq![]
    } else {
        let a = bytes[0] as int;
        if bytes.len() == 1 {
            seq![base64_digit(a / 4), base64_digit(a % 4 * 16), '=', '=']
        } else {
            let b = bytes[1] as int;
            if bytes.len() == 2 {
                seq![
                    base64_digit(a / 4),
                    base64_digit(a % 4 * 16 + b / 16),
                    base64_digit(b % 16 * 4),
                    '=',
                ]
            } else {
                let c = bytes[2] as int;
                seq![
                    base64_digit(a / 4),
                    base64_digit(a % 4 * 16 + b / 16),
                    base64_digit(b % 16 * 4 + c / 64),
                    base64_digit(c % 64),
                ] + base64_text(bytes.skip(3))
            }
        }
    }
}

/// What the decoder says of a text that is no base64.
pub uninterp spec fn base64_complaint(text: Seq<char>) -> Seq<char>;

/// Whether the base64 text of `n` bytes is short enough for one string.
pub open spec fn base64_fits(n: nat) -> bool {
    (n + 2) / 3 * 4 <= isize::MAX
}

/// Whether the outcome of decoding a text is the right one: the bytes whose
/// base64 text it is, or a complaint if there are none.
pub open spec fn decodes(text: Seq<char>, r: Result<Vec<u8>, String>) -> bool {
    match r {
        Ok(bytes) => text == base64_text(bytes@),
        Err(complaint) => {
            &&& complaint@ == base64_complaint(text)
            &&& forall|bytes: Seq<u8>| text != #[trigger] base64_text(bytes)
        },
    }
}

// ─── Encoding and decoding ─────────────────────────────────────────────

/// `Engine::encode` of `base64`'s `STANDARD` engine: the standard alphabet,
/// with padding.
#[verifier::external_body]
pub(crate) fn base64_encode(bytes: &[u8]) -> (r: String)
    requires
        base64_fits(bytes@.len()),
    ensures
        r@ == base64_text(bytes@),
{
    STANDARD.encode(bytes)
}

/// `Engine::decode` of `base64`'s `STANDARD` engine, with the text of its
/// `DecodeError`. The engine takes the standard alphabet only, asks for the
/// padding, and takes no last digit with bits that belong to no byte: it
/// accepts exactly the texts that encoding gives. What it says of the others is
/// not said here.
#[verifier::external_body]
fn base64_decode(text: &str) -> (r: Result<Vec<u8>, String>)
    ensures
        match r {
            Ok(bytes) => text@ == base64_text(bytes@),
            Err(complaint) => {
                &&& complaint@ == base64_complaint(text@)
                &&& forall|bytes: Seq<u8>| text@ != #[trigger] base64_text(bytes)
            },
        },
{
    match STANDARD.decode(text.as_bytes()) {
        Ok(bytes) => Ok(bytes),
        Err(e) => Err(e.to_string()),
    }
}

/// The text that carries `bytes` on the wire.
pub fn serialize(bytes: &Vec<u8>) -> (r: String)
    requires
        base64_fits(bytes@.len()),
    ensures
        r@ == base64_text(bytes@),
        r@.len() == (bytes@.len() + 2) / 3 * 4,
{
    proof {
        lemma_text_length(bytes@);
    }
    base64_encode(bytes.as_slice())
}

/// The bytes that a text on the wire carries, or what is wrong with it.
pub fn deserialize(text: &str) -> (r: Result<Vec<u8>, String>)
    ensures
        decodes(text@, r),
{
    base64_decode(text)
}

// ─── Laws ──────────────────────────────────────────────────────────────

/// Audio survives the wire: what decodes the text of `bytes` gives `bytes`.
pub proof fn law_bytes_read_back(bytes: Seq<u8>, r: Result<Vec<u8>, String>)
    requires
        decodes(base64_text(bytes), r),
    ensures
        r matches Ok(got) && got@ == bytes,
{
    if let Ok(got) = r {
        lemma_text_tells(got@, bytes);
    }
}

proof fn lemma_text_length(bytes: Seq<u8>)
    ensures
        base64_text(bytes).len() == (bytes.len() + 2) / 3 * 4,
    decreases bytes.len(),
{
    if bytes.len() > 2 {
        lemma_text_length(bytes.skip(3));
    }
}

proof fn lemma_digit_tells(m: int, n: int)
    requires
        0 <= m < 64,
        0 <= n < 64,
        base64_digit(m) == base64_digit(n),
    ensures
        m == n,
        base64_digit(m) != '=',
{
    assert(base64_digit(m) as int == base64_digit(n) as int);
}

/// Different bytes have different texts.
proof fn lemma_text_tells(x: Seq<u8>, y: Seq<u8>)
    requires
        base64_text(x) == base64_text(y),
    ensures
        x == y,
    decreases x.len(),
{
    let s = base64_text(x);
    let t = base64_text(y);
    lemma_text_length(x);
    lemma_text_length(y);
    if x.len() > 0 {
        assert(y.len() > 0);
        let (a, d) = (x[0] as int, y[0] as int);
        let (b, e) = (
            if x.len() > 1 {
                x[1] as int
            } else {
                0
            },
            if y.len() > 1 {
                y[1] as int
            } else {
                0
            },
        );
        let (c, f) = (
            if x.len() > 2 {
                x[2] as int
            } else {
                0
            },
            if y.len() > 2 {
                y[2] as int
            } else {
                0
            },
        );
        assert(s[0] == base64_digit(a / 4) && t[0] == base64_digit(d / 4));
        assert(s[1] == base64_digit(a % 4 * 16 + b / 16));
        assert(t[1] == base64_digit(d % 4 * 16 + e / 16));
        lemma_digit_tells(a / 4, d / 4);
        lemma_digit_tells(a % 4 * 16 + b / 16, d % 4 * 16 + e / 16);
        let (p, q) = (b % 16 * 4 + c / 64, e % 16 * 4 + f / 64);
        lemma_digit_tells(p, p);
        lemma_digit_tells(q, q);
        lemma_digit_tells(c % 64, c % 64);
        lemma_digit_tells(f % 64, f % 64);
        assert(s[2] == if x.len() > 1 {
            base64_digit(p)
        } else {
            '='
        });
        assert(t[2] == if y.len() > 1 {
            base64_digit(q)
        } else {
            '='
        });
        assert(s[3] == if x.len() > 2 {
            base64_digit(c % 64)
        } else {
            '='
        });
        assert(t[3] == if y.len() > 2 {
            base64_digit(f % 64)
        } else {
            '='
        });
        if x.len() > 1 {
            lemma_digit_tells(p, q);
        }
        if x.len() > 2 {
            lemma_digit_tells(c % 64, f % 64);
            assert(s.skip(4) =~= base64_text(x.skip(3)));
            assert(t.skip(4) =~= base64_text(y.skip(3)));
            lemma_text_tells(x.skip(3), y.skip(3));
            assert forall|i: int| 0 <= i < x.len() implies x[i] == y[i] by {
                if i > 2 {
                    assert(x[i] == x.skip(3)[i - 3]);
                    assert(y[i] == y.skip(3)[i - 3]);
                }
            }
        }
        assert(x =~= y);
    }
}

} // verus!
