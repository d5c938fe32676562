//! The command line of the user interface.

use crate::text;
use vstd::prelude::*;

verus! {

/// What the command line asks for.
#[derive(Debug, Clone)]
pub struct Args {
    pub smoke_test: bool,
    pub dev_mic: bool,
    pub dev_recovery: bool,
    pub recovery_text: Option<String>,
    pub seconds: u64,
    pub debug: bool,
}

/// What to run.
#[derive(Debug, Clone, Copy, PartialEq, Eq, Structural)]
pub enum RunMode {
    SmokeTest,
    DevMic,
    DevRecovery,
    Normal,
}

/// Whether a word is on the command line.
pub open spec fn has_word(raw: Seq<String>, word: Seq<char>) -> bool {
    exists|i: int| 0 <= i < raw.len() && (#[trigger] raw[i])@ == word
}

/// The word behind the first occurrence of a word.
pub open spec fn word_after(raw: Seq<String>, word: Seq<char>) -> Option<Seq<char>>
    decreases raw.len(),
{
    if raw.len() == 0 {
        None
    } else if raw.first()@ == word {
        if raw.len() > 1 {
            Some(raw[1]@)
        } else {
            None
        }
    } else {
        word_after(raw.drop_first(), word)
    }
}

/// Whether a text denotes a number of 64 bits: digits, after a plus sign or
/// none.
pub open spec fn denotes_u64(s: Seq<char>) -> bool {
    let digits = if s.len() > 0 && s[0] == '+' {
        s.skip(1)
    } else {
        s
    };
    digits.len() > 0 && text::all_digits(digits) && text::digits_value(digits) <= u64::MAX
}

/// The number that a text denotes.
pub open spec fn u64_value(s: Seq<char>) -> nat {
    text::digits_value(
        if s.len() > 0 && s[0] == '+' {
            s.skip(1)
        } else {
            s
        },
    )
}

/// The length of a recording: three seconds unless a number says otherwise.
pub open spec fn seconds_of(word: Option<Seq<char>>) -> nat {
    match word {
        Some(s) => if denotes_u64(s) {
            u64_value(s)
        } else {
            3
        },
        None => 3,
    }
}

pub fn contains_word(raw: &[String], word: &str) -> (r: bool)
    ensures
        r == has_word(raw@, word@),
{
    let mut i: usize = 0;
    while i < raw.len()
        invariant
            i <= raw@.len(),
            forall|j: int| 0 <= j < i ==> (#[trigger] raw@[j])@ != word@,
        decreases raw@.len() - i,
    {
        if text::same(raw[i].as_str(), word) {
            return true;
        }
        i += 1;
    }
    false
}

fn find_word_after(raw: &[String], word: &str) -> (r: Option<String>)
    ensures
        (match r {
            Some(s) => Some(s@),
            None => None,
        }) == word_after(raw@, word@),
{
    let mut i: usize = 0;
    assert(raw@.skip(0) =~= raw@);
    while i < raw.len()
        invariant
            i <= raw@.len(),
            word_after(raw@.skip(i as int), word@) == word_after(raw@, word@),
        decreases raw@.len() - i,
    {
        assert(raw@.skip(i as int).drop_first() =~= raw@.skip(i + 1));
        if text::same(raw[i].as_str(), word) {
            if i + 1 < raw.len() {
                return Some(raw[i + 1].clone());
            }
            return None;
        }
        i += 1;
    }
    None
}

/// Reads the command line. What it does not know it ignores.
pub fn parse_args(raw: &[String]) -> (r: Args)
    ensures
        r.smoke_test == has_word(raw@, "--smoke-test"@),
        r.dev_mic == has_word(raw@, "--dev-mic"@),
        r.dev_recovery == has_word(raw@, "--dev-recovery"@),
        r.debug == has_word(raw@, "--debug"@),
        r.seconds == seconds_of(word_after(raw@, "--seconds"@)),
        (match r.recovery_text {
            Some(s) => Some(s@),
            None => None,
        }) == word_after(raw@, "--text"@),
{
    let seconds: u64 = match find_word_after(raw, "--seconds") {
        Some(s) => match text::parse_u64(s.as_str()) {
            Some(n) => n,
            None => 3,
        },
        None => 3,
    };
    Args {
        smoke_test: contains_word(raw, "--smoke-test"),
        dev_mic: contains_word(raw, "--dev-mic"),
        dev_recovery: contains_word(raw, "--dev-recovery"),
        recovery_text: find_word_after(raw, "--text"),
        seconds,
        debug: contains_word(raw, "--debug"),
    }
}

impl Args {
    /// Whether a mode for developers is on. These run beside a normal
    /// instance.
    pub fn is_dev_mode(&self) -> (r: bool)
        ensures
            r == (self.smoke_test || self.dev_mic || self.dev_recovery),
    {
        self.smoke_test || self.dev_mic || self.dev_recovery
    }

    /// What to run; the first mode that is on counts.
    pub fn mode(&self) -> (r: RunMode)
        ensures
            r == (if self.smoke_test {
                RunMode::SmokeTest
            } else if self.dev_mic {
                RunMode::DevMic
            } else if self.dev_recovery {
                RunMode::DevRecovery
            } else {
                RunMode::Normal
            }),
    {
        if self.smoke_test {
            RunMode::SmokeTest
        } else if self.dev_mic {
            RunMode::DevMic
        } else if self.dev_recovery {
            RunMode::DevRecovery
        } else {
            RunMode::Normal
        }
    }
}

/// The exit code of the launcher, from that of the program: a program that was
/// killed has none.
pub fn launcher_exit_code(code: Option<i32>) -> (r: u8)
    ensures
        r == (match code {
            Some(n) => if n == 0 {
                0int
            } else if n < 1 {
                1
            } else if n > 255 {
                255
            } else {
                n as int
            },
            None => 1,
        }),
{
    match code {
        Some(n) => if n == 0 {
            0
        } else if n < 1 {
            1
        } else if n > 255 {
            255
        } else {
            n as u8
        },
        None => 1,
    }
}

// ─── Laws ──────────────────────────────────────────────────────────────

/// The value of a word is what stands behind the first of its kind; there is none
/// if the word is missing or stands last. Returns where the word stands.
pub proof fn law_the_value_stands_behind_the_word(raw: Seq<String>, word: Seq<char>) -> (k: int)
    ensures
        0 <= k <= raw.len(),
        forall|j: int| 0 <= j < k ==> (#[trigger] raw[j])@ != word,
        k < raw.len() ==> raw[k]@ == word,
        has_word(raw, word) <==> k < raw.len(),
        k < raw.len() - 1 ==> word_after(raw, word) == Some(raw[k + 1]@),
        k >= raw.len() - 1 ==> word_after(raw, word) is None,
    decreases raw.len(),
{
    if raw.len() == 0 {
        0
    } else if raw.first()@ == word {
        assert(raw[0]@ == word);
        0
    } else {
        let rest = raw.drop_first();
        let k = law_the_value_stands_behind_the_word(rest, word);
        assert forall|j: int| 0 <= j < k + 1 implies (#[trigger] raw[j])@ != word by {
            if j > 0 {
                assert(rest[j - 1] == raw[j]);
            }
        }
        if k < rest.len() {
            assert(rest[k] == raw[k + 1]);
        }
        if k < rest.len() - 1 {
            assert(rest[k + 1] == raw[k + 2]);
        }
        k + 1
    }
}

/// A recording lasts as many seconds as the number says, with or without a plus
/// sign, and three seconds without a number.
pub proof fn law_recordings_last_as_long_as_asked(n: nat, word: Seq<char>)
    ensures
        n <= u64::MAX ==> seconds_of(Some(text::decimal(n))) == n,
        n <= u64::MAX ==> seconds_of(Some(seq!['+'] + text::decimal(n))) == n,
        n > u64::MAX ==> seconds_of(Some(text::decimal(n))) == 3,
        seconds_of(None) == 3,
        word.len() == 0 || !('0' <= word.last() <= '9') ==> seconds_of(Some(word)) == 3,
{
    let digits = text::decimal(n);
    text::law_numbers_read_back(n);
    assert('0' <= digits[0] <= '9');
    assert((seq!['+'] + digits).skip(1) =~= digits);
    if word.len() > 0 && denotes_u64(word) {
        let own = if word[0] == '+' {
            word.skip(1)
        } else {
            word
        };
        assert(own[own.len() - 1] == word.last());
    }
}

} // verus!
