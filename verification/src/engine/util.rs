//! Helpers shared by the provider clients.

use crate::text;
use vstd::prelude::*;

verus! {

/// What stands behind a text that was cut.
pub const CUT_MARK: &'static str = "…[truncated]";

/// What stands for a key that was taken out.
pub const PLACEHOLDER: &'static str = "[redacted-api-key]";

/// Cuts a text after `max_chars` characters and marks the cut, so that a large
/// response does not flood the logs.
pub fn truncate(s: &str, max_chars: usize) -> (r: String)
    ensures
        r@ == (if s@.len() > max_chars {
            s@.take(max_chars as int) + CUT_MARK@
        } else {
            s@
        }),
{
    let v = text::chars_of(s);
    if v.len() > max_chars {
        let head = text::string_of(&v, 0, max_chars);
        assert(head@ =~= s@.take(max_chars as int));
        head.concat(CUT_MARK)
    } else {
        s.to_owned()
    }
}

/// A text with every occurrence of the key replaced. An empty key is none.
pub open spec fn redacted(s: Seq<char>, api_key: Seq<char>) -> Seq<char> {
    if api_key.len() == 0 {
        s
    } else {
        text::replaced(s, api_key, PLACEHOLDER@)
    }
}

/// Replaces every occurrence of the key by a placeholder, so that an error
/// text from outside cannot carry it into the logs.
pub fn redact_api_key(s: &str, api_key: &str) -> (r: String)
    ensures
        r@ == redacted(s@, api_key@),
{
    if api_key.is_empty() {
        return s.to_owned();
    }
    text::replace(s, api_key, PLACEHOLDER)
}

// ─── Laws ──────────────────────────────────────────────────────────────

/// Whether a key can show up around a placeholder: one holds the other, or an
/// end of one is the start of the other.
pub open spec fn clashes(key: Seq<char>, mark: Seq<char>) -> bool {
    ||| text::occurs(mark, key)
    ||| text::occurs(key, mark)
    ||| exists|k: int|
        0 < k < key.len() && k < mark.len() && (#[trigger] mark.skip(mark.len() - k) == key.take(k)
            || mark.take(k) == key.skip(key.len() - k))
}

/// A redacted text does not hold the key, whatever the text was, unless the
/// key itself runs into the placeholder.
pub proof fn law_redaction_removes_the_key(s: Seq<char>, api_key: Seq<char>)
    requires
        api_key.len() > 0,
        !clashes(api_key, PLACEHOLDER@),
    ensures
        !text::occurs(redacted(s, api_key), api_key),
{
    reveal_strlit("[redacted-api-key]");
    assert forall|i: int| !text::occurs_at(redacted(s, api_key), api_key, i) by {
        lemma_no_occurrence(s, api_key, PLACEHOLDER@, i);
    }
}

/// A text that does not hold the key stays as it is, and so does any text where
/// there is no key. Where the key stands first, the placeholder takes its place,
/// and what is behind it is redacted likewise.
pub proof fn law_redaction_changes_nothing_else(s: Seq<char>, api_key: Seq<char>, i: int)
    ensures
        api_key.len() == 0 ==> redacted(s, api_key) == s,
        !text::occurs(s, api_key) ==> redacted(s, api_key) == s,
        api_key.len() > 0 && text::occurs_at(s, api_key, i) && (forall|j: int|
            0 <= j < i ==> !text::occurs_at(s, api_key, j)) ==> redacted(s, api_key) == s.take(i)
            + "[redacted-api-key]"@ + redacted(s.skip(i + api_key.len()), api_key),
{
    if !text::occurs(s, api_key) {
        text::lemma_replaced_nothing(s, api_key, PLACEHOLDER@);
    }
    if api_key.len() > 0 && text::occurs_at(s, api_key, i) && (forall|j: int|
        0 <= j < i ==> !text::occurs_at(s, api_key, j)) {
        text::law_each_occurrence_is_replaced(s, api_key, PLACEHOLDER@, i);
    }
}

proof fn lemma_no_occurrence(s: Seq<char>, key: Seq<char>, mark: Seq<char>, i: int)
    requires
        key.len() > 0,
        mark.len() > 0,
        !clashes(key, mark),
    ensures
        !text::occurs_at(text::replaced(s, key, mark), key, i),
    decreases s.len(),
{
    let out = text::replaced(s, key, mark);
    let m = key.len() as int;
    if text::occurs_at(out, key, i) {
        if s.len() == 0 {
            assert(false);
        } else if text::has_prefix(s, key) {
            let rest = text::replaced(s.skip(m), key, mark);
            if i >= mark.len() {
                lemma_no_occurrence(s.skip(m), key, mark, i - mark.len());
                assert(rest.subrange(i - mark.len(), i - mark.len() + m) =~= key);
            } else {
                assert(out.subrange(0, mark.len() as int) =~= mark);
                lemma_overlap(out, key, mark, i, 0);
            }
        } else {
            let rest = text::replaced(s.drop_first(), key, mark);
            if i > 0 {
                lemma_no_occurrence(s.drop_first(), key, mark, i - 1);
                assert(rest.subrange(i - 1, i - 1 + m) =~= key);
            } else {
                let j = lemma_first_change(s, key, mark, m);
                if j == m {
                    assert(out.subrange(0, m) =~= out.take(m));
                    assert(text::has_prefix(s, key));
                } else {
                    lemma_overlap(out, key, mark, 0, j);
                }
            }
        }
    }
}

/// No key stands at `i` where it would touch a placeholder at `j`.
proof fn lemma_overlap(out: Seq<char>, key: Seq<char>, mark: Seq<char>, i: int, j: int)
    requires
        key.len() > 0,
        !clashes(key, mark),
        text::occurs_at(out, mark, j),
        i < j + mark.len(),
        j < i + key.len(),
    ensures
        !text::occurs_at(out, key, i),
{
    let m = key.len() as int;
    let n = mark.len() as int;
    if text::occurs_at(out, key, i) {
        if i >= j {
            if i + m <= j + n {
                assert(mark.subrange(i - j, i - j + m) =~= key) by {
                    assert forall|x: int| 0 <= x < m implies mark.subrange(i - j, i - j + m)[x]
                        == key[x] by {
                        assert(out.subrange(i, i + m)[x] == out[i + x]);
                        assert(out.subrange(j, j + n)[i - j + x] == out[i + x]);
                    }
                }
                assert(text::occurs_at(mark, key, i - j));
            } else if i == j {
                assert(key.subrange(0, n) =~= mark) by {
                    assert forall|x: int| 0 <= x < n implies key.subrange(0, n)[x] == mark[x] by {
                        assert(out.subrange(i, i + m)[x] == out[i + x]);
                        assert(out.subrange(j, j + n)[x] == out[j + x]);
                    }
                }
                assert(text::occurs_at(key, mark, 0));
            } else {
                let k = j + n - i;
                assert(mark.skip(n - k) =~= key.take(k)) by {
                    assert forall|x: int| 0 <= x < k implies mark.skip(n - k)[x] == key.take(k)[x] by {
                        assert(out.subrange(i, i + m)[x] == out[i + x]);
                        assert(out.subrange(j, j + n)[n - k + x] == out[i + x]);
                    }
                }
            }
        } else {
            if j + n <= i + m {
                assert(key.subrange(j - i, j - i + n) =~= mark) by {
                    assert forall|x: int| 0 <= x < n implies key.subrange(j - i, j - i + n)[x]
                        == mark[x] by {
                        assert(out.subrange(i, i + m)[j - i + x] == out[j + x]);
                        assert(out.subrange(j, j + n)[x] == out[j + x]);
                    }
                }
                assert(text::occurs_at(key, mark, j - i));
            } else {
                let k = i + m - j;
                assert(mark.take(k) =~= key.skip(m - k)) by {
                    assert forall|x: int| 0 <= x < k implies mark.take(k)[x] == key.skip(m - k)[x] by {
                        assert(out.subrange(i, i + m)[m - k + x] == out[j + x]);
                        assert(out.subrange(j, j + n)[x] == out[j + x]);
                    }
                }
                assert(mark.skip(mark.len() - k) == mark.skip(mark.len() - k));
            }
        }
    }
}

/// The first `n` characters of a replaced text are those of the text, or a
/// placeholder starts among them: returns where, or `n`.
proof fn lemma_first_change(s: Seq<char>, key: Seq<char>, mark: Seq<char>, n: int) -> (j: int)
    requires
        key.len() > 0,
        0 <= n <= text::replaced(s, key, mark).len(),
    ensures
        0 <= j <= n,
        j == n ==> n <= s.len() && text::replaced(s, key, mark).take(n) == s.take(n),
        j < n ==> text::occurs_at(text::replaced(s, key, mark), mark, j),
    decreases s.len(),
{
    let out = text::replaced(s, key, mark);
    if n == 0 {
        assert(out.take(0) =~= s.take(0));
        0
    } else if s.len() == 0 {
        n
    } else if text::has_prefix(s, key) {
        assert(out.subrange(0, mark.len() as int) =~= mark);
        0
    } else {
        let rest = text::replaced(s.drop_first(), key, mark);
        let j = lemma_first_change(s.drop_first(), key, mark, n - 1);
        if j == n - 1 {
            assert(out.take(n) =~= s.take(n)) by {
                assert forall|x: int| 0 <= x < n implies out.take(n)[x] == s.take(n)[x] by {
                    if x > 0 {
                        assert(rest.take(n - 1)[x - 1] == s.drop_first().take(n - 1)[x - 1]);
                    }
                }
            }
            n
        } else {
            assert(out.subrange(j + 1, j + 1 + mark.len()) =~= rest.subrange(j, j + mark.len()));
            j + 1
        }
    }
}

} // verus!
