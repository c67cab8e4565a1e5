//! Small operations on text, stated over the characters that a text holds.

use vstd::prelude::*;
use vstd::string::*;
use vstd::utf8::*;

verus! {

/// Two texts with the same UTF-8 encoding are the same text.
pub proof fn lemma_encoding_is_injective(a: Seq<char>, b: Seq<char>)
    requires
        encode_utf8(a) == encode_utf8(b),
    ensures
        a == b,
{
    encode_utf8_decode_utf8(a);
    encode_utf8_decode_utf8(b);
}

/// Whether two texts hold the same characters.
pub fn same_text(a: &str, b: &str) -> (same: bool)
    ensures
        same == (a@ == b@),
{
    let x = a.as_bytes();
    let y = b.as_bytes();
    if x.len() != y.len() {
        return false;
    }
    let mut i: usize = 0;
    while i < x.len()
        invariant
            x@ == encode_utf8(a@),
            y@ == encode_utf8(b@),
            x@.len() == y@.len(),
            i <= x@.len(),
            forall|j: int| 0 <= j < i ==> x@[j] == y@[j],
        decreases x@.len() - i,
    {
        if x[i] != y[i] {
            return false;
        }
        i += 1;
    }
    proof {
        assert(x@ =~= y@);
        lemma_encoding_is_injective(a@, b@);
    }
    true
}

/// The characters that end a line.
pub open spec fn is_line_end(c: char) -> bool {
    c == '\n' || c == '\r'
}

/// `text` without the line-ending characters at its end.
pub open spec fn without_line_end(text: Seq<char>) -> Seq<char>
    decreases text.len(),
{
    if text.len() > 0 && is_line_end(text.last()) {
        without_line_end(text.drop_last())
    } else {
        text
    }
}

/// Drops every line feed and carriage return from the end of `text`.
pub fn trim_line_end(text: &str) -> (trimmed: &str)
    ensures
        trimmed@ == without_line_end(text@),
{
    let mut end: usize = text.unicode_len();
    assert(text@.subrange(0, end as int) =~= text@);
    while end > 0
        invariant
            end <= text@.len(),
            without_line_end(text@) == without_line_end(text@.subrange(0, end as int)),
        ensures
            end <= text@.len(),
            without_line_end(text@) == text@.subrange(0, end as int),
        decreases end,
    {
        let last: char = text.get_char(end - 1);
        let ghost kept = text@.subrange(0, end as int);
        assert(kept.last() == last);
        if last != '\n' && last != '\r' {
            break;
        }
        end -= 1;
        assert(kept.drop_last() =~= text@.subrange(0, end as int));
    }
    text.substring_char(0, end)
}

/// `a` followed by `b`.
pub fn join_text(a: &str, b: &str) -> (joined: String)
    ensures
        joined@ == a@ + b@,
{
    a.to_owned().concat(b)
}

/// A text without its line end is the part of it up to which nothing but line feeds and carriage
/// returns follows, and which does not end in one itself.
pub proof fn only_the_line_end_is_dropped(text: Seq<char>, trimmed: Seq<char>)
    ensures
        without_line_end(text) == trimmed <==> {
            &&& trimmed.is_prefix_of(text)
            &&& forall|i: int|
                trimmed.len() <= i < text.len() ==> #[trigger] text[i] == '\n' || text[i] == '\r'
            &&& trimmed.len() > 0 ==> trimmed.last() != '\n' && trimmed.last() != '\r'
        },
    decreases text.len(),
{
    if text.len() > 0 && (text.last() == '\n' || text.last() == '\r') {
        let shorter = text.drop_last();
        only_the_line_end_is_dropped(shorter, trimmed);
        if trimmed.is_prefix_of(text) && trimmed.len() == text.len() {
            assert(trimmed =~= text);
        }
        if trimmed.is_prefix_of(shorter) {
            assert(trimmed =~= text.take(trimmed.len() as int));
            assert forall|i: int| trimmed.len() <= i < text.len() && (forall|j: int|
                trimmed.len() <= j < shorter.len() ==> #[trigger] shorter[j] == '\n' || shorter[j]
                    == '\r') implies #[trigger] text[i] == '\n' || text[i] == '\r' by {
                if i < shorter.len() {
                    assert(shorter[i] == text[i]);
                }
            }
        }
        if trimmed.is_prefix_of(text) && trimmed.len() < text.len() {
            assert(trimmed =~= shorter.take(trimmed.len() as int));
            assert forall|i: int| trimmed.len() <= i < shorter.len() implies #[trigger] shorter[i]
                == text[i] by {}
        }
    } else {
        if trimmed.is_prefix_of(text) && trimmed.len() < text.len() {
            assert(text[text.len() - 1] == text.last());
        }
        if trimmed.is_prefix_of(text) && trimmed.len() == text.len() {
            assert(trimmed =~= text);
        }
    }
}

} // verus!
