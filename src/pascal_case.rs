use vstd::prelude::*;
use vstd::string::StrSliceExecFns;

verus! {

/// Relies on `String::push`: the character is appended at the end.
pub assume_specification[ String::push ](s: &mut String, ch: char)
    ensures
        final(s)@ == old(s)@.push(ch),
;

pub open spec fn is_ascii_char(c: char) -> bool {
    (c as u32) < 128
}

pub open spec fn is_ascii_upper(c: char) -> bool {
    'A' <= c && c <= 'Z'
}

pub open spec fn is_ascii_lower(c: char) -> bool {
    'a' <= c && c <= 'z'
}

pub open spec fn is_ascii_digit(c: char) -> bool {
    '0' <= c && c <= '9'
}

pub open spec fn is_ascii_alphanumeric(c: char) -> bool {
    is_ascii_upper(c) || is_ascii_lower(c) || is_ascii_digit(c)
}

pub open spec fn ascii_upper(c: char) -> char {
    if is_ascii_lower(c) {
        ((c as u8) - 32) as char
    } else {
        c
    }
}

fn to_ascii_upper(c: char) -> (r: char)
    ensures
        r == ascii_upper(c),
{
    if 'a' <= c && c <= 'z' {
        ((c as u8) - 32) as char
    } else {
        c
    }
}

/// The message of the error returned for input that is not ASCII.
pub const NON_ASCII_INPUT: &'static str = "Input contains non-ASCII characters.";

pub open spec fn all_ascii(s: Seq<char>) -> bool {
    forall|i: int| 0 <= i < s.len() ==> is_ascii_char(#[trigger] s[i])
}

/// The pascal-case conversion of an ASCII string, read left to right: the
/// text produced so far, and whether the next alphanumeric character starts a
/// word. A word starts at the beginning, after a character that is not
/// alphanumeric, and after any digit: a digit ends the word it stands in. The
/// first letter of a word is upper-cased, the letters after it are kept as
/// they are, and characters that are not alphanumeric are dropped.
pub open spec fn pascal_state(s: Seq<char>) -> (Seq<char>, bool)
    decreases s.len(),
{
    if s.len() == 0 {
        (Seq::empty(), true)
    } else {
        let (out, at_boundary) = pascal_state(s.drop_last());
        let c = s.last();
        if !is_ascii_alphanumeric(c) {
            (out, true)
        } else if is_ascii_digit(c) {
            (out.push(c), true)
        } else if at_boundary {
            (out.push(ascii_upper(c)), false)
        } else {
            (out.push(c), false)
        }
    }
}

pub open spec fn pascal_case(s: Seq<char>) -> Seq<char> {
    pascal_state(s).0
}

proof fn lemma_pascal_state_reconverted(s: Seq<char>)
    ensures
        all_ascii(pascal_case(s)),
        pascal_state(pascal_case(s)).0 == pascal_case(s),
        pascal_state(pascal_case(s)).1 ==> pascal_state(s).1,
    decreases s.len(),
{
    if s.len() > 0 {
        let prev = s.drop_last();
        lemma_pascal_state_reconverted(prev);
        let (out, at_boundary) = pascal_state(prev);
        let c = s.last();
        if is_ascii_alphanumeric(c) {
            let x = pascal_case(s).last();
            assert(pascal_case(s) == out.push(x));
            assert(out.push(x).drop_last() =~= out);
            if is_ascii_lower(c) && !is_ascii_digit(c) && at_boundary {
                assert(is_ascii_upper(x));
            }
            assert forall|i: int| 0 <= i < out.len() + 1 implies is_ascii_char(
                #[trigger] out.push(x)[i],
            ) by {
                if i < out.len() {
                    assert(is_ascii_char(out[i]));
                }
            }
        }
    }
}

/// Converting a pascal-case result again leaves it as it is; the result holds
/// only ASCII characters, so the conversion succeeds on it.
pub proof fn lemma_pascal_case_idempotent(s: Seq<char>)
    ensures
        all_ascii(pascal_case(s)),
        pascal_case(pascal_case(s)) == pascal_case(s),
{
    lemma_pascal_state_reconverted(s);
}

/// Converts an ASCII string to pascal case, or fails on input that holds a
/// character outside ASCII.
pub fn to_pascal_case(input: &str) -> (r: Result<String, &'static str>)
    ensures
        all_ascii(input@) ==> r is Ok && r->Ok_0@ == pascal_case(input@),
        !all_ascii(input@) ==> r is Err && r->Err_0@ == NON_ASCII_INPUT@,
{
    let n = input.unicode_len();
    let mut pascal = String::new();
    let mut at_word_boundary = true;
    let mut i: usize = 0;
    while i < n
        invariant
            n == input@.len(),
            0 <= i <= n,
            all_ascii(input@.subrange(0, i as int)),
            (pascal@, at_word_boundary) == pascal_state(input@.subrange(0, i as int)),
        decreases n - i,
    {
        let c = input.get_char(i);
        proof {
            assert(input@.subrange(0, i + 1).drop_last() =~= input@.subrange(0, i as int));
        }
        if (c as u32) >= 128 {
            assert(!all_ascii(input@)) by {
                assert(!is_ascii_char(input@[i as int]));
            }
            return Err(NON_ASCII_INPUT);
        } else if ('a' <= c && c <= 'z') || ('A' <= c && c <= 'Z') || ('0' <= c && c <= '9') {
            if '0' <= c && c <= '9' {
                pascal.push(c);
                at_word_boundary = true;
            } else if at_word_boundary {
                pascal.push(to_ascii_upper(c));
                at_word_boundary = false;
            } else {
                pascal.push(c);
            }
        } else {
            at_word_boundary = true;
        }
        proof {
            assert forall|j: int| 0 <= j < i + 1 implies is_ascii_char(
                #[trigger] input@.subrange(0, i + 1)[j],
            ) by {
                if j < i {
                    assert(input@.subrange(0, i + 1)[j] == input@.subrange(0, i as int)[j]);
                }
            }
        }
        i = i + 1;
    }
    assert(input@.subrange(0, n as int) =~= input@);
    Ok(pascal)
}

} // verus!
