//! Episode-index text handling: leading-zero normalization and the rule that
//! turns a normalized capture into the final index once the configured offset
//! is taken into account.

use vstd::prelude::*;
use vstd::string::StrSliceExecFns;

verus! {

/// The suffix of `s` that remains after every leading `'0'` is removed.
pub open spec fn strip_leading_zeros(s: Seq<char>) -> Seq<char>
    decreases s.len(),
{
    if s.len() > 0 && s[0] == '0' {
        strip_leading_zeros(s.drop_first())
    } else {
        s
    }
}

/// A captured episode text, normalized: leading zeros are stripped, and a
/// text consisting only of zeros (or nothing at all) becomes the single
/// character `'0'`.
pub open spec fn normalized_index(s: Seq<char>) -> Seq<char> {
    if strip_leading_zeros(s).len() == 0 {
        seq!['0']
    } else {
        strip_leading_zeros(s)
    }
}

proof fn lemma_strip_prefix(s: Seq<char>, i: int)
    requires
        0 <= i <= s.len(),
        forall|j: int| 0 <= j < i ==> s[j] == '0',
    ensures
        strip_leading_zeros(s) == strip_leading_zeros(s.subrange(i, s.len() as int)),
    decreases i,
{
    if i > 0 {
        let t = s.drop_first();
        assert(s[0] == '0');
        assert(strip_leading_zeros(s) == strip_leading_zeros(t));
        assert forall|j: int| 0 <= j < i - 1 implies t[j] == '0' by {
            assert(t[j] == s[j + 1]);
        }
        lemma_strip_prefix(t, i - 1);
        assert(t.subrange(i - 1, t.len() as int) =~= s.subrange(i, s.len() as int));
    } else {
        assert(s.subrange(0, s.len() as int) =~= s);
    }
}

/// Strips leading zeros from a captured episode text; an all-zero or empty
/// capture normalizes to the literal text "0".
pub fn normalize_episode(s: &str) -> (r: String)
    ensures
        r@ == normalized_index(s@),
{
    let len = s.unicode_len();
    let mut i: usize = 0;
    while i < len && s.get_char(i) == '0'
        invariant
            0 <= i <= len,
            len == s@.len(),
            forall|j: int| 0 <= j < i ==> s@[j] == '0',
        decreases len - i,
    {
        i = i + 1;
    }
    proof {
        lemma_strip_prefix(s@, i as int);
    }
    if i == len {
        proof {
            reveal_strlit("0");
            assert(s@.subrange(i as int, len as int).len() == 0);
            assert("0"@ =~= seq!['0']);
        }
        "0".to_owned()
    } else {
        proof {
            assert(s@.subrange(i as int, len as int)[0] != '0');
        }
        s.substring_char(i, len).to_owned()
    }
}

/// The character for one decimal digit.
pub open spec fn decimal_digit(d: int) -> char {
    if d == 0 {
        '0'
    } else if d == 1 {
        '1'
    } else if d == 2 {
        '2'
    } else if d == 3 {
        '3'
    } else if d == 4 {
        '4'
    } else if d == 5 {
        '5'
    } else if d == 6 {
        '6'
    } else if d == 7 {
        '7'
    } else if d == 8 {
        '8'
    } else {
        '9'
    }
}

/// The decimal digits of a non-negative number, most significant first.
pub open spec fn decimal_digits(n: nat) -> Seq<char>
    decreases n,
{
    if n < 10 {
        seq![decimal_digit(n as int)]
    } else {
        decimal_digits(n / 10).push(decimal_digit((n % 10) as int))
    }
}

/// A signed number rendered as decimal text, with a leading '-' when negative.
pub open spec fn decimal_text(n: int) -> Seq<char> {
    if n < 0 {
        seq!['-'] + decimal_digits((-n) as nat)
    } else {
        decimal_digits(n as nat)
    }
}

fn digit_str(d: u64) -> (r: &'static str)
    requires
        d < 10,
    ensures
        r@ == seq![decimal_digit(d as int)],
{
    if d == 0 {
        proof {
            reveal_strlit("0");
            assert("0"@ =~= seq!['0']);
        }
        "0"
    } else if d == 1 {
        proof {
            reveal_strlit("1");
            assert("1"@ =~= seq!['1']);
        }
        "1"
    } else if d == 2 {
        proof {
            reveal_strlit("2");
            assert("2"@ =~= seq!['2']);
        }
        "2"
    } else if d == 3 {
        proof {
            reveal_strlit("3");
            assert("3"@ =~= seq!['3']);
        }
        "3"
    } else if d == 4 {
        proof {
            reveal_strlit("4");
            assert("4"@ =~= seq!['4']);
        }
        "4"
    } else if d == 5 {
        proof {
            reveal_strlit("5");
            assert("5"@ =~= seq!['5']);
        }
        "5"
    } else if d == 6 {
        proof {
            reveal_strlit("6");
            assert("6"@ =~= seq!['6']);
        }
        "6"
    } else if d == 7 {
        proof {
            reveal_strlit("7");
            assert("7"@ =~= seq!['7']);
        }
        "7"
    } else if d == 8 {
        proof {
            reveal_strlit("8");
            assert("8"@ =~= seq!['8']);
        }
        "8"
    } else {
        proof {
            reveal_strlit("9");
            assert("9"@ =~= seq!['9']);
        }
        "9"
    }
}

fn push_decimal_digits(n: u64, out: &mut String)
    ensures
        final(out)@ == old(out)@ + decimal_digits(n as nat),
    decreases n,
{
    if n >= 10 {
        push_decimal_digits(n / 10, out);
        out.append(digit_str(n % 10));
        proof {
            assert(out@ =~= old(out)@ + decimal_digits(n as nat));
        }
    } else {
        out.append(digit_str(n));
    }
}

/// A signed offset rendered as decimal text: the fallback index used when a
/// normalized episode text cannot be read as a number.
pub fn decimal_of_offset(offset: i32) -> (r: String)
    ensures
        r@ == decimal_text(offset as int),
{
    if offset < 0 {
        let mag: u64 = (-(offset as i64)) as u64;
        proof {
            assert(mag == -(offset as int));
        }
        let mut s = "-".to_owned();
        proof {
            reveal_strlit("-");
            assert(s@ =~= seq!['-']);
        }
        push_decimal_digits(mag, &mut s);
        s
    } else {
        let mut s = String::new();
        push_decimal_digits(offset as u64, &mut s);
        proof {
            assert(s@ =~= decimal_digits(offset as nat));
        }
        s
    }
}

/// The final index text for a normalized episode text under a configured
/// offset, given the outcome `shifted` of the offset arithmetic: with offset
/// zero the normalized text itself, otherwise the shifted text where the
/// arithmetic produced one, and the offset rendered as decimal text where it
/// did not.
pub open spec fn applied_index(
    normalized: Seq<char>,
    offset: int,
    shifted: Option<Seq<char>>,
) -> Seq<char> {
    if offset == 0 {
        normalized
    } else {
        match shifted {
            Some(t) => t,
            None => decimal_text(offset),
        }
    }
}

/// Turns a normalized episode text into the final index text. `shifted` is
/// the outcome of the caller's offset arithmetic on the normalized text (the
/// sum rendered as decimal text, or `None` where the text was not readable as
/// a number); it is consulted only when `offset` is nonzero.
pub fn apply_offset(normalized: &str, offset: i32, shifted: &Option<String>) -> (r: String)
    ensures
        r@ == applied_index(normalized@, offset as int, shifted.deep_view()),
        offset == 0 ==> r@ == normalized@,
{
    if offset == 0 {
        normalized.to_owned()
    } else {
        match shifted {
            Some(t) => t.clone(),
            None => decimal_of_offset(offset),
        }
    }
}

} // verus!
