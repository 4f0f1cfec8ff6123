//! Parsing of user-supplied channel and role mentions into identifiers.
//!
//! A channel mention is `<#id>` and a role mention `<@&id>`; both commands
//! also accept a bare identifier. The parsers work on the text's bytes and
//! accept exactly a non-empty run of decimal digits whose value fits in
//! `u64`.

use vstd::prelude::*;

verus! {

/// Whether the byte is a decimal digit.
pub open spec fn is_digit(b: u8) -> bool {
    48 <= b <= 57
}

/// Whether the text is a non-empty run of decimal digits.
pub open spec fn all_digits(s: Seq<u8>) -> bool {
    s.len() > 0 && forall|i: int| 0 <= i < s.len() ==> is_digit(#[trigger] s[i])
}

/// The number a run of decimal digits denotes.
pub open spec fn digits_val(s: Seq<u8>) -> int
    decreases s.len(),
{
    if s.len() == 0 {
        0
    } else {
        digits_val(s.drop_last()) * 10 + (s.last() - 48)
    }
}

/// What parsing an identifier returns: the denoted number, when the text is
/// a non-empty digit run whose value fits in `u64`.
pub open spec fn spec_parse_id(s: Seq<u8>) -> Option<u64> {
    if all_digits(s) && digits_val(s) <= u64::MAX {
        Some(digits_val(s) as u64)
    } else {
        None
    }
}

/// The identifier text a mention wraps: the text without the mention's
/// opening tag and closing `>`, or the whole text when it is not a mention.
pub open spec fn mention_body(s: Seq<u8>, tag: Seq<u8>) -> Seq<u8> {
    if s.len() > tag.len() + 1 && s.take(tag.len() as int) == tag && s.last() == 62 {
        s.subrange(tag.len() as int, s.len() - 1)
    } else {
        s
    }
}

proof fn lemma_digits_val_nonneg(s: Seq<u8>)
    requires
        forall|i: int| 0 <= i < s.len() ==> is_digit(#[trigger] s[i]),
    ensures
        digits_val(s) >= 0,
    decreases s.len(),
{
    if s.len() > 0 {
        assert(forall|i: int|
            0 <= i < s.drop_last().len() ==> is_digit(#[trigger] s.drop_last()[i]));
        lemma_digits_val_nonneg(s.drop_last());
    }
}

/// A digit run denotes at least what any of its prefixes denotes.
proof fn lemma_digits_val_prefix(s: Seq<u8>, j: int)
    requires
        forall|i: int| 0 <= i < s.len() ==> is_digit(#[trigger] s[i]),
        0 <= j <= s.len(),
    ensures
        digits_val(s) >= digits_val(s.take(j)),
    decreases s.len() - j,
{
    if j < s.len() {
        lemma_digits_val_prefix(s, j + 1);
        assert(s.take(j + 1).drop_last() =~= s.take(j));
        assert(forall|i: int| 0 <= i < s.take(j).len() ==> is_digit(#[trigger] s.take(j)[i]));
        lemma_digits_val_nonneg(s.take(j));
        assert(digits_val(s.take(j + 1)) == digits_val(s.take(j)) * 10 + (s[j] - 48));
    } else {
        assert(s.take(j) =~= s);
    }
}

/// Parses the digit run in `s[lo..hi]` into an identifier.
#[verifier::loop_isolation(false)]
fn parse_digits(s: &[u8], lo: usize, hi: usize) -> (r: Option<u64>)
    requires
        lo <= hi <= s.len(),
    ensures
        r == spec_parse_id(s@.subrange(lo as int, hi as int)),
{
    let ghost t = s@.subrange(lo as int, hi as int);
    if lo == hi {
        return None;
    }
    let mut value: u64 = 0;
    let mut i: usize = lo;
    while i < hi
        invariant
            lo <= i <= hi,
            forall|j: int| 0 <= j < i - lo ==> is_digit(#[trigger] t[j]),
            value == digits_val(t.take(i - lo)),
        decreases hi - i,
    {
        let b = s[i];
        if b < 48 || b > 57 {
            proof {
                assert(t[i - lo] == b);
                assert(!all_digits(t));
            }
            return None;
        }
        let d = (b - 48) as u64;
        proof {
            assert(t.take(i - lo + 1).drop_last() =~= t.take(i - lo));
            assert(digits_val(t.take(i - lo + 1)) == digits_val(t.take(i - lo)) * 10 + (t[i - lo]
                - 48));
        }
        let next = match value.checked_mul(10) {
            Some(m) => m.checked_add(d),
            None => None,
        };
        match next {
            Some(n) => {
                value = n;
            },
            None => {
                proof {
                    if all_digits(t) {
                        lemma_digits_val_prefix(t, i - lo + 1);
                    }
                }
                return None;
            },
        }
        i += 1;
    }
    proof {
        assert(t.take(hi - lo) =~= t);
    }
    Some(value)
}

/// Parses a channel mention (`<#id>`) or a bare channel identifier, as the
/// channel-configuration commands accept them.
pub fn parse_channel_mention(s: &[u8]) -> (r: Option<u64>)
    ensures
        r == spec_parse_id(mention_body(s@, seq![60u8, 35u8])),
{
    let ghost tag = seq![60u8, 35u8];
    if s.len() > 3 && s[0] == 60 && s[1] == 35 && s[s.len() - 1] == 62 {
        proof {
            assert(s@.take(2) =~= tag);
        }
        parse_digits(s, 2, s.len() - 1)
    } else {
        proof {
            if s@.len() > tag.len() + 1 && s@.take(2) == tag {
                assert(s@[0] == 60 && s@[1] == 35);
            }
            assert(s@.subrange(0, s@.len() as int) =~= s@);
        }
        parse_digits(s, 0, s.len())
    }
}

/// Parses a role mention (`<@&id>`) or a bare role identifier, as the
/// mute-role command accepts them.
pub fn parse_role_mention(s: &[u8]) -> (r: Option<u64>)
    ensures
        r == spec_parse_id(mention_body(s@, seq![60u8, 64u8, 38u8])),
{
    let ghost tag = seq![60u8, 64u8, 38u8];
    if s.len() > 4 && s[0] == 60 && s[1] == 64 && s[2] == 38 && s[s.len() - 1] == 62 {
        proof {
            assert(s@.take(3) =~= tag);
        }
        parse_digits(s, 3, s.len() - 1)
    } else {
        proof {
            if s@.len() > tag.len() + 1 && s@.take(3) == tag {
                assert(s@[0] == 60 && s@[1] == 64 && s@[2] == 38);
            }
            assert(s@.subrange(0, s@.len() as int) =~= s@);
        }
        parse_digits(s, 0, s.len())
    }
}

} // verus!
