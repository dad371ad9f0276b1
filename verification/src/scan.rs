//! Character-level scanning helpers shared by the configuration parsers:
//! decimal digit strings, whitespace skipping, token extraction, and
//! trailing-whitespace trimming, all specified over `Seq<char>`.

use vstd::prelude::*;

verus! {

/// Whitespace as the crontab grammar understands it: space or tab.
pub open spec fn is_ws_char(c: char) -> bool {
    c == ' ' || c == '\t'
}

/// An ASCII decimal digit.
pub open spec fn is_digit_char(c: char) -> bool {
    48 <= c as int && c as int <= 57
}

/// The numeric value of a digit character.
pub open spec fn digit_val(c: char) -> int {
    c as int - 48
}

/// Every character of `s` is a decimal digit.
pub open spec fn all_digits(s: Seq<char>) -> bool {
    forall|i: int| 0 <= i < s.len() ==> is_digit_char(s[i])
}

/// The value of a decimal digit string, most significant digit first.
pub open spec fn digits_value(s: Seq<char>) -> int
    decreases s.len(),
{
    if s.len() == 0 {
        0
    } else {
        digits_value(s.drop_last()) * 10 + digit_val(s.last())
    }
}

/// A digit string that `u8`-style parsing accepts: non-empty, all
/// digits, value at most 255.
pub open spec fn is_u8_digits(s: Seq<char>) -> bool {
    s.len() >= 1 && all_digits(s) && digits_value(s) <= 255
}

pub proof fn lemma_digits_value_nonneg(s: Seq<char>)
    requires
        all_digits(s),
    ensures
        digits_value(s) >= 0,
    decreases s.len(),
{
    if s.len() > 0 {
        assert(forall|i: int| 0 <= i < s.drop_last().len() ==> is_digit_char(s.drop_last()[i]));
        lemma_digits_value_nonneg(s.drop_last());
        assert(is_digit_char(s.last()));
    }
}

/// A prefix of a digit string is worth no more than the whole string.
pub proof fn lemma_digits_value_take_le(s: Seq<char>, i: int)
    requires
        all_digits(s),
        0 <= i <= s.len(),
    ensures
        digits_value(s.take(i)) <= digits_value(s),
    decreases s.len() - i,
{
    if i == s.len() {
        assert(s.take(i) =~= s);
    } else {
        lemma_digits_value_take_le(s, i + 1);
        assert(s.take(i + 1).drop_last() =~= s.take(i));
        assert(s.take(i + 1).last() == s[i]);
        assert(forall|j: int| 0 <= j < s.take(i).len() ==> is_digit_char(s.take(i)[j]));
        lemma_digits_value_nonneg(s.take(i));
        assert(digits_value(s.take(i + 1)) == digits_value(s.take(i)) * 10 + digit_val(s[i]));
        assert(digit_val(s[i]) >= 0);
        assert(digits_value(s.take(i)) * 10 >= digits_value(s.take(i)));
    }
}

/// Parse the character range `[from, to)` of `s` as an unsigned decimal
/// number of at most 255, exactly as `u8` parsing would.
pub fn parse_u8_range(s: &str, from: usize, to: usize) -> (r: Option<u8>)
    requires
        from <= to <= s@.len(),
    ensures
        (match r {
            Some(n) => is_u8_digits(s@.subrange(from as int, to as int)) && n as int
                == digits_value(s@.subrange(from as int, to as int)),
            None => !is_u8_digits(s@.subrange(from as int, to as int)),
        }),
{
    if from == to {
        return None;
    }
    let mut acc: u32 = 0;
    let mut i: usize = from;
    while i < to
        invariant
            from <= i <= to <= s@.len(),
            acc <= 255,
            all_digits(s@.subrange(from as int, i as int)),
            acc as int == digits_value(s@.subrange(from as int, i as int)),
        decreases to - i,
    {
        let c = s.get_char(i);
        let u = c as u32;
        if u < 48 || u > 57 {
            assert(s@.subrange(from as int, to as int)[i - from] == s@[i as int]);
            return None;
        }
        assert(is_digit_char(s@[i as int]));
        proof {
            assert(s@.subrange(from as int, i + 1).drop_last() =~= s@.subrange(
                from as int,
                i as int,
            ));
            assert(s@.subrange(from as int, i + 1).last() == s@[i as int]);
            assert(forall|j: int|
                0 <= j < i + 1 - from ==> is_digit_char(
                    #[trigger] s@.subrange(from as int, i + 1)[j],
                ));
        }
        acc = acc * 10 + (u - 48);
        assert(acc as int == digits_value(s@.subrange(from as int, i + 1)));
        if acc > 255 {
            proof {
                let d = s@.subrange(from as int, to as int);
                if all_digits(d) {
                    assert(d.take(i + 1 - from) =~= s@.subrange(from as int, i + 1));
                    lemma_digits_value_take_le(d, i + 1 - from);
                }
            }
            return None;
        }
        i = i + 1;
    }
    assert(s@.subrange(from as int, to as int).len() >= 1);
    Some(acc as u8)
}

/// `s` with leading whitespace removed.
pub open spec fn skip_ws(s: Seq<char>) -> Seq<char>
    decreases s.len(),
{
    if s.len() > 0 && is_ws_char(s[0]) {
        skip_ws(s.drop_first())
    } else {
        s
    }
}

/// `s` with its leading run of non-whitespace removed.
pub open spec fn skip_token(s: Seq<char>) -> Seq<char>
    decreases s.len(),
{
    if s.len() > 0 && !is_ws_char(s[0]) {
        skip_token(s.drop_first())
    } else {
        s
    }
}

/// The leading run of non-whitespace of `s`.
pub open spec fn first_token(s: Seq<char>) -> Seq<char>
    decreases s.len(),
{
    if s.len() > 0 && !is_ws_char(s[0]) {
        seq![s[0]] + first_token(s.drop_first())
    } else {
        Seq::empty()
    }
}

/// `s` with trailing whitespace removed.
pub open spec fn trim_end(s: Seq<char>) -> Seq<char>
    decreases s.len(),
{
    if s.len() > 0 && is_ws_char(s.last()) {
        trim_end(s.drop_last())
    } else {
        s
    }
}

/// What remains of `s` after skipping leading whitespace and then `n`
/// whitespace-separated tokens, each with the whitespace that follows it.
pub open spec fn after_fields(s: Seq<char>, n: nat) -> Seq<char>
    decreases n,
{
    if n == 0 {
        skip_ws(s)
    } else {
        skip_ws(skip_token(after_fields(s, (n - 1) as nat)))
    }
}

/// The `n`-th whitespace-separated token of `s`, counting from zero;
/// empty if `s` has no such token.
pub open spec fn field_at(s: Seq<char>, n: nat) -> Seq<char> {
    first_token(after_fields(s, n))
}

/// Length of the leading run of `s` up to (not including) the first
/// occurrence of the separator `sep`.
pub open spec fn piece_len(s: Seq<char>, sep: char) -> nat
    decreases s.len(),
{
    if s.len() == 0 {
        0
    } else if s[0] == sep {
        0
    } else {
        1 + piece_len(s.drop_first(), sep)
    }
}

/// `s` split on the separator `sep`; a leading, trailing or doubled
/// separator yields an empty piece, as `str::split` would.
pub open spec fn split_on(s: Seq<char>, sep: char) -> Seq<Seq<char>>
    decreases s.len(),
{
    let k = piece_len(s, sep) as int;
    if k >= s.len() {
        seq![s]
    } else {
        seq![s.take(k)] + split_on(s.skip(k + 1), sep)
    }
}

pub proof fn lemma_piece_len_spec(s: Seq<char>, sep: char)
    ensures
        piece_len(s, sep) <= s.len(),
        piece_len(s, sep) < s.len() ==> s[piece_len(s, sep) as int] == sep,
        forall|i: int| 0 <= i < piece_len(s, sep) ==> s[i] != sep,
    decreases s.len(),
{
    if s.len() > 0 && s[0] != sep {
        lemma_piece_len_spec(s.drop_first(), sep);
        assert(forall|i: int|
            1 <= i < piece_len(s, sep) ==> s[i] == s.drop_first()[i - 1] && s.drop_first()[i - 1]
                != sep);
    }
}

/// Index of the first `sep` at or after `from`, or the end of `s`.
pub fn piece_end_at(s: &str, from: usize, sep: char) -> (r: usize)
    requires
        from <= s@.len(),
    ensures
        from <= r <= s@.len(),
        r - from == piece_len(s@.skip(from as int), sep),
        r < s@.len() ==> s@[r as int] == sep,
{
    let len = s.unicode_len();
    let mut i: usize = from;
    while i < len
        invariant
            from <= i <= len,
            len == s@.len(),
            piece_len(s@.skip(from as int), sep) == (i - from) + piece_len(s@.skip(i as int), sep),
        decreases len - i,
    {
        let c = s.get_char(i);
        assert(s@.skip(i as int)[0] == s@[i as int]);
        if c == sep {
            assert(piece_len(s@.skip(i as int), sep) == 0);
            return i;
        }
        proof {
            assert(s@.skip(i as int).drop_first() =~= s@.skip(i + 1));
        }
        i = i + 1;
    }
    assert(s@.skip(len as int) =~= Seq::<char>::empty());
    i
}

/// Index of the first non-whitespace character at or after `from`.
pub fn skip_ws_at(s: &str, from: usize) -> (r: usize)
    requires
        from <= s@.len(),
    ensures
        from <= r <= s@.len(),
        skip_ws(s@.skip(from as int)) == s@.skip(r as int),
        r < s@.len() ==> !is_ws_char(s@[r as int]),
{
    let len = s.unicode_len();
    let mut i: usize = from;
    while i < len
        invariant
            from <= i <= len,
            len == s@.len(),
            skip_ws(s@.skip(from as int)) == skip_ws(s@.skip(i as int)),
        decreases len - i,
    {
        let c = s.get_char(i);
        if !(c == ' ' || c == '\t') {
            assert(skip_ws(s@.skip(i as int)) == s@.skip(i as int));
            return i;
        }
        proof {
            assert(s@.skip(i as int).drop_first() =~= s@.skip(i + 1));
        }
        i = i + 1;
    }
    assert(s@.skip(len as int) =~= Seq::<char>::empty());
    i
}

/// Index just past the token that starts at `from`.
pub fn skip_token_at(s: &str, from: usize) -> (r: usize)
    requires
        from <= s@.len(),
    ensures
        from <= r <= s@.len(),
        skip_token(s@.skip(from as int)) == s@.skip(r as int),
        first_token(s@.skip(from as int)) == s@.subrange(from as int, r as int),
        r < s@.len() ==> is_ws_char(s@[r as int]),
{
    let len = s.unicode_len();
    let mut i: usize = from;
    while i < len
        invariant
            from <= i <= len,
            len == s@.len(),
            skip_token(s@.skip(from as int)) == skip_token(s@.skip(i as int)),
            first_token(s@.skip(from as int)) == s@.subrange(from as int, i as int) + first_token(
                s@.skip(i as int),
            ),
        decreases len - i,
    {
        let c = s.get_char(i);
        if c == ' ' || c == '\t' {
            assert(skip_token(s@.skip(i as int)) == s@.skip(i as int));
            assert(first_token(s@.skip(i as int)) =~= Seq::<char>::empty());
            assert(first_token(s@.skip(from as int)) =~= s@.subrange(from as int, i as int));
            return i;
        }
        proof {
            assert(s@.skip(i as int).drop_first() =~= s@.skip(i + 1));
            assert(s@.skip(i as int)[0] == s@[i as int]);
            assert(s@.subrange(from as int, i as int) + seq![s@[i as int]] =~= s@.subrange(
                from as int,
                i + 1,
            ));
            assert(first_token(s@.skip(i as int)) == seq![s@[i as int]] + first_token(
                s@.skip(i + 1),
            ));
            assert(s@.subrange(from as int, i as int) + (seq![s@[i as int]] + first_token(
                s@.skip(i + 1),
            )) =~= s@.subrange(from as int, i + 1) + first_token(s@.skip(i + 1)));
        }
        i = i + 1;
    }
    proof {
        assert(s@.skip(len as int) =~= Seq::<char>::empty());
        assert(first_token(s@.skip(from as int)) =~= s@.subrange(from as int, len as int));
    }
    i
}

/// Index just past the last non-whitespace character in `[from, len)`.
pub fn trim_end_at(s: &str, from: usize) -> (r: usize)
    requires
        from <= s@.len(),
    ensures
        from <= r <= s@.len(),
        trim_end(s@.skip(from as int)) == s@.subrange(from as int, r as int),
{
    let len = s.unicode_len();
    let mut j: usize = len;
    proof {
        assert(s@.skip(from as int) =~= s@.subrange(from as int, len as int));
    }
    while j > from
        invariant
            from <= j <= len,
            len == s@.len(),
            trim_end(s@.skip(from as int)) == trim_end(s@.subrange(from as int, j as int)),
        decreases j,
    {
        let c = s.get_char(j - 1);
        if !(c == ' ' || c == '\t') {
            assert(s@.subrange(from as int, j as int).last() == s@[j - 1]);
            assert(trim_end(s@.subrange(from as int, j as int)) == s@.subrange(
                from as int,
                j as int,
            ));
            return j;
        }
        proof {
            assert(s@.subrange(from as int, j as int).last() == s@[j - 1]);
            assert(s@.subrange(from as int, j as int).drop_last() =~= s@.subrange(
                from as int,
                j - 1,
            ));
        }
        j = j - 1;
    }
    assert(s@.subrange(from as int, from as int) =~= Seq::<char>::empty());
    j
}

} // verus!
