use vstd::prelude::*;

verus! {

pub open spec fn is_digit(c: char) -> bool {
    ('0' as u32) <= (c as u32) && (c as u32) <= ('9' as u32)
}

pub open spec fn digit_value(c: char) -> nat {
    if is_digit(c) {
        ((c as u32) - ('0' as u32)) as nat
    } else {
        0
    }
}

pub open spec fn all_digits(s: Seq<char>) -> bool {
    forall|i: int| 0 <= i < s.len() ==> is_digit(#[trigger] s[i])
}

/// The number that a string of decimal digits denotes.
pub open spec fn digits_value(s: Seq<char>) -> nat
    decreases s.len(),
{
    if s.len() == 0 {
        0
    } else {
        digits_value(s.drop_last()) * 10 + digit_value(s.last())
    }
}

/// The digits of an unsigned literal: one leading `+` is allowed.
pub open spec fn unsigned_digits(s: Seq<char>) -> Seq<char> {
    if s.len() > 0 && s[0] == '+' {
        s.drop_first()
    } else {
        s
    }
}

/// An unsigned decimal literal no greater than `max`: an optional `+` and at
/// least one digit, nothing else.
pub open spec fn parsed_unsigned(s: Seq<char>, max: nat) -> Option<nat> {
    let d = unsigned_digits(s);
    if d.len() > 0 && all_digits(d) && digits_value(d) <= max {
        Some(digits_value(d))
    } else {
        None
    }
}

proof fn lemma_digits_value_grows(s: Seq<char>, k: int)
    requires
        0 <= k <= s.len(),
    ensures
        digits_value(s.take(k)) <= digits_value(s),
    decreases s.len() - k,
{
    if k < s.len() {
        lemma_digits_value_grows(s, k + 1);
        assert(s.take(k + 1).drop_last() =~= s.take(k));
    } else {
        assert(s.take(k) =~= s);
    }
}

/// Reads an unsigned decimal literal no greater than `max`.
pub fn parse_unsigned(s: &str, max: usize) -> (r: Option<usize>)
    ensures
        r matches Some(v) ==> parsed_unsigned(s@, max as nat) == Some(v as nat),
        r is None ==> parsed_unsigned(s@, max as nat) is None,
{
    let n = s.unicode_len();
    let start: usize = if n > 0 && s.get_char(0) == '+' { 1 } else { 0 };
    let ghost d = unsigned_digits(s@);
    assert(d =~= s@.subrange(start as int, n as int));
    if start == n {
        return None;
    }
    let mut value: usize = 0;
    let mut i: usize = start;
    while i < n
        invariant
            start <= i <= n,
            n == s@.len(),
            d == s@.subrange(start as int, n as int),
            d == unsigned_digits(s@),
            all_digits(d.take(i - start)),
            value as nat == digits_value(d.take(i - start)),
            value <= max,
        decreases n - i,
    {
        let c = s.get_char(i);
        let ghost j = i - start;
        assert(d.take(j + 1).drop_last() =~= d.take(j));
        assert(d.take(j + 1).last() == c);
        assert(d[j] == c);
        if !('0' <= c && c <= '9') {
            assert(!is_digit(d[j]));
            assert(!all_digits(d));
            return None;
        }
        assert(is_digit(c));
        let dv = (c as u32 - '0' as u32) as usize;
        assert(digits_value(d.take(j + 1)) == value * 10 + dv);
        let next = match value.checked_mul(10) {
            Some(t) => t.checked_add(dv),
            None => None,
        };
        match next {
            Some(v) if v <= max => {
                assert(all_digits(d.take(j + 1)));
                value = v;
            },
            _ => {
                proof {
                    assert(digits_value(d.take(j + 1)) > max);
                    if all_digits(d) {
                        lemma_digits_value_grows(d, j + 1);
                    }
                }
                return None;
            },
        }
        i = i + 1;
    }
    assert(d.take(n - start) =~= d);
    Some(value)
}

/// The command word of a chat bet.
pub open spec fn bet_keyword() -> Seq<char> {
    seq!['!', 'b', 'e', 't']
}

/// Whether `w` is exactly the bet command word.
pub fn is_bet_keyword(w: &str) -> (r: bool)
    ensures
        r == (w@ == bet_keyword()),
{
    if w.unicode_len() != 4 {
        return false;
    }
    let r = w.get_char(0) == '!' && w.get_char(1) == 'b' && w.get_char(2) == 'e' && w.get_char(3) == 't';
    if r {
        assert(w@ =~= bet_keyword());
    }
    r
}

/// A character with the Unicode White_Space property, as `char::is_whitespace`
/// tests it.
pub open spec fn is_white_space(c: char) -> bool {
    let u = c as u32;
    ||| 0x09 <= u <= 0x0D
    ||| u == 0x20
    ||| u == 0x85
    ||| u == 0xA0
    ||| u == 0x1680
    ||| 0x2000 <= u <= 0x200A
    ||| u == 0x2028
    ||| u == 0x2029
    ||| u == 0x202F
    ||| u == 0x205F
    ||| u == 0x3000
}

/// The maximal runs of non-white-space characters of `s`, in order, where
/// `cur` is the run read so far.
pub open spec fn words_from(s: Seq<char>, cur: Seq<char>) -> Seq<Seq<char>>
    decreases s.len(),
{
    if s.len() == 0 {
        if cur.len() == 0 {
            Seq::empty()
        } else {
            seq![cur]
        }
    } else if is_white_space(s[0]) {
        let rest = words_from(s.drop_first(), Seq::empty());
        if cur.len() == 0 {
            rest
        } else {
            seq![cur] + rest
        }
    } else {
        words_from(s.drop_first(), cur.push(s[0]))
    }
}

/// The words of a text: its maximal runs of characters that are not white
/// space, in order.
pub open spec fn words_of(s: Seq<char>) -> Seq<Seq<char>> {
    words_from(s, Seq::empty())
}

pub open spec fn words_view(v: Seq<String>) -> Seq<Seq<char>> {
    v.map_values(|w: String| w@)
}

/// Relies on `str::split_whitespace`: the non-empty runs of `s` between
/// characters with the Unicode White_Space property, in order.
#[verifier::external_body]
pub(crate) fn split_words(s: &str) -> (r: Vec<String>)
    ensures
        words_view(r@) == words_of(s@),
{
    s.split_whitespace().map(|w| w.to_string()).collect()
}

} // verus!
