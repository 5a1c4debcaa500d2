use vstd::prelude::*;
use vstd::string::StrSliceExecFns;

verus! {

/// True when the pattern `p` occurs in `s` starting at position `i`.
pub open spec fn match_at(s: Seq<char>, p: Seq<char>, i: int) -> bool {
    &&& 0 <= i
    &&& i + p.len() <= s.len()
    &&& s.subrange(i, i + p.len() as int) == p
}

/// Position of the first occurrence of `p` in `s`, if any.
pub open spec fn find_spec(s: Seq<char>, p: Seq<char>) -> Option<int>
    decreases s.len(),
{
    if p.len() > s.len() {
        None
    } else if s.subrange(0, p.len() as int) == p {
        Some(0)
    } else if s.len() == 0 {
        None
    } else {
        match find_spec(s.drop_first(), p) {
            Some(i) => Some(i + 1),
            None => None,
        }
    }
}

/// A match of `p` in the tail of `s` at `j` is a match in `s` at `j + 1`.
proof fn lemma_match_shift(s: Seq<char>, p: Seq<char>, j: int)
    requires
        s.len() > 0,
        0 <= j,
    ensures
        match_at(s.drop_first(), p, j) <==> match_at(s, p, j + 1),
{
    if 0 <= j && j + p.len() <= s.drop_first().len() {
        assert(s.drop_first().subrange(j, j + p.len() as int) =~= s.subrange(
            j + 1,
            j + 1 + p.len() as int,
        ));
    }
}

/// `find_spec` returns the first match position, and `None` only when no match exists.
pub proof fn lemma_find_spec_props(s: Seq<char>, p: Seq<char>)
    ensures
        find_spec(s, p) matches Some(i) ==> match_at(s, p, i) && forall|j: int|
            0 <= j < i ==> !match_at(s, p, j),
        find_spec(s, p) is None ==> forall|j: int| !match_at(s, p, j),
    decreases s.len(),
{
    if p.len() > s.len() {
        assert(forall|j: int| !match_at(s, p, j));
    } else if s.subrange(0, p.len() as int) == p {
    } else {
        assert(s.len() > 0) by {
            if s.len() == 0 {
                assert(s.subrange(0, p.len() as int) =~= p);
            }
        }
        lemma_find_spec_props(s.drop_first(), p);
        assert(!match_at(s, p, 0));
        match find_spec(s.drop_first(), p) {
            Some(i) => {
                lemma_match_shift(s, p, i);
                assert forall|j: int| 0 <= j < i + 1 implies !match_at(s, p, j) by {
                    if j > 0 {
                        lemma_match_shift(s, p, j - 1);
                    }
                }
            },
            None => {
                assert forall|j: int| !match_at(s, p, j) by {
                    if j > 0 {
                        lemma_match_shift(s, p, j - 1);
                    }
                }
            },
        }
    }
}

/// A first match position determines the value of `find_spec`.
pub proof fn lemma_find_spec_first(s: Seq<char>, p: Seq<char>, i: int)
    requires
        match_at(s, p, i),
        forall|j: int| 0 <= j < i ==> !match_at(s, p, j),
    ensures
        find_spec(s, p) == Some(i),
{
    lemma_find_spec_props(s, p);
    match find_spec(s, p) {
        Some(k) => {
            if k < i {
                assert(match_at(s, p, k));
            } else if k > i {
                assert(!match_at(s, p, i));
            }
        },
        None => {
            assert(!match_at(s, p, i));
        },
    }
}

/// First occurrence of the pattern `p` in `s`, scanning left to right.
pub fn find_str(s: &str, p: &str) -> (r: Option<usize>)
    ensures
        r matches Some(i) ==> find_spec(s@, p@) == Some(i as int),
        r is None ==> find_spec(s@, p@) is None,
        s@.len() <= usize::MAX,
{
    let n = s.unicode_len();
    let m = p.unicode_len();
    if m > n {
        proof {
            lemma_find_spec_props(s@, p@);
            if let Some(i) = find_spec(s@, p@) {
                assert(match_at(s@, p@, i));
            }
        }
        return None;
    }
    let limit = n - m;
    let mut i: usize = 0;
    loop
        invariant
            s@.len() == n,
            p@.len() == m,
            m <= n,
            limit == n - m,
            0 <= i <= limit,
            forall|j: int| 0 <= j < i ==> !match_at(s@, p@, j),
        ensures
            forall|j: int| 0 <= j <= limit ==> !match_at(s@, p@, j),
        decreases limit - i,
    {
        let mut k: usize = 0;
        let mut matched = true;
        while k < m && matched
            invariant
                s@.len() == n,
                p@.len() == m,
                i + m <= n,
                k <= m,
                matched ==> s@.subrange(i as int, i + k as int) =~= p@.subrange(0, k as int),
                !matched ==> !match_at(s@, p@, i as int),
            decreases m - k + (if matched {
                1int
            } else {
                0int
            }),
        {
            if s.get_char(i + k) != p.get_char(k) {
                proof {
                    if match_at(s@, p@, i as int) {
                        assert(s@.subrange(i as int, i + m as int)[k as int] == p@[k as int]);
                    }
                }
                matched = false;
            } else {
                proof {
                    assert(s@.subrange(i as int, i + (k + 1) as int) =~= s@.subrange(
                        i as int,
                        i + k as int,
                    ).push(s@[i + k]));
                    assert(p@.subrange(0, (k + 1) as int) =~= p@.subrange(0, k as int).push(
                        p@[k as int],
                    ));
                }
                k = k + 1;
            }
        }
        if matched {
            proof {
                assert(s@.subrange(i as int, i + m as int) =~= p@.subrange(0, m as int));
                assert(p@.subrange(0, m as int) =~= p@);
                lemma_find_spec_first(s@, p@, i as int);
            }
            return Some(i);
        }
        if i == limit {
            break;
        }
        i = i + 1;
    }
    proof {
        lemma_find_spec_props(s@, p@);
        if let Some(j) = find_spec(s@, p@) {
            assert(match_at(s@, p@, j));
            assert(j <= limit);
        }
    }
    None
}

/// The characters of `s` from position `start` on; empty when `start` is past the end.
pub open spec fn chars_from(s: Seq<char>, start: int) -> Seq<char> {
    if 0 <= start <= s.len() {
        s.subrange(start, s.len() as int)
    } else {
        Seq::empty()
    }
}

/// At most `count` characters of `s` starting at position `start`.
pub open spec fn chars_between(s: Seq<char>, start: int, count: int) -> Seq<char> {
    chars_from(s, start).take(
        if count <= chars_from(s, start).len() {
            count
        } else {
            chars_from(s, start).len() as int
        },
    )
}

/// The prefix of `s` that precedes the first occurrence of `stop` (all of `s` if absent).
pub open spec fn take_until(s: Seq<char>, stop: char) -> Seq<char>
    decreases s.len(),
{
    if s.len() == 0 {
        s
    } else if s[0] == stop {
        Seq::empty()
    } else {
        seq![s[0]] + take_until(s.drop_first(), stop)
    }
}

/// `take_until` yields the prefix up to the first position holding `stop`.
pub proof fn lemma_take_until(s: Seq<char>, stop: char, i: int)
    requires
        0 <= i <= s.len(),
        forall|j: int| 0 <= j < i ==> s[j] != stop,
        i < s.len() ==> s[i] == stop,
    ensures
        take_until(s, stop) == s.take(i),
    decreases s.len(),
{
    if s.len() == 0 {
        assert(take_until(s, stop) =~= s.take(i));
    } else if s[0] == stop {
        assert(take_until(s, stop) =~= s.take(i));
    } else {
        lemma_take_until(s.drop_first(), stop, i - 1);
        assert(take_until(s, stop) =~= s.take(i));
    }
}

/// Collects at most `count` characters after skipping the first `start` ones.
pub fn get_string_between(str: &str, start: usize, count: usize) -> (r: String)
    ensures
        r@ == chars_between(str@, start as int, count as int),
{
    let n = str.unicode_len();
    let lo = if start <= n {
        start
    } else {
        n
    };
    let hi = if count <= n - lo {
        lo + count
    } else {
        n
    };
    let r = str.substring_char(lo, hi).to_owned();
    proof {
        assert(r@ =~= chars_between(str@, start as int, count as int));
    }
    r
}

/// Collects the characters after the first `start` ones, up to (excluding) `char`.
pub fn get_string_until(str: &str, start: usize, char: char) -> (r: String)
    ensures
        r@ == take_until(chars_from(str@, start as int), char),
{
    let n = str.unicode_len();
    let lo = if start <= n {
        start
    } else {
        n
    };
    let mut i: usize = lo;
    while i < n && str.get_char(i) != char
        invariant
            str@.len() == n,
            lo <= i <= n,
            forall|j: int| lo <= j < i ==> str@[j] != char,
        decreases n - i,
    {
        i = i + 1;
    }
    let r = str.substring_char(lo, i).to_owned();
    proof {
        lemma_take_until(chars_from(str@, lo as int), char, i - lo);
        assert(chars_from(str@, lo as int).take(i - lo) =~= str@.subrange(lo as int, i as int));
        if start > n {
            assert(chars_from(str@, start as int) =~= chars_from(str@, lo as int));
        }
    }
    r
}

/// True for the ten ASCII decimal digit characters.
pub open spec fn is_digit(c: char) -> bool {
    '0' <= c && c <= '9'
}

/// Numeric value of one digit character.
pub open spec fn digit_val(c: char) -> int {
    (c as int) - ('0' as int)
}

/// Value of a sequence of digit characters read as a decimal number.
pub open spec fn dec_val(s: Seq<char>) -> int
    decreases s.len(),
{
    if s.len() == 0 {
        0
    } else {
        dec_val(s.drop_last()) * 10 + digit_val(s.last())
    }
}

/// Powers of ten.
pub open spec fn pow10(n: nat) -> int
    decreases n,
{
    if n == 0 {
        1
    } else {
        10 * pow10((n - 1) as nat)
    }
}

/// A digit string's value lies below ten to the power of its length.
pub proof fn lemma_dec_val_bound(s: Seq<char>)
    requires
        forall|i: int| 0 <= i < s.len() ==> is_digit(#[trigger] s[i]),
    ensures
        0 <= dec_val(s) < pow10(s.len()),
    decreases s.len(),
{
    if s.len() > 0 {
        lemma_dec_val_bound(s.drop_last());
    }
}

/// The four-character log-type field parsed as a number, when well formed.
pub open spec fn spec_parse_code(s: Seq<char>) -> Option<u16> {
    if s.len() == 4 && (forall|i: int| 0 <= i < 4 ==> is_digit(#[trigger] s[i])) {
        Some(dec_val(s) as u16)
    } else {
        None
    }
}

/// Parses a string of exactly four decimal digits.
pub fn parse_code(s: &str) -> (r: Option<u16>)
    ensures
        r == spec_parse_code(s@),
{
    if s.unicode_len() != 4 {
        return None;
    }
    proof {
        assert(pow10(0) == 1);
        assert(pow10(1) == 10);
        assert(pow10(2) == 100);
        assert(pow10(3) == 1000);
        assert(pow10(4) == 10000);
    }
    let mut acc: u16 = 0;
    let mut i: usize = 0;
    while i < 4
        invariant
            s@.len() == 4,
            0 <= i <= 4,
            forall|j: int| 0 <= j < i ==> is_digit(#[trigger] s@[j]),
            acc == dec_val(s@.take(i as int)),
            acc < pow10(i as nat),
            pow10(4) == 10000 && pow10(3) == 1000 && pow10(2) == 100 && pow10(1) == 10 && pow10(
                0,
            ) == 1,
        decreases 4 - i,
    {
        let c = s.get_char(i);
        if c < '0' || c > '9' {
            return None;
        }
        let d: u16 = (c as u8 - '0' as u8) as u16;
        proof {
            assert(s@.take(i + 1).drop_last() =~= s@.take(i as int));
            assert(s@.take(i + 1).last() == s@[i as int]);
            lemma_dec_val_bound(s@.take(i + 1));
        }
        acc = acc * 10 + d;
        i = i + 1;
    }
    proof {
        assert(s@.take(4) =~= s@);
    }
    Some(acc)
}

} // verus!
