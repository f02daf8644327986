//! Decimal notation of numbers as verified strings.

use vstd::prelude::*;

verus! {

use vstd::string::StringExecFns;
use vstd::string::StrSliceExecFns;

/// The character of one decimal digit.
pub open spec fn dec_digit_char(d: int) -> char {
    if d == 0 {
        '0'
    } else if d == 1 {
        '1'
    } else if d == 2 {
        '2'
    } else if d == 3 {
        '3'
    } else if d == 4 {
        '4'
    } else if d == 5 {
        '5'
    } else if d == 6 {
        '6'
    } else if d == 7 {
        '7'
    } else if d == 8 {
        '8'
    } else {
        '9'
    }
}

/// The decimal digits of a nonnegative number, most significant first.
pub open spec fn dec_digits(n: int) -> Seq<char>
    decreases n,
{
    if n < 10 {
        seq![dec_digit_char(n)]
    } else {
        dec_digits(n / 10).push(dec_digit_char(n % 10))
    }
}

/// The decimal notation of a number.
pub fn u128_dec_string(n: u128) -> (r: String)
    ensures
        r@ == dec_digits(n as int),
    decreases n,
{
    let d = n % 10;
    let ds: &str = match d {
        0 => "0",
        1 => "1",
        2 => "2",
        3 => "3",
        4 => "4",
        5 => "5",
        6 => "6",
        7 => "7",
        8 => "8",
        9 => "9",
        _ => vstd::pervasive::unreached(),
    };
    proof {
        reveal_strlit("0");
        reveal_strlit("1");
        reveal_strlit("2");
        reveal_strlit("3");
        reveal_strlit("4");
        reveal_strlit("5");
        reveal_strlit("6");
        reveal_strlit("7");
        reveal_strlit("8");
        reveal_strlit("9");
        assert(ds@ =~= seq![dec_digit_char(d as int)]);
    }
    if n < 10 {
        ds.to_owned()
    } else {
        proof {
            vstd::arithmetic::div_mod::lemma_div_is_strictly_smaller(n as int, 10);
        }
        let s = u128_dec_string(n / 10);
        let r = s.concat(ds);
        proof {
            assert(r@ =~= dec_digits(n as int));
        }
        r
    }
}

/// The index of the first occurrence of a character, or `-1`.
pub open spec fn find_char(s: Seq<char>, c: char) -> int
    decreases s.len(),
{
    if s.len() == 0 {
        -1
    } else if s[0] == c {
        0
    } else {
        let r = find_char(s.drop_first(), c);
        if r < 0 {
            -1
        } else {
            r + 1
        }
    }
}

/// `find_char` returns the first matching index, or `-1` when nothing matches.
pub proof fn lemma_find_char(s: Seq<char>, c: char)
    ensures
        ({
            let i = find_char(s, c);
            &&& -1 <= i < s.len()
            &&& i >= 0 ==> s[i] == c && (forall|k: int| 0 <= k < i ==> s[k] != c)
            &&& i == -1 ==> forall|k: int| 0 <= k < s.len() ==> s[k] != c
        }),
    decreases s.len(),
{
    if s.len() > 0 && s[0] != c {
        lemma_find_char(s.drop_first(), c);
        let rest = s.drop_first();
        assert(forall|k: int| 0 <= k < rest.len() ==> rest[k] == s[k + 1]);
        let r = find_char(rest, c);
        if r >= 0 {
            assert(s[r + 1] == rest[r]);
            assert(forall|k: int| 1 <= k < r + 1 ==> s[k] == rest[k - 1] && rest[k - 1] != c);
        } else {
            assert(forall|k: int| 1 <= k < s.len() ==> s[k] == rest[k - 1] && rest[k - 1] != c);
        }
    }
}

/// A position holding the character, with none before it, is where
/// `find_char` points.
pub proof fn lemma_find_char_is_first(s: Seq<char>, c: char, j: int)
    requires
        0 <= j < s.len(),
        s[j] == c,
        forall|k: int| 0 <= k < j ==> s[k] != c,
    ensures
        find_char(s, c) == j,
{
    lemma_find_char(s, c);
}

/// How many occurrences of a character a sequence holds.
pub open spec fn count_char(s: Seq<char>, c: char) -> int
    decreases s.len(),
{
    if s.len() == 0 {
        0
    } else {
        (if s[0] == c {
            1int
        } else {
            0int
        }) + count_char(s.drop_first(), c)
    }
}

/// Appending one character raises the count by its own occurrences.
pub proof fn lemma_count_char_push(s: Seq<char>, c: char, x: char)
    ensures
        count_char(s.push(x), c) == count_char(s, c) + (if x == c {
            1int
        } else {
            0int
        }),
    decreases s.len(),
{
    if s.len() == 0 {
        assert(s.push(x)[0] == x);
        assert(s.push(x).drop_first() =~= Seq::<char>::empty());
        assert(count_char(s.push(x), c) == (if x == c {
            1int
        } else {
            0int
        }) + count_char(Seq::<char>::empty(), c));
        assert(count_char(Seq::<char>::empty(), c) == 0);
        assert(count_char(s, c) == 0);
    } else {
        assert(s.push(x)[0] == s[0]);
        assert(s.push(x).drop_first() =~= s.drop_first().push(x));
        lemma_count_char_push(s.drop_first(), c, x);
        assert(count_char(s.push(x), c) == (if s[0] == c {
            1int
        } else {
            0int
        }) + count_char(s.drop_first().push(x), c));
        assert(count_char(s, c) == (if s[0] == c {
            1int
        } else {
            0int
        }) + count_char(s.drop_first(), c));
    }
}

/// The ASCII lowercase fold of one character.
pub open spec fn lower_char(c: char) -> char {
    if 65 <= c as u32 <= 90 {
        (((c as u32) + 32) as u8) as char
    } else {
        c
    }
}

/// Whether two character sequences agree up to ASCII case.
pub open spec fn ascii_ieq(a: Seq<char>, b: Seq<char>) -> bool {
    a.len() == b.len() && forall|i: int| 0 <= i < a.len() ==> lower_char(a[i]) == lower_char(b[i])
}

/// The ASCII lowercase fold of one character.
fn lower_char_exec(c: char) -> (r: char)
    ensures
        r == lower_char(c),
{
    let u = c as u32;
    if 65 <= u && u <= 90 {
        ((u + 32) as u8) as char
    } else {
        c
    }
}

/// Whether two strings agree up to ASCII case.
pub fn eq_ignore_ascii_case_str(a: &str, b: &str) -> (r: bool)
    ensures
        r == ascii_ieq(a@, b@),
{
    let n = a.unicode_len();
    if n != b.unicode_len() {
        return false;
    }
    let mut i: usize = 0;
    while i < n
        invariant
            n == a@.len(),
            n == b@.len(),
            0 <= i <= n,
            forall|k: int| 0 <= k < i ==> lower_char(a@[k]) == lower_char(b@[k]),
        decreases n - i,
    {
        let ca = lower_char_exec(a.get_char(i));
        let cb = lower_char_exec(b.get_char(i));
        if ca != cb {
            return false;
        }
        i += 1;
    }
    true
}

/// Whether the string holds the character anywhere.
pub fn str_contains_char(s: &str, c: char) -> (r: bool)
    ensures
        r == (find_char(s@, c) >= 0),
{
    let n = s.unicode_len();
    let mut i: usize = 0;
    while i < n
        invariant
            n == s@.len(),
            0 <= i <= n,
            forall|k: int| 0 <= k < i ==> s@[k] != c,
        decreases n - i,
    {
        if s.get_char(i) == c {
            proof {
                lemma_find_char(s@, c);
            }
            return true;
        }
        i += 1;
    }
    proof {
        lemma_find_char(s@, c);
    }
    false
}

} // verus!
