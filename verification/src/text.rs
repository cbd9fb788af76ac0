//! Small text utilities shared by the codecs: whitespace splitting and
//! decimal number parsing, each against an exact specification.

use vstd::prelude::*;

verus! {

/// A Unicode whitespace character, the set `str::split_whitespace`
/// splits on.
pub open spec fn is_ws(c: char) -> bool {
    let v = c as int;
    ||| (9 <= v && v <= 13)
    ||| v == 32
    ||| v == 0x85
    ||| v == 0xA0
    ||| v == 0x1680
    ||| (0x2000 <= v && v <= 0x200A)
    ||| v == 0x2028
    ||| v == 0x2029
    ||| v == 0x202F
    ||| v == 0x205F
    ||| v == 0x3000
}

/// Whether `c` is whitespace.
pub fn is_ws_exec(c: char) -> (r: bool)
    ensures
        r == is_ws(c),
{
    let v = c as u32;
    (9 <= v && v <= 13) || v == 32 || v == 0x85 || v == 0xA0 || v == 0x1680 || (0x2000 <= v && v
        <= 0x200A) || v == 0x2028 || v == 0x2029 || v == 0x202F || v == 0x205F || v == 0x3000
}

/// The longest whitespace-free prefix of `s`.
pub open spec fn take_word(s: Seq<char>) -> Seq<char>
    decreases s.len(),
{
    if s.len() == 0 || is_ws(s[0]) {
        Seq::empty()
    } else {
        seq![s[0]] + take_word(s.drop_first())
    }
}

/// The length of a word: never longer than the text, and at least one
/// character when the text starts with a non-whitespace character.
pub proof fn lemma_take_word_len(s: Seq<char>)
    ensures
        take_word(s).len() <= s.len(),
        s.len() > 0 && !is_ws(s[0]) ==> take_word(s).len() >= 1,
    decreases s.len(),
{
    if s.len() == 0 || is_ws(s[0]) {
    } else {
        lemma_take_word_len(s.drop_first());
    }
}

/// A word is the text up to its first whitespace character.
pub proof fn lemma_take_word_subrange(s: Seq<char>, j: int)
    requires
        0 <= j <= s.len(),
        forall|k: int| 0 <= k < j ==> !is_ws(s[k]),
        j == s.len() || is_ws(s[j]),
    ensures
        take_word(s) == s.subrange(0, j),
    decreases j,
{
    if j == 0 {
        assert(take_word(s) =~= s.subrange(0, 0));
    } else {
        lemma_take_word_subrange(s.drop_first(), j - 1);
        assert(seq![s[0]] + s.drop_first().subrange(0, j - 1) =~= s.subrange(0, j));
    }
}

/// The whitespace-separated words of `s`, in order, each nonempty.
pub open spec fn words(s: Seq<char>) -> Seq<Seq<char>>
    decreases s.len(),
{
    if s.len() == 0 {
        Seq::empty()
    } else if is_ws(s[0]) {
        words(s.drop_first())
    } else {
        let w = take_word(s);
        proof {
            lemma_take_word_len(s);
        }
        seq![w] + words(s.skip(w.len() as int))
    }
}

/// Split `s` into its whitespace-separated words.
pub fn split_words(s: &str) -> (r: Vec<String>)
    ensures
        r.deep_view() == words(s@),
{
    let n = s.unicode_len();
    let mut r: Vec<String> = Vec::new();
    let mut i: usize = 0;
    proof {
        assert(s@.skip(0) =~= s@);
        assert(r.deep_view() =~= Seq::<Seq<char>>::empty());
        assert(r.deep_view() + words(s@) =~= words(s@));
    }
    while i < n
        invariant
            n == s@.len(),
            i <= n,
            words(s@) == r.deep_view() + words(s@.skip(i as int)),
        decreases n - i,
    {
        let c = s.get_char(i);
        if is_ws_exec(c) {
            proof {
                assert(s@.skip(i as int).drop_first() =~= s@.skip(i as int + 1));
            }
            i = i + 1;
        } else {
            let ghost acc = r.deep_view();
            let mut j: usize = i + 1;
            while j < n && !is_ws_exec(s.get_char(j))
                invariant
                    n == s@.len(),
                    i < j <= n,
                    forall|k: int| i <= k < j ==> !is_ws(s@[k]),
                decreases n - j,
            {
                j = j + 1;
            }
            let w = s.substring_char(i, j);
            proof {
                lemma_take_word_subrange(s@.skip(i as int), j - i);
                assert(s@.skip(i as int).subrange(0, j - i) =~= s@.subrange(i as int, j as int));
                assert(take_word(s@.skip(i as int)) == w@);
                assert(s@.skip(i as int).skip(j - i) =~= s@.skip(j as int));
            }
            r.push(w.to_owned());
            proof {
                assert(r.deep_view() =~= acc.push(w@));
                assert(words(s@.skip(i as int)) == seq![w@] + words(s@.skip(j as int)));
                assert(acc + (seq![w@] + words(s@.skip(j as int))) =~= acc.push(w@) + words(
                    s@.skip(j as int),
                ));
            }
            i = j;
        }
    }
    proof {
        assert(words(s@.skip(n as int)) =~= Seq::<Seq<char>>::empty());
        assert(r.deep_view() + Seq::<Seq<char>>::empty() =~= r.deep_view());
    }
    r
}

/// An ASCII decimal digit.
pub open spec fn is_digit(c: char) -> bool {
    '0' as int <= c as int && c as int <= '9' as int
}

/// Whether every character of `s` is a decimal digit.
pub open spec fn all_digits(s: Seq<char>) -> bool {
    forall|k: int| 0 <= k < s.len() ==> is_digit(s[k])
}

/// The value of a digit string read in base ten.
pub open spec fn digits_val(s: Seq<char>) -> int
    decreases s.len(),
{
    if s.len() == 0 {
        0
    } else {
        digits_val(s.drop_last()) * 10 + (s.last() as int - '0' as int)
    }
}

/// A digit string's value is not negative.
pub proof fn lemma_digits_val_nonneg(s: Seq<char>)
    requires
        all_digits(s),
    ensures
        digits_val(s) >= 0,
    decreases s.len(),
{
    if s.len() > 0 {
        assert(all_digits(s.drop_last()));
        lemma_digits_val_nonneg(s.drop_last());
    }
}

/// Extending a digit string cannot shrink its value.
pub proof fn lemma_digits_prefix_mono(s: Seq<char>, m: int)
    requires
        all_digits(s),
        0 <= m <= s.len(),
    ensures
        digits_val(s.subrange(0, m)) <= digits_val(s),
    decreases s.len() - m,
{
    if m == s.len() {
        assert(s.subrange(0, m) =~= s);
    } else {
        let p = s.subrange(0, m);
        let q = s.subrange(0, m + 1);
        assert(q.drop_last() =~= p);
        assert(all_digits(p));
        lemma_digits_val_nonneg(p);
        lemma_digits_prefix_mono(s, m + 1);
    }
}

/// The digits of an unsigned decimal: the text with one optional leading
/// plus sign stripped.
pub open spec fn unsigned_body(s: Seq<char>) -> Seq<char> {
    if s.len() > 0 && s[0] == '+' {
        s.drop_first()
    } else {
        s
    }
}

/// What `str::parse::<usize>` accepts and returns: an optional plus sign,
/// then one or more digits whose value fits.
pub open spec fn parse_usize_spec(s: Seq<char>) -> Option<int> {
    let d = unsigned_body(s);
    if d.len() >= 1 && all_digits(d) && digits_val(d) <= usize::MAX {
        Some(digits_val(d))
    } else {
        None
    }
}

/// What `str::parse::<isize>` accepts and returns: an optional sign, then
/// one or more digits whose signed value fits.
pub open spec fn parse_isize_spec(s: Seq<char>) -> Option<int> {
    if s.len() > 0 && s[0] == '-' {
        let d = s.drop_first();
        if d.len() >= 1 && all_digits(d) && -digits_val(d) >= isize::MIN {
            Some(-digits_val(d))
        } else {
            None
        }
    } else {
        let d = unsigned_body(s);
        if d.len() >= 1 && all_digits(d) && digits_val(d) <= isize::MAX {
            Some(digits_val(d))
        } else {
            None
        }
    }
}

/// Accumulate the digits of `s` from character `start` on, or report that
/// the digits are malformed or their value exceeds `usize`.
fn digits_to_usize(s: &str, start: usize) -> (r: Option<usize>)
    requires
        start <= s@.len(),
    ensures
        ({
            let d = s@.skip(start as int);
            match r {
                Some(v) => d.len() >= 1 && all_digits(d) && digits_val(d) == v,
                None => !(d.len() >= 1 && all_digits(d) && digits_val(d) <= usize::MAX),
            }
        }),
{
    let ghost d = s@.skip(start as int);
    let n = s.unicode_len();
    if start >= n {
        return None;
    }
    let mut val: usize = 0;
    let mut i: usize = start;
    proof {
        assert(d.subrange(0, 0) =~= Seq::<char>::empty());
    }
    while i < n
        invariant
            n == s@.len(),
            start <= i <= n,
            d == s@.skip(start as int),
            d.len() == n - start,
            all_digits(d.subrange(0, i - start)),
            val == digits_val(d.subrange(0, i - start)),
        decreases n - i,
    {
        let c = s.get_char(i);
        let v = c as u32;
        if !('0' as u32 <= v && v <= '9' as u32) {
            proof {
                assert(d[i - start] == s@[i as int]);
                assert(!is_digit(d[i - start]));
            }
            return None;
        }
        let dv = (v - '0' as u32) as usize;
        let ghost prefix = d.subrange(0, i - start);
        let ghost prefix1 = d.subrange(0, i + 1 - start);
        proof {
            assert(prefix1.drop_last() =~= prefix);
            assert(prefix1.last() == s@[i as int]);
        }
        if val > usize::MAX / 10 || (val == usize::MAX / 10 && dv > usize::MAX % 10) {
            proof {
                vstd::arithmetic::div_mod::lemma_fundamental_div_mod(usize::MAX as int, 10);
                assert(digits_val(prefix1) > usize::MAX);
                if all_digits(d) {
                    lemma_digits_prefix_mono(d, i + 1 - start);
                }
            }
            return None;
        }
        proof {
            vstd::arithmetic::div_mod::lemma_fundamental_div_mod(usize::MAX as int, 10);
        }
        val = val * 10 + dv;
        i = i + 1;
    }
    proof {
        assert(d.subrange(0, n - start) =~= d);
    }
    Some(val)
}

/// Read an unsigned decimal as `str::parse::<usize>` does.
pub fn parse_usize(s: &str) -> (r: Option<usize>)
    ensures
        match r {
            Some(v) => parse_usize_spec(s@) == Some(v as int),
            None => parse_usize_spec(s@) is None,
        },
{
    let n = s.unicode_len();
    let start: usize = if n > 0 && s.get_char(0) == '+' {
        1
    } else {
        0
    };
    proof {
        if start == 1 {
            assert(unsigned_body(s@) =~= s@.skip(1));
        } else {
            assert(unsigned_body(s@) =~= s@.skip(0));
        }
    }
    digits_to_usize(s, start)
}

/// Read a signed decimal as `str::parse::<isize>` does.
pub fn parse_isize(s: &str) -> (r: Option<isize>)
    ensures
        match r {
            Some(v) => parse_isize_spec(s@) == Some(v as int),
            None => parse_isize_spec(s@) is None,
        },
{
    let n = s.unicode_len();
    if n > 0 && s.get_char(0) == '-' {
        proof {
            assert(s@.drop_first() =~= s@.skip(1));
        }
        let mag = match digits_to_usize(s, 1) {
            Some(m) => m,
            None => {
                proof {
                    let d = s@.drop_first();
                    if d.len() >= 1 && all_digits(d) {
                        lemma_digits_val_nonneg(d);
                    }
                }
                return None;
            },
        };
        if mag <= isize::MAX as usize {
            Some(-(mag as isize))
        } else if mag == isize::MAX as usize + 1 {
            Some(isize::MIN)
        } else {
            None
        }
    } else {
        let start: usize = if n > 0 && s.get_char(0) == '+' {
            1
        } else {
            0
        };
        proof {
            if start == 1 {
                assert(unsigned_body(s@) =~= s@.skip(1));
            } else {
                assert(unsigned_body(s@) =~= s@.skip(0));
            }
        }
        let mag = match digits_to_usize(s, start) {
            Some(m) => m,
            None => {
                proof {
                    let d = unsigned_body(s@);
                    if d.len() >= 1 && all_digits(d) {
                        lemma_digits_val_nonneg(d);
                    }
                }
                return None;
            },
        };
        if mag <= isize::MAX as usize {
            Some(mag as isize)
        } else {
            None
        }
    }
}

} // verus!
