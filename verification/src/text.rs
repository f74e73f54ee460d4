//! Decimal text: digit classification, parsing bounded integers, and
//! rendering integers as canonical decimal strings.
use vstd::prelude::*;
use vstd::string::*;

verus! {

/// An ASCII decimal digit.
pub open spec fn is_digit(c: char) -> bool {
    48 <= (c as u32) && (c as u32) <= 57
}

/// Numeric value of a decimal digit.
pub open spec fn digit_val(c: char) -> nat {
    ((c as u32) - 48) as nat
}

/// Every character of `s` is a decimal digit.
pub open spec fn all_digits(s: Seq<char>) -> bool {
    forall|i: int| 0 <= i < s.len() ==> is_digit(#[trigger] s[i])
}

/// Value of a digit string read in base 10 (most significant digit first).
pub open spec fn dec_val(s: Seq<char>) -> nat
    decreases s.len(),
{
    if s.len() == 0 {
        0
    } else {
        dec_val(s.drop_last()) * 10 + digit_val(s.last())
    }
}

/// A digit string denotes a value no smaller than any of its prefixes.
pub proof fn lemma_dec_val_prefix(s: Seq<char>, i: int)
    requires
        0 <= i <= s.len(),
    ensures
        dec_val(s.take(i)) <= dec_val(s),
    decreases s.len(),
{
    if i < s.len() {
        assert(s.drop_last().take(i) =~= s.take(i));
        lemma_dec_val_prefix(s.drop_last(), i);
    } else {
        assert(s.take(i) =~= s);
    }
}

/// Decimal digit denoted by `c`, if any.
pub fn digit_of(c: char) -> (r: Option<u8>)
    ensures
        r is Some <==> is_digit(c),
        r matches Some(d) ==> d == digit_val(c),
{
    let u = c as u32;
    if 48 <= u && u <= 57 {
        Some((u - 48) as u8)
    } else {
        None
    }
}

/// A nonempty all-digit string whose value fits in 16 bits.
pub open spec fn is_u16_str(s: Seq<char>) -> bool {
    s.len() > 0 && all_digits(s) && dec_val(s) <= 65535
}

/// Parses `s` as a decimal 16-bit integer; leading zeros are accepted.
pub fn parse_u16(s: &str) -> (r: Option<u16>)
    ensures
        r is Some <==> is_u16_str(s@),
        r matches Some(n) ==> n == dec_val(s@),
{
    let n = s.unicode_len();
    if n == 0 {
        return None;
    }
    let mut acc: u32 = 0;
    let mut i: usize = 0;
    while i < n
        invariant
            0 < n == s@.len(),
            0 <= i <= n,
            all_digits(s@.take(i as int)),
            acc == dec_val(s@.take(i as int)),
            acc <= 65535,
        decreases n - i,
    {
        let c = s.get_char(i);
        proof {
            assert(s@.take(i + 1).drop_last() =~= s@.take(i as int));
            assert(s@.take(i + 1).last() == s@[i as int]);
        }
        match digit_of(c) {
            None => {
                return None;
            },
            Some(d) => {
                let next = acc * 10 + (d as u32);
                if next > 65535 {
                    proof {
                        if all_digits(s@) {
                            lemma_dec_val_prefix(s@, i + 1);
                        }
                    }
                    return None;
                }
                acc = next;
            },
        }
        i = i + 1;
    }
    proof {
        assert(s@.take(n as int) =~= s@);
    }
    Some(acc as u16)
}

/// A decimal octet as it appears in a dotted-quad address: nonempty digits,
/// no leading zero, value at most 255.
pub open spec fn is_octet_str(s: Seq<char>) -> bool {
    s.len() > 0 && all_digits(s) && (s.len() > 1 ==> s[0] != '0') && dec_val(s) <= 255
}

/// Parses one dotted-quad octet.
pub fn parse_octet(s: &str) -> (r: Option<u8>)
    ensures
        r is Some <==> is_octet_str(s@),
        r matches Some(n) ==> n == dec_val(s@),
{
    match parse_u16(s) {
        None => None,
        Some(v) => {
            if v > 255 {
                None
            } else if s.unicode_len() > 1 && s.get_char(0) == '0' {
                None
            } else {
                Some(v as u8)
            }
        },
    }
}

/// The digit character for a value below ten.
pub open spec fn digit_char(d: nat) -> char
    recommends
        d < 10,
{
    if d == 0 {
        '0'
    } else if d == 1 {
        '1'
    } else if d == 2 {
        '2'
    } else if d == 3 {
        '3'
    } else if d == 4 {
        '4'
    } else if d == 5 {
        '5'
    } else if d == 6 {
        '6'
    } else if d == 7 {
        '7'
    } else if d == 8 {
        '8'
    } else {
        '9'
    }
}

/// Canonical decimal rendering of `n`: no leading zeros, `"0"` for zero.
pub open spec fn dec_str(n: nat) -> Seq<char>
    decreases n,
{
    if n < 10 {
        seq![digit_char(n)]
    } else {
        dec_str(n / 10).push(digit_char(n % 10))
    }
}

/// The canonical rendering is a nonempty digit string without a leading
/// zero, and it denotes the rendered value.
pub proof fn lemma_dec_str_props(n: nat)
    ensures
        dec_str(n).len() >= 1,
        n >= 10 ==> dec_str(n).len() >= 2,
        all_digits(dec_str(n)),
        dec_str(n).len() > 1 ==> dec_str(n)[0] != '0',
        dec_val(dec_str(n)) == n,
    decreases n,
{
    if n < 10 {
        assert(dec_str(n) =~= seq![digit_char(n)]);
        assert(dec_str(n).drop_last() =~= Seq::<char>::empty());
        assert(dec_val(Seq::<char>::empty()) == 0);
        assert(dec_val(dec_str(n)) == digit_val(digit_char(n)));
    } else {
        lemma_dec_str_props(n / 10);
        assert(dec_str(n).drop_last() =~= dec_str(n / 10));
        assert(dec_str(n).last() == digit_char(n % 10));
        assert(dec_val(dec_str(n)) == (n / 10) * 10 + digit_val(digit_char(n % 10)));
        assert(dec_str(n)[0] == dec_str(n / 10)[0]);
        if n / 10 < 10 {
            assert(n / 10 >= 1);
            assert(dec_str(n / 10)[0] == digit_char(n / 10));
        }
    }
}

/// Rendered digits are digits, so they are neither `':'` nor `'.'`.
pub proof fn lemma_digits_not_sep(s: Seq<char>)
    requires
        all_digits(s),
    ensures
        forall|i: int| 0 <= i < s.len() ==> #[trigger] s[i] != ':' && s[i] != '.',
{
}

/// A one-character string for a digit value.
fn digit_str(d: u8) -> (r: &'static str)
    requires
        d < 10,
    ensures
        r@ =~= seq![digit_char(d as nat)],
{
    proof {
        reveal_strlit("0");
        reveal_strlit("1");
        reveal_strlit("2");
        reveal_strlit("3");
        reveal_strlit("4");
        reveal_strlit("5");
        reveal_strlit("6");
        reveal_strlit("7");
        reveal_strlit("8");
        reveal_strlit("9");
    }
    match d {
        0 => "0",
        1 => "1",
        2 => "2",
        3 => "3",
        4 => "4",
        5 => "5",
        6 => "6",
        7 => "7",
        8 => "8",
        _ => "9",
    }
}

/// Renders `n` in canonical decimal form.
pub fn u16_to_string(n: u16) -> (r: String)
    ensures
        r@ == dec_str(n as nat),
    decreases n,
{
    if n < 10 {
        digit_str(n as u8).to_owned()
    } else {
        let mut s = u16_to_string(n / 10);
        s.append(digit_str((n % 10) as u8));
        proof {
            assert(dec_str((n / 10) as nat).push(digit_char((n % 10) as nat)) =~= dec_str(
                (n / 10) as nat,
            ) + seq![digit_char((n % 10) as nat)]);
        }
        s
    }
}

/// `c` occurs nowhere in `s`.
pub open spec fn no_char(s: Seq<char>, c: char) -> bool {
    forall|i: int| 0 <= i < s.len() ==> #[trigger] s[i] != c
}

/// Index of the first occurrence of `sep` in `s`, or -1 when absent.
pub open spec fn find_sep(s: Seq<char>, sep: char) -> int
    decreases s.len(),
{
    if s.len() == 0 {
        -1
    } else if s[0] == sep {
        0
    } else if find_sep(s.drop_first(), sep) < 0 {
        -1
    } else {
        find_sep(s.drop_first(), sep) + 1
    }
}

/// What `find_sep` finds: a separator at the returned index with none
/// before it, or no separator at all.
pub proof fn lemma_find_sep(s: Seq<char>, sep: char)
    ensures
        -1 <= find_sep(s, sep) < s.len(),
        find_sep(s, sep) >= 0 ==> s[find_sep(s, sep)] == sep,
        find_sep(s, sep) >= 0 ==> no_char(s.take(find_sep(s, sep)), sep),
        find_sep(s, sep) < 0 ==> no_char(s, sep),
    decreases s.len(),
{
    if s.len() > 0 && s[0] != sep {
        lemma_find_sep(s.drop_first(), sep);
        let r = find_sep(s.drop_first(), sep);
        if r >= 0 {
            assert forall|i: int| 0 <= i < r + 1 implies #[trigger] s.take(r + 1)[i]
                != sep by {
                if i > 0 {
                    assert(s.take(r + 1)[i] == s.drop_first().take(r)[i - 1]);
                }
            }
        } else {
            assert forall|i: int| 0 <= i < s.len() implies #[trigger] s[i] != sep by {
                if i > 0 {
                    assert(s[i] == s.drop_first()[i - 1]);
                }
            }
        }
    }
}

/// `find_sep` returns the position `k` that has only non-separators before
/// it and a separator (or the end of the string) at it.
pub proof fn lemma_find_sep_at(s: Seq<char>, sep: char, k: int)
    requires
        0 <= k <= s.len(),
        no_char(s.take(k), sep),
        k < s.len() ==> s[k] == sep,
    ensures
        find_sep(s, sep) == if k == s.len() {
            -1int
        } else {
            k
        },
    decreases s.len(),
{
    if s.len() == 0 {
    } else if s[0] == sep {
        assert(k == 0) by {
            if k > 0 {
                assert(s.take(k)[0] == sep);
            }
        }
    } else {
        assert(k > 0 ==> s.take(k)[0] == s[0]);
        assert(k >= 1);
        assert(s.drop_first().take(k - 1) =~= s.take(k).drop_first());
        assert forall|i: int| 0 <= i < k - 1 implies #[trigger] s.drop_first().take(k - 1)[i]
            != sep by {
            assert(s.take(k)[i + 1] != sep);
        }
        lemma_find_sep_at(s.drop_first(), sep, k - 1);
    }
}

/// Fields of `s` delimited by `sep`: splitting "a:b" on ':' yields
/// ["a", "b"]; separators at the ends yield empty fields.
pub open spec fn split_on(s: Seq<char>, sep: char) -> Seq<Seq<char>>
    decreases s.len(),
{
    if find_sep(s, sep) < 0 {
        seq![s]
    } else {
        proof {
            lemma_find_sep(s, sep);
        }
        seq![s.take(find_sep(s, sep))] + split_on(s.skip(find_sep(s, sep) + 1), sep)
    }
}

/// Splitting yields at least one field.
pub proof fn lemma_split_len(s: Seq<char>, sep: char)
    ensures
        split_on(s, sep).len() >= 1,
{
    lemma_find_sep(s, sep);
}

/// A string without the separator is a single field.
pub proof fn lemma_split_none(s: Seq<char>, sep: char)
    requires
        no_char(s, sep),
    ensures
        split_on(s, sep) == seq![s],
{
    lemma_find_sep_at(s, sep, s.len() as int);
}

/// Prepending a separator-free field and a separator prepends that field
/// to the split.
pub proof fn lemma_split_concat(x: Seq<char>, y: Seq<char>, sep: char)
    requires
        no_char(x, sep),
    ensures
        split_on(x + seq![sep] + y, sep) == seq![x] + split_on(y, sep),
{
    let s = x + seq![sep] + y;
    assert(s.take(x.len() as int) =~= x);
    assert(s[x.len() as int] == sep);
    lemma_find_sep_at(s, sep, x.len() as int);
    assert(s.skip(x.len() as int + 1) =~= y);
}

/// Compares two strings character by character.
pub fn str_eq(a: &str, b: &str) -> (r: bool)
    ensures
        r == (a@ == b@),
{
    let na = a.unicode_len();
    let nb = b.unicode_len();
    if na != nb {
        return false;
    }
    let mut i: usize = 0;
    while i < na
        invariant
            0 <= i <= na,
            na == a@.len(),
            na == b@.len(),
            forall|j: int| 0 <= j < i ==> a@[j] == b@[j],
        decreases na - i,
    {
        if a.get_char(i) != b.get_char(i) {
            return false;
        }
        i = i + 1;
    }
    proof {
        assert(a@ =~= b@);
    }
    true
}

/// Splits `s` into the fields that `sep` delimits.
pub fn split_fields(s: &str, sep: char) -> (fields: Vec<String>)
    ensures
        fields.deep_view() == split_on(s@, sep),
{
    let n = s.unicode_len();
    let mut fields: Vec<String> = Vec::new();
    let mut p: usize = 0;
    proof {
        assert(s@.skip(0) =~= s@);
        assert(fields.deep_view() =~= Seq::<Seq<char>>::empty());
        assert(fields.deep_view() + split_on(s@, sep) =~= split_on(s@, sep));
    }
    loop
        invariant_except_break
            0 <= p <= n,
            n == s@.len(),
            split_on(s@, sep) == fields.deep_view() + split_on(s@.skip(p as int), sep),
        ensures
            fields.deep_view() == split_on(s@, sep),
        decreases n - p,
    {
        let mut q: usize = p;
        while q < n && s.get_char(q) != sep
            invariant
                p <= q <= n,
                n == s@.len(),
                forall|j: int| p <= j < q ==> s@[j] != sep,
            decreases n - q,
        {
            q = q + 1;
        }
        let ghost tail = s@.skip(p as int);
        proof {
            assert forall|j: int| 0 <= j < q - p implies #[trigger] tail.take(q - p)[j]
                != sep by {
                assert(tail.take(q - p)[j] == s@[p + j]);
            }
            if q < n {
                assert(tail[q - p] == sep);
            }
            lemma_find_sep_at(tail, sep, q - p);
        }
        let field = s.substring_char(p, q).to_owned();
        proof {
            assert(field@ =~= tail.take(q - p));
        }
        fields.push(field);
        if q == n {
            proof {
                assert(tail.take(q - p) =~= tail);
                assert(split_on(tail, sep) =~= seq![tail]);
                assert(fields.deep_view() =~= fields.deep_view().drop_last().push(tail));
                assert(fields.deep_view().drop_last() + seq![tail] =~= fields.deep_view());
            }
            break;
        }
        proof {
            lemma_find_sep(tail, sep);
            assert(tail.skip(q - p + 1) =~= s@.skip(q + 1));
            assert(fields.deep_view() =~= fields.deep_view().drop_last().push(
                tail.take(q - p),
            ));
            assert(fields.deep_view().drop_last() + (seq![tail.take(q - p)] + split_on(
                s@.skip(q + 1),
                sep,
            )) =~= fields.deep_view() + split_on(s@.skip(q + 1), sep));
        }
        p = q + 1;
    }
    fields
}

} // verus!
