//! Character-level text utilities: splitting on a separator character,
//! reading and writing decimal numbers, and undoing the octal escapes of
//! mount-information path fields.

use vstd::prelude::*;
use vstd::string::StrSliceExecFns;
use vstd::string::StringExecFns;

verus! {

/// Does `s` contain the character `c`?
pub open spec fn has_char(s: Seq<char>, c: char) -> bool {
    exists|i: int| 0 <= i < s.len() && s[i] == c
}

/// Splitting `s` on `sep`, with `acc` the part of the current field read so far.
pub open spec fn split_acc(s: Seq<char>, sep: char, acc: Seq<char>) -> Seq<Seq<char>>
    decreases s.len(),
{
    if s.len() == 0 {
        seq![acc]
    } else if s[0] == sep {
        seq![acc] + split_acc(s.skip(1), sep, Seq::empty())
    } else {
        split_acc(s.skip(1), sep, acc.push(s[0]))
    }
}

/// The fields of `s` between occurrences of `sep`. Always at least one field;
/// an empty `s` yields one empty field.
pub open spec fn spec_split(s: Seq<char>, sep: char) -> Seq<Seq<char>> {
    split_acc(s, sep, Seq::empty())
}

/// A field that contains no separator splits into itself appended to the
/// field read so far.
pub proof fn lemma_split_no_sep(t: Seq<char>, sep: char, acc: Seq<char>)
    requires
        !has_char(t, sep),
    ensures
        split_acc(t, sep, acc) == seq![acc + t],
    decreases t.len(),
{
    if t.len() == 0 {
        assert(acc + t =~= acc);
    } else {
        assert(t[0] != sep);
        assert(!has_char(t.skip(1), sep)) by {
            assert(forall|i: int|
                0 <= i < t.skip(1).len() ==> t.skip(1)[i] == t[i + 1]);
        }
        lemma_split_no_sep(t.skip(1), sep, acc.push(t[0]));
        assert(acc.push(t[0]) + t.skip(1) =~= acc + t);
    }
}

/// A separator after a clean field closes that field and splitting carries on.
pub proof fn lemma_split_sep(t: Seq<char>, sep: char, rest: Seq<char>, acc: Seq<char>)
    requires
        !has_char(t, sep),
    ensures
        split_acc(t + seq![sep] + rest, sep, acc)
            == seq![acc + t] + split_acc(rest, sep, Seq::empty()),
    decreases t.len(),
{
    let s = t + seq![sep] + rest;
    if t.len() == 0 {
        assert(s[0] == sep);
        assert(s.skip(1) =~= rest);
        assert(acc + t =~= acc);
    } else {
        assert(s[0] == t[0]);
        assert(t[0] != sep);
        assert(s.skip(1) =~= t.skip(1) + seq![sep] + rest);
        assert(!has_char(t.skip(1), sep)) by {
            assert(forall|i: int|
                0 <= i < t.skip(1).len() ==> t.skip(1)[i] == t[i + 1]);
        }
        lemma_split_sep(t.skip(1), sep, rest, acc.push(t[0]));
        assert(acc.push(t[0]) + t.skip(1) =~= acc + t);
    }
}

/// No field produced by splitting contains the separator.
pub proof fn lemma_split_fields_clean(s: Seq<char>, sep: char, acc: Seq<char>)
    requires
        !has_char(acc, sep),
    ensures
        forall|k: int|
            0 <= k < split_acc(s, sep, acc).len()
                ==> !has_char(#[trigger] split_acc(s, sep, acc)[k], sep),
    decreases s.len(),
{
    if s.len() == 0 {
        let r = split_acc(s, sep, acc);
        assert(r == seq![acc]);
        assert(r[0] == acc);
    } else if s[0] == sep {
        lemma_split_fields_clean(s.skip(1), sep, Seq::empty());
        let r = split_acc(s, sep, acc);
        assert(r == seq![acc] + split_acc(s.skip(1), sep, Seq::empty()));
        assert forall|k: int| 0 <= k < r.len() implies !has_char(r[k], sep) by {
            if k == 0 {
                assert(r[k] == acc);
            } else {
                assert(r[k] == split_acc(s.skip(1), sep, Seq::empty())[k - 1]);
            }
        }
    } else {
        assert(!has_char(acc.push(s[0]), sep)) by {
            assert(forall|i: int| 0 <= i < acc.len() ==> acc.push(s[0])[i] == acc[i]);
            assert(acc.push(s[0])[acc.len() as int] == s[0]);
        }
        lemma_split_fields_clean(s.skip(1), sep, acc.push(s[0]));
        let r = split_acc(s, sep, acc);
        assert(r == split_acc(s.skip(1), sep, acc.push(s[0])));
        assert forall|k: int| 0 <= k < r.len() implies !has_char(r[k], sep) by {
            assert(r[k] == split_acc(s.skip(1), sep, acc.push(s[0]))[k]);
        }
    }
}

/// Split `s` at every occurrence of `sep`.
pub fn split_chars(s: &str, sep: char) -> (fields: Vec<String>)
    ensures
        fields.deep_view() == spec_split(s@, sep),
{
    let n: usize = s.unicode_len();
    let mut fields: Vec<String> = Vec::new();
    let mut start: usize = 0;
    let mut i: usize = 0;
    proof {
        assert(s@.skip(0) =~= s@);
        assert(s@.subrange(0, 0) =~= Seq::<char>::empty());
        assert(fields.deep_view() + split_acc(s@, sep, Seq::empty())
            =~~= split_acc(s@, sep, Seq::empty()));
    }
    while i < n
        invariant
            start <= i <= n,
            n == s@.len(),
            spec_split(s@, sep) == fields.deep_view()
                + split_acc(s@.skip(i as int), sep, s@.subrange(start as int, i as int)),
        decreases n - i,
    {
        let c = s.get_char(i);
        proof {
            assert(s@.skip(i as int)[0] == s@[i as int]);
            assert(s@.skip(i as int).skip(1) =~= s@.skip(i as int + 1));
        }
        if c == sep {
            let tok = String::from_str(s.substring_char(start, i));
            let ghost pre = fields.deep_view();
            fields.push(tok);
            proof {
                assert(s@.subrange(i as int + 1, i as int + 1) =~= Seq::<char>::empty());
                assert(fields.deep_view() =~~= pre + seq![tok@]);
                assert(pre + seq![tok@]
                        + split_acc(s@.skip(i as int + 1), sep, Seq::empty())
                    =~~= pre
                        + (seq![tok@] + split_acc(s@.skip(i as int + 1), sep, Seq::empty())));
            }
            start = i + 1;
        } else {
            proof {
                assert(s@.subrange(start as int, i as int).push(s@[i as int])
                    =~= s@.subrange(start as int, i as int + 1));
            }
        }
        i = i + 1;
    }
    let tok = String::from_str(s.substring_char(start, n));
    let ghost pre = fields.deep_view();
    proof {
        assert(s@.skip(n as int) =~= Seq::<char>::empty());
    }
    fields.push(tok);
    proof {
        assert(fields.deep_view() =~~= pre + seq![tok@]);
    }
    fields
}

/// Do two strings hold the same characters?
pub fn str_eq(a: &str, b: &str) -> (r: bool)
    ensures
        r == (a@ == b@),
{
    let na = a.unicode_len();
    let nb = b.unicode_len();
    if na != nb {
        return false;
    }
    let mut i: usize = 0;
    while i < na
        invariant
            i <= na,
            na == a@.len(),
            na == b@.len(),
            forall|j: int| 0 <= j < i ==> a@[j] == b@[j],
        decreases na - i,
    {
        if a.get_char(i) != b.get_char(i) {
            return false;
        }
        i = i + 1;
    }
    proof {
        assert(a@ =~= b@);
    }
    true
}

/// The character that one of the four octal escapes used in
/// mount-information path fields stands for, if `s` starts with one:
/// `\040` a space, `\011` a tab, `\012` a newline, `\134` a backslash.
pub open spec fn escape_head(s: Seq<char>) -> Option<char> {
    if s.len() >= 4 && s[0] == '\\' {
        if s[1] == '0' && s[2] == '4' && s[3] == '0' {
            Some(' ')
        } else if s[1] == '0' && s[2] == '1' && s[3] == '1' {
            Some('\t')
        } else if s[1] == '0' && s[2] == '1' && s[3] == '2' {
            Some('\n')
        } else if s[1] == '1' && s[2] == '3' && s[3] == '4' {
            Some('\\')
        } else {
            None
        }
    } else {
        None
    }
}

/// `s` with every octal escape replaced by the character it stands for.
pub open spec fn spec_unescape(s: Seq<char>) -> Seq<char>
    decreases s.len(),
{
    if s.len() == 0 {
        Seq::empty()
    } else {
        match escape_head(s) {
            Some(c) => seq![c] + spec_unescape(s.skip(4)),
            None => seq![s[0]] + spec_unescape(s.skip(1)),
        }
    }
}

/// Replace the octal escapes of a mount-information path field by the
/// characters they stand for.
pub fn unescape(s: &str) -> (r: String)
    ensures
        r@ == spec_unescape(s@),
{
    let n: usize = s.unicode_len();
    let mut r = String::new();
    let mut i: usize = 0;
    proof {
        assert(s@.skip(0) =~= s@);
        assert(r@ + spec_unescape(s@) =~= spec_unescape(s@));
    }
    while i < n
        invariant
            i <= n,
            n == s@.len(),
            spec_unescape(s@) == r@ + spec_unescape(s@.skip(i as int)),
        decreases n - i,
    {
        let ghost rest = s@.skip(i as int);
        proof {
            assert(rest[0] == s@[i as int]);
            assert(forall|k: int| 0 <= k < rest.len() ==> rest[k] == s@[i as int + k]);
        }
        let mut replaced: Option<&'static str> = None;
        if s.get_char(i) == '\\' && n - i > 3 {
            let c1 = s.get_char(i + 1);
            let c2 = s.get_char(i + 2);
            let c3 = s.get_char(i + 3);
            if c1 == '0' && c2 == '4' && c3 == '0' {
                replaced = Some(" ");
                proof {
                    reveal_strlit(" ");
                    assert(" "@ =~= seq![' ']);
                }
            } else if c1 == '0' && c2 == '1' && c3 == '1' {
                replaced = Some("\t");
                proof {
                    reveal_strlit("\t");
                    assert("\t"@ =~= seq!['\t']);
                }
            } else if c1 == '0' && c2 == '1' && c3 == '2' {
                replaced = Some("\n");
                proof {
                    reveal_strlit("\n");
                    assert("\n"@ =~= seq!['\n']);
                }
            } else if c1 == '1' && c2 == '3' && c3 == '4' {
                replaced = Some("\\");
                proof {
                    reveal_strlit("\\");
                    assert("\\"@ =~= seq!['\\']);
                }
            }
        }
        match replaced {
            Some(lit) => {
                proof {
                    assert(escape_head(rest) == Some(lit@[0]));
                    assert(rest.skip(4) =~= s@.skip(i as int + 4));
                    assert(lit@ =~= seq![lit@[0]]);
                }
                r.append(lit);
                i = i + 4;
            },
            None => {
                proof {
                    assert(escape_head(rest) is None);
                    assert(rest.skip(1) =~= s@.skip(i as int + 1));
                    assert(s@.subrange(i as int, i as int + 1) =~= seq![s@[i as int]]);
                }
                r.append(s.substring_char(i, i + 1));
                i = i + 1;
            },
        }
    }
    proof {
        assert(s@.skip(n as int) =~= Seq::<char>::empty());
        assert(r@ + Seq::<char>::empty() =~= r@);
    }
    r
}

/// Is `c` a decimal digit?
pub open spec fn is_digit(c: char) -> bool {
    '0' <= c && c <= '9'
}

/// The numeric value of a digit character.
pub open spec fn digit_val(c: char) -> int {
    c as int - '0' as int
}

/// Every character of `s` is a decimal digit.
pub open spec fn all_digits(s: Seq<char>) -> bool {
    forall|i: int| 0 <= i < s.len() ==> is_digit(#[trigger] s[i])
}

/// The value of `s` read as a decimal number.
pub open spec fn dec_val(s: Seq<char>) -> int
    decreases s.len(),
{
    if s.len() == 0 {
        0
    } else {
        dec_val(s.drop_last()) * 10 + digit_val(s.last())
    }
}

/// A string that reads as a decimal number fitting in a `u32`.
pub open spec fn is_dec_u32(s: Seq<char>) -> bool {
    s.len() > 0 && all_digits(s) && dec_val(s) <= u32::MAX
}

/// The decimal value of a prefix never exceeds the value of the whole.
pub proof fn lemma_dec_val_mono(s: Seq<char>, i: int)
    requires
        all_digits(s),
        0 <= i <= s.len(),
    ensures
        dec_val(s.subrange(0, i)) <= dec_val(s),
        dec_val(s.subrange(0, i)) >= 0,
    decreases s.len() - i,
{
    if i == s.len() {
        assert(s.subrange(0, i) =~= s);
        lemma_dec_val_nonneg(s);
    } else {
        lemma_dec_val_mono(s, i + 1);
        let p = s.subrange(0, i + 1);
        assert(p.drop_last() =~= s.subrange(0, i));
        assert(p.last() == s[i]);
        lemma_dec_val_nonneg(s.subrange(0, i));
    }
}

/// A string of digits has a nonnegative decimal value.
pub proof fn lemma_dec_val_nonneg(s: Seq<char>)
    requires
        all_digits(s),
    ensures
        dec_val(s) >= 0,
    decreases s.len(),
{
    if s.len() > 0 {
        assert(all_digits(s.drop_last())) by {
            assert(forall|i: int|
                0 <= i < s.drop_last().len() ==> s.drop_last()[i] == s[i]);
        }
        lemma_dec_val_nonneg(s.drop_last());
        assert(is_digit(s.last()));
    }
}

/// Read `s` as a decimal `u32`; `None` when `s` is empty, holds a
/// non-digit, or overflows.
pub fn parse_u32(s: &str) -> (r: Option<u32>)
    ensures
        match r {
            Some(v) => is_dec_u32(s@) && v as int == dec_val(s@),
            None => !is_dec_u32(s@),
        },
{
    let n: usize = s.unicode_len();
    if n == 0 {
        return None;
    }
    let mut acc: u32 = 0;
    let mut i: usize = 0;
    proof {
        assert(s@.subrange(0, 0) =~= Seq::<char>::empty());
    }
    while i < n
        invariant
            0 <= i <= n,
            n == s@.len(),
            all_digits(s@.subrange(0, i as int)),
            acc as int == dec_val(s@.subrange(0, i as int)),
        decreases n - i,
    {
        let c = s.get_char(i);
        let cv = c as u32;
        if cv < '0' as u32 || cv > '9' as u32 {
            proof {
                assert(!is_digit(s@[i as int]));
                assert(!all_digits(s@));
            }
            return None;
        }
        let d: u32 = cv - '0' as u32;
        let wide: u64 = acc as u64 * 10 + d as u64;
        proof {
            let p = s@.subrange(0, i as int + 1);
            assert(p.drop_last() =~= s@.subrange(0, i as int));
            assert(p.last() == s@[i as int]);
            assert(all_digits(p)) by {
                assert(forall|k: int| 0 <= k < p.len() - 1
                    ==> p[k] == s@.subrange(0, i as int)[k]);
            }
            assert(wide as int == dec_val(p));
        }
        if wide > u32::MAX as u64 {
            proof {
                if is_dec_u32(s@) {
                    lemma_dec_val_mono(s@, i as int + 1);
                }
            }
            return None;
        }
        acc = wide as u32;
        i = i + 1;
    }
    proof {
        assert(s@.subrange(0, n as int) =~= s@);
    }
    Some(acc)
}

/// The digit character for a value below ten.
pub open spec fn digit_char(d: int) -> char {
    if d == 0 { '0' }
    else if d == 1 { '1' }
    else if d == 2 { '2' }
    else if d == 3 { '3' }
    else if d == 4 { '4' }
    else if d == 5 { '5' }
    else if d == 6 { '6' }
    else if d == 7 { '7' }
    else if d == 8 { '8' }
    else { '9' }
}

/// The decimal rendering of `n`.
pub open spec fn dec_str(n: int) -> Seq<char>
    decreases n,
{
    if n < 10 {
        seq![digit_char(n)]
    } else {
        dec_str(n / 10).push(digit_char(n % 10))
    }
}

fn digit_str(d: u32) -> (r: &'static str)
    requires
        d < 10,
    ensures
        r@ == seq![digit_char(d as int)],
{
    match d {
        0 => {
            proof { reveal_strlit("0"); }
            let r = "0";
            proof { assert(r@ =~= seq![digit_char(0)]); }
            r
        },
        1 => {
            proof { reveal_strlit("1"); }
            let r = "1";
            proof { assert(r@ =~= seq![digit_char(1)]); }
            r
        },
        2 => {
            proof { reveal_strlit("2"); }
            let r = "2";
            proof { assert(r@ =~= seq![digit_char(2)]); }
            r
        },
        3 => {
            proof { reveal_strlit("3"); }
            let r = "3";
            proof { assert(r@ =~= seq![digit_char(3)]); }
            r
        },
        4 => {
            proof { reveal_strlit("4"); }
            let r = "4";
            proof { assert(r@ =~= seq![digit_char(4)]); }
            r
        },
        5 => {
            proof { reveal_strlit("5"); }
            let r = "5";
            proof { assert(r@ =~= seq![digit_char(5)]); }
            r
        },
        6 => {
            proof { reveal_strlit("6"); }
            let r = "6";
            proof { assert(r@ =~= seq![digit_char(6)]); }
            r
        },
        7 => {
            proof { reveal_strlit("7"); }
            let r = "7";
            proof { assert(r@ =~= seq![digit_char(7)]); }
            r
        },
        8 => {
            proof { reveal_strlit("8"); }
            let r = "8";
            proof { assert(r@ =~= seq![digit_char(8)]); }
            r
        },
        _ => {
            proof { reveal_strlit("9"); }
            let r = "9";
            proof { assert(r@ =~= seq![digit_char(9)]); }
            r
        },
    }
}

/// Render `n` in decimal.
pub fn u32_to_dec(n: u32) -> (r: String)
    ensures
        r@ == dec_str(n as int),
    decreases n,
{
    if n < 10 {
        String::from_str(digit_str(n))
    } else {
        let mut s = u32_to_dec(n / 10);
        s.append(digit_str(n % 10));
        proof {
            assert(dec_str(n as int / 10) + seq![digit_char(n as int % 10)]
                =~= dec_str(n as int / 10).push(digit_char(n as int % 10)));
        }
        s
    }
}

} // verus!
