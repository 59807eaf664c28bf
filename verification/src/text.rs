//! Character-level text utilities shared by the protocol decoders: splitting
//! on a separator character, locating characters, prefix tests and decimal
//! count parsing, each proved against a direct mathematical model.
use vstd::prelude::*;

verus! {

/// The pieces of `s` between occurrences of `sep`, in order. A string without
/// the separator is one piece; every separator ends a piece, so `n` separators
/// yield `n + 1` pieces.
pub open spec fn split_char(s: Seq<char>, sep: char) -> Seq<Seq<char>>
    decreases s.len(),
{
    if s.len() == 0 {
        seq![Seq::<char>::empty()]
    } else if s[0] == sep {
        seq![Seq::<char>::empty()] + split_char(s.drop_first(), sep)
    } else {
        let rest = split_char(s.drop_first(), sep);
        seq![seq![s[0]] + rest[0]] + rest.drop_first()
    }
}

pub proof fn lemma_split_char_nonempty(s: Seq<char>, sep: char)
    ensures
        split_char(s, sep).len() >= 1,
    decreases s.len(),
{
    if s.len() != 0 && s[0] != sep {
        lemma_split_char_nonempty(s.drop_first(), sep);
    }
}

/// Splitting a string without the separator yields that string alone.
pub proof fn lemma_split_char_no_sep(s: Seq<char>, sep: char)
    requires
        forall|j: int| 0 <= j < s.len() ==> s[j] != sep,
    ensures
        split_char(s, sep) == seq![s],
    decreases s.len(),
{
    if s.len() == 0 {
        assert(s =~= Seq::<char>::empty());
    } else {
        lemma_split_char_no_sep(s.drop_first(), sep);
        lemma_split_char_nonempty(s.drop_first(), sep);
        assert(seq![s[0]] + s.drop_first() =~= s);
        assert(split_char(s, sep) =~= seq![s]);
    }
}

/// Splitting at the first separator: the piece before it, then the split of
/// what follows it.
pub proof fn lemma_split_char_first_sep(s: Seq<char>, sep: char, i: int)
    requires
        0 <= i < s.len(),
        s[i] == sep,
        forall|j: int| 0 <= j < i ==> s[j] != sep,
    ensures
        split_char(s, sep) == seq![s.take(i)] + split_char(s.skip(i + 1), sep),
    decreases i,
{
    if i == 0 {
        assert(s.take(0) =~= Seq::<char>::empty());
        assert(s.skip(1) =~= s.drop_first());
        assert(split_char(s, sep) =~= seq![s.take(0)] + split_char(s.skip(1), sep));
    } else {
        let t = s.drop_first();
        lemma_split_char_first_sep(t, sep, i - 1);
        lemma_split_char_nonempty(t.skip(i), sep);
        let rest = split_char(t, sep);
        assert(rest == seq![t.take(i - 1)] + split_char(t.skip(i), sep));
        assert(seq![s[0]] + rest[0] =~= s.take(i));
        assert(rest.drop_first() =~= split_char(t.skip(i), sep));
        assert(t.skip(i) =~= s.skip(i + 1));
        assert(split_char(s, sep) =~= seq![s.take(i)] + split_char(s.skip(i + 1), sep));
    }
}

/// The views of a sequence of owned strings.
pub open spec fn str_views(v: Seq<String>) -> Seq<Seq<char>> {
    v.map_values(|x: String| x@)
}

/// The position of the first occurrence of `sep` in `s`, if any.
pub fn find_char(s: &str, sep: char) -> (r: Option<usize>)
    ensures
        match r {
            Some(i) => i < s@.len() && s@[i as int] == sep && forall|j: int|
                0 <= j < i ==> s@[j] != sep,
            None => forall|j: int| 0 <= j < s@.len() ==> s@[j] != sep,
        },
{
    let n = s.unicode_len();
    let mut i: usize = 0;
    while i < n
        invariant
            i <= n,
            n == s@.len(),
            forall|j: int| 0 <= j < i ==> s@[j] != sep,
        decreases n - i,
    {
        if s.get_char(i) == sep {
            return Some(i);
        }
        i = i + 1;
    }
    None
}

/// Splits `s` on `sep`, matching `split_char` piece for piece.
pub fn split_str(s: &str, sep: char) -> (r: Vec<String>)
    ensures
        str_views(r@) == split_char(s@, sep),
    decreases s@.len(),
{
    match find_char(s, sep) {
        None => {
            let mut r: Vec<String> = Vec::new();
            r.push(s.to_owned());
            proof {
                lemma_split_char_no_sep(s@, sep);
                assert(str_views(r@) =~= seq![s@]);
            }
            r
        },
        Some(i) => {
            let n = s.unicode_len();
            let head = s.substring_char(0, i).to_owned();
            let tail = s.substring_char(i + 1, n);
            proof {
                assert(tail@ =~= s@.skip(i + 1));
                assert(head@ =~= s@.take(i as int));
            }
            let mut r: Vec<String> = Vec::new();
            r.push(head);
            let mut rest = split_str(tail, sep);
            r.append(&mut rest);
            proof {
                lemma_split_char_first_sep(s@, sep, i as int);
                assert(str_views(r@) =~= split_char(s@, sep));
            }
            r
        },
    }
}

/// Whether `p` is a prefix of `s`.
pub open spec fn is_prefix_of(p: Seq<char>, s: Seq<char>) -> bool {
    p.len() <= s.len() && s.take(p.len() as int) == p
}

pub fn str_starts_with(s: &str, p: &str) -> (r: bool)
    ensures
        r == is_prefix_of(p@, s@),
{
    let np = p.unicode_len();
    let ns = s.unicode_len();
    if np > ns {
        return false;
    }
    let mut i: usize = 0;
    while i < np
        invariant
            i <= np,
            np == p@.len(),
            ns == s@.len(),
            np <= ns,
            forall|j: int| 0 <= j < i ==> s@[j] == p@[j],
        decreases np - i,
    {
        if s.get_char(i) != p.get_char(i) {
            assert(s@.take(np as int)[i as int] != p@[i as int]);
            return false;
        }
        i = i + 1;
    }
    assert(s@.take(np as int) =~= p@);
    true
}

/// ASCII whitespace, the characters a blank protocol record may hold.
pub open spec fn is_ws_char(c: char) -> bool {
    c == ' ' || c == '\t' || c == '\n' || c == '\r' || c == '\x0b' || c == '\x0c'
}

/// Whether `s` is blank: empty, or whitespace throughout.
pub open spec fn is_blank(s: Seq<char>) -> bool {
    forall|j: int| 0 <= j < s.len() ==> is_ws_char(s[j])
}

pub fn str_is_blank(s: &str) -> (r: bool)
    ensures
        r == is_blank(s@),
{
    let n = s.unicode_len();
    let mut i: usize = 0;
    while i < n
        invariant
            i <= n,
            n == s@.len(),
            forall|j: int| 0 <= j < i ==> is_ws_char(s@[j]),
        decreases n - i,
    {
        let c = s.get_char(i);
        if !(c == ' ' || c == '\t' || c == '\n' || c == '\r' || c == '\x0b' || c == '\x0c') {
            return false;
        }
        i = i + 1;
    }
    true
}

pub open spec fn is_digit_char(c: char) -> bool {
    '0' as u32 <= c as u32 <= '9' as u32
}

pub open spec fn digit_val(c: char) -> int {
    c as u32 - '0' as u32
}

/// The value of `s` read as a decimal numeral.
pub open spec fn dec_value(s: Seq<char>) -> int
    decreases s.len(),
{
    if s.len() == 0 {
        0
    } else {
        dec_value(s.drop_last()) * 10 + digit_val(s.last())
    }
}

/// Whether `s` is a plain decimal numeral whose value fits in `usize`:
/// one or more digits and nothing else.
pub open spec fn is_count_str(s: Seq<char>) -> bool {
    &&& s.len() > 0
    &&& forall|j: int| 0 <= j < s.len() ==> is_digit_char(s[j])
    &&& dec_value(s) <= usize::MAX as int
}

proof fn lemma_dec_value_nonneg(s: Seq<char>)
    requires
        forall|j: int| 0 <= j < s.len() ==> is_digit_char(s[j]),
    ensures
        dec_value(s) >= 0,
    decreases s.len(),
{
    if s.len() > 0 {
        lemma_dec_value_nonneg(s.drop_last());
    }
}

/// Once a prefix of a numeral is already too large, the whole numeral is.
proof fn lemma_dec_value_grows(s: Seq<char>, k: int)
    requires
        0 <= k <= s.len(),
        forall|j: int| 0 <= j < s.len() ==> is_digit_char(s[j]),
        dec_value(s.take(k)) > usize::MAX as int,
    ensures
        dec_value(s) > usize::MAX as int,
    decreases s.len() - k,
{
    if k < s.len() {
        let t = s.take(k + 1);
        assert(t.drop_last() =~= s.take(k));
        assert(forall|j: int| 0 <= j < t.len() ==> is_digit_char(t[j]));
        lemma_dec_value_nonneg(s.take(k));
        assert(dec_value(s.take(k)) * 10 >= dec_value(s.take(k))) by (nonlinear_arith)
            requires
                dec_value(s.take(k)) >= 0,
        ;
        lemma_dec_value_grows(s, k + 1);
    } else {
        assert(s.take(k) =~= s);
    }
}

/// Reads `s` as a decimal `usize`: `Some` exactly on strings of digits whose
/// value fits, and then the value itself.
pub fn parse_count(s: &str) -> (r: Option<usize>)
    ensures
        (r is Some) == is_count_str(s@),
        r matches Some(v) ==> v as int == dec_value(s@),
{
    let n = s.unicode_len();
    if n == 0 {
        return None;
    }
    let mut acc: usize = 0;
    let mut i: usize = 0;
    while i < n
        invariant
            0 < n == s@.len(),
            i <= n,
            forall|j: int| 0 <= j < i ==> is_digit_char(s@[j]),
            acc as int == dec_value(s@.take(i as int)),
        decreases n - i,
    {
        let c = s.get_char(i);
        let cv = c as u32;
        if cv < '0' as u32 || cv > '9' as u32 {
            return None;
        }
        let d = (cv - '0' as u32) as usize;
        proof {
            assert(s@.take(i + 1).drop_last() =~= s@.take(i as int));
        }
        let next = match acc.checked_mul(10) {
            Some(m) => m.checked_add(d),
            None => None,
        };
        match next {
            Some(v) => {
                acc = v;
            },
            None => {
                proof {
                    assert(dec_value(s@.take(i + 1)) > usize::MAX as int);
                    if forall|j: int| 0 <= j < s@.len() ==> is_digit_char(s@[j]) {
                        lemma_dec_value_grows(s@, i + 1);
                    }
                }
                return None;
            },
        }
        i = i + 1;
    }
    proof {
        assert(s@.take(n as int) =~= s@);
    }
    Some(acc)
}

} // verus!
