//! Verified helpers over strings, seen as sequences of characters.
//!
//! Everything here is executable logic proved against spec functions on
//! `Seq<char>`; no outside code is involved.

use vstd::prelude::*;
use vstd::string::StrSliceExecFns;

verus! {

/// Index of the first occurrence of `c` in `s`, or `s.len()` if `c` does
/// not occur.
pub open spec fn char_index(s: Seq<char>, c: char) -> int
    decreases s.len(),
{
    if s.len() == 0 {
        0
    } else if s[0] == c {
        0
    } else {
        1 + char_index(s.drop_first(), c)
    }
}

pub proof fn lemma_char_index(s: Seq<char>, c: char)
    ensures
        0 <= char_index(s, c) <= s.len(),
        forall|j: int| 0 <= j < char_index(s, c) ==> s[j] != c,
        char_index(s, c) < s.len() ==> s[char_index(s, c)] == c,
    decreases s.len(),
{
    if s.len() == 0 {
    } else if s[0] == c {
    } else {
        lemma_char_index(s.drop_first(), c);
        assert(forall|j: int| 0 <= j < char_index(s.drop_first(), c) ==> s.drop_first()[j] != c);
        assert forall|j: int| 0 <= j < char_index(s, c) implies s[j] != c by {
            if j > 0 {
                assert(s.drop_first()[j - 1] == s[j]);
            }
        }
        if char_index(s, c) < s.len() {
            assert(s.drop_first()[char_index(s, c) - 1] == s[char_index(s, c)]);
        }
    }
}

/// `char_index` is pinned down by its characteristic properties.
pub proof fn lemma_char_index_unique(s: Seq<char>, c: char, i: int)
    requires
        0 <= i <= s.len(),
        forall|j: int| 0 <= j < i ==> s[j] != c,
        i < s.len() ==> s[i] == c,
    ensures
        char_index(s, c) == i,
    decreases s.len(),
{
    if s.len() == 0 {
    } else if s[0] == c {
        assert(i == 0);
    } else {
        assert(i > 0);
        assert forall|j: int| 0 <= j < i - 1 implies s.drop_first()[j] != c by {
            assert(s.drop_first()[j] == s[j + 1]);
        }
        if i - 1 < s.drop_first().len() {
            assert(s.drop_first()[i - 1] == s[i]);
        }
        lemma_char_index_unique(s.drop_first(), c, i - 1);
    }
}

/// First position of `c` in `s`, or the character length of `s` if absent.
pub fn find_char(s: &str, c: char) -> (r: usize)
    ensures
        r == char_index(s@, c),
{
    let n = s.unicode_len();
    let mut i: usize = 0;
    while i < n && s.get_char(i) != c
        invariant
            n == s@.len(),
            0 <= i <= n,
            forall|j: int| 0 <= j < i ==> s@[j] != c,
        decreases n - i,
    {
        i = i + 1;
    }
    proof {
        lemma_char_index_unique(s@, c, i as int);
    }
    i
}

/// Whether `p` is a prefix of `s`, compared character by character.
pub fn str_starts_with(s: &str, p: &str) -> (r: bool)
    ensures
        r == p@.is_prefix_of(s@),
{
    let n = s.unicode_len();
    let m = p.unicode_len();
    if m > n {
        return false;
    }
    let mut i: usize = 0;
    while i < m
        invariant
            n == s@.len(),
            m == p@.len(),
            m <= n,
            0 <= i <= m,
            forall|j: int| 0 <= j < i ==> s@[j] == p@[j],
        decreases m - i,
    {
        if s.get_char(i) != p.get_char(i) {
            assert(!p@.is_prefix_of(s@)) by {
                assert(s@.subrange(0, m as int)[i as int] == s@[i as int]);
            }
            return false;
        }
        i = i + 1;
    }
    assert(p@ =~= s@.subrange(0, m as int));
    true
}

/// The Unicode white-space characters, the class `str::trim` removes.
pub open spec fn is_space(c: char) -> bool {
    let u = c as u32;
    u == 0x20 || (0x09 <= u && u <= 0x0d) || u == 0x85 || u == 0xa0 || u == 0x1680 || (0x2000 <= u
        && u <= 0x200a) || u == 0x2028 || u == 0x2029 || u == 0x202f || u == 0x205f || u == 0x3000
}

pub fn char_is_space(c: char) -> (r: bool)
    ensures
        r == is_space(c),
{
    let u = c as u32;
    u == 0x20 || (0x09 <= u && u <= 0x0d) || u == 0x85 || u == 0xa0 || u == 0x1680 || (0x2000 <= u
        && u <= 0x200a) || u == 0x2028 || u == 0x2029 || u == 0x202f || u == 0x205f || u == 0x3000
}

/// How many characters at the front of `s` satisfy `p`.
pub open spec fn leading_while(s: Seq<char>, p: spec_fn(char) -> bool) -> int
    decreases s.len(),
{
    if s.len() > 0 && p(s[0]) {
        1 + leading_while(s.drop_first(), p)
    } else {
        0
    }
}

/// How many characters at the back of `s` satisfy `p`.
pub open spec fn trailing_while(s: Seq<char>, p: spec_fn(char) -> bool) -> int
    decreases s.len(),
{
    if s.len() > 0 && p(s.last()) {
        1 + trailing_while(s.drop_last(), p)
    } else {
        0
    }
}

pub proof fn lemma_leading_while_unique(s: Seq<char>, p: spec_fn(char) -> bool, i: int)
    requires
        0 <= i <= s.len(),
        forall|j: int| 0 <= j < i ==> p(s[j]),
        i < s.len() ==> !p(s[i]),
    ensures
        leading_while(s, p) == i,
    decreases s.len(),
{
    if s.len() == 0 {
    } else if !p(s[0]) {
        assert(i == 0);
    } else {
        assert(i > 0) by {
            assert(0 < s.len() ==> p(s[0]));
        }
        assert forall|j: int| 0 <= j < i - 1 implies p(s.drop_first()[j]) by {
            assert(s.drop_first()[j] == s[j + 1]);
        }
        if i - 1 < s.drop_first().len() {
            assert(s.drop_first()[i - 1] == s[i]);
        }
        lemma_leading_while_unique(s.drop_first(), p, i - 1);
    }
}

pub proof fn lemma_trailing_while_unique(s: Seq<char>, p: spec_fn(char) -> bool, i: int)
    requires
        0 <= i <= s.len(),
        forall|j: int| s.len() - i <= j < s.len() ==> p(s[j]),
        i < s.len() ==> !p(s[s.len() - i - 1]),
    ensures
        trailing_while(s, p) == i,
    decreases s.len(),
{
    if s.len() == 0 {
    } else if !p(s.last()) {
        assert(i == 0);
    } else {
        assert(i > 0) by {
            assert(s.len() - 1 < s.len());
        }
        assert forall|j: int| s.drop_last().len() - (i - 1) <= j < s.drop_last().len() implies p(
            s.drop_last()[j],
        ) by {
            assert(s.drop_last()[j] == s[j]);
        }
        if i - 1 < s.drop_last().len() {
            assert(s.drop_last()[s.drop_last().len() - (i - 1) - 1] == s[s.len() - i - 1]);
        }
        lemma_trailing_while_unique(s.drop_last(), p, i - 1);
    }
}

/// `s` with every character of class `p` removed from both ends.
pub open spec fn trimmed_while(s: Seq<char>, p: spec_fn(char) -> bool) -> Seq<char> {
    if leading_while(s, p) == s.len() {
        Seq::empty()
    } else {
        s.subrange(leading_while(s, p), s.len() - trailing_while(s, p))
    }
}

/// The white-space character class, as a predicate value.
pub open spec fn space_pred() -> spec_fn(char) -> bool {
    |c: char| is_space(c)
}

/// The class of one given character, as a predicate value.
pub open spec fn char_eq_pred(c: char) -> spec_fn(char) -> bool {
    |x: char| x == c
}

/// `s` with surrounding white space removed, as `str::trim` leaves it.
pub open spec fn trimmed(s: Seq<char>) -> Seq<char> {
    trimmed_while(s, space_pred())
}

/// `s` with every surrounding occurrence of `c` removed, as
/// `str::trim_matches` of a single character leaves it.
pub open spec fn trimmed_char(s: Seq<char>, c: char) -> Seq<char> {
    trimmed_while(s, char_eq_pred(c))
}

/// Removes surrounding white space, as `str::trim` does.
pub fn trim_spaces(s: &str) -> (r: String)
    ensures
        r@ == trimmed(s@),
{
    let ghost p = space_pred();
    let n = s.unicode_len();
    let mut i: usize = 0;
    while i < n && char_is_space(s.get_char(i))
        invariant
            n == s@.len(),
            0 <= i <= n,
            forall|j: int| 0 <= j < i ==> is_space(s@[j]),
        decreases n - i,
    {
        i = i + 1;
    }
    proof {
        lemma_leading_while_unique(s@, p, i as int);
    }
    if i == n {
        let r = String::new();
        assert(r@ =~= trimmed(s@));
        return r;
    }
    let mut j: usize = n;
    while j > i && char_is_space(s.get_char(j - 1))
        invariant
            n == s@.len(),
            i <= j <= n,
            forall|t: int| j <= t < n ==> is_space(s@[t]),
        decreases j,
    {
        j = j - 1;
    }
    proof {
        assert(j > i) by {
            assert(leading_while(s@, p) == i);
            assert(!is_space(s@[i as int]));
        }
        lemma_trailing_while_unique(s@, p, n - j);
    }
    s.substring_char(i, j).to_owned()
}

/// Removes every surrounding occurrence of `c`, as
/// `str::trim_matches(c)` does.
pub fn trim_char_ends(s: &str, c: char) -> (r: String)
    ensures
        r@ == trimmed_char(s@, c),
{
    let ghost p = char_eq_pred(c);
    let n = s.unicode_len();
    let mut i: usize = 0;
    while i < n && s.get_char(i) == c
        invariant
            n == s@.len(),
            0 <= i <= n,
            forall|j: int| 0 <= j < i ==> s@[j] == c,
        decreases n - i,
    {
        i = i + 1;
    }
    proof {
        lemma_leading_while_unique(s@, p, i as int);
    }
    if i == n {
        let r = String::new();
        assert(r@ =~= trimmed_char(s@, c));
        return r;
    }
    let mut j: usize = n;
    while j > i && s.get_char(j - 1) == c
        invariant
            n == s@.len(),
            i <= j <= n,
            forall|t: int| j <= t < n ==> s@[t] == c,
        decreases j,
    {
        j = j - 1;
    }
    proof {
        assert(j > i) by {
            assert(leading_while(s@, p) == i);
            assert(s@[i as int] != c);
        }
        lemma_trailing_while_unique(s@, p, n - j);
    }
    s.substring_char(i, j).to_owned()
}

/// `s` with every repeated occurrence of the prefix `p` removed from the
/// front, as `str::trim_start_matches` of a string pattern leaves it.
pub open spec fn strip_prefix_rep(s: Seq<char>, p: Seq<char>) -> Seq<char>
    decreases s.len(),
{
    if p.len() > 0 && p.is_prefix_of(s) {
        strip_prefix_rep(s.skip(p.len() as int), p)
    } else {
        s
    }
}

/// Removes every leading occurrence of `p`, as
/// `str::trim_start_matches(p)` does.
pub fn strip_prefix_all(s: &str, p: &str) -> (r: String)
    requires
        p@.len() > 0,
    ensures
        r@ == strip_prefix_rep(s@, p@),
{
    let mut cur = s.to_owned();
    let m = p.unicode_len();
    loop
        invariant
            m == p@.len(),
            m > 0,
            strip_prefix_rep(cur@, p@) == strip_prefix_rep(s@, p@),
        decreases cur@.len(),
    {
        if str_starts_with(cur.as_str(), p) {
            let n = cur.as_str().unicode_len();
            let next = cur.as_str().substring_char(m, n).to_owned();
            proof {
                assert(next@ =~= cur@.skip(m as int));
            }
            cur = next;
        } else {
            return cur;
        }
    }
}

/// `s` split at every occurrence of `sep`, as `str::split` of a single
/// character splits it: consecutive separators yield empty fields, and
/// the empty string yields one empty field.
pub open spec fn split_char(s: Seq<char>, sep: char) -> Seq<Seq<char>>
    decreases s.len(),
{
    if s.len() == 0 {
        seq![Seq::<char>::empty()]
    } else if s[0] == sep {
        seq![Seq::<char>::empty()] + split_char(s.drop_first(), sep)
    } else {
        let rest = split_char(s.drop_first(), sep);
        seq![seq![s[0]] + rest[0]] + rest.skip(1)
    }
}

pub proof fn lemma_split_char_len(s: Seq<char>, sep: char)
    ensures
        split_char(s, sep).len() >= 1,
    decreases s.len(),
{
    if s.len() == 0 {
    } else {
        lemma_split_char_len(s.drop_first(), sep);
    }
}

/// Appending one character extends the last field, or opens a fresh
/// empty field when the character is the separator.
pub proof fn lemma_split_char_push(s: Seq<char>, sep: char, c: char)
    ensures
        c == sep ==> split_char(s.push(c), sep) == split_char(s, sep).push(Seq::<char>::empty()),
        c != sep ==> split_char(s.push(c), sep) == split_char(s, sep).drop_last().push(
            split_char(s, sep).last().push(c),
        ),
    decreases s.len(),
{
    lemma_split_char_len(s, sep);
    if s.len() == 0 {
        assert(s.push(c)[0] == c);
        assert(s.push(c).drop_first() =~= Seq::<char>::empty());
        assert(s =~= Seq::<char>::empty());
        if c == sep {
            assert(split_char(s.push(c), sep) == seq![Seq::<char>::empty()] + split_char(
                Seq::<char>::empty(),
                sep,
            ));
            assert(seq![Seq::<char>::empty()] + seq![Seq::<char>::empty()]
                =~= seq![Seq::<char>::empty()].push(Seq::<char>::empty()));
        } else {
            assert(seq![c] + split_char(Seq::<char>::empty(), sep)[0] =~= Seq::<
                char,
            >::empty().push(c));
            assert(split_char(s.push(c), sep) =~= split_char(s, sep).drop_last().push(
                split_char(s, sep).last().push(c),
            ));
        }
    } else {
        let t = s.drop_first();
        lemma_split_char_len(t, sep);
        assert(s.push(c).drop_first() =~= t.push(c));
        assert(s.push(c)[0] == s[0]);
        lemma_split_char_push(t, sep, c);
        let rest = split_char(t, sep);
        let restp = split_char(t.push(c), sep);
        if s[0] == sep {
            let base = split_char(s, sep);
            assert(base == seq![Seq::<char>::empty()] + rest);
            assert(split_char(s.push(c), sep) == seq![Seq::<char>::empty()] + restp);
            if c == sep {
                assert(seq![Seq::<char>::empty()] + rest.push(Seq::<char>::empty()) =~= (
                seq![Seq::<char>::empty()] + rest).push(Seq::<char>::empty()));
            } else {
                assert(base.last() == rest.last());
                assert(seq![Seq::<char>::empty()] + rest.drop_last().push(rest.last().push(c)) =~= (
                seq![Seq::<char>::empty()] + rest).drop_last().push(rest.last().push(c)));
            }
        } else {
            let base = split_char(s, sep);
            assert(base == seq![seq![s[0]] + rest[0]] + rest.skip(1));
            assert(split_char(s.push(c), sep) == seq![seq![s[0]] + restp[0]] + restp.skip(1));
            if c == sep {
                assert(restp == rest.push(Seq::<char>::empty()));
                assert(restp[0] == rest[0]);
                assert(restp.skip(1) =~= rest.skip(1).push(Seq::<char>::empty()));
                assert(seq![seq![s[0]] + rest[0]] + rest.skip(1).push(Seq::<char>::empty()) =~= (
                seq![seq![s[0]] + rest[0]] + rest.skip(1)).push(Seq::<char>::empty()));
            } else {
                assert(restp == rest.drop_last().push(rest.last().push(c)));
                if rest.len() == 1 {
                    assert(restp[0] == rest[0].push(c));
                    assert(restp.skip(1) =~= Seq::<Seq<char>>::empty());
                    assert(base =~= seq![seq![s[0]] + rest[0]]);
                    assert(base.last() == seq![s[0]] + rest[0]);
                    assert(seq![s[0]] + rest[0].push(c) =~= (seq![s[0]] + rest[0]).push(c));
                    assert(split_char(s.push(c), sep) =~= base.drop_last().push(
                        base.last().push(c),
                    ));
                } else {
                    assert(restp[0] == rest[0]);
                    assert(restp.skip(1) =~= rest.skip(1).drop_last().push(rest.last().push(c)));
                    assert(base.last() == rest.last());
                    assert(seq![seq![s[0]] + rest[0]] + rest.skip(1).drop_last().push(
                        rest.last().push(c),
                    ) =~= (seq![seq![s[0]] + rest[0]] + rest.skip(1)).drop_last().push(
                        rest.last().push(c),
                    ));
                }
            }
        }
    }
}

/// Splits `s` at every occurrence of `sep`, as `str::split` of a single
/// character does.
pub fn split_by(s: &str, sep: char) -> (r: Vec<String>)
    ensures
        r.deep_view() == split_char(s@, sep),
{
    let n = s.unicode_len();
    let mut out: Vec<String> = Vec::new();
    let mut start: usize = 0;
    let mut i: usize = 0;
    proof {
        assert(s@.take(0) =~= Seq::<char>::empty());
        assert(out.deep_view().push(s@.subrange(0, 0)) =~= split_char(s@.take(0), sep));
    }
    while i < n
        invariant
            n == s@.len(),
            0 <= start <= i <= n,
            out.deep_view().push(s@.subrange(start as int, i as int)) == split_char(
                s@.take(i as int),
                sep,
            ),
        decreases n - i,
    {
        proof {
            assert(s@.take(i + 1) =~= s@.take(i as int).push(s@[i as int]));
            lemma_split_char_push(s@.take(i as int), sep, s@[i as int]);
            lemma_split_char_len(s@.take(i as int), sep);
        }
        if s.get_char(i) == sep {
            let ghost prev_dv = out.deep_view();
            let field = s.substring_char(start, i).to_owned();
            out.push(field);
            proof {
                assert(out.deep_view() =~= prev_dv.push(s@.subrange(start as int, i as int)));
                assert(s@.subrange(i + 1, i + 1) =~= Seq::<char>::empty());
                assert(out.deep_view().push(s@.subrange(i + 1, i + 1)) =~= split_char(
                    s@.take(i + 1),
                    sep,
                ));
            }
            start = i + 1;
        } else {
            proof {
                let base = split_char(s@.take(i as int), sep);
                assert(base.drop_last() =~= out.deep_view());
                assert(base.last() == s@.subrange(start as int, i as int));
                assert(s@.subrange(start as int, i + 1) =~= s@.subrange(
                    start as int,
                    i as int,
                ).push(s@[i as int]));
            }
        }
        i = i + 1;
    }
    let ghost prev_dv = out.deep_view();
    let field = s.substring_char(start, n).to_owned();
    out.push(field);
    proof {
        assert(s@.take(n as int) =~= s@);
        assert(out.deep_view() =~= prev_dv.push(s@.subrange(start as int, n as int)));
    }
    out
}

/// The fields of `parts` joined with the single character `sep` between
/// consecutive fields.
pub open spec fn join_char(parts: Seq<Seq<char>>, sep: char) -> Seq<char>
    decreases parts.len(),
{
    if parts.len() == 0 {
        Seq::empty()
    } else if parts.len() == 1 {
        parts[0]
    } else {
        join_char(parts.drop_last(), sep) + seq![sep] + parts.last()
    }
}

/// Joins the fields with a newline between consecutive fields, the
/// option-list protocol an interactive picker reads.
pub fn join_lines(parts: &Vec<String>) -> (r: String)
    ensures
        r@ == join_char(parts.deep_view(), '\n'),
{
    if parts.len() == 0 {
        return String::new();
    }
    let mut acc = parts[0].clone();
    let mut i: usize = 1;
    proof {
        assert(parts.deep_view().take(1) =~= seq![parts.deep_view()[0]]);
        assert(join_char(parts.deep_view().take(1), '\n') == parts.deep_view()[0]);
    }
    while i < parts.len()
        invariant
            1 <= i <= parts.len(),
            acc@ == join_char(parts.deep_view().take(i as int), '\n'),
        decreases parts.len() - i,
    {
        acc.append("\n");
        proof {
            reveal_strlit("\n");
            assert("\n"@ =~= seq!['\n']);
        }
        acc.append(parts[i].as_str());
        proof {
            let dv = parts.deep_view();
            assert(dv.take(i + 1).drop_last() =~= dv.take(i as int));
            assert(dv.take(i + 1).last() == dv[i as int]);
            assert(join_char(dv.take(i + 1), '\n') == join_char(dv.take(i as int), '\n')
                + seq!['\n'] + dv[i as int]);
        }
        i = i + 1;
    }
    proof {
        assert(parts.deep_view().take(parts.len() as int) =~= parts.deep_view());
    }
    acc
}

/// The character for one decimal digit.
pub open spec fn decimal_digit(n: int) -> char {
    if n == 0 {
        '0'
    } else if n == 1 {
        '1'
    } else if n == 2 {
        '2'
    } else if n == 3 {
        '3'
    } else if n == 4 {
        '4'
    } else if n == 5 {
        '5'
    } else if n == 6 {
        '6'
    } else if n == 7 {
        '7'
    } else if n == 8 {
        '8'
    } else {
        '9'
    }
}

/// The usual decimal rendering of a non-negative integer, without sign
/// or leading zeros.
pub open spec fn decimal_of(n: int) -> Seq<char>
    decreases n,
{
    if n < 10 {
        seq![decimal_digit(n)]
    } else {
        decimal_of(n / 10).push(decimal_digit(n % 10))
    }
}

fn digit_str(d: u32) -> (r: &'static str)
    requires
        d < 10,
    ensures
        r@ =~= seq![decimal_digit(d as int)],
{
    if d == 0 {
        proof {
            reveal_strlit("0");
        }
        "0"
    } else if d == 1 {
        proof {
            reveal_strlit("1");
        }
        "1"
    } else if d == 2 {
        proof {
            reveal_strlit("2");
        }
        "2"
    } else if d == 3 {
        proof {
            reveal_strlit("3");
        }
        "3"
    } else if d == 4 {
        proof {
            reveal_strlit("4");
        }
        "4"
    } else if d == 5 {
        proof {
            reveal_strlit("5");
        }
        "5"
    } else if d == 6 {
        proof {
            reveal_strlit("6");
        }
        "6"
    } else if d == 7 {
        proof {
            reveal_strlit("7");
        }
        "7"
    } else if d == 8 {
        proof {
            reveal_strlit("8");
        }
        "8"
    } else {
        proof {
            reveal_strlit("9");
        }
        "9"
    }
}

/// Renders `n` in decimal.
pub fn u32_decimal(n: u32) -> (r: String)
    ensures
        r@ == decimal_of(n as int),
    decreases n,
{
    if n < 10 {
        digit_str(n).to_owned()
    } else {
        let mut s = u32_decimal(n / 10);
        s.append(digit_str(n % 10));
        proof {
            assert(decimal_of((n / 10) as int) + seq![decimal_digit((n % 10) as int)]
                =~= decimal_of((n / 10) as int).push(decimal_digit((n % 10) as int)));
        }
        s
    }
}

/// The two literal spellings a descriptor may use for a true boolean:
/// `"true"` in any letter case, or `"1"`.
pub open spec fn is_truthy(s: Seq<char>) -> bool {
    (s.len() == 4 && (s[0] == 't' || s[0] == 'T') && (s[1] == 'r' || s[1] == 'R') && (s[2] == 'u'
        || s[2] == 'U') && (s[3] == 'e' || s[3] == 'E')) || s =~= seq!['1']
}

/// Whether `s` spells a true boolean in a descriptor.
pub fn truthy(s: &str) -> (r: bool)
    ensures
        r == is_truthy(s@),
{
    let n = s.unicode_len();
    if n == 4 {
        let c0 = s.get_char(0);
        let c1 = s.get_char(1);
        let c2 = s.get_char(2);
        let c3 = s.get_char(3);
        (c0 == 't' || c0 == 'T') && (c1 == 'r' || c1 == 'R') && (c2 == 'u' || c2 == 'U') && (c3
            == 'e' || c3 == 'E')
    } else if n == 1 {
        let r = s.get_char(0) == '1';
        proof {
            if r {
                assert(s@ =~= seq!['1']);
            }
        }
        r
    } else {
        false
    }
}

/// Character-by-character equality of two string slices.
pub fn str_eq(a: &str, b: &str) -> (r: bool)
    ensures
        r == (a@ == b@),
{
    let n = a.unicode_len();
    let m = b.unicode_len();
    if n != m {
        return false;
    }
    let mut i: usize = 0;
    while i < n
        invariant
            n == a@.len(),
            n == b@.len(),
            0 <= i <= n,
            forall|j: int| 0 <= j < i ==> a@[j] == b@[j],
        decreases n - i,
    {
        if a.get_char(i) != b.get_char(i) {
            return false;
        }
        i = i + 1;
    }
    assert(a@ =~= b@);
    true
}

} // verus!
