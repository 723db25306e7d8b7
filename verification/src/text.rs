//! Character-level text utilities: equality, search, splitting, trimming,
//! lexicographic comparison, substring containment, and decimal conversion.
//!
//! Everything here is verified against spec functions over `Seq<char>` views.
use vstd::prelude::*;

verus! {

/// Compares two string slices character by character.
pub fn str_eq(a: &str, b: &str) -> (r: bool)
    ensures
        r == (a@ == b@),
{
    let alen = a.unicode_len();
    let blen = b.unicode_len();
    if alen != blen {
        return false;
    }
    let mut i: usize = 0;
    while i < alen
        invariant
            i <= alen,
            forall|k: int| 0 <= k < i ==> a@[k] == b@[k],
        decreases alen - i,
    {
        if a.get_char(i) != b.get_char(i) {
            return false;
        }
        i = i + 1;
    }
    proof {
        assert(a@ =~= b@);
    }
    true
}

/// Finds the first occurrence of `c` in `s` at or after index `from`.
pub fn find_char(s: &str, from: usize, c: char) -> (r: Option<usize>)
    requires
        from <= s@.len(),
    ensures
        match r {
            Some(i) => from <= i < s@.len() && s@[i as int] == c && (forall|k: int|
                from <= k < i ==> s@[k] != c),
            None => forall|k: int| from <= k < s@.len() ==> s@[k] != c,
        },
{
    let len = s.unicode_len();
    let mut i: usize = from;
    while i < len
        invariant
            from <= i <= len,
            forall|k: int| from <= k < i ==> s@[k] != c,
        decreases len - i,
    {
        if s.get_char(i) == c {
            return Some(i);
        }
        i = i + 1;
    }
    None
}

/// Copies the character range `[from, to)` of `s` into an owned string.
pub fn substring(s: &str, from: usize, to: usize) -> (r: String)
    requires
        from <= to <= s@.len(),
    ensures
        r@ == s@.subrange(from as int, to as int),
{
    s.substring_char(from, to).to_owned()
}

/// Index of the first occurrence of `c` in `s`, or -1 when `c` does not occur.
pub open spec fn find_idx(s: Seq<char>, c: char) -> int
    decreases s.len(),
{
    if s.len() == 0 {
        -1
    } else if s[0] == c {
        0
    } else {
        if find_idx(s.skip(1), c) < 0 {
            -1
        } else {
            find_idx(s.skip(1), c) + 1
        }
    }
}

/// `find_idx` returns the least index holding `c`, or -1 when there is none.
pub proof fn lemma_find_idx(s: Seq<char>, c: char)
    ensures
        find_idx(s, c) < 0 ==> forall|k: int| 0 <= k < s.len() ==> s[k] != c,
        find_idx(s, c) >= 0 ==> find_idx(s, c) < s.len() && s[find_idx(s, c)] == c && (forall|
            k: int,
        | 0 <= k < find_idx(s, c) ==> s[k] != c),
    decreases s.len(),
{
    if s.len() > 0 && s[0] != c {
        lemma_find_idx(s.skip(1), c);
        assert(forall|k: int| 1 <= k < s.len() ==> s[k] == s.skip(1)[k - 1]);
    }
}

/// `find_idx` is pinned down by a witness: a position holding `c` with no
/// earlier one.
pub proof fn lemma_find_idx_is(s: Seq<char>, c: char, j: int)
    requires
        0 <= j < s.len(),
        s[j] == c,
        forall|k: int| 0 <= k < j ==> s[k] != c,
    ensures
        find_idx(s, c) == j,
{
    lemma_find_idx(s, c);
    if find_idx(s, c) < 0 {
        assert(s[j] != c);
    } else if find_idx(s, c) < j {
        assert(s[find_idx(s, c)] != c);
    } else if find_idx(s, c) > j {
        assert(s[j] != c);
    }
}

/// Splitting a delimiter-free piece, the delimiter, and a remainder yields
/// the piece followed by the remainder's split.
pub proof fn lemma_split_prepend(line: Seq<char>, rest: Seq<char>, c: char)
    requires
        forall|k: int| 0 <= k < line.len() ==> line[k] != c,
    ensures
        spec_split(line + seq![c] + rest, c) == seq![line] + spec_split(rest, c),
{
    let s = line + seq![c] + rest;
    assert(s[line.len() as int] == c);
    assert(forall|k: int| 0 <= k < line.len() ==> s[k] == line[k]);
    lemma_find_idx_is(s, c, line.len() as int);
    assert(s.subrange(0, line.len() as int) =~= line);
    assert(s.subrange(line.len() as int + 1, s.len() as int) =~= rest);
}

/// The pieces of `s` delimited by `c`; a string without `c` is one piece.
pub open spec fn spec_split(s: Seq<char>, c: char) -> Seq<Seq<char>>
    decreases s.len(),
    via spec_split_decreases
{
    if find_idx(s, c) < 0 {
        seq![s]
    } else {
        seq![s.subrange(0, find_idx(s, c))] + spec_split(
            s.subrange(find_idx(s, c) + 1, s.len() as int),
            c,
        )
    }
}

#[via_fn]
proof fn spec_split_decreases(s: Seq<char>, c: char) {
    lemma_find_idx(s, c);
}

/// A split never yields an empty piece list.
pub proof fn lemma_split_nonempty(s: Seq<char>, c: char)
    ensures
        spec_split(s, c).len() >= 1,
    decreases s.len(),
{
    lemma_find_idx(s, c);
    if find_idx(s, c) >= 0 {
        lemma_split_nonempty(s.subrange(find_idx(s, c) + 1, s.len() as int), c);
    }
}

/// Splits `s` at every occurrence of `c`.
pub fn split_char(s: &str, c: char) -> (r: Vec<String>)
    ensures
        r.deep_view() == spec_split(s@, c),
{
    let len = s.unicode_len();
    let mut r: Vec<String> = Vec::new();
    let mut start: usize = 0;
    proof {
        assert(s@.subrange(0, len as int) =~= s@);
        assert(r.deep_view() =~= Seq::<Seq<char>>::empty());
        assert(r.deep_view() + spec_split(s@, c) =~= spec_split(s@, c));
    }
    loop
        invariant
            start <= len,
            spec_split(s@, c) == r.deep_view() + spec_split(
                s@.subrange(start as int, len as int),
                c,
            ),
        decreases len - start,
    {
        let suffix_view = Ghost(s@.subrange(start as int, len as int));
        match find_char(s, start, c) {
            Some(i) => {
                proof {
                    lemma_find_idx(suffix_view@, c);
                    assert(suffix_view@[i - start] == c);
                    assert(forall|k: int| 0 <= k < i - start ==> suffix_view@[k] != c);
                    assert(find_idx(suffix_view@, c) == i - start);
                    assert(suffix_view@.subrange(0, i - start) =~= s@.subrange(
                        start as int,
                        i as int,
                    ));
                    assert(suffix_view@.subrange(i - start + 1, suffix_view@.len() as int)
                        =~= s@.subrange(i + 1, len as int));
                }
                let piece = substring(s, start, i);
                let ghost old_dv = r.deep_view();
                r.push(piece);
                proof {
                    assert(r.deep_view() =~= old_dv.push(piece@));
                    assert(old_dv.push(piece@) =~= old_dv + seq![piece@]);
                    assert(r.deep_view() + spec_split(s@.subrange(i + 1, len as int), c)
                        =~= spec_split(s@, c));
                }
                start = i + 1;
            },
            None => {
                proof {
                    lemma_find_idx(suffix_view@, c);
                    assert(forall|k: int| 0 <= k < suffix_view@.len() ==> suffix_view@[k] != c);
                    assert(find_idx(suffix_view@, c) < 0);
                }
                let piece = substring(s, start, len);
                let ghost old_dv = r.deep_view();
                r.push(piece);
                proof {
                    assert(r.deep_view() =~= old_dv.push(piece@));
                    assert(old_dv.push(piece@) =~= old_dv + seq![piece@]);
                    assert(r.deep_view() =~= spec_split(s@, c));
                }
                return r;
            },
        }
    }
}

/// Joins two string slices.
pub fn concat2(a: &str, b: &str) -> (r: String)
    ensures
        r@ == a@ + b@,
{
    let mut s = a.to_owned();
    s.append(b);
    s
}

/// Joins three string slices.
pub fn concat3(a: &str, b: &str, c: &str) -> (r: String)
    ensures
        r@ == a@ + b@ + c@,
{
    let mut s = a.to_owned();
    s.append(b);
    s.append(c);
    s
}

/// The value bound to `k`: the first pair of `bs` whose key is `k`.
pub open spec fn spec_lookup(bs: Seq<(Seq<char>, Seq<char>)>, k: Seq<char>) -> Option<Seq<char>>
    decreases bs.len(),
{
    if bs.len() == 0 {
        None
    } else if bs[0].0 == k {
        Some(bs[0].1)
    } else {
        spec_lookup(bs.skip(1), k)
    }
}

/// The whitespace characters that trimming removes.
pub open spec fn is_space(c: char) -> bool {
    c == ' ' || c == '\t' || c == '\r' || c == '\n'
}

/// `s` without its leading whitespace.
pub open spec fn trim_front(s: Seq<char>) -> Seq<char>
    decreases s.len(),
{
    if s.len() > 0 && is_space(s[0]) {
        trim_front(s.skip(1))
    } else {
        s
    }
}

/// `s` without its trailing whitespace.
pub open spec fn trim_back(s: Seq<char>) -> Seq<char>
    decreases s.len(),
{
    if s.len() > 0 && is_space(s[s.len() - 1]) {
        trim_back(s.drop_last())
    } else {
        s
    }
}

/// `s` without leading and trailing whitespace.
pub open spec fn spec_trim(s: Seq<char>) -> Seq<char> {
    trim_back(trim_front(s))
}

fn is_space_char(c: char) -> (r: bool)
    ensures
        r == is_space(c),
{
    c == ' ' || c == '\t' || c == '\r' || c == '\n'
}

/// Removes leading and trailing whitespace.
#[verifier::loop_isolation(true)]
pub fn trim(s: &str) -> (r: String)
    ensures
        r@ == spec_trim(s@),
{
    let len = s.unicode_len();
    let mut l: usize = 0;
    proof {
        assert(s@.subrange(0, len as int) =~= s@);
    }
    loop
        invariant
            len == s@.len(),
            l <= len,
            trim_front(s@) == trim_front(s@.subrange(l as int, len as int)),
        ensures
            l <= len,
            trim_front(s@) == s@.subrange(l as int, len as int),
        decreases len - l,
    {
        if l == len {
            proof {
                assert(s@.subrange(l as int, len as int) =~= Seq::<char>::empty());
            }
            break;
        }
        if !is_space_char(s.get_char(l)) {
            proof {
                assert(s@.subrange(l as int, len as int)[0] == s@[l as int]);
            }
            break;
        }
        proof {
            assert(s@.subrange(l as int, len as int).skip(1) =~= s@.subrange(
                l + 1,
                len as int,
            ));
        }
        l = l + 1;
    }
    let mut r: usize = len;
    loop
        invariant
            len == s@.len(),
            l <= r <= len,
            trim_back(s@.subrange(l as int, len as int)) == trim_back(
                s@.subrange(l as int, r as int),
            ),
        ensures
            l <= r <= len,
            trim_back(s@.subrange(l as int, len as int)) == s@.subrange(l as int, r as int),
        decreases r,
    {
        if r == l {
            proof {
                assert(s@.subrange(l as int, r as int) =~= Seq::<char>::empty());
            }
            break;
        }
        if !is_space_char(s.get_char(r - 1)) {
            proof {
                let part = s@.subrange(l as int, r as int);
                assert(part[part.len() - 1] == s@[r - 1]);
            }
            break;
        }
        proof {
            assert(s@.subrange(l as int, r as int).drop_last() =~= s@.subrange(
                l as int,
                r - 1,
            ));
        }
        r = r - 1;
    }
    substring(s, l, r)
}

/// Strict lexicographic order on character sequences, by code point.
pub open spec fn seq_lt(a: Seq<char>, b: Seq<char>) -> bool
    decreases a.len(),
{
    b.len() > 0 && (a.len() == 0 || (a[0] as int) < (b[0] as int) || (a[0] == b[0] && seq_lt(
        a.skip(1),
        b.skip(1),
    )))
}

/// Lexicographic order is irreflexive.
pub proof fn lemma_seq_lt_irrefl(a: Seq<char>)
    ensures
        !seq_lt(a, a),
    decreases a.len(),
{
    if a.len() > 0 {
        lemma_seq_lt_irrefl(a.skip(1));
    }
}

/// Exactly one of `a < b`, `a == b`, `b < a` holds.
pub proof fn lemma_seq_lt_trichotomy(a: Seq<char>, b: Seq<char>)
    ensures
        seq_lt(a, b) || seq_lt(b, a) || a == b,
        seq_lt(a, b) ==> !seq_lt(b, a) && a != b,
        seq_lt(b, a) ==> !seq_lt(a, b) && a != b,
    decreases a.len(),
{
    lemma_seq_lt_irrefl(a);
    lemma_seq_lt_irrefl(b);
    if a.len() > 0 && b.len() > 0 && a[0] == b[0] {
        lemma_seq_lt_trichotomy(a.skip(1), b.skip(1));
        if a.skip(1) == b.skip(1) {
            assert(forall|k: int| 1 <= k < a.len() ==> a[k] == a.skip(1)[k - 1]);
            assert(forall|k: int| 1 <= k < b.len() ==> b[k] == b.skip(1)[k - 1]);
            assert(a =~= b);
        }
    } else if a.len() == 0 && b.len() == 0 {
        assert(a =~= b);
    }
}

/// Lexicographic order is transitive.
pub proof fn lemma_seq_lt_trans(a: Seq<char>, b: Seq<char>, c: Seq<char>)
    requires
        seq_lt(a, b),
        seq_lt(b, c),
    ensures
        seq_lt(a, c),
    decreases a.len(),
{
    if a.len() > 0 && b.len() > 0 && c.len() > 0 && a[0] == b[0] && b[0] == c[0] {
        lemma_seq_lt_trans(a.skip(1), b.skip(1), c.skip(1));
    }
}

/// Compares two strings in lexicographic (code point) order.
pub fn str_lt(a: &str, b: &str) -> (r: bool)
    ensures
        r == seq_lt(a@, b@),
{
    let alen = a.unicode_len();
    let blen = b.unicode_len();
    let mut i: usize = 0;
    proof {
        assert(a@.skip(0) =~= a@);
        assert(b@.skip(0) =~= b@);
    }
    loop
        invariant
            i <= alen,
            i <= blen,
            seq_lt(a@, b@) == seq_lt(a@.skip(i as int), b@.skip(i as int)),
        decreases alen - i,
    {
        if i == alen || i == blen {
            proof {
                if i == blen {
                    assert(b@.skip(i as int).len() == 0);
                } else {
                    assert(a@.skip(i as int).len() == 0);
                    assert(b@.skip(i as int).len() > 0);
                }
            }
            return i < blen;
        }
        let ca = a.get_char(i);
        let cb = b.get_char(i);
        proof {
            assert(a@.skip(i as int)[0] == a@[i as int]);
            assert(b@.skip(i as int)[0] == b@[i as int]);
        }
        if (ca as u32) < (cb as u32) {
            return true;
        }
        if (ca as u32) > (cb as u32) {
            return false;
        }
        proof {
            assert(ca == cb);
            assert(a@.skip(i as int).skip(1) =~= a@.skip(i + 1));
            assert(b@.skip(i as int).skip(1) =~= b@.skip(i + 1));
        }
        i = i + 1;
    }
}

/// `p` occurs as a contiguous run somewhere in `s`.
pub open spec fn contains_seq(s: Seq<char>, p: Seq<char>) -> bool {
    exists|i: int| 0 <= i && i + p.len() <= s.len() && #[trigger] s.subrange(i, i + p.len()) == p
}

fn match_at(s: &str, p: &str, at: usize) -> (r: bool)
    requires
        at + p@.len() <= s@.len(),
    ensures
        r == (s@.subrange(at as int, at + p@.len()) == p@),
{
    let slen = s.unicode_len();
    let plen = p.unicode_len();
    let mut j: usize = 0;
    while j < plen
        invariant
            j <= plen,
            at + plen <= slen,
            forall|k: int| 0 <= k < j ==> s@[at + k] == p@[k],
        decreases plen - j,
    {
        if s.get_char(at + j) != p.get_char(j) {
            proof {
                assert(s@.subrange(at as int, at + p@.len())[j as int] == s@[at + j]);
            }
            return false;
        }
        j = j + 1;
    }
    proof {
        assert(s@.subrange(at as int, at + p@.len()) =~= p@);
    }
    true
}

/// Whether `s` contains `p` as a substring.
pub fn contains_sub(s: &str, p: &str) -> (r: bool)
    ensures
        r == contains_seq(s@, p@),
{
    let slen = s.unicode_len();
    let plen = p.unicode_len();
    if plen > slen {
        return false;
    }
    if plen == 0 {
        proof {
            assert(s@.subrange(0, 0 + p@.len() as int) =~= p@);
            assert(contains_seq(s@, p@));
        }
        return true;
    }
    let mut i: usize = 0;
    while i <= slen - plen
        invariant
            0 < plen <= slen,
            i <= slen - plen + 1,
            forall|k: int| 0 <= k < i ==> #[trigger] s@.subrange(k, k + p@.len()) != p@,
        decreases slen - i,
    {
        if match_at(s, p, i) {
            proof {
                assert(contains_seq(s@, p@));
            }
            return true;
        }
        i = i + 1;
    }
    false
}

/// The character of a single decimal digit.
pub open spec fn digit_char(d: int) -> char {
    if d == 0 {
        '0'
    } else if d == 1 {
        '1'
    } else if d == 2 {
        '2'
    } else if d == 3 {
        '3'
    } else if d == 4 {
        '4'
    } else if d == 5 {
        '5'
    } else if d == 6 {
        '6'
    } else if d == 7 {
        '7'
    } else if d == 8 {
        '8'
    } else {
        '9'
    }
}

/// The decimal rendering of `n`, without leading zeros.
pub open spec fn spec_dec(n: nat) -> Seq<char>
    decreases n,
{
    if n < 10 {
        seq![digit_char(n as int)]
    } else {
        spec_dec(n / 10) + seq![digit_char((n % 10) as int)]
    }
}

fn append_digit(s: &mut String, d: u16)
    requires
        d < 10,
    ensures
        final(s)@ == old(s)@ + seq![digit_char(d as int)],
{
    if d == 0 {
        s.append("0");
        proof {
            reveal_strlit("0");
            assert(old(s)@ + "0"@ =~= old(s)@ + seq![digit_char(0)]);
        }
    } else if d == 1 {
        s.append("1");
        proof {
            reveal_strlit("1");
            assert(old(s)@ + "1"@ =~= old(s)@ + seq![digit_char(1)]);
        }
    } else if d == 2 {
        s.append("2");
        proof {
            reveal_strlit("2");
            assert(old(s)@ + "2"@ =~= old(s)@ + seq![digit_char(2)]);
        }
    } else if d == 3 {
        s.append("3");
        proof {
            reveal_strlit("3");
            assert(old(s)@ + "3"@ =~= old(s)@ + seq![digit_char(3)]);
        }
    } else if d == 4 {
        s.append("4");
        proof {
            reveal_strlit("4");
            assert(old(s)@ + "4"@ =~= old(s)@ + seq![digit_char(4)]);
        }
    } else if d == 5 {
        s.append("5");
        proof {
            reveal_strlit("5");
            assert(old(s)@ + "5"@ =~= old(s)@ + seq![digit_char(5)]);
        }
    } else if d == 6 {
        s.append("6");
        proof {
            reveal_strlit("6");
            assert(old(s)@ + "6"@ =~= old(s)@ + seq![digit_char(6)]);
        }
    } else if d == 7 {
        s.append("7");
        proof {
            reveal_strlit("7");
            assert(old(s)@ + "7"@ =~= old(s)@ + seq![digit_char(7)]);
        }
    } else if d == 8 {
        s.append("8");
        proof {
            reveal_strlit("8");
            assert(old(s)@ + "8"@ =~= old(s)@ + seq![digit_char(8)]);
        }
    } else {
        s.append("9");
        proof {
            reveal_strlit("9");
            assert(old(s)@ + "9"@ =~= old(s)@ + seq![digit_char(9)]);
        }
    }
}

fn append_u16(s: &mut String, n: u16)
    ensures
        final(s)@ == old(s)@ + spec_dec(n as nat),
    decreases n,
{
    if n >= 10 {
        append_u16(s, n / 10);
        append_digit(s, n % 10);
        proof {
            assert(old(s)@ + spec_dec((n / 10) as nat) + seq![
                digit_char((n % 10) as int),
            ] =~= old(s)@ + spec_dec(n as nat));
        }
    } else {
        append_digit(s, n);
    }
}

/// Renders `n` in decimal.
pub fn u16_string(n: u16) -> (r: String)
    ensures
        r@ == spec_dec(n as nat),
{
    let mut s = String::new();
    append_u16(&mut s, n);
    proof {
        assert(Seq::<char>::empty() + spec_dec(n as nat) =~= spec_dec(n as nat));
    }
    s
}

/// Whether `c` is a decimal digit.
pub open spec fn is_digit(c: char) -> bool {
    c == '0' || c == '1' || c == '2' || c == '3' || c == '4' || c == '5' || c == '6' || c == '7'
        || c == '8' || c == '9'
}

/// The value of a decimal digit character.
pub open spec fn digit_val(c: char) -> nat {
    if c == '0' {
        0
    } else if c == '1' {
        1
    } else if c == '2' {
        2
    } else if c == '3' {
        3
    } else if c == '4' {
        4
    } else if c == '5' {
        5
    } else if c == '6' {
        6
    } else if c == '7' {
        7
    } else if c == '8' {
        8
    } else {
        9
    }
}

/// All characters of `s` are decimal digits.
pub open spec fn all_digits(s: Seq<char>) -> bool {
    forall|k: int| 0 <= k < s.len() ==> is_digit(s[k])
}

/// The numeric value of a digit string.
pub open spec fn dec_value(s: Seq<char>) -> nat
    decreases s.len(),
{
    if s.len() == 0 {
        0
    } else {
        dec_value(s.drop_last()) * 10 + digit_val(s.last())
    }
}

/// A digit string is worth at least any of its prefixes.
proof fn lemma_dec_value_prefix(s: Seq<char>, i: int)
    requires
        0 <= i <= s.len(),
    ensures
        dec_value(s.subrange(0, i)) <= dec_value(s),
    decreases s.len() - i,
{
    if i < s.len() {
        lemma_dec_value_prefix(s, i + 1);
        assert(s.subrange(0, i + 1).drop_last() =~= s.subrange(0, i));
        assert(dec_value(s.subrange(0, i + 1)) == dec_value(s.subrange(0, i)) * 10 + digit_val(
            s.subrange(0, i + 1).last(),
        ));
    } else {
        assert(s.subrange(0, i) =~= s);
    }
}

fn digit_of(c: char) -> (r: Option<u8>)
    ensures
        r is Some <==> is_digit(c),
        r is Some ==> r->Some_0 as nat == digit_val(c),
{
    if c == '0' {
        Some(0)
    } else if c == '1' {
        Some(1)
    } else if c == '2' {
        Some(2)
    } else if c == '3' {
        Some(3)
    } else if c == '4' {
        Some(4)
    } else if c == '5' {
        Some(5)
    } else if c == '6' {
        Some(6)
    } else if c == '7' {
        Some(7)
    } else if c == '8' {
        Some(8)
    } else if c == '9' {
        Some(9)
    } else {
        None
    }
}

/// Parses a decimal port number. Succeeds exactly on nonempty all-digit
/// strings whose value fits in a `u16`.
pub fn parse_port(s: &str) -> (r: Option<u16>)
    ensures
        match r {
            Some(v) => s@.len() > 0 && all_digits(s@) && dec_value(s@) == v as nat,
            None => s@.len() == 0 || !all_digits(s@) || dec_value(s@) > u16::MAX,
        },
{
    let len = s.unicode_len();
    if len == 0 {
        return None;
    }
    let mut acc: u32 = 0;
    let mut i: usize = 0;
    while i < len
        invariant
            i <= len,
            forall|k: int| 0 <= k < i ==> is_digit(s@[k]),
            acc as nat == dec_value(s@.subrange(0, i as int)),
            acc <= 65535,
        decreases len - i,
    {
        let c = s.get_char(i);
        let d = match digit_of(c) {
            Some(d) => d,
            None => {
                proof {
                    assert(!is_digit(s@[i as int]));
                }
                return None;
            },
        };
        acc = acc * 10 + (d as u32);
        proof {
            assert(s@.subrange(0, i + 1).drop_last() =~= s@.subrange(0, i as int));
            assert(s@.subrange(0, i + 1).last() == s@[i as int]);
        }
        i = i + 1;
        if acc > 65535 {
            proof {
                if all_digits(s@) {
                    lemma_dec_value_prefix(s@, i as int);
                }
            }
            return None;
        }
    }
    proof {
        assert(s@.subrange(0, len as int) =~= s@);
    }
    Some(acc as u16)
}

} // verus!
