//! Character-level text operations with their specifications: the ordering
//! that sorted maps use for their keys, decimal numerals, splitting on
//! separator characters and joining with a separator.
use vstd::prelude::*;
use vstd::string::*;

verus! {

/// Strict lexicographic order on character sequences.  Rust orders `str`
/// values by their UTF-8 bytes, which is the order of Unicode code points,
/// so this is the order in which a `BTreeMap<String, _>` keeps its keys.
pub open spec fn key_lt(a: Seq<char>, b: Seq<char>) -> bool
    decreases a.len(),
{
    if a.len() == 0 {
        b.len() > 0
    } else if b.len() == 0 {
        false
    } else if a[0] != b[0] {
        (a[0] as int) < (b[0] as int)
    } else {
        key_lt(a.drop_first(), b.drop_first())
    }
}

pub proof fn lemma_key_lt_irreflexive(a: Seq<char>)
    ensures
        !key_lt(a, a),
    decreases a.len(),
{
    if a.len() > 0 {
        lemma_key_lt_irreflexive(a.drop_first());
    }
}

pub proof fn lemma_key_lt_asymmetric(a: Seq<char>, b: Seq<char>)
    requires
        key_lt(a, b),
    ensures
        !key_lt(b, a),
    decreases a.len(),
{
    if a.len() > 0 && b.len() > 0 && a[0] == b[0] {
        lemma_key_lt_asymmetric(a.drop_first(), b.drop_first());
    }
}

pub proof fn lemma_key_lt_transitive(a: Seq<char>, b: Seq<char>, c: Seq<char>)
    requires
        key_lt(a, b),
        key_lt(b, c),
    ensures
        key_lt(a, c),
    decreases a.len(),
{
    if a.len() > 0 && b.len() > 0 && c.len() > 0 && a[0] == b[0] && b[0] == c[0] {
        lemma_key_lt_transitive(a.drop_first(), b.drop_first(), c.drop_first());
    }
}

pub proof fn lemma_key_lt_total(a: Seq<char>, b: Seq<char>)
    requires
        a != b,
    ensures
        key_lt(a, b) || key_lt(b, a),
    decreases a.len(),
{
    if a.len() > 0 && b.len() > 0 {
        if a[0] == b[0] {
            if a.drop_first() == b.drop_first() {
                assert(a =~= seq![a[0]] + a.drop_first());
                assert(b =~= seq![b[0]] + b.drop_first());
            }
            lemma_key_lt_total(a.drop_first(), b.drop_first());
        } else {
            assert((a[0] as int) != (b[0] as int));
        }
    } else if a.len() == 0 && b.len() == 0 {
        assert(a =~= b);
    }
}

/// Sequences with a common prefix of length `i` compare as their suffixes do.
proof fn lemma_key_lt_common_prefix(a: Seq<char>, b: Seq<char>, i: int)
    requires
        0 <= i <= a.len(),
        i <= b.len(),
        a.take(i) =~= b.take(i),
    ensures
        key_lt(a, b) == key_lt(a.skip(i), b.skip(i)),
    decreases i,
{
    if i == 0 {
        assert(a.skip(0) =~= a);
        assert(b.skip(0) =~= b);
    } else {
        assert(a[0] == a.take(i)[0]);
        assert(b[0] == b.take(i)[0]);
        assert(a.drop_first().take(i - 1) =~= a.take(i).drop_first());
        assert(b.drop_first().take(i - 1) =~= b.take(i).drop_first());
        lemma_key_lt_common_prefix(a.drop_first(), b.drop_first(), i - 1);
        assert(a.drop_first().skip(i - 1) =~= a.skip(i));
        assert(b.drop_first().skip(i - 1) =~= b.skip(i));
    }
}

/// The outcome of comparing two texts.
#[derive(PartialEq, Eq, Structural, Clone, Copy, Debug)]
pub enum KeyOrder {
    Less,
    Equal,
    Greater,
}

/// Compares two texts in the order of `key_lt`.
pub fn compare_text(a: &str, b: &str) -> (res: KeyOrder)
    ensures
        (res == KeyOrder::Less) == key_lt(a@, b@),
        (res == KeyOrder::Equal) == (a@ == b@),
        (res == KeyOrder::Greater) == key_lt(b@, a@),
{
    let n = a.unicode_len();
    let m = b.unicode_len();
    let mut i: usize = 0;
    while i < n && i < m
        invariant
            0 <= i <= n,
            i <= m,
            n == a@.len(),
            m == b@.len(),
            a@.take(i as int) =~= b@.take(i as int),
        decreases n - i,
    {
        let x = a.get_char(i);
        let y = b.get_char(i);
        if x != y {
            proof {
                lemma_key_lt_common_prefix(a@, b@, i as int);
                lemma_key_lt_common_prefix(b@, a@, i as int);
                assert(a@.skip(i as int)[0] == x);
                assert(b@.skip(i as int)[0] == y);
                if a@ == b@ {
                    assert(a@[i as int] == b@[i as int]);
                }
            }
            if (x as u32) < (y as u32) {
                return KeyOrder::Less;
            } else {
                return KeyOrder::Greater;
            }
        }
        assert(a@.take(i + 1) =~= a@.take(i as int).push(x));
        assert(b@.take(i + 1) =~= b@.take(i as int).push(y));
        i = i + 1;
    }
    proof {
        lemma_key_lt_common_prefix(a@, b@, i as int);
        lemma_key_lt_common_prefix(b@, a@, i as int);
        if n == m {
            assert(a@ =~= a@.take(i as int));
            assert(b@ =~= b@.take(i as int));
        } else if a@ == b@ {
            assert(false);
        }
    }
    if n < m {
        KeyOrder::Less
    } else if m < n {
        KeyOrder::Greater
    } else {
        KeyOrder::Equal
    }
}

/// Whether `c` occurs in `s`.
pub fn has_char(s: &str, c: char) -> (res: bool)
    ensures
        res == s@.contains(c),
{
    let n = s.unicode_len();
    let mut i: usize = 0;
    while i < n
        invariant
            0 <= i <= n,
            n == s@.len(),
            forall|j: int| 0 <= j < i ==> s@[j] != c,
        decreases n - i,
    {
        if s.get_char(i) == c {
            return true;
        }
        i = i + 1;
    }
    false
}

/// The character of the decimal digit `d`.
pub open spec fn digit_char(d: nat) -> char {
    (48 + d) as char
}

/// The decimal numeral of `n`, with no sign and no leading zeros.
pub open spec fn decimal(n: nat) -> Seq<char>
    decreases n,
{
    if n < 10 {
        seq![digit_char(n)]
    } else {
        decimal(n / 10).push(digit_char(n % 10))
    }
}

fn digit_text(d: u64) -> (res: &'static str)
    requires
        d < 10,
    ensures
        res@ == seq![digit_char(d as nat)],
{
    if d == 0 {
        proof { reveal_strlit("0"); }
        "0"
    } else if d == 1 {
        proof { reveal_strlit("1"); }
        "1"
    } else if d == 2 {
        proof { reveal_strlit("2"); }
        "2"
    } else if d == 3 {
        proof { reveal_strlit("3"); }
        "3"
    } else if d == 4 {
        proof { reveal_strlit("4"); }
        "4"
    } else if d == 5 {
        proof { reveal_strlit("5"); }
        "5"
    } else if d == 6 {
        proof { reveal_strlit("6"); }
        "6"
    } else if d == 7 {
        proof { reveal_strlit("7"); }
        "7"
    } else if d == 8 {
        proof { reveal_strlit("8"); }
        "8"
    } else {
        proof { reveal_strlit("9"); }
        "9"
    }
}

/// Writes `n` in decimal, as `n.to_string()` does.
pub fn decimal_text(n: u64) -> (res: String)
    ensures
        res@ == decimal(n as nat),
{
    let mut m: u64 = n;
    let mut s = String::new();
    loop
        invariant
            decimal(n as nat) == decimal(m as nat) + s@,
        decreases m,
    {
        let d = m % 10;
        let piece = String::from_str(digit_text(d));
        let ghost old_s = s@;
        s = piece.concat(s.as_str());
        if m < 10 {
            assert(decimal(m as nat) == seq![digit_char(m as nat)]);
            assert(decimal(n as nat) =~= s@);
            return s;
        }
        assert(decimal(m as nat) == decimal((m / 10) as nat).push(digit_char((m % 10) as nat)));
        assert(decimal(m as nat) + old_s =~= decimal((m / 10) as nat) + s@);
        m = m / 10;
    }
}

/// Whether `c` is an ASCII decimal digit.
pub open spec fn is_digit(c: char) -> bool {
    48 <= (c as int) <= 57
}

/// The value of a sequence of decimal digits.
pub open spec fn digits_value(s: Seq<char>) -> nat
    decreases s.len(),
{
    if s.len() == 0 {
        0
    } else {
        digits_value(s.drop_last()) * 10 + ((s.last() as int) - 48) as nat
    }
}

/// Whether every character of `s` is an ASCII decimal digit.
pub open spec fn all_digits(s: Seq<char>) -> bool {
    forall|i: int| 0 <= i < s.len() ==> is_digit(#[trigger] s[i])
}

/// `s` without one leading `+`, if it has one.
pub open spec fn without_plus(s: Seq<char>) -> Seq<char> {
    if s.len() > 0 && s[0] == '+' {
        s.drop_first()
    } else {
        s
    }
}

/// A decimal numeral is all digits, starts with a digit and has the value
/// it writes.
pub proof fn lemma_decimal_reads_back(n: nat)
    ensures
        decimal(n).len() > 0,
        all_digits(decimal(n)),
        is_digit(decimal(n)[0]),
        digits_value(decimal(n)) == n,
    decreases n,
{
    if n >= 10 {
        lemma_decimal_reads_back(n / 10);
        let d = decimal(n);
        assert(d.drop_last() =~= decimal(n / 10));
        assert(d[0] == decimal(n / 10)[0]);
        assert forall|i: int| 0 <= i < d.len() implies is_digit(#[trigger] d[i]) by {
            if i < d.len() - 1 {
                assert(d[i] == decimal(n / 10)[i]);
            }
        }
        assert(d.last() == digit_char(n % 10));
        assert((digit_char(n % 10) as int) == 48 + n % 10);
        assert(digits_value(d) == digits_value(decimal(n / 10)) * 10 + (n % 10));
        assert(n == (n / 10) * 10 + n % 10);
        assert(digits_value(decimal(n)) == n);
    } else {
        assert((digit_char(n) as int) == 48 + n);
        assert(decimal(n).drop_last() =~= Seq::<char>::empty());
        assert(digits_value(Seq::<char>::empty()) == 0);
        assert(digits_value(decimal(n)) == n);
    }
}

/// `str::parse::<u32>` reads back what `to_string` writes.
pub proof fn lemma_parse_decimal(n: u32)
    ensures
        parse_u32_spec(decimal(n as nat)) == Some(n),
{
    lemma_decimal_reads_back(n as nat);
    assert(decimal(n as nat)[0] != '+');
}

/// What `str::parse::<u32>` gives: an optional `+` sign followed by at least
/// one ASCII digit, with a value that fits in a `u32`.
pub open spec fn parse_u32_spec(s: Seq<char>) -> Option<u32> {
    let digits = without_plus(s);
    if digits.len() > 0 && all_digits(digits) && digits_value(digits) <= u32::MAX {
        Some(digits_value(digits) as u32)
    } else {
        None
    }
}

/// Parses a decimal `u32` as `str::parse::<u32>` does.
pub fn parse_u32(s: &str) -> (res: Option<u32>)
    ensures
        res == parse_u32_spec(s@),
{
    let n = s.unicode_len();
    let mut start: usize = 0;
    if n > 0 && s.get_char(0) == '+' {
        start = 1;
    }
    let ghost digits = without_plus(s@);
    assert(digits =~= s@.skip(start as int));
    if start >= n {
        return None;
    }
    let limit: u64 = 4294967296;
    let mut acc: u64 = 0;
    let mut i: usize = start;
    while i < n
        invariant
            start <= i <= n,
            n == s@.len(),
            digits =~= s@.skip(start as int),
            digits == without_plus(s@),
            forall|j: int| 0 <= j < i - start ==> is_digit(#[trigger] digits[j]),
            acc == (if digits_value(digits.take(i - start)) < limit {
                digits_value(digits.take(i - start))
            } else {
                limit as nat
            }),
            limit == 4294967296,
        decreases n - i,
    {
        let c = s.get_char(i);
        if !((c as u32) >= 48 && (c as u32) <= 57) {
            assert(digits[i - start] == c);
            assert(!is_digit(digits[i - start]));
            return None;
        }
        let ghost prefix = digits.take(i - start);
        assert(digits.take(i - start + 1).drop_last() =~= prefix);
        assert(digits.take(i - start + 1).last() == c);
        let d = (c as u32 - 48) as u64;
        if acc >= limit {
            acc = limit;
        } else {
            acc = acc * 10 + d;
            if acc > limit {
                acc = limit;
            }
        }
        i = i + 1;
    }
    assert(digits.take(n - start) =~= digits);
    if acc >= limit {
        None
    } else {
        Some(acc as u32)
    }
}

/// The pieces that `str::split` yields when it splits `s` at every character
/// that occurs in `seps`: one more piece than there are separators, empty
/// pieces included.
pub open spec fn split_spec(s: Seq<char>, seps: Seq<char>) -> Seq<Seq<char>>
    decreases s.len(),
{
    if s.len() == 0 {
        seq![Seq::<char>::empty()]
    } else {
        let prev = split_spec(s.drop_last(), seps);
        if seps.contains(s.last()) {
            prev.push(Seq::<char>::empty())
        } else {
            prev.update(prev.len() - 1, prev.last().push(s.last()))
        }
    }
}

/// A text with no separator is a single piece.
pub proof fn lemma_split_no_separator(x: Seq<char>, seps: Seq<char>)
    requires
        forall|i: int| 0 <= i < x.len() ==> !seps.contains(#[trigger] x[i]),
    ensures
        split_spec(x, seps) == seq![x],
    decreases x.len(),
{
    if x.len() > 0 {
        let init = x.drop_last();
        assert forall|i: int| 0 <= i < init.len() implies !seps.contains(#[trigger] init[i]) by {
            assert(init[i] == x[i]);
        }
        lemma_split_no_separator(init, seps);
        assert(x.last() == x[x.len() - 1]);
        assert(init.push(x.last()) =~= x);
        assert(split_spec(x, seps) =~= seq![x]);
    } else {
        assert(x =~= Seq::<char>::empty());
    }
}

/// A separator followed by a text with no separator adds that text as one
/// more piece.
pub proof fn lemma_split_separator_then_piece(s: Seq<char>, c: char, x: Seq<char>, seps: Seq<char>)
    requires
        seps.contains(c),
        forall|i: int| 0 <= i < x.len() ==> !seps.contains(#[trigger] x[i]),
    ensures
        split_spec(s + seq![c] + x, seps) == split_spec(s, seps).push(x),
    decreases x.len(),
{
    let whole = s + seq![c] + x;
    if x.len() == 0 {
        assert(whole =~= s.push(c));
        assert(whole.drop_last() =~= s);
        assert(x =~= Seq::<char>::empty());
    } else {
        let init = x.drop_last();
        assert forall|i: int| 0 <= i < init.len() implies !seps.contains(#[trigger] init[i]) by {
            assert(init[i] == x[i]);
        }
        lemma_split_separator_then_piece(s, c, init, seps);
        assert(whole.drop_last() =~= s + seq![c] + init);
        assert(whole.last() == x[x.len() - 1]);
        assert(init.push(x[x.len() - 1]) =~= x);
        assert(split_spec(whole, seps) =~= split_spec(s, seps).push(x));
    }
}

/// The number of characters of `s` that occur in `seps`.
pub open spec fn count_separators(s: Seq<char>, seps: Seq<char>) -> nat
    decreases s.len(),
{
    if s.len() == 0 {
        0
    } else {
        count_separators(s.drop_last(), seps) + if seps.contains(s.last()) {
            1nat
        } else {
            0nat
        }
    }
}

pub proof fn lemma_split_len(s: Seq<char>, seps: Seq<char>)
    ensures
        split_spec(s, seps).len() == count_separators(s, seps) + 1,
    decreases s.len(),
{
    if s.len() > 0 {
        lemma_split_len(s.drop_last(), seps);
    }
}

/// Three distinct separators that all occur in `s` give at least three
/// separator characters.
pub proof fn lemma_three_separators(s: Seq<char>, seps: Seq<char>, a: char, b: char, c: char)
    requires
        a != b,
        b != c,
        a != c,
        seps.contains(a),
        seps.contains(b),
        seps.contains(c),
    ensures
        count_separators(s, seps) >= (if s.contains(a) { 1int } else { 0 }) + (if s.contains(b) {
            1int
        } else {
            0
        }) + (if s.contains(c) { 1int } else { 0 }),
    decreases s.len(),
{
    if s.len() > 0 {
        let t = s.drop_last();
        lemma_three_separators(t, seps, a, b, c);
        assert forall|x: char| s.contains(x) implies t.contains(x) || s.last() == x by {
            let k = choose|k: int| 0 <= k < s.len() && s[k] == x;
            if k < s.len() - 1 {
                assert(t[k] == x);
            }
        }
        assert forall|x: char| t.contains(x) implies s.contains(x) by {
            let k = choose|k: int| 0 <= k < t.len() && t[k] == x;
            assert(s[k] == x);
        }
    }
}

/// `s.push(x)` contains `c` exactly when `s` does or `x` is `c`.
pub proof fn lemma_contains_push<A>(s: Seq<A>, x: A, c: A)
    ensures
        s.push(x).contains(c) == (s.contains(c) || x == c),
{
    if s.contains(c) {
        let w = choose|w: int| 0 <= w < s.len() && s[w] == c;
        assert(s.push(x)[w] == c);
    }
    if x == c {
        assert(s.push(x)[s.len() as int] == c);
    }
    if s.push(x).contains(c) && x != c {
        let w = choose|w: int| 0 <= w < s.len() + 1 && s.push(x)[w] == c;
        assert(s[w] == c);
    }
}

/// The texts of a list of strings.
pub open spec fn texts(v: Seq<String>) -> Seq<Seq<char>> {
    v.map_values(|t: String| t@)
}

/// Splits `s` at every character that occurs in `seps`, as
/// `s.split(seps).collect::<Vec<_>>()` does.
pub fn split_text(s: &str, seps: &[char]) -> (res: Vec<String>)
    ensures
        texts(res@) == split_spec(s@, seps@),
{
    let n = s.unicode_len();
    let mut pieces: Vec<String> = Vec::new();
    let mut start: usize = 0;
    let mut i: usize = 0;
    assert(s@.take(0) =~= Seq::<char>::empty());
    assert(texts(pieces@).push(s@.subrange(0, 0)) =~= seq![Seq::<char>::empty()]);
    while i < n
        invariant
            0 <= start <= i <= n,
            n == s@.len(),
            split_spec(s@.take(i as int), seps@) == texts(pieces@).push(
                s@.subrange(start as int, i as int),
            ),
        decreases n - i,
    {
        let c = s.get_char(i);
        let ghost prev = texts(pieces@);
        assert(s@.take(i + 1).drop_last() =~= s@.take(i as int));
        assert(s@.take(i + 1).last() == c);
        let mut is_sep = false;
        let mut k: usize = 0;
        while k < seps.len()
            invariant
                0 <= k <= seps@.len(),
                is_sep == seps@.take(k as int).contains(c),
            decreases seps@.len() - k,
        {
            if seps[k] == c {
                is_sep = true;
            }
            proof {
                assert(seps@.take(k + 1) =~= seps@.take(k as int).push(seps@[k as int]));
                lemma_contains_push(seps@.take(k as int), seps@[k as int], c);
            }
            k = k + 1;
        }
        assert(seps@.take(seps@.len() as int) =~= seps@);
        if is_sep {
            let piece = String::from_str(s.substring_char(start, i));
            let ghost old_start = start;
            pieces.push(piece);
            start = i + 1;
            assert(texts(pieces@) =~= prev.push(s@.subrange(old_start as int, i as int)));
            assert(s@.subrange(start as int, i + 1) =~= Seq::<char>::empty());
            assert(split_spec(s@.take(i + 1), seps@) =~= texts(pieces@).push(
                s@.subrange(start as int, i + 1),
            ));
        } else {
            assert(s@.subrange(start as int, i + 1) =~= s@.subrange(start as int, i as int).push(c));
            assert(split_spec(s@.take(i + 1), seps@) =~= texts(pieces@).push(
                s@.subrange(start as int, i + 1),
            ));
        }
        i = i + 1;
    }
    let last = String::from_str(s.substring_char(start, n));
    let ghost prev = texts(pieces@);
    pieces.push(last);
    assert(s@.take(n as int) =~= s@);
    assert(texts(pieces@) =~= prev.push(s@.subrange(start as int, n as int)));
    pieces
}

/// `parts` joined with `sep` between neighbours, as `[String]::join` does.
pub open spec fn join_spec(parts: Seq<Seq<char>>, sep: Seq<char>) -> Seq<char>
    decreases parts.len(),
{
    if parts.len() == 0 {
        Seq::empty()
    } else if parts.len() == 1 {
        parts[0]
    } else {
        join_spec(parts.drop_last(), sep) + sep + parts.last()
    }
}

/// Joins `parts` with `sep` between neighbours.
pub fn join_texts(parts: &Vec<String>, sep: &str) -> (res: String)
    ensures
        res@ == join_spec(texts(parts@), sep@),
{
    let mut res = String::new();
    let mut i: usize = 0;
    assert(texts(parts@).take(0) =~= Seq::<Seq<char>>::empty());
    while i < parts.len()
        invariant
            0 <= i <= parts@.len(),
            res@ == join_spec(texts(parts@).take(i as int), sep@),
        decreases parts@.len() - i,
    {
        assert(texts(parts@).take(i + 1).drop_last() =~= texts(parts@).take(i as int));
        assert(texts(parts@).take(i + 1).last() == parts@[i as int]@);
        if i != 0 {
            res.append(sep);
        } else {
            assert(res@ =~= Seq::<char>::empty());
        }
        res.append(parts[i].as_str());
        proof {
            if i == 0 {
                assert(texts(parts@).take(1) =~= seq![parts@[0]@]);
                assert(res@ =~= parts@[0]@);
            }
        }
        i = i + 1;
    }
    assert(texts(parts@).take(parts@.len() as int) =~= texts(parts@));
    res
}

} // verus!
