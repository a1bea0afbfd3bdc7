//! Character-sequence helpers shared by the SQL renderers: escaping,
//! decimal formatting and parsing, comma splitting, trimming, keyword
//! matching, and lexicographic ordering of column names.

use vstd::prelude::*;

verus! {

// ---------------------------------------------------------------------------
// Escaping: every single quote in a literal is doubled.
// ---------------------------------------------------------------------------

/// The SQL escape of `s`: each `'` becomes `''`; all other characters pass
/// through unchanged.
pub open spec fn escape_seq(s: Seq<char>) -> Seq<char>
    decreases s.len(),
{
    if s.len() == 0 {
        Seq::empty()
    } else {
        (if s[0] == '\'' {
            seq!['\'', '\'']
        } else {
            seq![s[0]]
        }) + escape_seq(s.drop_first())
    }
}

/// Escaping distributes over concatenation.
pub proof fn lemma_escape_concat(a: Seq<char>, b: Seq<char>)
    ensures
        escape_seq(a + b) == escape_seq(a) + escape_seq(b),
    decreases a.len(),
{
    if a.len() == 0 {
        assert(a + b =~= b);
        assert(escape_seq(a) =~= Seq::<char>::empty());
        assert(escape_seq(a) + escape_seq(b) =~= escape_seq(b));
    } else {
        assert((a + b).drop_first() =~= a.drop_first() + b);
        lemma_escape_concat(a.drop_first(), b);
        assert(escape_seq(a + b) =~= escape_seq(a) + escape_seq(b));
    }
}

/// A sequence without quotes is unchanged by escaping.
pub proof fn lemma_escape_no_quote(s: Seq<char>)
    requires
        forall|i: int| 0 <= i < s.len() ==> s[i] != '\'',
    ensures
        escape_seq(s) == s,
    decreases s.len(),
{
    if s.len() == 0 {
        assert(escape_seq(s) =~= s);
    } else {
        lemma_escape_no_quote(s.drop_first());
        assert(escape_seq(s) =~= s);
    }
}

/// The escape of a single character.
pub proof fn lemma_escape_single(c: char)
    ensures
        escape_seq(seq![c]) == if c == '\'' {
            seq!['\'', '\'']
        } else {
            seq![c]
        },
{
    reveal_with_fuel(escape_seq, 2);
    assert(seq![c].drop_first() =~= Seq::<char>::empty());
    if c == '\'' {
        assert(escape_seq(seq![c]) =~= seq!['\'', '\'']);
    } else {
        assert(escape_seq(seq![c]) =~= seq![c]);
    }
}

/// Appends the escaped form of `v` to `out`.
pub fn escape_append(out: &mut String, v: &str)
    ensures
        final(out)@ == old(out)@ + escape_seq(v@),
{
    let n = v.unicode_len();
    let mut i: usize = 0;
    while i < n
        invariant
            n == v@.len(),
            0 <= i <= n,
            out@ == old(out)@ + escape_seq(v@.subrange(0, i as int)),
        decreases n - i,
    {
        let c = v.get_char(i);
        proof {
            assert(v@.subrange(0, i + 1) =~= v@.subrange(0, i as int) + seq![v@[i as int]]);
            lemma_escape_concat(v@.subrange(0, i as int), seq![v@[i as int]]);
            lemma_escape_single(v@[i as int]);
        }
        if c == '\'' {
            out.append("''");
            proof {
                reveal_strlit("''");
                assert(escape_seq(seq![v@[i as int]]) =~= "''"@);
            }
        } else {
            let piece = v.substring_char(i, i + 1);
            proof {
                assert(piece@ =~= seq![v@[i as int]]);
                assert(escape_seq(seq![v@[i as int]]) =~= seq![v@[i as int]]);
            }
            out.append(piece);
        }
        i = i + 1;
    }
    proof {
        assert(v@.subrange(0, n as int) =~= v@);
    }
}

// ---------------------------------------------------------------------------
// Decimal rendering of integers.
// ---------------------------------------------------------------------------

/// The character for a single decimal digit.
pub open spec fn digit_char(d: nat) -> char {
    if d == 0 {
        '0'
    } else if d == 1 {
        '1'
    } else if d == 2 {
        '2'
    } else if d == 3 {
        '3'
    } else if d == 4 {
        '4'
    } else if d == 5 {
        '5'
    } else if d == 6 {
        '6'
    } else if d == 7 {
        '7'
    } else if d == 8 {
        '8'
    } else {
        '9'
    }
}

/// The decimal representation of a natural number, without leading zeros
/// (a lone `0` for zero).
pub open spec fn dec_nat(n: nat) -> Seq<char>
    decreases n,
{
    if n < 10 {
        seq![digit_char(n)]
    } else {
        dec_nat(n / 10) + seq![digit_char(n % 10)]
    }
}

/// The decimal representation of an integer: a `-` sign for negatives.
pub open spec fn dec_int(i: int) -> Seq<char> {
    if i < 0 {
        seq!['-'] + dec_nat((-i) as nat)
    } else {
        dec_nat(i as nat)
    }
}

/// One decimal digit as a string slice.
fn digit_str(d: u8) -> (r: &'static str)
    requires
        d < 10,
    ensures
        r@ == seq![digit_char(d as nat)],
{
    let r: &'static str = if d == 0 {
        "0"
    } else if d == 1 {
        "1"
    } else if d == 2 {
        "2"
    } else if d == 3 {
        "3"
    } else if d == 4 {
        "4"
    } else if d == 5 {
        "5"
    } else if d == 6 {
        "6"
    } else if d == 7 {
        "7"
    } else if d == 8 {
        "8"
    } else {
        "9"
    };
    proof {
        reveal_strlit("0");
        reveal_strlit("1");
        reveal_strlit("2");
        reveal_strlit("3");
        reveal_strlit("4");
        reveal_strlit("5");
        reveal_strlit("6");
        reveal_strlit("7");
        reveal_strlit("8");
        reveal_strlit("9");
        assert(r@ =~= seq![digit_char(d as nat)]);
    }
    r
}

/// The decimal rendering of a `u64`.
pub fn u64_str(n: u64) -> (r: String)
    ensures
        r@ == dec_nat(n as nat),
    decreases n,
{
    if n < 10 {
        let mut s = String::new();
        s.append(digit_str(n as u8));
        proof {
            assert(s@ =~= dec_nat(n as nat));
        }
        s
    } else {
        let mut s = u64_str(n / 10);
        s.append(digit_str((n % 10) as u8));
        proof {
            assert(s@ =~= dec_nat(n as nat));
        }
        s
    }
}

// ---------------------------------------------------------------------------
// Decimal parsing: the digit-string forms accepted by the standard integer
// parsers (an optional sign followed by one or more ASCII digits).
// ---------------------------------------------------------------------------

/// Whether `c` is an ASCII decimal digit.
pub open spec fn is_digit(c: char) -> bool {
    48 <= c as u32 && c as u32 <= 57
}

/// The numeric value of an ASCII digit.
pub open spec fn digit_val(c: char) -> nat {
    (c as u32 - 48) as nat
}

/// Whether every character of `s` is an ASCII digit.
pub open spec fn all_digits(s: Seq<char>) -> bool {
    forall|i: int| 0 <= i < s.len() ==> is_digit(s[i])
}

/// The value of a digit string read in base ten.
pub open spec fn digits_val(s: Seq<char>) -> nat
    decreases s.len(),
{
    if s.len() == 0 {
        0
    } else {
        digits_val(s.drop_last()) * 10 + digit_val(s.last())
    }
}

/// The natural number denoted by `s` in the form the standard unsigned
/// parsers accept: an optional `+`, then one or more digits.
pub open spec fn parse_nat(s: Seq<char>) -> Option<nat> {
    let body = if s.len() >= 1 && s[0] == '+' {
        s.drop_first()
    } else {
        s
    };
    if body.len() >= 1 && all_digits(body) {
        Some(digits_val(body))
    } else {
        None
    }
}

/// The integer denoted by `s` in the form the standard signed parsers
/// accept: an optional `+` or `-`, then one or more digits.
pub open spec fn parse_int(s: Seq<char>) -> Option<int> {
    if s.len() >= 1 && s[0] == '-' {
        let body = s.drop_first();
        if body.len() >= 1 && all_digits(body) {
            Some(-(digits_val(body) as int))
        } else {
            None
        }
    } else {
        match parse_nat(s) {
            Some(v) => Some(v as int),
            None => None,
        }
    }
}

/// Whether `c` is an ASCII decimal digit.
pub fn is_digit_exec(c: char) -> (r: bool)
    ensures
        r == is_digit(c),
{
    let u = c as u32;
    48 <= u && u <= 57
}

/// A digit string once above `max` stays above `max` as digits are appended.
proof fn lemma_digits_val_grows(s: Seq<char>, max: nat)
    requires
        s.len() >= 1,
        digits_val(s.drop_last()) > max,
    ensures
        digits_val(s) > max,
{
}

/// Parses the digit body `s[from..]` as an unsigned number bounded by `max`.
fn parse_digits_bounded(s: &str, from: usize, max: u64) -> (r: Option<u64>)
    requires
        from <= s@.len(),
    ensures
        ({
            let body = s@.subrange(from as int, s@.len() as int);
            match r {
                Some(v) => body.len() >= 1 && all_digits(body) && v as nat == digits_val(body)
                    && v <= max,
                None => !(body.len() >= 1 && all_digits(body)) || digits_val(body) > max as nat,
            }
        }),
{
    let n = s.unicode_len();
    if from == n {
        return None;
    }
    let ghost body = s@.subrange(from as int, n as int);
    let mut acc: u64 = 0;
    let mut over: bool = false;
    let mut i: usize = from;
    while i < n
        invariant
            n == s@.len(),
            from <= i <= n,
            body == s@.subrange(from as int, n as int),
            all_digits(s@.subrange(from as int, i as int)),
            !over ==> acc <= max && acc as nat == digits_val(s@.subrange(from as int, i as int)),
            over ==> digits_val(s@.subrange(from as int, i as int)) > max as nat,
        decreases n - i,
    {
        let c = s.get_char(i);
        if !is_digit_exec(c) {
            proof {
                assert(body[i - from] == s@[i as int]);
                assert(!all_digits(body));
            }
            return None;
        }
        let d: u64 = (c as u32) as u64 - 48;
        proof {
            assert(s@.subrange(from as int, i + 1).drop_last() =~= s@.subrange(
                from as int,
                i as int,
            ));
            assert(s@.subrange(from as int, i + 1).last() == s@[i as int]);
        }
        if over {
            proof {
                assert(digits_val(s@.subrange(from as int, i as int)) > max as nat);
                assert(s@.subrange(from as int, i + 1).drop_last() =~= s@.subrange(
                    from as int,
                    i as int,
                ));
                assert(digits_val(s@.subrange(from as int, i + 1).drop_last()) > max as nat);
                lemma_digits_val_grows(s@.subrange(from as int, i + 1), max as nat);
            }
        } else {
            if acc > max / 10 || (acc == max / 10 && d > max % 10) {
                over = true;
                proof {
                    assert(digits_val(s@.subrange(from as int, i + 1)) == acc * 10 + d);
                    assert(acc * 10 + d > max) by (nonlinear_arith)
                        requires
                            acc > max / 10 || (acc == max / 10 && d > max % 10),
                            max == (max / 10) * 10 + max % 10,
                            d < 10,
                            0 <= acc,
                            0 <= max,
                    ;
                }
            } else {
                proof {
                    assert(acc * 10 + d <= max) by (nonlinear_arith)
                        requires
                            acc <= max / 10,
                            !(acc > max / 10 || (acc == max / 10 && d > max % 10)),
                            max == (max / 10) * 10 + max % 10,
                            d < 10,
                            0 <= acc,
                            0 <= max,
                    ;
                }
                acc = acc * 10 + d;
            }
        }
        i = i + 1;
        proof {
            assert(forall|j: int|
                0 <= j < i - from ==> s@.subrange(from as int, i as int)[j] == s@[from + j]);
        }
    }
    proof {
        assert(s@.subrange(from as int, i as int) =~= body);
    }
    if over {
        None
    } else {
        Some(acc)
    }
}

/// Parses `s` as an unsigned decimal number no larger than `max`, accepting
/// an optional leading `+` as the standard unsigned parsers do.
pub fn parse_unsigned(s: &str, max: u64) -> (r: Option<u64>)
    ensures
        match r {
            Some(v) => parse_nat(s@) == Some(v as nat) && v <= max,
            None => parse_nat(s@) is None || parse_nat(s@)->Some_0 > max as nat,
        },
{
    let n = s.unicode_len();
    let from: usize = if n >= 1 && s.get_char(0) == '+' {
        1
    } else {
        0
    };
    proof {
        if from == 1 {
            assert(s@.subrange(1, n as int) =~= s@.drop_first());
        } else {
            assert(s@.subrange(0, n as int) =~= s@);
        }
    }
    parse_digits_bounded(s, from, max)
}

/// Parses `s` as a signed decimal number within `[i64::MIN, i64::MAX]`,
/// accepting an optional leading `+` or `-`.
pub fn parse_signed(s: &str) -> (r: Option<i64>)
    ensures
        match r {
            Some(v) => parse_int(s@) == Some(v as int),
            None => parse_int(s@) is None || parse_int(s@)->Some_0 > i64::MAX as int
                || parse_int(s@)->Some_0 < i64::MIN as int,
        },
{
    let n = s.unicode_len();
    if n >= 1 && s.get_char(0) == '-' {
        proof {
            assert(s@.subrange(1, n as int) =~= s@.drop_first());
        }
        match parse_digits_bounded(s, 1, 9223372036854775808u64) {
            Some(mag) => {
                if mag == 9223372036854775808u64 {
                    Some(i64::MIN)
                } else {
                    Some(-(mag as i64))
                }
            },
            None => None,
        }
    } else {
        match parse_unsigned(s, i64::MAX as u64) {
            Some(v) => Some(v as i64),
            None => None,
        }
    }
}

/// The decimal rendering of an `i64`, with a leading `-` for negatives.
pub fn i64_str(i: i64) -> (r: String)
    ensures
        r@ == dec_int(i as int),
{
    if i >= 0 {
        u64_str(i as u64)
    } else {
        let mag: u64 = if i == i64::MIN {
            9223372036854775808u64
        } else {
            (-i) as u64
        };
        let mut s = String::new();
        s.append("-");
        let digits = u64_str(mag);
        s.append(digits.as_str());
        proof {
            reveal_strlit("-");
            assert(mag as nat == (-(i as int)) as nat);
            assert(s@ =~= dec_int(i as int));
        }
        s
    }
}

// ---------------------------------------------------------------------------
// Whitespace and trimming.
// ---------------------------------------------------------------------------

/// Whether `c` has the Unicode white-space property (the set the standard
/// `trim` removes).
pub open spec fn is_space(c: char) -> bool {
    let u = c as u32;
    u == 0x20 || (0x09 <= u && u <= 0x0D) || u == 0x85 || u == 0xA0 || u == 0x1680 || (0x2000 <= u
        && u <= 0x200A) || u == 0x2028 || u == 0x2029 || u == 0x202F || u == 0x205F || u == 0x3000
}

/// Whether `c` has the Unicode white-space property.
pub fn is_space_exec(c: char) -> (r: bool)
    ensures
        r == is_space(c),
{
    let u = c as u32;
    u == 0x20 || (0x09 <= u && u <= 0x0D) || u == 0x85 || u == 0xA0 || u == 0x1680 || (0x2000 <= u
        && u <= 0x200A) || u == 0x2028 || u == 0x2029 || u == 0x202F || u == 0x205F || u == 0x3000
}

/// `s` without its leading white space.
pub open spec fn trim_start_seq(s: Seq<char>) -> Seq<char>
    decreases s.len(),
{
    if s.len() > 0 && is_space(s[0]) {
        trim_start_seq(s.drop_first())
    } else {
        s
    }
}

/// `s` without its trailing white space.
pub open spec fn trim_end_seq(s: Seq<char>) -> Seq<char>
    decreases s.len(),
{
    if s.len() > 0 && is_space(s.last()) {
        trim_end_seq(s.drop_last())
    } else {
        s
    }
}

/// `s` without leading and trailing white space.
pub open spec fn trim_seq(s: Seq<char>) -> Seq<char> {
    trim_end_seq(trim_start_seq(s))
}

proof fn lemma_trim_start_skip(s: Seq<char>, i: int)
    requires
        0 <= i <= s.len(),
        forall|j: int| 0 <= j < i ==> is_space(s[j]),
    ensures
        trim_start_seq(s) == trim_start_seq(s.subrange(i, s.len() as int)),
    decreases i,
{
    if i > 0 {
        assert(s.subrange(1, s.len() as int) =~= s.drop_first());
        lemma_trim_start_skip(s.drop_first(), i - 1);
        assert(s.drop_first().subrange(i - 1, s.drop_first().len() as int) =~= s.subrange(
            i,
            s.len() as int,
        ));
    } else {
        assert(s.subrange(0, s.len() as int) =~= s);
    }
}

proof fn lemma_trim_end_skip(s: Seq<char>, i: int)
    requires
        0 <= i <= s.len(),
        forall|j: int| i <= j < s.len() ==> is_space(s[j]),
    ensures
        trim_end_seq(s) == trim_end_seq(s.subrange(0, i)),
    decreases s.len() - i,
{
    if i < s.len() {
        assert(s.subrange(0, s.len() - 1) =~= s.drop_last());
        lemma_trim_end_skip(s.drop_last(), i);
        assert(s.drop_last().subrange(0, i) =~= s.subrange(0, i));
    } else {
        assert(s.subrange(0, s.len() as int) =~= s);
    }
}

/// `s` with leading and trailing white space removed, as a new string.
pub fn trim_str(s: &str) -> (r: String)
    ensures
        r@ == trim_seq(s@),
{
    let n = s.unicode_len();
    let mut a: usize = 0;
    while a < n && is_space_exec(s.get_char(a))
        invariant
            n == s@.len(),
            0 <= a <= n,
            forall|j: int| 0 <= j < a ==> is_space(s@[j]),
        decreases n - a,
    {
        a = a + 1;
    }
    proof {
        lemma_trim_start_skip(s@, a as int);
    }
    if a == n {
        proof {
            assert(s@.subrange(a as int, n as int) =~= Seq::<char>::empty());
            assert(trim_seq(s@) =~= Seq::<char>::empty());
        }
        let r = String::new();
        return r;
    }
    // s@[a] is not white space, so trim_start_seq(s@) == s@[a..].
    let ghost t = s@.subrange(a as int, n as int);
    proof {
        assert(trim_start_seq(t) == t);
    }
    let mut b: usize = n;
    while b > a + 1 && is_space_exec(s.get_char(b - 1))
        invariant
            n == s@.len(),
            a < b <= n,
            forall|j: int| b <= j < n ==> is_space(s@[j]),
        decreases b,
    {
        b = b - 1;
    }
    proof {
        assert(forall|j: int| 0 <= j < t.len() ==> #[trigger] t[j] == s@[j + a]);
        lemma_trim_end_skip(t, b - a);
        assert(t.subrange(0, b - a) =~= s@.subrange(a as int, b as int));
    }
    let piece = s.substring_char(a, b);
    let r = piece.to_owned();
    r
}

// ---------------------------------------------------------------------------
// Splitting at a separator character, and joining with a separator string.
// ---------------------------------------------------------------------------

/// The index of the first occurrence of `c` in `s`, or `s.len()` if there
/// is none.
pub open spec fn first_sep(s: Seq<char>, c: char) -> nat
    decreases s.len(),
{
    if s.len() == 0 {
        0
    } else if s[0] == c {
        0
    } else {
        1 + first_sep(s.drop_first(), c)
    }
}

/// What `first_sep` returns: the earliest index holding `c`, or the length.
pub proof fn lemma_first_sep(s: Seq<char>, c: char)
    ensures
        first_sep(s, c) <= s.len(),
        first_sep(s, c) < s.len() ==> s[first_sep(s, c) as int] == c,
        forall|j: int| 0 <= j < first_sep(s, c) ==> s[j] != c,
    decreases s.len(),
{
    if s.len() > 0 && s[0] != c {
        lemma_first_sep(s.drop_first(), c);
        assert forall|j: int| 0 <= j < first_sep(s, c) implies s[j] != c by {
            if j >= 1 {
                assert(s[j] == s.drop_first()[j - 1]);
            }
        }
    }
}

/// `first_sep` is pinned by the scan that found it.
pub proof fn lemma_first_sep_from_scan(s: Seq<char>, c: char, m: int)
    requires
        0 <= m <= s.len(),
        forall|j: int| 0 <= j < m ==> s[j] != c,
        m < s.len() ==> s[m] == c,
    ensures
        first_sep(s, c) == m,
    decreases m,
{
    if m > 0 {
        lemma_first_sep_from_scan(s.drop_first(), c, m - 1);
    }
}

/// The pieces of `s` between occurrences of the separator `c`: always at
/// least one piece, and no piece contains `c`.
pub open spec fn split_char(s: Seq<char>, c: char) -> Seq<Seq<char>>
    decreases s.len(),
{
    let i = first_sep(s, c);
    if i >= s.len() {
        seq![s]
    } else {
        seq![s.subrange(0, i as int)] + split_char(s.subrange(i as int + 1, s.len() as int), c)
    }
}

/// Joins the pieces of `ps` with the separator `sep` between them.
pub open spec fn join_sep(ps: Seq<Seq<char>>, sep: Seq<char>) -> Seq<char>
    decreases ps.len(),
{
    if ps.len() == 0 {
        Seq::empty()
    } else if ps.len() == 1 {
        ps[0]
    } else {
        ps[0] + sep + join_sep(ps.drop_first(), sep)
    }
}

/// Joining a list extended by one more piece.
pub proof fn lemma_join_push(ps: Seq<Seq<char>>, sep: Seq<char>, x: Seq<char>)
    ensures
        join_sep(ps.push(x), sep) == if ps.len() == 0 {
            x
        } else {
            join_sep(ps, sep) + sep + x
        },
    decreases ps.len(),
{
    reveal_with_fuel(join_sep, 3);
    if ps.len() == 0 {
        assert(ps.push(x)[0] =~= x);
    } else if ps.len() == 1 {
        assert(ps.push(x).drop_first() =~= seq![x]);
        assert(join_sep(ps.push(x), sep) =~= ps[0] + sep + x);
        assert(join_sep(ps, sep) + sep + x =~= ps[0] + sep + x);
    } else {
        lemma_join_push(ps.drop_first(), sep, x);
        assert(ps.push(x).drop_first() =~= ps.drop_first().push(x));
        assert(join_sep(ps.push(x), sep) =~= join_sep(ps, sep) + sep + x);
    }
}

/// Finds the first occurrence of `sep` in `s` at or after `from`, or `n`.
pub fn scan_sep(s: &str, from: usize, sep: char) -> (r: usize)
    requires
        from <= s@.len(),
    ensures
        from <= r <= s@.len(),
        r - from == first_sep(s@.subrange(from as int, s@.len() as int), sep),
{
    let n = s.unicode_len();
    let mut j: usize = from;
    while j < n && s.get_char(j) != sep
        invariant
            n == s@.len(),
            from <= j <= n,
            forall|k: int| from <= k < j ==> s@[k] != sep,
        decreases n - j,
    {
        j = j + 1;
    }
    proof {
        let t = s@.subrange(from as int, n as int);
        assert(forall|k: int| 0 <= k < t.len() ==> #[trigger] t[k] == s@[k + from]);
        lemma_first_sep_from_scan(t, sep, j - from);
    }
    j
}

/// The views of a sequence of strings.
pub open spec fn views_of(v: Seq<String>) -> Seq<Seq<char>> {
    v.map_values(|x: String| x@)
}

/// Splits `s` at commas and trims each piece.
pub fn split_trim(s: &str) -> (r: Vec<String>)
    ensures
        views_of(r@) == split_char(s@, ',').map_values(|p: Seq<char>| trim_seq(p)),
{
    let n = s.unicode_len();
    let mut r: Vec<String> = Vec::new();
    let mut pos: usize = 0;
    let ghost full = split_char(s@, ',').map_values(|p: Seq<char>| trim_seq(p));
    proof {
        assert(s@.subrange(0, n as int) =~= s@);
        assert(views_of(r@) + split_char(s@.subrange(pos as int, n as int), ',').map_values(
            |p: Seq<char>| trim_seq(p),
        ) =~= full);
    }
    loop
        invariant_except_break
            views_of(r@) + split_char(s@.subrange(pos as int, n as int), ',').map_values(
                |p: Seq<char>| trim_seq(p),
            ) == full,
        invariant
            n == s@.len(),
            0 <= pos <= n,
            full == split_char(s@, ',').map_values(|p: Seq<char>| trim_seq(p)),
        ensures
            views_of(r@) == full,
        decreases n - pos + 1,
    {
        let j = scan_sep(s, pos, ',');
        let piece = s.substring_char(pos, j);
        let trimmed = trim_str(piece);
        let ghost rest = s@.subrange(pos as int, n as int);
        proof {
            lemma_first_sep(rest, ',');
            assert(rest.subrange(0, (j - pos) as int) =~= s@.subrange(pos as int, j as int));
        }
        r.push(trimmed);
        if j == n {
            // last piece: the rest holds no separator
            proof {
                assert(split_char(rest, ',') =~= seq![rest]);
                assert(rest =~= s@.subrange(pos as int, j as int));
                assert(views_of(r@) =~= full);
            }
            break;
        }
        proof {
            assert(rest.subrange(j - pos + 1, rest.len() as int) =~= s@.subrange(j + 1, n as int));
            assert(split_char(rest, ',') =~= seq![s@.subrange(pos as int, j as int)] + split_char(
                s@.subrange(j + 1, n as int),
                ',',
            ));
            assert(views_of(r@) + split_char(s@.subrange(j + 1, n as int), ',').map_values(
                |p: Seq<char>| trim_seq(p),
            ) =~= full);
        }
        pos = j + 1;
    }
    r
}

// ---------------------------------------------------------------------------
// Lexicographic ordering of character sequences (by code point, the order
// in which column names are canonicalized).
// ---------------------------------------------------------------------------

/// Strict lexicographic order on character sequences, comparing characters
/// by code point.
pub open spec fn lex_lt(a: Seq<char>, b: Seq<char>) -> bool
    decreases a.len(),
{
    if b.len() == 0 {
        false
    } else if a.len() == 0 {
        true
    } else if (a[0] as u32) < (b[0] as u32) {
        true
    } else if a[0] != b[0] {
        false
    } else {
        lex_lt(a.drop_first(), b.drop_first())
    }
}

/// Whether `a` precedes `b` lexicographically, strictly.
pub fn str_lt(a: &str, b: &str) -> (r: bool)
    ensures
        r == lex_lt(a@, b@),
    decreases a@.len(),
{
    let an = a.unicode_len();
    let bn = b.unicode_len();
    if bn == 0 {
        false
    } else if an == 0 {
        true
    } else {
        let ca = a.get_char(0);
        let cb = b.get_char(0);
        if (ca as u32) < (cb as u32) {
            true
        } else if ca != cb {
            false
        } else {
            let ra = a.substring_char(1, an);
            let rb = b.substring_char(1, bn);
            proof {
                assert(ra@ =~= a@.drop_first());
                assert(rb@ =~= b@.drop_first());
            }
            str_lt(ra, rb)
        }
    }
}

// ---------------------------------------------------------------------------
// ASCII case-insensitive keyword matching.
// ---------------------------------------------------------------------------

/// Whether two characters are equal up to ASCII case.
pub open spec fn char_eq_ci(a: char, b: char) -> bool {
    a == b || (65 <= a as u32 && a as u32 <= 90 && a as u32 + 32 == b as u32) || (65 <= b as u32
        && b as u32 <= 90 && b as u32 + 32 == a as u32)
}

/// Whether two character sequences are equal up to ASCII case.
pub open spec fn eq_ci(a: Seq<char>, b: Seq<char>) -> bool {
    a.len() == b.len() && forall|i: int| 0 <= i < a.len() ==> char_eq_ci(a[i], b[i])
}

/// Whether `a` and `b` are equal up to ASCII case.
pub fn str_eq_ci(a: &str, b: &str) -> (r: bool)
    ensures
        r == eq_ci(a@, b@),
{
    let an = a.unicode_len();
    let bn = b.unicode_len();
    if an != bn {
        return false;
    }
    let mut i: usize = 0;
    while i < an
        invariant
            an == a@.len(),
            bn == b@.len(),
            an == bn,
            0 <= i <= an,
            forall|j: int| 0 <= j < i ==> char_eq_ci(a@[j], b@[j]),
        decreases an - i,
    {
        let ca = a.get_char(i);
        let cb = b.get_char(i);
        let ua = ca as u32;
        let ub = cb as u32;
        let same = ca == cb || (65 <= ua && ua <= 90 && ua + 32 == ub) || (65 <= ub && ub <= 90
            && ub + 32 == ua);
        if !same {
            return false;
        }
        i = i + 1;
    }
    true
}

// ---------------------------------------------------------------------------
// The shape of a floating-point literal: the grammar the standard float
// parser accepts (an optional sign; then `inf`, `infinity` or `nan` in any
// case, or digits with an optional point and an optional exponent).
// ---------------------------------------------------------------------------

/// The index of the first `e` or `E` in `s`, or `s.len()`.
pub open spec fn first_exp(s: Seq<char>) -> nat
    decreases s.len(),
{
    if s.len() == 0 {
        0
    } else if s[0] == 'e' || s[0] == 'E' {
        0
    } else {
        1 + first_exp(s.drop_first())
    }
}

/// An exponent suffix: an optional sign, then one or more digits.
pub open spec fn is_exp_suffix(s: Seq<char>) -> bool {
    let body = if s.len() >= 1 && (s[0] == '+' || s[0] == '-') {
        s.drop_first()
    } else {
        s
    };
    body.len() >= 1 && all_digits(body)
}

/// A mantissa: digits with at most one point, and at least one digit.
pub open spec fn is_mantissa(s: Seq<char>) -> bool {
    let i = first_sep(s, '.');
    if i >= s.len() {
        s.len() >= 1 && all_digits(s)
    } else {
        let pre = s.subrange(0, i as int);
        let post = s.subrange(i as int + 1, s.len() as int);
        all_digits(pre) && all_digits(post) && pre.len() + post.len() >= 1
    }
}

/// Whether `s` is a floating-point literal: an optional sign, then one of
/// the keywords `inf`, `infinity`, `nan` (in any case) or a mantissa with
/// an optional exponent part.
pub open spec fn is_float_lit(s: Seq<char>) -> bool {
    let b = if s.len() >= 1 && (s[0] == '+' || s[0] == '-') {
        s.drop_first()
    } else {
        s
    };
    eq_ci(b, seq!['i', 'n', 'f']) || eq_ci(b, seq!['i', 'n', 'f', 'i', 'n', 'i', 't', 'y']) || eq_ci(
        b,
        seq!['n', 'a', 'n'],
    ) || {
        let i = first_exp(b);
        if i >= b.len() {
            is_mantissa(b)
        } else {
            is_mantissa(b.subrange(0, i as int)) && is_exp_suffix(
                b.subrange(i as int + 1, b.len() as int),
            )
        }
    }
}

/// Whether every character of `s@[from..to]` is an ASCII digit.
fn all_digits_range(s: &str, from: usize, to: usize) -> (r: bool)
    requires
        from <= to <= s@.len(),
    ensures
        r == all_digits(s@.subrange(from as int, to as int)),
{
    let mut i: usize = from;
    while i < to
        invariant
            from <= i <= to <= s@.len(),
            forall|j: int| from <= j < i ==> is_digit(s@[j]),
        decreases to - i,
    {
        if !is_digit_exec(s.get_char(i)) {
            proof {
                assert(s@.subrange(from as int, to as int)[i - from] == s@[i as int]);
            }
            return false;
        }
        i = i + 1;
    }
    proof {
        assert(forall|j: int|
            0 <= j < to - from ==> #[trigger] s@.subrange(from as int, to as int)[j] == s@[j
                + from]);
    }
    true
}

/// Whether `c` begins an exponent part.
fn is_exp_char(c: char) -> (r: bool)
    ensures
        r == (c == 'e' || c == 'E'),
{
    c == 'e' || c == 'E'
}

/// Finds the first `e` or `E` in `s` at or after `from`, or the length.
fn scan_exp(s: &str, from: usize) -> (r: usize)
    requires
        from <= s@.len(),
    ensures
        from <= r <= s@.len(),
        r - from == first_exp(s@.subrange(from as int, s@.len() as int)),
{
    let n = s.unicode_len();
    let mut j: usize = from;
    while j < n && !is_exp_char(s.get_char(j))
        invariant
            n == s@.len(),
            from <= j <= n,
            forall|k: int| from <= k < j ==> s@[k] != 'e' && s@[k] != 'E',
        decreases n - j,
    {
        j = j + 1;
    }
    proof {
        let t = s@.subrange(from as int, n as int);
        assert(forall|k: int| 0 <= k < t.len() ==> #[trigger] t[k] == s@[k + from]);
        lemma_first_exp_from_scan(t, j - from);
    }
    j
}

proof fn lemma_first_exp_from_scan(s: Seq<char>, m: int)
    requires
        0 <= m <= s.len(),
        forall|j: int| 0 <= j < m ==> s[j] != 'e' && s[j] != 'E',
        m < s.len() ==> s[m] == 'e' || s[m] == 'E',
    ensures
        first_exp(s) == m,
    decreases m,
{
    if m > 0 {
        lemma_first_exp_from_scan(s.drop_first(), m - 1);
    }
}

/// Whether the slice `s@[from..]` is a mantissa.
fn is_mantissa_range(s: &str, from: usize, to: usize) -> (r: bool)
    requires
        from <= to <= s@.len(),
    ensures
        r == is_mantissa(s@.subrange(from as int, to as int)),
{
    let ghost t = s@.subrange(from as int, to as int);
    let mut j: usize = from;
    while j < to && s.get_char(j) != '.'
        invariant
            from <= j <= to <= s@.len(),
            forall|k: int| from <= k < j ==> s@[k] != '.',
        decreases to - j,
    {
        j = j + 1;
    }
    proof {
        assert(forall|k: int| 0 <= k < t.len() ==> #[trigger] t[k] == s@[k + from]);
        lemma_first_sep_from_scan(t, '.', j - from);
    }
    if j == to {
        let nonempty = to > from;
        let digits = all_digits_range(s, from, to);
        proof {
            assert(t =~= s@.subrange(from as int, to as int));
        }
        nonempty && digits
    } else {
        let pre_ok = all_digits_range(s, from, j);
        let post_ok = all_digits_range(s, j + 1, to);
        let some_digit = to - from >= 2;
        proof {
            assert(t.subrange(0, j - from) =~= s@.subrange(from as int, j as int));
            assert(t.subrange(j - from + 1, t.len() as int) =~= s@.subrange(j as int + 1, to as int));
        }
        pre_ok && post_ok && some_digit
    }
}

/// Whether `s` has the shape of a floating-point literal.
pub fn is_float_literal(s: &str) -> (r: bool)
    ensures
        r == is_float_lit(s@),
{
    let n = s.unicode_len();
    let from: usize = if n >= 1 && ({
        let c = s.get_char(0);
        c == '+' || c == '-'
    }) {
        1
    } else {
        0
    };
    let body = s.substring_char(from, n);
    proof {
        if from == 1 {
            assert(body@ =~= s@.drop_first());
        } else {
            assert(body@ =~= s@);
        }
        reveal_strlit("inf");
        reveal_strlit("infinity");
        reveal_strlit("nan");
        assert("inf"@ =~= seq!['i', 'n', 'f']);
        assert("infinity"@ =~= seq!['i', 'n', 'f', 'i', 'n', 'i', 't', 'y']);
        assert("nan"@ =~= seq!['n', 'a', 'n']);
    }
    if str_eq_ci(body, "inf") || str_eq_ci(body, "infinity") || str_eq_ci(body, "nan") {
        return true;
    }
    let bn = body.unicode_len();
    let i = scan_exp(body, 0);
    proof {
        assert(body@.subrange(0, bn as int) =~= body@);
    }
    if i == bn {
        is_mantissa_range(body, 0, bn)
    } else {
        let mant_ok = is_mantissa_range(body, 0, i);
        // exponent: optional sign then digits
        let efrom: usize = if i + 1 < bn && ({
            let c = body.get_char(i + 1);
            c == '+' || c == '-'
        }) {
            i + 2
        } else {
            i + 1
        };
        let nonempty = bn > efrom;
        let digits = all_digits_range(body, efrom, bn);
        proof {
            let suffix = body@.subrange(i as int + 1, bn as int);
            assert(forall|k: int| 0 <= k < suffix.len() ==> #[trigger] suffix[k] == body@[k + i + 1]);
            if efrom == i + 2 {
                assert(suffix.drop_first() =~= body@.subrange(efrom as int, bn as int));
            } else {
                assert(suffix =~= body@.subrange(efrom as int, bn as int));
            }
        }
        mant_ok && nonempty && digits
    }
}


/// The number of occurrences of `c` in `s`.
pub open spec fn count_char(s: Seq<char>, c: char) -> nat
    decreases s.len(),
{
    if s.len() == 0 {
        0
    } else {
        count_char(s.drop_first(), c) + if s[0] == c {
            1nat
        } else {
            0nat
        }
    }
}

/// Escaping doubles every single quote: the escaped text is longer by
/// exactly the number of quotes, and a quote-free text passes unchanged
/// (see `lemma_escape_no_quote`).
pub proof fn law_escape_doubles_quotes(s: Seq<char>)
    ensures
        escape_seq(s).len() == s.len() + count_char(s, '\''),
    decreases s.len(),
{
    if s.len() > 0 {
        law_escape_doubles_quotes(s.drop_first());
    }
}

} // verus!
