//! Character classes, tokenising, and decimal integers.

use vstd::prelude::*;

verus! {

/// Unicode `White_Space` characters: the class that `char::is_whitespace`,
/// `str::trim` and a regex `\s` use.
pub open spec fn is_white(c: char) -> bool {
    ('\u{9}' <= c && c <= '\u{d}') || c == ' ' || c == '\u{85}' || c == '\u{a0}'
        || c == '\u{1680}' || ('\u{2000}' <= c && c <= '\u{200a}') || c == '\u{2028}'
        || c == '\u{2029}' || c == '\u{202f}' || c == '\u{205f}' || c == '\u{3000}'
}

/// Tests whether `c` is Unicode whitespace.
pub fn white(c: char) -> (r: bool)
    ensures
        r == is_white(c),
{
    ('\u{9}' <= c && c <= '\u{d}') || c == ' ' || c == '\u{85}' || c == '\u{a0}'
        || c == '\u{1680}' || ('\u{2000}' <= c && c <= '\u{200a}') || c == '\u{2028}'
        || c == '\u{2029}' || c == '\u{202f}' || c == '\u{205f}' || c == '\u{3000}'
}

/// The characters of `s`, in order.
pub fn chars_of(s: &str) -> (r: Vec<char>)
    ensures
        r@ == s@,
{
    let mut v: Vec<char> = Vec::new();
    for c in it: s.chars()
        invariant
            v@ == it.seq().take(it.index() as int),
    {
        v.push(c);
    }
    v
}


/// Leading whitespace removed.
pub open spec fn trim_start(t: Seq<char>) -> Seq<char>
    decreases t.len(),
{
    if t.len() > 0 && is_white(t[0]) {
        trim_start(t.skip(1))
    } else {
        t
    }
}

/// Trailing whitespace removed.
pub open spec fn trim_end(t: Seq<char>) -> Seq<char>
    decreases t.len(),
{
    if t.len() > 0 && is_white(t.last()) {
        trim_end(t.drop_last())
    } else {
        t
    }
}

/// Whitespace removed at both ends, as `str::trim` does.
pub open spec fn trim(t: Seq<char>) -> Seq<char> {
    trim_end(trim_start(t))
}

/// An ASCII decimal digit.
pub open spec fn is_digit(c: char) -> bool {
    '0' <= c && c <= '9'
}

/// A non-empty run of ASCII digits.
pub open spec fn all_digits(d: Seq<char>) -> bool {
    d.len() > 0 && forall|i: int| 0 <= i < d.len() ==> is_digit(#[trigger] d[i])
}

/// The value of a run of decimal digits, most significant first.
pub open spec fn digits_value(d: Seq<char>) -> int
    decreases d.len(),
{
    if d.len() == 0 {
        0
    } else {
        digits_value(d.drop_last()) * 10 + (d.last() as int - '0' as int)
    }
}

/// The integer that a token denotes: an optional `+` or `-`, then digits.
pub open spec fn signed_value(t: Seq<char>) -> Option<int> {
    if t.len() > 0 && t[0] == '-' && all_digits(t.skip(1)) {
        Some(-digits_value(t.skip(1)))
    } else if t.len() > 0 && t[0] == '+' && all_digits(t.skip(1)) {
        Some(digits_value(t.skip(1)))
    } else if all_digits(t) {
        Some(digits_value(t))
    } else {
        None
    }
}

/// The `i64` that a token denotes, as `str::parse::<i64>` reads it; `None`
/// for a malformed token or one out of range.
pub open spec fn token_value(t: Seq<char>) -> Option<i64> {
    match signed_value(t) {
        Some(v) => if i64::MIN <= v <= i64::MAX {
            Some(v as i64)
        } else {
            None
        },
        None => None,
    }
}

proof fn lemma_digits_value_nonneg(d: Seq<char>)
    requires
        forall|i: int| 0 <= i < d.len() ==> is_digit(#[trigger] d[i]),
    ensures
        digits_value(d) >= 0,
    decreases d.len(),
{
    if d.len() > 0 {
        lemma_digits_value_nonneg(d.drop_last());
    }
}

/// Above every magnitude that an `i64` can have.
const MAGNITUDE_CAP: i128 = 9223372036854775809;

/// Parses a signed decimal token.
pub fn parse_i64(t: &Vec<char>) -> (r: Option<i64>)
    ensures
        r == token_value(t@),
{
    let n = t.len();
    let mut start: usize = 0;
    let mut neg = false;
    if n > 0 && t[0] == '-' {
        neg = true;
        start = 1;
    } else if n > 0 && t[0] == '+' {
        start = 1;
    }
    if start == n {
        return None;
    }
    let ghost d = t@.skip(start as int);
    let mut acc: i128 = 0;
    let mut i: usize = start;
    while i < n
        invariant
            start <= i <= n,
            n == t.len(),
            start <= 1,
            n > 0,
            start == 1 ==> t@[0] == '-' || t@[0] == '+',
            start == 0 ==> t@[0] != '-' && t@[0] != '+',
            neg <==> (start == 1 && t@[0] == '-'),
            d == t@.skip(start as int),
            forall|k: int| start <= k < i ==> is_digit(#[trigger] t@[k]),
            0 <= acc <= MAGNITUDE_CAP,
            acc == (if digits_value(d.take(i - start)) < MAGNITUDE_CAP {
                digits_value(d.take(i - start))
            } else {
                MAGNITUDE_CAP as int
            }),
        decreases n - i,
    {
        let c = t[i];
        if !('0' <= c && c <= '9') {
            assert(!all_digits(d)) by {
                assert(d[i - start] == c);
            }
            assert(!all_digits(t@)) by {
                if start == 0 {
                    assert(t@[i as int] == c);
                } else {
                    assert(!is_digit(t@[0]));
                }
            }
            return None;
        }
        assert(d.take(i - start + 1).drop_last() =~= d.take(i - start));
        proof {
            lemma_digits_value_nonneg(d.take(i - start));
        }
        let v = (c as u32 - '0' as u32) as i128;
        if acc >= MAGNITUDE_CAP {
            acc = MAGNITUDE_CAP;
        } else {
            acc = acc * 10 + v;
            if acc > MAGNITUDE_CAP {
                acc = MAGNITUDE_CAP;
            }
        }
        i = i + 1;
    }
    assert(d.take(n - start) =~= d);
    assert(all_digits(d));
    proof {
        lemma_digits_value_nonneg(d);
        if start == 0 {
            assert(d =~= t@);
        } else {
            assert(!is_digit(t@[0]));
        }
    }
    if neg {
        if acc > 9223372036854775808 {
            None
        } else {
            Some((0 - acc) as i64)
        }
    } else {
        if acc > 9223372036854775807 {
            None
        } else {
            Some(acc as i64)
        }
    }
}


/// The characters of `t` with whitespace removed at both ends.
pub fn trim_chars(t: &Vec<char>) -> (r: Vec<char>)
    ensures
        r@ == trim(t@),
{
    let n = t.len();
    let mut a: usize = 0;
    assert(t@.skip(0) =~= t@);
    while a < n && white(t[a])
        invariant
            a <= n,
            n == t.len(),
            trim_start(t@) == trim_start(t@.skip(a as int)),
        decreases n - a,
    {
        assert(t@.skip(a as int).skip(1) =~= t@.skip(a + 1));
        a = a + 1;
    }
    assert(trim_start(t@) == t@.subrange(a as int, n as int)) by {
        assert(t@.skip(a as int) =~= t@.subrange(a as int, n as int));
    }
    let mut b: usize = n;
    while b > a && white(t[b - 1])
        invariant
            a <= b <= n,
            n == t.len(),
            trim(t@) == trim_end(t@.subrange(a as int, b as int)),
        decreases b,
    {
        assert(t@.subrange(a as int, b as int).drop_last() =~= t@.subrange(a as int, b - 1));
        b = b - 1;
    }
    let mut r: Vec<char> = Vec::new();
    let mut k: usize = a;
    while k < b
        invariant
            a <= k <= b,
            b <= n,
            n == t.len(),
            r@ == t@.subrange(a as int, k as int),
        decreases b - k,
    {
        r.push(t[k]);
        k = k + 1;
    }
    r
}

/// Separators between fields: a line break in a file of numbers, or any of
/// comma, semicolon and whitespace in a list typed by hand.
pub open spec fn is_separator(c: char, by_line: bool) -> bool {
    if by_line {
        c == '\n'
    } else {
        c == ',' || c == ';' || is_white(c)
    }
}

/// Whether `c` ends a field.
fn separator(c: char, by_line: bool) -> (r: bool)
    ensures
        r == is_separator(c, by_line),
{
    if by_line {
        c == '\n'
    } else {
        c == ',' || c == ';' || white(c)
    }
}

/// The pieces between separators, empty ones included: `k` separators make
/// `k + 1` pieces.
pub open spec fn pieces(s: Seq<char>, by_line: bool) -> Seq<Seq<char>>
    decreases s.len(),
{
    if s.len() == 0 {
        seq![Seq::empty()]
    } else {
        let p = pieces(s.drop_last(), by_line);
        if is_separator(s.last(), by_line) {
            p.push(Seq::empty())
        } else {
            p.update(p.len() - 1, p.last().push(s.last()))
        }
    }
}

/// Each piece trimmed.
pub open spec fn trim_all(ps: Seq<Seq<char>>) -> Seq<Seq<char>> {
    ps.map_values(|p: Seq<char>| trim(p))
}

/// The pieces that are not empty, in order.
pub open spec fn keep_nonempty(ps: Seq<Seq<char>>) -> Seq<Seq<char>> {
    ps.filter(|p: Seq<char>| p.len() > 0)
}

/// The non-blank pieces of `s`, each trimmed.
pub open spec fn fields(s: Seq<char>, by_line: bool) -> Seq<Seq<char>> {
    keep_nonempty(trim_all(pieces(s, by_line)))
}

/// The value of each token, where all are well formed.
pub open spec fn values_of(ts: Seq<Seq<char>>) -> Seq<i64> {
    ts.map_values(|t: Seq<char>| token_value(t)->0)
}

/// The integers that the tokens denote, or `None` if any one is malformed.
pub open spec fn numbers_of(ts: Seq<Seq<char>>) -> Option<Seq<i64>> {
    if forall|k: int| 0 <= k < ts.len() ==> (#[trigger] token_value(ts[k])) is Some {
        Some(values_of(ts))
    } else {
        None
    }
}

proof fn lemma_pieces_len(s: Seq<char>, by_line: bool)
    ensures
        pieces(s, by_line).len() >= 1,
    decreases s.len(),
{
    if s.len() > 0 {
        lemma_pieces_len(s.drop_last(), by_line);
    }
}

proof fn lemma_fields_step(ps: Seq<Seq<char>>)
    requires
        ps.len() > 0,
    ensures
        keep_nonempty(trim_all(ps)) == if trim(ps.last()).len() > 0 {
            keep_nonempty(trim_all(ps.drop_last())).push(trim(ps.last()))
        } else {
            keep_nonempty(trim_all(ps.drop_last()))
        },
{
    assert(trim_all(ps).drop_last() =~= trim_all(ps.drop_last()));
    reveal(Seq::filter);
}

/// `ok` tells whether every field read so far is a number, and if so
/// `nums` holds their values.
pub open spec fn tally(done: Seq<Seq<char>>, ok: bool, nums: Seq<i64>) -> bool {
    &&& ok <==> forall|k: int| 0 <= k < done.len() ==> (#[trigger] token_value(done[k])) is Some
    &&& ok ==> nums == values_of(done)
}

/// The fields read so far, extended by a finished piece unless it is blank.
pub open spec fn with_field(done: Seq<Seq<char>>, piece: Seq<char>) -> Seq<Seq<char>> {
    if trim(piece).len() > 0 {
        done.push(trim(piece))
    } else {
        done
    }
}

/// Trims a finished piece and, unless it is blank, reads it as a number.
fn take_field(piece: &Vec<char>, nums: &mut Vec<i64>, ok: bool, Ghost(done): Ghost<Seq<Seq<char>>>) -> (r: bool)
    requires
        tally(done, ok, old(nums)@),
    ensures
        tally(with_field(done, piece@), r, final(nums)@),
{
    let t = trim_chars(piece);
    if t.len() == 0 {
        return ok;
    }
    let ghost done2 = done.push(t@);
    assert(forall|k: int| 0 <= k < done.len() ==> done2[k] == done[k]);
    assert(done2[done.len() as int] == t@);
    match parse_i64(&t) {
        Some(v) => {
            if ok {
                nums.push(v);
                assert(values_of(done2) =~= values_of(done).push(v));
            }
            ok
        },
        None => false,
    }
}

/// Splits `s` into fields and reads each as an `i64`.
pub fn parse_fields(s: &Vec<char>, by_line: bool) -> (r: Option<Vec<i64>>)
    ensures
        match r {
            Some(v) => numbers_of(fields(s@, by_line)) == Some(v@),
            None => numbers_of(fields(s@, by_line)) is None,
        },
{
    let n = s.len();
    let mut cur: Vec<char> = Vec::new();
    let mut nums: Vec<i64> = Vec::new();
    let mut ok = true;
    let mut i: usize = 0;
    proof {
        lemma_pieces_len(s@.take(0), by_line);
        assert(s@.take(0) =~= Seq::<char>::empty());
        assert(trim_all(pieces(s@.take(0), by_line).drop_last()) =~= Seq::empty());
        reveal(Seq::filter);
        assert(keep_nonempty(Seq::empty()) =~= Seq::empty());
        assert(values_of(Seq::empty()) =~= nums@);
    }
    while i < n
        invariant
            i <= n,
            n == s.len(),
            pieces(s@.take(i as int), by_line).len() >= 1,
            cur@ == pieces(s@.take(i as int), by_line).last(),
            tally(keep_nonempty(trim_all(pieces(s@.take(i as int), by_line).drop_last())), ok, nums@),
        decreases n - i,
    {
        let ghost ps = pieces(s@.take(i as int), by_line);
        let ghost s2 = s@.take(i + 1);
        assert(s2.drop_last() =~= s@.take(i as int));
        proof {
            lemma_pieces_len(s2, by_line);
        }
        if separator(s[i], by_line) {
            proof {
                lemma_fields_step(ps);
            }
            ok = take_field(&cur, &mut nums, ok, Ghost(keep_nonempty(trim_all(ps.drop_last()))));
            cur = Vec::new();
            assert(pieces(s2, by_line).drop_last() == ps);
        } else {
            assert(pieces(s2, by_line).drop_last() =~= ps.drop_last());
            cur.push(s[i]);
        }
        i = i + 1;
    }
    let ghost ps = pieces(s@.take(i as int), by_line);
    assert(s@.take(i as int) =~= s@);
    proof {
        lemma_fields_step(ps);
    }
    ok = take_field(&cur, &mut nums, ok, Ghost(keep_nonempty(trim_all(ps.drop_last()))));
    if ok {
        Some(nums)
    } else {
        None
    }
}


/// The digit character for `d` in `0..10`.
pub open spec fn digit_char(d: int) -> char {
    ((d + 48) as u8) as char
}

/// Decimal digits of `n`, without leading zeros.
pub open spec fn nat_digits(n: nat) -> Seq<char>
    decreases n,
{
    if n < 10 {
        seq![digit_char(n as int)]
    } else {
        nat_digits(n / 10).push(digit_char((n % 10) as int))
    }
}

/// The decimal text of `v`, as `i64::to_string` writes it.
pub open spec fn decimal(v: int) -> Seq<char> {
    if v < 0 {
        seq!['-'] + nat_digits((-v) as nat)
    } else {
        nat_digits(v as nat)
    }
}

/// The numbers in decimal, one per line, lines joined by `'\n'` with no
/// final line break.
pub open spec fn lines_text(nums: Seq<i64>) -> Seq<char>
    decreases nums.len(),
{
    if nums.len() == 0 {
        Seq::empty()
    } else if nums.len() == 1 {
        decimal(nums[0] as int)
    } else {
        lines_text(nums.drop_last()) + seq!['\n'] + decimal(nums.last() as int)
    }
}

/// Relies on `String::push`: it appends the one character.
#[verifier::external_body]
fn push_char(s: &mut String, c: char)
    ensures
        final(s)@ == old(s)@.push(c),
{
    s.push(c)
}

fn push_digits(out: &mut String, n: u64)
    ensures
        final(out)@ == old(out)@ + nat_digits(n as nat),
    decreases n,
{
    if n >= 10 {
        push_digits(out, n / 10);
    }
    let d = (n % 10) as u8;
    push_char(out, (d + 48) as char);
    proof {
        if n >= 10 {
            assert(nat_digits(n as nat) == nat_digits((n / 10) as nat).push(digit_char((n % 10) as int)));
        }
    }
    assert(final(out)@ =~= old(out)@ + nat_digits(n as nat));
}

/// Appends the characters of `s`.
pub fn push_str(out: &mut String, s: &str)
    ensures
        final(out)@ == old(out)@ + s@,
{
    let ghost start = out@;
    for c in it: s.chars()
        invariant
            out@ == start + it.seq().take(it.index() as int),
    {
        push_char(out, c);
        assert(out@ =~= start + it.seq().take(it.index() + 1));
    }
    assert(out@ =~= start + s@);
}

/// Appends the decimal text of `v`.
pub fn push_decimal(out: &mut String, v: i64)
    ensures
        final(out)@ == old(out)@ + decimal(v as int),
{
    if v < 0 {
        push_char(out, '-');
        let m = (0 - (v as i128)) as u64;
        push_digits(out, m);
        assert(final(out)@ =~= old(out)@ + decimal(v as int));
    } else {
        push_digits(out, v as u64);
    }
}

/// The numbers as text, one per line.
pub fn lines_of_numbers(nums: &Vec<i64>) -> (r: String)
    ensures
        r@ == lines_text(nums@),
{
    let mut out = String::new();
    let n = nums.len();
    for i in 0..n
        invariant
            n == nums.len(),
            out@ == lines_text(nums@.take(i as int)),
    {
        let ghost before = out@;
        if i > 0 {
            push_char(&mut out, '\n');
        }
        push_decimal(&mut out, nums[i]);
        proof {
            let t = nums@.take(i + 1);
            assert(t.drop_last() =~= nums@.take(i as int));
            if i > 0 {
                assert(out@ =~= before + seq!['\n'] + decimal(nums@[i as int] as int));
            } else {
                assert(out@ =~= decimal(nums@[i as int] as int));
            }
        }
    }
    assert(nums@.take(n as int) =~= nums@);
    out
}


proof fn lemma_nat_digits(n: nat)
    ensures
        all_digits(nat_digits(n)),
        digits_value(nat_digits(n)) == n,
    decreases n,
{
    if n >= 10 {
        lemma_nat_digits(n / 10);
        let d = nat_digits(n);
        assert(d.drop_last() =~= nat_digits(n / 10));
        let r = (n % 10) as int;
        assert(d.last() == digit_char(r));
        assert(digit_char(r) as int - '0' as int == r);
        assert(digits_value(d) == digits_value(nat_digits(n / 10)) * 10 + r);
        assert((n / 10) * 10 + r == n);
        assert(digits_value(d) == n);
        assert forall|i: int| 0 <= i < d.len() implies is_digit(#[trigger] d[i]) by {
            if i < d.len() - 1 {
                assert(d[i] == nat_digits(n / 10)[i]);
            }
        }
    } else {
        let d = nat_digits(n);
        assert(d.drop_last() =~= Seq::<char>::empty());
        assert(digit_char(n as int) as int - '0' as int == n);
        assert(digits_value(d) == digits_value(d.drop_last()) * 10 + (d.last() as int - '0' as int));
        assert(digits_value(d) == n);
    }
}

proof fn lemma_decimal_token(v: i64)
    ensures
        token_value(decimal(v as int)) == Some(v),
        trim(decimal(v as int)) == decimal(v as int),
        decimal(v as int).len() > 0,
        forall|i: int| 0 <= i < decimal(v as int).len() ==> !is_separator(#[trigger] decimal(v as int)[i], true),
{
    let t = decimal(v as int);
    if v < 0 {
        lemma_nat_digits((-v) as nat);
        assert(t.skip(1) =~= nat_digits((-v) as nat));
        assert forall|i: int| 0 < i < t.len() implies is_digit(#[trigger] t[i]) by {
            assert(t[i] == t.skip(1)[i - 1]);
        }
    } else {
        lemma_nat_digits(v as nat);
    }
    assert(trim_start(t) == t);
    assert(trim_end(t) == t) by {
        assert(is_digit(t.last()));
    }
}

proof fn lemma_pieces_append(a: Seq<char>, b: Seq<char>, by_line: bool)
    requires
        forall|i: int| 0 <= i < b.len() ==> !is_separator(#[trigger] b[i], by_line),
    ensures
        pieces(a + b, by_line) == pieces(a, by_line).update(
            pieces(a, by_line).len() - 1,
            pieces(a, by_line).last() + b,
        ),
    decreases b.len(),
{
    lemma_pieces_len(a, by_line);
    if b.len() == 0 {
        assert(a + b =~= a);
        assert(pieces(a, by_line).last() + b =~= pieces(a, by_line).last());
        assert(pieces(a, by_line).update(pieces(a, by_line).len() - 1, pieces(a, by_line).last())
            =~= pieces(a, by_line));
    } else {
        let b0 = b.drop_last();
        lemma_pieces_append(a, b0, by_line);
        assert((a + b).drop_last() =~= a + b0);
        assert((a + b).last() == b.last());
        assert(pieces(a, by_line).last() + b =~= (pieces(a, by_line).last() + b0).push(b.last()));
        assert(pieces(a + b, by_line) =~= pieces(a, by_line).update(
            pieces(a, by_line).len() - 1,
            pieces(a, by_line).last() + b,
        ));
    }
}

proof fn lemma_lines_fields(nums: Seq<i64>)
    ensures
        fields(lines_text(nums), true).len() == nums.len(),
        forall|i: int| 0 <= i < nums.len() ==> #[trigger] fields(lines_text(nums), true)[i] == decimal(nums[i] as int),
        nums.len() > 0 ==> pieces(lines_text(nums), true).last() == decimal(nums.last() as int),
        nums.len() > 0 ==> keep_nonempty(trim_all(pieces(lines_text(nums), true).drop_last()))
            == fields(lines_text(nums.drop_last()), true),
    decreases nums.len(),
{
    let e = Seq::<char>::empty();
    if nums.len() == 0 {
        lemma_fields_step(pieces(e, true));
        assert(trim_all(pieces(e, true).drop_last()) =~= Seq::empty());
        reveal(Seq::filter);
        assert(keep_nonempty(Seq::empty()) =~= Seq::empty());
    } else {
        let x = nums.last();
        let t = lines_text(nums);
        let prev = nums.drop_last();
        lemma_decimal_token(x);
        lemma_lines_fields(prev);
        if nums.len() == 1 {
            lemma_pieces_append(e, decimal(x as int), true);
            assert(e + decimal(x as int) =~= decimal(x as int));
            assert(seq![e].update(0, e + decimal(x as int)) =~= seq![decimal(x as int)]);
            assert(pieces(t, true).drop_last() =~= pieces(e, true).drop_last());
        } else {
            let p = lines_text(prev) + seq!['\n'];
            assert(p.drop_last() =~= lines_text(prev));
            lemma_pieces_len(lines_text(prev), true);
            lemma_pieces_append(p, decimal(x as int), true);
            assert(t == p + decimal(x as int));
            assert(e + decimal(x as int) =~= decimal(x as int));
            assert(pieces(t, true).drop_last() =~= pieces(lines_text(prev), true));
        }
        lemma_pieces_len(t, true);
        lemma_fields_step(pieces(t, true));
        let f = fields(t, true);
        assert forall|i: int| 0 <= i < nums.len() implies #[trigger] f[i] == decimal(nums[i] as int) by {
            if i < nums.len() - 1 {
                assert(fields(lines_text(prev), true)[i] == decimal(prev[i] as int));
            }
        }
    }
}

/// Reading back the text written for a list of numbers gives that list
/// again, in the same order.
pub proof fn lemma_lines_round_trip(nums: Seq<i64>)
    ensures
        file_numbers(lines_text(nums)) == Some(nums),
{
    lemma_lines_fields(nums);
    let f = fields(lines_text(nums), true);
    assert forall|k: int| 0 <= k < f.len() implies (#[trigger] token_value(f[k])) is Some by {
        lemma_decimal_token(nums[k]);
    }
    assert forall|k: int| 0 <= k < f.len() implies #[trigger] values_of(f)[k] == nums[k] by {
        lemma_decimal_token(nums[k]);
    }
    assert(values_of(f) =~= nums);
}


/// The list of integers in text typed by hand: fields between runs of
/// commas, semicolons and whitespace; `None` if one is not an integer.
pub open spec fn list_numbers(s: Seq<char>) -> Option<Seq<i64>> {
    numbers_of(fields(s, false))
}

/// The integers of a file, one per non-blank line, each line trimmed;
/// `None` if one is not an integer.
pub open spec fn file_numbers(s: Seq<char>) -> Option<Seq<i64>> {
    numbers_of(fields(s, true))
}

/// Reads a list of integers typed by hand.
pub fn parse_custom_list(input: &str) -> (r: Option<Vec<i64>>)
    ensures
        match r {
            Some(v) => list_numbers(input@) == Some(v@),
            None => list_numbers(input@) is None,
        },
{
    let chars = chars_of(input);
    parse_fields(&chars, false)
}

/// Reads the integers of a file, one per line.
pub fn parse_numbers_file(content: &str) -> (r: Option<Vec<i64>>)
    ensures
        match r {
            Some(v) => file_numbers(content@) == Some(v@),
            None => file_numbers(content@) is None,
        },
{
    let chars = chars_of(content);
    parse_fields(&chars, true)
}

} // verus!
