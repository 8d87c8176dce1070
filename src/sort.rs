//! Stable ordering of displayed values: numerically when both values read as
//! decimals, else as text.
use vstd::prelude::*;

verus! {

/// Longest run of digits read as a number.
pub const MAX_NUMBER_DIGITS: usize = 18;

pub open spec fn digits_of(s: Seq<char>) -> int
    decreases s.len(),
{
    if s.len() == 0 {
        0
    } else {
        digits_of(s.drop_last()) * 10 + (s.last() as int - '0' as int)
    }
}

pub open spec fn all_digits(s: Seq<char>) -> bool {
    forall|i: int| 0 <= i < s.len() ==> '0' <= #[trigger] s[i] <= '9'
}

/// The integer a value denotes: an optional `-` and one to eighteen digits.
pub open spec fn int_value(s: Seq<char>) -> Option<int> {
    if s.len() > 0 && s[0] == '-' {
        let d = s.drop_first();
        if 0 < d.len() <= MAX_NUMBER_DIGITS && all_digits(d) {
            Some(-digits_of(d))
        } else {
            None
        }
    } else if 0 < s.len() <= MAX_NUMBER_DIGITS && all_digits(s) {
        Some(digits_of(s))
    } else {
        None
    }
}

/// Lexicographic order of character sequences: -1, 0 or 1.
pub open spec fn text_cmp(a: Seq<char>, b: Seq<char>) -> int
    decreases a.len(),
{
    if a.len() == 0 && b.len() == 0 {
        0
    } else if a.len() == 0 {
        -1
    } else if b.len() == 0 {
        1
    } else if a[0] < b[0] {
        -1
    } else if a[0] > b[0] {
        1
    } else {
        text_cmp(a.drop_first(), b.drop_first())
    }
}

/// Reads the digits and at most one `.` of an unsigned decimal: the digits
/// as one number, the digits after the `.`, whether a `.` was seen, and the
/// counts of digits before and after it.
pub open spec fn dec_body(b: Seq<char>) -> Option<(int, nat, bool, nat, nat)>
    decreases b.len(),
{
    if b.len() == 0 {
        Some((0, 0, false, 0, 0))
    } else {
        match dec_body(b.drop_last()) {
            None => None,
            Some((m, sc, dot, nb, na)) => {
                let c = b.last();
                if '0' <= c <= '9' {
                    let d = c as int - '0' as int;
                    if dot {
                        Some((m * 10 + d, sc + 1, true, nb, na + 1))
                    } else {
                        Some((m * 10 + d, sc, false, nb + 1, na))
                    }
                } else if c == '.' && !dot {
                    Some((m, sc, true, nb, na))
                } else {
                    None
                }
            },
        }
    }
}

/// The number a value denotes, as a mantissa and a count of decimal places:
/// an optional `-`, one or more digits, and optionally a `.` followed by one
/// or more digits; at most eighteen digits in all.
pub open spec fn num_value(s: Seq<char>) -> Option<(int, nat)> {
    let neg = s.len() > 0 && s[0] == '-';
    let body = if neg { s.drop_first() } else { s };
    match dec_body(body) {
        Some((m, sc, dot, nb, na)) => if nb >= 1 && (!dot || na >= 1) && nb + na <= MAX_NUMBER_DIGITS {
            Some((if neg { -m } else { m }, sc))
        } else {
            None
        },
        None => None,
    }
}

/// Order of two decimals given as mantissa and decimal places.
pub open spec fn num_cmp(x: (int, nat), y: (int, nat)) -> int {
    let l = x.0 * pow10(y.1);
    let r = y.0 * pow10(x.1);
    if l < r {
        -1
    } else if l > r {
        1
    } else {
        0
    }
}

/// Order of two displayed values: numeric when both are decimals, else
/// lexicographic.
pub open spec fn value_cmp(a: Seq<char>, b: Seq<char>) -> int {
    match (num_value(a), num_value(b)) {
        (Some(x), Some(y)) => num_cmp(x, y),
        _ => text_cmp(a, b),
    }
}

/// The order in the chosen direction.
pub open spec fn directed_cmp(a: Seq<char>, b: Seq<char>, ascending: bool) -> int {
    if ascending {
        value_cmp(a, b)
    } else {
        -value_cmp(a, b)
    }
}

pub proof fn lemma_text_cmp_antisym(a: Seq<char>, b: Seq<char>)
    ensures
        text_cmp(a, b) == -text_cmp(b, a),
        -1 <= text_cmp(a, b) <= 1,
    decreases a.len(),
{
    if a.len() > 0 && b.len() > 0 && a[0] == b[0] {
        lemma_text_cmp_antisym(a.drop_first(), b.drop_first());
    }
}

pub proof fn lemma_value_cmp_antisym(a: Seq<char>, b: Seq<char>)
    ensures
        value_cmp(a, b) == -value_cmp(b, a),
        -1 <= value_cmp(a, b) <= 1,
{
    lemma_text_cmp_antisym(a, b);
}

/// Positions `a` before `b` are in order: strictly smaller, or equal and
/// earlier.
pub open spec fn in_order(keys: Seq<Seq<char>>, a: usize, b: usize, ascending: bool) -> bool {
    let c = directed_cmp(keys[a as int], keys[b as int], ascending);
    c < 0 || (c == 0 && a < b)
}

/// `p` lists distinct positions below `n`.
pub open spec fn distinct_below(p: Seq<usize>, n: nat) -> bool {
    &&& forall|k: int| 0 <= k < p.len() ==> #[trigger] p[k] < n
    &&& forall|k: int, l: int| 0 <= k < l < p.len() ==> #[trigger] p[k] != #[trigger] p[l]
}

/// `p` is an ordering of the positions `0..keys.len()` in which each
/// neighbouring pair is in order.
pub open spec fn sorted_positions_spec(p: Seq<usize>, keys: Seq<Seq<char>>, ascending: bool) -> bool {
    &&& p.len() == keys.len()
    &&& distinct_below(p, keys.len())
    &&& forall|k: int| 0 <= k < p.len() - 1 ==> in_order(keys, #[trigger] p[k], p[k + 1], ascending)
}

fn is_digit_char(c: char) -> (r: bool)
    ensures
        r == ('0' <= c <= '9'),
{
    '0' <= c && c <= '9'
}

fn digits_value_exec(s: &str, from: usize) -> (r: Option<i64>)
    requires
        from <= s@.len(),
    ensures
        ({
            let d = s@.subrange(from as int, s@.len() as int);
            match r {
                Some(v) => 0 < d.len() <= MAX_NUMBER_DIGITS && all_digits(d) && v == digits_of(d) && 0 <= v
                    < 1_000_000_000_000_000_000,
                None => !(0 < d.len() <= MAX_NUMBER_DIGITS && all_digits(d)),
            }
        }),
{
    let n = s.unicode_len();
    if n - from == 0 || n - from > MAX_NUMBER_DIGITS {
        return None;
    }
    let ghost d = s@.subrange(from as int, n as int);
    let mut v: i64 = 0;
    proof {
        assert(s@.subrange(from as int, from as int) =~= Seq::<char>::empty());
    }
    let mut i: usize = from;
    while i < n
        invariant
            n == s@.len(),
            from <= i <= n,
            n - from <= MAX_NUMBER_DIGITS,
            d == s@.subrange(from as int, n as int),
            all_digits(s@.subrange(from as int, i as int)),
            v == digits_of(s@.subrange(from as int, i as int)),
            0 <= v < pow10((i - from) as nat),
            v < 1_000_000_000_000_000_000,
        decreases n - i,
    {
        let c = s.get_char(i);
        if !is_digit_char(c) {
            proof {
                assert(d[i - from] == c);
            }
            return None;
        }
        proof {
            assert(s@.subrange(from as int, i as int + 1).drop_last() == s@.subrange(from as int, i as int));
            lemma_pow10_bound_pos((i - from) as nat);
            lemma_pow10_mono((i - from) as nat, 17);
            lemma_pow10_17();
            assert(v * 10 + 9 < pow10((i - from + 1) as nat)) by (nonlinear_arith)
                requires
                    v < pow10((i - from) as nat),
                    pow10((i - from + 1) as nat) == 10 * pow10((i - from) as nat),
            ;
            assert(v * 10 + 9 < 1_000_000_000_000_000_000) by (nonlinear_arith)
                requires
                    v < pow10((i - from) as nat),
                    pow10((i - from) as nat) <= 100_000_000_000_000_000,
            ;
            assert(all_digits(s@.subrange(from as int, i as int + 1))) by {
                assert forall|k: int| 0 <= k < i + 1 - from implies '0' <= #[trigger] s@.subrange(from as int, i as int + 1)[k] <= '9' by {
                    if k < i - from {
                        assert(s@.subrange(from as int, i as int + 1)[k] == s@.subrange(from as int, i as int)[k]);
                    }
                }
            }
        }
        v = v * 10 + (c as u32 - '0' as u32) as i64;
        i = i + 1;
    }
    proof {
        assert(s@.subrange(from as int, i as int) == d);
    }
    Some(v)
}

pub open spec fn pow10(n: nat) -> int
    decreases n,
{
    if n == 0 {
        1
    } else {
        10 * pow10((n - 1) as nat)
    }
}

proof fn lemma_pow10_17()
    ensures
        pow10(17) == 100_000_000_000_000_000,
{
    reveal_with_fuel(pow10, 18);
}

proof fn lemma_pow10_mono(a: nat, b: nat)
    requires
        a <= b,
    ensures
        pow10(a) <= pow10(b),
    decreases b - a,
{
    if a < b {
        lemma_pow10_mono(a, (b - 1) as nat);
        lemma_pow10_bound_pos((b - 1) as nat);
    }
}

proof fn lemma_pow10_bound_pos(n: nat)
    ensures
        pow10(n) >= 1,
        pow10(n + 1) == 10 * pow10(n),
    decreases n,
{
    if n > 0 {
        lemma_pow10_bound_pos((n - 1) as nat);
    }
}

/// The integer a value denotes, if any.
pub fn parse_int(s: &str) -> (r: Option<i64>)
    ensures
        match int_value(s@) {
            Some(x) => r is Some && r->0 == x,
            None => r is None,
        },
{
    let n = s.unicode_len();
    if n > 0 && s.get_char(0) == '-' {
        proof {
            assert(s@.subrange(1, n as int) =~= s@.drop_first());
        }
        match digits_value_exec(s, 1) {
            Some(v) => Some(-v),
            None => None,
        }
    } else {
        proof {
            assert(s@.subrange(0, n as int) =~= s@);
        }
        digits_value_exec(s, 0)
    }
}

/// Lexicographic comparison of two strings.
pub fn compare_text(a: &str, b: &str) -> (r: i8)
    ensures
        r as int == text_cmp(a@, b@),
{
    let n = a.unicode_len();
    let m = b.unicode_len();
    let mut i: usize = 0;
    proof {
        assert(a@.subrange(0, n as int) =~= a@);
        assert(b@.subrange(0, m as int) =~= b@);
    }
    while i < n && i < m
        invariant
            n == a@.len(),
            m == b@.len(),
            i <= n,
            i <= m,
            text_cmp(a@, b@) == text_cmp(a@.subrange(i as int, n as int), b@.subrange(i as int, m as int)),
        decreases n - i,
    {
        let x = a.get_char(i);
        let y = b.get_char(i);
        proof {
            assert(a@.subrange(i as int, n as int)[0] == x);
            assert(b@.subrange(i as int, m as int)[0] == y);
            assert(a@.subrange(i as int, n as int).drop_first() =~= a@.subrange(i as int + 1, n as int));
            assert(b@.subrange(i as int, m as int).drop_first() =~= b@.subrange(i as int + 1, m as int));
        }
        if x < y {
            return -1;
        }
        if x > y {
            return 1;
        }
        i = i + 1;
    }
    if i == n && i == m {
        0
    } else if i == n {
        -1
    } else {
        1
    }
}

proof fn lemma_dec_body(b: Seq<char>)
    ensures
        dec_body(b) matches Some((m, sc, dot, nb, na)) ==> nb + na + (if dot { 1int } else { 0int }) == b.len()
            && sc == na && 0 <= m < pow10(nb + na) && (!dot ==> na == 0),
    decreases b.len(),
{
    if b.len() > 0 {
        lemma_dec_body(b.drop_last());
        match dec_body(b.drop_last()) {
            Some((m, sc, dot, nb, na)) => {
                lemma_pow10_bound_pos(nb + na);
                let c = b.last();
                if '0' <= c <= '9' {
                    let d = c as int - '0' as int;
                    assert(m * 10 + d < pow10(nb + na + 1)) by (nonlinear_arith)
                        requires
                            0 <= m < pow10(nb + na),
                            0 <= d <= 9,
                            pow10(nb + na + 1) == 10 * pow10(nb + na),
                    ;
                }
            },
            None => {},
        }
    }
}

fn pow10_exec(n: u32) -> (r: i128)
    requires
        n <= 19,
    ensures
        r == pow10(n as nat),
        r > 0,
{
    let mut r: i128 = 1;
    let mut i: u32 = 0;
    while i < n
        invariant
            i <= n,
            n <= 19,
            r == pow10(i as nat),
            0 < r <= pow10(i as nat),
        decreases n - i,
    {
        proof {
            lemma_pow10_bound_pos(i as nat);
            lemma_pow10_mono(i as nat, 18);
            lemma_pow10_18();
        }
        r = r * 10;
        i = i + 1;
    }
    r
}

proof fn lemma_pow10_18()
    ensures
        pow10(18) == 1_000_000_000_000_000_000,
{
    reveal_with_fuel(pow10, 19);
}

/// Reads a value as a decimal: its mantissa and decimal places.
pub fn parse_decimal(s: &str) -> (r: Option<(i128, u32)>)
    ensures
        match num_value(s@) {
            Some((m, sc)) => r is Some && (r->0).0 as int == m && (r->0).1 as nat == sc,
            None => r is None,
        },
{
    let n = s.unicode_len();
    let neg = n > 0 && s.get_char(0) == '-';
    let start: usize = if neg { 1 } else { 0 };
    let ghost body = if neg { s@.drop_first() } else { s@ };
    proof {
        assert(body =~= s@.subrange(start as int, n as int));
        lemma_dec_body(body);
    }
    if n - start > MAX_NUMBER_DIGITS + 1 {
        proof {
            assert(body.len() == n - start);
            if let Some((m0, sc0, dot0, nb0, na0)) = dec_body(body) {
                assert(nb0 + na0 + (if dot0 { 1int } else { 0int }) == body.len());
                assert(nb0 + na0 > MAX_NUMBER_DIGITS);
            }
        }
        return None;
    }
    let mut m: i128 = 0;
    let mut sc: u32 = 0;
    let mut dot = false;
    let mut nb: u32 = 0;
    let mut na: u32 = 0;
    let mut i: usize = start;
    proof {
        assert(s@.subrange(start as int, start as int) =~= Seq::<char>::empty());
    }
    while i < n
        invariant
            n == s@.len(),
            start <= i <= n,
            n - start <= MAX_NUMBER_DIGITS + 1,
            body == s@.subrange(start as int, n as int),
            body == (if s@.len() > 0 && s@[0] == '-' { s@.drop_first() } else { s@ }),
            neg == (s@.len() > 0 && s@[0] == '-'),
            dec_body(s@.subrange(start as int, i as int)) == Some((m as int, sc as nat, dot, nb as nat, na as nat)),
            nb + na <= i - start,
            sc == na,
            0 <= m < pow10((nb + na) as nat),
        decreases n - i,
    {
        let c = s.get_char(i);
        let ghost pre = s@.subrange(start as int, i as int + 1);
        proof {
            assert(pre.drop_last() =~= s@.subrange(start as int, i as int));
            assert(pre.last() == c);
            lemma_dec_body(pre);
            lemma_pow10_bound_pos((nb + na) as nat);
            lemma_pow10_mono((nb + na) as nat, 18);
            lemma_pow10_18();
        }
        if '0' <= c && c <= '9' {
            let d = (c as u32 - '0' as u32) as i128;
            proof {
                assert(m * 10 + d < 10_000_000_000_000_000_000 * 10 + 10) by (nonlinear_arith)
                    requires
                        0 <= m < pow10((nb + na) as nat),
                        pow10((nb + na) as nat) <= 1_000_000_000_000_000_000 * 10,
                        0 <= d <= 9,
                ;
            }
            m = m * 10 + d;
            if dot {
                sc = sc + 1;
                na = na + 1;
            } else {
                nb = nb + 1;
            }
        } else if c == '.' && !dot {
            dot = true;
        } else {
            proof {
                assert(dec_body(pre) is None);
                assert(body.subrange(0, pre.len() as int) =~= pre);
                lemma_dec_body_prefix_none(body, pre.len() as int);
            }
            return None;
        }
        i = i + 1;
    }
    proof {
        assert(s@.subrange(start as int, n as int) == body);
    }
    if nb >= 1 && (!dot || na >= 1) && nb + na <= MAX_NUMBER_DIGITS as u32 {
        if neg {
            Some((-m, sc))
        } else {
            Some((m, sc))
        }
    } else {
        None
    }
}

/// A prefix that does not read as a decimal keeps the whole from reading.
proof fn lemma_dec_body_prefix_none(b: Seq<char>, k: int)
    requires
        0 <= k <= b.len(),
        dec_body(b.subrange(0, k)) is None,
    ensures
        dec_body(b) is None,
    decreases b.len() - k,
{
    if k < b.len() {
        assert(b.subrange(0, k + 1).drop_last() =~= b.subrange(0, k));
        lemma_dec_body_prefix_none(b, k + 1);
    } else {
        assert(b.subrange(0, k) =~= b);
    }
}

/// Order of two displayed values: numeric when both are decimals, else
/// lexicographic.
pub fn compare_values(a: &str, b: &str) -> (r: i8)
    ensures
        r as int == value_cmp(a@, b@),
{
    match (parse_decimal(a), parse_decimal(b)) {
        (Some(x), Some(y)) => {
            proof {
                lemma_num_bounds(a@);
                lemma_num_bounds(b@);
                lemma_pow10_mono(y.1 as nat, 18);
                lemma_pow10_mono(x.1 as nat, 18);
                lemma_pow10_18();
                lemma_pow10_bound_pos(x.1 as nat);
                lemma_pow10_bound_pos(y.1 as nat);
            }
            let px = pow10_exec(y.1);
            let py = pow10_exec(x.1);
            proof {
                assert(-1_000_000_000_000_000_000 * 1_000_000_000_000_000_000 <= x.0 * px
                    <= 1_000_000_000_000_000_000 * 1_000_000_000_000_000_000) by (nonlinear_arith)
                    requires
                        -1_000_000_000_000_000_000 <= x.0 <= 1_000_000_000_000_000_000,
                        0 < px <= 1_000_000_000_000_000_000,
                ;
                assert(-1_000_000_000_000_000_000 * 1_000_000_000_000_000_000 <= y.0 * py
                    <= 1_000_000_000_000_000_000 * 1_000_000_000_000_000_000) by (nonlinear_arith)
                    requires
                        -1_000_000_000_000_000_000 <= y.0 <= 1_000_000_000_000_000_000,
                        0 < py <= 1_000_000_000_000_000_000,
                ;
            }
            let l = x.0 * px;
            let r = y.0 * py;
            if l < r {
                -1
            } else if l > r {
                1
            } else {
                0
            }
        },
        _ => compare_text(a, b),
    }
}

proof fn lemma_num_bounds(s: Seq<char>)
    ensures
        num_value(s) matches Some((m, sc)) ==> -1_000_000_000_000_000_000 <= m <= 1_000_000_000_000_000_000 && sc <= 18,
{
    let neg = s.len() > 0 && s[0] == '-';
    let body = if neg { s.drop_first() } else { s };
    lemma_dec_body(body);
    if let Some((m, sc, dot, nb, na)) = dec_body(body) {
        if nb + na <= MAX_NUMBER_DIGITS {
            lemma_pow10_mono(nb + na, 18);
            lemma_pow10_18();
        }
    }
}

#[verifier::rlimit(60)]
proof fn lemma_insert_keeps_order(before: Seq<usize>, ks: Seq<Seq<char>>, i: usize, j: int, ascending: bool)
    requires
        i < ks.len(),
        0 <= j <= before.len(),
        before.len() == i,
        distinct_below(before, i as nat),
        forall|k: int| 0 <= k < before.len() - 1 ==> in_order(ks, #[trigger] before[k], before[k + 1], ascending),
        forall|k: int| j <= k < before.len() ==> directed_cmp(ks[#[trigger] before[k] as int], ks[i as int], ascending) > 0,
        j == 0 || directed_cmp(ks[before[j - 1] as int], ks[i as int], ascending) <= 0,
    ensures
        distinct_below(before.insert(j, i), i as nat + 1),
        forall|k: int|
            0 <= k < before.insert(j, i).len() - 1 ==> in_order(ks, #[trigger] before.insert(j, i)[k], before.insert(j, i)[k + 1], ascending),
{
    let out = before.insert(j, i);
    assert forall|k: int| 0 <= k < out.len() implies #[trigger] out[k] < i + 1 by {
        if k < j {
            assert(out[k] == before[k]);
        } else if k > j {
            assert(out[k] == before[k - 1]);
        }
    }
    assert forall|k: int, l: int| 0 <= k < l < out.len() implies #[trigger] out[k] != #[trigger] out[l] by {
        if k < j && l < j {
            assert(out[k] == before[k] && out[l] == before[l]);
        } else if k < j && l == j {
            assert(out[k] == before[k]);
        } else if k < j {
            assert(out[k] == before[k] && out[l] == before[l - 1]);
        } else if k == j {
            assert(out[l] == before[l - 1]);
        } else {
            assert(out[k] == before[k - 1] && out[l] == before[l - 1]);
        }
    }
    assert forall|k: int| 0 <= k < out.len() - 1 implies in_order(ks, #[trigger] out[k], out[k + 1], ascending) by {
        if k + 1 < j {
            assert(out[k] == before[k] && out[k + 1] == before[k + 1]);
        } else if k + 1 == j {
            assert(out[k] == before[k]);
            assert(out[k + 1] == i);
        } else if k == j {
            assert(out[k] == i);
            assert(out[k + 1] == before[k]);
            lemma_value_cmp_antisym(ks[before[k] as int], ks[i as int]);
        } else {
            assert(out[k] == before[k - 1] && out[k + 1] == before[k]);
        }
    }
}

/// The positions `0..keys.len()` in stable sorted order: insertion sort, so
/// equal keys keep their relative order.
pub fn sort_positions(keys: &Vec<String>, ascending: bool) -> (r: Vec<usize>)
    ensures
        sorted_positions_spec(r@, keys@.map_values(|s: String| s@), ascending),
        r@ == insertion_sorted(keys@.map_values(|s: String| s@), ascending, keys@.len()),
{
    let ghost ks = keys@.map_values(|s: String| s@);
    let n = keys.len();
    let mut out: Vec<usize> = Vec::new();
    let mut i: usize = 0;
    while i < n
        invariant
            n == keys@.len(),
            ks == keys@.map_values(|s: String| s@),
            i <= n,
            out@.len() == i,
            out@ == insertion_sorted(ks, ascending, i as nat),
            distinct_below(out@, i as nat),
            forall|k: int| 0 <= k < out@.len() - 1 ==> in_order(ks, #[trigger] out@[k], out@[k + 1], ascending),
        decreases n - i,
    {
        let mut j: usize = out.len();
        let mut moving = true;
        while moving
            invariant
                j <= out@.len(),
                n == keys@.len(),
                i < n,
                ks == keys@.map_values(|s: String| s@),
                distinct_below(out@, i as nat),
                out@ == insertion_sorted(ks, ascending, i as nat),
                out@.len() == i,
                forall|k: int| j <= k < out@.len() ==> directed_cmp(ks[#[trigger] out@[k] as int], ks[i as int], ascending) > 0,
                !moving ==> (j == 0 || directed_cmp(ks[out@[j - 1] as int], ks[i as int], ascending) <= 0),
                moving ==> insert_pos(out@, ks, i, ascending, out@.len()) == insert_pos(out@, ks, i, ascending, j as nat),
                !moving ==> insert_pos(out@, ks, i, ascending, out@.len()) == j,
            decreases j + if moving { 1int } else { 0int },
        {
            if j == 0 {
                moving = false;
            } else {
                let c = compare_values(keys[out[j - 1]].as_str(), keys[i].as_str());
                proof {
                    assert(ks[out@[j - 1] as int] == keys@[out@[j - 1] as int]@);
                    assert(ks[i as int] == keys@[i as int]@);
                }
                if (ascending && c > 0) || (!ascending && c < 0) {
                    j = j - 1;
                } else {
                    moving = false;
                }
            }
        }
        proof {
            assert(ks[i as int] == keys@[i as int]@);
        }
        let ghost before = out@;
        out.insert(j, i);
        proof {
            lemma_insert_keeps_order(before, ks, i, j as int, ascending);
            assert(insertion_sorted(ks, ascending, i as nat + 1) == before.insert(j as int, i));
        }
        i = i + 1;
    }
    out
}

/// Where insertion sort puts `x` into `out`: scanning back from `j`, past
/// every element after which `x` is ordered.
pub open spec fn insert_pos(out: Seq<usize>, keys: Seq<Seq<char>>, x: usize, ascending: bool, j: nat) -> nat
    decreases j,
{
    if j == 0 {
        0
    } else if directed_cmp(keys[out[j - 1] as int], keys[x as int], ascending) > 0 {
        insert_pos(out, keys, x, ascending, (j - 1) as nat)
    } else {
        j
    }
}

/// The positions `0..n` in the order insertion sort gives them.
pub open spec fn insertion_sorted(keys: Seq<Seq<char>>, ascending: bool, n: nat) -> Seq<usize>
    decreases n,
{
    if n == 0 {
        Seq::empty()
    } else {
        let p = insertion_sorted(keys, ascending, (n - 1) as nat);
        p.insert(insert_pos(p, keys, (n - 1) as usize, ascending, p.len()) as int, (n - 1) as usize)
    }
}

/// Every key reads as a decimal, or none does: then the order is
/// transitive.
pub open spec fn keys_comparable(keys: Seq<Seq<char>>) -> bool {
    (forall|i: int| 0 <= i < keys.len() ==> #[trigger] num_value(keys[i]) is Some) || (forall|i: int|
        0 <= i < keys.len() ==> #[trigger] num_value(keys[i]) is None)
}

/// No two positions hold equal keys.
pub open spec fn keys_distinct(keys: Seq<Seq<char>>) -> bool {
    forall|a: int, b: int|
        0 <= a < keys.len() && 0 <= b < keys.len() && a != b ==> value_cmp(#[trigger] keys[a], #[trigger] keys[b]) != 0
}

proof fn lemma_text_cmp_trans(a: Seq<char>, b: Seq<char>, c: Seq<char>)
    requires
        text_cmp(a, b) < 0,
        text_cmp(b, c) < 0,
    ensures
        text_cmp(a, c) < 0,
    decreases a.len(),
{
    if a.len() > 0 && b.len() > 0 && c.len() > 0 && a[0] == b[0] && b[0] == c[0] {
        lemma_text_cmp_trans(a.drop_first(), b.drop_first(), c.drop_first());
    }
}

proof fn lemma_value_cmp_trans(keys: Seq<Seq<char>>, x: int, y: int, z: int)
    requires
        keys_comparable(keys),
        0 <= x < keys.len(),
        0 <= y < keys.len(),
        0 <= z < keys.len(),
        value_cmp(keys[x], keys[y]) < 0,
        value_cmp(keys[y], keys[z]) < 0,
    ensures
        value_cmp(keys[x], keys[z]) < 0,
{
    if num_value(keys[x]) is None {
        assert(num_value(keys[y]) is None && num_value(keys[z]) is None);
        lemma_text_cmp_trans(keys[x], keys[y], keys[z]);
    } else {
        assert(num_value(keys[y]) is Some && num_value(keys[z]) is Some);
        lemma_num_cmp_trans(num_value(keys[x])->0, num_value(keys[y])->0, num_value(keys[z])->0);
    }
}

/// Neighbours in order make the whole sequence ascending, when keys are
/// distinct and comparable.
proof fn lemma_globally_ascending(p: Seq<usize>, keys: Seq<Seq<char>>, i: int, j: int)
    requires
        sorted_positions_spec(p, keys, true),
        keys_comparable(keys),
        keys_distinct(keys),
        0 <= i < j < p.len(),
    ensures
        value_cmp(keys[p[i] as int], keys[p[j] as int]) < 0,
    decreases j - i,
{
    assert(in_order(keys, p[j - 1], p[j], true));
    assert(p[j - 1] != p[j]);
    if i < j - 1 {
        lemma_globally_ascending(p, keys, i, j - 1);
        lemma_value_cmp_trans(keys, p[i] as int, p[j - 1] as int, p[j] as int);
    }
}

proof fn lemma_globally_descending(q: Seq<usize>, keys: Seq<Seq<char>>, i: int, j: int)
    requires
        sorted_positions_spec(q, keys, false),
        keys_comparable(keys),
        keys_distinct(keys),
        0 <= i < j < q.len(),
    ensures
        value_cmp(keys[q[j] as int], keys[q[i] as int]) < 0,
    decreases j - i,
{
    assert(in_order(keys, q[j - 1], q[j], false));
    assert(q[j - 1] != q[j]);
    lemma_value_cmp_antisym(keys[q[j - 1] as int], keys[q[j] as int]);
    if i < j - 1 {
        lemma_globally_descending(q, keys, i, j - 1);
        lemma_value_cmp_trans(keys, q[j] as int, q[j - 1] as int, q[i] as int);
    }
}

/// `n` distinct positions below `m` need `n <= m`.
proof fn lemma_pigeonhole(p: Seq<usize>, m: nat)
    requires
        distinct_below(p, m),
    ensures
        p.len() <= m,
    decreases m,
{
    if m == 0 {
        if p.len() > 0 {
            assert(p[0] < 0);
        }
    } else {
        let top = (m - 1) as usize;
        if exists|j: int| 0 <= j < p.len() && p[j] == top {
            let j = choose|j: int| 0 <= j < p.len() && p[j] == top;
            let r = p.remove(j);
            assert forall|k: int| 0 <= k < r.len() implies #[trigger] r[k] < (m - 1) as nat by {
                if k < j {
                    assert(r[k] == p[k] && p[k] != p[j]);
                } else {
                    assert(r[k] == p[k + 1] && p[k + 1] != p[j]);
                }
            }
            assert forall|k: int, l: int| 0 <= k < l < r.len() implies #[trigger] r[k] != #[trigger] r[l] by {
                let k2 = if k < j { k } else { k + 1 };
                let l2 = if l < j { l } else { l + 1 };
                assert(r[k] == p[k2] && r[l] == p[l2]);
            }
            lemma_pigeonhole(r, (m - 1) as nat);
        } else {
            assert forall|k: int| 0 <= k < p.len() implies #[trigger] p[k] < (m - 1) as nat by {
                assert(p[k] != top);
            }
            lemma_pigeonhole(p, (m - 1) as nat);
        }
    }
}

/// `n` distinct positions below `n` are all of them.
proof fn lemma_covers(p: Seq<usize>, x: usize)
    requires
        distinct_below(p, p.len()),
        x < p.len(),
    ensures
        exists|j: int| 0 <= j < p.len() && p[j] == x,
{
    if !(exists|j: int| 0 <= j < p.len() && p[j] == x) {
        let f = |y: usize| if y > x { (y - 1) as usize } else { y };
        let r = p.map_values(f);
        assert forall|k: int| 0 <= k < r.len() implies #[trigger] r[k] < (p.len() - 1) as nat by {
            assert(p[k] != x);
        }
        assert forall|k: int, l: int| 0 <= k < l < r.len() implies #[trigger] r[k] != #[trigger] r[l] by {
            assert(p[k] != p[l] && p[k] != x && p[l] != x);
        }
        lemma_pigeonhole(r, (p.len() - 1) as nat);
    }
}

proof fn lemma_text_cmp_zero(a: Seq<char>, b: Seq<char>)
    requires
        text_cmp(a, b) == 0,
    ensures
        a == b,
    decreases a.len(),
{
    if a.len() > 0 && b.len() > 0 {
        lemma_text_cmp_zero(a.drop_first(), b.drop_first());
        assert(a =~= seq![a[0]] + a.drop_first());
        assert(b =~= seq![b[0]] + b.drop_first());
    }
}

/// With comparable keys, "not after" composes: `x <= y <= z` gives
/// `x <= z`, strictly when either step is strict.
proof fn lemma_value_cmp_le_trans(keys: Seq<Seq<char>>, x: int, y: int, z: int)
    requires
        keys_comparable(keys),
        0 <= x < keys.len(),
        0 <= y < keys.len(),
        0 <= z < keys.len(),
        value_cmp(keys[x], keys[y]) <= 0,
        value_cmp(keys[y], keys[z]) <= 0,
    ensures
        value_cmp(keys[x], keys[z]) <= 0,
        value_cmp(keys[x], keys[y]) < 0 || value_cmp(keys[y], keys[z]) < 0 ==> value_cmp(keys[x], keys[z]) < 0,
{
    if num_value(keys[x]) is None {
        assert(num_value(keys[y]) is None && num_value(keys[z]) is None);
        if text_cmp(keys[x], keys[y]) == 0 {
            lemma_text_cmp_zero(keys[x], keys[y]);
        } else if text_cmp(keys[y], keys[z]) == 0 {
            lemma_text_cmp_zero(keys[y], keys[z]);
        } else {
            lemma_text_cmp_trans(keys[x], keys[y], keys[z]);
        }
    } else {
        assert(num_value(keys[y]) is Some && num_value(keys[z]) is Some);
        lemma_num_cmp_trans(num_value(keys[x])->0, num_value(keys[y])->0, num_value(keys[z])->0);
    }
}

/// The numeric order composes: `x <= y <= z` gives `x <= z`, strictly when
/// either step is strict.
proof fn lemma_num_cmp_trans(x: (int, nat), y: (int, nat), z: (int, nat))
    ensures
        num_cmp(x, y) <= 0 && num_cmp(y, z) <= 0 ==> num_cmp(x, z) <= 0,
        num_cmp(x, y) <= 0 && num_cmp(y, z) <= 0 && (num_cmp(x, y) < 0 || num_cmp(y, z) < 0) ==> num_cmp(x, z) < 0,
{
    lemma_pow10_bound_pos(x.1);
    lemma_pow10_bound_pos(y.1);
    lemma_pow10_bound_pos(z.1);
    let (px, py, pz) = (pow10(x.1), pow10(y.1), pow10(z.1));
    assert(x.0 * py <= y.0 * px && y.0 * pz <= z.0 * py ==> x.0 * pz <= z.0 * px) by (nonlinear_arith)
        requires
            px > 0,
            py > 0,
            pz > 0,
    ;
    assert((x.0 * py < y.0 * px && y.0 * pz <= z.0 * py) || (x.0 * py <= y.0 * px && y.0 * pz < z.0 * py)
        ==> x.0 * pz < z.0 * px) by (nonlinear_arith)
        requires
            px > 0,
            py > 0,
            pz > 0,
    ;
}

/// The sort is stable: in a sorted order of comparable keys, any two
/// positions with equal keys keep their relative order, and every earlier
/// key is not after a later one.
pub proof fn lemma_sort_is_stable(p: Seq<usize>, keys: Seq<Seq<char>>, ascending: bool, i: int, j: int)
    requires
        sorted_positions_spec(p, keys, ascending),
        keys_comparable(keys),
        0 <= i < j < p.len(),
    ensures
        directed_cmp(keys[p[i] as int], keys[p[j] as int], ascending) <= 0,
        directed_cmp(keys[p[i] as int], keys[p[j] as int], ascending) == 0 ==> p[i] < p[j],
    decreases j - i,
{
    assert(in_order(keys, p[j - 1], p[j], ascending));
    lemma_value_cmp_antisym(keys[p[j - 1] as int], keys[p[j] as int]);
    if i < j - 1 {
        lemma_sort_is_stable(p, keys, ascending, i, j - 1);
        lemma_value_cmp_antisym(keys[p[i] as int], keys[p[j - 1] as int]);
        lemma_value_cmp_antisym(keys[p[i] as int], keys[p[j] as int]);
        if ascending {
            lemma_value_cmp_le_trans(keys, p[i] as int, p[j - 1] as int, p[j] as int);
        } else {
            lemma_value_cmp_le_trans(keys, p[j] as int, p[j - 1] as int, p[i] as int);
        }
    }
}

/// Sorting ascending and reversing gives the descending order, for a column
/// whose values are pairwise distinct and either all decimals or all text.
pub proof fn lemma_reverse_of_ascending_is_descending(p: Seq<usize>, q: Seq<usize>, keys: Seq<Seq<char>>)
    requires
        sorted_positions_spec(p, keys, true),
        sorted_positions_spec(q, keys, false),
        keys_comparable(keys),
        keys_distinct(keys),
    ensures
        p.reverse() == q,
{
    let n = p.len();
    let r = p.reverse();
    assert forall|k: int| 0 <= k < n implies #[trigger] r[k] == q[k] by {
        lemma_reverse_prefix(p, q, keys, k);
    }
    assert(r =~= q);
}

proof fn lemma_reverse_prefix(p: Seq<usize>, q: Seq<usize>, keys: Seq<Seq<char>>, k: int)
    requires
        sorted_positions_spec(p, keys, true),
        sorted_positions_spec(q, keys, false),
        keys_comparable(keys),
        keys_distinct(keys),
        0 <= k < p.len(),
    ensures
        forall|j: int| 0 <= j <= k ==> #[trigger] p.reverse()[j] == q[j],
    decreases k,
{
    let n = p.len() as int;
    let r = p.reverse();
    if k > 0 {
        lemma_reverse_prefix(p, q, keys, k - 1);
    }
    let a = r[k];
    let b = q[k];
    if a != b {
        // b sits in r at some m; m < k would repeat it in q, m > k puts it
        // below a in r while q puts it above
        lemma_covers(p, b);
        let jp = choose|j: int| 0 <= j < p.len() && p[j] == b;
        let m = n - 1 - jp;
        assert(r[m] == b);
        if m < k {
            assert(q[m] == r[m]);
        } else {
            assert(m > k);
            lemma_globally_ascending(p, keys, jp, n - 1 - k);
            lemma_covers(q, a);
            let mq = choose|j: int| 0 <= j < q.len() && q[j] == a;
            if mq < k {
                assert(r[mq] == q[mq]);
                assert(r[mq] == p[n - 1 - mq]);
                assert(p[n - 1 - mq] == p[n - 1 - k]);
            } else {
                assert(mq > k);
                lemma_globally_descending(q, keys, k, mq);
                lemma_value_cmp_antisym(keys[a as int], keys[b as int]);
            }
        }
    }
}

/// Sorts strings lexicographically.
#[verifier::rlimit(60)]
pub fn sort_strings(v: Vec<String>) -> (r: Vec<String>)
    ensures
        r@.len() == v@.len(),
        forall|k: int| 0 <= k < r@.len() - 1 ==> text_cmp(#[trigger] r@[k]@, r@[k + 1]@) <= 0,
        forall|i: int| 0 <= i < v@.len() ==> r@.contains(#[trigger] v@[i]),
{
    let ghost all = v@;
    let mut rest = v;
    let mut out: Vec<String> = Vec::new();
    let mut i: usize = 0;
    let n = rest.len();
    proof {
        assert(rest@ =~= all.subrange(0, all.len() as int));
    }
    while i < n
        invariant
            n == all.len(),
            all == v@,
            i <= n,
            rest@ == all.subrange(i as int, n as int),
            out@.len() == i,
            forall|k: int| 0 <= k < out@.len() - 1 ==> text_cmp(#[trigger] out@[k]@, out@[k + 1]@) <= 0,
            forall|t: int| 0 <= t < i ==> exists|k: int| 0 <= k < out@.len() && out@[k] == #[trigger] all[t],
        decreases n - i,
    {
        let x = rest.remove(0);
        proof {
            assert(x == all[i as int]);
            assert(rest@ =~= all.subrange(i as int + 1, n as int));
        }
        let mut j: usize = out.len();
        let mut moving = true;
        while moving
            invariant
                j <= out@.len(),
                forall|k: int| j <= k < out@.len() ==> text_cmp(#[trigger] out@[k]@, x@) > 0,
                !moving ==> (j == 0 || text_cmp(out@[j - 1]@, x@) <= 0),
            decreases j + if moving { 1int } else { 0int },
        {
            if j == 0 {
                moving = false;
            } else if compare_text(out[j - 1].as_str(), x.as_str()) > 0 {
                j = j - 1;
            } else {
                moving = false;
            }
        }
        let ghost before = out@;
        let ghost gx = x;
        out.insert(j, x);
        proof {
            assert(out@ == before.insert(j as int, gx));
            assert forall|k: int| 0 <= k < out@.len() - 1 implies text_cmp(#[trigger] out@[k]@, out@[k + 1]@) <= 0 by {
                if k + 1 < j {
                    assert(out@[k] == before[k] && out@[k + 1] == before[k + 1]);
                } else if k + 1 == j {
                    assert(out@[k] == before[k] && out@[k + 1] == gx);
                } else if k == j {
                    assert(out@[k] == gx && out@[k + 1] == before[k]);
                    lemma_text_cmp_antisym(before[k]@, gx@);
                } else {
                    assert(out@[k] == before[k - 1] && out@[k + 1] == before[k]);
                }
            }
            assert forall|t: int| 0 <= t < i + 1 implies exists|k: int|
                0 <= k < out@.len() && out@[k] == #[trigger] all[t] by {
                if t == i {
                    assert(out@[j as int] == all[t]);
                } else {
                    let k0 = choose|k: int| 0 <= k < before.len() && before[k] == all[t];
                    if k0 < j {
                        assert(out@[k0] == all[t]);
                    } else {
                        assert(out@[k0 + 1] == all[t]);
                    }
                }
            }
        }
        i = i + 1;
    }
    proof {
        assert forall|t: int| 0 <= t < v@.len() implies out@.contains(#[trigger] v@[t]) by {
            assert(all[t] == v@[t]);
            let k = choose|k: int| 0 <= k < out@.len() && out@[k] == all[t];
            assert(out@[k] == v@[t]);
        }
    }
    out
}

} // verus!
