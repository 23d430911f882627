//! Character-level helpers on the strings that the runtime exchanges:
//! decimal formatting and parsing, prefixes, and `KEY=VALUE` splitting.
use vstd::prelude::*;

verus! {

/// The character of a decimal digit `d < 10`.
pub open spec fn digit_char(d: nat) -> char {
    (d + 48) as char
}

/// Whether `c` is one of `'0'..='9'`.
pub open spec fn is_digit(c: char) -> bool {
    '0' <= c && c <= '9'
}

/// The value of a decimal digit character.
pub open spec fn digit_value(c: char) -> nat {
    (c as int - 48) as nat
}

/// The shortest decimal representation of `n`, without sign.
pub open spec fn decimal(n: nat) -> Seq<char>
    decreases n,
{
    if n < 10 {
        seq![digit_char(n)]
    } else {
        decimal(n / 10).push(digit_char(n % 10))
    }
}

/// How an integer is displayed: an optional `-` followed by its decimal digits.
pub open spec fn int_text(i: int) -> Seq<char> {
    if i < 0 {
        seq!['-'] + decimal((-i) as nat)
    } else {
        decimal(i as nat)
    }
}

/// Whether every character of `s` is a decimal digit.
pub open spec fn all_digits(s: Seq<char>) -> bool {
    forall|i: int| 0 <= i < s.len() ==> is_digit(#[trigger] s[i])
}

/// The value of a sequence of decimal digits, most significant first.
pub open spec fn digits_value(s: Seq<char>) -> nat
    decreases s.len(),
{
    if s.len() == 0 {
        0
    } else {
        digits_value(s.drop_last()) * 10 + digit_value(s.last())
    }
}

/// The integer that `s` denotes when read as an optional `+` or `-` sign followed by one
/// or more decimal digits, and nothing else; `None` for any other text.
pub open spec fn signed_decimal_value(s: Seq<char>) -> Option<int> {
    let negative = s.len() > 0 && s[0] == '-';
    let body = if s.len() > 0 && (s[0] == '-' || s[0] == '+') {
        s.drop_first()
    } else {
        s
    };
    if body.len() > 0 && all_digits(body) {
        Some(if negative { -(digits_value(body) as int) } else { digits_value(body) as int })
    } else {
        None
    }
}

/// What reading `s` as an `i32` gives: the denoted integer when it fits, `None` otherwise.
pub open spec fn parsed_i32(s: Seq<char>) -> Option<i32> {
    match signed_decimal_value(s) {
        Some(v) => if i32::MIN <= v <= i32::MAX {
            Some(v as i32)
        } else {
            None
        },
        None => None,
    }
}

/// The position of the first occurrence of `c` in `s`, if any.
pub open spec fn first_index_of(s: Seq<char>, c: char) -> Option<int> {
    if exists|i: int| 0 <= i < s.len() && s[i] == c {
        Some(choose|i: int| 0 <= i < s.len() && s[i] == c && forall|j: int| 0 <= j < i ==> s[j] != c)
    } else {
        None
    }
}

/// `s` cut at its first `=`: the text before and the text after it, or `None` when `s`
/// holds no `=`.
pub open spec fn split_at_equals(s: Seq<char>) -> Option<(Seq<char>, Seq<char>)> {
    match first_index_of(s, '=') {
        Some(k) => Some((s.take(k), s.skip(k + 1))),
        None => None,
    }
}

/// The items of `parts` joined with `sep` between consecutive items.
pub open spec fn join_with(parts: Seq<Seq<char>>, sep: char) -> Seq<char>
    decreases parts.len(),
{
    if parts.len() == 0 {
        Seq::empty()
    } else if parts.len() == 1 {
        parts[0]
    } else {
        join_with(parts.drop_last(), sep).push(sep) + parts.last()
    }
}

/// Appends one character to a `String` (std's `String::push`).
#[verifier::external_body]
pub(crate) fn push_char(s: &mut String, c: char)
    ensures
        final(s)@ == old(s)@.push(c),
{
    s.push(c);
}

/// The characters of `s`, in order.
pub fn chars_of(s: &str) -> (v: Vec<char>)
    ensures
        v@ == s@,
{
    let mut v: Vec<char> = Vec::new();
    for c in it: s.chars()
        invariant
            it.seq() == s@,
            v@ == it.seq().take(it.index() as int),
    {
        v.push(c);
    }
    v
}

/// A `String` holding exactly the characters `v[from..to]`.
pub fn string_of(v: &Vec<char>, from: usize, to: usize) -> (s: String)
    requires
        from <= to <= v@.len(),
    ensures
        s@ == v@.subrange(from as int, to as int),
{
    let mut s = String::new();
    let mut i = from;
    while i < to
        invariant
            from <= i <= to <= v@.len(),
            s@ == v@.subrange(from as int, i as int),
        decreases to - i,
    {
        push_char(&mut s, v[i]);
        assert(v@.subrange(from as int, i + 1) == v@.subrange(from as int, i as int).push(v@[i as int]));
        i += 1;
    }
    s
}

fn digit(d: u64) -> (c: char)
    requires
        d < 10,
    ensures
        c == digit_char(d as nat),
{
    let b: u8 = 48 + (d as u8);
    b as char
}

/// Appends the decimal digits of `n` to `s`.
fn push_decimal(s: &mut String, n: u64)
    ensures
        final(s)@ == old(s)@ + decimal(n as nat),
    decreases n,
{
    if n >= 10 {
        push_decimal(s, n / 10);
    }
    push_char(s, digit(n % 10));
    assert(decimal(n as nat) == if n < 10 {
        seq![digit_char(n as nat)]
    } else {
        decimal((n / 10) as nat).push(digit_char((n % 10) as nat))
    });
}

/// The decimal text of an unsigned 32-bit number, as `to_string` displays it.
pub fn u32_text(n: u32) -> (s: String)
    ensures
        s@ == int_text(n as int),
{
    let mut s = String::new();
    push_decimal(&mut s, n as u64);
    s
}

/// The decimal text of a signed 32-bit number, as `to_string` displays it.
pub fn i32_text(n: i32) -> (s: String)
    ensures
        s@ == int_text(n as int),
{
    let mut s = String::new();
    if n < 0 {
        push_char(&mut s, '-');
        let m: u64 = (0i64 - (n as i64)) as u64;
        push_decimal(&mut s, m);
    } else {
        push_decimal(&mut s, n as u64);
    }
    s
}

/// Whether `s` begins with `prefix`.
pub fn starts_with(s: &str, prefix: &str) -> (r: bool)
    ensures
        r == prefix@.is_prefix_of(s@),
{
    let a = chars_of(s);
    let b = chars_of(prefix);
    if b.len() > a.len() {
        return false;
    }
    let mut i: usize = 0;
    while i < b.len()
        invariant
            a@ == s@,
            b@ == prefix@,
            b@.len() <= a@.len(),
            i <= b@.len(),
            forall|j: int| 0 <= j < i ==> a@[j] == b@[j],
        decreases b@.len() - i,
    {
        if a[i] != b[i] {
            assert(!(prefix@ =~= s@.subrange(0, prefix@.len() as int))) by {
                assert(s@.subrange(0, prefix@.len() as int)[i as int] != prefix@[i as int]);
            }
            return false;
        }
        i += 1;
    }
    assert(prefix@ =~= s@.subrange(0, prefix@.len() as int));
    true
}

/// Whether `s` and `t` hold the same characters.
pub fn text_eq(s: &str, t: &str) -> (r: bool)
    ensures
        r == (s@ == t@),
{
    let a = chars_of(s);
    let b = chars_of(t);
    if a.len() != b.len() {
        return false;
    }
    let mut i: usize = 0;
    while i < a.len()
        invariant
            a@ == s@,
            b@ == t@,
            a@.len() == b@.len(),
            i <= a@.len(),
            forall|j: int| 0 <= j < i ==> a@[j] == b@[j],
        decreases a@.len() - i,
    {
        if a[i] != b[i] {
            return false;
        }
        i += 1;
    }
    assert(a@ =~= b@);
    true
}

/// `s` without its leading `prefix`, or `None` when `s` does not begin with it.
pub fn strip_prefix(s: &str, prefix: &str) -> (r: Option<String>)
    ensures
        r is Some <==> prefix@.is_prefix_of(s@),
        r matches Some(rest) ==> rest@ == s@.skip(prefix@.len() as int),
{
    if starts_with(s, prefix) {
        let a = chars_of(s);
        let n = chars_of(prefix).len();
        Some(string_of(&a, n, a.len()))
    } else {
        None
    }
}

proof fn lemma_digits_value_push(s: Seq<char>, c: char)
    ensures
        digits_value(s.push(c)) == digits_value(s) * 10 + digit_value(c),
{
    assert(s.push(c).drop_last() =~= s);
}

/// Reads `s` as an `i32`: an optional sign followed by decimal digits, in range.
pub fn parse_i32(s: &str) -> (r: Option<i32>)
    ensures
        r == parsed_i32(s@),
{
    let v = chars_of(s);
    let n = v.len();
    let negative = n > 0 && v[0] == '-';
    let start: usize = if n > 0 && (v[0] == '-' || v[0] == '+') {
        1
    } else {
        0
    };
    let ghost body = if s@.len() > 0 && (s@[0] == '-' || s@[0] == '+') {
        s@.drop_first()
    } else {
        s@
    };
    assert(body =~= v@.skip(start as int));
    if start >= n {
        return None;
    }
    // The magnitude is accumulated in an i64 and checked against the bound at each digit.
    let limit: i64 = if negative { 2147483648 } else { 2147483647 };
    let mut acc: i64 = 0;
    let mut i: usize = start;
    while i < n
        invariant
            v@ == s@,
            n == v@.len(),
            start <= i <= n,
            body == v@.skip(start as int),
            body == (if s@.len() > 0 && (s@[0] == '-' || s@[0] == '+') {
                s@.drop_first()
            } else {
                s@
            }),
            negative == (s@.len() > 0 && s@[0] == '-'),
            limit == (if negative { 2147483648int } else { 2147483647int }),
            all_digits(v@.subrange(start as int, i as int)),
            acc == digits_value(v@.subrange(start as int, i as int)),
            0 <= acc <= limit,
        decreases n - i,
    {
        let c = v[i];
        if !('0' <= c && c <= '9') {
            assert(!all_digits(body)) by {
                assert(body[i - start] == c);
                assert(!is_digit(body[i - start]));
            }
            assert(signed_decimal_value(s@) is None);
            return None;
        }
        let d: i64 = (c as u32 - 48) as i64;
        assert(d == digit_value(c));
        proof {
            assert(v@.subrange(start as int, i + 1) =~= v@.subrange(start as int, i as int).push(c));
            lemma_digits_value_push(v@.subrange(start as int, i as int), c);
        }
        if acc > (limit - d) / 10 {
            // acc * 10 + d > limit, and every further digit only makes the value larger
            proof {
                assert(body =~= v@.subrange(start as int, n as int));
                if all_digits(body) {
                    lemma_digits_value_grows(v@, start as int, i + 1, n as int);
                    assert(all_digits(v@.subrange(start as int, i + 1))) by {
                        assert forall|j: int| 0 <= j < i + 1 - start implies is_digit(
                            #[trigger] v@.subrange(start as int, i + 1)[j],
                        ) by {
                            assert(v@.subrange(start as int, i + 1)[j] == body[j]);
                        }
                    }
                    assert(acc * 10 + d > limit) by (nonlinear_arith)
                        requires
                            acc > (limit - d) / 10,
                            0 <= d <= 9,
                            limit > 9,
                    ;
                    assert(digits_value(body) > limit);
                    assert(signed_decimal_value(s@) == Some(
                        if negative { -(digits_value(body) as int) } else { digits_value(body) as int },
                    ));
                }
            }
            return None;
        }
        acc = acc * 10 + d;
        i += 1;
    }
    assert(v@.subrange(start as int, n as int) =~= body);
    let value: i64 = if negative { -acc } else { acc };
    Some(value as i32)
}

/// Appending digits never makes the value of a digit string smaller.
proof fn lemma_digits_value_grows(v: Seq<char>, start: int, i: int, n: int)
    requires
        0 <= start <= i <= n <= v.len(),
        all_digits(v.subrange(start, n)),
    ensures
        digits_value(v.subrange(start, i)) <= digits_value(v.subrange(start, n)),
    decreases n - i,
{
    if i < n {
        assert(v.subrange(start, i + 1) =~= v.subrange(start, i).push(v[i]));
        lemma_digits_value_push(v.subrange(start, i), v[i]);
        assert(all_digits(v.subrange(start, i + 1))) by {
            assert forall|j: int| 0 <= j < i + 1 - start implies is_digit(
                #[trigger] v.subrange(start, i + 1)[j],
            ) by {
                assert(v.subrange(start, i + 1)[j] == v.subrange(start, n)[j]);
            }
        }
        lemma_digits_value_grows(v, start, i + 1, n);
    }
}

/// The `KEY=VALUE` entries of `env` split into their key and value, in order;
/// entries without `=` are left out.
pub open spec fn env_pairs(env: Seq<Seq<char>>) -> Seq<(Seq<char>, Seq<char>)>
    decreases env.len(),
{
    if env.len() == 0 {
        Seq::empty()
    } else {
        let rest = env_pairs(env.drop_last());
        match split_at_equals(env.last()) {
            Some(pair) => rest.push(pair),
            None => rest,
        }
    }
}

/// Splits `entry` at its first `=` into the text before and after it.
pub fn split_env_entry(entry: &str) -> (r: Option<(String, String)>)
    ensures
        r.deep_view() == split_at_equals(entry@),
{
    let v = chars_of(entry);
    let mut k: usize = 0;
    while k < v.len()
        invariant
            v@ == entry@,
            k <= v@.len(),
            forall|j: int| 0 <= j < k ==> v@[j] != '=',
        decreases v@.len() - k,
    {
        if v[k] == '=' {
            let ghost first = first_index_of(entry@, '=')->0;
            assert(entry@[k as int] == '=');
            assert(first == k) by {
                if first < k {
                    assert(v@[first] != '=');
                }
                if first > k {
                    assert(entry@[k as int] != '=');
                }
            }
            let key = string_of(&v, 0, k);
            let value = string_of(&v, k + 1, v.len());
            assert(v@.subrange(0, k as int) =~= entry@.take(k as int));
            assert(v@.subrange(k + 1, v@.len() as int) =~= entry@.skip(k + 1));
            return Some((key, value));
        }
        k += 1;
    }
    None
}

/// The environment entries of `env` that hold a `=`, split into key and value.
pub fn parse_env(env: &Vec<String>) -> (r: Vec<(String, String)>)
    ensures
        r.deep_view() == env_pairs(env.deep_view()),
{
    let mut r: Vec<(String, String)> = Vec::new();
    let ghost dv = env.deep_view();
    let mut i: usize = 0;
    while i < env.len()
        invariant
            dv == env.deep_view(),
            i <= env@.len(),
            r.deep_view() == env_pairs(dv.take(i as int)),
        decreases env@.len() - i,
    {
        assert(dv.take(i + 1).drop_last() =~= dv.take(i as int));
        assert(dv.take(i + 1).last() == env@[i as int]@);
        match split_env_entry(env[i].as_str()) {
            Some(pair) => {
                let ghost before = r.deep_view();
                r.push(pair);
                assert(r.deep_view() =~= before.push(pair.deep_view()));
            },
            None => {},
        }
        i += 1;
    }
    assert(dv.take(env@.len() as int) =~= dv);
    r
}

/// The decimal text of a number is a non-empty run of digits whose value is the number.
pub proof fn lemma_decimal_digits(n: nat)
    ensures
        decimal(n).len() > 0,
        all_digits(decimal(n)),
        digits_value(decimal(n)) == n,
    decreases n,
{
    if n < 10 {
        assert(seq![digit_char(n)].drop_last() =~= Seq::<char>::empty());
        assert(digit_value(digit_char(n)) == n);
        assert(digits_value(Seq::<char>::empty()) == 0);
        lemma_digits_value_push(Seq::<char>::empty(), digit_char(n));
        assert(seq![digit_char(n)] =~= Seq::<char>::empty().push(digit_char(n)));
    } else {
        lemma_decimal_digits(n / 10);
        let d = decimal(n / 10);
        assert(decimal(n).drop_last() =~= d);
        lemma_digits_value_push(d, digit_char(n % 10));
        assert(n == (n / 10) * 10 + n % 10) by (nonlinear_arith);
        assert forall|i: int| 0 <= i < decimal(n).len() implies is_digit(#[trigger] decimal(n)[i]) by {
            if i < d.len() {
                assert(decimal(n)[i] == d[i]);
            }
        }
    }
}

/// Reading back the decimal text of an `i32` gives the same number: the text that
/// `i32_text` writes is what `parse_i32` reads.
pub proof fn lemma_i32_text_round_trip(n: i32)
    ensures
        parsed_i32(int_text(n as int)) == Some(n),
{
    let s = int_text(n as int);
    if n < 0 {
        let m = (-(n as int)) as nat;
        lemma_decimal_digits(m);
        assert(s.drop_first() =~= decimal(m));
    } else {
        lemma_decimal_digits(n as nat);
        assert(is_digit(decimal(n as nat)[0]));
    }
}

/// Splitting the environment keeps, in order, exactly the entries that hold a `=`.
pub proof fn lemma_env_pairs_filter_map(env: Seq<Seq<char>>)
    ensures
        env_pairs(env) == env.filter_map(|e: Seq<char>| split_at_equals(e)),
    decreases env.len(),
{
    if env.len() > 0 {
        lemma_env_pairs_filter_map(env.drop_last());
    }
}

} // verus!
