use vstd::prelude::*;

verus! {

broadcast use vstd::string::group_string_axioms;

/// The characters of a string, one per element.
pub fn to_char_vec(s: &str) -> (r: Vec<char>)
    ensures
        r@ == s@,
{
    let mut v: Vec<char> = Vec::new();
    for c in it: s.chars()
        invariant
            v@ == it.seq().take(it.index() as int),
            it.seq() == s@,
    {
        v.push(c);
    }
    v
}

/// Unicode `White_Space`, the property that `char::is_whitespace` tests.
pub open spec fn spec_is_whitespace(c: char) -> bool {
    let u = c as u32;
    ||| 0x09 <= u <= 0x0D
    ||| u == 0x20
    ||| u == 0x85
    ||| u == 0xA0
    ||| u == 0x1680
    ||| 0x2000 <= u <= 0x200A
    ||| u == 0x2028
    ||| u == 0x2029
    ||| u == 0x202F
    ||| u == 0x205F
    ||| u == 0x3000
}

/// `char::is_whitespace`.
pub fn is_whitespace(c: char) -> (r: bool)
    ensures
        r == spec_is_whitespace(c),
{
    let u = c as u32;
    (0x09 <= u && u <= 0x0D) || u == 0x20 || u == 0x85 || u == 0xA0 || u == 0x1680 || (0x2000
        <= u && u <= 0x200A) || u == 0x2028 || u == 0x2029 || u == 0x202F || u == 0x205F || u
        == 0x3000
}

/// Whether `c` is an ASCII decimal digit.
pub open spec fn spec_is_digit(c: char) -> bool {
    '0' <= c <= '9'
}

/// The value of a string of decimal digits.
pub open spec fn digits_value(d: Seq<char>) -> nat
    decreases d.len(),
{
    if d.len() == 0 {
        0
    } else {
        digits_value(d.drop_last()) * 10 + ((d.last() as u32) - ('0' as u32)) as nat
    }
}

/// The characters after an optional leading `+`.
pub open spec fn unsigned_digits(s: Seq<char>) -> Seq<char> {
    if s.len() > 0 && s[0] == '+' {
        s.drop_first()
    } else {
        s
    }
}

/// What `u32::from_str` gives: an optional `+`, then one or more decimal
/// digits whose value fits in 32 bits; anything else is refused.
pub open spec fn spec_parse_u32(s: Seq<char>) -> Option<u32> {
    let d = unsigned_digits(s);
    if d.len() > 0 && (forall|i: int| 0 <= i < d.len() ==> spec_is_digit(#[trigger] d[i]))
        && digits_value(d) <= u32::MAX {
        Some(digits_value(d) as u32)
    } else {
        None
    }
}

/// What `u64::from_str` gives: an optional `+`, then one or more decimal
/// digits whose value fits in 64 bits; anything else is refused.
pub open spec fn spec_parse_u64(s: Seq<char>) -> Option<u64> {
    let d = unsigned_digits(s);
    if d.len() > 0 && (forall|i: int| 0 <= i < d.len() ==> spec_is_digit(#[trigger] d[i]))
        && digits_value(d) <= u64::MAX {
        Some(digits_value(d) as u64)
    } else {
        None
    }
}

proof fn lemma_digits_value_push(d: Seq<char>, c: char)
    ensures
        digits_value(d.push(c)) == digits_value(d) * 10 + ((c as u32) - ('0' as u32)) as nat,
{
    assert(d.push(c).drop_last() =~= d);
}

proof fn lemma_digits_value_grows(d: Seq<char>, c: char)
    requires
        spec_is_digit(c),
    ensures
        digits_value(d.push(c)) >= digits_value(d),
{
    lemma_digits_value_push(d, c);
}

/// `u32::from_str` on the characters `s[start..end]`.
pub fn parse_u32(s: &Vec<char>, start: usize, end: usize) -> (r: Option<u32>)
    requires
        start <= end <= s@.len(),
    ensures
        r == spec_parse_u32(s@.subrange(start as int, end as int)),
{
    let ghost t = s@.subrange(start as int, end as int);
    let mut i = start;
    if i < end && s[i] == '+' {
        i = i + 1;
    }
    let ghost d = unsigned_digits(t);
    assert(d =~= s@.subrange(i as int, end as int));
    if i == end {
        return None;
    }
    let first = i;
    let mut value: u32 = 0;
    while i < end
        invariant
            first <= i <= end <= s@.len(),
            start <= first,
            first < end,
            t == s@.subrange(start as int, end as int),
            d == unsigned_digits(t),
            d =~= s@.subrange(first as int, end as int),
            forall|j: int| first <= j < i ==> spec_is_digit(#[trigger] s@[j]),
            value == digits_value(s@.subrange(first as int, i as int)),
        decreases end - i,
    {
        let c = s[i];
        assert(s@.subrange(first as int, i + 1) =~= s@.subrange(first as int, i as int).push(c));
        proof {
            lemma_digits_value_push(s@.subrange(first as int, i as int), c);
        }
        if !('0' <= c && c <= '9') {
            assert(d[i - first] == c);
            assert(!spec_is_digit(d[i - first]));
            return None;
        }
        let digit = (c as u32) - ('0' as u32);
        match value.checked_mul(10) {
            Some(m) => match m.checked_add(digit) {
                Some(v) => {
                    value = v;
                },
                None => {
                    proof {
                        assert(d.subrange(0, i + 1 - first) =~= s@.subrange(first as int, i + 1));
                        lemma_value_of_prefix_bounds(d, (i + 1 - first) as int);
                    }
                    return None;
                },
            },
            None => {
                proof {
                    assert(d.subrange(0, i + 1 - first) =~= s@.subrange(first as int, i + 1));
                    lemma_value_of_prefix_bounds(d, (i + 1 - first) as int);
                }
                return None;
            },
        }
        i = i + 1;
    }
    assert(s@.subrange(first as int, i as int) =~= d);
    Some(value)
}

/// `u64::from_str` on the characters `s[start..end]`.
pub fn parse_u64(s: &Vec<char>, start: usize, end: usize) -> (r: Option<u64>)
    requires
        start <= end <= s@.len(),
    ensures
        r == spec_parse_u64(s@.subrange(start as int, end as int)),
{
    let ghost t = s@.subrange(start as int, end as int);
    let mut i = start;
    if i < end && s[i] == '+' {
        i = i + 1;
    }
    let ghost d = unsigned_digits(t);
    assert(d =~= s@.subrange(i as int, end as int));
    if i == end {
        return None;
    }
    let first = i;
    let mut value: u64 = 0;
    while i < end
        invariant
            first <= i <= end <= s@.len(),
            start <= first,
            first < end,
            t == s@.subrange(start as int, end as int),
            d == unsigned_digits(t),
            d =~= s@.subrange(first as int, end as int),
            forall|j: int| first <= j < i ==> spec_is_digit(#[trigger] s@[j]),
            value == digits_value(s@.subrange(first as int, i as int)),
        decreases end - i,
    {
        let c = s[i];
        assert(s@.subrange(first as int, i + 1) =~= s@.subrange(first as int, i as int).push(c));
        proof {
            lemma_digits_value_push(s@.subrange(first as int, i as int), c);
        }
        if !('0' <= c && c <= '9') {
            assert(d[i - first] == c);
            assert(!spec_is_digit(d[i - first]));
            return None;
        }
        let digit = ((c as u32) - ('0' as u32)) as u64;
        match value.checked_mul(10) {
            Some(m) => match m.checked_add(digit) {
                Some(v) => {
                    value = v;
                },
                None => {
                    proof {
                        assert(d.subrange(0, i + 1 - first) =~= s@.subrange(first as int, i + 1));
                        lemma_value_of_prefix_bounds(d, (i + 1 - first) as int);
                    }
                    return None;
                },
            },
            None => {
                proof {
                    assert(d.subrange(0, i + 1 - first) =~= s@.subrange(first as int, i + 1));
                    lemma_value_of_prefix_bounds(d, (i + 1 - first) as int);
                }
                return None;
            },
        }
        i = i + 1;
    }
    assert(s@.subrange(first as int, i as int) =~= d);
    Some(value)
}

/// The value of a digit string is at least that of any of its prefixes.
proof fn lemma_value_of_prefix_bounds(d: Seq<char>, n: int)
    requires
        0 <= n <= d.len(),
        forall|j: int| 0 <= j < n ==> spec_is_digit(#[trigger] d[j]),
    ensures
        (forall|j: int| 0 <= j < d.len() ==> spec_is_digit(#[trigger] d[j])) ==> digits_value(d)
            >= digits_value(d.subrange(0, n)),
    decreases d.len() - n,
{
    if n < d.len() && (forall|j: int| 0 <= j < d.len() ==> spec_is_digit(#[trigger] d[j])) {
        lemma_value_of_prefix_bounds(d, n + 1);
        assert(d.subrange(0, n + 1) =~= d.subrange(0, n).push(d[n]));
        lemma_digits_value_grows(d.subrange(0, n), d[n]);
    } else if n == d.len() {
        assert(d.subrange(0, n) =~= d);
    }
}

} // verus!
