use vstd::prelude::*;

verus! {

/// What `str::to_lowercase` returns for the text `s`: its Unicode lowercase form.
pub uninterp spec fn lowercase_of(s: Seq<char>) -> Seq<char>;

/// Whether `char::is_alphanumeric` holds of `c` (Unicode letters and numbers).
pub uninterp spec fn is_alphanumeric_char(c: char) -> bool;

/// Whether `char::is_whitespace` holds of `c` (the Unicode `White_Space` property).
pub uninterp spec fn is_whitespace_char(c: char) -> bool;

/// `str::to_lowercase`: the lowercase form of the whole text, a function of the text alone.
pub assume_specification[ str::to_lowercase ](s: &str) -> (lower: String)
    ensures
        lower@ == lowercase_of(s@),
;

/// `char::is_alphanumeric`: a fixed property of the character.
pub assume_specification[ char::is_alphanumeric ](c: char) -> (b: bool)
    ensures
        b == is_alphanumeric_char(c),
;

/// `char::is_whitespace`: a fixed property of the character.
pub assume_specification[ char::is_whitespace ](c: char) -> (b: bool)
    ensures
        b == is_whitespace_char(c),
;

/// `String::push`: appends one character at the end.
pub assume_specification[ String::push ](s: &mut String, ch: char)
    ensures
        final(s)@ == old(s)@.push(ch),
;

/// The characters of `s`, in order.
pub fn chars_of(s: &str) -> (v: Vec<char>)
    ensures
        v@ == s@,
{
    let mut v: Vec<char> = Vec::new();
    for c in it: s.chars()
        invariant
            v@ == it.seq().take(it.index()),
            it.seq() == s@,
    {
        v.push(c);
    }
    v
}

/// The text made of the characters of `v`, in order.
pub fn string_of(v: &Vec<char>) -> (s: String)
    ensures
        s@ == v@,
{
    let mut s = String::new();
    let mut i: usize = 0;
    while i < v.len()
        invariant
            i <= v.len(),
            s@ == v@.take(i as int),
        decreases v.len() - i,
    {
        s.push(v[i]);
        i += 1;
    }
    s
}


/// `s` without its leading whitespace.
pub open spec fn trim_start(s: Seq<char>) -> Seq<char>
    decreases s.len(),
{
    if s.len() > 0 && is_whitespace_char(s[0]) {
        trim_start(s.drop_first())
    } else {
        s
    }
}

/// `s` without its trailing whitespace.
pub open spec fn trim_end(s: Seq<char>) -> Seq<char>
    decreases s.len(),
{
    if s.len() > 0 && is_whitespace_char(s.last()) {
        trim_end(s.drop_last())
    } else {
        s
    }
}

/// `s` without leading and trailing whitespace.
pub open spec fn trimmed(s: Seq<char>) -> Seq<char> {
    trim_end(trim_start(s))
}

/// `needle` occurs in `hay` starting at index `i`.
pub open spec fn occurs_at(hay: Seq<char>, needle: Seq<char>, i: int) -> bool {
    0 <= i && i + needle.len() <= hay.len() && hay.subrange(i, i + needle.len()) == needle
}

/// `needle` occurs somewhere in `hay`.
pub open spec fn contains_text(hay: Seq<char>, needle: Seq<char>) -> bool {
    exists|i: int| occurs_at(hay, needle, i)
}

/// The decimal digit `d` as a character.
pub open spec fn digit_char(d: nat) -> char
    recommends
        d < 10,
{
    (48 + d) as u8 as char
}

/// The shortest decimal numeral of `n`.
pub open spec fn decimal(n: nat) -> Seq<char>
    decreases n,
{
    if n < 10 {
        seq![digit_char(n)]
    } else {
        decimal(n / 10).push(digit_char(n % 10))
    }
}

/// The decimal numeral of `n` in exactly `width` digits, zero-padded, the
/// high digits dropped where `n` has more.
pub open spec fn decimal_padded(n: nat, width: nat) -> Seq<char>
    decreases width,
{
    if width == 0 {
        Seq::empty()
    } else {
        decimal_padded(n / 10, (width - 1) as nat).push(digit_char(n % 10))
    }
}

/// Removes leading and trailing whitespace.
pub fn trim(s: &str) -> (t: String)
    ensures
        t@ == trimmed(s@),
{
    let v = chars_of(s);
    let n = v.len();
    let mut start: usize = 0;
    assert(v@.subrange(0, n as int) =~= v@);
    while start < n && v[start].is_whitespace()
        invariant
            start <= n,
            n == v.len(),
            trim_start(v@) == trim_start(v@.subrange(start as int, n as int)),
        decreases n - start,
    {
        proof {
            let cur = v@.subrange(start as int, n as int);
            assert(cur.drop_first() == v@.subrange(start as int + 1, n as int));
        }
        start += 1;
    }
    proof {
        let cur = v@.subrange(start as int, n as int);
        assert(trim_start(cur) == cur);
    }
    let mut end: usize = n;
    while end > start && v[end - 1].is_whitespace()
        invariant
            start <= end <= n,
            n == v.len(),
            trimmed(v@) == trim_end(v@.subrange(start as int, end as int)),
        decreases end,
    {
        proof {
            let cur = v@.subrange(start as int, end as int);
            assert(cur.drop_last() == v@.subrange(start as int, end as int - 1));
        }
        end -= 1;
    }
    proof {
        let cur = v@.subrange(start as int, end as int);
        assert(trim_end(cur) == cur);
    }
    let mut t = String::new();
    let mut i: usize = start;
    while i < end
        invariant
            start <= i <= end <= v.len(),
            t@ == v@.subrange(start as int, i as int),
        decreases end - i,
    {
        t.push(v[i]);
        i += 1;
    }
    t
}

/// Whether `needle` occurs in `hay` at index `at`.
pub fn matches_at(hay: &Vec<char>, needle: &Vec<char>, at: usize) -> (b: bool)
    ensures
        b == occurs_at(hay@, needle@, at as int),
{
    if needle.len() > hay.len() || at > hay.len() - needle.len() {
        return false;
    }
    let mut j: usize = 0;
    while j < needle.len()
        invariant
            j <= needle.len(),
            at + needle.len() <= hay.len(),
            forall|k: int| 0 <= k < j ==> hay@[at + k] == needle@[k],
        decreases needle.len() - j,
    {
        if hay[at + j] != needle[j] {
            proof {
                let sub = hay@.subrange(at as int, at + needle@.len());
                assert(sub[j as int] == hay@[at + j]);
            }
            return false;
        }
        j += 1;
    }
    assert(hay@.subrange(at as int, at + needle@.len()) =~= needle@);
    true
}

/// Whether `needle` occurs anywhere in `hay`.
pub fn contains(hay: &Vec<char>, needle: &Vec<char>) -> (b: bool)
    ensures
        b == contains_text(hay@, needle@),
{
    if needle.len() > hay.len() {
        return false;
    }
    let last: usize = hay.len() - needle.len();
    let mut i: usize = 0;
    loop
        invariant
            i <= last,
            last == hay.len() - needle.len(),
            forall|k: int| 0 <= k < i ==> !occurs_at(hay@, needle@, k),
        decreases last - i,
    {
        if matches_at(hay, needle, i) {
            return true;
        }
        if i == last {
            return false;
        }
        i += 1;
    }
}

/// Whether `hay` begins with `needle`.
pub fn starts_with(hay: &Vec<char>, needle: &Vec<char>) -> (b: bool)
    ensures
        b == needle@.is_prefix_of(hay@),
{
    let b = matches_at(hay, needle, 0);
    b
}

/// Appends the characters of `tail` to `s`.
pub fn push_chars(s: &mut String, tail: &Vec<char>)
    ensures
        final(s)@ == old(s)@ + tail@,
{
    let mut i: usize = 0;
    while i < tail.len()
        invariant
            i <= tail.len(),
            s@ == old(s)@ + tail@.take(i as int),
        decreases tail.len() - i,
    {
        s.push(tail[i]);
        proof {
            assert(tail@.take(i as int + 1) =~= tail@.take(i as int).push(tail@[i as int]));
        }
        i += 1;
    }
    proof {
        assert(tail@.take(tail@.len() as int) =~= tail@);
    }
}

/// The character of the decimal digit `d`.
pub fn digit_to_char(d: u8) -> (c: char)
    requires
        d < 10,
    ensures
        c == digit_char(d as nat),
{
    (48u8 + d) as char
}

/// Appends the shortest decimal numeral of `n`.
pub fn push_decimal(s: &mut String, n: u64)
    ensures
        final(s)@ == old(s)@ + decimal(n as nat),
{
    let mut digits: Vec<char> = Vec::new();
    let mut rest: u64 = n;
    digits.push(digit_to_char((rest % 10) as u8));
    rest = rest / 10;
    // `digits` holds, lowest first, the digits of `n` below those of `rest`.
    while rest > 0
        invariant
            digits@.len() > 0,
            rest == 0 ==> decimal(n as nat) == digits@.reverse(),
            rest > 0 ==> decimal(n as nat) == decimal(rest as nat) + digits@.reverse(),
        decreases rest,
    {
        let ghost before = digits@;
        let ghost old_rest = rest;
        digits.push(digit_to_char((rest % 10) as u8));
        rest = rest / 10;
        proof {
            let d = digit_char((old_rest % 10) as nat);
            assert(digits@.reverse() =~= seq![d] + before.reverse());
            if old_rest < 10 {
                assert(decimal(old_rest as nat) == seq![d]);
            } else {
                assert(decimal(old_rest as nat) == decimal(rest as nat).push(d));
                assert(decimal(rest as nat).push(d) + before.reverse() =~= decimal(rest as nat) + (
                seq![d] + before.reverse()));
            }
        }
    }
    let mut i: usize = digits.len();
    while i > 0
        invariant
            i <= digits.len(),
            s@ == old(s)@ + digits@.reverse().take(digits.len() - i),
        decreases i,
    {
        i -= 1;
        s.push(digits[i]);
        proof {
            let r = digits@.reverse();
            let k = digits.len() - i;
            assert(r[k - 1] == digits@[i as int]);
            assert(r.take(k as int) =~= r.take(k - 1).push(r[k - 1]));
        }
    }
    proof {
        assert(digits@.reverse().take(digits.len() as int) =~= digits@.reverse());
    }
}

/// Appends `n` in exactly `width` decimal digits, zero-padded.
pub fn push_decimal_padded(s: &mut String, n: u64, width: usize)
    ensures
        final(s)@ == old(s)@ + decimal_padded(n as nat, width as nat),
{
    let mut digits: Vec<char> = Vec::new();
    let mut rest: u64 = n;
    let mut k: usize = 0;
    while k < width
        invariant
            k <= width,
            digits@.len() == k,
            decimal_padded(n as nat, width as nat) == decimal_padded(
                rest as nat,
                (width - k) as nat,
            ) + digits@.reverse(),
        decreases width - k,
    {
        let ghost before = digits@;
        let ghost old_rest = rest;
        digits.push(digit_to_char((rest % 10) as u8));
        rest = rest / 10;
        proof {
            let d = digit_char((old_rest % 10) as nat);
            let w = (width - k) as nat;
            assert(digits@.reverse() =~= seq![d] + before.reverse());
            assert(decimal_padded(old_rest as nat, w) == decimal_padded(
                rest as nat,
                (w - 1) as nat,
            ).push(d));
            assert(decimal_padded(rest as nat, (w - 1) as nat).push(d) + before.reverse()
                =~= decimal_padded(rest as nat, (w - 1) as nat) + (seq![d] + before.reverse()));
        }
        k += 1;
    }
    proof {
        assert(decimal_padded(rest as nat, 0) =~= Seq::<char>::empty());
        assert(Seq::<char>::empty() + digits@.reverse() =~= digits@.reverse());
    }
    let mut i: usize = digits.len();
    while i > 0
        invariant
            i <= digits.len(),
            s@ == old(s)@ + digits@.reverse().take(digits.len() - i),
        decreases i,
    {
        i -= 1;
        s.push(digits[i]);
        proof {
            let r = digits@.reverse();
            let k = digits.len() - i;
            assert(r[k - 1] == digits@[i as int]);
            assert(r.take(k as int) =~= r.take(k - 1).push(r[k - 1]));
        }
    }
    proof {
        assert(digits@.reverse().take(digits.len() as int) =~= digits@.reverse());
    }
}


/// Appends the text `t` to `s`.
pub fn push_text(s: &mut String, t: &str)
    ensures
        final(s)@ == old(s)@ + t@,
{
    let v = chars_of(t);
    push_chars(s, &v);
}

/// Whether two texts hold the same characters.
pub fn same_text(a: &Vec<char>, b: &Vec<char>) -> (eq: bool)
    ensures
        eq == (a@ == b@),
{
    if a.len() != b.len() {
        return false;
    }
    let eq = matches_at(a, b, 0);
    proof {
        assert(a@.subrange(0int, 0int + b@.len()) =~= a@);
    }
    eq
}


/// Whether two texts are the same.
pub fn str_eq(a: &str, b: &str) -> (eq: bool)
    ensures
        eq == (a@ == b@),
{
    let x = a.to_owned();
    let y = b.to_owned();
    x == y
}


/// `hay` with every occurrence of `from` replaced by `to`, found from the
/// left and not overlapping. An empty `from` replaces nothing.
pub open spec fn replaced_all(hay: Seq<char>, from: Seq<char>, to: Seq<char>) -> Seq<char>
    decreases hay.len(),
{
    if from.len() == 0 || hay.len() < from.len() {
        hay
    } else if hay.subrange(0, from.len() as int) == from {
        to + replaced_all(hay.subrange(from.len() as int, hay.len() as int), from, to)
    } else {
        seq![hay[0]] + replaced_all(hay.drop_first(), from, to)
    }
}

/// Replaces every occurrence of `from` in `hay` by `to`.
pub fn replace_all(hay: &Vec<char>, from: &Vec<char>, to: &Vec<char>) -> (out: Vec<char>)
    ensures
        out@ == replaced_all(hay@, from@, to@),
{
    let mut out: Vec<char> = Vec::new();
    let n = hay.len();
    let m = from.len();
    let mut i: usize = 0;
    proof {
        assert(hay@.skip(0) =~= hay@);
        assert(out@ + replaced_all(hay@, from@, to@) =~= replaced_all(hay@, from@, to@));
    }
    if m == 0 {
        let mut k: usize = 0;
        while k < n
            invariant
                k <= n,
                n == hay.len(),
                out@ == hay@.take(k as int),
            decreases n - k,
        {
            out.push(hay[k]);
            proof {
                assert(out@ =~= hay@.take(k as int + 1));
            }
            k += 1;
        }
        proof {
            assert(hay@.take(n as int) =~= hay@);
        }
        return out;
    }
    while i < n
        invariant
            i <= n,
            n == hay.len(),
            m == from.len(),
            m > 0,
            out@ + replaced_all(hay@.skip(i as int), from@, to@) == replaced_all(
                hay@,
                from@,
                to@,
            ),
        decreases n - i,
    {
        let ghost rest = hay@.skip(i as int);
        let ghost before = out@;
        if matches_at(hay, from, i) {
            let mut k: usize = 0;
            while k < to.len()
                invariant
                    k <= to.len(),
                    out@ == before + to@.take(k as int),
                decreases to.len() - k,
            {
                out.push(to[k]);
                proof {
                    assert(before + to@.take(k as int + 1) =~= (before + to@.take(k as int)).push(
                        to@[k as int],
                    ));
                }
                k += 1;
            }
            proof {
                assert(to@.take(to@.len() as int) =~= to@);
                assert(rest.subrange(0, m as int) =~= hay@.subrange(i as int, i + m));
                assert(rest.subrange(m as int, rest.len() as int) =~= hay@.skip(i + m));
                assert((before + to@) + replaced_all(hay@.skip(i + m), from@, to@) =~= before + (
                to@ + replaced_all(hay@.skip(i + m), from@, to@)));
            }
            i += m;
        } else {
            out.push(hay[i]);
            proof {
                if rest.len() >= m {
                    assert(rest.subrange(0, m as int) =~= hay@.subrange(i as int, i + m));
                }
                assert(rest.drop_first() =~= hay@.skip(i + 1));
                assert(rest[0] == hay@[i as int]);
                if rest.len() < m {
                    // no further occurrence fits: the rest is copied as it is
                    lemma_short_rest_unchanged(hay@.skip(i + 1), from@, to@);
                    assert(rest =~= seq![rest[0]] + hay@.skip(i + 1));
                }
                assert(before.push(hay@[i as int]) + replaced_all(hay@.skip(i + 1), from@, to@)
                    =~= before + (seq![hay@[i as int]] + replaced_all(
                    hay@.skip(i + 1),
                    from@,
                    to@,
                )));
            }
            i += 1;
        }
    }
    proof {
        assert(hay@.skip(n as int) =~= Seq::<char>::empty());
        assert(out@ + Seq::<char>::empty() =~= out@);
    }
    out
}

/// A text shorter than the pattern is left as it is.
proof fn lemma_short_rest_unchanged(rest: Seq<char>, from: Seq<char>, to: Seq<char>)
    requires
        rest.len() < from.len(),
    ensures
        replaced_all(rest, from, to) == rest,
{
}


/// The value of the decimal digit `c`, if it is one.
pub open spec fn digit_value(c: char) -> Option<nat> {
    let n = c as u32;
    if 48 <= n <= 57 {
        Some((n - 48) as nat)
    } else {
        None
    }
}

/// Every character of `s` is a decimal digit.
pub open spec fn is_digits(s: Seq<char>) -> bool {
    forall|i: int| 0 <= i < s.len() ==> (#[trigger] digit_value(s[i])) is Some
}

/// The number that the decimal numeral `s` denotes, most significant digit first.
pub open spec fn numeral_value(s: Seq<char>) -> nat
    decreases s.len(),
{
    if s.len() == 0 {
        0
    } else {
        numeral_value(s.drop_last()) * 10 + digit_value(s.last()).unwrap()
    }
}

/// The number that the text denotes, if the text is a decimal numeral of a
/// number that fits in 64 bits: one or more digits, nothing else.
pub open spec fn parsed_u64(s: Seq<char>) -> Option<u64> {
    if s.len() > 0 && is_digits(s) && numeral_value(s) <= u64::MAX {
        Some(numeral_value(s) as u64)
    } else {
        None
    }
}

/// A numeral's value does not shrink when digits are appended.
proof fn lemma_numeral_prefix_le(s: Seq<char>, k: int)
    requires
        is_digits(s),
        0 <= k <= s.len(),
    ensures
        numeral_value(s.take(k)) <= numeral_value(s),
    decreases s.len() - k,
{
    if k < s.len() {
        lemma_numeral_prefix_le(s, k + 1);
        assert(s.take(k + 1).drop_last() =~= s.take(k));
        assert(digit_value(s[k]) is Some);
    } else {
        assert(s.take(k) =~= s);
    }
}

/// Reads a decimal numeral of a number that fits in 64 bits.
pub fn parse_u64(s: &str) -> (n: Option<u64>)
    ensures
        n == parsed_u64(s@),
{
    let v = chars_of(s);
    parse_digits(&v)
}

/// Reads a decimal numeral of a number that fits in 64 bits from a list of characters.
pub fn parse_digits(v: &Vec<char>) -> (n: Option<u64>)
    ensures
        n == parsed_u64(v@),
{
    if v.len() == 0 {
        return None;
    }
    let mut value: u64 = 0;
    let mut i: usize = 0;
    while i < v.len()
        invariant
            i <= v.len(),
            is_digits(v@.take(i as int)),
            value == numeral_value(v@.take(i as int)),
        decreases v.len() - i,
    {
        let c: u32 = v[i] as u32;
        proof {
            assert(v@.take(i as int + 1).drop_last() =~= v@.take(i as int));
        }
        if c < 48 || c > 57 {
            proof {
                assert(digit_value(v@[i as int]) is None);
            }
            return None;
        }
        let d: u64 = (c - 48) as u64;
        proof {
            let next = v@.take(i as int + 1);
            assert forall|k: int| 0 <= k < next.len() implies (#[trigger] digit_value(
                next[k],
            )) is Some by {
                if k < i {
                    assert(next[k] == v@.take(i as int)[k]);
                }
            }
        }
        if value > (u64::MAX - d) / 10 {
            proof {
                // the prefix already exceeds the range, and so does the whole
                assert(value * 10 + d > u64::MAX);
                if is_digits(v@) {
                    lemma_numeral_prefix_le(v@, i as int + 1);
                }
            }
            return None;
        }
        value = value * 10 + d;
        i += 1;
    }
    proof {
        assert(v@.take(v@.len() as int) =~= v@);
    }
    Some(value)
}


/// Removes leading and trailing whitespace from a list of characters.
pub fn trim_chars(v: &Vec<char>) -> (t: Vec<char>)
    ensures
        t@ == trimmed(v@),
{
    let n = v.len();
    let mut start: usize = 0;
    assert(v@.subrange(0, n as int) =~= v@);
    while start < n && v[start].is_whitespace()
        invariant
            start <= n,
            n == v.len(),
            trim_start(v@) == trim_start(v@.subrange(start as int, n as int)),
        decreases n - start,
    {
        proof {
            let cur = v@.subrange(start as int, n as int);
            assert(cur.drop_first() == v@.subrange(start as int + 1, n as int));
        }
        start += 1;
    }
    proof {
        let cur = v@.subrange(start as int, n as int);
        assert(trim_start(cur) == cur);
    }
    let mut end: usize = n;
    while end > start && v[end - 1].is_whitespace()
        invariant
            start <= end <= n,
            n == v.len(),
            trimmed(v@) == trim_end(v@.subrange(start as int, end as int)),
        decreases end,
    {
        proof {
            let cur = v@.subrange(start as int, end as int);
            assert(cur.drop_last() == v@.subrange(start as int, end as int - 1));
        }
        end -= 1;
    }
    proof {
        let cur = v@.subrange(start as int, end as int);
        assert(trim_end(cur) == cur);
    }
    slice_of(v, start, end)
}

/// The characters of `v` from `from` up to `to`.
pub fn slice_of(v: &Vec<char>, from: usize, to: usize) -> (part: Vec<char>)
    requires
        from <= to <= v.len(),
    ensures
        part@ == v@.subrange(from as int, to as int),
{
    let mut part: Vec<char> = Vec::new();
    let mut i: usize = from;
    while i < to
        invariant
            from <= i <= to <= v.len(),
            part@ == v@.subrange(from as int, i as int),
        decreases to - i,
    {
        part.push(v[i]);
        proof {
            assert(part@ =~= v@.subrange(from as int, i as int + 1));
        }
        i += 1;
    }
    part
}

/// The first place at which `needle` occurs in `hay`, if it occurs.
#[verifier::opaque]
pub open spec fn first_occurrence(hay: Seq<char>, needle: Seq<char>) -> Option<int> {
    if contains_text(hay, needle) {
        Some(choose|i: int| occurs_at(hay, needle, i) && forall|k: int| 0 <= k < i ==> !occurs_at(hay, needle, k))
    } else {
        None
    }
}

/// An occurrence before which there is none is the first.
pub proof fn lemma_first_occurrence(hay: Seq<char>, needle: Seq<char>, at: int)
    requires
        occurs_at(hay, needle, at),
        forall|k: int| 0 <= k < at ==> !occurs_at(hay, needle, k),
    ensures
        first_occurrence(hay, needle) == Some(at),
{
    reveal(first_occurrence);
    let found = choose|i: int|
        occurs_at(hay, needle, i) && forall|k: int| 0 <= k < i ==> !occurs_at(hay, needle, k);
    if found < at {
        assert(!occurs_at(hay, needle, found));
    } else if at < found {
        assert(!occurs_at(hay, needle, at));
    }
}

/// Finds the first place at which `needle` occurs in `hay`.
pub fn find(hay: &Vec<char>, needle: &Vec<char>) -> (at: Option<usize>)
    ensures
        match at {
            Some(i) => first_occurrence(hay@, needle@) == Some(i as int) && i + needle@.len()
                <= hay@.len(),
            None => first_occurrence(hay@, needle@) is None,
        },
{
    if needle.len() > hay.len() {
        proof {
            reveal(first_occurrence);
        }
        return None;
    }
    let last: usize = hay.len() - needle.len();
    let mut i: usize = 0;
    loop
        invariant
            i <= last,
            last == hay.len() - needle.len(),
            forall|k: int| 0 <= k < i ==> !occurs_at(hay@, needle@, k),
        decreases last - i,
    {
        if matches_at(hay, needle, i) {
            proof {
                lemma_first_occurrence(hay@, needle@, i as int);
            }
            return Some(i);
        }
        if i == last {
            proof {
                reveal(first_occurrence);
            }
            return None;
        }
        i += 1;
    }
}

/// The text of an optional string.
pub open spec fn opt_text(s: Option<String>) -> Option<Seq<char>> {
    match s {
        Some(t) => Some(t@),
        None => None,
    }
}

} // verus!
