use crate::text::chars_of;
use vstd::prelude::*;

verus! {

/// Number of hexadecimal digits in the text form of an [`ObjectId`].
pub const OBJECT_ID_HEX_LEN: usize = 24;

/// One more than the largest value of an [`ObjectId`]: 16 to the power 24.
pub const OBJECT_ID_LIMIT: u128 = 0x1_0000_0000_0000_0000_0000_0000u128;

/// The value of the hexadecimal digit `c`, in either case.
pub open spec fn hex_digit_value(c: char) -> Option<nat> {
    let n = c as u32;
    if 48 <= n <= 57 {
        Some((n - 48) as nat)
    } else if 97 <= n <= 102 {
        Some((n - 87) as nat)
    } else if 65 <= n <= 70 {
        Some((n - 55) as nat)
    } else {
        None
    }
}

/// Every character of `s` is a hexadecimal digit.
pub open spec fn is_hex_text(s: Seq<char>) -> bool {
    forall|i: int| 0 <= i < s.len() ==> (#[trigger] hex_digit_value(s[i])) is Some
}

/// The number that the hexadecimal numeral `s` denotes, most significant digit first.
pub open spec fn hex_value(s: Seq<char>) -> nat
    decreases s.len(),
{
    if s.len() == 0 {
        0
    } else {
        hex_value(s.drop_last()) * 16 + hex_digit_value(s.last()).unwrap()
    }
}

/// The lower-case hexadecimal digit of value `d`.
pub open spec fn lower_hex_digit(d: nat) -> char
    recommends
        d < 16,
{
    if d < 10 {
        (48 + d) as u8 as char
    } else {
        (87 + d) as u8 as char
    }
}

/// The numeral of `n` in exactly `width` lower-case hexadecimal digits.
pub open spec fn hex_text(n: nat, width: nat) -> Seq<char>
    decreases width,
{
    if width == 0 {
        Seq::empty()
    } else {
        hex_text(n / 16, (width - 1) as nat).push(lower_hex_digit(n % 16))
    }
}

/// 16 to the power `e`.
pub open spec fn pow16(e: nat) -> nat
    decreases e,
{
    if e == 0 {
        1
    } else {
        16 * pow16((e - 1) as nat)
    }
}

/// A twelve-byte identifier of a stored document (a room, a user, a file),
/// held as the number its twenty-four hexadecimal digits denote.
#[derive(Clone, Copy, Debug, PartialEq, Eq, Structural, Hash)]
pub struct ObjectId {
    value: u128,
}

impl View for ObjectId {
    type V = nat;

    closed spec fn view(&self) -> nat {
        self.value as nat
    }
}

impl ObjectId {
    #[verifier::type_invariant]
    spec fn in_range(self) -> bool {
        self.value < OBJECT_ID_LIMIT
    }

    /// The identifier with the given value, if it fits in twelve bytes.
    pub fn from_value(value: u128) -> (id: Option<ObjectId>)
        ensures
            id is Some <==> value < OBJECT_ID_LIMIT,
            id is Some ==> id.unwrap()@ == value,
    {
        if value < OBJECT_ID_LIMIT {
            Some(ObjectId { value })
        } else {
            None
        }
    }

    /// The number that the identifier's digits denote.
    pub fn value(&self) -> (v: u128)
        ensures
            v == self@,
            v < OBJECT_ID_LIMIT,
    {
        proof {
            use_type_invariant(self);
        }
        self.value
    }

    /// Whether two identifiers are the same.
    pub fn same(&self, other: &ObjectId) -> (b: bool)
        ensures
            b == (self@ == other@),
            b == (*self == *other),
    {
        self.value == other.value
    }

    /// Reads an identifier from its text form: exactly twenty-four
    /// hexadecimal digits, upper or lower case. Anything else is refused.
    pub fn parse_str(s: &str) -> (id: Option<ObjectId>)
        ensures
            id is Some <==> s@.len() == OBJECT_ID_HEX_LEN && is_hex_text(s@),
            id is Some ==> id.unwrap()@ == hex_value(s@),
    {
        let v = chars_of(s);
        if v.len() != OBJECT_ID_HEX_LEN {
            return None;
        }
        let mut value: u128 = 0;
        let mut i: usize = 0;
        while i < OBJECT_ID_HEX_LEN
            invariant
                i <= OBJECT_ID_HEX_LEN,
                v@ == s@,
                v@.len() == OBJECT_ID_HEX_LEN,
                is_hex_text(v@.take(i as int)),
                value == hex_value(v@.take(i as int)),
                value < pow16(i as nat),
            decreases OBJECT_ID_HEX_LEN - i,
        {
            let digit = match hex_digit(v[i]) {
                Some(d) => d,
                None => {
                    return None;
                },
            };
            proof {
                lemma_pow16_24();
                lemma_pow16_monotonic((i + 1) as nat, 24);
                let next = v@.take(i as int + 1);
                assert(next.drop_last() =~= v@.take(i as int));
                assert forall|k: int| 0 <= k < next.len() implies (#[trigger] hex_digit_value(
                    next[k],
                )) is Some by {
                    if k < i {
                        assert(next[k] == v@.take(i as int)[k]);
                    }
                }
            }
            value = value * 16 + digit as u128;
            i += 1;
        }
        proof {
            lemma_pow16_24();
            assert(v@.take(24) =~= v@);
        }
        Some(ObjectId { value })
    }

    /// The first eight digits of the text form.
    pub fn short_hex(&self) -> (s: String)
        ensures
            s@ == hex_text(self@, OBJECT_ID_HEX_LEN as nat).take(8),
    {
        let hex = self.to_hex();
        let chars = chars_of(hex.as_str());
        let mut head: Vec<char> = Vec::new();
        let mut i: usize = 0;
        proof {
            lemma_hex_text_len(self@, 24);
        }
        while i < 8
            invariant
                i <= 8,
                chars@.len() == 24,
                head@ == chars@.take(i as int),
            decreases 8 - i,
        {
            head.push(chars[i]);
            proof {
                assert(head@ =~= chars@.take(i as int + 1));
            }
            i += 1;
        }
        crate::text::string_of(&head)
    }

    /// The text form: twenty-four lower-case hexadecimal digits.
    pub fn to_hex(&self) -> (s: String)
        ensures
            s@ == hex_text(self@, OBJECT_ID_HEX_LEN as nat),
    {
        let mut digits: Vec<char> = Vec::new();
        let mut rest: u128 = self.value;
        let mut k: usize = 0;
        while k < OBJECT_ID_HEX_LEN
            invariant
                k <= OBJECT_ID_HEX_LEN,
                digits@.len() == k,
                hex_text(self@, OBJECT_ID_HEX_LEN as nat) == hex_text(
                    rest as nat,
                    (OBJECT_ID_HEX_LEN - k) as nat,
                ) + digits@.reverse(),
            decreases OBJECT_ID_HEX_LEN - k,
        {
            let ghost before = digits@;
            let ghost old_rest = rest;
            digits.push(lower_hex((rest % 16) as u8));
            rest = rest / 16;
            proof {
                let d = lower_hex_digit((old_rest % 16) as nat);
                let w = (OBJECT_ID_HEX_LEN - k) as nat;
                assert(digits@.reverse() =~= seq![d] + before.reverse());
                assert(hex_text(old_rest as nat, w) == hex_text(rest as nat, (w - 1) as nat).push(
                    d,
                ));
                assert(hex_text(rest as nat, (w - 1) as nat).push(d) + before.reverse()
                    =~= hex_text(rest as nat, (w - 1) as nat) + (seq![d] + before.reverse()));
            }
            k += 1;
        }
        proof {
            assert(hex_text(rest as nat, 0) =~= Seq::<char>::empty());
            assert(Seq::<char>::empty() + digits@.reverse() =~= digits@.reverse());
        }
        let mut s = String::new();
        let mut i: usize = digits.len();
        while i > 0
            invariant
                i <= digits.len(),
                s@ == digits@.reverse().take(digits.len() - i),
            decreases i,
        {
            i -= 1;
            s.push(digits[i]);
            proof {
                let r = digits@.reverse();
                let k = digits.len() - i;
                assert(r[k - 1] == digits@[i as int]);
                assert(r.take(k as int) =~= r.take(k - 1).push(r[k - 1]));
            }
        }
        proof {
            assert(digits@.reverse().take(digits.len() as int) =~= digits@.reverse());
        }
        s
    }
}

/// The value of a hexadecimal digit, `None` for any other character.
pub fn hex_digit(c: char) -> (d: Option<u8>)
    ensures
        d is Some <==> hex_digit_value(c) is Some,
        d is Some ==> d.unwrap() == hex_digit_value(c).unwrap() && d.unwrap() < 16,
{
    let n: u32 = c as u32;
    if 48 <= n && n <= 57 {
        Some((n - 48) as u8)
    } else if 97 <= n && n <= 102 {
        Some((n - 87) as u8)
    } else if 65 <= n && n <= 70 {
        Some((n - 55) as u8)
    } else {
        None
    }
}

/// The lower-case hexadecimal digit of value `d`.
pub fn lower_hex(d: u8) -> (c: char)
    requires
        d < 16,
    ensures
        c == lower_hex_digit(d as nat),
{
    if d < 10 {
        (48u8 + d) as char
    } else {
        (87u8 + d) as char
    }
}

proof fn lemma_pow16_24()
    ensures
        pow16(24) == OBJECT_ID_LIMIT,
{
    reveal_with_fuel(pow16, 25);
}

proof fn lemma_pow16_monotonic(a: nat, b: nat)
    requires
        a <= b,
    ensures
        pow16(a) <= pow16(b),
    decreases b,
{
    if a < b {
        lemma_pow16_monotonic(a, (b - 1) as nat);
    }
}


/// A numeral of a given width has that many digits.
pub proof fn lemma_hex_text_len(n: nat, width: nat)
    ensures
        hex_text(n, width).len() == width,
    decreases width,
{
    if width > 0 {
        lemma_hex_text_len(n / 16, (width - 1) as nat);
    }
}

/// A lower-case hexadecimal digit reads as its value.
proof fn lemma_digit_reads_back(d: nat)
    requires
        d < 16,
    ensures
        hex_digit_value(lower_hex_digit(d)) == Some(d),
{
    let c = lower_hex_digit(d);
    if d < 10 {
        assert(c as u32 == 48 + d);
    } else {
        assert(c as u32 == 87 + d);
    }
}

/// The text form of an identifier reads back as the identifier: writing
/// a number below sixteen to the power `width` in `width` hexadecimal
/// digits and reading the digits gives the number.
pub proof fn lemma_hex_round_trip(n: nat, width: nat)
    requires
        n < pow16(width),
    ensures
        hex_text(n, width).len() == width,
        is_hex_text(hex_text(n, width)),
        hex_value(hex_text(n, width)) == n,
    decreases width,
{
    if width > 0 {
        let prefix = hex_text(n / 16, (width - 1) as nat);
        let digit = lower_hex_digit(n % 16);
        let text = hex_text(n, width);
        assert(n / 16 < pow16((width - 1) as nat));
        lemma_hex_round_trip(n / 16, (width - 1) as nat);
        lemma_digit_reads_back(n % 16);
        assert(text == prefix.push(digit));
        assert(text.drop_last() =~= prefix);
        assert(text.last() == digit);
        assert forall|k: int| 0 <= k < text.len() implies (#[trigger] hex_digit_value(
            text[k],
        )) is Some by {
            if k < prefix.len() {
                assert(text[k] == prefix[k]);
            }
        }
    }
}

} // verus!
