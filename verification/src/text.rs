use vstd::prelude::*;

verus! {

/// The decimal digit character for `d` (which is below ten).
pub open spec fn digit_char(d: nat) -> char {
    ((d + 48) as u32) as char
}

/// Decimal representation of `n`, most significant digit first, without
/// leading zeros (zero itself is written "0").
pub open spec fn decimal(n: nat) -> Seq<char>
    decreases n,
{
    if n < 10 {
        seq![digit_char(n)]
    } else {
        decimal(n / 10).push(digit_char(n % 10))
    }
}

/// Decimal representation padded with a leading zero to at least two digits
/// (the `{:02}` format).
pub open spec fn decimal2(n: nat) -> Seq<char> {
    if n < 10 {
        seq!['0', digit_char(n)]
    } else {
        decimal(n)
    }
}

/// The number that a string of decimal digits stands for, most
/// significant digit first.
pub open spec fn digits_value(s: Seq<char>) -> int
    decreases s.len(),
{
    if s.len() == 0 {
        0
    } else {
        digits_value(s.drop_last()) * 10 + ((s.last() as u32) as int - 48)
    }
}

/// Reading the decimal representation of `n` back gives `n`: it is made of
/// the digits '0' to '9' only, and starts with '0' only when it is "0".
pub proof fn lemma_decimal_round_trip(n: nat)
    ensures
        digits_value(decimal(n)) == n,
        decimal(n).len() >= 1,
        forall|i: int| 0 <= i < decimal(n).len() ==> '0' <= #[trigger] decimal(n)[i] <= '9',
        n > 0 ==> decimal(n)[0] != '0',
    decreases n,
{
    lemma_digit_code(n % 10);
    if n < 10 {
        assert(decimal(n).drop_last() =~= Seq::<char>::empty());
        assert(digits_value(decimal(n)) == digits_value(Seq::<char>::empty()) * 10 + ((decimal(n).last() as u32) as int - 48));
    } else {
        lemma_decimal_round_trip(n / 10);
        let d = decimal(n);
        assert(d.drop_last() == decimal(n / 10));
        assert(d.last() == digit_char(n % 10));
        assert(d[0] == decimal(n / 10)[0]);
        assert(digits_value(d) == digits_value(d.drop_last()) * 10 + ((d.last() as u32) as int - 48));
        assert((n / 10) * 10 + n % 10 == n) by (nonlinear_arith);
    }
}

proof fn lemma_digit_code(d: nat)
    requires
        d < 10,
    ensures
        (digit_char(d) as u32) as int == d + 48,
{
    assert(((d + 48) as u32) as char as u32 == (d + 48) as u32);
}

fn digit(d: usize) -> (c: char)
    requires
        d < 10,
    ensures
        c == digit_char(d as nat),
{
    let c: char = if d == 0 {
        '0'
    } else if d == 1 {
        '1'
    } else if d == 2 {
        '2'
    } else if d == 3 {
        '3'
    } else if d == 4 {
        '4'
    } else if d == 5 {
        '5'
    } else if d == 6 {
        '6'
    } else if d == 7 {
        '7'
    } else if d == 8 {
        '8'
    } else {
        '9'
    };
    c
}

/// Appends the decimal representation of `n` to `out`.
pub fn push_decimal(out: &mut Vec<char>, n: usize)
    ensures
        final(out)@ == old(out)@ + decimal(n as nat),
    decreases n,
{
    if n < 10 {
        out.push(digit(n));
    } else {
        push_decimal(out, n / 10);
        out.push(digit(n % 10));
        assert(decimal(n as nat) == decimal((n / 10) as nat).push(digit_char((n % 10) as nat)));
    }
}

/// Appends `n` in the `{:02}` format to `out`.
pub fn push_decimal2(out: &mut Vec<char>, n: usize)
    ensures
        final(out)@ == old(out)@ + decimal2(n as nat),
{
    if n < 10 {
        out.push('0');
        out.push(digit(n));
    } else {
        push_decimal(out, n);
    }
}

/// The bytes of a text written in ASCII: each character's code.
pub open spec fn ascii(s: Seq<char>) -> Seq<u8> {
    s.map_values(|c: char| c as u8)
}

/// Appends the decimal representation of `n`, as ASCII bytes, to `out`.
pub fn push_decimal_bytes(out: &mut Vec<u8>, n: usize)
    ensures
        final(out)@ == old(out)@ + ascii(decimal(n as nat)),
    decreases n,
{
    if n < 10 {
        out.push(digit_byte(n));
        assert(ascii(decimal(n as nat)) =~= seq![digit_byte_spec(n as nat)]);
    } else {
        push_decimal_bytes(out, n / 10);
        out.push(digit_byte(n % 10));
        assert(decimal(n as nat) == decimal((n / 10) as nat).push(digit_char((n % 10) as nat)));
        assert(ascii(decimal(n as nat)) =~= ascii(decimal((n / 10) as nat)).push(digit_byte_spec((n % 10) as nat)));
    }
}

spec fn digit_byte_spec(d: nat) -> u8 {
    digit_char(d) as u8
}

fn digit_byte(d: usize) -> (b: u8)
    requires
        d < 10,
    ensures
        b == digit_byte_spec(d as nat),
        b == 48 + d,
{
    (48 + d) as u8
}

/// Appends every character of `s` to `out`.
pub fn push_chars(out: &mut Vec<char>, s: &Vec<char>)
    ensures
        final(out)@ == old(out)@ + s@,
{
    let mut i: usize = 0;
    while i < s.len()
        invariant
            i <= s.len(),
            out@ == old(out)@ + s@.subrange(0, i as int),
        decreases s.len() - i,
    {
        out.push(s[i]);
        i = i + 1;
        assert(s@.subrange(0, i as int) == s@.subrange(0, (i - 1) as int).push(s@[i - 1]));
    }
    assert(s@.subrange(0, s.len() as int) == s@);
}

/// The characters of `s`, in order.
pub fn chars_of(s: &str) -> (v: Vec<char>)
    ensures
        v@ == s@,
{
    let n = s.unicode_len();
    let mut v: Vec<char> = Vec::new();
    let mut i: usize = 0;
    while i < n
        invariant
            i <= n,
            n == s@.len(),
            v@ == s@.subrange(0, i as int),
        decreases n - i,
    {
        v.push(s.get_char(i));
        i = i + 1;
        assert(v@ =~= s@.subrange(0, i as int));
    }
    assert(s@.subrange(0, n as int) =~= s@);
    v
}

/// Whether two character sequences are equal.
pub fn chars_equal(a: &Vec<char>, b: &Vec<char>) -> (r: bool)
    ensures
        r == (a@ == b@),
{
    if a.len() != b.len() {
        return false;
    }
    let mut i: usize = 0;
    while i < a.len()
        invariant
            i <= a@.len(),
            a@.len() == b@.len(),
            a@.subrange(0, i as int) == b@.subrange(0, i as int),
        decreases a@.len() - i,
    {
        if a[i] != b[i] {
            assert(a@[i as int] != b@[i as int]);
            return false;
        }
        i = i + 1;
        assert(a@.subrange(0, i as int) =~= a@.subrange(0, (i - 1) as int).push(a@[i - 1]));
        assert(b@.subrange(0, i as int) =~= b@.subrange(0, (i - 1) as int).push(b@[i - 1]));
    }
    assert(a@ =~= a@.subrange(0, a@.len() as int));
    assert(b@ =~= b@.subrange(0, b@.len() as int));
    true
}

/// Whether `needle` occurs in `hay` as a contiguous run.
pub open spec fn occurs_in(hay: Seq<char>, needle: Seq<char>) -> bool {
    exists|i: int| 0 <= i <= hay.len() - needle.len() && #[trigger] hay.subrange(i, i + needle.len()) == needle
}

fn occurs_at(hay: &Vec<char>, needle: &Vec<char>, i: usize) -> (r: bool)
    requires
        i + needle@.len() <= hay@.len(),
    ensures
        r == (hay@.subrange(i as int, i + needle@.len()) == needle@),
{
    let hl = hay.len();
    let mut k: usize = 0;
    while k < needle.len()
        invariant
            k <= needle@.len(),
            i + needle@.len() <= hay@.len(),
            hl == hay@.len(),
            hay@.subrange(i as int, i + k) == needle@.subrange(0, k as int),
        decreases needle@.len() - k,
    {
        if hay[i + k] != needle[k] {
            assert(hay@.subrange(i as int, i + needle@.len())[k as int] != needle@[k as int]);
            return false;
        }
        k = k + 1;
        assert(hay@.subrange(i as int, i + k) =~= hay@.subrange(i as int, i + k - 1).push(hay@[i + k - 1]));
        assert(needle@.subrange(0, k as int) =~= needle@.subrange(0, k - 1).push(needle@[k - 1]));
    }
    assert(needle@.subrange(0, needle@.len() as int) =~= needle@);
    true
}

/// Whether `needle` occurs in `hay` (an empty needle occurs everywhere).
pub fn contains_text(hay: &Vec<char>, needle: &Vec<char>) -> (r: bool)
    ensures
        r == occurs_in(hay@, needle@),
{
    if needle.len() > hay.len() {
        return false;
    }
    let last = hay.len() - needle.len();
    let mut i: usize = 0;
    loop
        invariant
            i <= last,
            last == hay@.len() - needle@.len(),
            needle@.len() <= hay@.len(),
            forall|j: int| 0 <= j < i ==> #[trigger] hay@.subrange(j, j + needle@.len()) != needle@,
        decreases last - i,
    {
        if occurs_at(hay, needle, i) {
            return true;
        }
        if i == last {
            assert forall|j: int| 0 <= j <= hay@.len() - needle@.len() implies #[trigger] hay@.subrange(
                j,
                j + needle@.len(),
            ) != needle@ by {}
            return false;
        }
        i = i + 1;
    }
}

/// What std's `str::to_lowercase` makes of a text (Unicode lowercase
/// mapping, some characters becoming several).
pub uninterp spec fn lowercase(s: Seq<char>) -> Seq<char>;

/// `str::to_lowercase` (std) on the text of `chars`. The claim: the result
/// is the name above applied to the characters; nothing else is stated of
/// the Unicode mapping.
#[verifier::external_body]
pub(crate) fn to_lowercase_chars(chars: &Vec<char>) -> (r: Vec<char>)
    ensures
        r@ == lowercase(chars@),
{
    String::from_iter(chars.iter()).to_lowercase().chars().collect()
}

/// Collects characters into a `String` (std's `FromIterator<char>` for
/// `String`). The claim: the string holds exactly these characters, in order.
#[verifier::external_body]
pub fn chars_to_string(chars: &Vec<char>) -> (s: String)
    ensures
        s@ == chars@,
{
    String::from_iter(chars.iter())
}

} // verus!
