use vstd::prelude::*;

verus! {

/// Whether two strings hold the same characters.
pub fn str_eq(a: &str, b: &str) -> (r: bool)
    ensures
        r == (a@ == b@),
{
    let x = a.as_bytes();
    let y = b.as_bytes();
    proof {
        vstd::utf8::encode_utf8_decode_utf8(a@);
        vstd::utf8::encode_utf8_decode_utf8(b@);
    }
    if x.len() != y.len() {
        return false;
    }
    let n = x.len();
    let mut i: usize = 0;
    while i < n
        invariant
            n == x@.len(),
            n == y@.len(),
            x@ == vstd::utf8::encode_utf8(a@),
            y@ == vstd::utf8::encode_utf8(b@),
            i <= n,
            forall|k: int| 0 <= k < i ==> x@[k] == y@[k],
        decreases n - i,
    {
        if x[i] != y[i] {
            return false;
        }
        i = i + 1;
    }
    assert(x@ =~= y@);
    true
}

} // verus!

verus! {

/// The character of a decimal digit.
pub open spec fn digit_char(d: int) -> char {
    if d == 0 {
        '0'
    } else if d == 1 {
        '1'
    } else if d == 2 {
        '2'
    } else if d == 3 {
        '3'
    } else if d == 4 {
        '4'
    } else if d == 5 {
        '5'
    } else if d == 6 {
        '6'
    } else if d == 7 {
        '7'
    } else if d == 8 {
        '8'
    } else {
        '9'
    }
}

/// The decimal text of a natural number, without leading zeros.
pub open spec fn nat_text(n: nat) -> Seq<char>
    decreases n,
{
    if n < 10 {
        seq![digit_char(n as int)]
    } else {
        nat_text(n / 10).push(digit_char((n % 10) as int))
    }
}

/// The decimal text of an integer, as Rust's `Display` writes it.
pub open spec fn int_text(n: int) -> Seq<char> {
    if n < 0 {
        seq!['-'] + nat_text((-n) as nat)
    } else {
        nat_text(n as nat)
    }
}

/// An amount of cents written as currency units with two decimals
/// (`150075` is `1500.75`), as `{:.2}` writes the amount.
pub open spec fn money_text(cents: nat) -> Seq<char> {
    nat_text(cents / 100) + seq!['.', digit_char(((cents % 100) / 10) as int), digit_char((cents % 10) as int)]
}

/// The character is a decimal digit.
pub open spec fn is_digit(c: char) -> bool {
    '0' <= c && c <= '9'
}

/// Every digit character is a digit, and different digits give different
/// characters.
pub proof fn lemma_digit_char(a: int, b: int)
    ensures
        is_digit(digit_char(a)),
        0 <= a < 10 && 0 <= b < 10 && digit_char(a) == digit_char(b) ==> a == b,
{
}

/// The decimal text of a number is made of digits only: one for a number
/// below ten, at least two from ten on.
pub proof fn lemma_nat_text_digits(n: nat)
    ensures
        nat_text(n).len() >= 1,
        n >= 10 ==> nat_text(n).len() >= 2,
        forall|i: int| 0 <= i < nat_text(n).len() ==> is_digit(#[trigger] nat_text(n)[i]),
    decreases n,
{
    lemma_digit_char(n as int, 0);
    if n >= 10 {
        lemma_nat_text_digits(n / 10);
        lemma_digit_char((n % 10) as int, 0);
        assert forall|i: int| 0 <= i < nat_text(n).len() implies is_digit(#[trigger] nat_text(n)[i]) by {
            if i < nat_text(n / 10).len() {
                assert(nat_text(n)[i] == nat_text(n / 10)[i]);
            }
        }
    }
}

/// Different numbers have different decimal texts.
pub proof fn lemma_nat_text_injective(a: nat, b: nat)
    requires
        nat_text(a) == nat_text(b),
    ensures
        a == b,
    decreases a,
{
    lemma_nat_text_digits(a);
    lemma_nat_text_digits(b);
    if a < 10 && b < 10 {
        assert(nat_text(a)[0] == digit_char(a as int));
        assert(nat_text(b)[0] == digit_char(b as int));
        lemma_digit_char(a as int, b as int);
    } else if a >= 10 && b >= 10 {
        let ta = nat_text(a);
        assert(ta.last() == digit_char((a % 10) as int));
        assert(ta.last() == digit_char((b % 10) as int));
        lemma_digit_char((a % 10) as int, (b % 10) as int);
        assert(nat_text(a / 10) =~= ta.drop_last());
        assert(nat_text(b / 10) =~= ta.drop_last());
        lemma_nat_text_injective(a / 10, b / 10);
        assert(a / 10 == b / 10);
        assert(a % 10 == b % 10);
        assert(a == 10 * (a / 10) + a % 10) by (nonlinear_arith);
        assert(b == 10 * (b / 10) + b % 10) by (nonlinear_arith);
    } else if a < 10 {
        assert(nat_text(a).len() == 1);
    } else {
        assert(nat_text(b).len() == 1);
    }
}

/// The decimal text of an integer starts with `-` or a digit, holds no
/// other character than `-` and digits, and different integers have
/// different texts.
pub proof fn lemma_int_text(a: int, b: int)
    ensures
        int_text(a).len() >= 1,
        int_text(a)[0] == '-' || is_digit(int_text(a)[0]),
        forall|i: int| 0 <= i < int_text(a).len() ==> #[trigger] int_text(a)[i] == '-' || is_digit(int_text(a)[i]),
        int_text(a) == int_text(b) ==> a == b,
{
    lemma_nat_text_digits(if a < 0 { (-a) as nat } else { a as nat });
    lemma_nat_text_digits(if b < 0 { (-b) as nat } else { b as nat });
    if a < 0 {
        assert forall|i: int| 0 <= i < int_text(a).len() implies #[trigger] int_text(a)[i] == '-' || is_digit(
            int_text(a)[i]) by {
            if i > 0 {
                assert(int_text(a)[i] == nat_text((-a) as nat)[i - 1]);
            }
        }
    }
    if int_text(a) == int_text(b) {
        if a < 0 && b < 0 {
            assert(nat_text((-a) as nat) =~= int_text(a).drop_first());
            assert(nat_text((-b) as nat) =~= int_text(b).drop_first());
            lemma_nat_text_injective((-a) as nat, (-b) as nat);
        } else if a >= 0 && b >= 0 {
            lemma_nat_text_injective(a as nat, b as nat);
        } else if a < 0 {
            assert(int_text(b)[0] == nat_text(b as nat)[0]);
        } else {
            assert(int_text(a)[0] == nat_text(a as nat)[0]);
        }
    }
}

fn digit_str(d: u64) -> (r: &'static str)
    requires
        d < 10,
    ensures
        r@ == seq![digit_char(d as int)],
{
    if d == 0 {
        proof { reveal_strlit("0"); }
        "0"
    } else if d == 1 {
        proof { reveal_strlit("1"); }
        "1"
    } else if d == 2 {
        proof { reveal_strlit("2"); }
        "2"
    } else if d == 3 {
        proof { reveal_strlit("3"); }
        "3"
    } else if d == 4 {
        proof { reveal_strlit("4"); }
        "4"
    } else if d == 5 {
        proof { reveal_strlit("5"); }
        "5"
    } else if d == 6 {
        proof { reveal_strlit("6"); }
        "6"
    } else if d == 7 {
        proof { reveal_strlit("7"); }
        "7"
    } else if d == 8 {
        proof { reveal_strlit("8"); }
        "8"
    } else {
        proof { reveal_strlit("9"); }
        "9"
    }
}

/// Appends the decimal text of `n`.
pub fn push_nat(s: &mut String, n: u64)
    ensures
        final(s)@ == old(s)@ + nat_text(n as nat),
    decreases n,
{
    if n < 10 {
        s.append(digit_str(n));
    } else {
        push_nat(s, n / 10);
        s.append(digit_str(n % 10));
        assert(nat_text(n as nat) == nat_text((n / 10) as nat).push(digit_char((n % 10) as int)));
    }
}

/// Appends the decimal text of `n`.
pub fn push_int(s: &mut String, n: i32)
    ensures
        final(s)@ == old(s)@ + int_text(n as int),
{
    if n < 0 {
        proof { reveal_strlit("-"); }
        s.append("-");
        let m: i64 = n as i64;
        push_nat(s, (-m) as u64);
        assert(final(s)@ =~= old(s)@ + int_text(n as int));
    } else {
        push_nat(s, n as u64);
    }
}

/// Appends `cents` written as currency units with two decimals.
pub fn push_money(s: &mut String, cents: u64)
    ensures
        final(s)@ == old(s)@ + money_text(cents as nat),
{
    push_nat(s, cents / 100);
    proof { reveal_strlit("."); }
    s.append(".");
    s.append(digit_str((cents % 100) / 10));
    s.append(digit_str(cents % 10));
    assert(final(s)@ =~= old(s)@ + money_text(cents as nat));
}

/// The decimal text of `n`, as `n.to_string()` gives it.
pub fn int_to_text(n: i32) -> (r: String)
    ensures
        r@ == int_text(n as int),
{
    let mut s = String::new();
    push_int(&mut s, n);
    assert(s@ =~= int_text(n as int));
    s
}

/// How a hash is shown: where it is longer than 20 bytes, its first 20
/// bytes followed by `...`; otherwise the whole of it. The cut falls on a
/// character boundary, as slicing a `str` there requires.
pub fn short_hash(hash: &str) -> (r: String)
    requires
        vstd::utf8::encode_utf8(hash@).len() <= usize::MAX,
        vstd::utf8::encode_utf8(hash@).len() > 20 ==> vstd::utf8::is_char_boundary(vstd::utf8::encode_utf8(hash@), 20),
    ensures
        vstd::utf8::encode_utf8(hash@).len() <= 20 ==> r@ == hash@,
        vstd::utf8::encode_utf8(hash@).len() > 20 ==> r@ == vstd::utf8::decode_utf8(vstd::utf8::encode_utf8(hash@).subrange(0, 20))
            + "..."@,
{
    if hash.len() > 20 {
        let (head, _) = hash.split_at(20);
        proof {
            vstd::utf8::encode_utf8_decode_utf8(head@);
            assert(vstd::utf8::encode_utf8(head@) =~= vstd::utf8::encode_utf8(hash@).subrange(0, 20));
        }
        let mut s = head.to_owned();
        s.append("...");
        s
    } else {
        hash.to_owned()
    }
}

} // verus!
