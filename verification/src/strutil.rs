//! Character and string helpers: ASCII case folding, equality, decimal
//! numbers, and splitting comma-separated token lists.

use vstd::prelude::*;

verus! {

/// ASCII lowercase of a single character; anything outside 'A'..'Z' is kept.
pub open spec fn lower_char(c: char) -> char {
    match c {
        'A' => 'a',
        'B' => 'b',
        'C' => 'c',
        'D' => 'd',
        'E' => 'e',
        'F' => 'f',
        'G' => 'g',
        'H' => 'h',
        'I' => 'i',
        'J' => 'j',
        'K' => 'k',
        'L' => 'l',
        'M' => 'm',
        'N' => 'n',
        'O' => 'o',
        'P' => 'p',
        'Q' => 'q',
        'R' => 'r',
        'S' => 's',
        'T' => 't',
        'U' => 'u',
        'V' => 'v',
        'W' => 'w',
        'X' => 'x',
        'Y' => 'y',
        'Z' => 'z',
        _ => c,
    }
}

pub fn lower_char_exec(c: char) -> (r: char)
    ensures
        r == lower_char(c),
{
    match c {
        'A' => 'a',
        'B' => 'b',
        'C' => 'c',
        'D' => 'd',
        'E' => 'e',
        'F' => 'f',
        'G' => 'g',
        'H' => 'h',
        'I' => 'i',
        'J' => 'j',
        'K' => 'k',
        'L' => 'l',
        'M' => 'm',
        'N' => 'n',
        'O' => 'o',
        'P' => 'p',
        'Q' => 'q',
        'R' => 'r',
        'S' => 's',
        'T' => 't',
        'U' => 'u',
        'V' => 'v',
        'W' => 'w',
        'X' => 'x',
        'Y' => 'y',
        'Z' => 'z',
        _ => c,
    }
}

/// ASCII lowercase of a whole character sequence.
pub open spec fn lower_seq(s: Seq<char>) -> Seq<char> {
    Seq::new(s.len(), |i: int| lower_char(s[i]))
}

/// Relies on String::push: appends the given character at the end.
#[verifier::external_body]
pub fn push_char(s: &mut String, c: char)
    ensures
        final(s)@ == old(s)@.push(c),
{
    s.push(c)
}

/// Byte-exact string equality.
pub fn str_eq(a: &str, b: &str) -> (r: bool)
    ensures
        r == (a@ == b@),
{
    let la = a.unicode_len();
    let lb = b.unicode_len();
    if la != lb {
        return false;
    }
    let mut i: usize = 0;
    while i < la
        invariant
            la == a@.len(),
            la == b@.len(),
            i <= la,
            forall|j: int| 0 <= j < i ==> a@[j] == b@[j],
        decreases la - i,
    {
        if a.get_char(i) != b.get_char(i) {
            return false;
        }
        i = i + 1;
    }
    proof {
        assert(a@ =~= b@);
    }
    true
}

/// ASCII case-insensitive string equality.
pub fn str_eq_ci(a: &str, b: &str) -> (r: bool)
    ensures
        r == (lower_seq(a@) == lower_seq(b@)),
{
    let la = a.unicode_len();
    let lb = b.unicode_len();
    if la != lb {
        proof {
            assert(lower_seq(a@).len() != lower_seq(b@).len());
        }
        return false;
    }
    let mut i: usize = 0;
    while i < la
        invariant
            la == a@.len(),
            la == b@.len(),
            i <= la,
            forall|j: int| 0 <= j < i ==> lower_char(a@[j]) == lower_char(b@[j]),
        decreases la - i,
    {
        if lower_char_exec(a.get_char(i)) != lower_char_exec(b.get_char(i)) {
            assert(lower_seq(a@)[i as int] != lower_seq(b@)[i as int]);
            return false;
        }
        i = i + 1;
    }
    proof {
        assert(lower_seq(a@) =~= lower_seq(b@));
    }
    true
}

/// ASCII-lowercased copy of a string.
pub fn to_lower(s: &str) -> (r: String)
    ensures
        r@ == lower_seq(s@),
{
    let len = s.unicode_len();
    let mut out = String::new();
    let mut i: usize = 0;
    while i < len
        invariant
            len == s@.len(),
            i <= len,
            out@.len() == i,
            forall|j: int| 0 <= j < i ==> out@[j] == lower_char(s@[j]),
        decreases len - i,
    {
        push_char(&mut out, lower_char_exec(s.get_char(i)));
        i = i + 1;
    }
    proof {
        assert(out@ =~= lower_seq(s@));
    }
    out
}

/// The numeric value of a decimal digit; ten marks a non-digit.
pub open spec fn digit_val(c: char) -> nat {
    match c {
        '0' => 0nat,
        '1' => 1nat,
        '2' => 2nat,
        '3' => 3nat,
        '4' => 4nat,
        '5' => 5nat,
        '6' => 6nat,
        '7' => 7nat,
        '8' => 8nat,
        '9' => 9nat,
        _ => 10nat,
    }
}

pub open spec fn is_digit(c: char) -> bool {
    digit_val(c) < 10
}

/// Whether every character of the sequence is a decimal digit.
pub open spec fn all_digits(s: Seq<char>) -> bool {
    forall|i: int| 0 <= i < s.len() ==> is_digit(s[i])
}

/// The number that a digit sequence denotes, most significant digit first.
pub open spec fn dec_nat(s: Seq<char>) -> nat
    decreases s.len(),
{
    if s.len() == 0 {
        0
    } else {
        dec_nat(s.drop_last()) * 10 + digit_val(s.last())
    }
}

pub open spec fn pow10(k: nat) -> nat
    decreases k,
{
    if k == 0 {
        1
    } else {
        10 * pow10((k - 1) as nat)
    }
}

fn digit_char(d: u64) -> (r: char)
    requires
        d < 10,
    ensures
        digit_val(r) == d,
{
    match d {
        0u64 => '0',
        1u64 => '1',
        2u64 => '2',
        3u64 => '3',
        4u64 => '4',
        5u64 => '5',
        6u64 => '6',
        7u64 => '7',
        8u64 => '8',
        _ => '9',
    }
}

fn digit_value(c: char) -> (r: u64)
    ensures
        r == digit_val(c),
{
    match c {
        '0' => 0u64,
        '1' => 1u64,
        '2' => 2u64,
        '3' => 3u64,
        '4' => 4u64,
        '5' => 5u64,
        '6' => 6u64,
        '7' => 7u64,
        '8' => 8u64,
        '9' => 9u64,
        _ => 10u64,
    }
}

/// A digit-sequence prefix of zeros does not change the denoted number.
proof fn lemma_zero_prefix(s: Seq<char>)
    requires
        all_digits(s),
        s.len() >= 1,
        digit_val(s[0]) == 0,
    ensures
        dec_nat(s) == dec_nat(s.drop_first()),
    decreases s.len(),
{
    if s.len() == 1 {
        assert(s.drop_last() =~= Seq::<char>::empty());
        assert(s.drop_first() =~= Seq::<char>::empty());
        assert(s.last() == s[0]);
        assert(dec_nat(s) == dec_nat(s.drop_last()) * 10 + digit_val(s.last()));
    } else {
        assert(all_digits(s.drop_last())) by {
            assert(forall|i: int| 0 <= i < s.len() - 1 ==> s.drop_last()[i] == s[i]);
        }
        assert(s.drop_last()[0] == s[0]);
        lemma_zero_prefix(s.drop_last());
        assert(s.drop_last().drop_first() =~= s.drop_first().drop_last());
        assert(s.drop_first().last() == s.last());
        assert(dec_nat(s) == dec_nat(s.drop_last()) * 10 + digit_val(s.last()));
        assert(dec_nat(s.drop_first()) == dec_nat(s.drop_first().drop_last()) * 10 + digit_val(
            s.drop_first().last(),
        ));
    }
}

proof fn lemma_strip_zeros(s: Seq<char>, z: int)
    requires
        all_digits(s),
        0 <= z <= s.len(),
        forall|j: int| 0 <= j < z ==> digit_val(s[j]) == 0,
    ensures
        dec_nat(s) == dec_nat(s.skip(z)),
    decreases z,
{
    if z == 0 {
        assert(s.skip(0) =~= s);
    } else {
        lemma_zero_prefix(s);
        assert(all_digits(s.drop_first())) by {
            assert(forall|i: int| 0 <= i < s.len() - 1 ==> s.drop_first()[i] == s[i + 1]);
        }
        lemma_strip_zeros(s.drop_first(), z - 1);
        assert(s.drop_first().skip(z - 1) =~= s.skip(z));
    }
}

/// A digit sequence with a nonzero leading digit is at least as large as the
/// power of ten given by its length.
proof fn lemma_first_digit_lower(s: Seq<char>)
    requires
        all_digits(s),
        s.len() >= 1,
        digit_val(s[0]) >= 1,
    ensures
        dec_nat(s) >= pow10((s.len() - 1) as nat),
    decreases s.len(),
{
    if s.len() == 1 {
    } else {
        assert(all_digits(s.drop_last())) by {
            assert(forall|i: int| 0 <= i < s.len() - 1 ==> s.drop_last()[i] == s[i]);
        }
        lemma_first_digit_lower(s.drop_last());
        assert(dec_nat(s.drop_last()) * 10 >= pow10((s.len() - 2) as nat) * 10)
            by (nonlinear_arith)
            requires
                dec_nat(s.drop_last()) >= pow10((s.len() - 2) as nat),
        ;
    }
}

proof fn lemma_pow10_mono(a: nat, b: nat)
    requires
        a <= b,
    ensures
        pow10(a) <= pow10(b),
    decreases b,
{
    if a < b && b > 0 {
        lemma_pow10_mono(a, (b - 1) as nat);
    }
}

/// The character of a decimal digit value.
pub open spec fn digit_char_of(d: nat) -> char {
    if d == 0 {
        '0'
    } else if d == 1 {
        '1'
    } else if d == 2 {
        '2'
    } else if d == 3 {
        '3'
    } else if d == 4 {
        '4'
    } else if d == 5 {
        '5'
    } else if d == 6 {
        '6'
    } else if d == 7 {
        '7'
    } else if d == 8 {
        '8'
    } else {
        '9'
    }
}

/// The canonical decimal form of a number, without leading zeros.
pub open spec fn dec_str(n: nat) -> Seq<char>
    decreases n,
{
    if n < 10 {
        seq![digit_char_of(n)]
    } else {
        dec_str(n / 10).push(digit_char_of(n % 10))
    }
}

/// The decimal form of a number, without leading zeros.
pub fn u64_to_dec(n: u64) -> (r: String)
    ensures
        r@ == dec_str(n as nat),
{
    let mut digits: Vec<char> = Vec::new();
    if n == 0 {
        let mut out = String::new();
        push_char(&mut out, '0');
        proof {
            assert(out@ =~= seq!['0']);
            assert(dec_str(0nat) =~= seq!['0']);
        }
        return out;
    }
    let mut rest: u64 = n;
    proof {
        assert(digits@.reverse() =~= Seq::<char>::empty());
        assert(dec_str(n as nat) =~= dec_str(n as nat) + digits@.reverse());
    }
    loop
        invariant_except_break
            rest > 0,
            dec_str(n as nat) == dec_str(rest as nat) + digits@.reverse(),
        ensures
            dec_str(n as nat) == digits@.reverse(),
        decreases rest,
    {
        let ghost old_rev = digits@.reverse();
        let d = rest % 10;
        let q = rest / 10;
        let c = digit_char(d);
        proof {
            assert(digit_char_of(d as nat) == c);
        }
        digits.push(c);
        proof {
            assert(digits@.reverse() =~= seq![c] + old_rev);
            if rest >= 10 {
                assert(dec_str(rest as nat) == dec_str((rest / 10) as nat).push(
                    digit_char_of((rest % 10) as nat),
                ));
                assert(dec_str((rest / 10) as nat).push(c) =~= dec_str((rest / 10) as nat) + seq![
                    c,
                ]);
                assert(dec_str(q as nat) + (seq![c] + old_rev) =~= (dec_str(q as nat) + seq![c])
                    + old_rev);
            } else {
                assert(dec_str(rest as nat) =~= seq![c]);
                assert(seq![c] + old_rev =~= dec_str(rest as nat) + old_rev);
            }
        }
        rest = q;
        if rest == 0 {
            break;
        }
    }
    let mut out = String::new();
    let mut i: usize = digits.len();
    while i > 0
        invariant
            i <= digits@.len(),
            out@ =~= digits@.subrange(i as int, digits@.len() as int).reverse(),
        decreases i,
    {
        i = i - 1;
        push_char(&mut out, digits[i]);
        proof {
            assert(digits@.subrange(i as int, digits@.len() as int).reverse() =~= digits@.subrange(
                i + 1,
                digits@.len() as int,
            ).reverse().push(digits@[i as int]));
        }
    }
    proof {
        assert(digits@.subrange(0, digits@.len() as int) =~= digits@);
        assert(out@ =~= digits@.reverse());
    }
    out
}

/// Parses a decimal number: one or more digits whose value fits in 32 bits;
/// anything else is refused.
pub fn parse_dec_u32(s: &str) -> (r: Option<u32>)
    ensures
        match r {
            Some(v) => all_digits(s@) && s@.len() >= 1 && dec_nat(s@) == v,
            None => !(all_digits(s@) && s@.len() >= 1 && dec_nat(s@) <= u32::MAX),
        },
{
    let len = s.unicode_len();
    if len == 0 {
        return None;
    }
    let mut i: usize = 0;
    while i < len
        invariant
            len == s@.len(),
            i <= len,
            forall|j: int| 0 <= j < i ==> is_digit(s@[j]),
        decreases len - i,
    {
        let d = digit_value(s.get_char(i));
        if d >= 10 {
            assert(!is_digit(s@[i as int]));
            return None;
        }
        i = i + 1;
    }
    let mut z: usize = 0;
    while z < len && s.get_char(z) == '0'
        invariant
            len == s@.len(),
            z <= len,
            all_digits(s@),
            forall|j: int| 0 <= j < z ==> digit_val(s@[j]) == 0,
        decreases len - z,
    {
        z = z + 1;
    }
    proof {
        lemma_strip_zeros(s@, z as int);
    }
    if len - z > 10 {
        proof {
            let t = s@.skip(z as int);
            assert(all_digits(t)) by {
                assert(forall|i: int| 0 <= i < t.len() ==> t[i] == s@[i + z]);
            }
            assert(digit_val(t[0]) >= 1);
            lemma_first_digit_lower(t);
            lemma_pow10_mono(10nat, (t.len() - 1) as nat);
            reveal_with_fuel(pow10, 11);
            assert(pow10(10nat) == 10000000000);
        }
        return None;
    }
    let mut acc: u64 = 0;
    let mut i2: usize = z;
    while i2 < len
        invariant
            len == s@.len(),
            all_digits(s@),
            z <= i2 <= len,
            len - z <= 10,
            acc == dec_nat(s@.subrange(z as int, i2 as int)),
            acc < pow10((i2 - z) as nat),
        decreases len - i2,
    {
        let ghost k = (i2 - z) as nat;
        let d = digit_value(s.get_char(i2));
        proof {
            lemma_pow10_mono(k, 9nat);
            reveal_with_fuel(pow10, 10);
            assert(pow10(9nat) == 1000000000);
            assert(s@.subrange(z as int, i2 + 1).drop_last() =~= s@.subrange(
                z as int,
                i2 as int,
            ));
            assert(acc * 10 + d < pow10((k + 1) as nat))
                by (nonlinear_arith)
                requires
                    acc < pow10(k),
                    d < 10,
                    pow10((k + 1) as nat) == 10 * pow10(k),
            ;
            assert(acc * 10 + d <= u64::MAX)
                by (nonlinear_arith)
                requires
                    acc < 1000000000,
                    d < 10,
            ;
        }
        acc = acc * 10 + d;
        i2 = i2 + 1;
    }
    proof {
        assert(s@.subrange(z as int, len as int) =~= s@.skip(z as int));
    }
    if acc <= 0xffff_ffffu64 {
        Some(acc as u32)
    } else {
        None
    }
}

/// Whitespace that may surround tokens in a header value.
pub open spec fn is_ws(c: char) -> bool {
    c == ' ' || c == '\t'
}

/// Splits a comma-separated list into its tokens, dropping all whitespace
/// and empty items, one character at a time.
pub open spec fn token_split_step(s: Seq<char>, cur: Seq<char>, acc: Seq<Seq<char>>) -> Seq<
    Seq<char>,
>
    decreases s.len(),
{
    if s.len() == 0 {
        if cur.len() > 0 {
            acc.push(cur)
        } else {
            acc
        }
    } else if is_ws(s[0]) {
        token_split_step(s.drop_first(), cur, acc)
    } else if s[0] == ',' {
        token_split_step(s.drop_first(), Seq::<char>::empty(), if cur.len() > 0 {
            acc.push(cur)
        } else {
            acc
        })
    } else {
        token_split_step(s.drop_first(), cur.push(s[0]), acc)
    }
}

/// The tokens of a comma-separated header value.
pub open spec fn token_list(s: Seq<char>) -> Seq<Seq<char>> {
    token_split_step(s, Seq::<char>::empty(), Seq::<Seq<char>>::empty())
}

/// The views of a vector of strings.
pub open spec fn views_of(list: Seq<String>) -> Seq<Seq<char>> {
    Seq::new(list.len(), |i: int| list[i]@)
}

/// Splits a comma-separated list, dropping whitespace and empty items.
pub fn split_tokens(s: &str) -> (r: Vec<String>)
    ensures
        views_of(r@) == token_list(s@),
{
    let len = s.unicode_len();
    let mut acc: Vec<String> = Vec::new();
    let mut cur = String::new();
    proof {
        assert(s@.subrange(0, len as int) =~= s@);
        assert(views_of(acc@) =~= Seq::<Seq<char>>::empty());
    }
    let mut i: usize = 0;
    while i < len
        invariant
            len == s@.len(),
            i <= len,
            token_list(s@) == token_split_step(
                s@.subrange(i as int, len as int),
                cur@,
                views_of(acc@),
            ),
        decreases len - i,
    {
        let ghost pre = s@.subrange(i as int, len as int);
        let ghost oldcur = cur@;
        let ghost oldmap = views_of(acc@);
        proof {
            assert(pre.drop_first() =~= s@.subrange(i + 1, len as int));
            assert(pre[0] == s@[i as int]);
        }
        let c = s.get_char(i);
        if c == ' ' || c == '\t' {
            proof {
                assert(token_split_step(pre, oldcur, oldmap) == token_split_step(
                    pre.drop_first(),
                    cur@,
                    views_of(acc@),
                ));
            }
        } else if c == ',' {
            if cur.unicode_len() > 0 {
                let ghost oldacc = acc@;
                let done = cur;
                cur = String::new();
                acc.push(done);
                proof {
                    assert(views_of(acc@) =~= oldmap.push(done@));
                    assert(cur@ =~= Seq::<char>::empty());
                    assert(token_split_step(pre, oldcur, oldmap) == token_split_step(
                        pre.drop_first(),
                        cur@,
                        views_of(acc@),
                    ));
                }
            } else {
                proof {
                    assert(cur@ =~= Seq::<char>::empty());
                    assert(token_split_step(pre, oldcur, oldmap) == token_split_step(
                        pre.drop_first(),
                        cur@,
                        views_of(acc@),
                    ));
                }
            }
        } else {
            push_char(&mut cur, c);
            proof {
                assert(cur@ == oldcur.push(pre[0]));
                assert(token_split_step(pre, oldcur, oldmap) == token_split_step(
                    pre.drop_first(),
                    cur@,
                    views_of(acc@),
                ));
            }
        }
        i = i + 1;
    }
    proof {
        assert(s@.subrange(len as int, len as int) =~= Seq::<char>::empty());
    }
    if cur.unicode_len() > 0 {
        let ghost oldacc = acc@;
        let done = cur;
        acc.push(done);
        proof {
            assert(views_of(acc@) =~= views_of(oldacc).push(done@));
        }
    }
    acc
}

/// ASCII lowering is idempotent.
pub proof fn lemma_lower_idempotent(s: Seq<char>)
    ensures
        lower_seq(lower_seq(s)) == lower_seq(s),
{
    assert forall|i: int|
        0 <= i < s.len() implies lower_seq(lower_seq(s))[i] == lower_seq(s)[i] by {
        assert(lower_char(lower_char(s[i])) == lower_char(s[i]));
    }
    assert(lower_seq(lower_seq(s)) =~= lower_seq(s));
}

/// Whether a list of tokens holds `x`, byte-exact.
pub open spec fn toks_have(list: Seq<Seq<char>>, x: Seq<char>) -> bool {
    exists|i: int| 0 <= i < list.len() && list[i] == x
}

/// Whether a list of tokens holds one equal to `x` up to ASCII case.
pub open spec fn toks_have_ci(list: Seq<Seq<char>>, x: Seq<char>) -> bool {
    exists|i: int| 0 <= i < list.len() && lower_seq(list[i]) == lower_seq(x)
}

/// Whether a vector of strings holds `x`, byte-exact.
pub open spec fn strs_have(list: Seq<String>, x: Seq<char>) -> bool {
    exists|i: int| 0 <= i < list.len() && list[i]@ == x
}

/// A vector of strings holds a token exactly when its views do.
pub proof fn lemma_strs_toks(list: Seq<String>, x: Seq<char>)
    ensures
        strs_have(list, x) == toks_have(views_of(list), x),
        strs_have_ci(list, x) == toks_have_ci(views_of(list), x),
{
    if strs_have(list, x) {
        let i = choose|i: int| 0 <= i < list.len() && list[i]@ == x;
        assert(views_of(list)[i] == x);
    }
    if toks_have(views_of(list), x) {
        let i = choose|i: int| 0 <= i < views_of(list).len() && views_of(list)[i] == x;
        assert(list[i]@ == x);
    }
    if strs_have_ci(list, x) {
        let i = choose|i: int| 0 <= i < list.len() && lower_seq(list[i]@) == lower_seq(x);
        assert(lower_seq(views_of(list)[i]) == lower_seq(x));
    }
    if toks_have_ci(views_of(list), x) {
        let i = choose|i: int|
            0 <= i < views_of(list).len() && lower_seq(views_of(list)[i]) == lower_seq(x);
        assert(lower_seq(list[i]@) == lower_seq(x));
    }
}

/// Whether a vector of strings holds a token equal to `x` up to ASCII case.
pub open spec fn strs_have_ci(list: Seq<String>, x: Seq<char>) -> bool {
    exists|i: int| 0 <= i < list.len() && lower_seq(list[i]@) == lower_seq(x)
}

pub fn vec_has_str(list: &Vec<String>, x: &str) -> (r: bool)
    ensures
        r == strs_have(list@, x@),
{
    let mut i: usize = 0;
    while i < list.len()
        invariant
            i <= list@.len(),
            forall|j: int| 0 <= j < i ==> (#[trigger] list@[j])@ != x@,
        decreases list@.len() - i,
    {
        if str_eq(list[i].as_str(), x) {
            return true;
        }
        i = i + 1;
    }
    false
}

pub fn vec_has_str_ci(list: &Vec<String>, x: &str) -> (r: bool)
    ensures
        r == strs_have_ci(list@, x@),
{
    let mut i: usize = 0;
    while i < list.len()
        invariant
            i <= list@.len(),
            forall|j: int| 0 <= j < i ==> lower_seq((#[trigger] list@[j])@) != lower_seq(x@),
        decreases list@.len() - i,
    {
        if str_eq_ci(list[i].as_str(), x) {
            return true;
        }
        i = i + 1;
    }
    false
}

} // verus!
