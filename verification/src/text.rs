//! Case-insensitive text matching.
//!
//! Entity searches go by a natural key (a human-readable name) and the
//! backend matches names without regard to ASCII case.  The model of that
//! rule lives here: two names match when they have the same length and every
//! pair of characters agrees once ASCII letters are folded to lower case.

use vstd::prelude::*;

verus! {

/// The code point of `c` with ASCII upper-case letters folded to lower case.
pub open spec fn fold_code(c: char) -> u32 {
    if 65 <= c as u32 && c as u32 <= 90 {
        (c as u32 + 32) as u32
    } else {
        c as u32
    }
}

/// Whether `a` and `b` are the same text up to ASCII case.
pub open spec fn fold_eq(a: Seq<char>, b: Seq<char>) -> bool {
    &&& a.len() == b.len()
    &&& forall|i: int| 0 <= i < a.len() ==> fold_code(a[i]) == fold_code(b[i])
}

/// `fold_eq` is reflexive.
pub proof fn lemma_fold_eq_refl(a: Seq<char>)
    ensures
        fold_eq(a, a),
{
}

/// Compares two names up to ASCII case.
pub fn names_match(a: &str, b: &str) -> (r: bool)
    ensures
        r == fold_eq(a@, b@),
{
    let a_len = a.unicode_len();
    let b_len = b.unicode_len();
    if a_len != b_len {
        return false;
    }
    let mut i: usize = 0;
    while i < a_len
        invariant
            a_len == a@.len(),
            b_len == b@.len(),
            a_len == b_len,
            0 <= i <= a_len,
            forall|j: int| 0 <= j < i ==> fold_code(a@[j]) == fold_code(b@[j]),
        decreases a_len - i,
    {
        let ca = a.get_char(i);
        let cb = b.get_char(i);
        if fold_char_code(ca) != fold_char_code(cb) {
            return false;
        }
        i = i + 1;
    }
    true
}

/// Compares two texts character for character.
pub fn str_eq(a: &str, b: &str) -> (r: bool)
    ensures
        r == (a@ == b@),
{
    let a_len = a.unicode_len();
    let b_len = b.unicode_len();
    if a_len != b_len {
        return false;
    }
    let mut i: usize = 0;
    while i < a_len
        invariant
            a_len == a@.len(),
            b_len == b@.len(),
            a_len == b_len,
            0 <= i <= a_len,
            forall|j: int| 0 <= j < i ==> a@[j] == b@[j],
        decreases a_len - i,
    {
        if a.get_char(i) != b.get_char(i) {
            return false;
        }
        i = i + 1;
    }
    proof {
        assert(a@ =~= b@);
    }
    true
}

/// The digit character for `d` (which must be below ten).
pub open spec fn digit_char(d: nat) -> char {
    if d == 0 {
        '0'
    } else if d == 1 {
        '1'
    } else if d == 2 {
        '2'
    } else if d == 3 {
        '3'
    } else if d == 4 {
        '4'
    } else if d == 5 {
        '5'
    } else if d == 6 {
        '6'
    } else if d == 7 {
        '7'
    } else if d == 8 {
        '8'
    } else {
        '9'
    }
}

/// The decimal numeral for `n`, most significant digit first.
pub open spec fn spec_dec(n: nat) -> Seq<char>
    decreases n,
{
    if n < 10 {
        seq![digit_char(n)]
    } else {
        spec_dec(n / 10) + seq![digit_char(n % 10)]
    }
}

/// The one-character text for a single decimal digit.
fn digit_str(d: u64) -> (r: &'static str)
    requires
        d < 10,
    ensures
        r@ == seq![digit_char(d as nat)],
{
    let r: &'static str = match d {
        0 => "0",
        1 => "1",
        2 => "2",
        3 => "3",
        4 => "4",
        5 => "5",
        6 => "6",
        7 => "7",
        8 => "8",
        _ => "9",
    };
    proof {
        reveal_strlit("0");
        reveal_strlit("1");
        reveal_strlit("2");
        reveal_strlit("3");
        reveal_strlit("4");
        reveal_strlit("5");
        reveal_strlit("6");
        reveal_strlit("7");
        reveal_strlit("8");
        reveal_strlit("9");
        assert(r@ =~= seq![digit_char(d as nat)]);
    }
    r
}

/// Writes `n` in decimal.
pub fn dec_string(n: u64) -> (r: String)
    ensures
        r@ == spec_dec(n as nat),
    decreases n,
{
    if n < 10 {
        String::from_str(digit_str(n))
    } else {
        proof {
            vstd::arithmetic::div_mod::lemma_div_decreases(n as int, 10);
        }
        let mut s = dec_string(n / 10);
        s.append(digit_str(n % 10));
        proof {
            assert(s@ =~= spec_dec(n as nat));
        }
        s
    }
}

/// Joins a fixed prefix and a counter into a distinct token.
pub fn counter_token(prefix: &str, n: u64) -> (r: String)
    ensures
        r@ == prefix@ + spec_dec(n as nat),
{
    let mut s = String::from_str(prefix);
    let tail = dec_string(n);
    s.append(tail.as_str());
    s
}

/// Folds one character's code point to lower case.
fn fold_char_code(c: char) -> (r: u32)
    ensures
        r == fold_code(c),
{
    let code = c as u32;
    if 65 <= code && code <= 90 {
        code + 32
    } else {
        code
    }
}

} // verus!
