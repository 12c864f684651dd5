//! The CPF validator and formatter.
//!
//! A CPF is an 11-digit identifier whose last two digits are check digits
//! computed from the preceding ones by a positional-weighted modular
//! checksum. A candidate string is first normalized: every `.` and `-` is
//! removed. Validation rejects a normalized form whose length is not 11,
//! one made of eleven identical digits, one holding any non-digit
//! character, and one whose check digits do not match.

use vstd::prelude::*;

use crate::chars::all_digits;
use crate::chars::digit_val;
use crate::chars::is_digit;
use crate::decimal::dec_seq;
use crate::decimal::dec_string;
use crate::error::AppErrorCode;
use crate::error::ValidationError;

verus! {

/// Punctuation that formatting inserts and normalization strips.
pub open spec fn is_punct(c: char) -> bool {
    c == '.' || c == '-'
}

/// The normalized form of a candidate: every `.` and `-` removed, all other
/// characters kept in order.
pub open spec fn strip_punct(s: Seq<char>) -> Seq<char>
    decreases s.len(),
{
    if s.len() == 0 {
        Seq::empty()
    } else if is_punct(s.last()) {
        strip_punct(s.drop_last())
    } else {
        strip_punct(s.drop_last()) + seq![s.last()]
    }
}

/// Every character of `s` equals its first character.
pub open spec fn all_same(s: Seq<char>) -> bool {
    forall|i: int| 0 <= i < s.len() ==> #[trigger] s[i] == s[0]
}

/// The weighted digit sum `Σ_{i < k} digit_val(s[i]) * (w - i)`.
pub open spec fn weighted_sum(s: Seq<char>, k: int, w: int) -> int
    decreases k,
{
    if k <= 0 {
        0
    } else {
        weighted_sum(s, k - 1, w) + digit_val(s[k - 1]) * (w - (k - 1))
    }
}

/// Folds a weighted sum into a check digit: `(sum * 10) mod 11`, with a
/// result of 10 mapped to 0.
pub open spec fn check_digit(sum: int) -> int {
    if sum * 10 % 11 >= 10 {
        0
    } else {
        sum * 10 % 11
    }
}

/// The first check digit: weights 10 down to 2 over the first nine digits.
pub open spec fn dv1(s: Seq<char>) -> int {
    check_digit(weighted_sum(s, 9, 10))
}

/// The second check digit: weights 11 down to 2 over the first ten digits.
pub open spec fn dv2(s: Seq<char>) -> int {
    check_digit(weighted_sum(s, 10, 11))
}

/// The last two digits match the check digits computed from the rest.
pub open spec fn checksum_ok(s: Seq<char>) -> bool
    recommends
        s.len() == 11,
{
    digit_val(s[9]) == dv1(s) && digit_val(s[10]) == dv2(s)
}

/// A candidate passes CPF validation: its normalized form has exactly 11
/// characters, all decimal digits, not all identical, and both check digits
/// are correct.
pub open spec fn cpf_ok(raw: Seq<char>) -> bool {
    let n = strip_punct(raw);
    n.len() == 11 && all_digits(n) && !all_same(n) && checksum_ok(n)
}

/// The failure class reported for a candidate that fails CPF validation.
pub open spec fn cpf_error_code(raw: Seq<char>) -> AppErrorCode {
    if strip_punct(raw).len() != 11 {
        AppErrorCode::InvalidCpfLength
    } else {
        AppErrorCode::InvalidCpf
    }
}

/// The canonical punctuated rendering of an 11-character CPF:
/// `XXX.XXX.XXX-XX`.
pub open spec fn punctuate(n: Seq<char>) -> Seq<char>
    recommends
        n.len() == 11,
{
    n.subrange(0, 3) + seq!['.'] + n.subrange(3, 6) + seq!['.'] + n.subrange(6, 9) + seq!['-']
        + n.subrange(9, 11)
}

/// The message reporting a normalized length other than 11; it embeds the
/// actual normalized length, in decimal.
pub open spec fn length_message(len: nat) -> Seq<char> {
    "CPF deve conter 11 dígitos (comprimento atual: "@ + dec_seq(len) + ")"@
}

/// The message reported for a candidate that fails CPF validation.
pub open spec fn cpf_error_message(raw: Seq<char>) -> Seq<char> {
    let n = strip_punct(raw);
    if n.len() != 11 {
        length_message(n.len())
    } else if all_digits(n) && all_same(n) {
        "CPF inválido: "@ + punctuate(n)
    } else {
        "CPF inválido: "@ + n
    }
}

/// Removes every `.` and `-` from `s`, keeping all other characters in
/// order.
pub fn normalize_cpf(s: &str) -> (r: String)
    ensures
        r@ == strip_punct(s@),
{
    let len = s.unicode_len();
    let mut r = String::new();
    let mut i: usize = 0;
    while i < len
        invariant
            i <= len,
            len == s@.len(),
            r@ == strip_punct(s@.take(i as int)),
        decreases len - i,
    {
        let c = s.get_char(i);
        if !(c == '.' || c == '-') {
            let piece = s.substring_char(i, i + 1);
            proof {
                assert(piece@ =~= seq![s@[i as int]]);
            }
            r.append(piece);
        }
        proof {
            let pre = s@.take(i as int);
            let post = s@.take(i + 1);
            assert(post.drop_last() =~= pre);
            assert(post.last() == s@[i as int]);
        }
        i += 1;
    }
    proof {
        assert(s@.take(len as int) =~= s@);
    }
    r
}

/// Builds the error for a normalized length other than 11.
fn length_error(len: usize) -> (e: ValidationError)
    ensures
        e.spec_code() == AppErrorCode::InvalidCpfLength,
        e.spec_message() == length_message(len as nat),
{
    let mut m = String::from_str("CPF deve conter 11 dígitos (comprimento atual: ");
    let digits = dec_string(len);
    m.append(digits.as_str());
    m.append(")");
    ValidationError::new(AppErrorCode::InvalidCpfLength, m)
}

/// Renders an 11-character normalized CPF as `XXX.XXX.XXX-XX`.
fn punctuate_str(n: &str) -> (r: String)
    requires
        n@.len() == 11,
    ensures
        r@ == punctuate(n@),
{
    let mut r = String::from_str(n.substring_char(0, 3));
    r.append(".");
    r.append(n.substring_char(3, 6));
    r.append(".");
    r.append(n.substring_char(6, 9));
    r.append("-");
    r.append(n.substring_char(9, 11));
    proof {
        reveal_strlit(".");
        reveal_strlit("-");
        assert(("."@) =~= seq!['.']);
        assert(("-"@) =~= seq!['-']);
        assert(r@ =~= punctuate(n@));
    }
    r
}

/// Validates a CPF candidate.
///
/// The candidate is normalized first (every `.` and `-` removed).
/// Validation succeeds exactly when the normalized form has 11 characters,
/// all decimal digits, not all identical, and both check digits are
/// correct. On failure the error's code and message are fixed by the
/// normalized form.
pub fn validate_cpf(cpf: &str) -> (r: Result<(), ValidationError>)
    ensures
        r is Ok <==> cpf_ok(cpf@),
        r matches Err(e) ==> e.spec_code() == cpf_error_code(cpf@) && e.spec_message()
            == cpf_error_message(cpf@),
{
    let n = normalize_cpf(cpf);
    let ns = n.as_str();
    let len = ns.unicode_len();
    if len != 11 {
        return Err(length_error(len));
    }

    let first = ns.get_char(0);
    let mut digits_only = true;
    let mut identical = true;
    let mut i: usize = 0;
    while i < 11
        invariant
            i <= 11,
            ns@.len() == 11,
            first == ns@[0],
            digits_only <==> (forall|j: int| 0 <= j < i ==> is_digit(#[trigger] ns@[j])),
            identical <==> (forall|j: int| 0 <= j < i ==> #[trigger] ns@[j] == ns@[0]),
        decreases 11 - i,
    {
        let c = ns.get_char(i);
        let u = c as u32;
        if !(48 <= u && u <= 57) {
            digits_only = false;
        }
        if c != first {
            identical = false;
        }
        i += 1;
    }
    assert(digits_only == all_digits(ns@));
    assert(identical == all_same(ns@));

    if digits_only && identical {
        let mut m = String::from_str("CPF inválido: ");
        let p = punctuate_str(ns);
        m.append(p.as_str());
        return Err(ValidationError::new(AppErrorCode::InvalidCpf, m));
    }
    if !digits_only {
        let mut m = String::from_str("CPF inválido: ");
        m.append(ns);
        return Err(ValidationError::new(AppErrorCode::InvalidCpf, m));
    }

    let mut d: Vec<u8> = Vec::new();
    let mut i: usize = 0;
    while i < 11
        invariant
            i <= 11,
            ns@.len() == 11,
            all_digits(ns@),
            d@.len() == i,
            forall|j: int| 0 <= j < i ==> #[trigger] d@[j] as int == digit_val(ns@[j]),
        decreases 11 - i,
    {
        let c = ns.get_char(i);
        assert(is_digit(ns@[i as int]));
        let v = (c as u32 - 48) as u8;
        d.push(v);
        i += 1;
    }

    let mut sum1: u32 = 0;
    let mut i: usize = 0;
    while i < 9
        invariant
            i <= 9,
            ns@.len() == 11,
            all_digits(ns@),
            d@.len() == 11,
            forall|j: int| 0 <= j < 11 ==> #[trigger] d@[j] as int == digit_val(ns@[j]),
            sum1 == weighted_sum(ns@, i as int, 10),
            sum1 <= 90 * i,
        decreases 9 - i,
    {
        let di = d[i] as u32;
        let w = (10 - i) as u32;
        assert(di <= 9 && w <= 10) by {
            assert(is_digit(ns@[i as int]));
        }
        assert(di * w <= 90) by (nonlinear_arith)
            requires
                di <= 9,
                w <= 10,
        ;
        sum1 = sum1 + di * w;
        i += 1;
    }
    let r1 = sum1 * 10 % 11;
    let dv1v = if r1 >= 10 {
        0
    } else {
        r1
    };
    assert(dv1v as int == dv1(ns@));

    let mut sum2: u32 = 0;
    let mut i: usize = 0;
    while i < 10
        invariant
            i <= 10,
            ns@.len() == 11,
            all_digits(ns@),
            d@.len() == 11,
            forall|j: int| 0 <= j < 11 ==> #[trigger] d@[j] as int == digit_val(ns@[j]),
            sum2 == weighted_sum(ns@, i as int, 11),
            sum2 <= 99 * i,
        decreases 10 - i,
    {
        let di = d[i] as u32;
        let w = (11 - i) as u32;
        assert(di <= 9 && w <= 11) by {
            assert(is_digit(ns@[i as int]));
        }
        assert(di * w <= 99) by (nonlinear_arith)
            requires
                di <= 9,
                w <= 11,
        ;
        sum2 = sum2 + di * w;
        i += 1;
    }
    let r2 = sum2 * 10 % 11;
    let dv2v = if r2 >= 10 {
        0
    } else {
        r2
    };
    assert(dv2v as int == dv2(ns@));

    if dv1v == d[9] as u32 && dv2v == d[10] as u32 {
        Ok(())
    } else {
        let mut m = String::from_str("CPF inválido: ");
        m.append(ns);
        Err(ValidationError::new(AppErrorCode::InvalidCpf, m))
    }
}

/// True exactly when `validate_cpf` succeeds on the same candidate.
pub fn is_cpf_valid(cpf: &str) -> (r: bool)
    ensures
        r == cpf_ok(cpf@),
{
    validate_cpf(cpf).is_ok()
}

/// Renders a CPF candidate in canonical punctuated form `XXX.XXX.XXX-XX`.
///
/// The candidate is normalized first; if the normalized form does not have
/// exactly 11 characters, the same length error `validate_cpf` reports is
/// returned. The digits themselves are not re-validated.
pub fn format_cpf(cpf: &str) -> (r: Result<String, ValidationError>)
    ensures
        strip_punct(cpf@).len() == 11 ==> (r matches Ok(f) && f@ == punctuate(strip_punct(cpf@))),
        strip_punct(cpf@).len() != 11 ==> (r matches Err(e) && e.spec_code()
            == AppErrorCode::InvalidCpfLength && e.spec_message() == length_message(
            strip_punct(cpf@).len(),
        )),
{
    let n = normalize_cpf(cpf);
    let ns = n.as_str();
    let len = ns.unicode_len();
    if len != 11 {
        Err(length_error(len))
    } else {
        Ok(punctuate_str(ns))
    }
}

/// A sequence with no `.` or `-` normalizes to itself.
proof fn lemma_strip_clean(s: Seq<char>)
    requires
        forall|i: int| 0 <= i < s.len() ==> !is_punct(#[trigger] s[i]),
    ensures
        strip_punct(s) == s,
    decreases s.len(),
{
    if s.len() == 0 {
        assert(strip_punct(s) =~= s);
    } else {
        lemma_strip_clean(s.drop_last());
        assert(strip_punct(s) =~= s);
    }
}

/// A normalized form holds no `.` or `-`.
proof fn lemma_strip_no_punct(s: Seq<char>)
    ensures
        forall|i: int| 0 <= i < strip_punct(s).len() ==> !is_punct(#[trigger] strip_punct(s)[i]),
    decreases s.len(),
{
    if s.len() > 0 {
        lemma_strip_no_punct(s.drop_last());
        if !is_punct(s.last()) {
            let r = strip_punct(s);
            let rd = strip_punct(s.drop_last());
            assert(r == rd + seq![s.last()]);
            assert forall|i: int| 0 <= i < r.len() implies !is_punct(#[trigger] r[i]) by {
                if i < rd.len() {
                    assert(r[i] == rd[i]);
                } else {
                    assert(r[i] == s.last());
                }
            }
        }
    }
}

/// Normalization distributes over concatenation.
proof fn lemma_strip_append(a: Seq<char>, b: Seq<char>)
    ensures
        strip_punct(a + b) == strip_punct(a) + strip_punct(b),
    decreases b.len(),
{
    if b.len() == 0 {
        assert(a + b =~= a);
        assert(strip_punct(a) + strip_punct(b) =~= strip_punct(a));
    } else {
        lemma_strip_append(a, b.drop_last());
        assert((a + b).drop_last() =~= a + b.drop_last());
        assert((a + b).last() == b.last());
        if !is_punct(b.last()) {
            assert(strip_punct(a) + strip_punct(b) =~= strip_punct(a) + strip_punct(b.drop_last())
                + seq![b.last()]);
        }
    }
}

/// Law: a candidate of eleven identical decimal digits is rejected, and as
/// an invalid CPF, not as a length failure.
pub proof fn lemma_repeated_digits_rejected(s: Seq<char>)
    requires
        s.len() == 11,
        all_digits(s),
        all_same(s),
    ensures
        !cpf_ok(s),
        cpf_error_code(s) == AppErrorCode::InvalidCpf,
{
    assert forall|i: int| 0 <= i < s.len() implies !is_punct(#[trigger] s[i]) by {
        assert(is_digit(s[i]));
    }
    lemma_strip_clean(s);
}

/// Law: the verdict of CPF validation depends only on the normalized form.
/// Two candidates that normalize alike — for instance a punctuated CPF and
/// its bare digits — get the same verdict, failure code and message.
pub proof fn lemma_cpf_verdict_normalized(s: Seq<char>, t: Seq<char>)
    requires
        strip_punct(s) == strip_punct(t),
    ensures
        cpf_ok(s) == cpf_ok(t),
        cpf_error_code(s) == cpf_error_code(t),
        cpf_error_message(s) == cpf_error_message(t),
{
}

/// Law: formatting is idempotent. The punctuated rendering of an
/// 11-character normalized CPF normalizes back to it, so formatting a
/// formatted candidate yields the same string.
pub proof fn lemma_format_idempotent(s: Seq<char>)
    requires
        strip_punct(s).len() == 11,
    ensures
        strip_punct(punctuate(strip_punct(s))) == strip_punct(s),
        punctuate(strip_punct(punctuate(strip_punct(s)))) == punctuate(strip_punct(s)),
{
    let n = strip_punct(s);
    lemma_strip_no_punct(s);
    let p1 = n.subrange(0, 3);
    let p2 = n.subrange(3, 6);
    let p3 = n.subrange(6, 9);
    let p4 = n.subrange(9, 11);
    let dot = seq!['.'];
    let dash = seq!['-'];
    lemma_strip_append(p1, dot);
    lemma_strip_append(p1 + dot, p2);
    lemma_strip_append(p1 + dot + p2, dot);
    lemma_strip_append(p1 + dot + p2 + dot, p3);
    lemma_strip_append(p1 + dot + p2 + dot + p3, dash);
    lemma_strip_append(p1 + dot + p2 + dot + p3 + dash, p4);
    assert(dot.drop_last() =~= Seq::<char>::empty());
    assert(dash.drop_last() =~= Seq::<char>::empty());
    assert(strip_punct(Seq::<char>::empty()) =~= Seq::<char>::empty());
    assert(strip_punct(dot) =~= Seq::<char>::empty());
    assert(strip_punct(dash) =~= Seq::<char>::empty());
    lemma_strip_clean(p1);
    lemma_strip_clean(p2);
    lemma_strip_clean(p3);
    lemma_strip_clean(p4);
    assert(strip_punct(punctuate(n)) =~= n);
}

} // verus!
