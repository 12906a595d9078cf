//! The national taxpayer number (CPF) in its punctuated form.

use vstd::prelude::*;
use vstd::string::{StrSliceExecFns, StringExecFns};

use crate::base::domain_error::{DomainError, DomainErrorView};
use crate::base::text::{
    all_digits, decimal_usize, decimal_value, is_digit, lemma_decimal_value_bound, power_of_ten,
    unsigned_part,
};

verus! {

/// Number of characters of a punctuated CPF: `ddd.ddd.ddd-dd`.
pub const CPF_LENGTH: usize = 14;

/// Reason carried by the error for a text that is no punctuated CPF.
pub const INVALID_CPF: &'static str = "Cpf";

/// A dot or a dash, the two marks that punctuate a CPF.
pub open spec fn is_punctuation(c: char) -> bool {
    c == '.' || c == '-'
}

/// What the character at `position` of a punctuated CPF has to be: a dot after
/// the third and the sixth digit, a dash after the ninth, a digit elsewhere.
pub open spec fn fits_position(position: int, c: char) -> bool {
    if position == 3 || position == 7 {
        c == '.'
    } else if position == 11 {
        c == '-'
    } else {
        is_digit(c)
    }
}

/// The canonical form `ddd.ddd.ddd-dd`, and nothing else.
pub open spec fn is_canonical(text: Seq<char>) -> bool {
    &&& text.len() == CPF_LENGTH
    &&& forall|i: int| 0 <= i < text.len() ==> fits_position(i, #[trigger] text[i])
}

/// `text` with every dot and dash taken out.
pub open spec fn without_punctuation(text: Seq<char>) -> Seq<char> {
    text.filter(|c: char| !is_punctuation(c))
}

/// A CPF that is known to be in canonical form.
#[derive(Debug)]
pub struct Cpf(String);

impl View for Cpf {
    type V = Seq<char>;

    closed spec fn view(&self) -> Seq<char> {
        self.0@
    }
}

impl Cpf {
    #[verifier::type_invariant]
    spec fn canonical(self) -> bool {
        is_canonical(self.0@)
    }

    /// Takes `raw` as it is when it is canonical, and refuses it otherwise:
    /// nothing is trimmed, and no punctuation is supplied.
    pub fn new(raw: String) -> (r: Result<Cpf, DomainError>)
        ensures
            is_canonical(raw@) ==> (r matches Ok(cpf) && cpf@ == raw@),
            !is_canonical(raw@) ==> (r matches Err(e) && e@ == DomainErrorView::Invalid(
                INVALID_CPF@,
            )),
    {
        if has_canonical_form(raw.as_str()) {
            Ok(Cpf(raw))
        } else {
            Err(DomainError::Invalid(String::from_str(INVALID_CPF)))
        }
    }

    /// The text of the CPF, punctuation included.
    pub fn value(&self) -> (text: &String)
        ensures
            text@ == self@,
            is_canonical(text@),
    {
        proof {
            use_type_invariant(self);
        }
        &self.0
    }

    /// The eleven digits of the CPF, without its punctuation.
    pub fn unpunctuated(&self) -> (digits: String)
        ensures
            digits@ == without_punctuation(self@),
    {
        proof {
            use_type_invariant(self);
        }
        strip_punctuation(self.0.as_str())
    }
}

impl Clone for Cpf {
    fn clone(&self) -> (r: Self)
        ensures
            r@ == self@,
    {
        proof {
            use_type_invariant(self);
        }
        Cpf(self.0.clone())
    }
}

impl PartialEq for Cpf {
    fn eq(&self, other: &Self) -> (r: bool) {
        self.0 == other.0
    }
}

impl vstd::std_specs::cmp::PartialEqSpecImpl for Cpf {
    open spec fn obeys_eq_spec() -> bool {
        true
    }

    open spec fn eq_spec(&self, other: &Self) -> bool {
        self@ == other@
    }
}

/// Decides whether `text` is a CPF in canonical form.
pub fn has_canonical_form(text: &str) -> (ok: bool)
    ensures
        ok == is_canonical(text@),
{
    if text.unicode_len() != CPF_LENGTH {
        return false;
    }
    let mut i: usize = 0;
    while i < CPF_LENGTH
        invariant
            i <= CPF_LENGTH,
            text@.len() == CPF_LENGTH,
            forall|j: int| 0 <= j < i ==> fits_position(j, #[trigger] text@[j]),
        decreases CPF_LENGTH - i,
    {
        let c = text.get_char(i);
        let fits = if i == 3 || i == 7 {
            c == '.'
        } else if i == 11 {
            c == '-'
        } else {
            '0' <= c && c <= '9'
        };
        if !fits {
            assert(!fits_position(i as int, text@[i as int]));
            return false;
        }
        i += 1;
    }
    true
}

/// Copies `text` without its dots and dashes.
pub fn strip_punctuation(text: &str) -> (stripped: String)
    ensures
        stripped@ == without_punctuation(text@),
{
    let n = text.unicode_len();
    let mut stripped = String::new();
    let mut i: usize = 0;
    assert(text@.take(0) =~= Seq::<char>::empty());
    reveal(Seq::filter);
    while i < n
        invariant
            i <= n,
            n == text@.len(),
            stripped@ == without_punctuation(text@.take(i as int)),
        decreases n - i,
    {
        let c = text.get_char(i);
        proof {
            reveal(Seq::filter);
            assert(text@.take(i + 1).drop_last() =~= text@.take(i as int));
            assert(text@.take(i + 1).last() == c);
        }
        if c != '.' && c != '-' {
            let piece = text.substring_char(i, i + 1);
            assert(piece@ =~= seq![c]);
            stripped.append(piece);
            assert(stripped@ =~= without_punctuation(text@.take(i as int)).push(c));
        }
        i += 1;
    }
    assert(text@.take(n as int) =~= text@);
    stripped
}

/// Taking the punctuation out of a text goes character by character.
proof fn lemma_without_punctuation_step(text: Seq<char>, k: int)
    requires
        0 <= k < text.len(),
    ensures
        without_punctuation(text.take(k + 1)) == if is_punctuation(text[k]) {
            without_punctuation(text.take(k))
        } else {
            without_punctuation(text.take(k)).push(text[k])
        },
{
    reveal(Seq::filter);
    assert(text.take(k + 1).drop_last() =~= text.take(k));
}

/// A canonical CPF without its punctuation is its eleven digits, in order.
pub proof fn lemma_unpunctuated_canonical(cpf: Seq<char>)
    requires
        is_canonical(cpf),
    ensures
        without_punctuation(cpf) == cpf.subrange(0, 3) + cpf.subrange(4, 7) + cpf.subrange(8, 11)
            + cpf.subrange(12, 14),
        without_punctuation(cpf).len() == 11,
        all_digits(without_punctuation(cpf)),
{
    reveal(Seq::filter);
    assert(without_punctuation(cpf.take(0)) =~= Seq::<char>::empty());
    lemma_without_punctuation_step(cpf, 0);
    lemma_without_punctuation_step(cpf, 1);
    lemma_without_punctuation_step(cpf, 2);
    lemma_without_punctuation_step(cpf, 3);
    lemma_without_punctuation_step(cpf, 4);
    lemma_without_punctuation_step(cpf, 5);
    lemma_without_punctuation_step(cpf, 6);
    lemma_without_punctuation_step(cpf, 7);
    lemma_without_punctuation_step(cpf, 8);
    lemma_without_punctuation_step(cpf, 9);
    lemma_without_punctuation_step(cpf, 10);
    lemma_without_punctuation_step(cpf, 11);
    lemma_without_punctuation_step(cpf, 12);
    lemma_without_punctuation_step(cpf, 13);
    assert(fits_position(0, cpf[0]) && fits_position(1, cpf[1]) && fits_position(2, cpf[2]));
    assert(fits_position(3, cpf[3]) && fits_position(4, cpf[4]) && fits_position(5, cpf[5]));
    assert(fits_position(6, cpf[6]) && fits_position(7, cpf[7]) && fits_position(8, cpf[8]));
    assert(fits_position(9, cpf[9]) && fits_position(10, cpf[10]) && fits_position(11, cpf[11]));
    assert(fits_position(12, cpf[12]) && fits_position(13, cpf[13]));
    assert(cpf.take(14) =~= cpf);
    let digits = cpf.subrange(0, 3) + cpf.subrange(4, 7) + cpf.subrange(8, 11) + cpf.subrange(
        12,
        14,
    );
    assert(without_punctuation(cpf) =~= digits);
}

/// The digits of a canonical CPF are read as the number they write, wherever
/// a `usize` holds that number.
pub proof fn lemma_unpunctuated_is_number(cpf: Seq<char>)
    requires
        is_canonical(cpf),
    ensures
        decimal_usize(without_punctuation(cpf)) == if decimal_value(without_punctuation(cpf))
            <= usize::MAX {
            Some(decimal_value(without_punctuation(cpf)) as usize)
        } else {
            None
        },
{
    lemma_unpunctuated_canonical(cpf);
    let digits = without_punctuation(cpf);
    assert(is_digit(digits[0]));
    assert(unsigned_part(digits) == digits);
}

/// The largest number that the eleven digits of a CPF can write.
pub const LARGEST_CPF_NUMBER: u64 = 99_999_999_999;

/// The digits of a canonical CPF write a number of at most eleven digits, so
/// they are read as a number wherever a `usize` has 64 bits.
pub proof fn lemma_unpunctuated_fits(cpf: Seq<char>)
    requires
        is_canonical(cpf),
    ensures
        decimal_value(without_punctuation(cpf)) <= LARGEST_CPF_NUMBER,
        usize::MAX >= LARGEST_CPF_NUMBER ==> decimal_usize(without_punctuation(cpf)) is Some,
{
    lemma_unpunctuated_canonical(cpf);
    lemma_unpunctuated_is_number(cpf);
    lemma_decimal_value_bound(without_punctuation(cpf));
    assert(power_of_ten(11) == 100_000_000_000) by {
        reveal_with_fuel(power_of_ten, 12);
    }
}

} // verus!
