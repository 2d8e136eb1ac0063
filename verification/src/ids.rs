//! Identifiers: what a source of identifiers promises, and a source that
//! counts.

use vstd::prelude::*;
use vstd::string::StringExecFns;
use crate::text::{decimal, digit, digit_str};

verus! {

/// A set of identifiers.
pub type IdSet = Set<Seq<char>>;

/// A source of identifiers that never hands out the same one twice.
pub trait IdGenerator {
    /// Every identifier handed out so far.
    spec fn issued(&self) -> IdSet;

    /// An identifier that was not handed out before.
    fn generate_id(&mut self) -> (id: String)
        ensures
            !old(self).issued().contains(id@),
            final(self).issued() == old(self).issued().insert(id@),
    ;
}

/// The characters that stand for a run of digit values.
pub open spec fn digits_text(digits: Seq<u8>) -> Seq<char> {
    digits.map_values(|d: u8| digit(d as nat))
}

/// Every value of `digits` is below ten.
pub open spec fn all_digits(digits: Seq<u8>) -> bool {
    forall|i: int| 0 <= i < digits.len() ==> #[trigger] digits[i] < 10
}

/// Two values below ten that are written alike are the same.
proof fn lemma_digit_injective(a: nat, b: nat)
    requires
        a < 10,
        b < 10,
        digit(a) == digit(b),
    ensures
        a == b,
{
}

/// A number is written with at least one character, and with exactly one
/// when it is below ten.
proof fn lemma_decimal_len(value: nat)
    ensures
        decimal(value).len() >= 1,
        value < 10 <==> decimal(value).len() == 1,
    decreases value,
{
    if value >= 10 {
        lemma_decimal_len(value / 10);
    }
}

/// Two numbers that are written alike are the same.
pub proof fn lemma_decimal_injective(a: nat, b: nat)
    requires
        decimal(a) == decimal(b),
    ensures
        a == b,
    decreases a,
{
    lemma_decimal_len(a);
    lemma_decimal_len(b);
    if a < 10 {
        assert(decimal(b)[0] == digit(b));
        lemma_digit_injective(a, b);
    } else {
        let front_a = decimal(a / 10);
        let front_b = decimal(b / 10);
        assert(decimal(b).last() == digit(b % 10));
        lemma_digit_injective(a % 10, b % 10);
        assert(front_a =~= decimal(a).drop_last());
        assert(front_b =~= decimal(b).drop_last());
        lemma_decimal_injective(a / 10, b / 10);
    }
}

/// The text of a run of digits.
fn render(digits: &Vec<u8>) -> (text: String)
    requires
        all_digits(digits@),
    ensures
        text@ == digits_text(digits@),
{
    let mut text = String::new();
    let mut i: usize = 0;
    while i < digits.len()
        invariant
            i <= digits.len(),
            all_digits(digits@),
            text@ == digits_text(digits@.take(i as int)),
        decreases digits.len() - i,
    {
        text.append(digit_str(digits[i]));
        assert(digits_text(digits@.take(i + 1)) =~= digits_text(digits@.take(i as int)) + seq![
            digit(digits[i as int] as nat),
        ]);
        i += 1;
    }
    text
}

/// Turns the digits of a number into those of the next.
fn advance(digits: &mut Vec<u8>, Ghost(value): Ghost<nat>)
    requires
        all_digits(old(digits)@),
        digits_text(old(digits)@) == decimal(value),
    ensures
        all_digits(final(digits)@),
        digits_text(final(digits)@) == decimal(value + 1),
    decreases old(digits).len(),
{
    proof {
        lemma_decimal_len(value);
    }
    let ghost before = digits@;
    let last = digits.pop().unwrap();
    proof {
        assert(digits_text(before).last() == digit(last as nat));
        lemma_digit_injective(last as nat, value % 10);
        assert(digits_text(digits@) =~= digits_text(before).drop_last());
        if value >= 10 {
            assert(decimal(value).drop_last() =~= decimal(value / 10));
        }
    }
    if last < 9 {
        digits.push(last + 1);
        proof {
            assert(digits_text(digits@) =~= digits_text(before).drop_last().push(
                digit((last + 1) as nat),
            ));
        }
    } else {
        if digits.len() == 0 {
            digits.push(1);
            proof {
                assert(digits_text(digits@) =~= decimal(1));
            }
        } else {
            proof {
                lemma_decimal_len(value / 10);
            }
            advance(digits, Ghost(value / 10));
        }
        digits.push(0);
    }
}

/// A source of identifiers that counts from zero and hands out each number,
/// written in base ten.
pub struct SequentialIds {
    digits: Vec<u8>,
    count: Ghost<nat>,
}

impl SequentialIds {
    #[verifier::type_invariant]
    spec fn digits_write_count(self) -> bool {
        &&& all_digits(self.digits@)
        &&& digits_text(self.digits@) == decimal(self.count@)
    }

    /// How many identifiers were handed out.
    pub closed spec fn count(&self) -> nat {
        self.count@
    }

    /// A source that has handed out nothing.
    pub fn new() -> (ids: Self)
        ensures
            ids.count() == 0,
            ids.issued() == Set::<Seq<char>>::empty(),
    {
        let mut digits: Vec<u8> = Vec::new();
        digits.push(0);
        assert(digits_text(digits@) =~= decimal(0));
        let ids = SequentialIds { digits, count: Ghost(0) };
        ids
    }
}

impl IdGenerator for SequentialIds {
    closed spec fn issued(&self) -> IdSet {
        Set::new(|id: Seq<char>| exists|n: nat| n < self.count@ && id == #[trigger] decimal(n))
    }

    fn generate_id(&mut self) -> (id: String)
        ensures
            id@ == decimal(old(self).count()),
            final(self).count() == old(self).count() + 1,
    {
        proof {
            use_type_invariant(&*self);
        }
        let ghost count = self.count@;
        let id = render(&self.digits);
        let mut digits = self.digits.clone();
        advance(&mut digits, Ghost(count));
        *self = SequentialIds { digits, count: Ghost(count + 1) };
        proof {
            assert forall|n: nat| n < count implies decimal(n) != id@ by {
                if decimal(n) == decimal(count) {
                    lemma_decimal_injective(n, count);
                }
            }
        }
        id
    }
}

} // verus!
