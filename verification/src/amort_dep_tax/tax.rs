use crate::scalar::{max_v, min_v, mul_v, sub_v, views_pairs, Scalar, MANTISSA_LIMIT};
use vstd::prelude::*;

verus! {

/// Whether the bracket ceilings of a rate table are in ascending order.
pub open spec fn brackets_sorted(table: Seq<(int, int)>) -> bool {
    forall|j: int| 0 <= j < table.len() - 1 ==> (#[trigger] table[j]).0 <= table[j + 1].0
}

/// The tax accumulated from bracket `i` on: each bracket taxes the part of
/// the taxable income between the previous ceiling and its own, at its own
/// rate, and the walk stops at the first bracket at or above the income.
pub open spec fn tax_rec(taxable: int, table: Seq<(int, int)>, i: int, prev_bracket: int, total: int) -> int
    decreases table.len() - i,
{
    if i < 0 || i >= table.len() {
        total
    } else if taxable <= prev_bracket {
        total
    } else {
        tax_rec(
            taxable,
            table,
            i + 1,
            table[i].0,
            add_total(total, taxable, table[i].0, table[i].1, prev_bracket),
        )
    }
}

/// One bracket's contribution added to the running total.
pub open spec fn add_total(total: int, taxable: int, bracket: int, rate: int, prev_bracket: int) -> int {
    crate::scalar::add_v(total, mul_v(max_v(sub_v(min_v(taxable, bracket), prev_bracket), 0), rate))
}

/// The tax owed on `agi` after `deductions` under a progressive rate
/// table; income at or below the deductions owes nothing.
pub open spec fn progressive_tax_unchecked_v(agi: int, deductions: int, table: Seq<(int, int)>) -> int {
    if agi <= deductions {
        0
    } else {
        tax_rec(sub_v(agi, deductions), table, 0, 0, 0)
    }
}

/// Progressive income tax over a rate table of `(bracket ceiling, rate)`
/// pairs whose last ceiling must be the largest representable value.
///
/// Returns `Some` with the tax owed exactly when the table's ceilings are
/// ascending and the final ceiling is the maximum value; any other table
/// is rejected with `None`.
pub fn progressive_tax(agi: Scalar, deductions: Scalar, rate_table: &Vec<(Scalar, Scalar)>) -> (r:
    Option<Scalar>)
    requires
        rate_table@.len() > 0,
    ensures
        ({
            let table = views_pairs(rate_table@);
            &&& (r is Some <==> brackets_sorted(table) && table[table.len() - 1].0
                == MANTISSA_LIMIT as int)
            &&& (match r {
                Some(v) => v@ == progressive_tax_unchecked_v(agi@, deductions@, table),
                None => true,
            })
        }),
{
    let ghost table = views_pairs(rate_table@);
    let n = rate_table.len();
    let mut j: usize = 0;
    while j < n - 1
        invariant
            n == rate_table@.len(),
            n >= 1,
            j <= n - 1,
            table == views_pairs(rate_table@),
            forall|k: int| 0 <= k < j ==> (#[trigger] table[k]).0 <= table[k + 1].0,
        decreases rate_table@.len() - j,
    {
        proof {
            assert(table[j as int] == (rate_table@[j as int].0@, rate_table@[j as int].1@));
            assert(table[j + 1] == (rate_table@[j + 1].0@, rate_table@[j + 1].1@));
        }
        if rate_table[j].0.gt(&rate_table[j + 1].0) {
            proof {
                assert(!brackets_sorted(table)) by {
                    if brackets_sorted(table) {
                        assert(table[j as int].0 <= table[j + 1].0);
                    }
                }
            }
            return None;
        }
        j = j + 1;
    }
    let last_idx = n - 1;
    let maxv = Scalar::max_value();
    proof {
        assert(table[last_idx as int] == (
            rate_table@[last_idx as int].0@,
            rate_table@[last_idx as int].1@,
        ));
        crate::scalar::lemma_view_injective(rate_table@[last_idx as int].0, maxv);
    }
    if !(rate_table[last_idx].0 == maxv) {
        return None;
    }
    Some(progressive_tax_unchecked(agi, deductions, rate_table))
}

/// Progressive income tax without validating the rate table: walks the
/// brackets in order, taxing each slice of the taxable income at its
/// bracket's rate, and stops at the first ceiling at or above the income.
pub fn progressive_tax_unchecked(
    agi: Scalar,
    deductions: Scalar,
    rate_table: &Vec<(Scalar, Scalar)>,
) -> (r: Scalar)
    ensures
        r@ == progressive_tax_unchecked_v(agi@, deductions@, views_pairs(rate_table@)),
{
    let ghost table = views_pairs(rate_table@);
    if agi.le(&deductions) {
        return Scalar::zero();
    }
    let taxable_income = agi.sub(deductions);
    let mut prev_bracket = Scalar::zero();
    let mut total_tax = Scalar::zero();
    let mut i: usize = 0;
    while i < rate_table.len() && prev_bracket.lt(&taxable_income)
        invariant
            i <= rate_table@.len(),
            table == views_pairs(rate_table@),
            taxable_income@ == sub_v(agi@, deductions@),
            tax_rec(taxable_income@, table, i as int, prev_bracket@, total_tax@) == tax_rec(
                taxable_income@,
                table,
                0,
                0,
                0,
            ),
        decreases rate_table@.len() - i,
    {
        proof {
            assert(table[i as int] == (rate_table@[i as int].0@, rate_table@[i as int].1@));
        }
        let (bracket, rate) = rate_table[i];
        let taxable_in_bracket = taxable_income.min(bracket).sub(prev_bracket).max(Scalar::zero());
        total_tax = total_tax.add(taxable_in_bracket.mul(rate));
        prev_bracket = bracket;
        i = i + 1;
    }
    total_tax
}

} // verus!
