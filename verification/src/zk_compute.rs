//! The aggregation kernel: per-category sums and counts over secret inputs.
//!
//! The kernel performs the same operations for every input, whatever the
//! input holds: one equality test and two conditional accumulations per
//! category. No control flow and no memory access depends on a secret.

use vstd::prelude::*;
use crate::secret::{Sbi32, Sbi8, wrap32, lemma_wrap32_absorbs, lemma_wrap32_in_range};

verus! {

/// Code of the category `Male` in a secret input.
pub const MALE: i8 = 1;

/// Code of the category `Female` in a secret input.
pub const FEMALE: i8 = 2;

/// Code of the category `Other` in a secret input.
pub const OTHER: i8 = 3;

/// The closed set of categories that inputs are partitioned by.
#[derive(Clone, Copy, Debug, PartialEq, Eq, Structural)]
pub enum Category {
    Male,
    Female,
    Other,
}

impl Category {
    /// The code that stands for this category inside a secret input.
    pub open spec fn spec_code(self) -> i8 {
        match self {
            Category::Male => MALE,
            Category::Female => FEMALE,
            Category::Other => OTHER,
        }
    }

    /// The code that stands for this category inside a secret input.
    pub fn code(self) -> (c: i8)
        ensures
            c == self.spec_code(),
    {
        match self {
            Category::Male => MALE,
            Category::Female => FEMALE,
            Category::Other => OTHER,
        }
    }
}

/// One contributor's secret input.
#[derive(Clone, Copy)]
pub struct ZKInput {
    pub salary: Sbi32,
    pub gender_choice: Sbi8,
}

/// Secret per-category sums of salaries.
#[derive(Clone, Copy)]
pub struct SalaryAverages {
    pub male: Sbi32,
    pub female: Sbi32,
    pub other: Sbi32,
}

/// Secret per-category counts of contributors.
#[derive(Clone, Copy)]
pub struct GenderCounts {
    pub male: Sbi32,
    pub female: Sbi32,
    pub other: Sbi32,
}

/// The secret aggregate that the kernel produces.
#[derive(Clone, Copy)]
pub struct ZkOutput {
    pub gender_counts: GenderCounts,
    pub salary_averages: SalaryAverages,
}

impl ZKInput {
    /// Shares a salary and a category as one secret input.
    pub fn new(salary: i32, category: Category) -> (input: ZKInput)
        ensures
            input.salary@ == salary,
            input.gender_choice@ == category.spec_code(),
            has_category(input),
    {
        ZKInput { salary: Sbi32::from(salary), gender_choice: Sbi8::from(category.code()) }
    }
}

/// Whether the input's category is one of the three.
pub open spec fn has_category(input: ZKInput) -> bool {
    MALE <= input.gender_choice@ <= OTHER
}

/// What `input` adds to the salary sum of the category with code `code`.
pub open spec fn salary_in(input: ZKInput, code: i8) -> int {
    if input.gender_choice@ == code {
        input.salary@ as int
    } else {
        0
    }
}

/// What `input` adds to the count of the category with code `code`.
pub open spec fn count_in(input: ZKInput, code: i8) -> int {
    if input.gender_choice@ == code {
        1
    } else {
        0
    }
}

/// Sum of the salaries of the inputs in the category with code `code`.
pub open spec fn category_sum(inputs: Seq<ZKInput>, code: i8) -> int
    decreases inputs.len(),
{
    if inputs.len() == 0 {
        0
    } else {
        category_sum(inputs.drop_last(), code) + salary_in(inputs.last(), code)
    }
}

/// Number of inputs in the category with code `code`.
pub open spec fn category_count(inputs: Seq<ZKInput>, code: i8) -> int
    decreases inputs.len(),
{
    if inputs.len() == 0 {
        0
    } else {
        category_count(inputs.drop_last(), code) + count_in(inputs.last(), code)
    }
}

/// Sum of all salaries.
pub open spec fn total_salary(inputs: Seq<ZKInput>) -> int
    decreases inputs.len(),
{
    if inputs.len() == 0 {
        0
    } else {
        total_salary(inputs.drop_last()) + inputs.last().salary@
    }
}

/// Folds one input into the running sum and count of one category. The
/// equality test is secret, and both additions happen whatever it yields.
fn accumulate(sum: Sbi32, count: Sbi32, input: &ZKInput, code: i8) -> (next: (Sbi32, Sbi32))
    ensures
        next.0@ == wrap32(sum@ + salary_in(*input, code)),
        next.1@ == wrap32(count@ + count_in(*input, code)),
{
    let test = input.gender_choice.equals(&Sbi8::from(code));
    let salary = Sbi32::select(test, input.salary, Sbi32::from(0));
    let unit = Sbi32::select(test, Sbi32::from(1), Sbi32::from(0));
    (sum.wrapping_add(salary), count.wrapping_add(unit))
}

/// Sums salaries and counts contributors per category over all `inputs`.
///
/// Each field of the result is the mathematical sum or count of its
/// category, reduced to 32-bit two's complement. An input whose category
/// code is none of the three is counted nowhere.
pub fn sum_everything(inputs: &Vec<ZKInput>) -> (out: ZkOutput)
    ensures
        out.salary_averages.male@ == wrap32(category_sum(inputs@, MALE)),
        out.salary_averages.female@ == wrap32(category_sum(inputs@, FEMALE)),
        out.salary_averages.other@ == wrap32(category_sum(inputs@, OTHER)),
        out.gender_counts.male@ == wrap32(category_count(inputs@, MALE)),
        out.gender_counts.female@ == wrap32(category_count(inputs@, FEMALE)),
        out.gender_counts.other@ == wrap32(category_count(inputs@, OTHER)),
{
    let zero = Sbi32::from(0);
    let mut male = (zero, zero);
    let mut female = (zero, zero);
    let mut other = (zero, zero);
    proof {
        lemma_wrap32_in_range(0);
    }
    let mut i: usize = 0;
    while i < inputs.len()
        invariant
            i <= inputs.len(),
            male.0@ == wrap32(category_sum(inputs@.take(i as int), MALE)),
            female.0@ == wrap32(category_sum(inputs@.take(i as int), FEMALE)),
            other.0@ == wrap32(category_sum(inputs@.take(i as int), OTHER)),
            male.1@ == wrap32(category_count(inputs@.take(i as int), MALE)),
            female.1@ == wrap32(category_count(inputs@.take(i as int), FEMALE)),
            other.1@ == wrap32(category_count(inputs@.take(i as int), OTHER)),
        decreases inputs.len() - i,
    {
        let input = &inputs[i];
        proof {
            let before = inputs@.take(i as int);
            assert(inputs@.take(i + 1).drop_last() =~= before);
            lemma_wrap32_absorbs(category_sum(before, MALE), salary_in(*input, MALE));
            lemma_wrap32_absorbs(category_sum(before, FEMALE), salary_in(*input, FEMALE));
            lemma_wrap32_absorbs(category_sum(before, OTHER), salary_in(*input, OTHER));
            lemma_wrap32_absorbs(category_count(before, MALE), count_in(*input, MALE));
            lemma_wrap32_absorbs(category_count(before, FEMALE), count_in(*input, FEMALE));
            lemma_wrap32_absorbs(category_count(before, OTHER), count_in(*input, OTHER));
        }
        male = accumulate(male.0, male.1, input, MALE);
        female = accumulate(female.0, female.1, input, FEMALE);
        other = accumulate(other.0, other.1, input, OTHER);
        i += 1;
    }
    proof {
        assert(inputs@.take(inputs.len() as int) =~= inputs@);
    }
    ZkOutput {
        gender_counts: GenderCounts { male: male.1, female: female.1, other: other.1 },
        salary_averages: SalaryAverages { male: male.0, female: female.0, other: other.0 },
    }
}

/// The counts of the three categories add up to the number of inputs, and
/// their salary sums to the sum of all salaries, whenever every input's
/// category is one of the three.
pub proof fn lemma_categories_partition(inputs: Seq<ZKInput>)
    requires
        forall|i: int| 0 <= i < inputs.len() ==> has_category(#[trigger] inputs[i]),
    ensures
        category_count(inputs, MALE) + category_count(inputs, FEMALE) + category_count(
            inputs,
            OTHER,
        ) == inputs.len(),
        category_sum(inputs, MALE) + category_sum(inputs, FEMALE) + category_sum(inputs, OTHER)
            == total_salary(inputs),
    decreases inputs.len(),
{
    if inputs.len() > 0 {
        assert(has_category(inputs[inputs.len() - 1]));
        lemma_categories_partition(inputs.drop_last());
    }
}

/// A category's count lies between zero and the number of inputs.
pub proof fn lemma_category_count_bounds(inputs: Seq<ZKInput>, code: i8)
    ensures
        0 <= category_count(inputs, code) <= inputs.len(),
    decreases inputs.len(),
{
    if inputs.len() > 0 {
        lemma_category_count_bounds(inputs.drop_last(), code);
    }
}

/// With no more inputs than an `i32` can count, the 32-bit count of every
/// category is the true one.
pub proof fn lemma_counts_are_exact(inputs: Seq<ZKInput>, code: i8)
    requires
        inputs.len() <= i32::MAX,
    ensures
        wrap32(category_count(inputs, code)) == category_count(inputs, code),
{
    lemma_category_count_bounds(inputs, code);
    lemma_wrap32_in_range(category_count(inputs, code));
}

} // verus!
