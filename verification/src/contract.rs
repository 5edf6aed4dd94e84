//! The job's state machine: collecting inputs, gating the computation,
//! opening the aggregate and deriving the published averages.
//!
//! Every operation takes the state explicitly and either completes or fails
//! with the state untouched. Work that an outside engine performs is returned
//! as a `ZkStateChange` for the caller to carry out; the engine's completion
//! comes back as a call of the next handler.

use vstd::prelude::*;
use crate::records::{
    distinct_ids, distinct_owners, holds_id, id_in, lemma_owned_in_concat, lemma_owned_in_push,
    lemma_owned_in_remove, owned_in, owns_record, position_of, SecretInputRecord,
};
use crate::zk_compute::{ZKInput, ZkOutput};

verus! {

/// Number of confirmed inputs to wait for before the computation may start.
pub const MIN_NUM_EMPLOYEES: u32 = 3;

/// Identity of a participant: a type tag and a 160-bit identifier.
#[derive(Clone, Copy, Debug, PartialEq, Eq, Structural)]
pub struct Address {
    pub address_type: u8,
    pub identifier_high: u32,
    pub identifier_low: u128,
}

/// Phase of the job.
#[derive(Clone, Copy, Debug, PartialEq, Eq, Structural)]
pub enum JobState {
    Collecting,
    Computing,
    Declassifying,
    Completed,
}

/// Kind of a secret variable.
#[derive(Clone, Copy, Debug, PartialEq, Eq, Structural)]
pub enum SecretVarType {
    Salary,
    SumResult,
}

/// Why an operation was refused.
#[derive(Clone, Copy, Debug, PartialEq, Eq, Structural)]
pub enum ContractError {
    DuplicateContributor,
    Unauthorized,
    InvalidState { expected: JobState, actual: JobState },
    InsufficientParticipants { have: u32, need: u32 },
    UnexpectedOutputCount,
}

/// Work requested from the engine that holds the secrets.
#[derive(Debug, PartialEq, Eq)]
pub enum ZkStateChange {
    /// Run the aggregation kernel over the confirmed inputs.
    StartComputation { output_metadata: SecretVarType },
    /// Open the named variables.
    OpenVariables { variables: Vec<u32> },
    /// Nothing more will be asked.
    ContractDone,
}

/// Published average salary per category.
#[derive(Clone, Copy, Debug, PartialEq, Eq, Structural)]
pub struct SalaryAveragesPublic {
    pub male: i32,
    pub female: i32,
    pub other: i32,
}

/// Opened count of contributors per category.
#[derive(Clone, Copy, Debug, PartialEq, Eq, Structural)]
pub struct GenderCountsPublic {
    pub male: i32,
    pub female: i32,
    pub other: i32,
}

/// The opened aggregate. `salary_averages` holds the per-category sums.
#[derive(Clone, Copy, Debug, PartialEq, Eq, Structural)]
pub struct ZkOutputPublic {
    pub gender_counts: GenderCountsPublic,
    pub salary_averages: SalaryAveragesPublic,
}

/// The whole state of one job.
pub struct ContractState {
    /// Identity allowed to start the computation.
    pub administrator: Address,
    /// The averages, once the job has completed.
    pub average_salary_result: Option<SalaryAveragesPublic>,
    /// Number of confirmed inputs.
    pub num_employees: u32,
    /// Current phase.
    pub calculation_state: JobState,
    /// Submitted inputs that are not confirmed yet.
    pub pending_inputs: Vec<SecretInputRecord>,
    /// Confirmed inputs.
    pub secret_variables: Vec<SecretInputRecord>,
    /// Identifier that the next submitted input gets.
    pub next_variable_id: u32,
}

/// Quotient of `n` by a non-zero `d`, rounded towards zero.
pub open spec fn truncating_quotient(n: int, d: int) -> int {
    if n >= 0 && d > 0 {
        n / d
    } else if n < 0 && d < 0 {
        (-n) / (-d)
    } else if n < 0 {
        -((-n) / d)
    } else {
        -(n / (-d))
    }
}

/// The average that a sum and a count give: zero for an empty category,
/// else the quotient rounded towards zero.
pub open spec fn average_of(sum: int, count: int) -> int {
    if count == 0 {
        0
    } else {
        truncating_quotient(sum, count)
    }
}

/// Whether the average of `sum` and `count` fits in 32 bits. It fails for
/// one pair only.
pub open spec fn average_fits(sum: i32, count: i32) -> bool {
    !(sum == i32::MIN && count == -1)
}

/// Integer division that yields zero for a zero denominator and rounds
/// towards zero otherwise.
pub fn division_ignore_zero(nominator: i32, denominator: i32) -> (quotient: i32)
    requires
        average_fits(nominator, denominator),
    ensures
        quotient == average_of(nominator as int, denominator as int),
{
    proof {
        if denominator != 0 {
            lemma_truncating_quotient_fits(nominator, denominator);
        }
    }
    match nominator.checked_div(denominator) {
        Some(q) => q,
        None => 0,
    }
}

/// The quotient rounded towards zero fits in 32 bits for every pair but one.
proof fn lemma_truncating_quotient_fits(n: i32, d: i32)
    requires
        d != 0,
        average_fits(n, d),
    ensures
        i32::MIN <= truncating_quotient(n as int, d as int) <= i32::MAX,
{
    let a: int = if n < 0 { -n } else { n as int };
    let b: int = if d < 0 { -d } else { d as int };
    vstd::arithmetic::div_mod::lemma_div_pos_is_pos(a, b);
    vstd::arithmetic::div_mod::lemma_div_nonincreasing(a, b);
    if b >= 2 {
        vstd::arithmetic::div_mod::lemma_div_is_ordered_by_denominator(a, 2, b);
    } else {
        vstd::arithmetic::div_mod::lemma_div_basics(a);
    }
}

impl ZkOutputPublic {
    /// Whether each category's average fits in 32 bits.
    pub open spec fn averages_fit(&self) -> bool {
        &&& average_fits(self.salary_averages.male, self.gender_counts.male)
        &&& average_fits(self.salary_averages.female, self.gender_counts.female)
        &&& average_fits(self.salary_averages.other, self.gender_counts.other)
    }

    /// Whether `averages` holds, per category, the average of this
    /// aggregate's sum and count.
    pub open spec fn has_averages(&self, averages: SalaryAveragesPublic) -> bool {
        &&& averages.male == average_of(
            self.salary_averages.male as int,
            self.gender_counts.male as int,
        )
        &&& averages.female == average_of(
            self.salary_averages.female as int,
            self.gender_counts.female as int,
        )
        &&& averages.other == average_of(
            self.salary_averages.other as int,
            self.gender_counts.other as int,
        )
    }

    /// Whether each category's average fits in 32 bits.
    pub fn has_fitting_averages(&self) -> (fits: bool)
        ensures
            fits == self.averages_fit(),
    {
        !(self.salary_averages.male == i32::MIN && self.gender_counts.male == -1) && !(
        self.salary_averages.female == i32::MIN && self.gender_counts.female == -1) && !(
        self.salary_averages.other == i32::MIN && self.gender_counts.other == -1)
    }

    /// Opens a secret aggregate: every field becomes public.
    pub fn open(secret: ZkOutput) -> (opened: ZkOutputPublic)
        ensures
            opened.gender_counts.male == secret.gender_counts.male@,
            opened.gender_counts.female == secret.gender_counts.female@,
            opened.gender_counts.other == secret.gender_counts.other@,
            opened.salary_averages.male == secret.salary_averages.male@,
            opened.salary_averages.female == secret.salary_averages.female@,
            opened.salary_averages.other == secret.salary_averages.other@,
    {
        ZkOutputPublic {
            gender_counts: GenderCountsPublic {
                male: secret.gender_counts.male.declassify(),
                female: secret.gender_counts.female.declassify(),
                other: secret.gender_counts.other.declassify(),
            },
            salary_averages: SalaryAveragesPublic {
                male: secret.salary_averages.male.declassify(),
                female: secret.salary_averages.female.declassify(),
                other: secret.salary_averages.other.declassify(),
            },
        }
    }

    /// The average salary of each category.
    pub fn averages(&self) -> (averages: SalaryAveragesPublic)
        requires
            self.averages_fit(),
        ensures
            self.has_averages(averages),
    {
        SalaryAveragesPublic {
            male: division_ignore_zero(self.salary_averages.male, self.gender_counts.male),
            female: division_ignore_zero(self.salary_averages.female, self.gender_counts.female),
            other: division_ignore_zero(self.salary_averages.other, self.gender_counts.other),
        }
    }
}

impl ContractState {
    /// All records, pending ones first.
    pub open spec fn records(&self) -> Seq<SecretInputRecord> {
        self.pending_inputs@ + self.secret_variables@
    }

    /// The state's invariant: the counter counts the confirmed records, no
    /// contributor and no identifier occurs twice among all records, a result
    /// is there exactly when the job has completed, and the collecting phase
    /// was left only with enough confirmed records.
    pub open spec fn wf(&self) -> bool {
        &&& self.num_employees == self.secret_variables@.len()
        &&& self.records().len() <= self.next_variable_id
        &&& distinct_owners(self.records())
        &&& distinct_ids(self.records(), self.next_variable_id)
        &&& (self.calculation_state == JobState::Completed
            <==> self.average_salary_result is Some)
        &&& (self.calculation_state != JobState::Collecting ==> self.num_employees
            >= MIN_NUM_EMPLOYEES)
    }

    /// Whether `who` has a pending or confirmed record.
    pub open spec fn has_contributor(&self, who: Address) -> bool {
        owned_in(self.records(), who)
    }

    /// Why a submission by `sender` is refused, if it is.
    pub open spec fn add_salary_refusal(&self, sender: Address) -> Option<ContractError> {
        if self.calculation_state != JobState::Collecting {
            Some(
                ContractError::InvalidState {
                    expected: JobState::Collecting,
                    actual: self.calculation_state,
                },
            )
        } else if self.has_contributor(sender) {
            Some(ContractError::DuplicateContributor)
        } else {
            None
        }
    }

    /// Why a request by `sender` to start the computation is refused, if it
    /// is: the checks in their order.
    pub open spec fn start_refusal(&self, sender: Address) -> Option<ContractError> {
        if sender != self.administrator {
            Some(ContractError::Unauthorized)
        } else if self.calculation_state != JobState::Collecting {
            Some(
                ContractError::InvalidState {
                    expected: JobState::Collecting,
                    actual: self.calculation_state,
                },
            )
        } else if self.num_employees < MIN_NUM_EMPLOYEES {
            Some(
                ContractError::InsufficientParticipants {
                    have: self.num_employees,
                    need: MIN_NUM_EMPLOYEES,
                },
            )
        } else {
            None
        }
    }

    /// Why a completion that names `count` variables is refused in a phase
    /// other than `expected`, or with a count other than one.
    pub open spec fn completion_refusal(&self, expected: JobState, count: nat) -> Option<
        ContractError,
    > {
        if self.calculation_state != expected {
            Some(ContractError::InvalidState { expected, actual: self.calculation_state })
        } else if count != 1 {
            Some(ContractError::UnexpectedOutputCount)
        } else {
            None
        }
    }

    /// The record at position `i` of all records, pending ones first.
    fn record_at(&self, i: usize) -> (record: &SecretInputRecord)
        requires
            i < self.records().len(),
        ensures
            *record == self.records()[i as int],
    {
        if i < self.pending_inputs.len() {
            &self.pending_inputs[i]
        } else {
            &self.secret_variables[i - self.pending_inputs.len()]
        }
    }

    /// Whether the state meets its invariant. A state that was put together
    /// from stored fields is checked with this before it is used.
    pub fn is_valid(&self) -> (valid: bool)
        ensures
            valid == self.wf(),
    {
        let pending = self.pending_inputs.len();
        let confirmed = self.secret_variables.len();
        let bound = self.next_variable_id as usize;
        if pending > bound || confirmed > bound - pending {
            return false;
        }
        if confirmed != self.num_employees as usize {
            return false;
        }
        let completed = match self.calculation_state {
            JobState::Completed => true,
            _ => false,
        };
        if completed != self.average_salary_result.is_some() {
            return false;
        }
        let collecting = match self.calculation_state {
            JobState::Collecting => true,
            _ => false,
        };
        if !collecting && self.num_employees < MIN_NUM_EMPLOYEES {
            return false;
        }
        let total = pending + confirmed;
        let ghost all = self.records();
        let mut i: usize = 0;
        while i < total
            invariant
                i <= total,
                total == all.len(),
                all == self.records(),
                forall|a: int| 0 <= a < i ==> (#[trigger] all[a]).variable_id
                    < self.next_variable_id,
                forall|a: int, b: int|
                    0 <= a < i && a < b < total ==> (#[trigger] all[a]).owner != (
                    #[trigger] all[b]).owner,
                forall|a: int, b: int|
                    0 <= a < i && a < b < total ==> (#[trigger] all[a]).variable_id != (
                    #[trigger] all[b]).variable_id,
            decreases total - i,
        {
            let first = self.record_at(i);
            if first.variable_id >= self.next_variable_id {
                assert(all[i as int].variable_id >= self.next_variable_id);
                return false;
            }
            let mut j: usize = i + 1;
            while j < total
                invariant
                    i < j <= total,
                    total == all.len(),
                    all == self.records(),
                    *first == all[i as int],
                    forall|b: int| i < b < j ==> all[i as int].owner != (#[trigger] all[b]).owner,
                    forall|b: int|
                        i < b < j ==> all[i as int].variable_id != (#[trigger] all[b]).variable_id,
                decreases total - j,
            {
                let second = self.record_at(j);
                if first.owner == second.owner || first.variable_id == second.variable_id {
                    assert(all[i as int].owner == all[j as int].owner || all[i as int].variable_id
                        == all[j as int].variable_id);
                    return false;
                }
                j += 1;
            }
            i += 1;
        }
        true
    }

    /// Whether a pending record has the identifier `variable_id`.
    pub fn has_pending(&self, variable_id: u32) -> (found: bool)
        ensures
            found == id_in(self.pending_inputs@, variable_id),
    {
        holds_id(&self.pending_inputs, variable_id)
    }

    /// A new job whose administrator is `sender`.
    pub fn initialize(sender: Address) -> (state: ContractState)
        ensures
            state.wf(),
            state.administrator == sender,
            state.average_salary_result is None,
            state.num_employees == 0,
            state.calculation_state == JobState::Collecting,
            state.pending_inputs@.len() == 0,
            state.secret_variables@.len() == 0,
            state.next_variable_id == 0,
    {
        ContractState {
            administrator: sender,
            average_salary_result: None,
            num_employees: 0,
            calculation_state: JobState::Collecting,
            pending_inputs: Vec::new(),
            secret_variables: Vec::new(),
            next_variable_id: 0,
        }
    }

    /// Whether `who` has a pending or confirmed record.
    pub fn has_input_from(&self, who: Address) -> (found: bool)
        ensures
            found == self.has_contributor(who),
    {
        let pending = owns_record(&self.pending_inputs, who);
        let confirmed = owns_record(&self.secret_variables, who);
        proof {
            lemma_owned_in_concat(self.pending_inputs@, self.secret_variables@, who);
        }
        pending || confirmed
    }

    /// Accepts a secret input from `sender` as a pending record and returns
    /// its identifier. Refused outside the collecting phase, and for a
    /// contributor who already has a record.
    pub fn add_salary(&mut self, sender: Address, input: ZKInput) -> (r: Result<
        u32,
        ContractError,
    >)
        requires
            old(self).wf(),
            old(self).add_salary_refusal(sender) is None ==> old(self).next_variable_id
                < u32::MAX,
        ensures
            final(self).wf(),
            match old(self).add_salary_refusal(sender) {
                Some(e) => r == Err::<u32, ContractError>(e) && *final(self) == *old(self),
                None => {
                    &&& r == Ok::<u32, ContractError>(old(self).next_variable_id)
                    &&& final(self).pending_inputs@ == old(self).pending_inputs@.push(
                        SecretInputRecord {
                            variable_id: old(self).next_variable_id,
                            owner: sender,
                            input,
                        },
                    )
                    &&& final(self).next_variable_id == old(self).next_variable_id + 1
                    &&& final(self).secret_variables@ == old(self).secret_variables@
                    &&& final(self).administrator == old(self).administrator
                    &&& final(self).average_salary_result == old(self).average_salary_result
                    &&& final(self).num_employees == old(self).num_employees
                    &&& final(self).calculation_state == old(self).calculation_state
                    &&& forall|who: Address|
                        final(self).has_contributor(who) == (old(self).has_contributor(who) || who
                            == sender)
                },
            },
    {
        match self.calculation_state {
            JobState::Collecting => {},
            actual => {
                return Err(ContractError::InvalidState { expected: JobState::Collecting, actual });
            },
        }
        if self.has_input_from(sender) {
            return Err(ContractError::DuplicateContributor);
        }
        let variable_id = self.next_variable_id;
        let record = SecretInputRecord { variable_id, owner: sender, input };
        self.pending_inputs.push(record);
        self.next_variable_id = variable_id + 1;
        proof {
            let before = old(self).records();
            let after = self.records();
            let split = old(self).pending_inputs@.len() as int;
            assert forall|i: int| 0 <= i < after.len() implies (if i < split {
                after[i] == before[i]
            } else if i == split {
                after[i] == record
            } else {
                after[i] == before[i - 1]
            }) by {}
            assert forall|i: int| 0 <= i < before.len() implies (#[trigger] before[i]).owner
                != sender by {}
            assert(distinct_owners(after));
            assert(distinct_ids(after, self.next_variable_id));
            assert forall|who: Address|
                self.has_contributor(who) == (old(self).has_contributor(who) || who
                    == sender) by {
                lemma_owned_in_concat(old(self).pending_inputs@, old(self).secret_variables@, who);
                lemma_owned_in_concat(self.pending_inputs@, self.secret_variables@, who);
                lemma_owned_in_push(old(self).pending_inputs@, record, who);
            }
        }
        Ok(variable_id)
    }

    /// Confirms the pending record `variable_id`: it joins the confirmed
    /// records, and the counter grows by one. Refused outside the collecting
    /// phase.
    pub fn inputted_variable(&mut self, variable_id: u32) -> (r: Result<(), ContractError>)
        requires
            old(self).wf(),
            old(self).calculation_state == JobState::Collecting ==> id_in(
                old(self).pending_inputs@,
                variable_id,
            ),
        ensures
            final(self).wf(),
            final(self).administrator == old(self).administrator,
            final(self).average_salary_result == old(self).average_salary_result,
            final(self).calculation_state == old(self).calculation_state,
            final(self).next_variable_id == old(self).next_variable_id,
            forall|who: Address| final(self).has_contributor(who) == old(self).has_contributor(who),
            old(self).calculation_state != JobState::Collecting ==> r == Err::<(), ContractError>(
                ContractError::InvalidState {
                    expected: JobState::Collecting,
                    actual: old(self).calculation_state,
                },
            ) && *final(self) == *old(self),
            old(self).calculation_state == JobState::Collecting ==> r == Ok::<(), ContractError>(())
                && final(self).num_employees == old(self).num_employees + 1 && exists|k: int|
                {
                    &&& 0 <= k < old(self).pending_inputs@.len()
                    &&& (#[trigger] old(self).pending_inputs@[k]).variable_id == variable_id
                    &&& final(self).pending_inputs@ == old(self).pending_inputs@.remove(k)
                    &&& final(self).secret_variables@ == old(self).secret_variables@.push(
                        old(self).pending_inputs@[k],
                    )
                },
    {
        match self.calculation_state {
            JobState::Collecting => {},
            actual => {
                return Err(ContractError::InvalidState { expected: JobState::Collecting, actual });
            },
        }
        let k = position_of(&self.pending_inputs, variable_id);
        let record = self.pending_inputs.remove(k);
        self.secret_variables.push(record);
        self.num_employees = self.num_employees + 1;
        proof {
            let before = old(self).records();
            let after = self.records();
            let last = before.len() - 1;
            assert(old(self).pending_inputs@[k as int].variable_id == variable_id);
            assert forall|i: int| 0 <= i < after.len() implies (if i < k {
                after[i] == before[i]
            } else if i < last {
                after[i] == before[i + 1]
            } else {
                after[i] == before[k as int]
            }) by {}
            assert(distinct_owners(after));
            assert(distinct_ids(after, self.next_variable_id));
            assert forall|who: Address|
                self.has_contributor(who) == old(self).has_contributor(who) by {
                lemma_owned_in_concat(old(self).pending_inputs@, old(self).secret_variables@, who);
                lemma_owned_in_concat(self.pending_inputs@, self.secret_variables@, who);
                lemma_owned_in_remove(old(self).pending_inputs@, k as int, who);
                lemma_owned_in_push(old(self).secret_variables@, record, who);
            }
        }
        Ok(())
    }

    /// Starts the computation on behalf of `sender`: on success the job is
    /// computing and the kernel's dispatch is returned. The checks come in
    /// the order of `start_refusal`.
    pub fn compute_average_salary(&mut self, sender: Address) -> (r: Result<
        ZkStateChange,
        ContractError,
    >)
        requires
            old(self).wf(),
        ensures
            final(self).wf(),
            match old(self).start_refusal(sender) {
                Some(e) => r == Err::<ZkStateChange, ContractError>(e) && *final(self) == *old(
                    self,
                ),
                None => {
                    &&& r == Ok::<ZkStateChange, ContractError>(
                        ZkStateChange::StartComputation {
                            output_metadata: SecretVarType::SumResult,
                        },
                    )
                    &&& *final(self) == (ContractState {
                        calculation_state: JobState::Computing,
                        ..*old(self)
                    })
                },
            },
    {
        if sender != self.administrator {
            return Err(ContractError::Unauthorized);
        }
        match self.calculation_state {
            JobState::Collecting => {},
            actual => {
                return Err(ContractError::InvalidState { expected: JobState::Collecting, actual });
            },
        }
        if self.num_employees < MIN_NUM_EMPLOYEES {
            return Err(
                ContractError::InsufficientParticipants {
                    have: self.num_employees,
                    need: MIN_NUM_EMPLOYEES,
                },
            );
        }
        self.calculation_state = JobState::Computing;
        Ok(ZkStateChange::StartComputation { output_metadata: SecretVarType::SumResult })
    }

    /// Takes the kernel's completion: on success the job is declassifying
    /// and the opening of the one output variable is returned.
    pub fn sum_compute_complete(&mut self, output_variables: Vec<u32>) -> (r: Result<
        ZkStateChange,
        ContractError,
    >)
        requires
            old(self).wf(),
        ensures
            final(self).wf(),
            match old(self).completion_refusal(JobState::Computing, output_variables@.len()) {
                Some(e) => r == Err::<ZkStateChange, ContractError>(e) && *final(self) == *old(
                    self,
                ),
                None => {
                    &&& r == Ok::<ZkStateChange, ContractError>(
                        ZkStateChange::OpenVariables { variables: output_variables },
                    )
                    &&& *final(self) == (ContractState {
                        calculation_state: JobState::Declassifying,
                        ..*old(self)
                    })
                },
            },
    {
        match self.calculation_state {
            JobState::Computing => {},
            actual => {
                return Err(ContractError::InvalidState { expected: JobState::Computing, actual });
            },
        }
        if output_variables.len() != 1 {
            return Err(ContractError::UnexpectedOutputCount);
        }
        self.calculation_state = JobState::Declassifying;
        Ok(ZkStateChange::OpenVariables { variables: output_variables })
    }

    /// Takes the opened variable. An opened aggregate completes the job with
    /// its averages as the result; an opened variable of another kind changes
    /// nothing and asks for nothing.
    pub fn open_sum_variable(
        &mut self,
        opened_variables: Vec<u32>,
        metadata: SecretVarType,
        result: ZkOutputPublic,
    ) -> (r: Result<Option<ZkStateChange>, ContractError>)
        requires
            old(self).wf(),
            old(self).completion_refusal(JobState::Declassifying, opened_variables@.len())
                is None ==> result.averages_fit(),
        ensures
            final(self).wf(),
            match old(self).completion_refusal(JobState::Declassifying, opened_variables@.len()) {
                Some(e) => r == Err::<Option<ZkStateChange>, ContractError>(e) && *final(self)
                    == *old(self),
                None => match metadata {
                    SecretVarType::Salary => r == Ok::<Option<ZkStateChange>, ContractError>(None)
                        && *final(self) == *old(self),
                    SecretVarType::SumResult => {
                        &&& r == Ok::<Option<ZkStateChange>, ContractError>(
                            Some(ZkStateChange::ContractDone),
                        )
                        &&& final(self).average_salary_result matches Some(averages)
                            && result.has_averages(averages)
                        &&& final(self).calculation_state == JobState::Completed
                        &&& final(self).administrator == old(self).administrator
                        &&& final(self).num_employees == old(self).num_employees
                        &&& final(self).pending_inputs == old(self).pending_inputs
                        &&& final(self).secret_variables == old(self).secret_variables
                        &&& final(self).next_variable_id == old(self).next_variable_id
                    },
                },
            },
    {
        match self.calculation_state {
            JobState::Declassifying => {},
            actual => {
                return Err(
                    ContractError::InvalidState { expected: JobState::Declassifying, actual },
                );
            },
        }
        if opened_variables.len() != 1 {
            return Err(ContractError::UnexpectedOutputCount);
        }
        let averages = result.averages();
        match metadata {
            SecretVarType::Salary => Ok(None),
            SecretVarType::SumResult => {
                self.average_salary_result = Some(averages);
                self.calculation_state = JobState::Completed;
                Ok(Some(ZkStateChange::ContractDone))
            },
        }
    }

    /// The published averages, once the job has completed.
    pub fn get_result(&self) -> (result: Option<SalaryAveragesPublic>)
        ensures
            result == self.average_salary_result,
    {
        self.average_salary_result
    }

    /// The confirmed inputs, in the order of their confirmation: what the
    /// kernel runs over.
    pub fn confirmed_inputs(&self) -> (inputs: Vec<ZKInput>)
        ensures
            inputs@.len() == self.secret_variables@.len(),
            forall|i: int|
                0 <= i < inputs@.len() ==> inputs@[i] == (#[trigger] self.secret_variables@[i]).input,
    {
        let mut inputs: Vec<ZKInput> = Vec::new();
        let mut i: usize = 0;
        while i < self.secret_variables.len()
            invariant
                i <= self.secret_variables.len(),
                inputs@.len() == i,
                forall|j: int|
                    0 <= j < i ==> inputs@[j] == (#[trigger] self.secret_variables@[j]).input,
            decreases self.secret_variables.len() - i,
        {
            inputs.push(self.secret_variables[i].input);
            i += 1;
        }
        inputs
    }
}

/// A submission by a contributor who already has a pending or confirmed
/// record is refused: as a duplicate while the job is collecting, and for the
/// phase in every later one.
pub proof fn lemma_duplicate_is_refused(state: ContractState, sender: Address)
    requires
        state.has_contributor(sender),
    ensures
        state.add_salary_refusal(sender) is Some,
        state.calculation_state == JobState::Collecting ==> state.add_salary_refusal(sender)
            == Some(ContractError::DuplicateContributor),
{
}

/// The computation starts exactly when the administrator asks for it while
/// the job is collecting and enough inputs are confirmed.
pub proof fn lemma_start_succeeds_iff(state: ContractState, sender: Address)
    ensures
        state.start_refusal(sender) is None <==> (sender == state.administrator
            && state.calculation_state == JobState::Collecting && state.num_employees
            >= MIN_NUM_EMPLOYEES),
{
}

/// A completed job accepts no submission, and no start by its administrator:
/// both are refused for the phase.
pub proof fn lemma_completed_is_terminal(state: ContractState, sender: Address)
    requires
        state.calculation_state == JobState::Completed,
    ensures
        state.add_salary_refusal(sender) == Some(
            ContractError::InvalidState {
                expected: JobState::Collecting,
                actual: JobState::Completed,
            },
        ),
        state.start_refusal(state.administrator) == Some(
            ContractError::InvalidState {
                expected: JobState::Collecting,
                actual: JobState::Completed,
            },
        ),
        state.start_refusal(sender) is Some,
        forall|count: nat, expected: JobState|
            expected != JobState::Completed ==> state.completion_refusal(expected, count)
                == Some(
                ContractError::InvalidState { expected, actual: JobState::Completed },
            ),
{
}

/// An empty category has the average zero.
pub proof fn lemma_average_of_empty(sum: int)
    ensures
        average_of(sum, 0) == 0,
{
}

/// The quotient rounded towards zero leaves a remainder that is smaller in
/// magnitude than the divisor and has the sign of the dividend.
pub proof fn lemma_truncating_quotient_remainder(n: int, d: int)
    requires
        d != 0,
    ensures
        ({
            let r = n - truncating_quotient(n, d) * d;
            &&& if d > 0 { -d < r < d } else { d < r < -d }
            &&& n >= 0 ==> r >= 0
            &&& n <= 0 ==> r <= 0
        }),
{
    let a: int = if n < 0 { -n } else { n };
    let b: int = if d < 0 { -d } else { d };
    vstd::arithmetic::div_mod::lemma_fundamental_div_mod(a, b);
    vstd::arithmetic::div_mod::lemma_mod_bound(a, b);
    let q = a / b;
    assert(a == b * q + a % b);
    assert((-q) * d == -(q * d)) by (nonlinear_arith);
    assert(q * (-d) == -(q * d)) by (nonlinear_arith);
    assert(b * q == q * b) by (nonlinear_arith);
}

} // verus!
