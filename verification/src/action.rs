//! What an accepted operation asks of the runtime. Accounts are named by
//! their position in the list that the call supplied.

use crate::error::QuizError;
use crate::state::{Account, Address};
use vstd::prelude::*;

verus! {

/// One step for the runtime to carry out.
#[derive(Clone, Debug, PartialEq, Eq)]
pub enum Action {
    /// Create the record at account `record`, `space` bytes long and owned by
    /// this program, funded by account `payer`; the record signs with `seeds`.
    CreateRecord {
        payer: usize,
        record: usize,
        system_program: usize,
        space: usize,
        seeds: Vec<Vec<u8>>,
    },
    /// Overwrite the first bytes of the data of account `record` with `data`.
    WriteRecord { record: usize, data: Vec<u8> },
    /// Hand the record at account `record`, which is derived from `seeds`, to
    /// the execution venue, funded by account `payer`. The venue keeps its
    /// books in the accounts `buffer`, `delegation_record` and
    /// `delegation_metadata`, and writes the record back every
    /// `commit_frequency_ms` milliseconds.
    Delegate {
        payer: usize,
        record: usize,
        owner_program: usize,
        buffer: usize,
        delegation_record: usize,
        delegation_metadata: usize,
        delegation_program: usize,
        system_program: usize,
        seeds: Vec<Vec<u8>>,
        commit_frequency_ms: u32,
        validator: Option<Address>,
    },
    /// Ask the venue to write all delegated state back to the durable store.
    CommitAll { magic_program: usize, magic_context: usize },
    /// Ask the venue to release the record at account `record`, which is
    /// derived from `seeds`.
    Undelegate {
        record: usize,
        buffer: usize,
        payer: usize,
        system_program: usize,
        seeds: Vec<Vec<u8>>,
    },
}

/// A step as a mathematical value: positions as integers, bytes as sequences.
pub enum ActionView {
    CreateRecord {
        payer: int,
        record: int,
        system_program: int,
        space: nat,
        seeds: Seq<Seq<u8>>,
    },
    WriteRecord { record: int, data: Seq<u8> },
    Delegate {
        payer: int,
        record: int,
        owner_program: int,
        buffer: int,
        delegation_record: int,
        delegation_metadata: int,
        delegation_program: int,
        system_program: int,
        seeds: Seq<Seq<u8>>,
        commit_frequency_ms: u32,
        validator: Option<Seq<u8>>,
    },
    CommitAll { magic_program: int, magic_context: int },
    Undelegate { record: int, buffer: int, payer: int, system_program: int, seeds: Seq<Seq<u8>> },
}

/// The bytes of each seed.
pub open spec fn seeds_view(seeds: Seq<Vec<u8>>) -> Seq<Seq<u8>> {
    Seq::new(seeds.len(), |i: int| seeds[i]@)
}

impl View for Action {
    type V = ActionView;

    open spec fn view(&self) -> ActionView {
        match *self {
            Action::CreateRecord { payer, record, system_program, space, seeds } => {
                ActionView::CreateRecord {
                    payer: payer as int,
                    record: record as int,
                    system_program: system_program as int,
                    space: space as nat,
                    seeds: seeds_view(seeds@),
                }
            },
            Action::WriteRecord { record, data } => ActionView::WriteRecord {
                record: record as int,
                data: data@,
            },
            Action::Delegate {
                payer,
                record,
                owner_program,
                buffer,
                delegation_record,
                delegation_metadata,
                delegation_program,
                system_program,
                seeds,
                commit_frequency_ms,
                validator,
            } => {
                ActionView::Delegate {
                    payer: payer as int,
                    record: record as int,
                    owner_program: owner_program as int,
                    buffer: buffer as int,
                    delegation_record: delegation_record as int,
                    delegation_metadata: delegation_metadata as int,
                    delegation_program: delegation_program as int,
                    system_program: system_program as int,
                    seeds: seeds_view(seeds@),
                    commit_frequency_ms,
                    validator: match validator {
                        Some(a) => Some(a@),
                        None => None,
                    },
                }
            },
            Action::CommitAll { magic_program, magic_context } => ActionView::CommitAll {
                magic_program: magic_program as int,
                magic_context: magic_context as int,
            },
            Action::Undelegate { record, buffer, payer, system_program, seeds } => {
                ActionView::Undelegate {
                    record: record as int,
                    buffer: buffer as int,
                    payer: payer as int,
                    system_program: system_program as int,
                    seeds: seeds_view(seeds@),
                }
            },
        }
    }
}

/// The steps of a plan, in order.
pub open spec fn plan_view(plan: Seq<Action>) -> Seq<ActionView> {
    Seq::new(plan.len(), |i: int| plan[i]@)
}

/// The data of a record after `data` was written over its first bytes.
pub open spec fn overwritten(record: Seq<u8>, data: Seq<u8>) -> Seq<u8> {
    data + record.skip(data.len() as int)
}

/// A fresh record of `space` bytes.
pub open spec fn blank(space: nat) -> Seq<u8> {
    Seq::new(space, |i: int| 0u8)
}

/// The data of each account after one step. The venue's steps change no
/// data on this side.
pub open spec fn after_step(store: Seq<Seq<u8>>, step: ActionView) -> Seq<Seq<u8>> {
    match step {
        ActionView::CreateRecord { record, space, .. } => if 0 <= record < store.len() {
            store.update(record, blank(space))
        } else {
            store
        },
        ActionView::WriteRecord { record, data } => if 0 <= record < store.len() {
            store.update(record, overwritten(store[record], data))
        } else {
            store
        },
        _ => store,
    }
}

/// The data of each account after the steps of a plan, carried out in order.
pub open spec fn after_plan(store: Seq<Seq<u8>>, plan: Seq<ActionView>) -> Seq<Seq<u8>>
    decreases plan.len(),
{
    if plan.len() == 0 {
        store
    } else {
        after_plan(after_step(store, plan[0]), plan.drop_first())
    }
}

/// The data that each account holds.
pub open spec fn store_of(accounts: Seq<Account>) -> Seq<Seq<u8>> {
    Seq::new(accounts.len(), |i: int| accounts[i].data@)
}

/// The data of each account after an operation answered: after its plan
/// where it was accepted, unchanged where it was refused.
pub open spec fn after_outcome(
    store: Seq<Seq<u8>>,
    outcome: Result<Seq<ActionView>, QuizError>,
) -> Seq<Seq<u8>> {
    match outcome {
        Ok(plan) => after_plan(store, plan),
        Err(_) => store,
    }
}

} // verus!
