use std::borrow::Cow;
use std::sync::Arc;

use agave_feature_set::FeatureSet;
use seashell::account::Account;
use seashell::accounts_db::{AccountsDb, Builtin, ProgramRecord};
use seashell::instruction::{AccountMeta, Instruction};
use seashell::pubkey::{Pubkey, SYSTEM_PROGRAM_ID};
use seashell::{Config, ExecutionOutcome, PreparedInstruction, Seashell};
use solana_account::{AccountSharedData, ReadableAccount};
use solana_compute_budget::compute_budget::ComputeBudget;
use solana_program_runtime::invoke_context::{EnvironmentConfig, InvokeContext};
use solana_program_runtime::loaded_programs::{
    ProgramCacheEntry, ProgramCacheForTxBatch, ProgramRuntimeEnvironments,
};
use solana_program_runtime::sysvar_cache::SysvarCache;
use solana_svm_callback::InvokeContextCallback;
use solana_svm_timings::ExecuteTimings;
use solana_transaction_context::TransactionContext;

struct Precompiles<'a> {
    features: &'a FeatureSet,
}

impl InvokeContextCallback for Precompiles<'_> {
    fn is_precompile(&self, program_id: &solana_pubkey::Pubkey) -> bool {
        agave_precompiles::is_precompile(program_id, |feature| self.features.is_active(feature))
    }

    fn process_precompile(
        &self,
        program_id: &solana_pubkey::Pubkey,
        data: &[u8],
        instruction_datas: Vec<&[u8]>,
    ) -> Result<(), solana_precompile_error::PrecompileError> {
        match agave_precompiles::get_precompile(program_id, |feature| {
            self.features.is_active(feature)
        }) {
            Some(precompile) => precompile.verify(data, &instruction_datas, self.features),
            None => Err(solana_precompile_error::PrecompileError::InvalidPublicKey),
        }
    }
}

fn outside_key(key: &Pubkey) -> solana_pubkey::Pubkey {
    solana_pubkey::Pubkey::new_from_array(key.bytes)
}

fn inside_key(key: &solana_pubkey::Pubkey) -> Pubkey {
    Pubkey::new_from_array(key.to_bytes())
}

fn outside_account(account: &Account) -> AccountSharedData {
    AccountSharedData::from(solana_account::Account {
        lamports: account.lamports,
        data: account.data.clone(),
        owner: outside_key(&account.owner),
        executable: account.executable,
        rent_epoch: account.rent_epoch,
    })
}

fn inside_account(account: &AccountSharedData) -> Account {
    Account {
        lamports: account.lamports(),
        data: account.data().to_vec(),
        owner: inside_key(account.owner()),
        executable: account.executable(),
        rent_epoch: account.rent_epoch(),
    }
}

fn builtins() -> Vec<Builtin> {
    solana_builtins::BUILTINS
        .iter()
        .map(|builtin| Builtin {
            program_id: inside_key(&builtin.program_id),
            name_len: builtin.name.len(),
            enable_feature_id: builtin.enable_feature_id.as_ref().map(inside_key),
        })
        .collect()
}

fn programs(recorded: &[ProgramRecord]) -> ProgramCacheForTxBatch {
    let mut cache = ProgramCacheForTxBatch::default();
    for record in recorded {
        if let ProgramRecord::Builtin { program_id, name_len } = record {
            let id = outside_key(program_id);
            let builtin = solana_builtins::BUILTINS.iter().find(|b| b.program_id == id).unwrap();
            let entry = ProgramCacheEntry::new_builtin(0, *name_len, builtin.entrypoint);
            cache.replenish(id, Arc::new(entry));
        }
    }
    cache
}

#[allow(deprecated)]
fn execute(store: &AccountsDb, prepared: &PreparedInstruction) -> ExecutionOutcome {
    let features = FeatureSet::all_enabled();
    let budget = ComputeBudget::new_with_defaults(false, false);
    let mut cache = programs(&store.programs);

    let mut sysvar_cache = SysvarCache::default();
    sysvar_cache.fill_missing_entries(|sysvar, set_sysvar| {
        let data =
            store.sysvar_data_for_instruction(&prepared.transaction_accounts, &inside_key(sysvar));
        set_sysvar(&data);
    });

    let rent = solana_rent::Rent {
        lamports_per_byte_year: prepared.rent.lamports_per_byte_year,
        exemption_threshold: f64::from_bits(prepared.rent.exemption_threshold_bits),
        burn_percent: prepared.rent.burn_percent,
    };
    let mut context = TransactionContext::new(
        prepared
            .transaction_accounts
            .iter()
            .map(|(key, account)| (outside_key(key), outside_account(account)))
            .collect(),
        rent,
        budget.max_instruction_stack_depth,
        budget.max_instruction_trace_length,
    );
    context
        .configure_next_instruction(
            prepared.program_id_index,
            prepared
                .instruction_accounts
                .iter()
                .map(|entry| {
                    solana_transaction_context::InstructionAccount::new(
                        entry.index_in_transaction,
                        entry.is_signer(),
                        entry.is_writable(),
                    )
                })
                .collect(),
            prepared.dedup_map.clone(),
            Cow::Borrowed(prepared.instruction_data.as_slice()),
        )
        .unwrap();

    let runtime_features = features.runtime_features();
    let environments = ProgramRuntimeEnvironments::default();
    let callback = Precompiles { features: &features };
    let program_id = outside_key(&prepared.program_id);
    let mut compute_units_consumed = 0;
    let result = {
        let mut invoke_context = InvokeContext::new(
            &mut context,
            &mut cache,
            EnvironmentConfig::new(
                solana_hash::Hash::default(),
                5000,
                &callback,
                &runtime_features,
                &environments,
                &environments,
                &sysvar_cache,
            ),
            None,
            budget.to_budget(),
            budget.to_cost(),
        );
        if invoke_context.is_precompile(&program_id) {
            invoke_context.process_precompile(
                &program_id,
                &prepared.instruction_data,
                std::iter::once(prepared.instruction_data.as_slice()),
            )
        } else {
            invoke_context
                .process_instruction(&mut compute_units_consumed, &mut ExecuteTimings::default())
        }
    };
    let return_data = context.get_return_data().1.to_owned();
    let accounts = context.deconstruct_without_keys().unwrap().iter().map(inside_account).collect();
    ExecutionOutcome { compute_units_consumed, return_data, result, accounts }
}

fn process(seashell: &mut Seashell, ixn: Instruction) -> seashell::InstructionProcessingResult {
    let prepared = seashell.prepare_instruction(&ixn).unwrap();
    let outcome = execute(&seashell.accounts_db, &prepared);
    seashell.finish_instruction(&prepared.transaction_accounts, outcome).unwrap()
}

fn new_seashell(config: Config) -> Seashell {
    let features = seashell::feature_set::FeatureSet::new(
        FeatureSet::all_enabled().active().keys().map(inside_key).collect(),
    );
    Seashell::new_with_config(config, &builtins(), features).unwrap()
}

fn key(n: u8) -> Pubkey {
    let mut bytes = [n; 32];
    bytes[31] = 0xee;
    Pubkey::new_from_array(bytes)
}

fn transfer_instruction(from: Pubkey, to: Pubkey, amount: u64) -> Instruction {
    let mut data = Vec::with_capacity(12);
    data.extend_from_slice(&2u32.to_le_bytes());
    data.extend_from_slice(&amount.to_le_bytes());
    Instruction {
        program_id: Pubkey::new_from_array(SYSTEM_PROGRAM_ID),
        accounts: vec![AccountMeta::new(from, true), AccountMeta::new(to, false)],
        data,
    }
}

fn precompiles() -> Vec<seashell::precompiles::Precompile> {
    agave_precompiles::get_precompiles()
        .iter()
        .map(|precompile| seashell::precompiles::Precompile {
            program_id: inside_key(&precompile.program_id),
            feature: precompile.feature.as_ref().map(inside_key),
        })
        .collect()
}

#[test]
fn test_native_transfer() {
    let mut seashell = new_seashell(Config::default());

    let from = key(1);
    let to = key(2);
    seashell.airdrop(from, 1000).unwrap();
    seashell.accounts_db.set_account_mock(to).unwrap();

    let ixn = transfer_instruction(from, to, 500);

    let result = process(&mut seashell, ixn);
    assert!(result.error.is_none(), "Expected no error, got: {:?}", result.error);
    assert_eq!(result.compute_units_consumed, 150);

    let post_from = result
        .post_execution_accounts
        .iter()
        .find(|(pubkey, _)| *pubkey == from)
        .expect("Resulting account should exist")
        .1
        .clone();
    assert_eq!(post_from.lamports, 500, "Expected from account to have 500 lamports after transfer");

    let post_to = result
        .post_execution_accounts
        .iter()
        .find(|(pubkey, _)| *pubkey == to)
        .expect("Resulting account should exist")
        .1
        .clone();
    assert_eq!(post_to.lamports, 500, "Expected to account to have 500 lamports after transfer");

    assert!(
        result.return_data.is_empty(),
        "Expected no return data, got: {:?}",
        result.return_data
    );
}

#[test]
fn test_simple_transfer() {
    let mut seashell = new_seashell(Config::default());

    let from = key(3);
    let to = key(4);
    seashell.airdrop(from, 1000).unwrap();
    seashell.accounts_db.set_account_mock(to).unwrap();

    let result = process(&mut seashell, transfer_instruction(from, to, 500));
    assert!(result.error.is_none(), "Expected no error, got: {:?}", result.error);
    assert_eq!(result.compute_units_consumed, 150);

    let post_from = &result
        .post_execution_accounts
        .iter()
        .find(|(pubkey, _)| *pubkey == from)
        .expect("Resulting account should exist")
        .1;
    assert_eq!(post_from.lamports, 500, "Expected from account to have 500 lamports after transfer");
    let post_to = &result
        .post_execution_accounts
        .iter()
        .find(|(pubkey, _)| *pubkey == to)
        .expect("Resulting account should exist")
        .1;
    assert_eq!(post_to.lamports, 500, "Expected to account to have 500 lamports after transfer");
    assert!(
        result.return_data.is_empty(),
        "Expected no return data, got: {:?}",
        result.return_data
    );
}

#[test]
fn test_memoize() {
    let mut seashell = new_seashell(Config { memoized: true, allow_uninitialized_accounts: false });

    let from = key(1);
    let to = key(2);
    seashell.airdrop(from, 1000).unwrap();
    seashell.accounts_db.set_account_mock(to).unwrap();

    let result = process(&mut seashell, transfer_instruction(from, to, 500));
    assert!(result.error.is_none(), "Expected no error, got: {:?}", result.error);
    assert_eq!(result.compute_units_consumed, 150);

    let post_from = seashell.account(&from).unwrap();
    assert_eq!(post_from.lamports, 500, "Expected from account to have 500 lamports after transfer");
    let post_to = seashell.account(&to).unwrap();
    assert_eq!(post_to.lamports, 500, "Expected to account to have 500 lamports after transfer");
}

#[test]
fn engine_refuses_a_transfer_without_funds() {
    let mut seashell = new_seashell(Config { memoized: true, allow_uninitialized_accounts: false });
    let from = key(1);
    let to = key(2);
    seashell.airdrop(from, 100).unwrap();
    seashell.accounts_db.set_account_mock(to).unwrap();

    let result = process(&mut seashell, transfer_instruction(from, to, 500));

    assert!(result.error.is_some());
    assert!(result.post_execution_accounts.is_empty());
    assert_eq!(seashell.account(&from).unwrap().lamports, 100);
    assert_eq!(seashell.account(&to).unwrap().lamports, 0);
}

#[test]
fn engine_takes_repeated_references() {
    let mut seashell = new_seashell(Config { memoized: true, allow_uninitialized_accounts: false });
    let from = key(1);
    let to = key(2);
    seashell.airdrop(from, 1000).unwrap();
    seashell.accounts_db.set_account_mock(to).unwrap();
    let mut ixn = transfer_instruction(from, to, 300);
    ixn.accounts = vec![
        AccountMeta::new_readonly(from, false),
        AccountMeta::new(to, false),
        AccountMeta::new(from, true),
    ];
    ixn.accounts.swap(0, 2);
    ixn.accounts.push(AccountMeta::new_readonly(from, false));

    let result = process(&mut seashell, ixn);

    assert!(result.error.is_none(), "Expected no error, got: {:?}", result.error);
    assert_eq!(result.post_execution_accounts.len(), 5);
    assert_eq!(seashell.account(&from).unwrap().lamports, 700);
    assert_eq!(seashell.account(&to).unwrap().lamports, 300);
    for (pubkey, account) in &result.post_execution_accounts {
        if *pubkey == from {
            assert_eq!(account.lamports, 700);
        }
    }
}

#[test]
fn engine_creates_an_account_that_was_not_there() {
    let mut seashell = new_seashell(Config { memoized: true, allow_uninitialized_accounts: true });
    let payer = key(1);
    let created = key(2);
    let owner = key(3);
    seashell.airdrop(payer, 10_000_000).unwrap();
    let mut data = Vec::new();
    data.extend_from_slice(&0u32.to_le_bytes());
    data.extend_from_slice(&7_850_880u64.to_le_bytes());
    data.extend_from_slice(&1000u64.to_le_bytes());
    data.extend_from_slice(&owner.bytes);
    let ixn = Instruction {
        program_id: Pubkey::new_from_array(SYSTEM_PROGRAM_ID),
        accounts: vec![AccountMeta::new(payer, true), AccountMeta::new(created, true)],
        data,
    };

    let result = process(&mut seashell, ixn);

    assert!(result.error.is_none(), "Expected no error, got: {:?}", result.error);
    let new_account_data = seashell.account(&created).unwrap();
    assert_eq!(new_account_data.lamports, 7850880);
    assert_eq!(new_account_data.data.len(), 1000);
    assert_eq!(new_account_data.owner, owner);
    assert_eq!(seashell.account(&payer).unwrap().lamports, 10_000_000 - 7_850_880);
}

#[test]
fn engine_checks_an_ed25519_signature() {
    let mut seashell = new_seashell(Config::default());
    seashell.load_precompiles(&precompiles()).unwrap();
    let public_key: [u8; 32] = [
        0xd7, 0x5a, 0x98, 0x01, 0x82, 0xb1, 0x0a, 0xb7, 0xd5, 0x4b, 0xfe, 0xd3, 0xc9, 0x64, 0x07,
        0x3a, 0x0e, 0xe1, 0x72, 0xf3, 0xda, 0xa6, 0x23, 0x25, 0xaf, 0x02, 0x1a, 0x68, 0xf7, 0x07,
        0x51, 0x1a,
    ];
    let signature: [u8; 64] = [
        0xe5, 0x56, 0x43, 0x00, 0xc3, 0x60, 0xac, 0x72, 0x90, 0x86, 0xe2, 0xcc, 0x80, 0x6e, 0x82,
        0x8a, 0x84, 0x87, 0x7f, 0x1e, 0xb8, 0xe5, 0xd9, 0x74, 0xd8, 0x73, 0xe0, 0x65, 0x22, 0x49,
        0x01, 0x55, 0x5f, 0xb8, 0x82, 0x15, 0x90, 0xa3, 0x3b, 0xac, 0xc6, 0x1e, 0x39, 0x70, 0x1c,
        0xf9, 0xb4, 0x6b, 0xd2, 0x5b, 0xf5, 0xf0, 0x59, 0x5b, 0xbe, 0x24, 0x65, 0x51, 0x41, 0x43,
        0x8e, 0x7a, 0x10, 0x0b,
    ];
    let program_id = Pubkey::new_from_array(
        solana_pubkey::Pubkey::from_str_const("Ed25519SigVerify111111111111111111111111111")
            .to_bytes(),
    );
    let instruction = |signature: &[u8; 64]| {
        let public_key_offset: u16 = 16;
        let signature_offset: u16 = 48;
        let message_offset: u16 = 112;
        let mut data = vec![1u8, 0];
        for field in [
            signature_offset,
            u16::MAX,
            public_key_offset,
            u16::MAX,
            message_offset,
            0,
            u16::MAX,
        ] {
            data.extend_from_slice(&field.to_le_bytes());
        }
        data.extend_from_slice(&public_key);
        data.extend_from_slice(signature);
        Instruction { program_id, accounts: vec![], data }
    };

    let result = process(&mut seashell, instruction(&signature));
    assert!(result.error.is_none(), "Expected no error, got: {:?}", result.error);
    assert_eq!(result.compute_units_consumed, 0);

    let mut forged = signature;
    forged[0] ^= 1;
    let result = process(&mut seashell, instruction(&forged));
    assert!(result.error.is_some());
}

#[test]
fn limits_are_those_of_the_engine() {
    assert_eq!(
        seashell::seashell::MAX_ACCOUNTS_PER_TRANSACTION,
        solana_transaction_context::MAX_ACCOUNTS_PER_TRANSACTION
    );
    assert_eq!(
        seashell::seashell::MAX_ACCOUNTS_PER_INSTRUCTION,
        solana_transaction_context::MAX_ACCOUNTS_PER_INSTRUCTION
    );
    assert_eq!(seashell::compile::INSTRUCTION_PROGRAM_ID_INDEX, 0);
}

#[test]
fn engine_sees_the_clock_that_the_instruction_passes() {
    let mut seashell = new_seashell(Config::default());
    let ixn = Instruction {
        program_id: Pubkey::new_from_array(SYSTEM_PROGRAM_ID),
        accounts: vec![],
        data: vec![],
    };
    let clock = seashell::sysvar::Clock {
        slot: 1,
        epoch_start_timestamp: 2,
        epoch: 3,
        leader_schedule_epoch: 4,
        unix_timestamp: 5,
    };
    seashell
        .set_account(
            seashell::sysvar::sysvar_id(seashell::sysvar::SysvarKind::Clock),
            Account {
                lamports: 1000,
                data: clock.serialize(),
                owner: Pubkey::new_from_array(seashell::sysvar::SYSVAR_OWNER_ID),
                executable: false,
                rent_epoch: 0,
            },
        )
        .unwrap();
    let prepared = seashell.prepare_instruction(&ixn).unwrap();

    let mut cache = SysvarCache::default();
    cache.fill_missing_entries(|sysvar, set_sysvar| {
        let data = seashell
            .accounts_db
            .sysvar_data_for_instruction(&prepared.transaction_accounts, &inside_key(sysvar));
        set_sysvar(&data);
    });

    let seen = cache.get_clock().unwrap();
    assert_eq!(seen.slot, 1);
    assert_eq!(seen.epoch_start_timestamp, 2);
    assert_eq!(seen.epoch, 3);
    assert_eq!(seen.leader_schedule_epoch, 4);
    assert_eq!(seen.unix_timestamp, 5);
    assert_eq!(cache.get_rent().unwrap().minimum_balance(1000), 7_850_880);
    assert_eq!(cache.get_epoch_schedule().unwrap().slots_per_epoch, 432_000);
    assert!(cache.get_epoch_rewards().is_ok());
    assert_eq!(cache.get_slot_hashes().unwrap().len(), 512);
    assert_eq!(cache.get_stake_history().unwrap().len(), 1);
    assert_eq!(cache.get_last_restart_slot().unwrap().last_restart_slot, 0);
}
