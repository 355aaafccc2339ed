use seashell::account::{mock_account_shared_data, Account};
use seashell::account_map::AccountMap;
use seashell::accounts_db::{AccountsDb, Builtin, ProgramRecord};
use seashell::error::SeashellError;
use seashell::feature_set::FeatureSet;
use seashell::instruction::{AccountMeta, Instruction};
use seashell::pubkey::{Pubkey, BPF_LOADER_ID, NATIVE_LOADER_ID};
use seashell::scenario::Scenario;
use seashell::sysvar::{sysvar_id, Clock, SysvarKind, SYSVAR_OWNER_ID};

fn key(n: u8) -> Pubkey {
    Pubkey::new_from_array([n; 32])
}

fn account(lamports: u64, data: Vec<u8>) -> Account {
    Account { lamports, data, owner: key(200), executable: false, rent_epoch: 3 }
}

fn clock(slot: u64) -> Clock {
    Clock { slot, epoch_start_timestamp: 2, epoch: 3, leader_schedule_epoch: 4, unix_timestamp: 5 }
}

#[test]
fn system_variable_outranks_base_and_overlay() {
    let mut db = AccountsDb::default();
    let id = sysvar_id(SysvarKind::Clock);
    let written = Account {
        lamports: 1000,
        data: clock(1).serialize(),
        owner: Pubkey::new_from_array(SYSVAR_OWNER_ID),
        executable: false,
        rent_epoch: 0,
    };
    assert_eq!(db.set_account(id, written), Ok(()));
    assert!(!db.accounts.contains_key(&id));

    db.accounts.insert(id, account(2000, vec![9, 9, 9]));
    db.scenario.insert(id, account(3000, vec![8, 8]));

    let resolved = db.account_maybe(&id).unwrap();
    assert_eq!(resolved.data, clock(1).serialize());
    assert_eq!(resolved.lamports, 0);
    assert_eq!(resolved.owner, Pubkey::new_from_array(SYSVAR_OWNER_ID));
    assert_eq!(db.account(&id), Ok(resolved));
    assert_eq!(db.sysvars.clock(), clock(1));
}

#[test]
fn overlay_outranks_base() {
    let mut db = AccountsDb::default();
    assert_eq!(db.account_maybe(&key(1)), None);
    assert_eq!(db.set_account(key(1), account(1000, vec![1])), Ok(()));
    assert_eq!(db.account_maybe(&key(1)), Some(account(1000, vec![1])));

    db.scenario.insert(key(1), account(2000, vec![2]));
    assert_eq!(db.account_maybe(&key(1)), Some(account(2000, vec![2])));
    assert_eq!(db.accounts.get(&key(1)), Some(account(1000, vec![1])));
}

#[test]
fn required_lookup_fails_without_remote_source() {
    let mut db = AccountsDb::default();
    assert_eq!(db.account(&key(1)), Err(SeashellError::AccountNotFound));
    assert!(!db.needs_fetch(&key(1)));
    assert_eq!(
        db.account_or_fetched(&key(1), Ok(account(5, vec![]))),
        Err(SeashellError::AccountNotFound)
    );
    assert_eq!(db.account_maybe(&key(1)), None);
    assert!(!db.scenario.is_dirty());
}

#[test]
fn remote_source_is_the_last_resort() {
    let mut db = AccountsDb::default();
    db.scenario = Scenario::rpc_only(String::from("http://localhost:8899"));
    assert_eq!(db.set_account(key(1), account(1000, vec![1])), Ok(()));

    assert!(!db.needs_fetch(&key(1)));
    assert_eq!(
        db.account_or_fetched(&key(1), Err(String::from("unused"))),
        Ok(account(1000, vec![1]))
    );
    assert!(!db.scenario.is_dirty());

    assert!(db.needs_fetch(&key(2)));
    assert_eq!(
        db.account_or_fetched(&key(2), Err(String::from("timed out"))),
        Err(SeashellError::RemoteFetchFailed(String::from("timed out")))
    );
    assert!(!db.scenario.is_dirty());
    assert_eq!(db.account_maybe(&key(2)), None);

    assert_eq!(db.account_or_fetched(&key(2), Ok(account(7, vec![7]))), Ok(account(7, vec![7])));
    assert!(db.scenario.is_dirty());
    assert!(!db.needs_fetch(&key(2)));
    assert_eq!(db.account(&key(2)), Ok(account(7, vec![7])));
    assert_eq!(db.scenario.get(&key(2)), Some(account(7, vec![7])));
    assert!(!db.accounts.contains_key(&key(2)));

    assert!(!db.needs_fetch(&sysvar_id(SysvarKind::Rent)));
}

#[test]
fn write_to_system_variable_needs_its_encoding() {
    let mut db = AccountsDb::default();
    let id = sysvar_id(SysvarKind::Clock);
    assert_eq!(
        db.set_account(id, account(1, vec![1, 2, 3])),
        Err(SeashellError::InvalidSystemVariableEncoding)
    );
    assert_eq!(db.sysvars.clock(), AccountsDb::default().sysvars.clock());
    assert_eq!(db.set_account_mock(id), Err(SeashellError::InvalidSystemVariableEncoding));
    assert!(!db.accounts.contains_key(&id));
}

#[test]
fn mock_account_names_its_own_key_as_owner() {
    let mut db = AccountsDb::default();
    assert_eq!(db.set_account_mock(key(4)), Ok(()));
    let mock = db.account(&key(4)).unwrap();
    assert_eq!(mock, mock_account_shared_data(key(4)));
    assert_eq!(mock.lamports, 0);
    assert_eq!(mock.data, Vec::<u8>::new());
    assert_eq!(mock.owner, key(4));
}

#[test]
fn updates_are_written_in_order_up_to_the_first_failure() {
    let mut db = AccountsDb::default();
    let updates = vec![
        (key(1), account(1, vec![])),
        (key(1), account(2, vec![])),
        (sysvar_id(SysvarKind::Clock), account(0, clock(9).serialize())),
        (sysvar_id(SysvarKind::Rent), account(0, vec![1])),
        (key(2), account(3, vec![])),
    ];
    assert_eq!(db.set_accounts(updates), Err(SeashellError::InvalidSystemVariableEncoding));
    assert_eq!(db.account(&key(1)).unwrap().lamports, 2);
    assert_eq!(db.sysvars.clock(), clock(9));
    assert_eq!(db.account_maybe(&key(2)), None);

    assert_eq!(db.set_accounts(vec![(key(2), account(3, vec![])), (key(3), account(4, vec![]))]), Ok(()));
    assert_eq!(db.account(&key(2)).unwrap().lamports, 3);
    assert_eq!(db.account(&key(3)).unwrap().lamports, 4);
}

#[test]
fn instruction_without_references_gets_the_program_only() {
    let mut db = AccountsDb::default();
    assert_eq!(db.set_account(key(1), account(1, vec![1, 2])), Ok(()));
    let ixn = Instruction { program_id: key(1), accounts: vec![], data: vec![] };

    let accounts = db.accounts_for_instruction(false, &ixn).unwrap();
    assert_eq!(accounts, vec![(key(1), account(1, vec![1, 2]))]);
    assert_eq!(seashell::compile::compile_accounts_for_instruction(&ixn), vec![]);
    assert_eq!(db.accounts_for_instruction(true, &ixn).unwrap(), accounts);
}

#[test]
fn accounts_follow_the_references() {
    let mut db = AccountsDb::default();
    assert_eq!(db.set_account(key(1), account(1, vec![])), Ok(()));
    assert_eq!(db.set_account(key(2), account(2, vec![])), Ok(()));
    db.scenario.insert(key(3), account(3, vec![]));
    let ixn = Instruction {
        program_id: key(1),
        accounts: vec![
            AccountMeta::new(key(3), true),
            AccountMeta::new_readonly(key(2), false),
            AccountMeta::new(key(3), false),
            AccountMeta::new_readonly(sysvar_id(SysvarKind::Clock), false),
        ],
        data: vec![],
    };

    let accounts = db.accounts_for_instruction(false, &ixn).unwrap();
    assert_eq!(accounts.len(), 5);
    assert_eq!(accounts[0], (key(1), account(1, vec![])));
    assert_eq!(accounts[1], (key(3), account(3, vec![])));
    assert_eq!(accounts[2], (key(2), account(2, vec![])));
    assert_eq!(accounts[3], (key(3), account(3, vec![])));
    assert_eq!(accounts[4].0, sysvar_id(SysvarKind::Clock));
    assert_eq!(accounts[4].1, db.sysvars.account_of(SysvarKind::Clock));
    assert_eq!(db.missing_for_instruction(false, &ixn), vec![]);
}

#[test]
fn missing_reference_fails_unless_tolerated() {
    let mut db = AccountsDb::default();
    assert_eq!(db.set_account(key(1), account(1, vec![])), Ok(()));
    let ixn = Instruction {
        program_id: key(1),
        accounts: vec![AccountMeta::new(key(9), true)],
        data: vec![],
    };

    assert_eq!(db.accounts_for_instruction(false, &ixn), Err(SeashellError::AccountNotFound));

    let accounts = db.accounts_for_instruction(true, &ixn).unwrap();
    assert_eq!(accounts.len(), 2);
    assert_eq!(accounts[1].0, key(9));
    assert_eq!(accounts[1].1.lamports, 0);
    assert_eq!(accounts[1].1.data, Vec::<u8>::new());
    assert_eq!(accounts[1].1.owner, Pubkey::default());
    assert!(!accounts[1].1.executable);
    assert_eq!(accounts[1].1, Account::default());
}

#[test]
fn missing_program_fails_even_if_tolerated() {
    let db = AccountsDb::default();
    let ixn = Instruction { program_id: key(1), accounts: vec![], data: vec![] };
    assert_eq!(db.accounts_for_instruction(true, &ixn), Err(SeashellError::AccountNotFound));
    assert_eq!(db.accounts_for_instruction(false, &ixn), Err(SeashellError::AccountNotFound));
    assert_eq!(db.missing_for_instruction(true, &ixn), vec![key(1)]);
}

#[test]
fn missing_keys_are_listed_once_in_order() {
    let mut db = AccountsDb::default();
    assert_eq!(db.set_account(key(2), account(2, vec![])), Ok(()));
    let ixn = Instruction {
        program_id: key(1),
        accounts: vec![
            AccountMeta::new(key(5), true),
            AccountMeta::new(key(2), true),
            AccountMeta::new(key(4), true),
            AccountMeta::new(key(5), false),
            AccountMeta::new(key(1), false),
        ],
        data: vec![],
    };
    assert_eq!(db.missing_for_instruction(false, &ixn), vec![key(1), key(5), key(4)]);
    assert_eq!(db.missing_for_instruction(true, &ixn), vec![key(1)]);

    db.scenario = Scenario::rpc_only(String::from("http://localhost:8899"));
    for missing in db.missing_for_instruction(false, &ixn) {
        assert!(db.needs_fetch(&missing));
        assert!(db.scenario.fetch_from_rpc(&missing, Ok(account(1, vec![]))).is_ok());
    }
    assert_eq!(db.missing_for_instruction(false, &ixn), vec![]);
    assert_eq!(db.accounts_for_instruction(false, &ixn).unwrap().len(), 6);
}

#[test]
fn instruction_account_wins_over_the_cache() {
    let mut db = AccountsDb::default();
    let clock_id = sysvar_id(SysvarKind::Clock);
    let rent_id = sysvar_id(SysvarKind::Rent);
    let accounts = vec![
        (key(1), account(1, vec![])),
        (clock_id, account(0, vec![1, 2, 3])),
        (clock_id, account(0, vec![4, 5, 6])),
    ];

    let cache = db.sysvars_for_instruction(&accounts);
    assert_eq!(cache.clock, vec![1, 2, 3]);
    assert_eq!(cache.rent, db.sysvars.rent().serialize());
    assert_eq!(cache.epoch_schedule, db.sysvars.epoch_schedule().serialize());
    assert_eq!(cache.epoch_rewards, db.sysvars.epoch_rewards().serialize());
    assert_eq!(cache.slot_hashes, db.sysvars.account_of(SysvarKind::SlotHashes).data);
    assert_eq!(cache.stake_history, db.sysvars.stake_history().serialize());
    assert_eq!(cache.last_restart_slot, db.sysvars.last_restart_slot().serialize());

    assert_eq!(db.sysvar_data_for_instruction(&accounts, &rent_id), db.sysvars.rent().serialize());
    assert_eq!(db.sysvar_data_for_instruction(&accounts, &clock_id), vec![1, 2, 3]);

    let fees = Pubkey::new_from_array(
        solana_pubkey::Pubkey::from_str_const("SysvarFees111111111111111111111111111111111").to_bytes(),
    );
    assert_eq!(db.sysvar_data_for_instruction(&accounts, &fees), Vec::<u8>::new());
    db.accounts.insert(fees, account(0, vec![7]));
    assert_eq!(db.sysvar_data_for_instruction(&accounts, &fees), vec![7]);
}

#[test]
fn builtins_are_loaded_where_enabled() {
    let mut db = AccountsDb::default();
    let mut features = FeatureSet::default();
    features.activate(key(50));
    let builtins = vec![
        Builtin { program_id: key(1), name_len: 14, enable_feature_id: None },
        Builtin { program_id: key(2), name_len: 5, enable_feature_id: Some(key(50)) },
        Builtin { program_id: key(3), name_len: 6, enable_feature_id: Some(key(51)) },
    ];

    assert_eq!(db.load_builtins(&builtins, &features), Ok(()));

    for id in [key(1), key(2)] {
        let marker = db.account(&id).unwrap();
        assert_eq!(marker.lamports, 1);
        assert_eq!(marker.data, Vec::<u8>::new());
        assert_eq!(marker.owner, Pubkey::new_from_array(NATIVE_LOADER_ID));
        assert!(marker.executable);
    }
    assert_eq!(db.account_maybe(&key(3)), None);
    assert_eq!(
        db.programs,
        vec![
            ProgramRecord::Builtin { program_id: key(1), name_len: 14 },
            ProgramRecord::Builtin { program_id: key(2), name_len: 5 },
        ]
    );
}

#[test]
fn builtin_under_a_system_variable_key_stops_loading() {
    let mut db = AccountsDb::default();
    let builtins = vec![
        Builtin { program_id: key(1), name_len: 1, enable_feature_id: None },
        Builtin { program_id: sysvar_id(SysvarKind::Clock), name_len: 1, enable_feature_id: None },
        Builtin { program_id: key(2), name_len: 1, enable_feature_id: None },
    ];
    assert_eq!(
        db.load_builtins(&builtins, &FeatureSet::default()),
        Err(SeashellError::InvalidSystemVariableEncoding)
    );
    assert_eq!(db.programs.len(), 1);
    assert_eq!(db.account_maybe(&key(2)), None);
}

#[test]
fn program_is_loaded_at_the_clock_with_rent_exempt_balance() {
    let mut db = AccountsDb::default();
    db.sysvars.warp(42, 0);
    let image = vec![0x7f; 1000];
    let loader = Pubkey::new_from_array(BPF_LOADER_ID);

    assert_eq!(
        db.load_program_from_bytes_with_loader(key(1), &image, loader, false),
        Err(SeashellError::ProgramLoadFailed)
    );
    assert_eq!(db.account_maybe(&key(1)), None);
    assert!(db.programs.is_empty());

    assert_eq!(db.load_program_from_bytes_with_loader(key(1), &image, loader, true), Ok(()));
    let program = db.account(&key(1)).unwrap();
    assert_eq!(program.lamports, 7_850_880);
    assert_eq!(program.data, vec![0u8; 1000]);
    assert_eq!(program.owner, loader);
    assert!(program.executable);
    assert_eq!(program.rent_epoch, 0);
    assert_eq!(
        db.programs,
        vec![ProgramRecord::Loaded {
            program_id: key(1),
            loader,
            deployment_slot: 42,
            effective_slot: 42,
            account_size: 1000,
        }]
    );
}

#[test]
fn account_map_keeps_one_record_per_key() {
    let mut map = AccountMap::new();
    assert!(!map.contains_key(&key(1)));
    assert_eq!(map.get(&key(1)), None);
    map.insert(key(1), account(1, vec![]));
    map.insert(key(2), account(2, vec![]));
    map.insert(key(1), account(3, vec![]));
    assert_eq!(map.get(&key(1)), Some(account(3, vec![])));
    assert_eq!(map.get(&key(2)), Some(account(2, vec![])));
    assert_eq!(map.entries(), vec![(key(1), account(3, vec![])), (key(2), account(2, vec![]))]);

    let again = AccountMap::from_entries(vec![
        (key(1), account(1, vec![])),
        (key(2), account(2, vec![])),
        (key(1), account(3, vec![])),
    ]);
    assert_eq!(again.entries(), map.entries());
    assert_eq!(AccountMap::from_entries(map.entries()).entries(), map.entries());
}

#[test]
fn features_are_active_once_activated() {
    let mut features = FeatureSet::new(vec![key(1), key(2)]);
    assert!(features.is_active(&key(1)));
    assert!(features.is_active(&key(2)));
    assert!(!features.is_active(&key(3)));
    features.activate(key(3));
    assert!(features.is_active(&key(3)));
    assert!(!FeatureSet::default().is_active(&key(1)));
}
