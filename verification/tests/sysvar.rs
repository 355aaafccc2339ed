use seashell::account::Account;
use seashell::error::SeashellError;
use seashell::pubkey::{Pubkey, BPF_LOADER_ID, NATIVE_LOADER_ID, SYSTEM_PROGRAM_ID};
use seashell::sysvar::{
    sysvar_id, sysvar_kind, Clock, EpochRewards, EpochSchedule, LastRestartSlot, Rent,
    SlotHashes, StakeHistory, StakeHistoryEntry, SysvarKind, Sysvars, CLOCK_ID,
    EPOCH_REWARDS_ID, EPOCH_SCHEDULE_ID, LAST_RESTART_SLOT_ID, MAX_ENTRIES, RENT_ID,
    SLOT_HASHES_ID, STAKE_HISTORY_ID, SYSVAR_OWNER_ID, ZERO_HASH,
};

const KINDS: [SysvarKind; 7] = [
    SysvarKind::Clock,
    SysvarKind::EpochSchedule,
    SysvarKind::EpochRewards,
    SysvarKind::Rent,
    SysvarKind::SlotHashes,
    SysvarKind::StakeHistory,
    SysvarKind::LastRestartSlot,
];

fn account_with(data: Vec<u8>) -> Account {
    Account {
        lamports: 1000,
        data,
        owner: Pubkey::new_from_array(SYSVAR_OWNER_ID),
        executable: false,
        rent_epoch: 0,
    }
}

fn hash(n: u8) -> [u8; 32] {
    let mut bytes = [n; 32];
    bytes[0] = 0xab;
    bytes
}

fn named(name: &str) -> [u8; 32] {
    solana_pubkey::Pubkey::from_str_const(name).to_bytes()
}

#[test]
fn keys_are_those_of_the_network() {
    assert_eq!(SYSVAR_OWNER_ID, named("Sysvar1111111111111111111111111111111111111"));
    assert_eq!(CLOCK_ID, named("SysvarC1ock11111111111111111111111111111111"));
    assert_eq!(EPOCH_SCHEDULE_ID, named("SysvarEpochSchedu1e111111111111111111111111"));
    assert_eq!(EPOCH_REWARDS_ID, named("SysvarEpochRewards1111111111111111111111111"));
    assert_eq!(RENT_ID, named("SysvarRent111111111111111111111111111111111"));
    assert_eq!(SLOT_HASHES_ID, named("SysvarS1otHashes111111111111111111111111111"));
    assert_eq!(STAKE_HISTORY_ID, named("SysvarStakeHistory1111111111111111111111111"));
    assert_eq!(LAST_RESTART_SLOT_ID, named("SysvarLastRestartS1ot1111111111111111111111"));
    assert_eq!(SYSTEM_PROGRAM_ID, named("11111111111111111111111111111111"));
    assert_eq!(NATIVE_LOADER_ID, named("NativeLoader1111111111111111111111111111111"));
    assert_eq!(BPF_LOADER_ID, named("BPFLoader2111111111111111111111111111111111"));
    assert_eq!(ZERO_HASH, solana_hash::Hash::default().to_bytes());
    assert_eq!(MAX_ENTRIES, solana_slot_hashes::MAX_ENTRIES);
}

#[test]
fn keys_are_those_of_the_variables() {
    assert_eq!(CLOCK_ID, solana_clock::sysvar::id().to_bytes());
    assert_eq!(EPOCH_SCHEDULE_ID, solana_epoch_schedule::sysvar::id().to_bytes());
    assert_eq!(EPOCH_REWARDS_ID, solana_epoch_rewards::sysvar::id().to_bytes());
    assert_eq!(RENT_ID, solana_rent::sysvar::id().to_bytes());
    assert_eq!(SLOT_HASHES_ID, solana_slot_hashes::sysvar::id().to_bytes());
    assert_eq!(STAKE_HISTORY_ID, solana_stake_interface::sysvar::stake_history::id().to_bytes());
    assert_eq!(LAST_RESTART_SLOT_ID, solana_last_restart_slot::sysvar::id().to_bytes());
}

#[test]
fn every_kind_is_found_from_its_key() {
    for kind in KINDS {
        assert_eq!(sysvar_kind(&sysvar_id(kind)), Some(kind));
        assert!(Sysvars::default().is_sysvar(&sysvar_id(kind)));
    }
    assert_eq!(sysvar_kind(&Pubkey::new_from_array(SYSVAR_OWNER_ID)), None);
    assert_eq!(sysvar_kind(&Pubkey::default()), None);
    let fees = Pubkey::new_from_array(named("SysvarFees111111111111111111111111111111111"));
    assert!(!Sysvars::default().is_sysvar(&fees));
}

#[test]
fn clock_bytes_are_those_of_bincode() {
    let ours = Clock {
        slot: 1,
        epoch_start_timestamp: -2,
        epoch: 3,
        leader_schedule_epoch: u64::MAX,
        unix_timestamp: i64::MIN,
    };
    let theirs = solana_clock::Clock {
        slot: 1,
        epoch_start_timestamp: -2,
        epoch: 3,
        leader_schedule_epoch: u64::MAX,
        unix_timestamp: i64::MIN,
    };
    let bytes = bincode::serialize(&theirs).unwrap();
    assert_eq!(ours.serialize(), bytes);
    assert_eq!(bytes.len(), 40);
    assert_eq!(Clock::deserialize(&bytes), Some(ours));
    assert_eq!(
        ours.serialize()[8..16],
        [0xfe, 0xff, 0xff, 0xff, 0xff, 0xff, 0xff, 0xff]
    );
}

#[test]
fn clock_reads_what_bincode_reads() {
    let mut long = bincode::serialize(&solana_clock::Clock {
        slot: 7,
        epoch_start_timestamp: i64::MAX,
        epoch: 8,
        leader_schedule_epoch: 9,
        unix_timestamp: -1,
    })
    .unwrap();
    long.extend_from_slice(&[1, 2, 3]);
    let read = Clock::deserialize(&long).unwrap();
    let theirs: solana_clock::Clock = bincode::deserialize(&long).unwrap();
    assert_eq!(read.slot, theirs.slot);
    assert_eq!(read.epoch_start_timestamp, theirs.epoch_start_timestamp);
    assert_eq!(read.epoch, theirs.epoch);
    assert_eq!(read.leader_schedule_epoch, theirs.leader_schedule_epoch);
    assert_eq!(read.unix_timestamp, theirs.unix_timestamp);
    assert_eq!(read.unix_timestamp, -1);

    for len in 0..40 {
        assert_eq!(Clock::deserialize(&long[..len]), None);
        assert!(bincode::deserialize::<solana_clock::Clock>(&long[..len]).is_err());
    }
}

#[test]
fn epoch_schedule_bytes_are_those_of_bincode() {
    let theirs = solana_epoch_schedule::EpochSchedule::custom(8192, 100, true);
    let ours = EpochSchedule {
        slots_per_epoch: theirs.slots_per_epoch,
        leader_schedule_slot_offset: theirs.leader_schedule_slot_offset,
        warmup: theirs.warmup,
        first_normal_epoch: theirs.first_normal_epoch,
        first_normal_slot: theirs.first_normal_slot,
    };
    let bytes = bincode::serialize(&theirs).unwrap();
    assert_eq!(bytes.len(), 33);
    assert_eq!(ours.serialize(), bytes);
    assert_eq!(EpochSchedule::deserialize(&bytes), Some(ours));
    assert_eq!(bytes[16], 1);

    let mut bad = bytes.clone();
    bad[16] = 2;
    assert_eq!(EpochSchedule::deserialize(&bad), None);
    assert!(bincode::deserialize::<solana_epoch_schedule::EpochSchedule>(&bad).is_err());
    assert_eq!(EpochSchedule::deserialize(&bytes[..32]), None);
}

#[test]
fn epoch_rewards_bytes_are_those_of_bincode() {
    let theirs = solana_epoch_rewards::EpochRewards {
        distribution_starting_block_height: 11,
        num_partitions: 12,
        parent_blockhash: solana_hash::Hash::new_from_array(hash(5)),
        total_points: 0x0102_0304_0506_0708_090a_0b0c_0d0e_0f10,
        total_rewards: 13,
        distributed_rewards: 14,
        active: true,
    };
    let ours = EpochRewards {
        distribution_starting_block_height: 11,
        num_partitions: 12,
        parent_blockhash: hash(5),
        total_points: 0x0102_0304_0506_0708_090a_0b0c_0d0e_0f10,
        total_rewards: 13,
        distributed_rewards: 14,
        active: true,
    };
    let bytes = bincode::serialize(&theirs).unwrap();
    assert_eq!(bytes.len(), 81);
    assert_eq!(ours.serialize(), bytes);
    assert_eq!(EpochRewards::deserialize(&bytes), Some(ours));

    let mut bad = bytes.clone();
    bad[80] = 0xff;
    assert_eq!(EpochRewards::deserialize(&bad), None);
    assert!(bincode::deserialize::<solana_epoch_rewards::EpochRewards>(&bad).is_err());
    assert_eq!(EpochRewards::deserialize(&bytes[..80]), None);
}

#[test]
#[allow(deprecated)]
fn rent_bytes_are_those_of_bincode() {
    let theirs = solana_rent::Rent { lamports_per_byte_year: 77, exemption_threshold: 1.5, burn_percent: 9 };
    let ours = Rent {
        lamports_per_byte_year: 77,
        exemption_threshold_bits: 1.5f64.to_bits(),
        burn_percent: 9,
    };
    let bytes = bincode::serialize(&theirs).unwrap();
    assert_eq!(bytes.len(), 17);
    assert_eq!(ours.serialize(), bytes);
    assert_eq!(Rent::deserialize(&bytes), Some(ours));
    assert_eq!(Rent::deserialize(&bytes[..16]), None);
}

#[test]
fn last_restart_slot_bytes_are_those_of_bincode() {
    let theirs = solana_last_restart_slot::LastRestartSlot { last_restart_slot: 0x1122_3344_5566_7788 };
    let ours = LastRestartSlot { last_restart_slot: 0x1122_3344_5566_7788 };
    let bytes = bincode::serialize(&theirs).unwrap();
    assert_eq!(bytes, vec![0x88, 0x77, 0x66, 0x55, 0x44, 0x33, 0x22, 0x11]);
    assert_eq!(ours.serialize(), bytes);
    assert_eq!(LastRestartSlot::deserialize(&bytes), Some(ours));
    assert_eq!(LastRestartSlot::deserialize(&bytes[..7]), None);
}

#[test]
fn slot_hashes_bytes_are_those_of_bincode() {
    let entries = vec![(9u64, hash(1)), (7, hash(2)), (7, hash(3)), (2, hash(4))];
    let theirs: solana_slot_hashes::SlotHashes = entries
        .iter()
        .map(|e| (e.0, solana_hash::Hash::new_from_array(e.1)))
        .collect();
    let ours = SlotHashes { entries: entries.clone() };
    let bytes = bincode::serialize(&theirs).unwrap();
    assert_eq!(bytes.len(), 8 + 40 * 4);
    assert_eq!(ours.serialize(), bytes);
    assert_eq!(SlotHashes::deserialize(&bytes), Some(ours));

    let empty = SlotHashes { entries: vec![] };
    assert_eq!(empty.serialize(), vec![0u8; 8]);
    assert_eq!(SlotHashes::deserialize(&[0u8; 8]), Some(empty));
}

#[test]
fn slot_hashes_need_as_many_entries_as_announced() {
    let ours = SlotHashes { entries: vec![(9u64, hash(1)), (7, hash(2))] };
    let bytes = ours.serialize();
    assert_eq!(SlotHashes::deserialize(&bytes[..bytes.len() - 1]), None);
    assert!(bincode::deserialize::<solana_slot_hashes::SlotHashes>(&bytes[..bytes.len() - 1]).is_err());
    assert_eq!(SlotHashes::deserialize(&bytes[..7]), None);

    let mut huge = bytes.clone();
    huge[..8].copy_from_slice(&u64::MAX.to_le_bytes());
    assert_eq!(SlotHashes::deserialize(&huge), None);
    assert!(bincode::deserialize::<solana_slot_hashes::SlotHashes>(&huge).is_err());

    let mut longer = bytes.clone();
    longer.push(0);
    assert_eq!(SlotHashes::deserialize(&longer), Some(ours));
}

#[test]
fn stake_history_bytes_are_those_of_bincode() {
    let mut theirs = solana_stake_interface::stake_history::StakeHistory::default();
    theirs.add(
        3,
        solana_stake_interface::stake_history::StakeHistoryEntry {
            effective: 1,
            activating: 2,
            deactivating: 3,
        },
    );
    theirs.add(
        5,
        solana_stake_interface::stake_history::StakeHistoryEntry {
            effective: 4,
            activating: 5,
            deactivating: 6,
        },
    );
    let ours = StakeHistory {
        entries: vec![
            (5, StakeHistoryEntry { effective: 4, activating: 5, deactivating: 6 }),
            (3, StakeHistoryEntry { effective: 1, activating: 2, deactivating: 3 }),
        ],
    };
    let bytes = bincode::serialize(&theirs).unwrap();
    assert_eq!(bytes.len(), 8 + 32 * 2);
    assert_eq!(ours.serialize(), bytes);
    assert_eq!(StakeHistory::deserialize(&bytes), Some(ours));
    assert_eq!(StakeHistory::deserialize(&bytes[..bytes.len() - 1]), None);
}

#[test]
#[allow(deprecated)]
fn defaults_are_those_of_the_network() {
    let vars = Sysvars::default();

    let clock = bincode::serialize(&solana_clock::Clock::default()).unwrap();
    assert_eq!(vars.get(&sysvar_id(SysvarKind::Clock)).unwrap().data, clock);

    let schedule =
        bincode::serialize(&solana_epoch_schedule::EpochSchedule::without_warmup()).unwrap();
    assert_eq!(vars.get(&sysvar_id(SysvarKind::EpochSchedule)).unwrap().data, schedule);
    assert_eq!(vars.epoch_schedule().slots_per_epoch, 432_000);

    let rewards = bincode::serialize(&solana_epoch_rewards::EpochRewards::default()).unwrap();
    assert_eq!(vars.get(&sysvar_id(SysvarKind::EpochRewards)).unwrap().data, rewards);

    let rent = bincode::serialize(&solana_rent::Rent::default()).unwrap();
    assert_eq!(vars.get(&sysvar_id(SysvarKind::Rent)).unwrap().data, rent);
    assert_eq!(vars.rent().lamports_per_byte_year, 3480);
    assert_eq!(vars.rent().exemption_threshold_bits, 2.0f64.to_bits());
    assert_eq!(vars.rent().burn_percent, 50);

    let hashes = solana_slot_hashes::SlotHashes::new(&vec![
        (solana_clock::Clock::default().slot, solana_hash::Hash::default());
        solana_slot_hashes::MAX_ENTRIES
    ]);
    let hashes = bincode::serialize(&hashes).unwrap();
    assert_eq!(hashes.len(), 20_488);
    assert_eq!(vars.get(&sysvar_id(SysvarKind::SlotHashes)).unwrap().data, hashes);

    let mut history = solana_stake_interface::stake_history::StakeHistory::default();
    history.add(
        solana_clock::Clock::default().epoch,
        solana_stake_interface::stake_history::StakeHistoryEntry::default(),
    );
    let history = bincode::serialize(&history).unwrap();
    assert_eq!(vars.get(&sysvar_id(SysvarKind::StakeHistory)).unwrap().data, history);
    assert_eq!(vars.stake_history().entries.len(), 1);

    let marker =
        bincode::serialize(&solana_last_restart_slot::LastRestartSlot::default()).unwrap();
    assert_eq!(vars.get(&sysvar_id(SysvarKind::LastRestartSlot)).unwrap().data, marker);
}

#[test]
fn default_slot_hashes_start_at_the_clock() {
    let vars = Sysvars::default();
    let hashes = vars.slot_hashes();
    assert_eq!(hashes.entries.len(), 512);
    assert_eq!(hashes.entries[0], (vars.clock().slot, ZERO_HASH));
    assert_eq!(vars.stake_history().entries[0].0, vars.clock().epoch);
    assert_eq!(
        vars.stake_history().entries[0].1,
        StakeHistoryEntry { effective: 0, activating: 0, deactivating: 0 }
    );
}

#[test]
fn get_gives_an_account_of_the_owner_without_balance() {
    let vars = Sysvars::default();
    for kind in KINDS {
        let account = vars.get(&sysvar_id(kind)).unwrap();
        assert_eq!(account.lamports, 0);
        assert_eq!(account.owner, Pubkey::new_from_array(SYSVAR_OWNER_ID));
        assert!(!account.executable);
        assert_eq!(account.rent_epoch, 0);
        assert_eq!(account, vars.account_of(kind));
    }
}

#[test]
fn unknown_key_is_told_apart() {
    let mut vars = Sysvars::default();
    let unknown = Pubkey::new_from_array([9; 32]);
    assert_eq!(vars.get(&unknown), Err(SeashellError::UnknownSystemVariable));
    assert_eq!(
        vars.set(&unknown, account_with(vec![0; 40])),
        Err(SeashellError::UnknownSystemVariable)
    );
    assert_ne!(SeashellError::UnknownSystemVariable, SeashellError::AccountNotFound);
}

#[test]
fn set_takes_what_decodes_and_nothing_else() {
    let mut vars = Sysvars::default();
    let clock = Clock {
        slot: 1,
        epoch_start_timestamp: 2,
        epoch: 3,
        leader_schedule_epoch: 4,
        unix_timestamp: 5,
    };
    assert_eq!(vars.set(&sysvar_id(SysvarKind::Clock), account_with(clock.serialize())), Ok(()));
    assert_eq!(vars.clock(), clock);
    assert_eq!(vars.get(&sysvar_id(SysvarKind::Clock)).unwrap().data, clock.serialize());
    assert_eq!(vars.rent(), Sysvars::default().rent());

    assert_eq!(
        vars.set(&sysvar_id(SysvarKind::Clock), account_with(vec![1; 39])),
        Err(SeashellError::InvalidSystemVariableEncoding)
    );
    assert_eq!(vars.clock(), clock);

    for kind in KINDS {
        assert_eq!(
            vars.set(&sysvar_id(kind), account_with(vec![])),
            Err(SeashellError::InvalidSystemVariableEncoding)
        );
    }
}

#[test]
fn what_get_gives_can_be_set_again() {
    let mut vars = Sysvars::default();
    vars.warp(77, -5);
    let mut other = Sysvars::default();
    for kind in KINDS {
        let account = vars.get(&sysvar_id(kind)).unwrap();
        assert_eq!(other.set(&sysvar_id(kind), account), Ok(()));
        assert_eq!(other.account_of(kind), vars.account_of(kind));
    }
    assert_eq!(other.clock(), vars.clock());
    assert_eq!(other.stake_history(), vars.stake_history());
}

#[test]
fn each_kind_is_set_through_its_own_key() {
    let mut vars = Sysvars::default();
    let schedule = EpochSchedule {
        slots_per_epoch: 64,
        leader_schedule_slot_offset: 32,
        warmup: true,
        first_normal_epoch: 1,
        first_normal_slot: 32,
    };
    let rewards = EpochRewards {
        distribution_starting_block_height: 1,
        num_partitions: 2,
        parent_blockhash: hash(8),
        total_points: 3,
        total_rewards: 4,
        distributed_rewards: 5,
        active: true,
    };
    let rent = Rent { lamports_per_byte_year: 1, exemption_threshold_bits: 1.0f64.to_bits(), burn_percent: 2 };
    let hashes = SlotHashes { entries: vec![(1, hash(1))] };
    let history = StakeHistory {
        entries: vec![(4, StakeHistoryEntry { effective: 1, activating: 2, deactivating: 3 })],
    };
    let marker = LastRestartSlot { last_restart_slot: 99 };

    assert_eq!(vars.set(&sysvar_id(SysvarKind::EpochSchedule), account_with(schedule.serialize())), Ok(()));
    assert_eq!(vars.set(&sysvar_id(SysvarKind::EpochRewards), account_with(rewards.serialize())), Ok(()));
    assert_eq!(vars.set(&sysvar_id(SysvarKind::Rent), account_with(rent.serialize())), Ok(()));
    assert_eq!(vars.set(&sysvar_id(SysvarKind::SlotHashes), account_with(hashes.serialize())), Ok(()));
    assert_eq!(vars.set(&sysvar_id(SysvarKind::StakeHistory), account_with(history.serialize())), Ok(()));
    assert_eq!(vars.set(&sysvar_id(SysvarKind::LastRestartSlot), account_with(marker.serialize())), Ok(()));

    assert_eq!(vars.epoch_schedule(), schedule);
    assert_eq!(vars.epoch_rewards(), rewards);
    assert_eq!(vars.rent(), rent);
    assert_eq!(vars.slot_hashes(), hashes);
    assert_eq!(vars.stake_history(), history);
    assert_eq!(vars.last_restart_slot(), marker);
    assert_eq!(vars.clock(), Sysvars::default().clock());
}

#[test]
fn warp_moves_slot_and_timestamp_only() {
    let mut vars = Sysvars::default();
    vars.warp(123, 456);
    assert_eq!(
        vars.clock(),
        Clock { slot: 123, epoch_start_timestamp: 0, epoch: 0, leader_schedule_epoch: 0, unix_timestamp: 456 }
    );
    assert_eq!(vars.rent(), Sysvars::default().rent());
    assert_eq!(vars.stake_history(), Sysvars::default().stake_history());
}

#[test]
fn slot_hashes_come_out_sorted_and_stable() {
    let mut vars = Sysvars::default();
    let stored = SlotHashes {
        entries: vec![(3, hash(1)), (9, hash(2)), (3, hash(3)), (5, hash(4)), (9, hash(5))],
    };
    assert_eq!(vars.set(&sysvar_id(SysvarKind::SlotHashes), account_with(stored.serialize())), Ok(()));

    let sorted = vars.slot_hashes();
    assert_eq!(
        sorted.entries,
        vec![(9, hash(2)), (9, hash(5)), (5, hash(4)), (3, hash(1)), (3, hash(3))]
    );
    assert_eq!(vars.get(&sysvar_id(SysvarKind::SlotHashes)).unwrap().data, stored.serialize());
}

#[test]
fn rent_exemption_is_that_of_the_network() {
    let rent = Sysvars::default().rent();
    assert_eq!(rent.minimum_balance(1000), 7_850_880);
    assert_eq!(rent.minimum_balance(0), 890_880);
    assert_eq!(rent.minimum_balance(165), 2_039_280);
    for len in [0usize, 1, 82, 165, 1000, 10 * 1024 * 1024] {
        assert_eq!(rent.minimum_balance(len), solana_rent::Rent::default().minimum_balance(len));
    }
    let odd = Rent { lamports_per_byte_year: 1001, exemption_threshold_bits: 1.3f64.to_bits(), burn_percent: 0 };
    #[allow(deprecated)]
    let theirs = solana_rent::Rent { lamports_per_byte_year: 1001, exemption_threshold: 1.3, burn_percent: 0 };
    assert_eq!(odd.minimum_balance(333), theirs.minimum_balance(333));
    assert_ne!(odd.minimum_balance(333), 333);
}
