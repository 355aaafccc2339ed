use crate::account::{Account, AccountSharedData, AccountView};
use crate::error::SeashellError;
use crate::pubkey::Pubkey;
use crate::wire::{
    array32, bool_byte, from_le128, from_le64, from_signed_bits, le128, le64,
    lemma_array32_of_view, lemma_signed_bits_read_back, read_array32, read_i64, read_u128,
    read_u64, signed_bits, write_bool, write_bytes, write_i64, write_u128, write_u64,
};
use vstd::bytes::{lemma_auto_spec_u128_to_from_le_bytes, lemma_auto_spec_u64_to_from_le_bytes};
use vstd::prelude::*;

verus! {

/// Bytes of the key that owns every system variable account.
pub const SYSVAR_OWNER_ID: [u8; 32] = [
    6, 167, 213, 23, 24, 117, 247, 41, 199, 61, 147, 64, 143, 33, 97, 32, 6, 126, 216, 140, 118,
    224, 140, 40, 127, 193, 148, 96, 0, 0, 0, 0,
];

/// Bytes of the clock's key.
pub const CLOCK_ID: [u8; 32] = [
    6, 167, 213, 23, 24, 199, 116, 201, 40, 86, 99, 152, 105, 29, 94, 182, 139, 94, 184, 163, 155,
    75, 109, 92, 115, 85, 91, 33, 0, 0, 0, 0,
];

/// Bytes of the epoch schedule's key.
pub const EPOCH_SCHEDULE_ID: [u8; 32] = [
    6, 167, 213, 23, 24, 220, 63, 238, 2, 211, 228, 127, 1, 0, 248, 176, 84, 247, 148, 46, 96, 89,
    30, 63, 80, 135, 25, 168, 5, 0, 0, 0,
];

/// Bytes of the epoch rewards' key.
pub const EPOCH_REWARDS_ID: [u8; 32] = [
    6, 167, 213, 23, 24, 220, 63, 238, 2, 165, 88, 191, 131, 206, 102, 225, 68, 66, 42, 28, 52,
    149, 11, 39, 193, 134, 155, 90, 156, 0, 0, 0,
];

/// Bytes of the rent parameters' key.
pub const RENT_ID: [u8; 32] = [
    6, 167, 213, 23, 25, 44, 92, 81, 33, 140, 201, 76, 61, 74, 241, 127, 88, 218, 238, 8, 155, 161,
    253, 68, 227, 219, 217, 138, 0, 0, 0, 0,
];

/// Bytes of the recent slot hashes' key.
pub const SLOT_HASHES_ID: [u8; 32] = [
    6, 167, 213, 23, 25, 47, 10, 175, 198, 242, 101, 227, 251, 119, 204, 122, 218, 130, 197, 41,
    208, 190, 59, 19, 110, 45, 0, 85, 32, 0, 0, 0,
];

/// Bytes of the stake history's key.
pub const STAKE_HISTORY_ID: [u8; 32] = [
    6, 167, 213, 23, 25, 53, 132, 208, 254, 237, 155, 179, 67, 29, 19, 32, 107, 229, 68, 40, 27,
    87, 184, 86, 108, 197, 55, 95, 244, 0, 0, 0,
];

/// Bytes of the restart marker's key.
pub const LAST_RESTART_SLOT_ID: [u8; 32] = [
    6, 167, 213, 23, 25, 6, 221, 225, 205, 63, 148, 125, 202, 180, 200, 244, 244, 245, 27, 173, 15,
    152, 19, 184, 0, 210, 137, 71, 31, 192, 0, 0,
];

/// The hash of all zero bytes.
pub const ZERO_HASH: [u8; 32] = [
    0, 0, 0, 0, 0, 0, 0, 0, 0, 0, 0, 0, 0, 0, 0, 0, 0, 0, 0, 0, 0, 0, 0, 0, 0, 0, 0, 0, 0, 0, 0, 0,
];

/// Number of entries that the recent slot hashes hold by default.
pub const MAX_ENTRIES: usize = 512;

/// The system variables that the cache knows.
#[derive(Clone, Copy, Debug, PartialEq, Eq, Structural)]
pub enum SysvarKind {
    Clock,
    EpochSchedule,
    EpochRewards,
    Rent,
    SlotHashes,
    StakeHistory,
    LastRestartSlot,
}

/// The system variable that `id` names, if it names one.
pub open spec fn kind_of(id: Pubkey) -> Option<SysvarKind> {
    if id.bytes == CLOCK_ID {
        Some(SysvarKind::Clock)
    } else if id.bytes == EPOCH_SCHEDULE_ID {
        Some(SysvarKind::EpochSchedule)
    } else if id.bytes == EPOCH_REWARDS_ID {
        Some(SysvarKind::EpochRewards)
    } else if id.bytes == RENT_ID {
        Some(SysvarKind::Rent)
    } else if id.bytes == SLOT_HASHES_ID {
        Some(SysvarKind::SlotHashes)
    } else if id.bytes == STAKE_HISTORY_ID {
        Some(SysvarKind::StakeHistory)
    } else if id.bytes == LAST_RESTART_SLOT_ID {
        Some(SysvarKind::LastRestartSlot)
    } else {
        None
    }
}

/// The key of a system variable.
pub open spec fn id_of(kind: SysvarKind) -> Pubkey {
    match kind {
        SysvarKind::Clock => Pubkey { bytes: CLOCK_ID },
        SysvarKind::EpochSchedule => Pubkey { bytes: EPOCH_SCHEDULE_ID },
        SysvarKind::EpochRewards => Pubkey { bytes: EPOCH_REWARDS_ID },
        SysvarKind::Rent => Pubkey { bytes: RENT_ID },
        SysvarKind::SlotHashes => Pubkey { bytes: SLOT_HASHES_ID },
        SysvarKind::StakeHistory => Pubkey { bytes: STAKE_HISTORY_ID },
        SysvarKind::LastRestartSlot => Pubkey { bytes: LAST_RESTART_SLOT_ID },
    }
}

/// The seven keys are distinct: each kind is found again from its key.
pub proof fn lemma_kind_of_id(kind: SysvarKind)
    ensures
        kind_of(id_of(kind)) == Some(kind),
{
    assert(CLOCK_ID[5] == 199);
    assert(EPOCH_SCHEDULE_ID[9] == 211);
    assert(EPOCH_REWARDS_ID[9] == 165);
    assert(RENT_ID[5] == 44);
    assert(SLOT_HASHES_ID[5] == 47);
    assert(STAKE_HISTORY_ID[5] == 53);
    assert(LAST_RESTART_SLOT_ID[5] == 6);
}

/// Finds the system variable that `id` names.
pub fn sysvar_kind(id: &Pubkey) -> (kind: Option<SysvarKind>)
    ensures
        kind == kind_of(*id),
{
    if *id == (Pubkey { bytes: CLOCK_ID }) {
        Some(SysvarKind::Clock)
    } else if *id == (Pubkey { bytes: EPOCH_SCHEDULE_ID }) {
        Some(SysvarKind::EpochSchedule)
    } else if *id == (Pubkey { bytes: EPOCH_REWARDS_ID }) {
        Some(SysvarKind::EpochRewards)
    } else if *id == (Pubkey { bytes: RENT_ID }) {
        Some(SysvarKind::Rent)
    } else if *id == (Pubkey { bytes: SLOT_HASHES_ID }) {
        Some(SysvarKind::SlotHashes)
    } else if *id == (Pubkey { bytes: STAKE_HISTORY_ID }) {
        Some(SysvarKind::StakeHistory)
    } else if *id == (Pubkey { bytes: LAST_RESTART_SLOT_ID }) {
        Some(SysvarKind::LastRestartSlot)
    } else {
        None
    }
}

/// The key of a system variable.
pub fn sysvar_id(kind: SysvarKind) -> (id: Pubkey)
    ensures
        id == id_of(kind),
{
    match kind {
        SysvarKind::Clock => Pubkey { bytes: CLOCK_ID },
        SysvarKind::EpochSchedule => Pubkey { bytes: EPOCH_SCHEDULE_ID },
        SysvarKind::EpochRewards => Pubkey { bytes: EPOCH_REWARDS_ID },
        SysvarKind::Rent => Pubkey { bytes: RENT_ID },
        SysvarKind::SlotHashes => Pubkey { bytes: SLOT_HASHES_ID },
        SysvarKind::StakeHistory => Pubkey { bytes: STAKE_HISTORY_ID },
        SysvarKind::LastRestartSlot => Pubkey { bytes: LAST_RESTART_SLOT_ID },
    }
}

/// The network's notion of time.
#[derive(Clone, Copy, Debug, PartialEq, Eq)]
pub struct Clock {
    pub slot: u64,
    pub epoch_start_timestamp: i64,
    pub epoch: u64,
    pub leader_schedule_epoch: u64,
    pub unix_timestamp: i64,
}

/// How slots are grouped into epochs.
#[derive(Clone, Copy, Debug, PartialEq, Eq)]
pub struct EpochSchedule {
    pub slots_per_epoch: u64,
    pub leader_schedule_slot_offset: u64,
    pub warmup: bool,
    pub first_normal_epoch: u64,
    pub first_normal_slot: u64,
}

/// The state of the reward distribution of the current epoch.
#[derive(Clone, Copy, Debug, PartialEq, Eq)]
pub struct EpochRewards {
    pub distribution_starting_block_height: u64,
    pub num_partitions: u64,
    pub parent_blockhash: [u8; 32],
    pub total_points: u128,
    pub total_rewards: u64,
    pub distributed_rewards: u64,
    pub active: bool,
}

/// The rent parameters.
///
/// The exemption threshold is a binary64 floating-point number of years. It is
/// held as its 64-bit pattern, which is also how it is written to bytes.
#[derive(Clone, Copy, Debug, PartialEq, Eq)]
pub struct Rent {
    pub lamports_per_byte_year: u64,
    pub exemption_threshold_bits: u64,
    pub burn_percent: u8,
}

/// The slot at which the network last restarted.
#[derive(Clone, Copy, Debug, PartialEq, Eq)]
pub struct LastRestartSlot {
    pub last_restart_slot: u64,
}

/// The stake of one epoch.
#[derive(Clone, Copy, Debug, PartialEq, Eq)]
pub struct StakeHistoryEntry {
    pub effective: u64,
    pub activating: u64,
    pub deactivating: u64,
}

/// A slot and the hash of its bank.
pub type SlotHash = (u64, [u8; 32]);

/// The hashes of recent slots.
#[derive(Debug, PartialEq, Eq)]
pub struct SlotHashes {
    pub entries: Vec<SlotHash>,
}

/// The stake of recent epochs.
#[derive(Debug, PartialEq, Eq)]
pub struct StakeHistory {
    pub entries: Vec<(u64, StakeHistoryEntry)>,
}

impl View for SlotHashes {
    type V = Seq<SlotHash>;

    open spec fn view(&self) -> Seq<SlotHash> {
        self.entries@
    }
}

impl View for StakeHistory {
    type V = Seq<(u64, StakeHistoryEntry)>;

    open spec fn view(&self) -> Seq<(u64, StakeHistoryEntry)> {
        self.entries@
    }
}

/// The bytes of a clock: its five fields, each as eight bytes.
pub open spec fn clock_bytes(clock: Clock) -> Seq<u8> {
    le64(clock.slot) + le64(signed_bits(clock.epoch_start_timestamp)) + le64(clock.epoch) + le64(
        clock.leader_schedule_epoch,
    ) + le64(signed_bits(clock.unix_timestamp))
}

/// The clock that `data` starts with, if `data` is long enough.
pub open spec fn clock_from_bytes(data: Seq<u8>) -> Option<Clock> {
    if data.len() >= 40 {
        Some(
            Clock {
                slot: from_le64(data.subrange(0, 8)),
                epoch_start_timestamp: from_signed_bits(from_le64(data.subrange(8, 16))),
                epoch: from_le64(data.subrange(16, 24)),
                leader_schedule_epoch: from_le64(data.subrange(24, 32)),
                unix_timestamp: from_signed_bits(from_le64(data.subrange(32, 40))),
            },
        )
    } else {
        None
    }
}

/// The bytes of an epoch schedule: 33 in all, the flag as one byte.
pub open spec fn epoch_schedule_bytes(schedule: EpochSchedule) -> Seq<u8> {
    le64(schedule.slots_per_epoch) + le64(schedule.leader_schedule_slot_offset) + seq![
        bool_byte(schedule.warmup),
    ] + le64(schedule.first_normal_epoch) + le64(schedule.first_normal_slot)
}

/// The epoch schedule that `data` starts with, if `data` is long enough and
/// the flag's byte is 0 or 1.
pub open spec fn epoch_schedule_from_bytes(data: Seq<u8>) -> Option<EpochSchedule> {
    if data.len() >= 33 && data[16] <= 1 {
        Some(
            EpochSchedule {
                slots_per_epoch: from_le64(data.subrange(0, 8)),
                leader_schedule_slot_offset: from_le64(data.subrange(8, 16)),
                warmup: data[16] == 1,
                first_normal_epoch: from_le64(data.subrange(17, 25)),
                first_normal_slot: from_le64(data.subrange(25, 33)),
            },
        )
    } else {
        None
    }
}

/// The bytes of the epoch rewards: 81 in all.
pub open spec fn epoch_rewards_bytes(rewards: EpochRewards) -> Seq<u8> {
    le64(rewards.distribution_starting_block_height) + le64(rewards.num_partitions)
        + rewards.parent_blockhash@ + le128(rewards.total_points) + le64(rewards.total_rewards)
        + le64(rewards.distributed_rewards) + seq![bool_byte(rewards.active)]
}

/// The epoch rewards that `data` starts with, if `data` is long enough and
/// the flag's byte is 0 or 1.
pub open spec fn epoch_rewards_from_bytes(data: Seq<u8>) -> Option<EpochRewards> {
    if data.len() >= 81 && data[80] <= 1 {
        Some(
            EpochRewards {
                distribution_starting_block_height: from_le64(data.subrange(0, 8)),
                num_partitions: from_le64(data.subrange(8, 16)),
                parent_blockhash: array32(data.subrange(16, 48)),
                total_points: from_le128(data.subrange(48, 64)),
                total_rewards: from_le64(data.subrange(64, 72)),
                distributed_rewards: from_le64(data.subrange(72, 80)),
                active: data[80] == 1,
            },
        )
    } else {
        None
    }
}

/// The bytes of the rent parameters: 17 in all.
pub open spec fn rent_bytes(rent: Rent) -> Seq<u8> {
    le64(rent.lamports_per_byte_year) + le64(rent.exemption_threshold_bits) + seq![
        rent.burn_percent,
    ]
}

/// The rent parameters that `data` starts with, if `data` is long enough.
pub open spec fn rent_from_bytes(data: Seq<u8>) -> Option<Rent> {
    if data.len() >= 17 {
        Some(
            Rent {
                lamports_per_byte_year: from_le64(data.subrange(0, 8)),
                exemption_threshold_bits: from_le64(data.subrange(8, 16)),
                burn_percent: data[16],
            },
        )
    } else {
        None
    }
}

/// The bytes of the restart marker.
pub open spec fn last_restart_slot_bytes(marker: LastRestartSlot) -> Seq<u8> {
    le64(marker.last_restart_slot)
}

/// The restart marker that `data` starts with, if `data` is long enough.
pub open spec fn last_restart_slot_from_bytes(data: Seq<u8>) -> Option<LastRestartSlot> {
    if data.len() >= 8 {
        Some(LastRestartSlot { last_restart_slot: from_le64(data.subrange(0, 8)) })
    } else {
        None
    }
}

/// The 40 bytes of one slot hash.
pub open spec fn slot_hash_bytes(entry: SlotHash) -> Seq<u8> {
    le64(entry.0) + entry.1@
}

/// The bytes of a run of slot hashes, one after the other.
pub open spec fn slot_hash_run_bytes(entries: Seq<SlotHash>) -> Seq<u8>
    decreases entries.len(),
{
    if entries.len() == 0 {
        Seq::empty()
    } else {
        slot_hash_run_bytes(entries.drop_last()) + slot_hash_bytes(entries.last())
    }
}

/// The bytes of the slot hashes: their number as eight bytes, then each entry.
pub open spec fn slot_hashes_bytes(entries: Seq<SlotHash>) -> Seq<u8> {
    le64(entries.len() as u64) + slot_hash_run_bytes(entries)
}

/// The slot hash that stands at position `i` behind the count.
pub open spec fn slot_hash_at(data: Seq<u8>, i: int) -> SlotHash {
    (
        from_le64(data.subrange(8 + 40 * i, 16 + 40 * i)),
        array32(data.subrange(16 + 40 * i, 48 + 40 * i)),
    )
}

/// The slot hashes that `data` starts with, if `data` holds as many entries
/// as its first eight bytes announce.
pub open spec fn slot_hashes_from_bytes(data: Seq<u8>) -> Option<Seq<SlotHash>> {
    if data.len() >= 8 && 8 + 40 * from_le64(data.subrange(0, 8)) <= data.len() {
        Some(Seq::new(from_le64(data.subrange(0, 8)) as nat, |i: int| slot_hash_at(data, i)))
    } else {
        None
    }
}

/// The 32 bytes of one stake history entry with its epoch.
pub open spec fn stake_entry_bytes(entry: (u64, StakeHistoryEntry)) -> Seq<u8> {
    le64(entry.0) + le64(entry.1.effective) + le64(entry.1.activating) + le64(
        entry.1.deactivating,
    )
}

/// The bytes of a run of stake history entries, one after the other.
pub open spec fn stake_run_bytes(entries: Seq<(u64, StakeHistoryEntry)>) -> Seq<u8>
    decreases entries.len(),
{
    if entries.len() == 0 {
        Seq::empty()
    } else {
        stake_run_bytes(entries.drop_last()) + stake_entry_bytes(entries.last())
    }
}

/// The bytes of the stake history: the number of entries as eight bytes, then
/// each entry.
pub open spec fn stake_history_bytes(entries: Seq<(u64, StakeHistoryEntry)>) -> Seq<u8> {
    le64(entries.len() as u64) + stake_run_bytes(entries)
}

/// The stake history entry that stands at position `i` behind the count.
pub open spec fn stake_entry_at(data: Seq<u8>, i: int) -> (u64, StakeHistoryEntry) {
    (
        from_le64(data.subrange(8 + 32 * i, 16 + 32 * i)),
        StakeHistoryEntry {
            effective: from_le64(data.subrange(16 + 32 * i, 24 + 32 * i)),
            activating: from_le64(data.subrange(24 + 32 * i, 32 + 32 * i)),
            deactivating: from_le64(data.subrange(32 + 32 * i, 40 + 32 * i)),
        },
    )
}

/// The stake history that `data` starts with, if `data` holds as many entries
/// as its first eight bytes announce.
pub open spec fn stake_history_from_bytes(data: Seq<u8>) -> Option<Seq<(u64, StakeHistoryEntry)>> {
    if data.len() >= 8 && 8 + 32 * from_le64(data.subrange(0, 8)) <= data.len() {
        Some(Seq::new(from_le64(data.subrange(0, 8)) as nat, |i: int| stake_entry_at(data, i)))
    } else {
        None
    }
}

impl Clock {
    /// Writes the clock as bytes.
    pub fn serialize(&self) -> (out: Vec<u8>)
        ensures
            out@ == clock_bytes(*self),
    {
        let mut out: Vec<u8> = Vec::new();
        write_u64(&mut out, self.slot);
        write_i64(&mut out, self.epoch_start_timestamp);
        write_u64(&mut out, self.epoch);
        write_u64(&mut out, self.leader_schedule_epoch);
        write_i64(&mut out, self.unix_timestamp);
        assert(out@ =~= clock_bytes(*self));
        out
    }

    /// Reads a clock from the start of `data`.
    pub fn deserialize(data: &[u8]) -> (clock: Option<Clock>)
        ensures
            clock == clock_from_bytes(data@),
    {
        if data.len() < 40 {
            return None;
        }
        Some(
            Clock {
                slot: read_u64(data, 0),
                epoch_start_timestamp: read_i64(data, 8),
                epoch: read_u64(data, 16),
                leader_schedule_epoch: read_u64(data, 24),
                unix_timestamp: read_i64(data, 32),
            },
        )
    }
}

impl EpochSchedule {
    /// Writes the epoch schedule as bytes.
    pub fn serialize(&self) -> (out: Vec<u8>)
        ensures
            out@ == epoch_schedule_bytes(*self),
    {
        let mut out: Vec<u8> = Vec::new();
        write_u64(&mut out, self.slots_per_epoch);
        write_u64(&mut out, self.leader_schedule_slot_offset);
        write_bool(&mut out, self.warmup);
        write_u64(&mut out, self.first_normal_epoch);
        write_u64(&mut out, self.first_normal_slot);
        assert(out@ =~= epoch_schedule_bytes(*self));
        out
    }

    /// Reads an epoch schedule from the start of `data`.
    pub fn deserialize(data: &[u8]) -> (schedule: Option<EpochSchedule>)
        ensures
            schedule == epoch_schedule_from_bytes(data@),
    {
        if data.len() < 33 || data[16] > 1 {
            return None;
        }
        Some(
            EpochSchedule {
                slots_per_epoch: read_u64(data, 0),
                leader_schedule_slot_offset: read_u64(data, 8),
                warmup: data[16] == 1,
                first_normal_epoch: read_u64(data, 17),
                first_normal_slot: read_u64(data, 25),
            },
        )
    }
}

impl EpochRewards {
    /// Writes the epoch rewards as bytes.
    pub fn serialize(&self) -> (out: Vec<u8>)
        ensures
            out@ == epoch_rewards_bytes(*self),
    {
        let mut out: Vec<u8> = Vec::new();
        write_u64(&mut out, self.distribution_starting_block_height);
        write_u64(&mut out, self.num_partitions);
        write_bytes(&mut out, self.parent_blockhash.as_slice());
        write_u128(&mut out, self.total_points);
        write_u64(&mut out, self.total_rewards);
        write_u64(&mut out, self.distributed_rewards);
        write_bool(&mut out, self.active);
        assert(out@ =~= epoch_rewards_bytes(*self));
        out
    }

    /// Reads the epoch rewards from the start of `data`.
    pub fn deserialize(data: &[u8]) -> (rewards: Option<EpochRewards>)
        ensures
            rewards == epoch_rewards_from_bytes(data@),
    {
        if data.len() < 81 || data[80] > 1 {
            return None;
        }
        Some(
            EpochRewards {
                distribution_starting_block_height: read_u64(data, 0),
                num_partitions: read_u64(data, 8),
                parent_blockhash: read_array32(data, 16),
                total_points: read_u128(data, 48),
                total_rewards: read_u64(data, 64),
                distributed_rewards: read_u64(data, 72),
                active: data[80] == 1,
            },
        )
    }
}

impl Rent {
    /// Writes the rent parameters as bytes.
    pub fn serialize(&self) -> (out: Vec<u8>)
        ensures
            out@ == rent_bytes(*self),
    {
        let mut out: Vec<u8> = Vec::new();
        write_u64(&mut out, self.lamports_per_byte_year);
        write_u64(&mut out, self.exemption_threshold_bits);
        out.push(self.burn_percent);
        assert(out@ =~= rent_bytes(*self));
        out
    }

    /// Reads the rent parameters from the start of `data`.
    pub fn deserialize(data: &[u8]) -> (rent: Option<Rent>)
        ensures
            rent == rent_from_bytes(data@),
    {
        if data.len() < 17 {
            return None;
        }
        Some(
            Rent {
                lamports_per_byte_year: read_u64(data, 0),
                exemption_threshold_bits: read_u64(data, 8),
                burn_percent: data[16],
            },
        )
    }
}

impl LastRestartSlot {
    /// Writes the restart marker as bytes.
    pub fn serialize(&self) -> (out: Vec<u8>)
        ensures
            out@ == last_restart_slot_bytes(*self),
    {
        let mut out: Vec<u8> = Vec::new();
        write_u64(&mut out, self.last_restart_slot);
        assert(out@ =~= last_restart_slot_bytes(*self));
        out
    }

    /// Reads the restart marker from the start of `data`.
    pub fn deserialize(data: &[u8]) -> (marker: Option<LastRestartSlot>)
        ensures
            marker == last_restart_slot_from_bytes(data@),
    {
        if data.len() < 8 {
            return None;
        }
        Some(LastRestartSlot { last_restart_slot: read_u64(data, 0) })
    }
}

impl SlotHashes {
    /// Writes the slot hashes as bytes.
    pub fn serialize(&self) -> (out: Vec<u8>)
        ensures
            out@ == slot_hashes_bytes(self@),
    {
        let count = self.entries.len();
        let mut out: Vec<u8> = Vec::new();
        write_u64(&mut out, count as u64);
        let mut i: usize = 0;
        while i < count
            invariant
                i <= count,
                count == self.entries@.len(),
                out@ == le64(count as u64) + slot_hash_run_bytes(self.entries@.take(i as int)),
            decreases count - i,
        {
            let entry = self.entries[i];
            write_u64(&mut out, entry.0);
            write_bytes(&mut out, entry.1.as_slice());
            proof {
                let next = self.entries@.take(i + 1);
                assert(next.drop_last() =~= self.entries@.take(i as int));
                assert(next.last() == entry);
                assert(out@ =~= le64(count as u64) + slot_hash_run_bytes(next));
            }
            i += 1;
        }
        proof {
            assert(self.entries@.take(count as int) =~= self.entries@);
        }
        out
    }

    /// Reads slot hashes from the start of `data`.
    pub fn deserialize(data: &[u8]) -> (hashes: Option<SlotHashes>)
        ensures
            match hashes {
                Some(h) => slot_hashes_from_bytes(data@) == Some(h@),
                None => slot_hashes_from_bytes(data@) is None,
            },
    {
        let len = data.len();
        if len < 8 {
            return None;
        }
        let announced = read_u64(data, 0);
        if announced > ((len - 8) / 40) as u64 {
            return None;
        }
        let count = announced as usize;
        let mut entries: Vec<SlotHash> = Vec::new();
        let mut i: usize = 0;
        while i < count
            invariant
                i <= count,
                len == data@.len(),
                8 + 40 * count <= len,
                entries@.len() == i,
                forall|j: int| 0 <= j < i ==> entries@[j] == slot_hash_at(data@, j),
            decreases count - i,
        {
            let at = 8 + 40 * i;
            let slot = read_u64(data, at);
            let hash = read_array32(data, at + 8);
            entries.push((slot, hash));
            i += 1;
        }
        proof {
            assert(entries@ =~= Seq::new(announced as nat, |i: int| slot_hash_at(data@, i)));
        }
        Some(SlotHashes { entries })
    }
}

impl StakeHistory {
    /// Writes the stake history as bytes.
    pub fn serialize(&self) -> (out: Vec<u8>)
        ensures
            out@ == stake_history_bytes(self@),
    {
        let count = self.entries.len();
        let mut out: Vec<u8> = Vec::new();
        write_u64(&mut out, count as u64);
        let mut i: usize = 0;
        while i < count
            invariant
                i <= count,
                count == self.entries@.len(),
                out@ == le64(count as u64) + stake_run_bytes(self.entries@.take(i as int)),
            decreases count - i,
        {
            let entry = self.entries[i];
            write_u64(&mut out, entry.0);
            write_u64(&mut out, entry.1.effective);
            write_u64(&mut out, entry.1.activating);
            write_u64(&mut out, entry.1.deactivating);
            proof {
                let next = self.entries@.take(i + 1);
                assert(next.drop_last() =~= self.entries@.take(i as int));
                assert(next.last() == entry);
                assert(out@ =~= le64(count as u64) + stake_run_bytes(next));
            }
            i += 1;
        }
        proof {
            assert(self.entries@.take(count as int) =~= self.entries@);
        }
        out
    }

    /// Reads a stake history from the start of `data`.
    pub fn deserialize(data: &[u8]) -> (history: Option<StakeHistory>)
        ensures
            match history {
                Some(h) => stake_history_from_bytes(data@) == Some(h@),
                None => stake_history_from_bytes(data@) is None,
            },
    {
        let len = data.len();
        if len < 8 {
            return None;
        }
        let announced = read_u64(data, 0);
        if announced > ((len - 8) / 32) as u64 {
            return None;
        }
        let count = announced as usize;
        let mut entries: Vec<(u64, StakeHistoryEntry)> = Vec::new();
        let mut i: usize = 0;
        while i < count
            invariant
                i <= count,
                len == data@.len(),
                8 + 32 * count <= len,
                entries@.len() == i,
                forall|j: int| 0 <= j < i ==> entries@[j] == stake_entry_at(data@, j),
            decreases count - i,
        {
            let at = 8 + 32 * i;
            let epoch = read_u64(data, at);
            let effective = read_u64(data, at + 8);
            let activating = read_u64(data, at + 16);
            let deactivating = read_u64(data, at + 24);
            entries.push((epoch, StakeHistoryEntry { effective, activating, deactivating }));
            i += 1;
        }
        proof {
            assert(entries@ =~= Seq::new(announced as nat, |i: int| stake_entry_at(data@, i)));
        }
        Some(StakeHistory { entries })
    }
}

/// What rent exemption costs for `data_len` bytes of account data, under the
/// given rate and the exemption threshold with the given bit pattern.
pub uninterp spec fn rent_exempt_minimum(
    lamports_per_byte_year: u64,
    exemption_threshold_bits: u64,
    data_len: usize,
) -> u64;

/// `solana_rent::Rent::minimum_balance`, on rent parameters with the given rate
/// and threshold. It multiplies the storage overhead of 128 bytes plus
/// `data_len` by the rate in whole numbers, which must not overflow, then
/// scales by the threshold in floating point. The contract only names the
/// result.
#[allow(deprecated)]
#[verifier::external_body]
fn rent_minimum_balance(
    lamports_per_byte_year: u64,
    exemption_threshold_bits: u64,
    data_len: usize,
) -> (due: u64)
    requires
        128 + data_len <= u64::MAX,
        (128 + data_len) * lamports_per_byte_year <= u64::MAX,
    ensures
        due == rent_exempt_minimum(lamports_per_byte_year, exemption_threshold_bits, data_len),
{
    let mut rent = solana_rent::Rent::default();
    rent.lamports_per_byte_year = lamports_per_byte_year;
    rent.exemption_threshold = bytemuck::cast(exemption_threshold_bits);
    rent.minimum_balance(data_len)
}

impl Rent {
    /// The balance that exempts an account with `data_len` bytes of data from rent.
    pub fn minimum_balance(&self, data_len: usize) -> (due: u64)
        requires
            128 + data_len <= u64::MAX,
            (128 + data_len) * self.lamports_per_byte_year <= u64::MAX,
        ensures
            due == rent_exempt_minimum(
                self.lamports_per_byte_year,
                self.exemption_threshold_bits,
                data_len,
            ),
    {
        rent_minimum_balance(self.lamports_per_byte_year, self.exemption_threshold_bits, data_len)
    }
}

/// Later entries never have a greater slot than earlier ones.
pub open spec fn slots_descend(entries: Seq<SlotHash>) -> bool {
    forall|i: int, j: int| 0 <= i < j < entries.len() ==> entries[i].0 >= entries[j].0
}

/// `to` holds the entries of `from`, each once, and entries of equal slot in
/// the order in which `from` holds them: `origin[i]` is the position in `from`
/// of the entry at position `i` of `to`.
pub open spec fn reorders_stably(from: Seq<SlotHash>, to: Seq<SlotHash>, origin: Seq<int>)
    -> bool {
    &&& origin.len() == from.len()
    &&& to.len() == from.len()
    &&& forall|i: int|
        0 <= i < to.len() ==> 0 <= #[trigger] origin[i] < from.len() && to[i] == from[origin[i]]
    &&& forall|i: int, j: int|
        0 <= i < j < to.len() ==> #[trigger] origin[i] != #[trigger] origin[j]
    &&& forall|i: int, j: int|
        0 <= i < j < to.len() && to[i].0 == to[j].0 ==> #[trigger] origin[i] < #[trigger] origin[j]
}

/// `solana_slot_hashes::SlotHashes::new`, which copies the entries and sorts
/// the copy by slot, greatest first, with a stable sort.
#[verifier::external_body]
fn slot_hashes_sorted(entries: &Vec<SlotHash>) -> (sorted: Vec<SlotHash>)
    ensures
        slots_descend(sorted@),
        exists|origin: Seq<int>| reorders_stably(entries@, sorted@, origin),
{
    let outside: Vec<(u64, solana_hash::Hash)> = entries.iter().map(
        |entry| (entry.0, solana_hash::Hash::new_from_array(entry.1)),
    ).collect();
    let sorted = solana_slot_hashes::SlotHashes::new(&outside);
    sorted.slot_hashes().iter().map(|entry| (entry.0, entry.1.to_bytes())).collect()
}

/// The system variable cache: one typed value for each system variable.
#[derive(Debug)]
pub struct Sysvars {
    clock: Clock,
    epoch_schedule: EpochSchedule,
    epoch_rewards: EpochRewards,
    rent: Rent,
    slot_hashes: SlotHashes,
    stake_history: StakeHistory,
    last_restart_slot: LastRestartSlot,
}

/// What a [`Sysvars`] holds, as a mathematical value.
pub ghost struct SysvarsView {
    pub clock: Clock,
    pub epoch_schedule: EpochSchedule,
    pub epoch_rewards: EpochRewards,
    pub rent: Rent,
    pub slot_hashes: Seq<SlotHash>,
    pub stake_history: Seq<(u64, StakeHistoryEntry)>,
    pub last_restart_slot: LastRestartSlot,
}

impl View for Sysvars {
    type V = SysvarsView;

    closed spec fn view(&self) -> SysvarsView {
        SysvarsView {
            clock: self.clock,
            epoch_schedule: self.epoch_schedule,
            epoch_rewards: self.epoch_rewards,
            rent: self.rent,
            slot_hashes: self.slot_hashes@,
            stake_history: self.stake_history@,
            last_restart_slot: self.last_restart_slot,
        }
    }
}

/// The clock at the start of time.
pub open spec fn default_clock() -> Clock {
    Clock { slot: 0, epoch_start_timestamp: 0, epoch: 0, leader_schedule_epoch: 0, unix_timestamp: 0 }
}

/// The cache that a fresh session starts with.
///
/// Its values agree with one another: every one of the [`MAX_ENTRIES`] slot
/// hashes is the zero hash at the clock's slot, and the stake history has one
/// entry, without stake, for the clock's epoch.
pub open spec fn default_sysvars() -> SysvarsView {
    SysvarsView {
        clock: default_clock(),
        epoch_schedule: EpochSchedule {
            slots_per_epoch: 432_000,
            leader_schedule_slot_offset: 432_000,
            warmup: false,
            first_normal_epoch: 0,
            first_normal_slot: 0,
        },
        epoch_rewards: EpochRewards {
            distribution_starting_block_height: 0,
            num_partitions: 0,
            parent_blockhash: ZERO_HASH,
            total_points: 0,
            total_rewards: 0,
            distributed_rewards: 0,
            active: false,
        },
        rent: Rent {
            lamports_per_byte_year: 3480,
            exemption_threshold_bits: 0x4000_0000_0000_0000,
            burn_percent: 50,
        },
        slot_hashes: Seq::new(MAX_ENTRIES as nat, |i: int| (default_clock().slot, ZERO_HASH)),
        stake_history: seq![
            (
                default_clock().epoch,
                StakeHistoryEntry { effective: 0, activating: 0, deactivating: 0 },
            ),
        ],
        last_restart_slot: LastRestartSlot { last_restart_slot: 0 },
    }
}

/// The bytes of one system variable of the cache.
pub open spec fn sysvar_data(vars: SysvarsView, kind: SysvarKind) -> Seq<u8> {
    match kind {
        SysvarKind::Clock => clock_bytes(vars.clock),
        SysvarKind::EpochSchedule => epoch_schedule_bytes(vars.epoch_schedule),
        SysvarKind::EpochRewards => epoch_rewards_bytes(vars.epoch_rewards),
        SysvarKind::Rent => rent_bytes(vars.rent),
        SysvarKind::SlotHashes => slot_hashes_bytes(vars.slot_hashes),
        SysvarKind::StakeHistory => stake_history_bytes(vars.stake_history),
        SysvarKind::LastRestartSlot => last_restart_slot_bytes(vars.last_restart_slot),
    }
}

/// The account under which one system variable of the cache is read: no
/// balance, the variable's bytes as data, owned by the system variable owner.
pub open spec fn sysvar_account(vars: SysvarsView, kind: SysvarKind) -> AccountView {
    AccountView {
        lamports: 0,
        data: sysvar_data(vars, kind),
        owner: Pubkey { bytes: SYSVAR_OWNER_ID },
        executable: false,
        rent_epoch: 0,
    }
}

/// The cache after `data` was written to one system variable, if `data`
/// decodes as that variable. Nothing but that variable changes.
pub open spec fn sysvar_written(vars: SysvarsView, kind: SysvarKind, data: Seq<u8>) -> Option<
    SysvarsView,
> {
    match kind {
        SysvarKind::Clock => match clock_from_bytes(data) {
            Some(clock) => Some(SysvarsView { clock, ..vars }),
            None => None,
        },
        SysvarKind::EpochSchedule => match epoch_schedule_from_bytes(data) {
            Some(epoch_schedule) => Some(SysvarsView { epoch_schedule, ..vars }),
            None => None,
        },
        SysvarKind::EpochRewards => match epoch_rewards_from_bytes(data) {
            Some(epoch_rewards) => Some(SysvarsView { epoch_rewards, ..vars }),
            None => None,
        },
        SysvarKind::Rent => match rent_from_bytes(data) {
            Some(rent) => Some(SysvarsView { rent, ..vars }),
            None => None,
        },
        SysvarKind::SlotHashes => match slot_hashes_from_bytes(data) {
            Some(slot_hashes) => Some(SysvarsView { slot_hashes, ..vars }),
            None => None,
        },
        SysvarKind::StakeHistory => match stake_history_from_bytes(data) {
            Some(stake_history) => Some(SysvarsView { stake_history, ..vars }),
            None => None,
        },
        SysvarKind::LastRestartSlot => match last_restart_slot_from_bytes(data) {
            Some(last_restart_slot) => Some(SysvarsView { last_restart_slot, ..vars }),
            None => None,
        },
    }
}

impl Default for Sysvars {
    fn default() -> (vars: Sysvars)
        ensures
            vars@ == default_sysvars(),
    {
        let clock = Clock {
            slot: 0,
            epoch_start_timestamp: 0,
            epoch: 0,
            leader_schedule_epoch: 0,
            unix_timestamp: 0,
        };
        let mut hashes: Vec<SlotHash> = Vec::new();
        let mut i: usize = 0;
        while i < MAX_ENTRIES
            invariant
                i <= MAX_ENTRIES,
                clock == default_clock(),
                hashes@ == Seq::new(i as nat, |j: int| (default_clock().slot, ZERO_HASH)),
            decreases MAX_ENTRIES - i,
        {
            hashes.push((clock.slot, ZERO_HASH));
            i += 1;
        }
        let mut stakes: Vec<(u64, StakeHistoryEntry)> = Vec::new();
        stakes.push((clock.epoch, StakeHistoryEntry { effective: 0, activating: 0, deactivating: 0 }));
        let vars = Sysvars {
            clock,
            epoch_schedule: EpochSchedule {
                slots_per_epoch: 432_000,
                leader_schedule_slot_offset: 432_000,
                warmup: false,
                first_normal_epoch: 0,
                first_normal_slot: 0,
            },
            epoch_rewards: EpochRewards {
                distribution_starting_block_height: 0,
                num_partitions: 0,
                parent_blockhash: ZERO_HASH,
                total_points: 0,
                total_rewards: 0,
                distributed_rewards: 0,
                active: false,
            },
            rent: Rent {
                lamports_per_byte_year: 3480,
                exemption_threshold_bits: 0x4000_0000_0000_0000,
                burn_percent: 50,
            },
            slot_hashes: SlotHashes { entries: hashes },
            stake_history: StakeHistory { entries: stakes },
            last_restart_slot: LastRestartSlot { last_restart_slot: 0 },
        };
        proof {
            assert(vars@.stake_history =~= default_sysvars().stake_history);
            assert(vars@.slot_hashes =~= default_sysvars().slot_hashes);
        }
        vars
    }
}

impl Sysvars {
    pub fn clock(&self) -> (clock: Clock)
        ensures
            clock == self@.clock,
    {
        self.clock
    }

    pub fn epoch_schedule(&self) -> (schedule: EpochSchedule)
        ensures
            schedule == self@.epoch_schedule,
    {
        self.epoch_schedule
    }

    pub fn epoch_rewards(&self) -> (rewards: EpochRewards)
        ensures
            rewards == self@.epoch_rewards,
    {
        self.epoch_rewards
    }

    pub fn rent(&self) -> (rent: Rent)
        ensures
            rent == self@.rent,
    {
        self.rent
    }

    /// The slot hashes of the cache, sorted by slot, greatest first. Entries of
    /// equal slot keep the order in which the cache holds them.
    pub fn slot_hashes(&self) -> (hashes: SlotHashes)
        ensures
            slots_descend(hashes@),
            exists|origin: Seq<int>| reorders_stably(self@.slot_hashes, hashes@, origin),
    {
        let sorted = slot_hashes_sorted(&self.slot_hashes.entries);
        proof {
            let origin = choose|origin: Seq<int>|
                reorders_stably(self.slot_hashes.entries@, sorted@, origin);
            assert(reorders_stably(self@.slot_hashes, sorted@, origin));
        }
        SlotHashes { entries: sorted }
    }

    pub fn stake_history(&self) -> (history: StakeHistory)
        ensures
            history@ == self@.stake_history,
    {
        let mut entries: Vec<(u64, StakeHistoryEntry)> = Vec::new();
        let mut i: usize = 0;
        while i < self.stake_history.entries.len()
            invariant
                i <= self.stake_history.entries@.len(),
                entries@ == self.stake_history.entries@.take(i as int),
            decreases self.stake_history.entries@.len() - i,
        {
            entries.push(self.stake_history.entries[i]);
            proof {
                assert(entries@ =~= self.stake_history.entries@.take(i + 1));
            }
            i += 1;
        }
        proof {
            assert(entries@ =~= self.stake_history.entries@);
        }
        StakeHistory { entries }
    }

    pub fn last_restart_slot(&self) -> (marker: LastRestartSlot)
        ensures
            marker == self@.last_restart_slot,
    {
        self.last_restart_slot
    }

    /// Whether `sysvar` names one of the system variables of the cache.
    pub fn is_sysvar(&self, sysvar: &Pubkey) -> (known: bool)
        ensures
            known == kind_of(*sysvar).is_some(),
    {
        sysvar_kind(sysvar).is_some()
    }

    /// Writes the data of `account` to the system variable that `sysvar` names.
    ///
    /// Fails, and leaves the cache as it was, where `sysvar` names no system
    /// variable or the data does not decode as that variable. Of the account
    /// only the data is read.
    pub fn set(&mut self, sysvar: &Pubkey, account: AccountSharedData) -> (done: Result<
        (),
        SeashellError,
    >)
        ensures
            match kind_of(*sysvar) {
                None => done == Err::<(), SeashellError>(SeashellError::UnknownSystemVariable)
                    && final(self)@ == old(self)@,
                Some(kind) => match sysvar_written(old(self)@, kind, account.data@) {
                    Some(written) => done == Ok::<(), SeashellError>(()) && final(self)@ == written,
                    None => done == Err::<(), SeashellError>(
                        SeashellError::InvalidSystemVariableEncoding,
                    ) && final(self)@ == old(self)@,
                },
            },
    {
        let data = account.data.as_slice();
        match sysvar_kind(sysvar) {
            None => Err(SeashellError::UnknownSystemVariable),
            Some(SysvarKind::Clock) => match Clock::deserialize(data) {
                Some(clock) => {
                    self.clock = clock;
                    Ok(())
                },
                None => Err(SeashellError::InvalidSystemVariableEncoding),
            },
            Some(SysvarKind::EpochSchedule) => match EpochSchedule::deserialize(data) {
                Some(schedule) => {
                    self.epoch_schedule = schedule;
                    Ok(())
                },
                None => Err(SeashellError::InvalidSystemVariableEncoding),
            },
            Some(SysvarKind::EpochRewards) => match EpochRewards::deserialize(data) {
                Some(rewards) => {
                    self.epoch_rewards = rewards;
                    Ok(())
                },
                None => Err(SeashellError::InvalidSystemVariableEncoding),
            },
            Some(SysvarKind::Rent) => match Rent::deserialize(data) {
                Some(rent) => {
                    self.rent = rent;
                    Ok(())
                },
                None => Err(SeashellError::InvalidSystemVariableEncoding),
            },
            Some(SysvarKind::SlotHashes) => match SlotHashes::deserialize(data) {
                Some(hashes) => {
                    self.slot_hashes = hashes;
                    Ok(())
                },
                None => Err(SeashellError::InvalidSystemVariableEncoding),
            },
            Some(SysvarKind::StakeHistory) => match StakeHistory::deserialize(data) {
                Some(history) => {
                    self.stake_history = history;
                    Ok(())
                },
                None => Err(SeashellError::InvalidSystemVariableEncoding),
            },
            Some(SysvarKind::LastRestartSlot) => match LastRestartSlot::deserialize(data) {
                Some(marker) => {
                    self.last_restart_slot = marker;
                    Ok(())
                },
                None => Err(SeashellError::InvalidSystemVariableEncoding),
            },
        }
    }

    /// Reads the system variable that `sysvar` names as an account: the
    /// variable's bytes as data, no balance, owned by the system variable owner.
    ///
    /// Fails exactly where `sysvar` names no system variable.
    pub fn get(&self, sysvar: &Pubkey) -> (found: Result<AccountSharedData, SeashellError>)
        ensures
            match kind_of(*sysvar) {
                None => found == Err::<AccountSharedData, SeashellError>(
                    SeashellError::UnknownSystemVariable,
                ),
                Some(kind) => found matches Ok(account) && account@ == sysvar_account(self@, kind),
            },
    {
        match sysvar_kind(sysvar) {
            None => Err(SeashellError::UnknownSystemVariable),
            Some(kind) => Ok(self.account_of(kind)),
        }
    }

    /// Reads one system variable as an account.
    pub fn account_of(&self, kind: SysvarKind) -> (account: AccountSharedData)
        ensures
            account@ == sysvar_account(self@, kind),
    {
        let data = match kind {
            SysvarKind::Clock => self.clock.serialize(),
            SysvarKind::EpochSchedule => self.epoch_schedule.serialize(),
            SysvarKind::EpochRewards => self.epoch_rewards.serialize(),
            SysvarKind::Rent => self.rent.serialize(),
            SysvarKind::SlotHashes => self.slot_hashes.serialize(),
            SysvarKind::StakeHistory => self.stake_history.serialize(),
            SysvarKind::LastRestartSlot => self.last_restart_slot.serialize(),
        };
        Account {
            lamports: 0,
            data,
            owner: Pubkey { bytes: SYSVAR_OWNER_ID },
            executable: false,
            rent_epoch: 0,
        }
    }

    /// Moves the clock to `slot` and `timestamp`. Nothing else changes.
    pub fn warp(&mut self, slot: u64, timestamp: i64)
        ensures
            final(self)@ == (SysvarsView {
                clock: Clock { slot, unix_timestamp: timestamp, ..old(self)@.clock },
                ..old(self)@
            }),
    {
        self.clock.slot = slot;
        self.clock.unix_timestamp = timestamp;
    }
}

/// A clock is read back from its bytes.
pub proof fn lemma_clock_reads_back(clock: Clock)
    ensures
        clock_from_bytes(clock_bytes(clock)) == Some(clock),
{
    lemma_auto_spec_u64_to_from_le_bytes();
    lemma_signed_bits_read_back(clock.epoch_start_timestamp);
    lemma_signed_bits_read_back(clock.unix_timestamp);
    let data = clock_bytes(clock);
    assert(data.subrange(0, 8) =~= le64(clock.slot));
    assert(data.subrange(8, 16) =~= le64(signed_bits(clock.epoch_start_timestamp)));
    assert(data.subrange(16, 24) =~= le64(clock.epoch));
    assert(data.subrange(24, 32) =~= le64(clock.leader_schedule_epoch));
    assert(data.subrange(32, 40) =~= le64(signed_bits(clock.unix_timestamp)));
}

/// An epoch schedule is read back from its bytes.
pub proof fn lemma_epoch_schedule_reads_back(schedule: EpochSchedule)
    ensures
        epoch_schedule_from_bytes(epoch_schedule_bytes(schedule)) == Some(schedule),
{
    lemma_auto_spec_u64_to_from_le_bytes();
    let data = epoch_schedule_bytes(schedule);
    assert(data.subrange(0, 8) =~= le64(schedule.slots_per_epoch));
    assert(data.subrange(8, 16) =~= le64(schedule.leader_schedule_slot_offset));
    assert(data[16] == bool_byte(schedule.warmup));
    assert(data.subrange(17, 25) =~= le64(schedule.first_normal_epoch));
    assert(data.subrange(25, 33) =~= le64(schedule.first_normal_slot));
}

/// The epoch rewards are read back from their bytes.
pub proof fn lemma_epoch_rewards_read_back(rewards: EpochRewards)
    ensures
        epoch_rewards_from_bytes(epoch_rewards_bytes(rewards)) == Some(rewards),
{
    lemma_auto_spec_u64_to_from_le_bytes();
    lemma_auto_spec_u128_to_from_le_bytes();
    lemma_array32_of_view(rewards.parent_blockhash);
    let data = epoch_rewards_bytes(rewards);
    assert(le128(rewards.total_points).len() == 16);
    assert(rewards.parent_blockhash@.len() == 32);
    assert(data.len() == 81);
    assert(data.subrange(0, 8) =~= le64(rewards.distribution_starting_block_height));
    assert(data.subrange(8, 16) =~= le64(rewards.num_partitions));
    assert(data.subrange(16, 48) =~= rewards.parent_blockhash@);
    assert(data.subrange(48, 64) =~= le128(rewards.total_points));
    assert(data.subrange(64, 72) =~= le64(rewards.total_rewards));
    assert(data.subrange(72, 80) =~= le64(rewards.distributed_rewards));
    assert(data[80] == bool_byte(rewards.active));
}

/// The rent parameters are read back from their bytes.
pub proof fn lemma_rent_reads_back(rent: Rent)
    ensures
        rent_from_bytes(rent_bytes(rent)) == Some(rent),
{
    lemma_auto_spec_u64_to_from_le_bytes();
    let data = rent_bytes(rent);
    assert(data.subrange(0, 8) =~= le64(rent.lamports_per_byte_year));
    assert(data.subrange(8, 16) =~= le64(rent.exemption_threshold_bits));
    assert(data[16] == rent.burn_percent);
}

/// The restart marker is read back from its bytes.
pub proof fn lemma_last_restart_slot_reads_back(marker: LastRestartSlot)
    ensures
        last_restart_slot_from_bytes(last_restart_slot_bytes(marker)) == Some(marker),
{
    lemma_auto_spec_u64_to_from_le_bytes();
    let data = last_restart_slot_bytes(marker);
    assert(data.subrange(0, 8) =~= le64(marker.last_restart_slot));
}

/// In a run of slot hashes each entry takes 40 bytes, in order.
proof fn lemma_slot_hash_run(entries: Seq<SlotHash>)
    ensures
        slot_hash_run_bytes(entries).len() == 40 * entries.len(),
        forall|i: int|
            0 <= i < entries.len() ==> #[trigger] slot_hash_run_bytes(entries).subrange(
                40 * i,
                40 * i + 40,
            ) == slot_hash_bytes(entries[i]),
    decreases entries.len(),
{
    lemma_auto_spec_u64_to_from_le_bytes();
    if entries.len() > 0 {
        let front = entries.drop_last();
        lemma_slot_hash_run(front);
        let run = slot_hash_run_bytes(entries);
        let last = slot_hash_bytes(entries.last());
        assert(last.len() == 40);
        assert forall|i: int| 0 <= i < entries.len() implies #[trigger] run.subrange(
            40 * i,
            40 * i + 40,
        ) == slot_hash_bytes(entries[i]) by {
            if i < front.len() {
                assert(run.subrange(40 * i, 40 * i + 40) =~= slot_hash_run_bytes(front).subrange(
                    40 * i,
                    40 * i + 40,
                ));
                assert(front[i] == entries[i]);
            } else {
                assert(run.subrange(40 * i, 40 * i + 40) =~= last);
            }
        }
    }
}

/// Slot hashes are read back from their bytes.
pub proof fn lemma_slot_hashes_read_back(entries: Seq<SlotHash>)
    requires
        entries.len() <= u64::MAX,
    ensures
        slot_hashes_from_bytes(slot_hashes_bytes(entries)) == Some(entries),
{
    lemma_auto_spec_u64_to_from_le_bytes();
    lemma_slot_hash_run(entries);
    let count = entries.len() as u64;
    let run = slot_hash_run_bytes(entries);
    let data = slot_hashes_bytes(entries);
    assert(data.subrange(0, 8) =~= le64(count));
    assert(data.len() == 8 + 40 * entries.len());
    let read = Seq::new(count as nat, |i: int| slot_hash_at(data, i));
    assert forall|i: int| 0 <= i < entries.len() implies read[i] == entries[i] by {
        let piece = run.subrange(40 * i, 40 * i + 40);
        assert(piece == slot_hash_bytes(entries[i]));
        assert(data.subrange(8 + 40 * i, 16 + 40 * i) =~= piece.subrange(0, 8));
        assert(data.subrange(16 + 40 * i, 48 + 40 * i) =~= piece.subrange(8, 40));
        assert(piece.subrange(0, 8) =~= le64(entries[i].0));
        assert(piece.subrange(8, 40) =~= entries[i].1@);
        lemma_array32_of_view(entries[i].1);
    }
    assert(read =~= entries);
}

/// In a run of stake history entries each entry takes 32 bytes, in order.
proof fn lemma_stake_run(entries: Seq<(u64, StakeHistoryEntry)>)
    ensures
        stake_run_bytes(entries).len() == 32 * entries.len(),
        forall|i: int|
            0 <= i < entries.len() ==> #[trigger] stake_run_bytes(entries).subrange(
                32 * i,
                32 * i + 32,
            ) == stake_entry_bytes(entries[i]),
    decreases entries.len(),
{
    lemma_auto_spec_u64_to_from_le_bytes();
    if entries.len() > 0 {
        let front = entries.drop_last();
        lemma_stake_run(front);
        let run = stake_run_bytes(entries);
        let last = stake_entry_bytes(entries.last());
        assert(last.len() == 32);
        assert forall|i: int| 0 <= i < entries.len() implies #[trigger] run.subrange(
            32 * i,
            32 * i + 32,
        ) == stake_entry_bytes(entries[i]) by {
            if i < front.len() {
                assert(run.subrange(32 * i, 32 * i + 32) =~= stake_run_bytes(front).subrange(
                    32 * i,
                    32 * i + 32,
                ));
                assert(front[i] == entries[i]);
            } else {
                assert(run.subrange(32 * i, 32 * i + 32) =~= last);
            }
        }
    }
}

/// A stake history is read back from its bytes.
pub proof fn lemma_stake_history_reads_back(entries: Seq<(u64, StakeHistoryEntry)>)
    requires
        entries.len() <= u64::MAX,
    ensures
        stake_history_from_bytes(stake_history_bytes(entries)) == Some(entries),
{
    lemma_auto_spec_u64_to_from_le_bytes();
    lemma_stake_run(entries);
    let count = entries.len() as u64;
    let run = stake_run_bytes(entries);
    let data = stake_history_bytes(entries);
    assert(data.subrange(0, 8) =~= le64(count));
    assert(data.len() == 8 + 32 * entries.len());
    let read = Seq::new(count as nat, |i: int| stake_entry_at(data, i));
    assert forall|i: int| 0 <= i < entries.len() implies read[i] == entries[i] by {
        let piece = run.subrange(32 * i, 32 * i + 32);
        assert(piece == stake_entry_bytes(entries[i]));
        assert(data.subrange(8 + 32 * i, 16 + 32 * i) =~= piece.subrange(0, 8));
        assert(data.subrange(16 + 32 * i, 24 + 32 * i) =~= piece.subrange(8, 16));
        assert(data.subrange(24 + 32 * i, 32 + 32 * i) =~= piece.subrange(16, 24));
        assert(data.subrange(32 + 32 * i, 40 + 32 * i) =~= piece.subrange(24, 32));
        assert(piece.subrange(0, 8) =~= le64(entries[i].0));
        assert(piece.subrange(8, 16) =~= le64(entries[i].1.effective));
        assert(piece.subrange(16, 24) =~= le64(entries[i].1.activating));
        assert(piece.subrange(24, 32) =~= le64(entries[i].1.deactivating));
    }
    assert(read =~= entries);
}

/// Writing to a system variable what was read from it changes nothing: the
/// bytes that the cache gives for a system variable decode to the value that
/// the cache holds.
pub proof fn lemma_system_variable_reads_back(vars: SysvarsView, kind: SysvarKind)
    requires
        vars.slot_hashes.len() <= u64::MAX,
        vars.stake_history.len() <= u64::MAX,
    ensures
        sysvar_written(vars, kind, sysvar_data(vars, kind)) == Some(vars),
{
    lemma_clock_reads_back(vars.clock);
    lemma_epoch_schedule_reads_back(vars.epoch_schedule);
    lemma_epoch_rewards_read_back(vars.epoch_rewards);
    lemma_rent_reads_back(vars.rent);
    lemma_slot_hashes_read_back(vars.slot_hashes);
    lemma_stake_history_reads_back(vars.stake_history);
    lemma_last_restart_slot_reads_back(vars.last_restart_slot);
}

} // verus!
