//! The metadata of one installed app, and the packed and enumerated fields
//! that a manifest encodes it with.

use std::collections::BTreeMap;

use vstd::prelude::*;

verus! {

/// The Steam universe an app belongs to.
#[derive(Debug, Clone, Copy, PartialEq, Eq, Structural)]
pub enum Universe {
    Invalid,
    Public,
    Beta,
    Internal,
    Dev,
    Unknown(u64),
}

impl Universe {
    /// The universe that a raw manifest value stands for.
    pub open spec fn of(value: u64) -> Universe {
        match value {
            0 => Universe::Invalid,
            1 => Universe::Public,
            2 => Universe::Beta,
            3 => Universe::Internal,
            4 => Universe::Dev,
            unknown => Universe::Unknown(unknown),
        }
    }

    /// The raw value that a universe is written as.
    pub open spec fn raw(self) -> u64 {
        match self {
            Universe::Invalid => 0,
            Universe::Public => 1,
            Universe::Beta => 2,
            Universe::Internal => 3,
            Universe::Dev => 4,
            Universe::Unknown(unknown) => unknown,
        }
    }
}

impl From<u64> for Universe {
    fn from(value: u64) -> (universe: Self) {
        if value == 0 {
            Universe::Invalid
        } else if value == 1 {
            Universe::Public
        } else if value == 2 {
            Universe::Beta
        } else if value == 3 {
            Universe::Internal
        } else if value == 4 {
            Universe::Dev
        } else {
            Universe::Unknown(value)
        }
    }
}

impl vstd::std_specs::convert::FromSpecImpl<u64> for Universe {
    open spec fn obeys_from_spec() -> bool {
        true
    }

    open spec fn from_spec(value: u64) -> Self {
        Universe::of(value)
    }
}

/// Whether other downloads may run while the app does.
#[derive(Debug, Clone, Copy, PartialEq, Eq, Structural)]
pub enum AllowOtherDownloadsWhileRunning {
    UseGlobalSetting,
    Allow,
    Never,
    Unknown(u64),
}

impl AllowOtherDownloadsWhileRunning {
    /// The setting that a raw manifest value stands for.
    pub open spec fn of(value: u64) -> AllowOtherDownloadsWhileRunning {
        match value {
            0 => AllowOtherDownloadsWhileRunning::UseGlobalSetting,
            1 => AllowOtherDownloadsWhileRunning::Allow,
            2 => AllowOtherDownloadsWhileRunning::Never,
            unknown => AllowOtherDownloadsWhileRunning::Unknown(unknown),
        }
    }

    /// The raw value that a setting is written as.
    pub open spec fn raw(self) -> u64 {
        match self {
            AllowOtherDownloadsWhileRunning::UseGlobalSetting => 0,
            AllowOtherDownloadsWhileRunning::Allow => 1,
            AllowOtherDownloadsWhileRunning::Never => 2,
            AllowOtherDownloadsWhileRunning::Unknown(unknown) => unknown,
        }
    }
}

impl From<u64> for AllowOtherDownloadsWhileRunning {
    fn from(value: u64) -> (setting: Self) {
        if value == 0 {
            AllowOtherDownloadsWhileRunning::UseGlobalSetting
        } else if value == 1 {
            AllowOtherDownloadsWhileRunning::Allow
        } else if value == 2 {
            AllowOtherDownloadsWhileRunning::Never
        } else {
            AllowOtherDownloadsWhileRunning::Unknown(value)
        }
    }
}

impl vstd::std_specs::convert::FromSpecImpl<u64> for AllowOtherDownloadsWhileRunning {
    open spec fn obeys_from_spec() -> bool {
        true
    }

    open spec fn from_spec(value: u64) -> Self {
        AllowOtherDownloadsWhileRunning::of(value)
    }
}

impl Default for AllowOtherDownloadsWhileRunning {
    fn default() -> (setting: Self)
        ensures
            setting == AllowOtherDownloadsWhileRunning::UseGlobalSetting,
    {
        AllowOtherDownloadsWhileRunning::UseGlobalSetting
    }
}

/// When the app is brought up to date.
#[derive(Debug, Clone, Copy, PartialEq, Eq, Structural)]
pub enum AutoUpdateBehavior {
    KeepUpToDate,
    OnlyUpdateOnLaunch,
    UpdateWithHighPriority,
    Unknown(u64),
}

impl AutoUpdateBehavior {
    /// The behavior that a raw manifest value stands for.
    pub open spec fn of(value: u64) -> AutoUpdateBehavior {
        match value {
            0 => AutoUpdateBehavior::KeepUpToDate,
            1 => AutoUpdateBehavior::OnlyUpdateOnLaunch,
            2 => AutoUpdateBehavior::UpdateWithHighPriority,
            unknown => AutoUpdateBehavior::Unknown(unknown),
        }
    }

    /// The raw value that a behavior is written as.
    pub open spec fn raw(self) -> u64 {
        match self {
            AutoUpdateBehavior::KeepUpToDate => 0,
            AutoUpdateBehavior::OnlyUpdateOnLaunch => 1,
            AutoUpdateBehavior::UpdateWithHighPriority => 2,
            AutoUpdateBehavior::Unknown(unknown) => unknown,
        }
    }
}

impl From<u64> for AutoUpdateBehavior {
    fn from(value: u64) -> (behavior: Self) {
        if value == 0 {
            AutoUpdateBehavior::KeepUpToDate
        } else if value == 1 {
            AutoUpdateBehavior::OnlyUpdateOnLaunch
        } else if value == 2 {
            AutoUpdateBehavior::UpdateWithHighPriority
        } else {
            AutoUpdateBehavior::Unknown(value)
        }
    }
}

impl vstd::std_specs::convert::FromSpecImpl<u64> for AutoUpdateBehavior {
    open spec fn obeys_from_spec() -> bool {
        true
    }

    open spec fn from_spec(value: u64) -> Self {
        AutoUpdateBehavior::of(value)
    }
}

impl Default for AutoUpdateBehavior {
    fn default() -> (behavior: Self)
        ensures
            behavior == AutoUpdateBehavior::KeepUpToDate,
    {
        AutoUpdateBehavior::KeepUpToDate
    }
}

/// No raw value is lost by decoding it: each of the three enumerations
/// writes the variant of a value as that value again.
pub proof fn lemma_enumerations_lossless(value: u64)
    ensures
        Universe::of(value).raw() == value,
        AutoUpdateBehavior::of(value).raw() == value,
        AllowOtherDownloadsWhileRunning::of(value).raw() == value,
{
}

/// A point in time, as the whole seconds that it lies after the Unix
/// epoch.
#[derive(Debug, Clone, Copy, PartialEq, Eq, Structural)]
pub struct UnixTime {
    pub secs: u64,
}

/// The point in time that a raw manifest value stands for: zero stands for
/// no time at all, any other value for that many seconds after the epoch.
pub open spec fn time_of(secs: u64) -> Option<UnixTime> {
    if secs == 0 {
        None
    } else {
        Some(UnixTime { secs })
    }
}

/// Reads a raw manifest value as a point in time.
pub fn time_as_secs_from_unix_epoch(secs: u64) -> (time: Option<UnixTime>)
    ensures
        time == time_of(secs),
{
    if secs == 0 {
        None
    } else {
        Some(UnixTime { secs })
    }
}

/// The seconds of a point in time as a clock can hold them whose latest
/// second is `latest`: the seconds themselves where the clock reaches
/// them, and else the latest that it reaches.
pub fn saturate(secs: u64, latest: u64) -> (held: u64)
    ensures
        held == if secs <= latest {
            secs
        } else {
            latest
        },
{
    if secs <= latest {
        secs
    } else {
        latest
    }
}

/// When the next automatic update of an app is due.
#[derive(Debug, Clone, Copy, PartialEq, Eq, Structural)]
pub enum ScheduledAutoUpdate {
    /// None is scheduled.
    Zero,
    Time(UnixTime),
}

impl ScheduledAutoUpdate {
    /// The schedule that a raw manifest value stands for.
    pub open spec fn of(secs: u64) -> ScheduledAutoUpdate {
        match time_of(secs) {
            None => ScheduledAutoUpdate::Zero,
            Some(time) => ScheduledAutoUpdate::Time(time),
        }
    }

    /// The time of the scheduled update, if one is scheduled.
    pub open spec fn spec_time(self) -> Option<UnixTime> {
        match self {
            ScheduledAutoUpdate::Zero => None,
            ScheduledAutoUpdate::Time(time) => Some(time),
        }
    }

    /// Reads a raw manifest value as a schedule.
    pub fn from_secs(secs: u64) -> (schedule: ScheduledAutoUpdate)
        ensures
            schedule == ScheduledAutoUpdate::of(secs),
    {
        match time_as_secs_from_unix_epoch(secs) {
            None => ScheduledAutoUpdate::Zero,
            Some(time) => ScheduledAutoUpdate::Time(time),
        }
    }

    /// The time of the scheduled update, if one is scheduled.
    #[verifier::when_used_as_spec(spec_time)]
    pub fn time(self) -> (time: Option<UnixTime>)
        ensures
            time == self.spec_time(),
    {
        match self {
            ScheduledAutoUpdate::Zero => None,
            ScheduledAutoUpdate::Time(time) => Some(time),
        }
    }
}

/// A raw schedule of zero is no schedule; any other value `secs` is a
/// schedule for the time `secs` seconds after the epoch.
pub proof fn lemma_schedule_of_raw(secs: u64)
    ensures
        secs == 0 ==> ScheduledAutoUpdate::of(secs).time() is None,
        secs != 0 ==> ScheduledAutoUpdate::of(secs).time() == Some(UnixTime { secs }),
{
}

/// One unit of an app's content.
#[derive(Debug, Clone, Copy, PartialEq, Eq, Structural)]
pub struct Depot {
    pub manifest: u64,
    pub size: u64,
    pub dlc_app_id: Option<u64>,
}

/// The metadata of one installed app, as its manifest gives it.
#[derive(Debug, Clone, PartialEq, Eq)]
pub struct App {
    /// The id of the app.
    pub app_id: u32,
    /// The name of the app's directory, as in `GarrysMod`.
    pub install_dir: String,
    /// The name of the app in the store.
    pub name: Option<String>,
    /// The id of the user who last played the app.
    pub last_user: Option<u64>,
    pub universe: Option<Universe>,
    pub launcher_path: Option<String>,
    pub state_flags: Option<StateFlags>,
    pub last_updated: Option<UnixTime>,
    pub update_result: Option<u64>,
    pub size_on_disk: Option<u64>,
    pub build_id: Option<u64>,
    pub bytes_to_download: Option<u64>,
    pub bytes_downloaded: Option<u64>,
    pub bytes_to_stage: Option<u64>,
    pub bytes_staged: Option<u64>,
    pub staging_size: Option<u64>,
    pub target_build_id: Option<u64>,
    pub auto_update_behavior: Option<AutoUpdateBehavior>,
    pub allow_other_downloads_while_running: Option<AllowOtherDownloadsWhileRunning>,
    pub scheduled_auto_update: Option<ScheduledAutoUpdate>,
    pub full_validate_before_next_update: Option<bool>,
    pub full_validate_after_next_update: Option<bool>,
    pub installed_depots: BTreeMap<u64, Depot>,
    pub staged_depots: BTreeMap<u64, Depot>,
    /// The user's settings, one pair for each key, in the manifest's order.
    pub user_config: Vec<(String, String)>,
    /// The settings in force, one pair for each key, in the manifest's
    /// order.
    pub mounted_config: Vec<(String, String)>,
    pub install_scripts: BTreeMap<u64, String>,
    pub shared_depots: BTreeMap<u64, u64>,
}

/// The packed state bits of an app, as the manifest stores them.
#[derive(Debug, Clone, Copy, PartialEq, Eq, Structural)]
pub struct StateFlags(pub u64);

/// One named condition of an app's installation state.
#[derive(Debug, Clone, Copy, PartialEq, Eq, Structural)]
pub enum StateFlag {
    Invalid,
    Uninstalled,
    UpdateRequired,
    FullyInstalled,
    Encrypted,
    Locked,
    FilesMissing,
    AppRunning,
    FilesCorrupt,
    UpdateRunning,
    UpdatePaused,
    UpdateStarted,
    Uninstalling,
    BackupRunning,
    Reconfiguring,
    Validating,
    AddingFiles,
    Preallocating,
    Downloading,
    Staging,
    Committing,
    UpdateStopping,
    Unknown(u8),
}

/// Whether bit `offset` of `bits` is set. Offsets from 64 on name no bit.
pub open spec fn bit_is_set(bits: u64, offset: nat) -> bool {
    offset < 64 && bits & (1u64 << (offset as u64)) != 0
}

/// The offsets of the set bits of `bits` that are at least `from`, ascending.
pub open spec fn set_offsets(bits: u64, from: nat) -> Seq<u8>
    decreases 64 - from,
{
    if from >= 64 {
        Seq::empty()
    } else if bit_is_set(bits, from) {
        seq![from as u8] + set_offsets(bits, from + 1)
    } else {
        set_offsets(bits, from + 1)
    }
}

/// The flags that a packed value stands for: `Invalid` alone for zero,
/// else one flag for each set bit, lowest bit first.
pub open spec fn flags_of(bits: u64) -> Seq<StateFlag> {
    if bits == 0 {
        seq![StateFlag::Invalid]
    } else {
        set_offsets(bits, 0).map_values(|offset: u8| StateFlag::at_offset(offset))
    }
}

impl StateFlag {
    /// The flag that a set bit at `offset` stands for.
    pub open spec fn at_offset(offset: u8) -> StateFlag {
        match offset {
            0 => StateFlag::Uninstalled,
            1 => StateFlag::UpdateRequired,
            2 => StateFlag::FullyInstalled,
            3 => StateFlag::Encrypted,
            4 => StateFlag::Locked,
            5 => StateFlag::FilesMissing,
            6 => StateFlag::AppRunning,
            7 => StateFlag::FilesCorrupt,
            8 => StateFlag::UpdateRunning,
            9 => StateFlag::UpdatePaused,
            10 => StateFlag::UpdateStarted,
            11 => StateFlag::Uninstalling,
            12 => StateFlag::BackupRunning,
            16 => StateFlag::Reconfiguring,
            17 => StateFlag::Validating,
            18 => StateFlag::AddingFiles,
            19 => StateFlag::Preallocating,
            20 => StateFlag::Downloading,
            21 => StateFlag::Staging,
            22 => StateFlag::Committing,
            23 => StateFlag::UpdateStopping,
            unknown => StateFlag::Unknown(unknown),
        }
    }

    /// Names the flag of one bit position.
    #[verifier::when_used_as_spec(at_offset)]
    pub fn from_bit_offset(offset: u8) -> (flag: StateFlag)
        ensures
            flag == StateFlag::at_offset(offset),
            flag != StateFlag::Invalid,
    {
        match offset {
            0 => StateFlag::Uninstalled,
            1 => StateFlag::UpdateRequired,
            2 => StateFlag::FullyInstalled,
            3 => StateFlag::Encrypted,
            4 => StateFlag::Locked,
            5 => StateFlag::FilesMissing,
            6 => StateFlag::AppRunning,
            7 => StateFlag::FilesCorrupt,
            8 => StateFlag::UpdateRunning,
            9 => StateFlag::UpdatePaused,
            10 => StateFlag::UpdateStarted,
            11 => StateFlag::Uninstalling,
            12 => StateFlag::BackupRunning,
            16 => StateFlag::Reconfiguring,
            17 => StateFlag::Validating,
            18 => StateFlag::AddingFiles,
            19 => StateFlag::Preallocating,
            20 => StateFlag::Downloading,
            21 => StateFlag::Staging,
            22 => StateFlag::Committing,
            23 => StateFlag::UpdateStopping,
            unknown => StateFlag::Unknown(unknown),
        }
    }
}

/// Different bits have different flags: no two offsets stand for the same
/// flag.
pub proof fn lemma_flags_differ(offset: u8, other: u8)
    requires
        offset != other,
    ensures
        StateFlag::at_offset(offset) != StateFlag::at_offset(other),
{
}

/// Where a walk over the set bits of a non-zero packed value stands.
#[derive(Debug, Clone, Copy)]
pub struct ValidIter {
    state: StateFlags,
    offset: u8,
}

/// The two ways a walk over packed state bits can still emit something.
#[derive(Debug, Clone, Copy)]
pub enum StateFlagIterInner {
    /// The packed value is zero: `Invalid` is emitted once.
    Invalid,
    /// The packed value is not zero: its bits are scanned upwards.
    Valid(ValidIter),
}

/// A lazy walk over the flags of a packed value. Each call of
/// [`StateFlagIter::next`] emits one flag; once it has returned `None` it
/// does so forever.
#[derive(Debug, Clone, Copy)]
pub struct StateFlagIter(Option<StateFlagIterInner>);

impl ValidIter {
    /// The flags that the walk has yet to emit.
    pub closed spec fn remaining(self) -> Seq<StateFlag> {
        set_offsets(self.state.0, self.offset as nat).map_values(
            |offset: u8| StateFlag::at_offset(offset),
        )
    }

    /// A walk that starts at the lowest bit.
    pub fn new(state: StateFlags) -> (it: ValidIter)
        ensures
            it.remaining() == set_offsets(state.0, 0).map_values(
                |offset: u8| StateFlag::at_offset(offset),
            ),
    {
        ValidIter { state, offset: 0 }
    }

    /// Scans upwards to the next set bit and emits its flag.
    pub fn next(&mut self) -> (flag: Option<StateFlag>)
        ensures
            old(self).remaining().len() == 0 ==> flag is None && final(self).remaining().len() == 0,
            old(self).remaining().len() > 0 ==> flag == Some(old(self).remaining()[0])
                && final(self).remaining() == old(self).remaining().drop_first(),
    {
        while self.offset < 64
            invariant
                self.state == old(self).state,
                self.remaining() == old(self).remaining(),
            decreases 64 - self.offset,
        {
            let offset: u8 = self.offset;
            let mask: u64 = 1u64 << (offset as u64);
            self.offset = offset + 1;
            if self.state.0 & mask != 0 {
                proof {
                    let rest = set_offsets(self.state.0, offset as nat + 1);
                    let name = |o: u8| StateFlag::at_offset(o);
                    assert((seq![offset] + rest).map_values(name).drop_first() =~= rest.map_values(
                        name,
                    ));
                }
                return Some(StateFlag::from_bit_offset(offset));
            }
        }
        None
    }
}

impl StateFlagIter {
    /// The flags that the walk has yet to emit, next one first.
    pub closed spec fn remaining(self) -> Seq<StateFlag> {
        match self.0 {
            None => Seq::empty(),
            Some(StateFlagIterInner::Invalid) => seq![StateFlag::Invalid],
            Some(StateFlagIterInner::Valid(valid)) => valid.remaining(),
        }
    }

    /// Emits the next flag, or `None` when none is left.
    pub fn next(&mut self) -> (flag: Option<StateFlag>)
        ensures
            old(self).remaining().len() == 0 ==> flag is None && final(self).remaining().len() == 0,
            old(self).remaining().len() > 0 ==> flag == Some(old(self).remaining()[0])
                && final(self).remaining() == old(self).remaining().drop_first(),
    {
        match self.0 {
            None => None,
            Some(StateFlagIterInner::Invalid) => {
                self.0 = None;
                assert(seq![StateFlag::Invalid].drop_first() =~= Seq::<StateFlag>::empty());
                Some(StateFlag::Invalid)
            },
            Some(StateFlagIterInner::Valid(valid)) => {
                let mut valid = valid;
                match valid.next() {
                    Some(flag) => {
                        self.0 = Some(StateFlagIterInner::Valid(valid));
                        Some(flag)
                    },
                    None => {
                        self.0 = None;
                        None
                    },
                }
            },
        }
    }
}

impl StateFlags {
    /// Starts a walk over the flags of this packed value.
    pub fn flags(self) -> (it: StateFlagIter)
        ensures
            it.remaining() == flags_of(self.0),
    {
        if self.0 == 0 {
            StateFlagIter(Some(StateFlagIterInner::Invalid))
        } else {
            StateFlagIter(Some(StateFlagIterInner::Valid(ValidIter::new(self))))
        }
    }
}

impl StateFlag {
    /// All the flags of a packed value at once, in the order in which a walk
    /// emits them.
    pub fn flags_from_packed(bit_flags: u64) -> (flags: Vec<StateFlag>)
        ensures
            flags@ == flags_of(bit_flags),
    {
        let mut it = StateFlags(bit_flags).flags();
        let mut flags: Vec<StateFlag> = Vec::new();
        loop
            invariant
                flags@ + it.remaining() == flags_of(bit_flags),
            ensures
                flags@ == flags_of(bit_flags),
            decreases it.remaining().len(),
        {
            let ghost before = it.remaining();
            match it.next() {
                Some(flag) => {
                    flags.push(flag);
                    assert(flags@ + it.remaining() =~= (flags@.drop_last() + before));
                },
                None => {
                    assert(flags@ + it.remaining() =~= flags@);
                    break ;
                },
            }
        }
        flags
    }
}

/// What `set_offsets` holds: offsets from `from` up to 63, each one a set
/// bit, in strictly ascending order, and every set bit from `from` on.
pub proof fn lemma_set_offsets(bits: u64, from: nat)
    ensures
        forall|i: int|
            0 <= i < set_offsets(bits, from).len() ==> from <= #[trigger] set_offsets(
                bits,
                from,
            )[i] < 64 && bit_is_set(bits, set_offsets(bits, from)[i] as nat),
        forall|i: int, j: int|
            0 <= i < j < set_offsets(bits, from).len() ==> set_offsets(bits, from)[i]
                < set_offsets(bits, from)[j],
        forall|offset: nat|
            from <= offset && bit_is_set(bits, offset) ==> set_offsets(bits, from).contains(
                offset as u8,
            ),
    decreases 64 - from,
{
    if from < 64 {
        lemma_set_offsets(bits, from + 1);
        let rest = set_offsets(bits, from + 1);
        let all = set_offsets(bits, from);
        if bit_is_set(bits, from) {
            assert(all =~= seq![from as u8] + rest);
            assert forall|offset: nat| from <= offset && bit_is_set(bits, offset) implies all.contains(
                offset as u8,
            ) by {
                if offset == from {
                    assert(all[0] == from as u8);
                } else {
                    let k = choose|k: int| 0 <= k < rest.len() && rest[k] == offset as u8;
                    assert(all[k + 1] == offset as u8);
                }
            }
        } else {
            assert(all == rest);
        }
    }
}

/// A packed value of zero stands for `Invalid` and nothing else.
pub proof fn lemma_flags_of_zero()
    ensures
        flags_of(0) == seq![StateFlag::Invalid],
{
}

/// A packed value other than zero stands for one flag for each of its set
/// bits, lowest bit first, each named by its offset; an offset without a
/// name of its own (13 to 15, and 24 up) gives `Unknown` with that offset,
/// and `Invalid` is not among them.
pub proof fn lemma_flags_of_nonzero(bits: u64)
    requires
        bits != 0,
    ensures
        flags_of(bits).len() == set_offsets(bits, 0).len(),
        forall|i: int|
            0 <= i < flags_of(bits).len() ==> #[trigger] flags_of(bits)[i] == StateFlag::at_offset(
                set_offsets(bits, 0)[i],
            ),
        forall|i: int| 0 <= i < flags_of(bits).len() ==> flags_of(bits)[i] != StateFlag::Invalid,
        forall|i: int, j: int|
            0 <= i < j < set_offsets(bits, 0).len() ==> set_offsets(bits, 0)[i] < set_offsets(
                bits,
                0,
            )[j],
        forall|offset: nat|
            bit_is_set(bits, offset) <==> offset < 64 && set_offsets(bits, 0).contains(offset as u8),
        forall|offset: u8|
            13 <= offset <= 15 || 24 <= offset ==> StateFlag::at_offset(offset)
                == StateFlag::Unknown(offset),
{
    lemma_set_offsets(bits, 0);
    assert forall|offset: nat|
        offset < 64 && set_offsets(bits, 0).contains(offset as u8) implies bit_is_set(
        bits,
        offset,
    ) by {
        let k = choose|k: int| 0 <= k < set_offsets(bits, 0).len() && set_offsets(bits, 0)[k] == offset as u8;
        assert(bit_is_set(bits, set_offsets(bits, 0)[k] as nat));
    }
}

} // verus!
