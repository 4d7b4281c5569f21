use steamlocate::app::{StateFlag, StateFlags};

#[test]
fn state_flags() {
    let mut it = StateFlags(0).flags();
    assert_eq!(it.next(), Some(StateFlag::Invalid));
    assert_eq!(it.next(), None);

    let mut it = StateFlags(4).flags();
    assert_eq!(it.next(), Some(StateFlag::FullyInstalled));
    assert_eq!(it.next(), None);

    let mut it = StateFlags(6).flags();
    assert_eq!(it.next(), Some(StateFlag::UpdateRequired));
    assert_eq!(it.next(), Some(StateFlag::FullyInstalled));
    assert_eq!(it.next(), None);
}

#[test]
fn every_bit_has_its_flag() {
    let named = [
        (0, StateFlag::Uninstalled),
        (1, StateFlag::UpdateRequired),
        (2, StateFlag::FullyInstalled),
        (3, StateFlag::Encrypted),
        (4, StateFlag::Locked),
        (5, StateFlag::FilesMissing),
        (6, StateFlag::AppRunning),
        (7, StateFlag::FilesCorrupt),
        (8, StateFlag::UpdateRunning),
        (9, StateFlag::UpdatePaused),
        (10, StateFlag::UpdateStarted),
        (11, StateFlag::Uninstalling),
        (12, StateFlag::BackupRunning),
        (16, StateFlag::Reconfiguring),
        (17, StateFlag::Validating),
        (18, StateFlag::AddingFiles),
        (19, StateFlag::Preallocating),
        (20, StateFlag::Downloading),
        (21, StateFlag::Staging),
        (22, StateFlag::Committing),
        (23, StateFlag::UpdateStopping),
    ];
    for offset in 0u8..64 {
        let expected = named
            .iter()
            .find(|(at, _)| *at == offset)
            .map(|(_, flag)| *flag)
            .unwrap_or(StateFlag::Unknown(offset));
        assert_eq!(StateFlag::from_bit_offset(offset), expected);
        assert_eq!(StateFlag::flags_from_packed(1u64 << offset), vec![expected]);
        let mut it = StateFlags(1u64 << offset).flags();
        assert_eq!(it.next(), Some(expected));
        assert_eq!(it.next(), None);
    }
    assert_eq!(StateFlag::from_bit_offset(13), StateFlag::Unknown(13));
    assert_eq!(StateFlag::from_bit_offset(15), StateFlag::Unknown(15));
    assert_eq!(StateFlag::from_bit_offset(24), StateFlag::Unknown(24));
    assert_eq!(StateFlag::from_bit_offset(200), StateFlag::Unknown(200));
}

#[test]
fn flags_come_lowest_bit_first() {
    assert_eq!(StateFlag::flags_from_packed(0), vec![StateFlag::Invalid]);
    assert_eq!(
        StateFlag::flags_from_packed(0b1010_0000_0000_0110 | 1 << 63),
        vec![
            StateFlag::UpdateRequired,
            StateFlag::FullyInstalled,
            StateFlag::Unknown(13),
            StateFlag::Unknown(15),
            StateFlag::Unknown(63),
        ]
    );
    let all = StateFlag::flags_from_packed(u64::MAX);
    assert_eq!(all.len(), 64);
    assert!(!all.contains(&StateFlag::Invalid));
    assert_eq!(all[0], StateFlag::Uninstalled);
    assert_eq!(all[63], StateFlag::Unknown(63));
}

#[test]
fn a_walk_that_is_over_stays_over() {
    let mut it = StateFlags(1 << 63).flags();
    assert_eq!(it.next(), Some(StateFlag::Unknown(63)));
    assert_eq!(it.next(), None);
    assert_eq!(it.next(), None);
    let mut it = StateFlags(0).flags();
    assert_eq!(it.next(), Some(StateFlag::Invalid));
    assert_eq!(it.next(), None);
    assert_eq!(it.next(), None);
    // A copy of a walk goes on from where the walk stood.
    let mut it = StateFlags(3).flags();
    assert_eq!(it.next(), Some(StateFlag::Uninstalled));
    let mut copy = it;
    assert_eq!(it.next(), Some(StateFlag::UpdateRequired));
    assert_eq!(copy.next(), Some(StateFlag::UpdateRequired));
    assert_eq!(copy.next(), None);
}
