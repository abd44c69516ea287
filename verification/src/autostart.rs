//! Start-on-boot: how the operating system's autostart entry and the choice
//! stored in the profile are reconciled.
use vstd::prelude::*;

verus! {

/// Whether the app starts on boot: what the operating system reports when
/// it can say, else the stored choice.
pub open spec fn autostart_spec(os_enabled: Option<bool>, stored: bool) -> bool {
    match os_enabled {
        Some(e) => e,
        None => stored,
    }
}

/// What start-up does to the operating system's entry: set it to the stored
/// choice when the entry is known and differs; nothing when it already
/// matches or its state cannot be read.
pub open spec fn boot_sync_spec(current: Option<bool>, wanted: bool) -> Option<bool> {
    match current {
        Some(c) => if c != wanted {
            Some(wanted)
        } else {
            None
        },
        None => None,
    }
}

/// The entry once the action (if any) has been applied.
pub open spec fn entry_after(current: bool, action: Option<bool>) -> bool {
    match action {
        Some(v) => v,
        None => current,
    }
}

pub fn autostart_state(os_enabled: Option<bool>, stored: bool) -> (r: bool)
    ensures
        r == autostart_spec(os_enabled, stored),
{
    match os_enabled {
        Some(e) => e,
        None => stored,
    }
}

pub fn boot_sync_action(current: Option<bool>, wanted: bool) -> (r: Option<bool>)
    ensures
        r == boot_sync_spec(current, wanted),
{
    match current {
        Some(c) => if c != wanted {
            Some(wanted)
        } else {
            None
        },
        None => None,
    }
}

/// Once start-up has reconciled a readable entry, the entry is the stored
/// choice, and so is what the app then reports; an entry that already
/// matched is not touched.
pub proof fn law_boot_sync_makes_entry_match(current: bool, wanted: bool)
    ensures
        entry_after(current, boot_sync_spec(Some(current), wanted)) == wanted,
        autostart_spec(Some(entry_after(current, boot_sync_spec(Some(current), wanted))), wanted)
            == wanted,
        current == wanted ==> boot_sync_spec(Some(current), wanted) is None,
{
}

} // verus!
