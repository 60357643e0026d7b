//! The word that the application and the bootloader share across a reset:
//! one value asks the bootloader to stay in firmware-update mode.  The word
//! itself lives at a fixed address and is read and written elsewhere; this
//! module decides what is written and what a read value means.
use vstd::prelude::*;

verus! {

/// The value that asks the bootloader for firmware-update (DFU) mode.
pub const FLAG_REBOOT_DFU: u32 = 0x5AA55AA5;

/// Whether a shared word holding `flags` asks for firmware-update mode.
pub open spec fn dfu_requested(flags: u32) -> bool {
    flags == FLAG_REBOOT_DFU
}

/// Clears the shared word, so that the next boot starts the application.
pub fn reset_bootloader_flags(flags: &mut u32)
    ensures
        *final(flags) == 0,
{
    *flags = 0;
}

/// Whether the shared word asks for firmware-update mode.
pub fn is_dfu_boot_flag_set(flags: u32) -> (set: bool)
    ensures
        set == dfu_requested(flags),
{
    flags == FLAG_REBOOT_DFU
}

/// Sets the shared word to ask for firmware-update mode at the next boot.
pub fn request_dfu_boot(flags: &mut u32)
    ensures
        *final(flags) == FLAG_REBOOT_DFU,
{
    *flags = FLAG_REBOOT_DFU;
}

/// What the bootloader does at start: it reads whether update mode was
/// asked for and clears the word, so that the request is honoured once.
pub fn take_boot_request(flags: &mut u32) -> (dfu: bool)
    ensures
        dfu == dfu_requested(*old(flags)),
        *final(flags) == 0,
{
    let dfu = is_dfu_boot_flag_set(*flags);
    reset_bootloader_flags(flags);
    dfu
}

/// A request for update mode is honoured by the next boot and only by it:
/// the boot after that starts the application again.
pub proof fn law_dfu_request_honoured_once(requested: u32, after_first_boot: u32)
    requires
        requested == FLAG_REBOOT_DFU,
        after_first_boot == 0,
    ensures
        dfu_requested(requested),
        !dfu_requested(after_first_boot),
{
}

} // verus!
