use vstd::prelude::*;
use crate::os::uart::irq_to_serial_id;

verus! {

/// Base address of the platform-level interrupt controller.
pub const PLIC_BASE: usize = 0xc00_0000;

/// Number of priority bits of the interrupt controller.
pub const PLIC_PRIORITY_BIT: usize = 3;

/// Interrupt-controller contexts per hart (M, S and U mode).
pub const MODE_PER_HART: usize = 3;

/// The controller context of `mode` (`'M'`, `'S'` or `'U'`) on hart `hart_id`.
pub fn get_context(hart_id: usize, mode: char) -> (r: usize)
    requires
        mode == 'M' || mode == 'S' || mode == 'U',
        hart_id * MODE_PER_HART + 2 <= usize::MAX,
    ensures
        r == hart_id * MODE_PER_HART + (if mode == 'M' { 0int } else if mode == 'S' { 1int } else { 2int }),
{
    let offset: usize = match mode {
        'M' => 0,
        'S' => 1,
        _ => 2,
    };
    hart_id * MODE_PER_HART + offset
}

/// How the kernel handles a claimed external interrupt.
#[derive(PartialEq, Eq, Structural, Debug, Clone, Copy)]
pub enum IrqAction {
    /// A user process took it; the kernel does not complete it.
    User,
    /// Serial port `id` handles it; then it is completed.
    Serial(usize),
    /// No handler; it is completed and reported.
    Unsupported,
}

/// The decision for claimed interrupt `irq`: a process that registered for
/// it and accepted the trap record takes it (`user_accepted`); otherwise the
/// serial interrupts 12 to 15 go to their port and the rest are unsupported.
pub fn external_irq_action(irq: u16, user_accepted: bool) -> (r: IrqAction)
    ensures
        r == (if user_accepted {
            IrqAction::User
        } else if 12 <= irq <= 15 {
            IrqAction::Serial((irq - 12) as usize)
        } else {
            IrqAction::Unsupported
        }),
{
    if user_accepted {
        return IrqAction::User;
    }
    if irq == 12 || irq == 13 || irq == 14 || irq == 15 {
        IrqAction::Serial(irq_to_serial_id(irq))
    } else {
        IrqAction::Unsupported
    }
}

} // verus!
