//! The core of a CHIP-8 emulator: memory, registers, the instruction
//! decoder, the frame buffer and the engine that runs a program one
//! instruction at a time. It is verified with Verus, but for the one call
//! that draws a random byte. The window, the keyboard, the speaker and the
//! clock belong to the program that drives the engine.

use vstd::prelude::*;

pub mod display;
pub mod emulator;
pub mod error;
pub mod input;
pub mod instruction;
pub mod memory;

verus! {

/// What the emulator is configured with: the speed at which it runs and
/// the choice between the behaviours on which interpreters differ.
#[derive(Debug, Clone, Copy, PartialEq, Eq, Structural)]
pub struct Args {
    /// Number of instructions per second that the emulator executes.
    pub ips: u64,
    /// Shifts (8XY6 and 8XYE) copy VY into VX before they shift.
    pub old_shift_behavior: bool,
    /// The jump with offset (BNNN) adds VX, X being the highest nibble of
    /// NNN, in place of V0.
    pub new_jump_behavior: bool,
    /// Store and load (FX55 and FX65) leave the index register behind the
    /// last cell they touched.
    pub old_store_load_behavior: bool,
    /// Adding to the index register (FX1E) sets VF when the index reaches
    /// 0x1000.
    pub index_overflow: bool,
    /// Period of the delay and sound timers in milliseconds.
    pub timer_period: u128,
    /// Side of one pixel on the screen; the window measures
    /// (64 * scale) x (32 * scale).
    pub scale: u32,
    /// Volume from 0 to 100; higher values count as 100.
    pub volume: u8,
}

impl Args {
    /// The volume in per cent: `volume`, capped at 100.
    pub fn volume_percent(&self) -> (percent: u8)
        ensures
            percent == if self.volume <= 100 {
                self.volume
            } else {
                100u8
            },
    {
        if self.volume <= 100 {
            self.volume
        } else {
            100
        }
    }
}

impl Default for Args {
    /// 700 instructions per second, timers at 16 ms, every behaviour switch
    /// off, a scale of 10 and half volume.
    fn default() -> (args: Self)
        ensures
            args == (Args {
                ips: 700,
                old_shift_behavior: false,
                new_jump_behavior: false,
                old_store_load_behavior: false,
                index_overflow: false,
                timer_period: 16,
                scale: 10,
                volume: 50,
            }),
    {
        Args {
            ips: 700,
            old_shift_behavior: false,
            new_jump_behavior: false,
            old_store_load_behavior: false,
            index_overflow: false,
            timer_period: 16,
            scale: 10,
            volume: 50,
        }
    }
}

} // verus!
