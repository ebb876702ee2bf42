use vstd::prelude::*;

use crate::bootrom::Bootrom;
use crate::cartridge::Cartridge;
use crate::cpu::Cpu;
use crate::peripherals::Peripherals;
use crate::Fault;

verus! {

/// The machine: the CPU and the devices on its bus.
pub struct GameBoy {
    pub cpu: Cpu,
    pub peripherals: Peripherals,
}

impl GameBoy {
    pub open spec fn wf(&self) -> bool {
        self.cpu.wf() && self.peripherals.wf()
    }

    /// One machine cycle from `g0` to `g1` with result `r`: the CPU runs its
    /// cycle (`c1` and `b1` are the CPU and the devices after it); if that
    /// raised a fault the machine stops there with the fault, otherwise the
    /// devices run their cycle and `r` tells whether a frame ended.
    pub open spec fn stepped_via(g0: GameBoy, c1: Cpu, b1: Peripherals, g1: GameBoy, r: Result<bool, Fault>) -> bool {
        &&& Cpu::completes(g0.cpu.cycle_plan(&g0.peripherals), g0.peripherals, b1, c1)
        &&& match c1.ctx.fault {
            Some(f) => r == Err::<bool, Fault>(f) && g1.cpu == c1 && g1.peripherals == b1,
            None => {
                &&& g1.cpu == (Cpu { interrupts: g1.cpu.interrupts, ..c1 })
                &&& Peripherals::cycled(b1, c1.interrupts, g1.peripherals, g1.cpu.interrupts, r)
            },
        }
    }

    pub open spec fn stepped(g0: GameBoy, g1: GameBoy, r: Result<bool, Fault>) -> bool {
        exists|c1: Cpu, b1: Peripherals| #[trigger] GameBoy::stepped_via(g0, c1, b1, g1, r)
    }

    /// The machine at power-on, with `bootrom` mapped over the cartridge; it
    /// runs in Game Boy Color mode when the cartridge header asks for it.
    pub fn new(bootrom: Bootrom, cartridge: Cartridge) -> (r: GameBoy)
        requires
            bootrom.wf(),
            cartridge.wf(),
        ensures
            r.wf(),
            r.cpu == Cpu::initial(),
            r.peripherals.is_power_on(bootrom, cartridge, cartridge.is_cgb),
    {
        let is_cgb = cartridge.is_cgb;
        let peripherals = Peripherals::new(bootrom, cartridge, is_cgb);
        let cpu = Cpu::new();
        GameBoy { cpu, peripherals }
    }

    /// Runs one machine cycle; `Ok(true)` when a frame is complete in the
    /// pixel buffer, `Err` when the machine cannot go on.
    pub fn emulate_cycle(&mut self) -> (r: Result<bool, Fault>)
        requires
            old(self).wf(),
        ensures
            final(self).wf(),
            GameBoy::stepped(*old(self), *final(self), r),
    {
        let ghost g0 = *self;
        self.cpu.emulate_cycle(&mut self.peripherals);
        let ghost c1 = self.cpu;
        let ghost b1 = self.peripherals;
        if let Some(f) = self.cpu.ctx.fault {
            assert(GameBoy::stepped_via(g0, c1, b1, *self, Err(f)));
            return Err(f);
        }
        let r = self.peripherals.emulate_cycle(&mut self.cpu.interrupts);
        assert(GameBoy::stepped_via(g0, c1, b1, *self, r));
        r
    }
}

} // verus!
