//! The Teensy 3.1/3.2 board: clock tree bring-up to 72 MHz from the 16 MHz
//! crystal, and a 1 ms system tick.

use vstd::prelude::*;

use crate::builder::InitPart;
use crate::k20::builder::McuSpecificConfig;

verus! {

pub const TEENSY_CLOCK_INIT: &'static str = r#"
        watchdog::init(watchdog::State::Disabled);

        SIM().scgc6.ignoring_state()
            .set_rtc(Sim_scgc6_rtc::Enabled)           // Allow access to RTC module
            .set_ftfl(Sim_scgc6_ftfl::ClockEnabled);   // Enable clock for flash memory

        // if the RTC oscillator isn't enabled, get it started early
        rtc::init();

        // release I/O pins hold, if we woke up from VLLS mode
        if PMC().regsc.ackiso() == Pmc_regsc_ackiso::Latched {
            PMC().regsc.set_ackiso(Pmc_regsc_ackiso::Latched);
        }

        // since this is a write once register, make it visible to all F_CPU's
        // so we can into other sleep modes in the future at any speed
        SMC().pmprot.ignoring_state()
            .set_avlp(Smc_pmprot_avlp::Allowed)
            .set_alls(Smc_pmprot_alls::Allowed)
            .set_avlls(Smc_pmprot_avlls::Allowed);

        // enable capacitors for crystal
        OSC().cr
            .ignoring_state()
            .set_sc8p(true)
            .set_sc2p(true);

        // enable osc, 8-32 MHz range, low power mode
        MCG().c2
            .ignoring_state()
            .set_range0(Mcg_c2_range0::VeryHigh)
            .set_erefs0(Mcg_c2_erefs0::Oscillator);
        // switch to crystal as clock source, FLL input = 16 MHz / 512
        MCG().c1
            .ignoring_state()
            .set_clks(Mcg_c1_clks::External)
            .set_frdiv(4);

        // wait for crystal oscillator to begin
        wait_for!(MCG().status.oscinit0() == Mcg_status_oscinit0::Initialized);
        wait_for!(MCG().status.irefst() == Mcg_status_irefst::External);
        // wait for MCGOUT to use oscillator
        wait_for!(MCG().status.clkst() == Mcg_status_clkst::External);

        // config PLL input for 16 MHz Crystal / 6 = 2.667 MHz
        MCG().c5.ignoring_state().set_prdiv0(5);

        // config PLL for 72 MHz output
        MCG().c6.ignoring_state()
            .set_plls(Mcg_c6_plls::PLL)
            .set_vdiv0(3);

        // wait for PLL to start using xtal as its input
        wait_for!(MCG().status.pllst() == Mcg_status_pllst::PLL);
        // wait for PLL to lock
        wait_for!(MCG().status.lock0() == Mcg_status_lock0::Locked);
        // now we're in PBE mode

        // config divisors: 72 MHz core, 36 MHz bus, 24 MHz flash, USB = 72 * 2 / 3
        SIM().clkdiv1.ignoring_state()
            .set_outdiv1(0)
            .set_outdiv2(1)
            .set_outdiv4(2);
        SIM().clkdiv2.ignoring_state()
            .set_usbdiv(1)
            .set_usbfrac(true);

        // switch to PLL as clock source, FLL input = 16 MHz / 512
        MCG().c1.ignoring_state()
            .set_clks(Mcg_c1_clks::PLLS)
            .set_frdiv(4);
        // wait for PLL clock to be used
        wait_for!(MCG().status.clkst() == Mcg_status_clkst::PLL);
        // now we're in PEE mode

        // USB uses PLL clock, trace is CPU clock, CLKOUT=OSCERCLK0
        SIM().sopt2.ignoring_state()
            .set_usbsrc(Sim_sopt2_usbsrc::PllFll)
            .set_pllfllsel(Sim_sopt2_pllfllsel::Pll)
            .set_traceclksel(Sim_sopt2_traceclksel::SystemClock)
            .set_clkoutsel(Sim_sopt2_clkoutsel::OscERClk0);

        // Record the clock frequencies we've just set up.
        clocks::set_system_clock(72_000_000);
        clocks::set_bus_clock(36_000_000);
        clocks::set_flash_clock(24_000_000);
        // USB is at 48_000_000

"#;

pub const TEENSY_SYSTICK_INIT: &'static str = r#"
        // The CLKSOURCE bit in SysTick Control and Status register is
        // always set to select the core clock.
        // Because the timing reference (FCLK) is a variable frequency, the TENMS bit in the
        // SysTick Calibration Value Register is always zero.
        // Set tick freq to 1 ms
        systick::setup(72_000_000/1000);
        systick::enable();
"#;

/// Adds the Teensy board bring-up to the generated initialization
/// function: the clock tree setup among the early fragments and the system
/// tick among the main fragments, with the `use` statements they need.
pub fn teensy_configurator(s: &mut McuSpecificConfig)
    requires
        old(s).base_config.wf(),
    ensures
        final(s).base_config.wf(),
        *final(s) == (McuSpecificConfig { base_config: final(s).base_config, ..*old(s) }),
        final(s).base_config == (crate::builder::BuilderConfig {
            init_function: final(s).base_config.init_function,
            ..old(s).base_config
        }),
        match old(s).base_config.init_function {
            None => final(s).base_config.init_function is None,
            Some(f) => {
                &&& final(s).base_config.init_function is Some
                &&& {
                    let nf = final(s).base_config.init_function->0;
                    &&& nf.usestatements@.len() == f.usestatements@.len() + 5
                    &&& forall|m: int|
                        0 <= m < f.usestatements@.len() ==> #[trigger] nf.usestatements@[m]
                            == f.usestatements@[m]
                    &&& nf.usestatements@[f.usestatements@.len() as int]@ == "\nuse "@
                        + "zinc::hal::k20::watchdog"@ + ";"@
                    &&& nf.usestatements@[f.usestatements@.len() + 1 as int]@ == "\nuse "@
                        + "zinc::hal::k20::regs::*"@ + ";"@
                    &&& nf.usestatements@[f.usestatements@.len() + 2 as int]@ == "\nuse "@
                        + "zinc::hal::k20::clocks"@ + ";"@
                    &&& nf.usestatements@[f.usestatements@.len() + 3 as int]@ == "\nuse "@
                        + "zinc::hal::k20::rtc"@ + ";"@
                    &&& nf.usestatements@[f.usestatements@.len() + 4 as int]@ == "\nuse "@
                        + "zinc::hal::cortex_m4::systick"@ + ";"@
                    &&& nf.code@.len() == 99
                    &&& (nf.code@[10])@.len() == (f.code@[10])@.len() + 1
                    &&& (nf.code@[10])@.last()@ == TEENSY_CLOCK_INIT@
                    &&& forall|m: int|
                        0 <= m < (f.code@[10])@.len() ==> (#[trigger] (nf.code@[10])@[m]) == (
                        f.code@[10])@[m]
                    &&& (nf.code@[40])@.len() == (f.code@[40])@.len() + 1
                    &&& (nf.code@[40])@.last()@ == TEENSY_SYSTICK_INIT@
                    &&& forall|m: int|
                        0 <= m < (f.code@[40])@.len() ==> (#[trigger] (nf.code@[40])@[m]) == (
                        f.code@[40])@[m]
                    &&& forall|k: int|
                        0 <= k < 99 && k != 10 && k != 40 ==> #[trigger] nf.code@[k] == f.code@[k]
                }
            },
        },
{
    s.base_config.usetype_in_init("zinc::hal::k20::watchdog");
    s.base_config.usetype_in_init("zinc::hal::k20::regs::*");
    s.base_config.usetype_in_init("zinc::hal::k20::clocks");
    s.base_config.usetype_in_init("zinc::hal::k20::rtc");
    s.base_config.add_to_init(InitPart::Pos10Early, TEENSY_CLOCK_INIT);
    s.base_config.usetype_in_init("zinc::hal::cortex_m4::systick");
    s.base_config.add_to_init(InitPart::Pos40Main, TEENSY_SYSTICK_INIT);
}

} // verus!
