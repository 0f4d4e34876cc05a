//! Tests of the build-configuration flow: the builder, the generated
//! initialization function, the MCU parameter tables and the template
//! engine.

use platformtreeb::builder::BuilderConfig;
use platformtreeb::builder::InitFunction;
use platformtreeb::builder::InitPart;
use platformtreeb::builder::McuClass;
use platformtreeb::k20::predefined::teensy::teensy_configurator;
use platformtreeb::k20::types::McuParameters;
use platformtreeb::k20::usb::UsbConfig;
use platformtreeb::k20::usbserial::make_device_tree_for_teensy_serial;
use platformtreeb::start;
use platformtreeb::target::Target;
use platformtreeb::util::Template;
use platformtreeb::Bytes;
use platformtreeb::McuType;

#[test]
fn start_builds_a_fresh_configuration() {
    let bc = start(McuType::Mk20dx256vlh7);
    assert!(matches!(bc.get_mcu_class(), McuClass::K20));
    assert!(matches!(bc.get_mcu_type(), McuType::Mk20dx256vlh7));
    assert!(matches!(bc.get_target(), Target::Thumbv7em));
    assert!(bc.cargo_config);
    assert!(bc.user_startup_function.is_none());
    assert!(bc.init_function.is_some());
}

#[test]
fn builder_records_user_choices() {
    let bc = start(McuType::Mk20dx256vlh7)
        .skip_adding_cargo_config()
        .call_user_startup_function("run::run");
    assert!(!bc.cargo_config);
    assert_eq!(bc.user_startup_function.as_deref(), Some("run::run"));
}

#[test]
fn add_src_appends_generated_source() {
    let mut bc = BuilderConfig::new(McuClass::K20, McuType::Mk20dx256vlh7);
    assert_eq!(bc.src_generated_rs.len(), 1);
    bc.add_src("// generated".to_string());
    assert_eq!(bc.src_generated_rs.len(), 2);
    assert_eq!(bc.src_generated_rs[1], "// generated");
}

#[test]
fn init_function_orders_fragments_by_position() {
    let mut f = InitFunction::empty();
    f.add(InitPart::Pos40Main, "late();");
    f.add(InitPart::Pos10Early, "early();");
    f.add(InitPart::Pos10Early, "early2();");
    f.usetype("zinc::hal::clocks");
    let drained = f.drain();
    assert_eq!(
        drained,
        vec![
            "\nuse zinc::hal::clocks;".to_string(),
            platformtreeb::builder::FUNCTION_HEADER.to_string(),
            "early();".to_string(),
            "early2();".to_string(),
            "late();".to_string(),
            platformtreeb::builder::FUNCTION_FOOTER.to_string(),
        ]
    );
    // Draining empties the function.
    let again = f.drain();
    assert_eq!(again.len(), 2);
}

#[test]
fn default_init_function_initializes_memory() {
    let mut f = InitFunction::default();
    let drained = f.drain();
    assert_eq!(drained[0], "\nuse zinc::hal::mem_init;");
    assert!(drained[2].contains("mem_init::init_stack();"));
}

#[test]
fn teensy_configurator_adds_clock_and_systick_setup() {
    let mut mcu = start(McuType::Mk20dx256vlh7).mcu();
    teensy_configurator(&mut mcu);
    let f = mcu.base_config.init_function.as_ref().unwrap();
    assert_eq!(f.usestatements.len(), 6);
    assert_eq!(f.usestatements[1], "\nuse zinc::hal::k20::watchdog;");
    assert_eq!(f.usestatements[5], "\nuse zinc::hal::cortex_m4::systick;");
    assert!(f.code[10][0].contains("set_prdiv0(5)"));
    assert!(f.code[40][0].contains("systick::setup"));
}

#[test]
fn mcu_parameters_for_mk20dx256vlh7() {
    let p = McuParameters::from(McuType::Mk20dx256vlh7);
    assert_eq!(p.get_program_flash_size().0, 256 * 1024);
    assert_eq!(p.get_flexnvm_size().0, 32 * 1024);
    assert_eq!(p.get_flexram_eeprom_size().0, 2 * 1024);
    assert_eq!(p.get_sram_size().0, 64 * 1024);
    assert!(!p.supports_eeprom_split());
}

#[test]
fn eeprom_size_lookup_finds_the_register_pattern() {
    let p = McuParameters::from(McuType::Mk20dx256vlh7);
    assert_eq!(p.supports_eeprom_size(Bytes::b(512)), Some(5));
    assert_eq!(p.supports_eeprom_size(Bytes::k(2)), Some(3));
    assert_eq!(p.supports_eeprom_size(Bytes::b(100)), None);
    assert_eq!(p.supports_flexnvm_partition_size(Bytes::k(8)), Some(1));
    assert_eq!(p.supports_flexnvm_partition_size(Bytes::b(3)), None);
}

#[test]
fn supported_size_listings() {
    let p = McuParameters::from(McuType::Mk20dx256vlh7);
    assert_eq!(
        p.supported_eeprom_sizes(),
        "2K, 1K, 512, 256, 128, 64, 32, 0, "
    );
    assert_eq!(
        p.supported_flexnvm_partition_sizes(),
        "0, 8K, 16K, 24K, 32K, "
    );
    assert_eq!(
        p.supported_eeprom_backup_sizes(),
        "32K, 24K, 16K, 8K, 0, "
    );
}

#[test]
fn mcu_flow_reserves_usb_descriptor_table_memory() {
    let mut mcu = start(McuType::Mk20dx256vlh7).mcu();
    assert_eq!(mcu.get_memory_config().usbdescriptortable_size.0, 0);
    assert_eq!(mcu.get_e_flash_size().0, 32 * 1024);
    let mut usb = UsbConfig::new(make_device_tree_for_teensy_serial());
    usb.configure(mcu.get_memory_config_mut());
    assert_eq!(mcu.get_memory_config().usbdescriptortable_size.0, 160);
    let mcu = mcu.enable_usb(usb);
    assert!(mcu.usb.is_some());
}

#[test]
fn with_applies_a_configuration_step() {
    let mcu = start(McuType::Mk20dx256vlh7).mcu().with(|mut m| {
        m.memory_config.eeprom_size = Bytes::b(512);
        m
    });
    assert_eq!(mcu.memory_config.eeprom_size.0, 512);
}

#[test]
fn bytes_quantities_and_rendering() {
    assert_eq!(Bytes::b(100).0, 100);
    assert_eq!(Bytes::k(2).0, 2048);
    assert_eq!(Bytes::k(2).str(), "2K");
    assert_eq!(Bytes::b(2048).str(), "2K");
    assert_eq!(Bytes::b(100).str(), "100");
    assert_eq!(Bytes::b(0).str(), "0");
    assert_eq!(Bytes::b(1536).str(), "1536");
    assert_eq!(Bytes::b(1).add(Bytes::b(2)).0, 3);
    assert_eq!(Bytes::b(5).sub(Bytes::b(2)).0, 3);
}

#[test]
fn template_replaces_every_occurrence() {
    let mut t = Template::new("FLASH : {{ size }} / RAM : {{ ram }} + {{ size }}");
    t.replace("{{ size }}", "256K");
    t.replace("{{ ram }}", "64K");
    assert_eq!(t.render(), "FLASH : 256K / RAM : 64K + 256K");
}

#[test]
fn template_without_replacements_is_identity() {
    let t = Template::new("nothing to do");
    assert_eq!(t.render(), "nothing to do");
}

#[test]
fn cargo_config_names_the_target_triple() {
    assert!(Target::Thumbv7em
        .cargo_config()
        .contains("target = \"thumbv7em-none-eabi\""));
    assert!(Target::Thumbv6m
        .cargo_config()
        .contains("target = \"thumbv6m-none-eabi\""));
    assert!(Target::Thumbv7m
        .cargo_config()
        .contains("target = \"thumbv7m-none-eabi\""));
}

#[test]
fn template_overwrites_a_reregistered_parameter() {
    let mut t = Template::new("LENGTH = {{ size }}");
    t.replace("{{ size }}", "128K");
    t.replace("{{ size }}", "256K");
    assert_eq!(t.replace.len(), 1);
    assert_eq!(t.render(), "LENGTH = 256K");
}
