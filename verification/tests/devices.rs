use gpui_scene::devices::{
    adapter_name, device_flags, factory_flags, feature_level_name, get_adapter, order_adapters,
    order_adapters_for, publish_device, renderer_d3d11_device, try_to_recover_from_device_lost,
    AdapterChoice, AdapterStep, Candidate, RankedAdapter, RecoveryStep, SharedDevice,
};
use gpui_scene::gpu_specs::{
    amd_driver_version, driver_name, driver_source, dxgi_driver_version, gpu_specs,
    nvidia_driver_version, DriverSource,
};
use gpui_scene::text::{push_decimal, push_hex, Trimming};
use gpui_scene::tracing::{init, Span};

fn wide(text: &str, length: usize) -> Vec<u16> {
    let mut units: Vec<u16> = text.encode_utf16().collect();
    units.resize(length, 0);
    units
}

fn candidate(index: usize, name: &str, mib: u64, software: bool) -> Candidate {
    Candidate::new(
        index,
        &wide(name, 128),
        mib * 1024 * 1024,
        if software { 2 } else { 0 },
    )
}

fn machine() -> Vec<Candidate> {
    vec![
        candidate(0, "Parsec Virtual Display", 0, false),
        candidate(1, "Microsoft Basic Render Driver", 9999, true),
        candidate(2, "Intel Iris", 128, false),
        candidate(3, "NVIDIA GeForce Ärger", 8192, false),
        candidate(4, "NVIDIA Tesla", 8192, false),
    ]
}

fn places(ranked: &[RankedAdapter]) -> Vec<usize> {
    ranked.iter().map(|adapter| adapter.index).collect()
}

#[test]
fn the_shared_device_changes_generation() {
    let mut shared = SharedDevice::new();
    assert_eq!(renderer_d3d11_device(&shared), (0, 0));
    publish_device(&mut shared, 0xABC0);
    assert_eq!(renderer_d3d11_device(&shared), (0xABC0, 1));
    publish_device(&mut shared, 0xABC0);
    assert_eq!(renderer_d3d11_device(&shared), (0xABC0, 2));
    shared.generation = u64::MAX;
    publish_device(&mut shared, 1);
    assert_eq!(renderer_d3d11_device(&shared), (1, 0));
}

#[test]
fn recovery_stops_at_the_first_success() {
    assert_eq!(
        try_to_recover_from_device_lost(0, false),
        RecoveryStep::Try { delay_ms: 0 }
    );
    assert_eq!(
        try_to_recover_from_device_lost(1, false),
        RecoveryStep::Try { delay_ms: 110 }
    );
    assert_eq!(
        try_to_recover_from_device_lost(4, false),
        RecoveryStep::Try { delay_ms: 140 }
    );
    assert_eq!(
        try_to_recover_from_device_lost(5, false),
        RecoveryStep::GiveUp
    );
    assert_eq!(
        try_to_recover_from_device_lost(5, true),
        RecoveryStep::Recovered
    );
    assert_eq!(
        try_to_recover_from_device_lost(2, true),
        RecoveryStep::Recovered
    );
}

#[test]
fn most_memory_goes_first_and_software_last() {
    let machine = machine();
    let (ranked, choice) = order_adapters(&machine, "");
    assert_eq!(choice, AdapterChoice::Automatic);
    assert_eq!(places(&ranked), vec![3, 4, 2, 0, 1]);
    let (ranked, choice) = order_adapters(&machine, " \t ");
    assert_eq!(choice, AdapterChoice::Automatic);
    assert_eq!(places(&ranked), vec![3, 4, 2, 0, 1]);
}

#[test]
fn a_named_adapter_wins() {
    let machine = machine();
    let (ranked, choice) = order_adapters(&machine, "  NviDIA ");
    assert_eq!(choice, AdapterChoice::Named);
    assert_eq!(places(&ranked), vec![3, 4]);
    let (ranked, choice) = order_adapters(&machine, "ÄRGER");
    assert_eq!(choice, AdapterChoice::Named);
    assert_eq!(places(&ranked), vec![3]);
    let (ranked, choice) = order_adapters(&machine, "basic render");
    assert_eq!(choice, AdapterChoice::Named);
    assert_eq!(places(&ranked), vec![1]);
    let (ranked, choice) = order_adapters(&machine, "voodoo");
    assert_eq!(choice, AdapterChoice::NoneNamed);
    assert_eq!(places(&ranked), vec![3, 4, 2, 0, 1]);
    let (ranked, choice) = order_adapters_for(&machine, "NVIDIA");
    assert_eq!(choice, AdapterChoice::NoneNamed);
    assert_eq!(ranked.len(), 5);
    assert!(order_adapters(&Vec::new(), "x").0.is_empty());
}

#[test]
fn the_first_adapter_that_works_is_used() {
    assert_eq!(get_adapter(2, 0, false), AdapterStep::Try(0));
    assert_eq!(get_adapter(2, 1, false), AdapterStep::Try(1));
    assert_eq!(get_adapter(2, 1, true), AdapterStep::Use(0));
    assert_eq!(get_adapter(2, 2, true), AdapterStep::Use(1));
    assert_eq!(get_adapter(2, 2, false), AdapterStep::NoneWorks);
    assert_eq!(get_adapter(0, 0, false), AdapterStep::NoneWorks);
}

#[test]
fn adapter_names_lose_their_filling() {
    assert_eq!(adapter_name(&wide("NVIDIA Tesla", 128)), "NVIDIA Tesla");
    assert_eq!(adapter_name(&wide("", 128)), "");
    assert_eq!(adapter_name(&[0x41, 0xD800, 0x42]), "A\u{FFFD}B");
    assert_eq!(
        adapter_name(&[0xDC00, 0xD83D, 0xDE00, 0xD800, 0xD801, 0xDC37, 0xDBFF]),
        "\u{FFFD}😀\u{FFFD}𐐷\u{FFFD}"
    );
    assert_eq!(Trimming::Nul.trim("\0\0a\0b\0"), "a\0b");
    assert_eq!(Trimming::Nul.trim("é"), "é");
    assert_eq!(Trimming::Nul.trim("\0"), "");
    assert_eq!(Trimming::Nul.trim(" a "), " a ");
}

#[test]
fn white_space_is_what_the_standard_library_says() {
    for n in 0..0x11_0000u32 {
        if let Some(c) = char::from_u32(n) {
            if n < 0x3100 || n % 251 == 0 {
                let text = format!("{c}a{c}");
                assert_eq!(Trimming::White.trim(&text), text.trim());
            }
        }
    }
    assert_eq!(Trimming::White.trim(" \u{3000}\t"), "");
}

#[test]
fn flags_follow_the_debug_layer() {
    assert_eq!(device_flags(false), 0x820);
    assert_eq!(device_flags(true), 0x822);
    assert_eq!(factory_flags(false), 0);
    assert_eq!(factory_flags(true), 1);
    assert_eq!(feature_level_name(0xB100), Some("Direct3D 11.1"));
    assert_eq!(feature_level_name(0xB000), Some("Direct3D 11.0"));
    assert_eq!(feature_level_name(0xA100), Some("Direct3D 10.1"));
    assert_eq!(feature_level_name(0x9300), None);
}

#[test]
fn drivers_are_named_by_vendor() {
    assert_eq!(driver_name(0x10DE), "NVIDIA Corporation");
    assert_eq!(driver_name(0x1002), "AMD Corporation");
    assert_eq!(driver_name(0x8086), "Intel Corporation");
    assert_eq!(driver_name(0x1414), "Unknown Vendor (ID: 0x1414)");
    assert_eq!(driver_name(0xABCDEF), "Unknown Vendor (ID: 0xABCDEF)");
    assert_eq!(driver_name(0), "Unknown Vendor (ID: 0x0)");
    assert_eq!(driver_source(0x10DE), DriverSource::Nvidia);
    assert_eq!(driver_source(0x1002), DriverSource::Amd);
    assert_eq!(driver_source(0x8086), DriverSource::Dxgi);
}

#[test]
fn driver_versions_are_spelled_out() {
    assert_eq!(nvidia_driver_version(55123, "r551_06"), "551.23 r551_06");
    assert_eq!(nvidia_driver_version(55103, ""), "551.3 ");
    assert_eq!(amd_driver_version(Some("24.1.1"), Some("31.0")), "24.1.1 (31.0)");
    assert_eq!(
        amd_driver_version(None, None),
        "Unknown Radeon Software Version (Unknown Radeon Driver Version)"
    );
    for number in [0i64, 1, -1, i64::MIN, i64::MAX, 0x001F_0000_000F_1234, -0x7654_3210_0FED] {
        let expected = format!(
            "{}.{}.{}.{}",
            number >> 48,
            (number >> 32) & 0xFFFF,
            (number >> 16) & 0xFFFF,
            number & 0xFFFF
        );
        assert_eq!(dxgi_driver_version(number), expected);
    }
}

#[test]
fn specs_are_put_together() {
    let specs = gpu_specs(&wide("WARP", 16), 2, 0x1414, None);
    assert!(specs.is_software_emulated);
    assert_eq!(specs.device_name, "WARP");
    assert_eq!(specs.driver_name, "Unknown Vendor (ID: 0x1414)");
    assert_eq!(specs.driver_info, "Unknown Driver");
    let specs = gpu_specs(&wide("Arc", 16), 1, 0x8086, Some("1.2.3.4"));
    assert!(!specs.is_software_emulated);
    assert_eq!(specs.driver_info, "1.2.3.4");
}

#[test]
fn numbers_are_written_as_usual() {
    for n in [0u64, 1, 9, 10, 99, 100, 1023, u64::MAX] {
        let mut text = String::from("n=");
        push_decimal(&mut text, n);
        assert_eq!(text, format!("n={n}"));
        let mut text = String::new();
        push_hex(&mut text, n);
        assert_eq!(text, format!("{n:#X}"));
    }
}

#[test]
fn spans_do_nothing() {
    init();
    let span = Span::current();
    span.enter();
    span.record("key", 3);
    assert_eq!(span, Span);
}

#[test]
fn the_first_adapter_that_gives_a_device_is_used() {
    // The adapter used, and which ones were tried.
    let choose = |works: &[bool]| -> (Option<usize>, Vec<usize>) {
        let mut tried = Vec::new();
        let mut worked = false;
        loop {
            match get_adapter(works.len(), tried.len(), worked) {
                AdapterStep::Try(place) => {
                    tried.push(place);
                    worked = works[place];
                }
                AdapterStep::Use(place) => return (Some(place), tried),
                AdapterStep::NoneWorks => return (None, tried),
            }
        }
    };
    assert_eq!(choose(&[true, true]), (Some(0), vec![0]));
    assert_eq!(choose(&[false, false, true, true]), (Some(2), vec![0, 1, 2]));
    assert_eq!(choose(&[false, false]), (None, vec![0, 1]));
    assert_eq!(choose(&[]), (None, vec![]));
}
