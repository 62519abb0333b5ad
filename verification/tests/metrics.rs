use macmon::arith::{mean, quotient, total, Real, WideReal};
use macmon::metrics::{
    active_offset, calc_cluster_usage_at_peak_freq, calc_freq_from_residencies, channel_route,
    cpu_channel_domain_index, ioreport_channels_filter, is_active_state, is_valid_temp,
    states_cover, zero_div, ChannelRoute, CoreUsageEntry, PowerRail,
};
use macmon::soc::CpuDomainInfo;

#[derive(Debug, Clone, Copy, Default, PartialEq, PartialOrd)]
struct R32(f32);

#[derive(Debug, Clone, Copy, Default, PartialEq, PartialOrd)]
struct R64(f64);

impl From<u8> for R32 {
    fn from(n: u8) -> Self {
        R32(n as f32)
    }
}

impl From<u8> for R64 {
    fn from(n: u8) -> Self {
        R64(n as f64)
    }
}

impl Real for R32 {
    fn plus(self, other: Self) -> Self {
        R32(self.0 + other.0)
    }
    fn times(self, other: Self) -> Self {
        R32(self.0 * other.0)
    }
    fn over(self, other: Self) -> Self {
        R32(self.0 / other.0)
    }
    fn of_u32(n: u32) -> Self {
        R32(n as f32)
    }
    fn of_usize(n: usize) -> Self {
        R32(n as f32)
    }
    fn to_u32(self) -> u32 {
        self.0 as u32
    }
}

impl Real for R64 {
    fn plus(self, other: Self) -> Self {
        R64(self.0 + other.0)
    }
    fn times(self, other: Self) -> Self {
        R64(self.0 * other.0)
    }
    fn over(self, other: Self) -> Self {
        R64(self.0 / other.0)
    }
    fn of_u32(n: u32) -> Self {
        R64(n as f64)
    }
    fn of_usize(n: usize) -> Self {
        R64(n as f64)
    }
    fn to_u32(self) -> u32 {
        self.0 as u32
    }
}

impl WideReal<R32> for R64 {
    fn of_i64(n: i64) -> Self {
        R64(n as f64)
    }
    fn narrow(self) -> R32 {
        R32(self.0 as f32)
    }
}

fn a_core(freq_mhz: u32, usage: f32) -> CoreUsageEntry<R32> {
    CoreUsageEntry { freq_mhz, usage: R32(usage) }
}

fn three_domains() -> Vec<CpuDomainInfo> {
    vec![
        CpuDomainInfo { name: "ECPU".into(), units: 4, freqs_mhz: vec![1000] },
        CpuDomainInfo { name: "PCPU".into(), units: 8, freqs_mhz: vec![2000] },
        CpuDomainInfo { name: "MCPU".into(), units: 12, freqs_mhz: vec![1500] },
    ]
}

#[test]
fn calc_freq_returns_raw_usage_ratio() {
    let items = vec![
        ("IDLE".to_string(), 50),
        ("F1".to_string(), 25),
        ("F2".to_string(), 15),
        ("F3".to_string(), 10),
    ];
    assert!(states_cover(&items, &[1000, 2000, 3000]));
    let (freq, usage) = calc_freq_from_residencies::<R32, R64>(&items, &[1000, 2000, 3000]);

    assert_eq!(freq, 1700);
    assert_eq!(usage.0, 0.5);
}

#[test]
fn calc_freq_with_mismatched_states_matches_legacy_mapping() {
    let items = vec![
        ("IDLE".to_string(), 50),
        ("S1".to_string(), 0),
        ("S2".to_string(), 0),
        ("S3".to_string(), 0),
        ("S4".to_string(), 50),
    ];
    assert!(states_cover(&items, &[1000, 2000]));
    let (freq, usage) = calc_freq_from_residencies::<R32, R64>(&items, &[1000, 2000]);

    assert_eq!(freq, 0);
    assert!((usage.0 - 0.5f32).abs() < 1e-6f32);
}

#[test]
fn frequency_table_that_outruns_active_states_is_told() {
    let items = vec![("IDLE".to_string(), 50), ("F1".to_string(), 50)];

    assert!(!states_cover(&items, &[1000, 2000]));
    assert!(states_cover(&items, &[1000]));
    assert!(states_cover(&items, &[]));
    let idle = vec![("IDLE".to_string(), 50), ("DOWN".to_string(), 1), ("OFF".to_string(), 2)];
    assert!(!states_cover(&idle, &[]));
    assert_eq!(active_offset(&idle), None);
    assert_eq!(active_offset(&items), Some(1));
}

#[test]
fn unit_that_never_worked_has_no_usage() {
    let items = vec![("IDLE".to_string(), 0), ("F1".to_string(), 0)];
    let (freq, usage) = calc_freq_from_residencies::<R32, R64>(&items, &[1000]);
    assert_eq!(freq, 0);
    assert_eq!(usage.0, 0.0);
}

#[test]
fn calc_cluster_usage_at_peak_freq_preserves_idle_frequency() {
    let cores = [a_core(0, 0.0), a_core(0, 0.0)];
    let (freq, usage) = calc_cluster_usage_at_peak_freq(&cores);

    assert_eq!(freq, 0);
    assert_eq!(usage.0, 0.0);
}

#[test]
fn calc_cluster_usage_at_peak_freq_scales_usage_to_peak_frequency() {
    let items = [
        a_core(4500, 1.0),
        a_core(1000, 0.3),
        a_core(0, 0.0),
        a_core(0, 0.0),
        a_core(0, 0.0),
        a_core(0, 0.0),
        a_core(0, 0.0),
        a_core(0, 0.0),
        a_core(0, 0.0),
        a_core(0, 0.0),
    ];
    let (freq, usage) = calc_cluster_usage_at_peak_freq(&items);

    assert_eq!(freq, 4500);
    assert!((usage.0 - 0.10666).abs() < 1e-5);
}

#[test]
fn idle_core_sets_no_peak() {
    let (freq, usage) = calc_cluster_usage_at_peak_freq(&[a_core(3000, 0.0), a_core(1000, 0.5)]);
    assert_eq!(freq, 1000);
    assert_eq!(usage.0, 0.25);
    let none: [CoreUsageEntry<R32>; 0] = [];
    assert_eq!(calc_cluster_usage_at_peak_freq(&none), (0, R32(0.0)));
}

#[test]
fn ultra_cpu_channel_matching() {
    let domains = three_domains();
    let cases = [
        ("DIE_0_ECPU0", "ECPU"),
        ("DIE_1_ECPU0", "ECPU"),
        ("DIE_0_PCPU0", "PCPU"),
        ("DIE_1_PCPU0", "PCPU"),
        ("ECPU0", "ECPU"),
        ("PCPU0", "PCPU"),
        ("MCPU0", "MCPU"),
    ];
    for (ch, expected) in cases {
        let matched = cpu_channel_domain_index(ch, &domains).map(|idx| domains[idx].name.as_str());
        assert_eq!(matched, Some(expected), "channel {ch}");
    }
}

#[test]
fn first_matching_domain_wins() {
    let domains = three_domains();
    assert_eq!(cpu_channel_domain_index("PCPU_ECPU", &domains), Some(0));
    assert_eq!(cpu_channel_domain_index("CPU0", &domains), None);
    assert_eq!(cpu_channel_domain_index("", &domains), None);
    let nameless = vec![CpuDomainInfo::default()];
    assert_eq!(cpu_channel_domain_index("", &nameless), Some(0));
}

#[test]
fn zero_div_of_integers_and_floats() {
    assert_eq!(zero_div(10u64, 5), 2);
    assert_eq!(zero_div(10u64, 0), 0);
    assert_eq!(zero_div(-9i32, 2), -4);
    assert_eq!(zero_div(1.0f64, 4.0), 0.25);
    assert_eq!(zero_div(1.0f32, 0.0), 0.0);
}

#[test]
fn temperatures_are_plausible_above_zero_up_to_the_limit() {
    assert!(is_valid_temp(&0.1f32));
    assert!(is_valid_temp(&150.0f32));
    assert!(!is_valid_temp(&0.0f32));
    assert!(!is_valid_temp(&-3.0f32));
    assert!(!is_valid_temp(&150.1f32));
    assert!(!is_valid_temp(&f32::NAN));
    assert!(is_valid_temp(&150u32));
    assert!(!is_valid_temp(&151u32));
}

#[test]
fn idle_states_by_name() {
    assert!(!is_active_state("IDLE"));
    assert!(!is_active_state("DOWN"));
    assert!(!is_active_state("OFF"));
    assert!(is_active_state("V0P5"));
    assert!(is_active_state("idle"));
    assert!(is_active_state(""));
}

#[test]
fn channels_of_the_energy_model() {
    let domains = three_domains();
    let cases = [
        ("GPU Energy", Some(PowerRail::Gpu)),
        ("CPU Energy", Some(PowerRail::Cpu)),
        ("DIE_0_CPU Energy", Some(PowerRail::Cpu)),
        ("ANE", Some(PowerRail::Ane)),
        ("ANE0_1", Some(PowerRail::Ane)),
        ("DRAM0", Some(PowerRail::Ram)),
        ("GPU SRAM0", Some(PowerRail::GpuRam)),
        ("DIE_0_GPU Energy", None),
        ("ISP", None),
    ];
    for (channel, rail) in cases {
        let route = channel_route("Energy Model", "", channel, &domains);
        let expected = match rail {
            Some(rail) => ChannelRoute::Power(rail),
            None => ChannelRoute::Ignored,
        };
        assert_eq!(route, expected, "channel {channel}");
        assert_eq!(ioreport_channels_filter("Energy Model", "", channel, "mJ"), rail.is_some());
    }
}

#[test]
fn channels_of_the_state_counters() {
    let domains = three_domains();
    let cpu = "CPU Core Performance States";
    let gpu = "GPU Performance States";
    assert_eq!(channel_route("CPU Stats", cpu, "DIE_1_PCPU7", &domains), ChannelRoute::CpuCore(1));
    assert_eq!(channel_route("CPU Stats", cpu, "XCPU", &domains), ChannelRoute::Ignored);
    assert_eq!(channel_route("CPU Stats", "Other", "PCPU", &domains), ChannelRoute::Ignored);
    assert_eq!(channel_route("GPU Stats", gpu, "GPUPH", &domains), ChannelRoute::Gpu);
    assert_eq!(channel_route("GPU Stats", gpu, "GPU", &domains), ChannelRoute::Ignored);
    assert_eq!(channel_route("Other", gpu, "GPUPH", &domains), ChannelRoute::Ignored);

    assert!(ioreport_channels_filter("CPU Stats", cpu, "XCPU", ""));
    assert!(!ioreport_channels_filter("CPU Stats", "Other", "PCPU", ""));
    assert!(ioreport_channels_filter("GPU Stats", gpu, "GPU", ""));
    assert!(!ioreport_channels_filter("GPU Stats", cpu, "GPUPH", ""));
    assert!(!ioreport_channels_filter("Other", cpu, "GPU Energy", ""));
}

#[test]
fn sums_and_means() {
    let values = [R32(1.5), R32(2.5), R32(5.0)];
    assert_eq!(total(&values), R32(9.0));
    assert_eq!(mean(&values), R32(3.0));
    let none: [R32; 0] = [];
    assert_eq!(total(&none), R32(0.0));
    assert_eq!(mean(&none), R32(0.0));
    assert_eq!(quotient(R64(7.0), R64(2.0)), R64(3.5));
    assert_eq!(quotient(R64(7.0), R64(0.0)), R64(0.0));
}
