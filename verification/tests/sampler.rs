use macmon::arith::{Real, WideReal};
use macmon::metrics::{ioreport_channels_filter, CoreUsageEntry, MemMetrics, TempMetrics};
use macmon::sampler::{
    init_smc, Opened, Rails, Reading, Sample, Sampler, Startup, TempSource, BATTERY_KEY, BOARD_KEY,
    DC_IN_KEY,
};
use macmon::soc::{CpuDomainInfo, SocInfo};

#[derive(Debug, Clone, Copy, Default, PartialEq, PartialOrd)]
struct R32(f32);

#[derive(Debug, Clone, Copy, Default, PartialEq, PartialOrd)]
struct R64(f64);

impl From<u8> for R32 {
    fn from(n: u8) -> Self {
        R32(n as f32)
    }
}

impl From<u8> for R64 {
    fn from(n: u8) -> Self {
        R64(n as f64)
    }
}

impl Real for R32 {
    fn plus(self, other: Self) -> Self {
        R32(self.0 + other.0)
    }
    fn times(self, other: Self) -> Self {
        R32(self.0 * other.0)
    }
    fn over(self, other: Self) -> Self {
        R32(self.0 / other.0)
    }
    fn of_u32(n: u32) -> Self {
        R32(n as f32)
    }
    fn of_usize(n: usize) -> Self {
        R32(n as f32)
    }
    fn to_u32(self) -> u32 {
        self.0 as u32
    }
}

impl Real for R64 {
    fn plus(self, other: Self) -> Self {
        R64(self.0 + other.0)
    }
    fn times(self, other: Self) -> Self {
        R64(self.0 * other.0)
    }
    fn over(self, other: Self) -> Self {
        R64(self.0 / other.0)
    }
    fn of_u32(n: u32) -> Self {
        R64(n as f64)
    }
    fn of_usize(n: usize) -> Self {
        R64(n as f64)
    }
    fn to_u32(self) -> u32 {
        self.0 as u32
    }
}

impl WideReal<R32> for R64 {
    fn of_i64(n: i64) -> Self {
        R64(n as f64)
    }
    fn narrow(self) -> R32 {
        R32(self.0 as f32)
    }
}

fn soc() -> SocInfo {
    SocInfo {
        mac_model: "Mac99,1".into(),
        chip_name: "Apple M99".into(),
        memory_gb: 64,
        cpu_domains: vec![
            CpuDomainInfo { name: "ECPU".into(), units: 2, freqs_mhz: vec![1000] },
            CpuDomainInfo { name: "MCPU".into(), units: 3, freqs_mhz: vec![1500] },
            CpuDomainInfo { name: "PCPU".into(), units: 4, freqs_mhz: vec![2000, 4000] },
        ],
        gpu_cores: 20,
        gpu_freqs: vec![0, 400, 800],
    }
}

fn keys(names: &[&str]) -> Vec<String> {
    names.iter().map(|n| n.to_string()).collect()
}

fn states(times: &[(&str, i64)]) -> Reading<R32> {
    Reading::States(times.iter().map(|(n, t)| (n.to_string(), *t)).collect())
}

fn sample(group: &str, subgroup: &str, channel: &str, reading: Reading<R32>) -> Sample<R32> {
    Sample { group: group.into(), subgroup: subgroup.into(), channel: channel.into(), reading }
}

fn cpu(channel: &str, reading: Reading<R32>) -> Sample<R32> {
    sample("CPU Stats", "CPU Core Performance States", channel, reading)
}

fn gpu(channel: &str, reading: Reading<R32>) -> Sample<R32> {
    sample("GPU Stats", "GPU Performance States", channel, reading)
}

fn energy(channel: &str, watts: Result<f32, &str>) -> Sample<R32> {
    let watts = match watts {
        Ok(w) => Ok(R32(w)),
        Err(e) => Err(e.to_string()),
    };
    sample("Energy Model", "", channel, Reading::Watts(watts))
}

#[test]
fn smc_scan_tries_temperature_keys_and_keeps_the_readable() {
    let names = keys(&["#KEY", "Tp01", "Tg05", "TB0T", "Te02", "Ts03", "Tg06", "T"]);
    let mut scan = init_smc(Some(names));
    let mut tried = Vec::new();
    while let Some(key) = scan.pending() {
        let key = key.clone();
        let readable = key != "Te02" && key != "Tg06";
        tried.push(key);
        scan.answer(readable);
    }
    assert_eq!(tried, keys(&["Tp01", "Tg05", "Te02", "Ts03", "Tg06"]));
    let (cpu, gpu) = scan.finish();
    assert_eq!(cpu, keys(&["Tp01", "Ts03"]));
    assert_eq!(gpu, keys(&["Tg05"]));
}

#[test]
fn smc_scan_without_keys_is_over() {
    let scan = init_smc(None);
    assert!(scan.pending().is_none());
    assert_eq!(scan.finish(), (vec![], vec![]));
}

#[test]
fn startup_opens_the_sources_in_order() {
    let mut opened = Vec::new();
    let mut state = Startup::Soc;
    let sampler = loop {
        let event = match &state {
            Startup::Soc => {
                opened.push("soc".to_string());
                Opened::Soc(Ok(soc()))
            }
            Startup::Hid(_) => {
                opened.push("hid".to_string());
                Opened::Hid(Ok(()))
            }
            Startup::Smc(_) => {
                opened.push("smc".to_string());
                Opened::Smc(Ok(Some(keys(&["Tp01", "VP0R", "Tg05"]))))
            }
            Startup::Probe(_, scan) => {
                let key = scan.pending().unwrap().clone();
                let readable = key == "Tp01";
                opened.push(key);
                Opened::Probe(readable)
            }
            Startup::IoReport(_) => {
                opened.push("ioreport".to_string());
                Opened::IoReport(Ok(()))
            }
            Startup::Ready(_) => break state,
            Startup::Failed(e) => panic!("{e}"),
        };
        state = state.advance(event);
    };
    assert_eq!(opened, keys(&["soc", "hid", "smc", "Tp01", "Tg05", "ioreport"]));
    match sampler {
        Startup::Ready(s) => {
            assert_eq!(s.soc.chip_name, "Apple M99");
            assert_eq!(s.smc_cpu_keys, keys(&["Tp01"]));
            assert!(s.smc_gpu_keys.is_empty());
            assert_eq!(s.get_temp(), TempSource::Smc);
        }
        _ => unreachable!(),
    }
}

#[test]
fn startup_fails_with_the_first_error() {
    let failed = Startup::Soc.advance(Opened::Soc(Err("no soc".into())));
    assert!(matches!(&failed, Startup::Failed(e) if e == "no soc"));
    let still = failed.advance(Opened::Soc(Ok(soc())));
    assert!(matches!(&still, Startup::Failed(e) if e == "no soc"));

    let failed = Startup::Hid(soc()).advance(Opened::Hid(Err("no hid".into())));
    assert!(matches!(&failed, Startup::Failed(e) if e == "no hid"));
    let failed = Startup::Smc(soc()).advance(Opened::Smc(Err("no smc".into())));
    assert!(matches!(&failed, Startup::Failed(e) if e == "no smc"));

    let late = Startup::Smc(soc()).advance(Opened::Smc(Ok(None)));
    assert!(matches!(&late, Startup::IoReport(s) if s.get_temp() == TempSource::Hid));
    let unasked = late.advance(Opened::Hid(Ok(())));
    let failed = unasked.advance(Opened::IoReport(Err("no ioreport".into())));
    assert!(matches!(&failed, Startup::Failed(e) if e == "no ioreport"));
}

fn read(values: &[f32]) -> Vec<Result<R32, String>> {
    values.iter().map(|x| Ok(R32(*x))).collect()
}

#[test]
fn smc_temperatures_average_the_plausible() {
    let cpu = read(&[40.0, 0.0, 50.0, 151.0, -5.0]);
    let gpu = read(&[0.0]);
    let t = Sampler::get_temp_smc(&cpu, &gpu).unwrap();
    assert_eq!(t.cpu_avg, R32(45.0));
    assert_eq!(t.gpu_avg, R32(0.0));
}

#[test]
fn smc_temperatures_fail_with_the_first_key_that_fails() {
    let good = read(&[40.0]);
    let mut bad = read(&[40.0]);
    bad.push(Err("Tp02".to_string()));
    bad.push(Err("Tp03".to_string()));
    let other = vec![Err("Tg05".to_string())];
    let error = |cpu: &[Result<R32, String>], gpu: &[Result<R32, String>]| {
        Sampler::get_temp_smc(cpu, gpu).err()
    };
    assert_eq!(error(&good, &good), None);
    assert_eq!(error(&bad, &good).as_deref(), Some("Tp02"));
    assert_eq!(error(&good, &other).as_deref(), Some("Tg05"));
    assert_eq!(error(&bad, &other).as_deref(), Some("Tp02"));
}

#[test]
fn hid_temperatures_go_by_name() {
    let sensors = [
        ("pACC MTR Temp Sensor0".to_string(), R32(40.0)),
        ("eACC MTR Temp Sensor3".to_string(), R32(44.0)),
        ("GPU MTR Temp Sensor1".to_string(), R32(37.0)),
        ("GPU MTR Temp Sensor2".to_string(), R32(200.0)),
        ("SOC MTR Temp Sensor0".to_string(), R32(90.0)),
        ("gas gauge battery".to_string(), R32(30.0)),
        ("pACC MTR Temp Sensor1".to_string(), R32(0.0)),
    ];
    let t = Sampler::get_temp_hid(&sensors);
    assert_eq!(t.cpu_avg, R32(42.0));
    assert_eq!(t.gpu_avg, R32(37.0));
}

#[test]
fn memory_pairs_are_usage_then_total() {
    let m = Sampler::get_mem(Ok((2, 1)), Ok((4, 3))).unwrap();
    assert_eq!((m.ram_total, m.ram_usage, m.swap_total, m.swap_usage), (1, 2, 3, 4));
}

#[test]
fn memory_fails_with_the_ram_first() {
    let (ram, swap) = (Err("no ram".to_string()), Err("no swap".to_string()));
    assert_eq!(Sampler::get_mem(ram.clone(), swap.clone()).unwrap_err(), "no ram");
    assert_eq!(Sampler::get_mem(ram, Ok((4, 3))).unwrap_err(), "no ram");
    assert_eq!(Sampler::get_mem(Ok((2, 1)), swap).unwrap_err(), "no swap");
}

fn memory() -> MemMetrics {
    MemMetrics { ram_total: 1, ram_usage: 2, swap_total: 3, swap_usage: 4 }
}

fn temp() -> TempMetrics<R32> {
    TempMetrics { cpu_avg: R32(43.0), gpu_avg: R32(37.0) }
}

fn rails() -> Rails<R32> {
    Rails { board: Some(R32(5.8)), battery: None, dc_in: Some(R32(0.8)) }
}

#[test]
fn measurement_fails_with_the_first_failure() {
    let sampler = Sampler::new(soc(), vec![], vec![]);
    let good = [energy("GPU Energy", Ok(1.0)), energy("ISP", Err("uncounted"))];
    let bad = [energy("GPU Energy", Err("no watts"))];
    let no_memory = || Err("no memory".to_string());
    let no_temp = || Err("no temp".to_string());
    let error = |samples: &[Sample<R32>], memory, temp| {
        sampler.get_metrics::<R32, R64>(samples, memory, temp, rails()).err()
    };
    assert_eq!(error(&good, Ok(memory()), Ok(temp())), None);
    assert_eq!(error(&bad, no_memory(), no_temp()).as_deref(), Some("no watts"));
    assert_eq!(error(&good, no_memory(), no_temp()).as_deref(), Some("no memory"));
    assert_eq!(error(&good, Ok(memory()), no_temp()).as_deref(), Some("no temp"));
}

#[test]
fn one_measurement() {
    let sampler = Sampler::new(soc(), keys(&["Tp01"]), vec![]);
    let samples = [
        cpu("DIE_0_PCPU0", states(&[("IDLE", 50), ("F1", 0), ("F2", 50)])),
        energy("CPU Energy", Ok(1.0)),
        cpu("ECPU0", states(&[("DOWN", 30), ("IDLE", 30), ("F1", 40)])),
        gpu("GPUPH", states(&[("OFF", 75), ("P1", 0), ("P2", 25)])),
        gpu("GPUCLPC", states(&[])),
        energy("DIE_1_CPU Energy", Ok(0.5)),
        energy("ISP", Err("unread")),
        energy("GPU Energy", Ok(0.25)),
        energy("ANE0", Ok(2.0)),
        energy("DRAM", Ok(4.0)),
        energy("GPU SRAM", Ok(8.0)),
        cpu("PCPU1", states(&[("IDLE", 100), ("F1", 0), ("F2", 0)])),
        cpu("XCPU1", states(&[])),
    ];
    for x in &samples {
        assert!(sampler.can_read(x));
    }
    let readings = sampler.get_readings::<R32, R64>(&samples).unwrap();
    assert_eq!(readings.power.cpu, vec![R32(1.0), R32(0.5)]);
    let m =
        sampler.get_metrics::<R32, R64>(&samples, Ok(memory()), Ok(temp()), rails()).unwrap();

    assert_eq!(m.cpu_usage.len(), 2);
    assert_eq!(m.cpu_usage[0].name, "ECPU");
    assert_eq!(m.cpu_usage[0].units, 2);
    assert_eq!(m.cpu_usage[0].freq_mhz, 1000);
    assert_eq!(m.cpu_usage[0].usage, R32(0.4));
    assert_eq!(m.cpu_usage[1].name, "PCPU");
    assert_eq!(m.cpu_usage[1].units, 4);
    assert_eq!(
        m.cpu_usage[1].cores,
        vec![
            CoreUsageEntry { freq_mhz: 4000, usage: R32(0.5) },
            CoreUsageEntry { freq_mhz: 0, usage: R32(0.0) },
        ]
    );
    assert_eq!(m.cpu_usage[1].freq_mhz, 4000);
    assert_eq!(m.cpu_usage[1].usage, R32(0.25));

    assert_eq!(m.gpu_usage.len(), 1);
    assert_eq!(m.gpu_usage[0].name, "GPUPH");
    assert_eq!(m.gpu_usage[0].units, 20);
    assert_eq!(m.gpu_usage[0].freq_mhz, 800);
    assert_eq!(m.gpu_usage[0].usage, R32(0.25));

    assert_eq!(m.power.cpu, R32(1.5));
    assert_eq!(m.power.gpu, R32(0.25));
    assert_eq!(m.power.ane, R32(2.0));
    assert_eq!(m.power.ram, R32(4.0));
    assert_eq!(m.power.gpu_ram, R32(8.0));
    assert_eq!(m.power.package, R32(15.75));
    assert_eq!(m.power.board, R32(5.8));
    assert_eq!(m.power.battery, R32(0.0));
    assert_eq!(m.power.dc_in, R32(0.8));
    assert_eq!(m.memory.swap_usage, 4);
    assert_eq!(m.temp.gpu_avg, R32(37.0));
}

#[test]
fn first_failed_power_reading_fails_the_sample() {
    let sampler = Sampler::new(soc(), vec![], vec![]);
    let samples = [
        energy("GPU Energy", Ok(1.0)),
        energy("DRAM0", Err("bad unit")),
        energy("ANE", Err("worse unit")),
    ];
    assert_eq!(sampler.get_readings::<R32, R64>(&samples).err(), Some("bad unit".to_string()));
}

#[test]
fn illegible_states_are_told() {
    let sampler = Sampler::new(soc(), vec![], vec![]);
    assert!(!sampler.can_read(&cpu("PCPU0", states(&[("IDLE", 1), ("F1", 1)]))));
    assert!(!sampler.can_read(&cpu("PCPU0", states(&[("IDLE", 1)]))));
    assert!(sampler.can_read(&cpu("PCPU0", states(&[("F1", 1), ("F2", 1)]))));
    assert!(!sampler.can_read(&gpu("GPUPH", states(&[("OFF", 1), ("P1", 1)]))));
    let mut bare = soc();
    bare.gpu_freqs = vec![];
    let bare = Sampler::new(bare, vec![], vec![]);
    assert!(!bare.can_read(&gpu("GPUPH", states(&[("P1", 1)]))));
    assert!(bare.can_read(&gpu("GPU", states(&[]))));
    assert!(!sampler.can_read(&cpu("PCPU0", Reading::Unread)));
    assert!(!sampler.can_read(&gpu("GPUPH", Reading::Watts(Ok(R32(1.0))))));
    assert!(!sampler.can_read(&sample("Energy Model", "", "ANE", Reading::Unread)));
    assert!(sampler.can_read(&energy("ANE", Err("bad unit"))));
    assert!(sampler.can_read(&sample("Energy Model", "", "ISP", Reading::Unread)));
}

#[test]
fn samples_that_are_not_subscribed_change_nothing() {
    let sampler = Sampler::new(soc(), vec![], vec![]);
    let core = || cpu("PCPU0", states(&[("IDLE", 50), ("F1", 0), ("F2", 50)]));
    let with = [
        sample("Other", "", "GPU Energy", Reading::Watts(Err("ignored".into()))),
        energy("GPU Energy", Ok(1.0)),
        sample("CPU Stats", "CPU Complex Performance States", "PCPU", states(&[])),
        core(),
    ];
    let without = [energy("GPU Energy", Ok(1.0)), core()];
    for x in &with {
        let used = ioreport_channels_filter(&x.group, &x.subgroup, &x.channel, "");
        assert_eq!(used, x.channel == "PCPU0" || x.group == "Energy Model");
    }
    let measure = |samples: &[Sample<R32>]| {
        sampler.get_metrics::<R32, R64>(samples, Ok(memory()), Ok(temp()), rails()).unwrap()
    };
    let (a, b) = (measure(&with), measure(&without));
    assert_eq!(format!("{a:?}"), format!("{b:?}"));
    assert_eq!(a.cpu_usage[0].freq_mhz, 4000);
}

#[test]
fn failed_startup_asks_for_nothing_more() {
    let mut state = Startup::Soc.advance(Opened::Soc(Ok(soc())));
    for event in [
        Opened::Hid(Err("no hid".into())),
        Opened::Smc(Err("no smc".into())),
        Opened::IoReport(Err("no ioreport".into())),
        Opened::Probe(true),
    ] {
        state = state.advance(event);
        assert!(matches!(&state, Startup::Failed(e) if e == "no hid"));
    }
}

#[test]
fn rail_keys() {
    assert_eq!((BOARD_KEY, BATTERY_KEY, DC_IN_KEY), ("PSTR", "PPBR", "PDTR"));
}
