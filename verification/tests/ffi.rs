use macmon::c_layout::{
    ffi_cpu_usage_list, ffi_metrics, ffi_soc_info, ffi_u32_array, macmon_metrics_free,
    macmon_metrics_t, macmon_sampler_free, macmon_soc_info_free, macmon_soc_info_t, Block,
};
use macmon::c_text::make_c_string;
use macmon::ffi::{
    deliver_metrics, deliver_sampler, deliver_soc_info, ffi_error, ffi_freed, ffi_status,
    macmon_get_soc_info, macmon_last_error_message, macmon_sampler_get_metrics, macmon_sampler_new,
    macmon_status_t, sampler_mut, FfiResult, LastError, Outcome,
};
use macmon::metrics::{
    CoreUsageEntry, CpuUsageEntry, GpuUsageEntry, MemMetrics, Metrics, PowerMetrics, TempMetrics,
};
use macmon::soc::{CpuDomainInfo, SocInfo};
use std::rc::Rc;

fn metrics() -> Metrics<f32> {
    Metrics {
        cpu_usage: vec![CpuUsageEntry {
            name: "ECPU".into(),
            units: 99,
            freq_mhz: 1200,
            usage: 0.25,
            cores: vec![
                CoreUsageEntry { freq_mhz: 1000, usage: 0.2 },
                CoreUsageEntry { freq_mhz: 1400, usage: 0.3 },
            ],
        }],
        gpu_usage: vec![GpuUsageEntry {
            name: "GPUPH".into(),
            units: 20,
            freq_mhz: 461,
            usage: 0.02,
        }],
        power: PowerMetrics {
            package: 0.3,
            cpu: 0.1,
            gpu: 0.2,
            ram: 0.01,
            gpu_ram: 0.02,
            ane: 0.03,
            board: 4.0,
            battery: 1.0,
            dc_in: 5.0,
        },
        memory: MemMetrics { ram_total: 1, ram_usage: 2, swap_total: 3, swap_usage: 4 },
        temp: TempMetrics { cpu_avg: 43.0, gpu_avg: 37.0 },
    }
}

fn info() -> SocInfo {
    SocInfo {
        mac_model: "Mac99,1".into(),
        chip_name: "Apple M99".into(),
        memory_gb: 512,
        cpu_domains: vec![CpuDomainInfo {
            name: "PCPU".into(),
            units: 8,
            freqs_mhz: vec![1000, 2000],
        }],
        gpu_cores: 40,
        gpu_freqs: vec![300, 600],
    }
}

fn outcome<T>(r: FfiResult<T>) -> Outcome {
    match r {
        Ok(_) => Outcome::Done,
        Err(e) => Outcome::Failed(e),
    }
}

fn message(slot: &LastError) -> Option<String> {
    macmon_last_error_message(slot).map(|text| text.as_str().to_string())
}

#[test]
fn ffi_metrics_roundtrips_synthetic_usage_and_frees() {
    let mut raw = ffi_metrics(metrics());

    assert_eq!(raw.cpu_usage.len, 1);
    let cpu = &raw.cpu_usage.ptr.as_ref().unwrap()[0];
    assert_eq!(cpu.name.as_ref().unwrap().as_str(), "ECPU");
    assert_eq!(cpu.units, 2);
    assert_eq!(cpu.freq_mhz, 1200);
    assert_eq!(cpu.cores_freq_mhz.as_ref().unwrap()[1], 1400);
    assert!((cpu.cores_usage.as_ref().unwrap()[1] - 0.3).abs() < 1e-6);

    assert_eq!(raw.gpu_usage.len, 1);
    let gpu = &raw.gpu_usage.ptr.as_ref().unwrap()[0];
    assert_eq!(gpu.name.as_ref().unwrap().as_str(), "GPUPH");
    assert_eq!(gpu.units, 20);
    assert_eq!(gpu.freq_mhz, 461);
    assert!((raw.temp.cpu_avg - 43.0).abs() < 1e-6);
    assert_eq!(raw.memory.swap_usage, 4);
    assert!((raw.power.package - 0.3).abs() < 1e-6);

    let freed = macmon_metrics_free(Some(&mut raw));
    assert!(raw.cpu_usage.ptr.is_none());
    assert_eq!(raw.cpu_usage.len, 0);
    assert!(raw.gpu_usage.ptr.is_none());
    assert_eq!(
        freed,
        [
            Block::CString,
            Block::U32Array(2),
            Block::F32Array(2),
            Block::CpuUsageArray(1),
            Block::CString,
            Block::GpuUsageArray(1),
        ]
    );
    assert_eq!(raw.power.dc_in, 0.0);
    assert_eq!(raw.memory.ram_usage, 0);
}

#[test]
fn ffi_soc_info_preserves_domains_memory_and_frees() {
    let mut raw = ffi_soc_info(info());

    assert_eq!(raw.mac_model.as_ref().unwrap().as_str(), "Mac99,1");
    assert_eq!(raw.chip_name.as_ref().unwrap().as_str(), "Apple M99");
    assert_eq!(raw.memory_gb, 512);
    assert_eq!(raw.cpu_domains_len, 1);
    let domain = &raw.cpu_domains.as_ref().unwrap()[0];
    assert_eq!(domain.name.as_ref().unwrap().as_str(), "PCPU");
    assert_eq!(domain.units, 8);
    assert_eq!(domain.freqs_len, 2);
    assert_eq!(domain.freqs_mhz.as_ref().unwrap()[1], 2000);
    assert_eq!(raw.gpu_freqs_len, 2);
    assert_eq!(raw.gpu_freqs_mhz.as_ref().unwrap()[1], 600);

    let freed = macmon_soc_info_free(Some(&mut raw));
    assert!(raw.mac_model.is_none());
    assert!(raw.cpu_domains.is_none());
    assert!(raw.gpu_freqs_mhz.is_none());
    assert_eq!(
        freed,
        [
            Block::CString,
            Block::CString,
            Block::CString,
            Block::U32Array(2),
            Block::CpuDomainArray(1),
            Block::U32Array(2),
        ]
    );
    assert_eq!((raw.cpu_domains_len, raw.gpu_freqs_len, raw.gpu_cores, raw.memory_gb), (0, 0, 0, 0));
}

#[test]
fn ffi_null_output_pointers_are_invalid_arguments() {
    let mut slot = LastError::new();

    let status = ffi_status(outcome(macmon_get_soc_info(None)), &mut slot);
    assert_eq!(status, macmon_status_t::MACMON_STATUS_INVALID_ARGUMENT);
    assert!(message(&slot).unwrap().contains("out_info"));

    let status = ffi_status(outcome(macmon_sampler_new::<u8>(None)), &mut slot);
    assert_eq!(status, macmon_status_t::MACMON_STATUS_INVALID_ARGUMENT);
    assert!(message(&slot).unwrap().contains("out_sampler"));

    let status =
        ffi_status(outcome(macmon_sampler_get_metrics::<u8, f32>(None, None)), &mut slot);
    assert_eq!(status, macmon_status_t::MACMON_STATUS_INVALID_ARGUMENT);
    assert!(message(&slot).unwrap().contains("out_metrics"));
}

#[test]
fn freeing_null_or_freed_structures_frees_nothing() {
    assert_eq!(macmon_metrics_free::<f32>(None), []);
    assert_eq!(macmon_soc_info_free(None), []);
    assert_eq!(macmon_sampler_free::<u8>(None), []);
    assert_eq!(macmon_sampler_free(Some(7)), [Block::Sampler]);
    let mut raw = ffi_metrics(metrics());
    assert_eq!(macmon_metrics_free(Some(&mut raw)).len(), 6);
    assert_eq!(macmon_metrics_free(Some(&mut raw)), []);
    let mut raw = macmon_soc_info_t::default();
    assert_eq!(macmon_soc_info_free(Some(&mut raw)), []);
}

#[test]
fn domain_without_cores_shows_empty_arrays() {
    let mut m = metrics();
    m.cpu_usage[0].cores.clear();
    let list = ffi_cpu_usage_list(&m.cpu_usage);
    let cpu = &list.ptr.as_ref().unwrap()[0];
    assert_eq!(cpu.units, 0);
    assert_eq!(cpu.cores_freq_mhz.as_ref().unwrap().len(), 0);
    let (values, len) = ffi_u32_array(&[7, 8, 9]);
    assert_eq!((values, len), (Some(vec![7, 8, 9]), 3));
}

#[test]
fn c_strings_hold_no_nul() {
    assert_eq!(make_c_string("a\0b\0").as_str(), "a b ");
    assert_eq!(make_c_string("Apple – M99").as_str(), "Apple – M99");
    assert!(!make_c_string("x\0\u{100}\u{10000}").as_str().as_bytes().contains(&0));
}

#[test]
fn status_numbers() {
    let codes = [
        macmon_status_t::MACMON_STATUS_OK.code(),
        macmon_status_t::MACMON_STATUS_INVALID_ARGUMENT.code(),
        macmon_status_t::MACMON_STATUS_INIT_FAILED.code(),
        macmon_status_t::MACMON_STATUS_SAMPLE_FAILED.code(),
        macmon_status_t::MACMON_STATUS_PANIC.code(),
    ];
    assert_eq!(codes, [0, 1, 2, 3, 4]);
}

#[test]
fn last_error_follows_the_calls() {
    let mut slot = LastError::new();
    assert_eq!(message(&slot), None);
    let e = ffi_error(macmon_status_t::MACMON_STATUS_SAMPLE_FAILED, "bad\0unit".to_string());
    let status = ffi_status(Outcome::Failed(e), &mut slot);
    assert_eq!(status, macmon_status_t::MACMON_STATUS_SAMPLE_FAILED);
    assert_eq!(message(&slot).as_deref(), Some("bad unit"));
    ffi_freed(false, &mut slot);
    assert_eq!(message(&slot).as_deref(), Some("bad unit"));
    assert_eq!(ffi_status(Outcome::Done, &mut slot), macmon_status_t::MACMON_STATUS_OK);
    assert_eq!(message(&slot), None);
    assert_eq!(ffi_status(Outcome::Panicked, &mut slot), macmon_status_t::MACMON_STATUS_PANIC);
    assert_eq!(message(&slot).as_deref(), Some("panic across FFI boundary"));
    let mut other = LastError::new();
    ffi_freed(true, &mut other);
    assert_eq!(message(&other).as_deref(), Some("panic across FFI boundary"));
}

#[test]
fn sampler_slot_is_null_until_there_is_one() {
    let mut slot = Some(7);
    assert!(macmon_sampler_new(Some(&mut slot)).is_ok());
    assert_eq!(slot, None);
    let e = deliver_sampler(&mut slot, Err("no smc".to_string())).unwrap_err();
    assert_eq!(e.status, macmon_status_t::MACMON_STATUS_INIT_FAILED);
    assert_eq!(e.message, "no smc");
    assert_eq!(slot, None);
    assert!(deliver_sampler(&mut slot, Ok(9)).is_ok());
    assert_eq!(slot, Some(9));
    *sampler_mut(slot.as_mut()).unwrap() += 1;
    assert_eq!(slot, Some(10));
}

#[test]
fn soc_info_call() {
    let mut out = ffi_soc_info(info());
    assert!(macmon_get_soc_info(Some(&mut out)).is_ok());
    assert!(out.chip_name.is_none());
    let e = deliver_soc_info(&mut out, Err("no soc".to_string())).unwrap_err();
    assert_eq!(e.status, macmon_status_t::MACMON_STATUS_INIT_FAILED);
    assert!(out.chip_name.is_none());
    assert!(deliver_soc_info(&mut out, Ok(info())).is_ok());
    assert_eq!(out.chip_name.as_ref().unwrap().as_str(), "Apple M99");
}

#[test]
fn metrics_call() {
    let mut sampler = 3u8;
    let mut out = ffi_metrics(metrics());
    let e = macmon_sampler_get_metrics::<u8, f32>(None, Some(&mut out)).unwrap_err();
    assert_eq!(e.status, macmon_status_t::MACMON_STATUS_INVALID_ARGUMENT);
    assert_eq!(e.message, "sampler must not be null");
    assert!(out.cpu_usage.ptr.is_none());

    let mut out = macmon_metrics_t::default();
    let s = macmon_sampler_get_metrics(Some(&mut sampler), Some(&mut out)).unwrap();
    assert_eq!(*s, 3);
    let e = deliver_metrics(&mut out, Err("bad unit".to_string())).unwrap_err();
    assert_eq!(e.status, macmon_status_t::MACMON_STATUS_SAMPLE_FAILED);
    assert_eq!(e.message, "bad unit");
    assert!(out.gpu_usage.ptr.is_none());
    assert!(deliver_metrics(&mut out, Ok(metrics())).is_ok());
    assert_eq!(out.power.board, 4.0);
    assert_eq!(out.memory.ram_total, 1);
}

#[test]
fn message_is_of_the_latest_status_call_of_the_thread() {
    let (mut mine, mut other) = (LastError::new(), LastError::new());
    let failed = |status, message: &str| Outcome::Failed(ffi_error(status, message.to_string()));
    ffi_freed(false, &mut mine);
    assert_eq!(message(&mine), None);
    ffi_status(failed(macmon_status_t::MACMON_STATUS_INIT_FAILED, "first"), &mut mine);
    ffi_status(failed(macmon_status_t::MACMON_STATUS_SAMPLE_FAILED, "second"), &mut mine);
    ffi_freed(false, &mut mine);
    ffi_status(Outcome::Done, &mut other);
    assert_eq!(message(&mine).as_deref(), Some("second"));
    assert_eq!(message(&mine).as_deref(), Some("second"));
    assert_eq!(message(&other), None);
    ffi_status(Outcome::Done, &mut mine);
    assert_eq!(message(&mine), None);
}

#[test]
fn overwritten_places_are_not_freed() {
    let sampler = Rc::new(7);
    let mut slot = Some(Rc::clone(&sampler));
    assert!(macmon_sampler_new(Some(&mut slot)).is_ok());
    assert!(slot.is_none());
    assert_eq!(Rc::strong_count(&sampler), 2);
    assert!(deliver_sampler(&mut slot, Ok(Rc::clone(&sampler))).is_ok());
    assert!(deliver_sampler(&mut slot, Ok(Rc::new(9))).is_ok());
    assert_eq!(slot.as_deref(), Some(&9));
    assert_eq!(Rc::strong_count(&sampler), 3);
}
