use macmon::http::{read_path, write_response};
use macmon::json::{json_document, metrics_value, soc_value, to_json};
use macmon::launchd::{after_step, launchd, LaunchStep};
use macmon::metrics::{
    CoreUsageEntry, CpuUsageEntry, GpuUsageEntry, MemMetrics, Metrics, PowerMetrics, TempMetrics,
};
use macmon::prometheus::to_prometheus;
use macmon::serve::{handle_conn, reply, run, Connection, Endpoint, Latest};
use macmon::soc::{CpuDomainInfo, SocInfo};
use serde_json::Value;

fn metrics<F>(real: impl Fn(f32) -> F) -> Metrics<F> {
    Metrics {
        temp: TempMetrics { cpu_avg: real(43.0), gpu_avg: real(37.0) },
        memory: MemMetrics { ram_total: 1, ram_usage: 2, swap_total: 3, swap_usage: 4 },
        cpu_usage: vec![CpuUsageEntry {
            name: "ECPU".into(),
            units: 2,
            freq_mhz: 1200,
            usage: real(0.25),
            cores: vec![
                CoreUsageEntry { freq_mhz: 1000, usage: real(0.2) },
                CoreUsageEntry { freq_mhz: 1400, usage: real(0.3) },
            ],
        }],
        gpu_usage: vec![GpuUsageEntry {
            name: "GPUPH".into(),
            units: 10,
            freq_mhz: 461,
            usage: real(0.02),
        }],
        power: PowerMetrics {
            package: real(0.321),
            cpu: real(0.2),
            gpu: real(0.01),
            ram: real(0.11),
            gpu_ram: real(0.001),
            ane: real(0.0),
            board: real(5.8),
            battery: real(0.7),
            dc_in: real(0.8),
        },
    }
}

fn soc() -> SocInfo {
    SocInfo { chip_name: "Apple M99".into(), ..SocInfo::default() }
}

fn latest() -> Latest {
    Latest {
        json: metrics(Value::from),
        text: metrics(|x| x.to_string()),
    }
}

fn body(response: &str) -> &str {
    let (head, body) = response.split_once("\r\n\r\n").unwrap();
    let length = format!("Content-Length: {}", body.len());
    assert!(head.split("\r\n").any(|line| line == length), "{head}");
    body
}

#[test]
fn metrics_serialize_with_cli_shape() {
    let value = metrics_value(metrics(Value::from));

    assert_eq!(value["cpu_usage"]["ECPU"]["units"], 2);
    assert_eq!(value["cpu_usage"]["ECPU"]["freq_mhz"], 1200);
    assert!((value["cpu_usage"]["ECPU"]["usage"].as_f64().unwrap() - 0.25).abs() < 1e-6);
    assert_eq!(value["cpu_usage"]["ECPU"]["cores"][0][0], 1000);
    assert!((value["cpu_usage"]["ECPU"]["cores"][0][1].as_f64().unwrap() - 0.2).abs() < 1e-6);
    assert_eq!(value["gpu_usage"]["GPUPH"]["freq_mhz"], 461);
    assert_eq!(value["gpu_usage"]["GPUPH"]["units"], 10);
    assert!((value["gpu_usage"]["GPUPH"]["usage"].as_f64().unwrap() - 0.02).abs() < 1e-6);
    assert!((value["power"]["package"].as_f64().unwrap() - 0.321).abs() < 1e-6);
    assert_eq!(value["memory"]["swap_usage"], 4);
    assert!((value["temp"]["cpu_avg"].as_f64().unwrap() - 43.0).abs() < 1e-6);

    let mut keys: Vec<&String> = value.as_object().unwrap().keys().collect();
    keys.sort();
    assert_eq!(keys, ["cpu_usage", "gpu_usage", "memory", "power", "temp"]);
    assert_eq!(value["memory"].as_object().unwrap().len(), 4);
    assert_eq!(value["memory"]["ram_total"], 1);
    assert_eq!(value["memory"]["ram_usage"], 2);
    assert_eq!(value["memory"]["swap_total"], 3);
    assert_eq!(value["power"].as_object().unwrap().len(), 9);
    assert_eq!(value["power"]["dc_in"], Value::from(0.8f32));
    assert_eq!(value["temp"]["gpu_avg"], 37.0);
    assert_eq!(value["cpu_usage"]["ECPU"]["cores"].as_array().unwrap().len(), 2);
}

fn forty_cores() -> SocInfo {
    SocInfo { gpu_cores: 40, ..soc() }
}

#[test]
fn document_adds_the_chip_and_the_time() {
    let time = "1996-12-19T16:39:57+00:00".to_string();
    let doc = json_document(metrics(Value::from), &forty_cores(), time);
    assert_eq!(doc["soc"]["gpu_cores"], 40);
    assert_eq!(doc["timestamp"], "1996-12-19T16:39:57+00:00");
    assert_eq!(doc["memory"]["ram_total"], 1);
    assert_eq!(doc.as_object().unwrap().len(), 7);
}

#[test]
fn chip_description_in_json() {
    let value = soc_value(&SocInfo {
        mac_model: "Mac99,1".into(),
        chip_name: "Apple M99".into(),
        memory_gb: 512,
        cpu_domains: vec![
            CpuDomainInfo { name: "ECPU".into(), units: 4, freqs_mhz: vec![] },
            CpuDomainInfo { name: "PCPU".into(), units: 8, freqs_mhz: vec![1000, 2000] },
        ],
        gpu_cores: 40,
        gpu_freqs: vec![300, 600],
    });
    assert_eq!(
        value.to_string(),
        r#"{"chip_name":"Apple M99","cpu_domains":[{"freqs_mhz":[],"name":"ECPU","units":4},{"freqs_mhz":[1000,2000],"name":"PCPU","units":8}],"gpu_cores":40,"gpu_freqs":[300,600],"mac_model":"Mac99,1","memory_gb":512}"#
    );
}

#[test]
fn json_text_is_the_document_with_the_present_time() {
    let before = chrono::Utc::now();
    let text = to_json(metrics(Value::from), &forty_cores());
    let after = chrono::Utc::now();
    let doc: Value = serde_json::from_str(&text).unwrap();
    assert_eq!(doc["soc"]["gpu_cores"], 40);
    assert_eq!(doc["cpu_usage"]["ECPU"]["freq_mhz"], 1200);
    let time = chrono::DateTime::parse_from_rfc3339(doc["timestamp"].as_str().unwrap()).unwrap();
    assert!(before <= time && time <= after);
}

#[test]
fn numbers_beyond_reals_are_null_in_json() {
    let mut m = metrics(Value::from);
    m.power.board = Value::from(f32::NAN);
    assert!(metrics_value(m)["power"]["board"].is_null());
}

#[test]
fn prometheus_exposition() {
    let text = to_prometheus(&metrics(|x| x.to_string()), &soc());
    let gauges: Vec<&str> = text.split_terminator("\n\n").collect();
    assert_eq!(gauges.len(), 6 + 2 + 2 + 9);
    assert_eq!(
        gauges[0],
        "# HELP macmon_cpu_temp_celsius Average CPU temperature in Celsius\n\
         # TYPE macmon_cpu_temp_celsius gauge\n\
         macmon_cpu_temp_celsius{chip=\"Apple M99\"} 43"
    );
    assert_eq!(
        gauges[3],
        "# HELP macmon_memory_ram_used_bytes Used RAM in bytes\n\
         # TYPE macmon_memory_ram_used_bytes gauge\n\
         macmon_memory_ram_used_bytes{chip=\"Apple M99\"} 2"
    );
    assert_eq!(
        gauges[7],
        "# HELP macmon_cpu_usage_ratio CPU domain utilization (0–1)\n\
         # TYPE macmon_cpu_usage_ratio gauge\n\
         macmon_cpu_usage_ratio{chip=\"Apple M99\",domain=\"ECPU\"} 0.25"
    );
    assert!(gauges[8].ends_with("macmon_gpu_usage_freq_mhz{chip=\"Apple M99\",domain=\"GPUPH\"} 461"));
    assert!(gauges[18].ends_with("macmon_power_dc_in_watts{chip=\"Apple M99\"} 0.8"));
    assert!(text.ends_with("0.8\n\n"));
}

#[test]
fn prometheus_exposition_without_domains() {
    let mut m = metrics(|x| x.to_string());
    m.cpu_usage.clear();
    m.gpu_usage.clear();
    assert_eq!(to_prometheus(&m, &soc()).split_terminator("\n\n").count(), 15);
}

#[test]
fn request_paths() {
    let cases: [(&[u8], Option<&str>); 14] = [
        (b"GET /json HTTP/1.1\r\nHost: x\r\n\r\n", Some("/json")),
        (b"GET /metrics?a=1?b HTTP/1.1\r\n", Some("/metrics")),
        (b"GET / HTTP/1.0\n", Some("/")),
        (b"GET /json", Some("/json")),
        (b"  GET \t /x\tHTTP", Some("/x")),
        (b"GET ?q HTTP/1.1\r\n", Some("")),
        (b"GET\n/json HTTP/1.1", None),
        (b"GET", None),
        (b"GET ", None),
        (b"", None),
        (b"\r\nGET /json HTTP/1.1\r\n", None),
        (b"GET /\xff HTTP/1.1\r\n", None),
        ("GET /é\u{a0}x HTTP/1.1\r\n".as_bytes(), Some("/é")),
        (b"POST /json\r\n", Some("/json")),
    ];
    for (request, path) in cases {
        assert_eq!(read_path(request).as_deref(), path, "{:?}", String::from_utf8_lossy(request));
    }
}

#[test]
fn responses() {
    assert_eq!(
        write_response(200, "application/json", "{}"),
        "HTTP/1.1 200 OK\r\nContent-Type: application/json\r\nContent-Length: 2\r\n\
         Connection: close\r\n\r\n{}"
    );
    assert!(write_response(404, "t", "").starts_with("HTTP/1.1 404 Not Found\r\n"));
    assert!(write_response(503, "t", "").starts_with("HTTP/1.1 503 Service Unavailable\r\n"));
    assert!(write_response(418, "t", "").starts_with("HTTP/1.1 418 OK\r\n"));
    assert_eq!(body(&write_response(200, "t", "0–1\r\n\r\nx")), "0–1\r\n\r\nx");
    assert!(write_response(200, "t", "0–1").contains("Content-Length: 5\r\n"));
}

#[test]
fn connections() {
    assert!(matches!(handle_conn(b"GET"), Connection::Close));
    match handle_conn(b"GET /?x HTTP/1.1\r\n") {
        Connection::Reply(text) => {
            assert!(text.starts_with("HTTP/1.1 200 OK\r\nContent-Type: application/json\r\n"));
            assert_eq!(body(&text), "{}");
        }
        _ => unreachable!(),
    }
    let cases: [(&[u8], Endpoint); 3] = [
        (b"GET /json HTTP/1.1\r\n", Endpoint::Json),
        (b"GET /metrics HTTP/1.1\r\n", Endpoint::Prometheus),
        (b"GET /json/ HTTP/1.1\r\n", Endpoint::Unknown),
    ];
    for (request, expected) in cases {
        match handle_conn(request) {
            Connection::Measure(endpoint) => assert_eq!(endpoint, expected),
            _ => unreachable!(),
        }
    }
}

#[test]
fn pages_without_a_measurement_are_unavailable() {
    for endpoint in [Endpoint::Json, Endpoint::Prometheus, Endpoint::Unknown] {
        let text = reply(endpoint, None, &soc());
        assert!(text.starts_with("HTTP/1.1 503 Service Unavailable\r\n"));
        assert_eq!(body(&text), r#"{"error":"no data yet"}"#);
    }
}

#[test]
fn pages_with_a_measurement() {
    let json = reply(Endpoint::Json, Some(latest()), &soc());
    assert!(json.starts_with("HTTP/1.1 200 OK\r\nContent-Type: application/json\r\n"));
    let doc: Value = serde_json::from_str(body(&json)).unwrap();
    assert_eq!(doc["soc"]["chip_name"], "Apple M99");
    assert_eq!(doc["gpu_usage"]["GPUPH"]["units"], 10);

    let text = reply(Endpoint::Prometheus, Some(latest()), &soc());
    assert!(text.contains("Content-Type: text/plain; version=0.0.4; charset=utf-8\r\n"));
    assert_eq!(body(&text), to_prometheus(&latest().text, &soc()));

    let unknown = reply(Endpoint::Unknown, Some(latest()), &soc());
    assert!(unknown.starts_with("HTTP/1.1 404 Not Found\r\n"));
    assert_eq!(body(&unknown), r#"{"error":"not found"}"#);
}

#[test]
fn server_setup() {
    let plan = run(9090);
    assert_eq!(plan.address, "0.0.0.0:9090");
    assert_eq!(
        plan.banner,
        [
            "macmon serving on http://localhost:9090",
            "  GET /json    → JSON metrics",
            "  GET /metrics → Prometheus format",
        ]
    );
}

#[test]
fn agent_is_installed_in_order() {
    let (home, bin) = ("/Users/me".to_string(), "/usr/local/bin/macmon".to_string());
    let steps = launchd(9090, true, Ok(home), Ok(bin)).unwrap();
    assert_eq!(steps.len(), 6);
    let plist = "/Users/me/Library/LaunchAgents/com.macmon.plist";
    assert!(matches!(&steps[0], LaunchStep::CreateDir(d) if d == "/Users/me/Library/LaunchAgents"));
    assert!(matches!(&steps[1], LaunchStep::Unload(p) if p == plist));
    match &steps[2] {
        LaunchStep::WriteFile { path, text } => {
            assert_eq!(path, plist);
            assert_eq!(
                text,
                r#"<?xml version="1.0" encoding="UTF-8"?>
<!DOCTYPE plist PUBLIC "-//Apple//DTD PLIST 1.0//EN" "http://www.apple.com/DTDs/PropertyList-1.0.dtd">
<plist version="1.0">
<dict>
  <key>Label</key>
  <string>com.macmon</string>
  <key>ProgramArguments</key>
  <array>
    <string>/usr/local/bin/macmon</string>
    <string>serve</string>
    <string>--port</string>
    <string>9090</string>
  </array>
  <key>RunAtLoad</key>
  <true/>
  <key>KeepAlive</key>
  <true/>
</dict>
</plist>
"#
            );
        }
        _ => unreachable!(),
    }
    assert!(matches!(&steps[3], LaunchStep::Load(p) if p == plist));
    let installed = format!("macmon service installed: {plist}");
    assert!(matches!(&steps[4], LaunchStep::Report(l) if *l == installed));
    assert!(matches!(&steps[5], LaunchStep::Report(l) if l == "serving on http://localhost:9090"));
}

#[test]
fn agent_is_removed_in_order() {
    let steps = launchd(1, false, Ok("/h".to_string()), Err("no program".to_string())).unwrap();
    let plist = "/h/Library/LaunchAgents/com.macmon.plist";
    assert_eq!(steps.len(), 3);
    assert!(matches!(&steps[0], LaunchStep::Unload(p) if p == plist));
    assert!(matches!(&steps[1], LaunchStep::RemoveFile(p) if p == plist));
    assert!(matches!(&steps[2], LaunchStep::Report(l) if l == "macmon service uninstalled"));
}

#[test]
fn agent_needs_a_home_and_a_program() {
    let error = |install, home: Result<&str, &str>, bin: Result<&str, &str>| {
        let own = |x: Result<&str, &str>| match x {
            Ok(x) => Ok(x.to_string()),
            Err(e) => Err(e.to_string()),
        };
        launchd(9090, install, own(home), own(bin)).err()
    };
    assert_eq!(error(false, Err("no home"), Ok("b")).as_deref(), Some("no home"));
    assert_eq!(error(true, Err("no home"), Err("no program")).as_deref(), Some("no home"));
    assert_eq!(error(true, Ok("/h"), Err("no program")).as_deref(), Some("no program"));
    assert_eq!(error(true, Ok("/h"), Ok("b")), None);
}

fn launch(install: bool, failing: &[usize]) -> (usize, Result<(), String>) {
    let steps = launchd(1, install, Ok("/h".to_string()), Ok("b".to_string())).unwrap();
    let mut taken = 0;
    for step in &steps {
        let outcome = if failing.contains(&taken) { Err(taken.to_string()) } else { Ok(()) };
        taken += 1;
        if let Err(e) = after_step(step, outcome) {
            return (taken, Err(e));
        }
    }
    (taken, Ok(()))
}

#[test]
fn failed_steps_end_the_run_unless_they_unload() {
    assert_eq!(launch(false, &[]), (3, Ok(())));
    assert_eq!(launch(false, &[0]), (3, Ok(())));
    assert_eq!(launch(false, &[0, 1]), (2, Err("1".to_string())));
    assert_eq!(launch(true, &[1]), (6, Ok(())));
    assert_eq!(launch(true, &[0, 2]), (1, Err("0".to_string())));
    assert_eq!(launch(true, &[1, 2, 3]), (3, Err("2".to_string())));
    assert_eq!(launch(true, &[3]), (4, Err("3".to_string())));
}
