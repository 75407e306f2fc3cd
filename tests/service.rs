use microstatus::cycle::{complete_cycle, cycle_timestamp, record_cycle};
use microstatus::history::History;
use microstatus::service::{
    apply_results, flatten, http_url, page_name, parse_service_type, plan_probes, service_type_of_lowered, Probe,
    Service, ServiceGroup, ServiceType,
};

fn svc(name: &str, t: ServiceType, host: &str, port: Option<u16>, ssl: bool) -> Service {
    Service::new(name.to_string(), t, host.to_string(), port, ssl).unwrap()
}

fn demo_groups() -> Vec<ServiceGroup> {
    vec![
        ServiceGroup {
            title: "A".to_string(),
            services: vec![
                svc("p", ServiceType::Ping, "10.0.0.1", None, true),
                svc("q", ServiceType::Port, "db", Some(5432), true),
            ],
        },
        ServiceGroup { title: "B".to_string(), services: vec![svc("w", ServiceType::Http, "example.com", None, false)] },
    ]
}

#[test]
fn parse_type_any_case() {
    assert_eq!(parse_service_type("PING"), Ok(ServiceType::Ping));
    assert_eq!(parse_service_type("Port"), Ok(ServiceType::Port));
    assert_eq!(parse_service_type("http"), Ok(ServiceType::Http));
    assert_eq!(parse_service_type("FTP"), Err("unknown service type: ftp".to_string()));
}

#[test]
fn lowered_type_words() {
    assert_eq!(service_type_of_lowered("ping"), Ok(ServiceType::Ping));
    assert_eq!(service_type_of_lowered("PING"), Err("unknown service type: PING".to_string()));
}

#[test]
fn port_service_needs_port() {
    assert!(Service::new("x".to_string(), ServiceType::Port, "h".to_string(), None, true).is_none());
    let s = svc("x", ServiceType::Port, "h", Some(22), true);
    assert!(!s.up);
    assert_eq!(s.port, Some(22));
}

#[test]
fn http_urls() {
    assert_eq!(http_url("example.com", true), "https://example.com");
    assert_eq!(http_url("example.com", false), "http://example.com");
    assert_eq!(http_url("http://x.org", true), "http://x.org");
    assert_eq!(http_url("https://x.org", false), "https://x.org");
}

#[test]
fn page_names_replace_spaces() {
    assert_eq!(page_name("My Web Site"), "My_Web_Site");
    assert_eq!(page_name("plain"), "plain");
}

#[test]
fn probes_follow_service_order() {
    let groups = demo_groups();
    let flat = flatten(&groups);
    let names: Vec<&str> = flat.iter().map(|s| s.name.as_str()).collect();
    assert_eq!(names, vec!["p", "q", "w"]);
    let probes = plan_probes(&flat);
    assert_eq!(probes.len(), 3);
    assert!(matches!(&probes[0], Probe::Ping { host } if host == "10.0.0.1"));
    assert!(matches!(&probes[1], Probe::Port { host, port: 5432 } if host == "db"));
    assert!(matches!(&probes[2], Probe::Http { url } if url == "http://example.com"));
}

#[test]
fn results_applied_in_order() {
    let groups = demo_groups();
    let updated = apply_results(&groups, &vec![true, false, true]);
    assert_eq!(updated.len(), 2);
    assert_eq!(updated[0].title, "A");
    assert!(updated[0].services[0].up);
    assert!(!updated[0].services[1].up);
    assert!(updated[1].services[0].up);
    assert_eq!(updated[1].services[0].name, "w");
    let again = apply_results(&updated, &vec![false, true, false]);
    assert!(!again[0].services[0].up);
    assert!(again[0].services[1].up);
    assert!(!again[1].services[0].up);
}

#[test]
fn one_cycle_records_every_service() {
    let groups = demo_groups();
    let mut h = History::new();
    let ts = "2024-01-01T00:00:00+00:00".to_string();
    let updated = complete_cycle(&groups, &vec![true, false, true], &mut h, &ts, 10);
    assert!(updated[0].services[0].up);
    assert_eq!(h.entries.len(), 3);
    let q = h.checks(&"q".to_string());
    assert_eq!(q.len(), 1);
    assert_eq!(q[0].timestamp, ts);
    assert!(!q[0].status);
    let w = h.checks(&"w".to_string());
    assert!(w[0].status);
}

#[test]
fn record_cycle_uses_given_time() {
    let flat = flatten(&demo_groups());
    let mut h = History::new();
    record_cycle(&mut h, &flat, &"T".to_string(), 1);
    record_cycle(&mut h, &flat, &"U".to_string(), 1);
    for name in ["p", "q", "w"] {
        let c = h.checks(&name.to_string());
        assert_eq!(c.len(), 1);
        assert_eq!(c[0].timestamp, "U");
    }
}

#[test]
fn cycle_timestamp_stamps_rfc3339() {
    let flat = flatten(&demo_groups());
    let mut h = History::new();
    record_cycle(&mut h, &flat, &cycle_timestamp(), 5);
    let c = h.checks(&"p".to_string());
    assert_eq!(c.len(), 1);
    assert!(c[0].timestamp.contains('T'));
    assert!(c[0].timestamp.len() >= 25);
    assert!(c[0].timestamp.ends_with("+00:00"));
}

#[test]
fn service_type_from_str() {
    let t: ServiceType = "Http".parse().unwrap();
    assert_eq!(t, ServiceType::Http);
    assert!("gopher".parse::<ServiceType>().is_err());
}
