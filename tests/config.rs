use microstatus::config::{
    groups_from_config, report_line, service_from_fields, untitled_group, ConfigError, GroupFields, ServiceFields,
};
use microstatus::service::ServiceType;

fn fields(name: Option<&str>, t: Option<&str>, host: Option<&str>, port: Option<i64>, ssl: Option<bool>) -> ServiceFields {
    ServiceFields {
        name: name.map(str::to_string),
        svc_type: t.map(str::to_string),
        host: host.map(str::to_string),
        port,
        ssl,
    }
}

fn missing(r: Result<microstatus::service::Service, ConfigError>) -> String {
    match r {
        Err(ConfigError::MissingField(f)) => f,
        _ => panic!("expected a missing field"),
    }
}

#[test]
fn http_entry_defaults_to_ssl() {
    let s = service_from_fields(fields(Some("Example"), Some("http"), Some("example.com"), None, None)).ok().unwrap();
    assert_eq!(s.name, "Example");
    assert_eq!(s.svc_type, ServiceType::Http);
    assert!(s.ssl);
    assert!(!s.up);
    assert_eq!(s.port, None);
}

#[test]
fn port_entry_keeps_port() {
    let s = service_from_fields(fields(Some("db"), Some("PORT"), Some("h"), Some(5432), Some(false))).ok().unwrap();
    assert_eq!(s.svc_type, ServiceType::Port);
    assert_eq!(s.port, Some(5432));
    assert!(!s.ssl);
}

#[test]
fn missing_fields_are_named() {
    assert_eq!(missing(service_from_fields(fields(None, Some("ping"), Some("h"), None, None))), "name");
    assert_eq!(missing(service_from_fields(fields(Some("a"), None, Some("h"), None, None))), "type");
    assert_eq!(missing(service_from_fields(fields(Some("a"), Some("ping"), None, None, None))), "host");
    assert_eq!(missing(service_from_fields(fields(Some("a"), Some("port"), Some("h"), None, None))), "port");
}

#[test]
fn unknown_type_is_reported() {
    match service_from_fields(fields(Some("a"), Some("Smtp"), Some("h"), None, None)) {
        Err(ConfigError::UnknownType(m)) => assert_eq!(m, "unknown service type: smtp"),
        _ => panic!("expected an unknown type"),
    }
}

#[test]
fn untitled_services_group() {
    let g = untitled_group(vec![]);
    assert_eq!(g.title, "Services");
    assert!(g.services.is_empty());
}

#[test]
fn report_lines() {
    assert_eq!(report_line("example.com", None, true), "example.com is up");
    assert_eq!(report_line("db", Some(5432), false), "db:5432 is down");
}

#[test]
fn out_of_range_ports_are_rejected() {
    for p in [70000i64, -1, 65536] {
        match service_from_fields(fields(Some("db"), Some("port"), Some("h"), Some(p), None)) {
            Err(ConfigError::PortOutOfRange(n)) => assert_eq!(n, p),
            _ => panic!("expected a port out of range"),
        }
    }
    let s = service_from_fields(fields(Some("db"), Some("port"), Some("h"), Some(65535), None)).ok().unwrap();
    assert_eq!(s.port, Some(65535));
    let s = service_from_fields(fields(Some("db"), Some("port"), Some("h"), Some(0), None)).ok().unwrap();
    assert_eq!(s.port, Some(0));
}

fn group(title: Option<&str>, services: Option<Vec<ServiceFields>>) -> GroupFields {
    GroupFields { title: title.map(str::to_string), services }
}

#[test]
fn groups_in_order_with_untitled_last() {
    let groups = vec![
        group(Some("Demo"), Some(vec![fields(Some("Example"), Some("http"), Some("example.com"), None, Some(true))])),
        group(Some("Empty"), None),
        group(Some("Infra"), Some(vec![fields(Some("gw"), Some("ping"), Some("10.0.0.1"), None, None)])),
    ];
    let untitled = Some(vec![fields(Some("db"), Some("port"), Some("db"), Some(5432), None)]);
    let gs = groups_from_config(groups, untitled).ok().unwrap();
    let titles: Vec<&str> = gs.iter().map(|g| g.title.as_str()).collect();
    assert_eq!(titles, vec!["Demo", "Infra", "Services"]);
    assert_eq!(gs[0].services[0].name, "Example");
    assert_eq!(gs[1].services[0].svc_type, ServiceType::Ping);
    assert_eq!(gs[2].services[0].port, Some(5432));
}

#[test]
fn group_faults_are_fatal() {
    match groups_from_config(vec![group(None, None)], None) {
        Err(ConfigError::MissingField(f)) => assert_eq!(f, "title"),
        _ => panic!("expected a missing title"),
    }
    let bad = vec![group(Some("G"), Some(vec![fields(Some("a"), Some("port"), Some("h"), Some(99999), None)]))];
    assert!(matches!(groups_from_config(bad, None), Err(ConfigError::PortOutOfRange(99999))));
    let bad_untitled = Some(vec![fields(Some("a"), None, Some("h"), None, None)]);
    match groups_from_config(vec![], bad_untitled) {
        Err(ConfigError::MissingField(f)) => assert_eq!(f, "type"),
        _ => panic!("expected a missing type"),
    }
    assert!(groups_from_config(vec![], None).ok().unwrap().is_empty());
}
