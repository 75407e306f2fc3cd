use microstatus::history::{Check, History};
use microstatus::render::{history_path, render_dashboard, render_history};
use microstatus::service::{Service, ServiceGroup, ServiceType};
use microstatus::text::decimal_text;
use microstatus::cycle::complete_cycle;

fn demo() -> Vec<ServiceGroup> {
    vec![ServiceGroup {
        title: "Demo".to_string(),
        services: vec![Service::new("Example".to_string(), ServiceType::Http, "example.com".to_string(), None, true)
            .unwrap()],
    }]
}

#[test]
fn one_cycle_end_to_end() {
    let mut h = History::new();
    let ts = "2024-05-01T12:00:00+00:00".to_string();
    let groups = complete_cycle(&demo(), &vec![true], &mut h, &ts, 2880);
    let checks = h.checks(&"Example".to_string());
    assert_eq!(checks.len(), 1);
    assert_eq!(checks[0].timestamp, ts);
    assert!(checks[0].status);
    let page = render_dashboard(&groups, &ts, 30);
    assert!(page.contains("<h2>Demo</h2>"));
    assert!(page.contains("<li class=\"up\"><a href=\"history/Example.html\">Example</a>: up</li>"));
    assert!(page.contains("Checked every 30 seconds"));
}

#[test]
fn render_twice_is_identical() {
    let groups = demo();
    let a = render_dashboard(&groups, "t", 15);
    let b = render_dashboard(&groups, "t", 15);
    assert_eq!(a, b);
    let checks = vec![Check { timestamp: "t1".to_string(), status: false }];
    assert_eq!(render_history(&groups[0].services[0], &checks), render_history(&groups[0].services[0], &checks));
}

#[test]
fn history_page_lists_checks_oldest_first() {
    let s = Service::new("A <b>".to_string(), ServiceType::Ping, "h".to_string(), None, true).unwrap();
    let checks = vec![
        Check { timestamp: "t1".to_string(), status: true },
        Check { timestamp: "t2".to_string(), status: false },
    ];
    let page = render_history(&s, &checks);
    assert!(page.contains("<h1>A &lt;b&gt;</h1>"));
    assert!(page.contains("<p>Now: down</p>"));
    let i1 = page.find("<tr><td>t1</td><td>up</td></tr>").unwrap();
    let i2 = page.find("<tr><td>t2</td><td>down</td></tr>").unwrap();
    assert!(i1 < i2);
}

#[test]
fn history_paths_use_underscores() {
    assert_eq!(history_path("My Site"), "history/My_Site.html");
}

#[test]
fn decimal_digits() {
    assert_eq!(decimal_text(0), "0");
    assert_eq!(decimal_text(7), "7");
    assert_eq!(decimal_text(2880), "2880");
    assert_eq!(decimal_text(18446744073709551615), "18446744073709551615");
}

#[test]
fn escapes_quotes_and_ampersands() {
    let groups = vec![ServiceGroup { title: "R&D \"x\" 'y'".to_string(), services: vec![] }];
    let page = render_dashboard(&groups, "t", 1);
    assert!(page.contains("<h2>R&amp;D &quot;x&quot; &#x27;y&#x27;</h2>"));
}
