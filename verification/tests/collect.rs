use sysfacts::collect::{collect, Sources};
use sysfacts::info::{FactError, SystemInfo};
use sysfacts::report::report;

fn sources() -> Sources {
    Sources {
        cpu_listing: "processor\t: 0\nmodel name\t: Example CPU\ncpu cores\t: 8\n\nprocessor\t: 1\nmodel name\t: Example CPU\ncpu cores\t: 8\n".to_string(),
        cpu_frequency: "2400000\n".to_string(),
        bus_listing: "00:00.0 Host bridge: Example Corp Root\n01:00.0 VGA compatible controller: Example Corp [Widget GPU 2000]\n".to_string(),
        kernel_release: "6.1.0-test\n".to_string(),
        os_descriptor: "NAME=\"Test Linux\"\nPRETTY_NAME=\"Test Linux 5\"\n".to_string(),
        machine: "x86_64\n".to_string(),
        uptime: "up 3 hours, 12 minutes\n".to_string(),
        memory_listing: "MemTotal:       16000000 kB\nMemFree:         2000000 kB\nMemAvailable:    8000000 kB\n".to_string(),
        user: "bill\n".to_string(),
        host: "fedora\n".to_string(),
    }
}

fn text(s: &str) -> Option<String> {
    Some(s.to_string())
}

#[test]
fn collect_gathers_every_fact() {
    let expected = SystemInfo {
        os: text("Test Linux 5 x86_64"),
        kernel: text("6.1.0-test"),
        uptime: text("3 hours, 12 minutes"),
        cpu_model: text("Example CPU"),
        cpu_cores: text("8"),
        cpu_frequency_hz: Some(2_400_000_000),
        gpu: text("Widget GPU 2000"),
        memory_used_kb: Some(8_000_000),
        memory_total_kb: Some(16_000_000),
        user_hostname: text("bill@fedora"),
    };
    assert_eq!(collect(&sources()), Ok(expected));
}

#[test]
fn collect_again_gives_the_same_record() {
    let given = sources();
    let first = collect(&given);
    let second = collect(&given);
    assert!(first.is_ok());
    assert_eq!(first, second);
    let copy = given.clone();
    assert_eq!(collect(&copy), first);
    assert_eq!(report(&first.unwrap(), "2.400"), report(&second.unwrap(), "2.400"));
}

#[test]
fn collect_leaves_absent_what_the_sources_do_not_show() {
    let mut given = sources();
    given.cpu_listing = "processor\t: 0\nmodel name\t: Example CPU\n".to_string();
    given.bus_listing = "00:00.0 Host bridge: Example Corp Root\n".to_string();
    given.memory_listing = String::new();
    let info = collect(&given).unwrap();
    assert_eq!(info.cpu_model, text("Example CPU"));
    assert_eq!(info.cpu_cores, None);
    assert_eq!(info.gpu, None);
    assert_eq!(info.memory_used_kb, None);
    assert_eq!(info.memory_total_kb, None);
    let lines = report(&info, "2.400");
    assert_eq!(lines[5], "CPU: Example CPU (N/A) @ 2.400GHz");
    assert_eq!(lines[6], "GPU: N/A");
    assert_eq!(lines[7], "Memory: N/A");
}

#[test]
fn collect_fails_on_the_first_error() {
    let mut given = sources();
    given.os_descriptor = "NAME=\"Test Linux\"\n".to_string();
    assert_eq!(collect(&given), Err(FactError::NotFound));
    given.cpu_frequency = "unknown".to_string();
    assert_eq!(collect(&given), Err(FactError::Parse));
    let mut given = sources();
    given.uptime = "up".to_string();
    given.memory_listing = "MemTotal 5\n".to_string();
    assert_eq!(collect(&given), Err(FactError::Parse));
    let mut given = sources();
    given.os_descriptor = "PRETTY_NAME=bare\n".to_string();
    assert_eq!(collect(&given), Err(FactError::Parse));
    let mut given = sources();
    given.memory_listing = "MemTotal: 1 kB\nMemAvailable: 2 kB\n".to_string();
    assert_eq!(collect(&given), Err(FactError::Parse));
}
