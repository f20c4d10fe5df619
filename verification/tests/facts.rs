use sysfacts::facts::{
    frequency_khz, get_cpu_info, get_gpu_info, get_kernel_info, get_memory_usage, get_os,
    get_uptime, get_user_hostname, khz_to_hz, labelled_value, memory_figures, name_with_machine,
    optional_value, store_proc_info,
};
use sysfacts::info::{FactError, SystemInfo};

const CPU_LISTING: &str = "processor\t: 0\nvendor_id\t: ExampleVendor\nmodel name\t: Example CPU\ncpu MHz\t\t: 2400.000\ncpu cores\t: 8\n\nprocessor\t: 1\nvendor_id\t: ExampleVendor\nmodel name\t: Other CPU\ncpu cores\t: 16\n";

const BUS_LISTING: &str = "00:00.0 Host bridge: Example Corp Root Complex\n00:1f.3 Audio device: Example Corp Audio [Loud 3]\n01:00.0 VGA compatible controller: Example Corp [Widget GPU 2000]\n02:00.0 VGA compatible controller: Other Corp [Second GPU]\n";

const DESCRIPTOR: &str = "NAME=\"Test Linux\"\nVERSION=\"5 (Five)\"\nID=test\nPRETTY_NAME=\"Test Linux 5\"\nANSI_COLOR=\"0;38\"\n";

fn text(s: &str) -> Option<String> {
    Some(s.to_string())
}

#[test]
fn model_is_the_trimmed_value_of_its_line() {
    assert_eq!(labelled_value("model name\t: Example CPU", "model name"), Ok("Example CPU".to_string()));
    assert_eq!(labelled_value(CPU_LISTING, "model name"), Ok("Example CPU".to_string()));
    assert_eq!(labelled_value("model name:   padded value \t\r\n", "model name"), Ok("padded value".to_string()));
}

#[test]
fn only_the_first_labelled_line_counts() {
    let mut info = SystemInfo::new();
    assert_eq!(get_cpu_info(&mut info, CPU_LISTING, "2400000\n"), Ok(()));
    assert_eq!(info.cpu_model, text("Example CPU"));
    assert_eq!(info.cpu_cores, text("8"));
    let once = "model name\t: Example CPU\n";
    let twice = "model name\t: Example CPU\nmodel name\t: Other CPU\nmodel name\t: Third CPU";
    assert_eq!(labelled_value(twice, "model name"), labelled_value(once, "model name"));
}

#[test]
fn the_value_is_the_second_field() {
    assert_eq!(labelled_value("flags: a: b: c", "flags"), Ok("a".to_string()));
    assert_eq!(labelled_value("flags:", "flags"), Ok(String::new()));
    assert_eq!(labelled_value("x: flags", "flags"), Ok("flags".to_string()));
    assert_eq!(labelled_value("flags::x", "flags"), Ok(String::new()));
}

#[test]
fn a_missing_label_is_not_found() {
    assert_eq!(labelled_value("model name\t: X\n", "cpu cores"), Err(FactError::NotFound));
    assert_eq!(labelled_value("", "cpu cores"), Err(FactError::NotFound));
    assert_eq!(labelled_value("cpu\ncores: 4", "cpu cores"), Err(FactError::NotFound));
    assert_eq!(optional_value("model name\t: X\n", "cpu cores"), Ok(None));
    assert_eq!(optional_value("cpu cores: 4\n", "cpu cores"), Ok(text("4")));
}

#[test]
fn a_labelled_line_without_colon_is_a_parse_error() {
    assert_eq!(labelled_value("model name Example\nmodel name: Later", "model name"), Err(FactError::Parse));
    assert_eq!(optional_value("cpu cores 4", "cpu cores"), Err(FactError::Parse));
}

#[test]
fn store_proc_info_keeps_the_old_value_without_a_colon() {
    let mut value = String::from("before");
    store_proc_info(&mut value, &String::from("no colon here"));
    assert_eq!(value, "before");
    store_proc_info(&mut value, &String::from("cpu cores\t: 8 : x"));
    assert_eq!(value, "8");
    store_proc_info(&mut value, &String::from("MemTotal:       16000000 kB"));
    assert_eq!(value, "16000000 kB");
    store_proc_info(&mut value, &String::from(":"));
    assert_eq!(value, "");
}

#[test]
fn frequency_is_read_as_an_integer() {
    assert_eq!(frequency_khz("2400000\n"), Ok(2400000));
    assert_eq!(frequency_khz("  3600000  "), Ok(3600000));
    assert_eq!(khz_to_hz(2400000), 2_400_000_000);
    assert_eq!(khz_to_hz(u32::MAX), 4_294_967_295_000);
}

#[test]
fn a_frequency_that_is_no_integer_is_a_parse_error() {
    assert_eq!(frequency_khz(""), Err(FactError::Parse));
    assert_eq!(frequency_khz("\n"), Err(FactError::Parse));
    assert_eq!(frequency_khz("2.4"), Err(FactError::Parse));
    assert_eq!(frequency_khz("2400000 kHz"), Err(FactError::Parse));
    assert_eq!(frequency_khz("4294967296"), Err(FactError::Parse));
}

#[test]
fn cpu_facts_without_cores_line() {
    let mut info = SystemInfo::new();
    let listing = "processor\t: 0\nmodel name\t: Example CPU\n";
    assert_eq!(get_cpu_info(&mut info, listing, "2400000\n"), Ok(()));
    assert_eq!(info.cpu_model, text("Example CPU"));
    assert_eq!(info.cpu_cores, None);
    assert_eq!(info.cpu_frequency_hz, Some(2_400_000_000));
}

#[test]
fn cpu_facts_stay_as_they_are_on_an_error() {
    let mut info = SystemInfo::new();
    info.kernel = text("kept");
    info.cpu_model = text("old model");
    let before = info.clone();
    assert_eq!(get_cpu_info(&mut info, CPU_LISTING, "fast"), Err(FactError::Parse));
    assert_eq!(info, before);
    assert_eq!(get_cpu_info(&mut info, "model name Example", "2400000"), Err(FactError::Parse));
    assert_eq!(info, before);
    assert_eq!(get_cpu_info(&mut info, "", "1000"), Ok(()));
    assert_eq!(info.kernel, text("kept"));
    assert_eq!(info.cpu_model, None);
    assert_eq!(info.cpu_frequency_hz, Some(1_000_000));
}

#[test]
fn memory_in_use_is_total_less_available() {
    let listing = "MemTotal:       16000000 kB\nMemFree:         1000000 kB\nMemAvailable:    8000000 kB\n";
    assert_eq!(memory_figures(listing), Ok((Some(8000000), Some(16000000))));
    assert_eq!(memory_figures("MemTotal: 16000000 kB\nMemAvailable: 8000000 kB"), Ok((Some(8000000), Some(16000000))));
    assert_eq!(memory_figures("MemAvailable: 5 kB\nMemTotal: 5 kB\n"), Ok((Some(0), Some(5))));
    let mut info = SystemInfo::new();
    assert_eq!(get_memory_usage(&mut info, listing), Ok(()));
    assert_eq!(info.memory_used_kb, Some(8000000));
    assert_eq!(info.memory_total_kb, Some(16000000));
}

#[test]
fn missing_memory_labels_are_absent() {
    assert_eq!(memory_figures(""), Ok((None, None)));
    assert_eq!(memory_figures("MemTotal: 100 kB\n"), Ok((None, Some(100))));
    assert_eq!(memory_figures("MemAvailable: 100 kB\n"), Ok((None, None)));
}

#[test]
fn malformed_memory_is_a_parse_error() {
    assert_eq!(memory_figures("MemTotal: kB\n"), Err(FactError::Parse));
    assert_eq!(memory_figures("MemTotal: 16\n"), Err(FactError::Parse));
    assert_eq!(memory_figures("MemTotal: 16000  kB\n"), Err(FactError::Parse));
    assert_eq!(memory_figures("MemTotal 16000 kB\n"), Err(FactError::Parse));
    assert_eq!(memory_figures("MemTotal: 100 kB\nMemAvailable: many kB\n"), Err(FactError::Parse));
    assert_eq!(memory_figures("MemTotal: 100 kB\nMemAvailable: 101 kB\n"), Err(FactError::Parse));
    assert_eq!(memory_figures("MemAvailable: 1 kB\nMemTotal: 4294967296 kB\n"), Err(FactError::Parse));
    let mut info = SystemInfo::new();
    info.memory_total_kb = Some(1);
    assert_eq!(get_memory_usage(&mut info, "MemTotal: 16\n"), Err(FactError::Parse));
    assert_eq!(info.memory_total_kb, Some(1));
}

#[test]
fn gpu_is_what_the_first_brackets_of_the_adapter_line_hold() {
    let mut gpu = None;
    let line = "01:00.0 VGA compatible controller: Example Corp [Widget GPU 2000]";
    assert_eq!(get_gpu_info(&mut gpu, line), Ok(()));
    assert_eq!(gpu, text("Widget GPU 2000"));
    let mut gpu = None;
    assert_eq!(get_gpu_info(&mut gpu, BUS_LISTING), Ok(()));
    assert_eq!(gpu, text("Widget GPU 2000"));
    let mut gpu = None;
    assert_eq!(get_gpu_info(&mut gpu, "01:00.0 VGA compatible controller: Corp [AB/CD] [Name 7] (rev a1)\n"), Ok(()));
    assert_eq!(gpu, text("AB/CD"));
}

#[test]
fn gpu_is_absent_without_adapter_or_brackets() {
    let mut gpu = text("stale");
    assert_eq!(get_gpu_info(&mut gpu, "00:00.0 Host bridge: Example Corp [Bridge]\n"), Ok(()));
    assert_eq!(gpu, None);
    let mut gpu = text("stale");
    assert_eq!(get_gpu_info(&mut gpu, ""), Ok(()));
    assert_eq!(gpu, None);
    let mut gpu = text("stale");
    let listing = "01:00.0 VGA compatible controller: Plain Corp\n02:00.0 VGA compatible controller: Other [Second]\n";
    assert_eq!(get_gpu_info(&mut gpu, listing), Ok(()));
    assert_eq!(gpu, None);
}

#[test]
fn kernel_is_the_trimmed_output() {
    let mut kernel = None;
    get_kernel_info(&mut kernel, " 6.1.0-test \n");
    assert_eq!(kernel, text("6.1.0-test"));
    get_kernel_info(&mut kernel, "");
    assert_eq!(kernel, text(""));
}

#[test]
fn os_is_the_quoted_name_and_the_machine() {
    let mut os = None;
    assert_eq!(get_os(&mut os, "PRETTY_NAME=\"Test Linux 5\"", "x86_64"), Ok(()));
    assert_eq!(os, text("Test Linux 5 x86_64"));
    let mut os = None;
    assert_eq!(get_os(&mut os, DESCRIPTOR, "x86_64\n"), Ok(()));
    assert_eq!(os, text("Test Linux 5 x86_64"));
    let mut os = None;
    assert_eq!(get_os(&mut os, "PRETTY_NAME=\"\"\n", " arm "), Ok(()));
    assert_eq!(os, text(" arm"));
}

#[test]
fn os_name_line_begins_with_the_key() {
    let mut os = None;
    let descriptor = "OLD_PRETTY_NAME=\"Wrong\"\nPRETTY_NAME=\"Right\"\n";
    assert_eq!(get_os(&mut os, descriptor, "riscv64"), Ok(()));
    assert_eq!(os, text("Right riscv64"));
    let mut os = None;
    assert_eq!(get_os(&mut os, "\n\n  PRETTY_NAME=\"Trimmed Source\"\n", "m"), Ok(()));
    assert_eq!(os, text("Trimmed Source m"));
}

#[test]
fn os_without_name_line_is_not_found() {
    let mut os = text("kept");
    assert_eq!(get_os(&mut os, "NAME=\"Test\"\n", "x86_64"), Err(FactError::NotFound));
    assert_eq!(os, text("kept"));
    assert_eq!(get_os(&mut os, "", "x86_64"), Err(FactError::NotFound));
    assert_eq!(get_os(&mut os, "NAME=x\n PRETTY_NAME=\"Indented\"\n", "x86_64"), Err(FactError::NotFound));
}

#[test]
fn os_without_quotes_is_a_parse_error() {
    let mut os = text("kept");
    assert_eq!(get_os(&mut os, "PRETTY_NAME=Test Linux 5\n", "x86_64"), Err(FactError::Parse));
    assert_eq!(get_os(&mut os, "PRETTY_NAME=\"Unclosed\n", "x86_64"), Err(FactError::Parse));
    assert_eq!(os, text("kept"));
}

#[test]
fn uptime_loses_its_prefix() {
    let mut uptime = None;
    assert_eq!(get_uptime(&mut uptime, "up 3 hours, 12 minutes"), Ok(()));
    assert_eq!(uptime, text("3 hours, 12 minutes"));
    assert_eq!(get_uptime(&mut uptime, "up 5 min\n"), Ok(()));
    assert_eq!(uptime, text("5 min"));
    assert_eq!(get_uptime(&mut uptime, "  up    26 minutes  "), Ok(()));
    assert_eq!(uptime, text("26 minutes"));
    assert_eq!(get_uptime(&mut uptime, "abc"), Ok(()));
    assert_eq!(uptime, text(""));
    assert_eq!(get_uptime(&mut uptime, "\u{e9}\u{e9}\u{e9}rest"), Ok(()));
    assert_eq!(uptime, text("rest"));
}

#[test]
fn uptime_too_short_is_a_parse_error() {
    let mut uptime = text("kept");
    assert_eq!(get_uptime(&mut uptime, "up"), Err(FactError::Parse));
    assert_eq!(get_uptime(&mut uptime, ""), Err(FactError::Parse));
    assert_eq!(get_uptime(&mut uptime, " up \n"), Err(FactError::Parse));
    assert_eq!(uptime, text("kept"));
}

#[test]
fn user_and_host_are_joined() {
    let mut who = None;
    get_user_hostname(&mut who, "bill\n", "fedora\n");
    assert_eq!(who, text("bill@fedora"));
    get_user_hostname(&mut who, "", "");
    assert_eq!(who, text("@"));
}

#[test]
fn name_and_machine_are_joined_by_a_space() {
    assert_eq!(name_with_machine(text("Test Linux 5"), "x86_64"), Ok("Test Linux 5 x86_64".to_string()));
    assert_eq!(name_with_machine(text("Test Linux 5"), " aarch64\n"), Ok("Test Linux 5 aarch64".to_string()));
    assert_eq!(name_with_machine(text(""), ""), Ok(" ".to_string()));
    assert_eq!(name_with_machine(None, "x86_64"), Err(FactError::Parse));
}
