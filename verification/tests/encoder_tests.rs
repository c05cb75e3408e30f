use spdrw::command::{DdrType, MemCommand, MemOp};
use spdrw::encode::{encode_mem_command, encode_wifi_command};

fn cmd(ddr_type: DdrType, op: MemOp, addr: u8, value: u8, count: u16) -> MemCommand {
    MemCommand { ddr_type, op, addr, value, count }
}

#[test]
fn scenario_a_exact_encoding() {
    let r = encode_mem_command(&cmd(DdrType::Ddr4, MemOp::Read, 0x01, 0x02, 12));
    assert_eq!(
        r,
        "{\"type\":\"ddr4\",\"cmd\":\"read\",\"addr\":\"0x01\",\"value\":\"0x02\",\"number\":\"12\"}\n"
    );
}

#[test]
fn encoding_is_idempotent() {
    let c = cmd(DdrType::Ddr5, MemOp::Write, 0xab, 0xcd, 65535);
    let r1 = encode_mem_command(&c);
    let r2 = encode_mem_command(&c);
    assert_eq!(r1.as_bytes(), r2.as_bytes());
}

#[test]
fn single_line_single_terminator() {
    let r = encode_mem_command(&cmd(DdrType::Ddr4, MemOp::Srswp, 0, 0, 1));
    assert!(r.ends_with('\n'));
    assert!(!r.ends_with("\r\n"));
    assert_eq!(r.matches('\n').count(), 1);
}

#[test]
fn reparse_yields_fields_back() {
    let r = encode_mem_command(&cmd(DdrType::Ddr4, MemOp::Read, 0x7f, 0x00, 128));
    let v: serde_json::Value = serde_json::from_str(r.trim_end()).unwrap();
    assert_eq!(v["type"].as_str().unwrap(), "ddr4");
    assert_eq!(v["cmd"].as_str().unwrap(), "read");
    assert_eq!(v["addr"].as_str().unwrap(), "0x7f");
    assert_eq!(v["value"].as_str().unwrap(), "0x00");
    assert_eq!(v["number"].as_str().unwrap(), "128");
}

#[test]
fn count_edge_values() {
    let r0 = encode_mem_command(&cmd(DdrType::Ddr4, MemOp::Read, 0, 0, 0));
    assert!(r0.contains("\"number\":\"0\""));
    let rmax = encode_mem_command(&cmd(DdrType::Ddr4, MemOp::Read, 0, 0, u16::MAX));
    assert!(rmax.contains("\"number\":\"65535\""));
}

#[test]
fn op_and_type_names() {
    let r = encode_mem_command(&cmd(DdrType::Ddr5, MemOp::Crswp, 0xff, 0x10, 1));
    assert_eq!(
        r,
        "{\"type\":\"ddr5\",\"cmd\":\"crswp\",\"addr\":\"0xff\",\"value\":\"0x10\",\"number\":\"1\"}\n"
    );
}

#[test]
fn wifi_plain_encoding() {
    let r = encode_wifi_command("mynet", "secret1");
    assert_eq!(r, "{\"ssid\":\"mynet\",\"password\":\"secret1\"}\n");
}

#[test]
fn wifi_escapes_make_valid_json() {
    let ssid = "a\"b\\c";
    let password = "line\nbreak\ttab\u{1}ctl";
    let r = encode_wifi_command(ssid, password);
    assert!(r.ends_with('\n'));
    let v: serde_json::Value = serde_json::from_str(r.trim_end()).unwrap();
    assert_eq!(v["ssid"].as_str().unwrap(), ssid);
    assert_eq!(v["password"].as_str().unwrap(), password);
}

#[test]
fn wifi_escape_exact() {
    let r = encode_wifi_command("q\"", "b\\");
    assert_eq!(r, "{\"ssid\":\"q\\\"\",\"password\":\"b\\\\\"}\n");
}
