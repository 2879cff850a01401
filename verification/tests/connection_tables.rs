//! Parsing of the kernel's connection tables.
use zek::collectors::connections::{collect_connections, parse_address, parse_proc_net_file,
    parse_tcp_state};

const TCP_TABLE: &str = "  sl  local_address rem_address   st tx_queue rx_queue tr tm->when retrnsmt   uid  timeout inode\n   0: 0100007F:0050 00000000:0000 0A 00000000:00000000 00:00000000 00000000  1000        0 12345 1\n   1: 0A00020F:01BB C0A80001:D431 01 00000000:00000000 00:00000000 00000000  1000        0 12346 1\n";

const UDP_TABLE: &str = "  sl  local_address rem_address   st tx_queue rx_queue tr tm->when retrnsmt   uid  timeout inode\n   0: 00000000:0044 00000000:0000 07 00000000:00000000 00:00000000 00000000   998        0 23456 2\n";

#[test]
fn address_field_becomes_dotted_decimal() {
    assert_eq!(parse_address("0100007F:0050"), "1.0.0.127:80");
    assert_eq!(parse_address("00000000:0000"), "0.0.0.0:0");
    assert_eq!(parse_address("C0A80001:D431"), "192.168.0.1:54321");
}

#[test]
fn malformed_address_fields_pass_through() {
    // no colon, several colons, or not eight leading digits
    assert_eq!(parse_address("abc"), "abc");
    assert_eq!(parse_address("::1:80"), "::1:80");
    assert_eq!(parse_address("1234:0050"), "1234:0050");
    // bad hex digits inside an eight-digit field count as zero
    assert_eq!(parse_address("01XX007F:0050"), "1.0.0.127:80");
    assert_eq!(parse_address("0100007F:GGGG"), "1.0.0.127:0");
    // a port too large for sixteen bits counts as zero
    assert_eq!(parse_address("0100007F:10000"), "1.0.0.127:0");
}

#[test]
fn state_field_becomes_the_state_name() {
    assert_eq!(parse_tcp_state("01"), "ESTABLISHED");
    assert_eq!(parse_tcp_state("02"), "SYN_SENT");
    assert_eq!(parse_tcp_state("06"), "TIME_WAIT");
    assert_eq!(parse_tcp_state("0A"), "LISTEN");
    assert_eq!(parse_tcp_state("0B"), "CLOSING");
    assert_eq!(parse_tcp_state("ZZ"), "UNKNOWN");
    assert_eq!(parse_tcp_state(""), "UNKNOWN");
}

#[test]
fn table_lines_past_the_header_become_records() {
    let conns = parse_proc_net_file(TCP_TABLE, "TCP");
    assert_eq!(conns.len(), 2);
    assert_eq!(conns[0].protocol, "TCP");
    assert_eq!(conns[0].local_address, "1.0.0.127:80");
    assert_eq!(conns[0].remote_address, "0.0.0.0:0");
    assert_eq!(conns[0].state, "LISTEN");
    assert_eq!(conns[0].pid, None);
    assert_eq!(conns[0].process_name, None);
    assert_eq!(conns[1].local_address, "10.0.2.15:443");
    assert_eq!(conns[1].remote_address, "192.168.0.1:54321");
    assert_eq!(conns[1].state, "ESTABLISHED");
}

#[test]
fn short_lines_and_empty_tables_yield_nothing() {
    assert_eq!(parse_proc_net_file("", "TCP").len(), 0);
    assert_eq!(parse_proc_net_file("header only, no further lines", "TCP").len(), 0);
    let short = "header\nonly three fields here\n";
    assert_eq!(parse_proc_net_file(short, "TCP").len(), 0);
}

#[test]
fn both_tables_are_collected_in_order() {
    let conns = collect_connections(TCP_TABLE, UDP_TABLE);
    assert_eq!(conns.len(), 3);
    assert_eq!(conns[0].protocol, "TCP");
    assert_eq!(conns[1].protocol, "TCP");
    assert_eq!(conns[2].protocol, "UDP");
    assert_eq!(conns[2].local_address, "0.0.0.0:68");
    assert_eq!(conns[2].state, "CLOSE");
}
