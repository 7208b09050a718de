use filetransfer::fmt::{dgram_file_name, stream_file_name, telemetry_line, RecordKind};
use filetransfer::Mode;

#[test]
fn send_line_matches_schema() {
    let line = telemetry_line(RecordKind::Send, 123456789, 0xabcdef, 2400, 600, Mode::Datagram);
    assert_eq!(
        line,
        format!("send,{},{:016x},{},{},datagram", 123456789u64, 0xabcdefu64, 2400, 600)
    );
}

#[test]
fn recv_line_matches_schema() {
    let line = telemetry_line(RecordKind::Recv, 1, 0, 0, 999, Mode::Stream);
    assert_eq!(line, "recv,1,0000000000000000,0,999,stream");
}

#[test]
fn line_spells_every_decimal_digit() {
    let line = telemetry_line(
        RecordKind::Send,
        9876543210,
        u64::MAX,
        1023,
        0,
        Mode::Stream,
    );
    assert_eq!(line, "send,9876543210,ffffffffffffffff,1023,0,stream");
}

#[test]
fn dgram_file_name_pattern() {
    let name = dgram_file_name(0x1f2e3d4c5b6a7988, 3000);
    assert_eq!(name, "1f2e3d4c5b6a7988_size3000.bin");
    assert_eq!(name, format!("{:016x}_size{}.bin", 0x1f2e3d4c5b6a7988u64, 3000));
}

#[test]
fn stream_file_name_pattern() {
    assert_eq!(stream_file_name(4), "0000000000000004.bin");
    assert_eq!(stream_file_name(u64::MAX), "ffffffffffffffff.bin");
}

#[test]
fn hex_field_is_zero_padded() {
    let name = dgram_file_name(0, 0);
    assert_eq!(name, "0000000000000000_size0.bin");
}
