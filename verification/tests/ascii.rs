use fx::ascii::{ascii_names, ascii_text};

#[test]
fn test_ascii() {
    assert!(ascii_text().contains(" SOH "));
}

#[test]
fn test_ascii_count() {
    let text = ascii_text();
    for val in 0..0x7f {
        let needle = format!("0x{:02x} ", val);
        assert!(text.contains(&needle));
    }
}

#[test]
fn test_ascii_low() {
    let text = ascii_text();
    let names = ascii_names();
    for name in names.iter() {
        assert!(text.contains(name));
    }
}

#[test]
fn test_ascii_names() {
    let text = ascii_text();
    for item in 0x21..0x7f {
        let spitem = format!("0x{:x}", item);
        assert!(text.contains(spitem.as_str()))
    }
}

#[test]
fn ascii_names_are_the_33_low_codes() {
    let names = ascii_names();
    assert_eq!(names.len(), 33);
    assert_eq!(names[0], "NUL");
    assert_eq!(names[9], "TAB");
    assert_eq!(names[32], "SPC");
}

#[test]
fn ascii_table_has_16_rows_of_8() {
    let text = ascii_text();
    let rows: Vec<&str> = text.split('\n').collect();
    assert_eq!(rows.len(), 16);
    assert_eq!(rows[0],
               "0x00 NUL 0x01 SOH 0x02 STX 0x03 ETX 0x04 EOT 0x05 ENQ 0x06 ACK 0x07 BEL ");
    assert_eq!(rows[1],
               "0x08 BS  0x09 TAB 0x0a LF  0x0b VT  0x0c FF  0x0d CR  0x0e SO  0x0f SI  ");
    assert_eq!(rows[4],
               "0x20 SPC 0x21 !   0x22 \"   0x23 #   0x24 $   0x25 %   0x26 &   0x27 '   ");
    assert_eq!(rows[15],
               "0x78 x   0x79 y   0x7a z   0x7b {   0x7c |   0x7d }   0x7e ~   ");
}

#[test]
fn ascii_table_leaves_out_delete() {
    assert!(!ascii_text().contains("0x7f"));
}
