use lain::hexdump;

const HEADER: &str = "------00 01 02 03 04 05 06 07 08 09 0A 0B 0C 0D 0E 0F ";

/// The dump written out with std's formatting, for comparison.
fn format_dump(data: &[u8]) -> String {
    let mut ret = "------".to_string();
    for i in 0..16 {
        ret += &format!("{:02X} ", i);
    }
    let mut ascii = String::new();
    for (i, b) in data.iter().enumerate() {
        if i % 16 == 0 {
            ret += &format!("\t{}", ascii);
            ascii.clear();
            ret += &format!("\n{:04X}:", i);
        }
        ret += &format!(" {:02X}", b);
        if (*b >= 0x21 && *b <= 0x7e) || *b >= 0xa1 {
            ascii.push(*b as char);
        } else {
            ascii.push('.');
        }
    }
    if data.len() % 16 != 0 {
        for _i in 0..16 - (data.len() % 16) {
            ret += " ";
        }
    }
    ret += &format!("\t{}", ascii);
    ret
}

#[test]
fn hexdump_of_nothing_is_header_and_tab() {
    assert_eq!(hexdump(&[]), format!("{}\t", HEADER));
}

#[test]
fn hexdump_of_two_bytes() {
    let expected = format!("{}\t\n0000: 41 00{}\tA.", HEADER, " ".repeat(14));
    assert_eq!(hexdump(&[0x41, 0x00]), expected);
}

#[test]
fn hexdump_of_a_full_row_has_no_padding() {
    let data: Vec<u8> = (0x30..0x40).collect();
    let expected = format!(
        "{}\t\n0000: 30 31 32 33 34 35 36 37 38 39 3A 3B 3C 3D 3E 3F\t0123456789:;<=>?",
        HEADER
    );
    assert_eq!(hexdump(&data), expected);
}

#[test]
fn hexdump_starts_a_new_row_after_sixteen_bytes() {
    let data: Vec<u8> = (0..17).collect();
    let expected = format!(
        "{}\t\n0000: 00 01 02 03 04 05 06 07 08 09 0A 0B 0C 0D 0E 0F\t................\n0010: 10{}\t.",
        HEADER,
        " ".repeat(15)
    );
    assert_eq!(hexdump(&data), expected);
}

#[test]
fn hexdump_text_column_bounds() {
    // 0x20, 0x7f, 0x80 and 0xa0 show as dots; 0x21, 0x7e, 0xa1 and 0xff as themselves
    let data = [0x1f, 0x20, 0x21, 0x7e, 0x7f, 0x80, 0xa0, 0xa1, 0xff];
    let expected = format!(
        "{}\t\n0000: 1F 20 21 7E 7F 80 A0 A1 FF{}\t..!~...\u{a1}\u{ff}",
        HEADER,
        " ".repeat(7)
    );
    assert_eq!(hexdump(&data), expected);
}

#[test]
fn hexdump_of_the_serialized_example_struct() {
    let data = [0x5Fu8, 0x75, 0x00, 0x00, 0x20, 0xBF, 0x00, 0x00, 0x00, 0x00, 0x00, 0x00, 0x00, 0x00];
    let expected = "------00 01 02 03 04 05 06 07 08 09 0A 0B 0C 0D 0E 0F \t\n0000: 5F 75 00 00 20 BF 00 00 00 00 00 00 00 00  \t_u...\u{bf}........";
    assert_eq!(hexdump(&data), expected);
}

#[test]
fn hexdump_offsets_grow_past_four_digits() {
    let data = vec![0xABu8; 0x10010];
    let dump = hexdump(&data);
    assert!(dump.contains("\n10000: AB"));
    assert_eq!(dump, format_dump(&data));
}

#[test]
fn hexdump_is_latin1_on_every_byte_value() {
    let data: Vec<u8> = (0..=255).collect();
    let dump = hexdump(&data);
    assert!(dump.chars().all(|c| (c as u32) < 256));
    assert_eq!(dump, format_dump(&data));
}

#[test]
fn hexdump_matches_formatting_on_many_lengths() {
    for len in 0..70usize {
        let data: Vec<u8> = (0..len).map(|i| (i * 37 + 11) as u8).collect();
        assert_eq!(hexdump(&data), format_dump(&data), "length {}", len);
    }
}

#[test]
fn hexdump_has_one_row_per_sixteen_bytes() {
    for len in [0usize, 1, 15, 16, 17, 32, 33, 100] {
        let dump = hexdump(&vec![7u8; len]);
        assert_eq!(dump.matches('\n').count(), (len + 15) / 16);
    }
}

#[test]
fn hexdump_shows_delete_as_a_dot() {
    let expected = format!("{}\t\n0000: 7F{}\t.", HEADER, " ".repeat(15));
    assert_eq!(hexdump(&[0x7f]), expected);
}
