use xeedee_cli::hexdump::{hex_dump, hex_dump_rows};

fn reference(base: u32, data: &[u8], unmapped: &[u32]) -> Vec<String> {
    let mut out = Vec::new();
    for (chunk_idx, chunk) in data.chunks(16).enumerate() {
        let mut row = format!("{:#010x}  ", base.wrapping_add((chunk_idx * 16) as u32));
        for (i, b) in chunk.iter().enumerate() {
            let offset = (chunk_idx * 16 + i) as u32;
            if unmapped.contains(&offset) {
                row.push_str("?? ");
            } else {
                row.push_str(&format!("{b:02x} "));
            }
            if i == 7 {
                row.push(' ');
            }
        }
        for _ in chunk.len()..16 {
            row.push_str("   ");
        }
        row.push_str(" |");
        for (i, b) in chunk.iter().enumerate() {
            let offset = (chunk_idx * 16 + i) as u32;
            if unmapped.contains(&offset) || !(0x20..0x7f).contains(b) {
                row.push('.');
            } else {
                row.push(*b as char);
            }
        }
        row.push('|');
        out.push(row);
    }
    out
}

#[test]
fn bytes_in_hex() {
    assert_eq!(hex_dump(&[]), "");
    assert_eq!(hex_dump(&[0, 10, 255]), "000aff");
}

#[test]
fn one_full_row() {
    let data: Vec<u8> = (0x41..0x51).collect();
    assert_eq!(
        hex_dump_rows(0x8200_0000, &data, &[]),
        vec![
            "0x82000000  41 42 43 44 45 46 47 48  49 4a 4b 4c 4d 4e 4f 50  |ABCDEFGHIJKLMNOP|"
                .to_owned()
        ]
    );
}

#[test]
fn rows_match_reference() {
    let data: Vec<u8> = (0..=255).cycle().take(1000).map(|b: u8| b).collect();
    for n in [0usize, 1, 7, 8, 9, 15, 16, 17, 31, 32, 33, 1000] {
        for unmapped in [vec![], vec![0u32, 8, 15, 16, 40], (10..30).collect()] {
            assert_eq!(
                hex_dump_rows(0xffff_fff0, &data[..n], &unmapped),
                reference(0xffff_fff0, &data[..n], &unmapped)
            );
        }
    }
}
