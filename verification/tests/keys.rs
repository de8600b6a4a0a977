use solana_rpc_transactions::keys::parse_bytes_from_string;

fn by_std(input: &str) -> Result<Vec<u8>, String> {
    let trimmed = input.trim_matches(['[', ']'].as_ref());
    trimmed
        .split(',')
        .map(|s| {
            s.trim()
                .parse::<u16>()
                .map_err(|e| format!("Failed to parse number: {}", e))
                .and_then(|num| {
                    if num > 255 {
                        Err(format!("Number {} out of byte range", num))
                    } else {
                        Ok(num as u8)
                    }
                })
        })
        .collect()
}

#[test]
fn decodes_a_bracketed_list() {
    assert_eq!(parse_bytes_from_string("[12, 34, 255]"), Ok(vec![12u8, 34, 255]));
}

#[test]
fn decodes_without_brackets_and_spaces() {
    assert_eq!(parse_bytes_from_string("0,1,2"), Ok(vec![0u8, 1, 2]));
}

#[test]
fn decodes_a_single_entry() {
    assert_eq!(parse_bytes_from_string("7"), Ok(vec![7u8]));
}

#[test]
fn drops_every_bracket_at_both_ends() {
    assert_eq!(parse_bytes_from_string("[[1,2]]"), Ok(vec![1u8, 2]));
    assert_eq!(parse_bytes_from_string("]3["), Ok(vec![3u8]));
}

#[test]
fn keeps_a_bracket_inside_as_a_fault() {
    assert_eq!(
        parse_bytes_from_string("[1],[2]"),
        Err("Failed to parse number: invalid digit found in string".to_string())
    );
}

#[test]
fn accepts_a_leading_plus_and_leading_zeros() {
    assert_eq!(parse_bytes_from_string("[+5, 007, +0]"), Ok(vec![5u8, 7, 0]));
}

#[test]
fn ignores_unicode_white_space_around_an_entry() {
    assert_eq!(parse_bytes_from_string("[\u{2003}7\u{3000},\t8\n,\u{a0}9\u{85}]"), Ok(vec![7u8, 8, 9]));
}

#[test]
fn rejects_a_value_above_a_byte() {
    assert_eq!(
        parse_bytes_from_string("[1, 256]"),
        Err("Number 256 out of byte range".to_string())
    );
    assert_eq!(
        parse_bytes_from_string("[65535]"),
        Err("Number 65535 out of byte range".to_string())
    );
    assert_eq!(
        parse_bytes_from_string("[1000]"),
        Err("Number 1000 out of byte range".to_string())
    );
}

#[test]
fn rejects_a_value_above_sixteen_bits() {
    assert_eq!(
        parse_bytes_from_string("[65536]"),
        Err("Failed to parse number: number too large to fit in target type".to_string())
    );
    assert_eq!(
        parse_bytes_from_string("[99999999999999999999999]"),
        Err("Failed to parse number: number too large to fit in target type".to_string())
    );
}

#[test]
fn rejects_an_empty_entry() {
    let empty = Err("Failed to parse number: cannot parse integer from empty string".to_string());
    assert_eq!(parse_bytes_from_string(""), empty);
    assert_eq!(parse_bytes_from_string("[]"), empty);
    assert_eq!(parse_bytes_from_string("[1,,2]"), empty);
    assert_eq!(parse_bytes_from_string("[1, 2, ]"), empty);
    assert_eq!(parse_bytes_from_string("[  ]"), empty);
}

#[test]
fn rejects_what_is_no_digit() {
    let invalid = Err("Failed to parse number: invalid digit found in string".to_string());
    assert_eq!(parse_bytes_from_string("[1, x]"), invalid);
    assert_eq!(parse_bytes_from_string("[-1]"), invalid);
    assert_eq!(parse_bytes_from_string("[+]"), invalid);
    assert_eq!(parse_bytes_from_string("[-]"), invalid);
    assert_eq!(parse_bytes_from_string("[1 2]"), invalid);
    assert_eq!(parse_bytes_from_string("[1_0]"), invalid);
    assert_eq!(parse_bytes_from_string("[0x10]"), invalid);
    assert_eq!(parse_bytes_from_string("[1.5]"), invalid);
    assert_eq!(parse_bytes_from_string("[\u{663}]"), invalid);
}

#[test]
fn reports_the_first_fault_from_the_left() {
    assert_eq!(
        parse_bytes_from_string("[300, x]"),
        Err("Number 300 out of byte range".to_string())
    );
    assert_eq!(
        parse_bytes_from_string("[x, 300]"),
        Err("Failed to parse number: invalid digit found in string".to_string())
    );
}

#[test]
fn reports_the_first_fault_inside_a_number() {
    assert_eq!(
        parse_bytes_from_string("[65535x]"),
        Err("Failed to parse number: invalid digit found in string".to_string())
    );
    assert_eq!(
        parse_bytes_from_string("[655360x]"),
        Err("Failed to parse number: number too large to fit in target type".to_string())
    );
}

#[test]
fn decodes_a_key_of_sixty_four_bytes() {
    let bytes: Vec<u8> = (0u8..64).map(|i| i.wrapping_mul(37)).collect();
    let text = format!("{:?}", bytes);
    assert_eq!(parse_bytes_from_string(&text), Ok(bytes));
}

#[test]
fn agrees_with_the_standard_library_on_many_texts() {
    let pieces = [
        "", " ", "0", "7", "255", "256", "65535", "65536", "+1", "-1", "+", "-", "++1", "00", "1x",
        "x1", "1 2", "[", "]", "[]", "99999", "4294967296", "\t9 ", "\u{2009}3", "1\u{0}", "٣",
        "12345678901234567890", "+255", "+256", "0255",
    ];
    let mut checked = 0;
    for a in pieces.iter() {
        for b in pieces.iter() {
            for text in [
                format!("{}", a),
                format!("[{}]", a),
                format!("{},{}", a, b),
                format!("[{}, {}]", a, b),
                format!("[[{},{},{}]", a, b, a),
                format!("{}]{}", a, b),
            ] {
                assert_eq!(parse_bytes_from_string(&text), by_std(&text), "text: {:?}", text);
                checked += 1;
            }
        }
    }
    assert_eq!(checked, 30 * 30 * 6);
}
