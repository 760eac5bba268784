use randomizer_client::strutil::{dec_i32_string, dec_u32_string};
use randomizer_client::wire::{parse_hex, parse_results, render_hex, render_request};

#[test]
fn hex_renders_uppercase_without_prefix() {
    assert_eq!(render_hex(0x100), "100");
    assert_eq!(render_hex(0x80), "80");
    assert_eq!(render_hex(0x7F), "7F");
    assert_eq!(render_hex(0), "0");
    assert_eq!(render_hex(0xDEADBEEF), "DEADBEEF");
}

#[test]
fn hex_parse_inverts_render() {
    for v in [0u32, 1, 0x7F, 0x80, 0xFF, 0x100, 0xE04000, u32::MAX] {
        assert_eq!(parse_hex(&render_hex(v)), Some(v as u64));
    }
}

#[test]
fn hex_parse_accepts_lower_case() {
    assert_eq!(parse_hex(&String::from("7f")), Some(0x7F));
}

#[test]
fn hex_parse_rejects_bad_input() {
    assert_eq!(parse_hex(&String::from("")), None);
    assert_eq!(parse_hex(&String::from("0x10")), None);
    assert_eq!(parse_hex(&String::from("G")), None);
    assert_eq!(parse_hex(&String::from("10000000000000000")), None);
}

#[test]
fn decimal_rendering() {
    assert_eq!(dec_u32_string(0), "0");
    assert_eq!(dec_u32_string(119), "119");
    assert_eq!(dec_i32_string(-42), "-42");
    assert_eq!(dec_i32_string(i32::MIN), "-2147483648");
}

#[test]
fn request_without_operands() {
    let r = render_request("DeviceList", None);
    assert_eq!(
        r,
        "{\"Opcode\":\"DeviceList\",\"Space\":\"SNES\",\"Flags\":null,\"Operands\":null}"
    );
}

#[test]
fn request_with_operands() {
    let ops = vec![String::from("100"), String::from("80")];
    let r = render_request("GetAddress", Some(&ops));
    assert_eq!(
        r,
        "{\"Opcode\":\"GetAddress\",\"Space\":\"SNES\",\"Flags\":null,\"Operands\":[\"100\",\"80\"]}"
    );
}

#[test]
fn request_escapes_special_characters() {
    let ops = vec![String::from("a\"b\\c")];
    let r = render_request("Attach", Some(&ops));
    assert_eq!(
        r,
        "{\"Opcode\":\"Attach\",\"Space\":\"SNES\",\"Flags\":null,\"Operands\":[\"a\\\"b\\\\c\"]}"
    );
}

#[test]
fn results_parse_plain() {
    let r = parse_results("{\"Results\":[\"SD2SNES COM3\"]}");
    assert_eq!(r, Some(vec![String::from("SD2SNES COM3")]));
}

#[test]
fn results_parse_several_with_whitespace() {
    let r = parse_results(" { \"Results\" : [ \"a\" , \"b\" ] } ");
    assert_eq!(r, Some(vec![String::from("a"), String::from("b")]));
}

#[test]
fn results_parse_empty_array() {
    let r = parse_results("{\"Results\":[]}");
    assert_eq!(r, Some(Vec::new()));
}

#[test]
fn results_parse_decodes_escapes() {
    let r = parse_results("{\"Results\":[\"a\\\"b\\\\c\\n\"]}");
    assert_eq!(r, Some(vec![String::from("a\"b\\c\n")]));
}

#[test]
fn results_parse_rejects_other_shapes() {
    assert_eq!(parse_results(""), None);
    assert_eq!(parse_results("{}"), None);
    assert_eq!(parse_results("{\"Other\":[]}"), None);
    assert_eq!(parse_results("{\"Results\":[1]}"), None);
    assert_eq!(parse_results("{\"Results\":[\"a\"]} trailing"), None);
    assert_eq!(parse_results("{\"Results\":[\"unterminated]}"), None);
}

#[test]
fn results_parse_inverts_the_renderer_shape() {
    // A response rendered the same way the request renderer escapes
    // strings parses back to the original strings.
    let r = parse_results("{\"Results\":[\"x\",\"tab\\there\"]}");
    assert_eq!(r, Some(vec![String::from("x"), String::from("tab\there")]));
}
