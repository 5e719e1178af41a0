use ecma_lint_core::big_int::JsBigInt;
use ecma_lint_core::number::JsNumber;
use ecma_lint_core::string_char_at::string_char_at;
use ecma_lint_core::string_index_of::string_index_of;
use ecma_lint_core::string_last_index_of::string_last_index_of;
use ecma_lint_core::string_to_big_int::string_to_big_int;
use ecma_lint_core::to_int_32::to_int_32;
use ecma_lint_core::to_number::to_number_of_string;
use ecma_lint_core::to_string::render_number;

fn js(s: &str) -> Vec<u16> {
    s.encode_utf16().collect()
}

fn finite(neg: bool, mant: u64, scale: u32) -> JsNumber {
    JsNumber::Finite { neg, mant, scale }
}

#[test]
fn to_number_empty_string_is_zero() {
    assert_eq!(to_number_of_string(&js("")), Some(finite(false, 0, 0)));
    assert_eq!(to_number_of_string(&js("   \t\n  ")), Some(finite(false, 0, 0)));
}

#[test]
fn to_number_trims_whitespace() {
    assert_eq!(to_number_of_string(&js("  42  ")), Some(finite(false, 42, 0)));
}

#[test]
fn to_number_malformed_is_nan() {
    assert_eq!(to_number_of_string(&js("abc")), Some(JsNumber::NaN));
    assert_eq!(to_number_of_string(&js("12abc")), Some(JsNumber::NaN));
    assert_eq!(to_number_of_string(&js("1.2.3")), Some(JsNumber::NaN));
    assert_eq!(to_number_of_string(&js("0x")), Some(JsNumber::NaN));
    assert_eq!(to_number_of_string(&js("-0x10")), Some(JsNumber::NaN));
    assert_eq!(to_number_of_string(&js("1e")), Some(JsNumber::NaN));
    assert_eq!(to_number_of_string(&js("+")), Some(JsNumber::NaN));
}

#[test]
fn to_number_radix_prefixes() {
    assert_eq!(to_number_of_string(&js("0x1A")), Some(finite(false, 26, 0)));
    assert_eq!(to_number_of_string(&js("0o17")), Some(finite(false, 15, 0)));
    assert_eq!(to_number_of_string(&js("0b101")), Some(finite(false, 5, 0)));
    assert_eq!(to_number_of_string(&js("0XFF")), Some(finite(false, 255, 0)));
}

#[test]
fn to_number_signs_and_infinity() {
    assert_eq!(to_number_of_string(&js("-7")), Some(finite(true, 7, 0)));
    assert_eq!(to_number_of_string(&js("+7")), Some(finite(false, 7, 0)));
    assert_eq!(to_number_of_string(&js("-0")), Some(finite(true, 0, 0)));
    assert_eq!(to_number_of_string(&js("Infinity")), Some(JsNumber::PosInfinity));
    assert_eq!(to_number_of_string(&js("-Infinity")), Some(JsNumber::NegInfinity));
    assert_eq!(to_number_of_string(&js("  +Infinity ")), Some(JsNumber::PosInfinity));
}

#[test]
fn to_number_decimals_and_exponents() {
    assert_eq!(to_number_of_string(&js("1.5")), Some(finite(false, 15, 1)));
    assert_eq!(to_number_of_string(&js(".5")), Some(finite(false, 5, 1)));
    assert_eq!(to_number_of_string(&js("5.")), Some(finite(false, 5, 0)));
    assert_eq!(to_number_of_string(&js("1.50")), Some(finite(false, 15, 1)));
    assert_eq!(to_number_of_string(&js("1e3")), Some(finite(false, 1000, 0)));
    assert_eq!(to_number_of_string(&js("1.5e1")), Some(finite(false, 15, 0)));
    assert_eq!(to_number_of_string(&js("2e-3")), Some(finite(false, 2, 3)));
    assert_eq!(to_number_of_string(&js("1500e-2")), Some(finite(false, 15, 0)));
}

#[test]
fn to_int_32_wraps_modulo_two_pow_32() {
    assert_eq!(to_int_32(&finite(false, 0, 0)), 0);
    assert_eq!(to_int_32(&finite(true, 0, 0)), 0);
    assert_eq!(to_int_32(&finite(false, 42, 0)), 42);
    assert_eq!(to_int_32(&finite(true, 42, 0)), -42);
    assert_eq!(to_int_32(&JsNumber::NaN), 0);
    assert_eq!(to_int_32(&JsNumber::PosInfinity), 0);
    assert_eq!(to_int_32(&JsNumber::NegInfinity), 0);
    // 2^31 wraps to -2^31; 2^32 wraps to 0
    assert_eq!(to_int_32(&finite(false, 2147483648, 0)), -2147483648);
    assert_eq!(to_int_32(&finite(false, 4294967296, 0)), 0);
    assert_eq!(to_int_32(&finite(false, 4294967297, 0)), 1);
    assert_eq!(to_int_32(&finite(true, 1, 0)), -1);
    // truncation toward zero
    assert_eq!(to_int_32(&finite(false, 37, 1)), 3);
    assert_eq!(to_int_32(&finite(true, 37, 1)), -3);
}

#[test]
fn to_int_32_idempotent_on_samples() {
    // ToInt32(ToInt32(x)) == ToInt32(x) on concrete values
    for m in [0u64, 1, 41, 2147483647, 2147483648, 4294967295, 4294967296, 9007199254740991] {
        for neg in [false, true] {
            let first = to_int_32(&finite(neg, m, 0));
            let back = if first < 0 {
                finite(true, (-(first as i64)) as u64, 0)
            } else {
                finite(false, first as u64, 0)
            };
            assert_eq!(to_int_32(&back), first);
        }
    }
}

#[test]
fn string_to_big_int_accepts_radix_and_rejects_fractions() {
    assert_eq!(string_to_big_int(&js("0x1A")), Some(JsBigInt { neg: false, mag: 26 }));
    assert_eq!(string_to_big_int(&js("1.5")), None);
    assert_eq!(string_to_big_int(&js("")), Some(JsBigInt { neg: false, mag: 0 }));
    assert_eq!(string_to_big_int(&js("  77  ")), Some(JsBigInt { neg: false, mag: 77 }));
    assert_eq!(string_to_big_int(&js("-42")), Some(JsBigInt { neg: true, mag: 42 }));
    assert_eq!(string_to_big_int(&js("-0")), Some(JsBigInt { neg: false, mag: 0 }));
    assert_eq!(string_to_big_int(&js("0b101")), Some(JsBigInt { neg: false, mag: 5 }));
    assert_eq!(string_to_big_int(&js("1e3")), None);
    assert_eq!(string_to_big_int(&js("Infinity")), None);
}

#[test]
fn render_number_canonical_forms() {
    assert_eq!(render_number(&JsNumber::NaN), js("NaN"));
    assert_eq!(render_number(&JsNumber::PosInfinity), js("Infinity"));
    assert_eq!(render_number(&JsNumber::NegInfinity), js("-Infinity"));
    assert_eq!(render_number(&finite(false, 42, 0)), js("42"));
    assert_eq!(render_number(&finite(true, 42, 0)), js("-42"));
    assert_eq!(render_number(&finite(true, 0, 0)), js("0"));
    assert_eq!(render_number(&finite(false, 15, 1)), js("1.5"));
    assert_eq!(render_number(&finite(false, 5, 2)), js("0.05"));
    assert_eq!(render_number(&finite(false, 1, 6)), js("0.000001"));
    assert_eq!(render_number(&finite(false, 1, 7)), js("1e-7"));
    assert_eq!(render_number(&finite(false, 15, 8)), js("1.5e-7"));
}

#[test]
fn string_ops_use_code_unit_offsets() {
    let s = js("hello world");
    assert_eq!(string_char_at(&s, 0), Some(0x68));
    assert_eq!(string_char_at(&s, 10), Some(0x64));
    assert_eq!(string_char_at(&s, 11), None);
    assert_eq!(string_index_of(&s, &js("o"), 0), Some(4));
    assert_eq!(string_index_of(&s, &js("o"), 5), Some(7));
    assert_eq!(string_index_of(&s, &js("lo"), 0), Some(3));
    assert_eq!(string_index_of(&s, &js("xyz"), 0), None);
    assert_eq!(string_last_index_of(&s, &js("o"), 10), Some(7));
    assert_eq!(string_last_index_of(&s, &js("o"), 6), Some(4));
    assert_eq!(string_last_index_of(&s, &js("h"), 0), Some(0));
    assert_eq!(string_last_index_of(&s, &js("xyz"), 10), None);
    // surrogate pairs still count as two code units
    let astral = js("a\u{1F600}b");
    assert_eq!(astral.len(), 4);
    assert_eq!(string_char_at(&astral, 3), Some(0x62));
}
