use fauxdb::bson::Bson;
use fauxdb::numeric::{compare_numeric, int_to_double_bits, key_of_double, Comparison};
use fauxdb::system::to_hex;
use fauxdb::text::{i64_to_string, u64_to_string};

#[test]
fn decimal_text_of_integers() {
    assert_eq!(u64_to_string(0), "0");
    assert_eq!(u64_to_string(7), "7");
    assert_eq!(u64_to_string(10), "10");
    assert_eq!(u64_to_string(u64::MAX), u64::MAX.to_string());
    assert_eq!(i64_to_string(-1), "-1");
    assert_eq!(i64_to_string(i64::MIN), i64::MIN.to_string());
    assert_eq!(i64_to_string(i64::MAX), i64::MAX.to_string());
    assert_eq!(i64_to_string(0), "0");
}

#[test]
fn hexadecimal_text_of_bytes() {
    assert_eq!(to_hex(&[]), "");
    assert_eq!(to_hex(&[0x00, 0x0f, 0xa5, 0xff]), "000fa5ff");
}

#[test]
fn widening_agrees_with_the_machine() {
    let mut values: Vec<i64> = vec![
        0,
        1,
        -1,
        2,
        3,
        255,
        -256,
        i32::MAX as i64,
        i32::MIN as i64,
        (1 << 52) - 1,
        1 << 52,
        (1 << 53) - 1,
        1 << 53,
        (1 << 53) + 1,
        (1 << 53) + 2,
        (1 << 53) + 3,
        (1 << 54) + 2,
        (1 << 54) + 3,
        (1 << 60) + (1 << 7),
        (1 << 60) + (1 << 7) + 1,
        (1 << 60) + 3 * (1 << 7),
        i64::MAX,
        i64::MAX - 1,
        i64::MAX - 511,
        i64::MAX - 512,
        i64::MAX - 1024,
        i64::MIN,
        i64::MIN + 1,
        i64::MIN + 1025,
        -((1 << 53) + 1),
    ];
    let mut x: i64 = 0x1234_5678_9abc_def1;
    for _ in 0..2000 {
        x = x.wrapping_mul(6364136223846793005).wrapping_add(1442695040888963407);
        values.push(x);
        values.push(x >> 7);
        values.push(x >> 11);
        values.push(x >> 40);
    }
    for v in values {
        assert_eq!(int_to_double_bits(v), (v as f64).to_bits(), "value {}", v);
    }
}

#[test]
fn keys_order_doubles_as_the_machine_does() {
    let samples = [
        f64::NEG_INFINITY,
        -1e300,
        -2.5,
        -1.0,
        -f64::MIN_POSITIVE,
        -0.0,
        0.0,
        f64::MIN_POSITIVE,
        1.0,
        1.0000000000000002,
        2.5,
        1e300,
        f64::INFINITY,
    ];
    for a in samples {
        for b in samples {
            let ka = key_of_double(a.to_bits()).unwrap();
            let kb = key_of_double(b.to_bits()).unwrap();
            assert_eq!(ka < kb, a < b, "{} < {}", a, b);
            assert_eq!(ka == kb, a == b, "{} == {}", a, b);
        }
    }
    assert_eq!(key_of_double(f64::NAN.to_bits()), None);
}

#[test]
fn numbers_of_different_widths_compare_as_doubles() {
    let one32 = Bson::Int32(1);
    let one64 = Bson::Int64(1);
    let one = Bson::Double(f64::to_bits(1.0));
    let half = Bson::Double(f64::to_bits(0.5));
    assert_eq!(compare_numeric(&one32, &one64), Some(Comparison::Equal));
    assert_eq!(compare_numeric(&one32, &one), Some(Comparison::Equal));
    assert_eq!(compare_numeric(&half, &one64), Some(Comparison::Less));
    assert_eq!(compare_numeric(&one64, &half), Some(Comparison::Greater));
    // beyond 2^53 two integers can widen to the same double
    let a = Bson::Int64((1 << 53) + 1);
    let b = Bson::Int64(1 << 53);
    assert_eq!(compare_numeric(&a, &b), Some(Comparison::Equal));
    assert_eq!(compare_numeric(&one, &Bson::Double(f64::NAN.to_bits())), None);
    assert_eq!(compare_numeric(&one, &Bson::String("1".to_string())), None);
}

#[test]
fn bytes_are_found_in_bytes() {
    use_search(b"hello", b"ell", true);
    use_search(b"hello", b"hello", true);
    use_search(b"hello", b"", true);
    use_search(b"", b"", true);
    use_search(b"hello", b"lo", true);
    use_search(b"hello", b"he", true);
    use_search(b"hello", b"hellos", false);
    use_search(b"hello", b"elo", false);
    use_search(b"", b"a", false);
    assert!(fauxdb::text::bytes_occur_at(b"hello", b"ll", 2));
    assert!(!fauxdb::text::bytes_occur_at(b"hello", b"ll", 1));
}

fn use_search(hay: &[u8], needle: &[u8], expected: bool) {
    assert_eq!(fauxdb::text::bytes_contain(hay, needle), expected);
}
