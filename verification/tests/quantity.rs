use cluster_insights::quantity::{
    quantity_to_bytes, quantity_to_mb, quantity_to_millicores, to_mebibytes,
};

fn cores(raw: &str) -> f64 {
    quantity_to_millicores(raw) as f64 / 1000.0
}

fn gib(raw: &str) -> f64 {
    quantity_to_bytes(raw) as f64 / 1073741824.0
}

#[test]
fn test_quantity_to_cores() {
    assert_eq!(cores("2"), 2.0);
    assert_eq!(cores("500m"), 0.5);
    assert_eq!(cores("100m"), 0.1);
}

#[test]
fn test_quantity_to_gb() {
    assert_eq!(gib("1Gi"), 1.0);
    assert_eq!(gib("512Mi"), 0.5);
}

#[test]
fn millicores_of_plain_and_milli_encodings() {
    assert_eq!(quantity_to_millicores("2"), 2000);
    assert_eq!(quantity_to_millicores("0.5"), 500);
    assert_eq!(quantity_to_millicores("500m"), 500);
    assert_eq!(quantity_to_millicores("100m"), 100);
    assert_eq!(quantity_to_millicores("1.5m"), 1);
    assert_eq!(quantity_to_millicores("0.0005"), 0);
    assert_eq!(quantity_to_millicores("0.29"), 290);
    assert_eq!(quantity_to_millicores("+3"), 3000);
    assert_eq!(quantity_to_millicores("5."), 5000);
    assert_eq!(quantity_to_millicores(".5"), 500);
    assert_eq!(quantity_to_millicores("1e3m"), 1000);
    assert_eq!(quantity_to_millicores("25e-1"), 2500);
    assert_eq!(quantity_to_millicores("2.5E1"), 25000);
}

#[test]
fn unreadable_compute_counts_as_zero() {
    for raw in ["", "m", "abc", "1.2.3", ".", "e5", "1e", "1e+", " 1", "1 ", "12x", "--1", "1m m", "٣"] {
        assert_eq!(quantity_to_millicores(raw), 0, "{raw:?}");
    }
}

#[test]
fn negative_amounts_count_as_zero() {
    assert_eq!(quantity_to_millicores("-1"), 0);
    assert_eq!(quantity_to_millicores("-250m"), 0);
    assert_eq!(quantity_to_bytes("-1Gi"), 0);
    assert_eq!(quantity_to_millicores("-0"), 0);
}

#[test]
fn bytes_of_each_suffix() {
    assert_eq!(quantity_to_bytes("3Ki"), 3 * 1024);
    assert_eq!(quantity_to_bytes("3Mi"), 3 * 1024 * 1024);
    assert_eq!(quantity_to_bytes("3Gi"), 3 * 1024 * 1024 * 1024);
    assert_eq!(quantity_to_bytes("3Ti"), 3 * 1024 * 1024 * 1024 * 1024);
    assert_eq!(quantity_to_bytes("3K"), 3_000);
    assert_eq!(quantity_to_bytes("3M"), 3_000_000);
    assert_eq!(quantity_to_bytes("3G"), 3_000_000_000);
    assert_eq!(quantity_to_bytes("3T"), 3_000_000_000_000);
    assert_eq!(quantity_to_bytes("12345"), 12345);
    assert_eq!(quantity_to_bytes("1.5Gi"), 1610612736);
    assert_eq!(quantity_to_bytes("0.1Ki"), 102);
    assert_eq!(quantity_to_bytes("5e3"), 5000);
    assert_eq!(quantity_to_bytes("16316412Ki"), 16316412 * 1024);
}

#[test]
fn unreadable_memory_counts_as_zero() {
    for raw in ["", "Ki", "Gi", "M", "i", "12Pi", "12Ei", "1 Gi", "GiGi", "1ki", "1gi", "1k"] {
        assert_eq!(quantity_to_bytes(raw), 0, "{raw:?}");
    }
}

#[test]
fn amounts_saturate() {
    assert_eq!(quantity_to_millicores("9223372036854775807m"), i64::MAX);
    assert_eq!(quantity_to_millicores("9223372036854775808m"), i64::MAX);
    assert_eq!(quantity_to_millicores("1e30"), i64::MAX);
    assert_eq!(quantity_to_millicores("1e99999999999999999999999999999999999999999999"), i64::MAX);
    assert_eq!(quantity_to_millicores("0e99999999999999999999999999999999999999999999"), 0);
    assert_eq!(quantity_to_millicores("1e-99999999999999999999999999999999999999999999"), 0);
    assert_eq!(quantity_to_bytes("8388608Ti"), i64::MAX);
    assert_eq!(quantity_to_bytes("8388607Ti"), 8388607 * (1i64 << 40));
    assert_eq!(
        quantity_to_millicores("0.000000000000000000000000000000000000000001e45"),
        1_000_000
    );
    assert_eq!(
        quantity_to_millicores("1000000000000000000000000000000000000000000e-40"),
        100_000
    );
    assert_eq!(quantity_to_millicores("0.9999999999999999999999999999"), 999);
}

#[test]
fn amounts_without_end() {
    for raw in ["inf", "+inf", "INF", "Inf", "infinity", "Infinity", "+INFINITY", "infm", "iNfInItYm"] {
        assert_eq!(quantity_to_millicores(raw), i64::MAX, "{raw:?}");
    }
    for raw in ["inf", "+Infinity", "infKi", "infG"] {
        assert_eq!(quantity_to_bytes(raw), i64::MAX, "{raw:?}");
    }
    for raw in ["-inf", "-infinity", "nan", "NaN", "in", "infi", "infinit", "infinityy", "inf ", "++inf", "1inf"] {
        assert_eq!(quantity_to_millicores(raw), 0, "{raw:?}");
        assert_eq!(quantity_to_bytes(raw), 0, "{raw:?}");
    }
}

#[test]
fn readable_texts_are_those_of_the_number_grammar() {
    let texts = [
        "0", "1", "12", "1.5", "1.", ".5", "+1", "-1", "+.5", "-5.", "1e3", "1E3", "1e+3", "1e-3",
        "1.5e2", ".5e1", "5.e1", "", ".", "+", "-", "e", "e1", "1e", "1e+", "1e-", "+-1", "1..2",
        "1.2.3", "1e1.5", "1e1e1", "0x10", "1_000", " 1", "1 ", "1,5", "inf", "-inf", "infinity",
        "nan", "+nan", "infinit", "i", "1f", "١",
    ];
    for raw in texts {
        let by_grammar = raw.parse::<f64>().map_or(false, |v| v > 0.0);
        assert_eq!(quantity_to_bytes(&format!("{raw}Gi")) > 0, by_grammar, "{raw:?}");
    }
}

#[test]
fn whole_amounts_agree_with_the_number_read() {
    for raw in ["0", "1", "7", "42", "1000", "123456789", "1.5", "0.25", "2.75e3", "125e-2", "1e-1"] {
        let value = raw.parse::<f64>().unwrap();
        assert_eq!(quantity_to_millicores(raw) as f64, (value * 1000.0).trunc(), "{raw:?}");
        assert_eq!(
            quantity_to_millicores(&format!("{raw}m")) as f64,
            value.trunc(),
            "{raw:?}m"
        );
        assert_eq!(quantity_to_bytes(&format!("{raw}Ki")) as f64, (value * 1024.0).trunc());
        assert_eq!(quantity_to_bytes(&format!("{raw}M")) as f64, (value * 1e6).trunc());
    }
}

#[test]
fn mebibytes_round_toward_zero() {
    assert_eq!(to_mebibytes(0), 0);
    assert_eq!(to_mebibytes(1048575), 0);
    assert_eq!(to_mebibytes(1048576), 1);
    assert_eq!(to_mebibytes(-1048575), 0);
    assert_eq!(to_mebibytes(-1048577), -1);
    assert_eq!(to_mebibytes(i64::MIN), -(1i64 << 43));
    assert_eq!(to_mebibytes(i64::MAX), (1i64 << 43) - 1);
    assert_eq!(quantity_to_mb("512Mi"), 512);
    assert_eq!(quantity_to_mb("1536Ki"), 1);
    assert_eq!(quantity_to_mb("1G"), 953);
}
