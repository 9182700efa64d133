use tailcall::text::{decimal_string, string_lt};

#[test]
fn decimal_matches_to_string() {
    for n in [0usize, 7, 10, 42, 99, 100, 12345, usize::MAX] {
        assert_eq!(decimal_string(n), n.to_string());
    }
}

#[test]
fn string_order_matches_str_order() {
    let words = ["", "a", "ab", "b", "B", "é", "z", "aa"];
    for a in words {
        for b in words {
            assert_eq!(string_lt(&a.to_string(), &b.to_string()), a < b, "{a} < {b}");
        }
    }
}
