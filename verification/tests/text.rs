use daktronics_allsport_5000::web::{new_public_id, to_snake_case};
use daktronics_allsport_5000::web::public_id::{public_id_from_nanos, timestamp_text};
use daktronics_allsport_5000::text::decimal_string;

#[test]
fn snake_case_conversion() {
    assert_eq!(to_snake_case("HomeScore"), "home_score");
}

#[test]
fn snake_case_edge_cases() {
    assert_eq!(to_snake_case(""), "");
    assert_eq!(to_snake_case("Home"), "home");
    assert_eq!(to_snake_case("MainClockTime2"), "main_clock_time2");
    assert_eq!(to_snake_case("already_snake"), "already_snake");
    assert_eq!(to_snake_case("ABC"), "a_b_c");
    assert_eq!(to_snake_case("ÉcoleHome"), "École_home");
}

#[test]
fn snake_case_twice_is_snake_case_once() {
    for s in ["HomeScore", "GuestTimeOutsLeftTotal", "ABC", "x", ""] {
        let once = to_snake_case(s);
        assert_eq!(to_snake_case(&once), once);
    }
}

#[test]
fn uuid_shape() {
    let id = new_public_id();
    assert_eq!(id.len(), 36);
    assert_eq!(id.chars().filter(|c| *c == '-').count(), 4);
}

#[test]
fn public_id_from_known_numbers() {
    assert_eq!(public_id_from_nanos(0), "00000000-0000-0000-0000-000000000000");
    assert_eq!(public_id_from_nanos(1), "00000000-0000-0000-0000-000000000001");
    assert_eq!(
        public_id_from_nanos(0x0123456789abcdef0011223344556677),
        "01234567-89ab-cdef-0011-223344556677"
    );
    assert_eq!(public_id_from_nanos(u128::MAX), "ffffffff-ffff-ffff-ffff-ffffffffffff");
}

#[test]
fn public_id_positions_of_dashes() {
    let id = public_id_from_nanos(1_700_000_000_123_456_789);
    for (i, c) in id.chars().enumerate() {
        if [8, 13, 18, 23].contains(&i) {
            assert_eq!(c, '-');
        } else {
            assert!(c.is_ascii_hexdigit() && !c.is_ascii_uppercase());
        }
    }
}

#[test]
fn decimal_texts() {
    assert_eq!(decimal_string(0), "0");
    assert_eq!(decimal_string(7), "7");
    assert_eq!(decimal_string(10), "10");
    assert_eq!(decimal_string(1_700_000_000), "1700000000");
    assert_eq!(decimal_string(u128::MAX), u128::MAX.to_string());
    assert_eq!(timestamp_text(u64::MAX), u64::MAX.to_string());
}

#[test]
fn different_numbers_give_different_ids() {
    let ids: Vec<String> = [0u128, 1, 16, 256, 1 << 64, u128::MAX]
        .iter()
        .map(|n| public_id_from_nanos(*n))
        .collect();
    for i in 0..ids.len() {
        for j in 0..ids.len() {
            assert_eq!(ids[i] == ids[j], i == j);
        }
    }
}

#[test]
fn public_ids_follow_the_order_of_their_numbers() {
    let ns = [0u128, 9, 10, 15, 16, 255, 256, 1 << 32, 1_700_000_000_123_456_789, u128::MAX];
    for w in ns.windows(2) {
        assert!(public_id_from_nanos(w[0]) < public_id_from_nanos(w[1]));
    }
}
