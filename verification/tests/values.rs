use boom::binary::{Double, Single};
use boom::document::{Bson, Document};
use boom::named::Named;
use boom::order::ranking;
use boom::text;

fn d(x: f64) -> Double {
    Double { bits: x.to_bits() }
}

fn s(x: f32) -> Single {
    Single { bits: x.to_bits() }
}

const DOUBLES: [f64; 12] = [
    f64::NEG_INFINITY,
    f64::MIN,
    -1.5,
    -f64::MIN_POSITIVE,
    -0.0,
    0.0,
    5e-324,
    1.0,
    1.0000000000000002,
    f64::MAX,
    f64::INFINITY,
    f64::NAN,
];

#[test]
fn doubles_compare_as_numbers_do() {
    for a in DOUBLES {
        assert_eq!(d(a).is_nan(), a.is_nan());
        assert_eq!(d(a).is_finite(), a.is_finite());
        for b in DOUBLES {
            assert_eq!(d(a).lt(d(b)), a < b, "{a} < {b}");
            assert_eq!(d(a).le(d(b)), a <= b, "{a} <= {b}");
            assert_eq!(d(a).same(d(b)), a == b, "{a} == {b}");
            assert_eq!(
                d(a).total_place() < d(b).total_place(),
                a.total_cmp(&b) == std::cmp::Ordering::Less,
                "{a} before {b}"
            );
            let (least, greatest) = (d(a).min(d(b)), d(a).max(d(b)));
            let (x, y) = (f64::from_bits(least.bits), f64::from_bits(greatest.bits));
            assert!(x == a.min(b) || (x.is_nan() && a.min(b).is_nan()));
            assert!(y == a.max(b) || (y.is_nan() && a.max(b).is_nan()));
        }
    }
}

#[test]
fn singles_compare_as_numbers_do() {
    let numbers = [f32::NEG_INFINITY, -1.5, -0.0, 0.0, 1e-45, 2.0, f32::INFINITY, f32::NAN];
    for a in numbers {
        assert_eq!(s(a).is_nan(), a.is_nan());
        assert_eq!(s(a).is_finite(), a.is_finite());
        for b in numbers {
            assert_eq!(s(a).lt(s(b)), a < b, "{a} < {b}");
            assert_eq!(s(a).le(s(b)), a <= b, "{a} <= {b}");
        }
    }
}

#[test]
fn integers_become_the_nearest_double() {
    let mut n: i64 = 1;
    for _ in 0..63 {
        for m in [n - 1, n, n + 1, n + n / 3, -n, -n - 1, n + (n >> 53), n + (n >> 54) * 3] {
            assert_eq!(f64::from_bits(Double::from_i64(m).bits), m as f64, "{m}");
        }
        n = n.wrapping_mul(2);
        if n <= 0 {
            break;
        }
    }
    for m in [0, i64::MAX, i64::MIN, i64::MAX - 511, i64::MAX - 512, i64::MAX - 513] {
        assert_eq!(Double::from_i64(m).bits, (m as f64).to_bits(), "{m}");
    }
}

#[test]
fn equal_rows_keep_their_order() {
    let keys = vec![(2, 0, 0), (1, 5, 1), (1, 5, 0), (2, 0, 0), (1, -5, 9), (2, 0, 0)];
    assert_eq!(ranking(&keys), vec![4, 2, 1, 0, 3, 5]);
    assert_eq!(ranking(&vec![]), Vec::<usize>::new());
    assert_eq!(ranking(&vec![(i64::MAX, 0, 0), (i64::MIN, 0, 0)]), vec![1, 0]);
}

#[test]
fn many_rows_are_ordered_as_std_orders_them() {
    let mut x: u64 = 12345;
    let mut keys = vec![];
    for _ in 0..500 {
        x = x.wrapping_mul(6364136223846793005).wrapping_add(1442695040888963407);
        keys.push(((x >> 33) as i64 % 7 - 3, (x >> 40) as i64 % 5, 0));
    }
    let mut expected: Vec<usize> = (0..keys.len()).collect();
    expected.sort_by_key(|i| keys[*i]);
    assert_eq!(ranking(&keys), expected);
}

#[test]
fn a_name_is_set_in_its_place() {
    let mut list: Named<u8> = Named::new();
    list.insert("b", 1);
    list.insert("a", 2);
    list.insert("b", 3);
    assert_eq!(list.entries, vec![("b".to_string(), 3), ("a".to_string(), 2)]);
    assert_eq!(list.get("a"), Some(&2));
    assert_eq!(list.get("c"), None);
    assert_eq!(list.find("c"), 2);
}

#[test]
fn items_are_listed_under_their_name() {
    let mut lists: Named<Vec<u8>> = Named::new();
    lists.append("x", 1);
    lists.append("y", 2);
    lists.extend("x", vec![3, 4]);
    lists.extend("z", vec![]);
    lists.set_list("y", vec![9]);
    lists.push_list("w", vec![7]);
    assert_eq!(lists.get("x"), Some(&vec![1, 3, 4]));
    assert_eq!(lists.get("y"), Some(&vec![9]));
    assert_eq!(lists.get("z"), Some(&vec![]));
    assert_eq!(lists.entries[3].0, "w");
}

#[test]
fn documents_keep_the_order_of_their_fields() {
    let mut doc = Document::new().with("a", Bson::Int32(1)).with("b", Bson::Null);
    doc.insert("a", Bson::text("x"));
    let copy = doc.copy();
    for doc in [&doc, &copy] {
        assert_eq!(doc.entries.len(), 2);
        assert_eq!(doc.find("a"), 0);
        assert!(matches!(doc.get("a"), Some(Bson::Text(s)) if s == "x"));
        assert!(matches!(doc.get("b"), Some(Bson::Null)));
        assert!(doc.get("c").is_none());
    }
    let nested = Bson::pair(Bson::Document(doc), Bson::Array(vec![Bson::Int64(7), Bson::Other]));
    match nested.copy() {
        Bson::Array(items) => match &items[1] {
            Bson::Array(inner) => assert!(matches!(inner[0], Bson::Int64(7))),
            _ => panic!("no inner array"),
        },
        _ => panic!("no array"),
    }
}

#[test]
fn text_is_cut_and_composed_by_characters() {
    assert!(text::same("é", "é") && !text::same("e", "é"));
    assert!(text::starts_with("ééx", "éé") && !text::starts_with("é", "éé"));
    assert!(text::contains("abcé", "cé") && !text::contains("abc", "d") && text::contains("", ""));
    assert_eq!(text::find_first_of("ab(c d", " ("), 2);
    assert_eq!(text::split_once("k/v/w", "/"), Some(("k", "v/w")));
    assert_eq!(text::split_once("kv", "/"), None);
    for s in ["", " ", " a b ", "\u{2003}x\u{a0}\n", "x", "\u{85}\u{3000}"] {
        assert_eq!(text::trim(s), s.trim(), "{s:?}");
    }
    assert_eq!(text::trim_end_matches("a//", '/'), "a");
    assert!(text::eq_ignore_ascii_case("AbZ", "aBz") && !text::eq_ignore_ascii_case("É", "é"));
    assert!(text::starts_with_ignore_ascii_case("Curl/8", "cURL"));
    for n in [0, 9, 10, 1234567890123, u64::MAX] {
        assert_eq!(text::write_u64(n), n.to_string());
    }
    for n in [0, -1, 42, i64::MIN, i64::MAX] {
        assert_eq!(text::write_i64(n), n.to_string());
    }
    assert_eq!(text::join3("a", "", "c"), "ac");
    let list = vec!["PSF".to_string(), "DUP".to_string()];
    assert!(text::any_ignore_ascii_case(&list, "dup"));
    assert!(!text::any_ignore_ascii_case(&list, "dup "));
}
