use spacetimedb_lib::text::{push_decimal, same_text};
use spacetimedb_lib::{new_string, set_string};

#[test]
fn numbers_are_written_in_decimal() {
    for n in [0, 9, 10, 65536, 1_048_576, u64::MAX] {
        let mut out = String::from("n=");
        push_decimal(&mut out, n);
        assert_eq!(out, format!("n={}", n));
    }
}

#[test]
fn a_string_is_overwritten_in_place() {
    let mut s = String::with_capacity(64);
    s.push_str("something longer than the new text");
    set_string(&mut s, "short");
    assert_eq!(s, "short");
    set_string(&mut s, "");
    assert_eq!(s, "");
    set_string(&mut s, "grün");
    assert_eq!(s, "grün");
}

#[test]
fn a_new_string_has_its_text_and_room() {
    let s = new_string("initial", 512);
    assert_eq!(s, "initial");
    assert!(s.capacity() >= 512);
    let s = new_string("longer than its capacity", 3);
    assert_eq!(s, "longer than its capacity");
}

#[test]
fn texts_are_compared() {
    assert!(same_text("", ""));
    assert!(same_text("grün", "grün"));
    assert!(!same_text("grün", "grun"));
    assert!(!same_text("abc", "abd"));
    assert!(!same_text("abc", "ab"));
}
