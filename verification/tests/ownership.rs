use rust_basics::ownership::{gives_ownership, takes_and_gives_back};

#[test]
fn gives_hello() {
    assert_eq!(gives_ownership(), "hello");
}

#[test]
fn gives_a_fresh_string_each_time() {
    let mut first = gives_ownership();
    first.push_str(", world!");
    assert_eq!(first, "hello, world!");
    assert_eq!(gives_ownership(), "hello");
}

#[test]
fn gives_back_what_it_took() {
    assert_eq!(takes_and_gives_back(String::from("hello")), "hello");
    assert_eq!(takes_and_gives_back(String::new()), "");
    assert_eq!(takes_and_gives_back(String::from("h\u{e9}llo\n")), "h\u{e9}llo\n");
}
