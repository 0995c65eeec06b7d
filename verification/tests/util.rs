use rsground::access::AccessLevel;
use rsground::util::AsyncDefault;

#[test]
fn async_default_gives_the_default_value() {
    assert_eq!(<AccessLevel as AsyncDefault>::default(), AccessLevel::Queue);
    assert_eq!(<u8 as AsyncDefault>::default(), 0);
    assert_eq!(<String as AsyncDefault>::default(), String::new());
}
