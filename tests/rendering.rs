use uri_display::encoding::decimal_text;
use uri_display::formatter::{FormatError, Formatter};
use uri_display::value::{render, render_with_limit, Field, Value};

fn text(s: &str) -> Value {
    Value::Text(s.to_string())
}

fn field(name: &str, value: Value) -> Field {
    Field { name: name.to_string(), value }
}

fn rendered(v: &Value) -> String {
    render(v).unwrap()
}

#[test]
fn person_renders_as_encoded_pairs() {
    let person = Value::Record(vec![field("name", text("john smith")), field("age", Value::Int(5))]);
    assert_eq!(rendered(&person), "name=john%20smith&age=5");
}

#[test]
fn flat_record_pairs_in_declaration_order() {
    let v = Value::Record(vec![
        field("c", Value::Int(3)),
        field("a", text("x")),
        field("b", Value::Raw("r+s".to_string())),
    ]);
    assert_eq!(rendered(&v), "c=3&a=x&b=r+s");
}

#[test]
fn single_field_record_has_no_separator() {
    let v = Value::Record(vec![field("only", Value::Int(42))]);
    assert_eq!(rendered(&v), "only=42");
}

#[test]
fn nested_record_uses_dotted_keys() {
    let animal = Value::Record(vec![field("name", text("clifford")), field("color", text("red"))]);
    let owner = Value::Record(vec![field("pet", animal)]);
    assert_eq!(rendered(&owner), "pet.name=clifford&pet.color=red");
}

#[test]
fn deeply_nested_record_joins_all_segments() {
    let c = Value::Record(vec![field("c", Value::Int(1))]);
    let b = Value::Record(vec![field("b", c), field("d", Value::Int(2))]);
    let a = Value::Record(vec![field("a", b), field("e", Value::Int(3))]);
    assert_eq!(rendered(&a), "a.b.c=1&a.d=2&e=3");
}

#[test]
fn wrapper_renders_as_its_field() {
    let inner = Value::Record(vec![field("x", Value::Int(1)), field("y", text("a b"))]);
    let copy = Value::Record(vec![field("x", Value::Int(1)), field("y", text("a b"))]);
    let wrapped = Value::Wrapper(Box::new(copy));
    assert_eq!(rendered(&wrapped), rendered(&inner));
    assert_eq!(rendered(&Value::Wrapper(Box::new(Value::Int(7)))), "7");
}

#[test]
fn wrapper_inside_record_keeps_the_field_key() {
    let v = Value::Record(vec![field("id", Value::Wrapper(Box::new(Value::Int(9))))]);
    assert_eq!(rendered(&v), "id=9");
}

#[test]
fn multi_value_field_joins_each_pair_once() {
    let first = Value::Record(vec![field("x", Value::Int(1)), field("y", Value::Int(2))]);
    let second = Value::Record(vec![field("x", Value::Int(8)), field("y", Value::Int(9))]);
    let v = Value::Record(vec![field("q", Value::Values(vec![first, second]))]);
    assert_eq!(rendered(&v), "q.x=1&q.y=2&q.x=8&q.y=9");
}

#[test]
fn multi_value_field_between_siblings() {
    let v = Value::Record(vec![
        field("a", Value::Int(0)),
        field("q", Value::Values(vec![Value::Int(1), Value::Int(2)])),
        field("z", Value::Int(3)),
    ]);
    assert_eq!(rendered(&v), "a=0&q=1&q=2&z=3");
}

#[test]
fn empty_multi_value_field_writes_nothing() {
    let v = Value::Record(vec![
        field("a", Value::Int(0)),
        field("q", Value::Values(vec![])),
        field("z", Value::Int(3)),
    ]);
    assert_eq!(rendered(&v), "a=0&z=3");
}

#[test]
fn pieces_continue_the_same_pair() {
    let complex = Value::Pieces(vec![Value::Int(1), Value::Raw("+".to_string()), Value::Int(2)]);
    let v = Value::Record(vec![field("radius", complex), field("n", Value::Int(4))]);
    assert_eq!(rendered(&v), "radius=1+2&n=4");
}

#[test]
fn rendering_twice_gives_the_same_text() {
    let v = Value::Record(vec![
        field("name", text("a&b")),
        field("tags", Value::Values(vec![text("x y"), text("z")])),
    ]);
    let first = rendered(&v);
    let second = rendered(&v);
    assert_eq!(first, second);
    assert_eq!(first, "name=a%26b&tags=x%20y&tags=z");
}

#[test]
fn text_is_percent_encoded() {
    assert_eq!(rendered(&text("john smith")), "john%20smith");
    assert_eq!(rendered(&text("a&b=c+d/e?f%g#h")), "a%26b%3Dc%2Bd%2Fe%3Ff%25g%23h");
    assert_eq!(rendered(&text("AZaz09-._~!$'()*,;:@[]")), "AZaz09-._~!$'()*,;:@[]");
    assert_eq!(rendered(&text("é")), "%C3%A9");
    assert_eq!(rendered(&text("\"<>\\^`{|}")), "%22%3C%3E%5C%5E%60%7B%7C%7D");
}

#[test]
fn encoded_text_decodes_to_the_original() {
    let originals = ["john smith", "a&b=c+d/e?f%g#h", "!\"#$%&'()*+,-./:;<=>?@[\\]^_`{|}~", "naïve café"];
    for original in originals.iter() {
        let encoded = rendered(&text(original));
        let decoded = rocket::http::RawStr::new(&encoded).percent_decode().unwrap();
        assert_eq!(decoded.as_ref(), *original);
    }
}

#[test]
fn empty_text_still_writes_its_key() {
    let v = Value::Record(vec![field("name", text("")), field("age", Value::Int(5))]);
    assert_eq!(rendered(&v), "name=&age=5");
}

#[test]
fn integers_in_decimal() {
    assert_eq!(decimal_text(0), "0");
    assert_eq!(decimal_text(7), "7");
    assert_eq!(decimal_text(10), "10");
    assert_eq!(decimal_text(-305), "-305");
    assert_eq!(decimal_text(i64::MAX), "9223372036854775807");
    assert_eq!(decimal_text(i64::MIN), "-9223372036854775808");
}

#[test]
fn empty_record_renders_empty() {
    assert_eq!(rendered(&Value::Record(vec![])), "");
}

#[test]
fn bounded_sink_takes_exactly_its_limit() {
    let v = Value::Record(vec![field("name", text("john smith")), field("age", Value::Int(5))]);
    let full = "name=john%20smith&age=5";
    assert_eq!(render_with_limit(&v, full.len()).unwrap(), full);
    assert_eq!(render_with_limit(&v, full.len() - 1), Err(FormatError));
    assert_eq!(render_with_limit(&v, 0), Err(FormatError));
}

#[test]
fn formatter_places_separators_and_keys() {
    let mut f = Formatter::new(100);
    f.write_named_value("a", &Value::Int(1)).unwrap();
    f.write_named_value("b", &Value::Record(vec![field("c", text("x y"))])).unwrap();
    f.write_value(&Value::Raw("tail".to_string())).unwrap();
    assert_eq!(f.as_str(), "a=1&b.c=x%20y&tail");
    assert_eq!(f.finish(), "a=1&b.c=x%20y&tail");
}

#[test]
fn formatter_raw_writes_continue_a_pair() {
    let mut f = Formatter::new(100);
    f.write_raw("x").unwrap();
    f.write_raw("y").unwrap();
    f.refresh();
    f.write_raw("z").unwrap();
    assert_eq!(f.as_str(), "xy&z");
}

#[test]
fn formatter_refuses_a_write_past_its_limit() {
    let mut f = Formatter::new(3);
    f.write_raw("ab").unwrap();
    assert_eq!(f.write_raw("cd"), Err(FormatError));
    assert_eq!(f.as_str(), "ab");
    f.write_raw("c").unwrap();
    assert_eq!(f.as_str(), "abc");
}
