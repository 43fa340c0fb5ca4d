use qotd::quote::{is_valid_field, Quote, QuoteSet, DELIMITER};

fn quote(text: &str, attribution: &str) -> Quote {
    Quote::new(text.to_string(), attribution.to_string()).unwrap()
}

#[test]
fn delimiter_is_a_vertical_bar() {
    assert_eq!(DELIMITER, '|');
}

#[test]
fn a_record_keeps_its_fields() {
    let record = quote("Be yourself.", "Oscar Wilde");
    assert_eq!(record.text(), "Be yourself.");
    assert_eq!(record.attribution(), "Oscar Wilde");
}

#[test]
fn an_empty_field_is_refused() {
    assert!(Quote::new(String::new(), "Oscar Wilde".to_string()).is_none());
    assert!(Quote::new("Be yourself.".to_string(), String::new()).is_none());
    assert!(Quote::new(String::new(), String::new()).is_none());
}

#[test]
fn a_delimiter_in_a_field_is_refused() {
    assert!(Quote::new("Be|yourself.".to_string(), "Oscar Wilde".to_string()).is_none());
    assert!(Quote::new("Be yourself.".to_string(), "Oscar|Wilde".to_string()).is_none());
    assert!(Quote::new("|".to_string(), "x".to_string()).is_none());
    assert!(Quote::new("x".to_string(), "y|".to_string()).is_none());
}

#[test]
fn field_validity() {
    assert!(is_valid_field("a"));
    assert!(is_valid_field("two words, and more"));
    assert!(is_valid_field("h\u{e9}h\u{e9} \u{1f600}"));
    assert!(!is_valid_field(""));
    assert!(!is_valid_field("|"));
    assert!(!is_valid_field("left|right"));
    assert!(!is_valid_field("end|"));
}

#[test]
fn an_empty_set_is_refused() {
    assert!(QuoteSet::new(Vec::new()).is_none());
}

#[test]
fn a_set_keeps_the_order_of_its_records() {
    let set = QuoteSet::new(vec![quote("one", "a"), quote("two", "b"), quote("three", "c")])
        .unwrap();
    assert_eq!(set.len(), 3);
    assert_eq!(set.get(0).unwrap().text(), "one");
    assert_eq!(set.get(1).unwrap().text(), "two");
    assert_eq!(set.get(2).unwrap().text(), "three");
    assert_eq!(set.get(2).unwrap().attribution(), "c");
    assert!(set.get(3).is_none());
    assert!(set.get(usize::MAX).is_none());
}

#[test]
fn the_quote_of_the_day_follows_the_day_number() {
    let set = QuoteSet::new(vec![quote("one", "a"), quote("two", "b"), quote("three", "c")])
        .unwrap();
    assert_eq!(set.quote_of_the_day(0).text(), "one");
    assert_eq!(set.quote_of_the_day(86_399).text(), "one");
    assert_eq!(set.quote_of_the_day(86_400).text(), "two");
    assert_eq!(set.quote_of_the_day(2 * 86_400).text(), "three");
    assert_eq!(set.quote_of_the_day(3 * 86_400).text(), "one");
    // Day 19723 after the epoch; 19723 = 3 * 6574 + 1.
    assert_eq!(set.quote_of_the_day(1_704_067_200).text(), "two");
}

#[test]
fn a_set_of_one_always_serves_it() {
    let set = QuoteSet::new(vec![quote("only", "one")]).unwrap();
    assert_eq!(set.len(), 1);
    for now in [0u64, 86_400, 1_704_067_200, u64::MAX] {
        assert_eq!(set.quote_of_the_day(now).text(), "only");
    }
}
