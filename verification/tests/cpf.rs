use fastfood_auth::base::domain_error::DomainError;
use fastfood_auth::base::text::{join, parse_usize, same_text, to_decimal};
use fastfood_auth::entities::cpf::{has_canonical_form, strip_punctuation, Cpf};

#[test]
fn test_cpf_round_trips_canonical_text() {
    for text in ["123.456.789-09", "000.000.000-00", "987.654.321-00", "999.999.999-99"] {
        let cpf = Cpf::new(text.to_string()).unwrap();
        assert_eq!(cpf.value(), text);
    }
}

#[test]
fn test_cpf_refuses_everything_else() {
    let invalid = [
        "",
        "12345678909",
        "123.456.789-0",
        "123.456.789-099",
        "123-456-789.09",
        "123.456.789/09",
        "123.456.78a-09",
        " 123.456.789-09",
        "123.456.789-09 ",
        "123.456.789\u{2d}0\u{663}",
        "１２３.456.789-09",
    ];
    for text in invalid {
        assert_eq!(
            Cpf::new(text.to_string()),
            Err(DomainError::Invalid("Cpf".to_string())),
            "{:?}",
            text
        );
        assert!(!has_canonical_form(text));
    }
}

#[test]
fn test_cpf_equality_is_by_text() {
    let a = Cpf::new("123.456.789-09".to_string()).unwrap();
    let b = Cpf::new("123.456.789-09".to_string()).unwrap();
    let c = Cpf::new("123.456.789-00".to_string()).unwrap();
    assert!(a == b);
    assert!(a != c);
    assert!(a.clone() == a);
}

#[test]
fn test_cpf_unpunctuated() {
    let cpf = Cpf::new("123.456.789-09".to_string()).unwrap();
    assert_eq!(cpf.unpunctuated(), "12345678909");
    let cpf = Cpf::new("000.000.000-00".to_string()).unwrap();
    assert_eq!(cpf.unpunctuated(), "00000000000");
}

#[test]
fn test_strip_punctuation_of_any_text() {
    assert_eq!(strip_punctuation(""), "");
    assert_eq!(strip_punctuation(".-.-"), "");
    assert_eq!(strip_punctuation("a.b-c"), "abc");
    assert_eq!(strip_punctuation("não-é.cpf"), "nãoécpf");
}

#[test]
fn test_same_text() {
    assert!(same_text("", ""));
    assert!(same_text("custom:id", "custom:id"));
    assert!(!same_text("custom:id", "custom:id "));
    assert!(!same_text("Ativo", "ativo"));
}

#[test]
fn test_parse_usize() {
    assert_eq!(parse_usize("0"), Some(0));
    assert_eq!(parse_usize("7"), Some(7));
    assert_eq!(parse_usize("007"), Some(7));
    assert_eq!(parse_usize("+42"), Some(42));
    assert_eq!(parse_usize("12345678909"), "12345678909".parse::<usize>().ok());
    assert_eq!(parse_usize(&usize::MAX.to_string()), Some(usize::MAX));
}

#[test]
fn test_parse_usize_refuses() {
    for text in ["", "+", "-", "-1", "++1", "1+", "12a", " 1", "1 ", "1.0", "٣", "0x10"] {
        assert_eq!(parse_usize(text), None, "{:?}", text);
        assert!(text.parse::<usize>().is_err());
    }
    let too_large = format!("{}0", usize::MAX);
    assert_eq!(parse_usize(&too_large), None);
    assert_eq!(parse_usize("340282366920938463463374607431768211456"), None);
}

#[test]
fn test_to_decimal() {
    assert_eq!(to_decimal(0), "0");
    assert_eq!(to_decimal(9), "9");
    assert_eq!(to_decimal(10), "10");
    assert_eq!(to_decimal(1234567890), "1234567890");
    assert_eq!(to_decimal(usize::MAX), usize::MAX.to_string());
    for number in [0, 1, 9, 10, 99, 100, 101, 65535, usize::MAX] {
        assert_eq!(parse_usize(&to_decimal(number)), Some(number));
    }
}

#[test]
fn test_join() {
    let none: Vec<String> = vec![];
    assert_eq!(join(&none, ", "), "");
    assert_eq!(join(&vec!["id".to_string()], ", "), "id");
    assert_eq!(join(&vec!["id".to_string(), "cpf".to_string()], ", "), "id, cpf");
    assert_eq!(join(&vec!["".to_string(), "".to_string(), "x".to_string()], "-"), "--x");
    assert_eq!(join(&vec!["a".to_string(), "b".to_string()], ""), "ab");
}
