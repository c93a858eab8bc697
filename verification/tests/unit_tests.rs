use fluent_static::numformat::{
    CurrencyCode, CurrencyDisplayStyle, CurrencySignMode, GroupingStyle, NumberFormat,
    UnitDisplayStyle, UnitIdentifier,
};

#[test]
fn test_unit_from_str() {
    assert_eq!(UnitIdentifier::Meter, "meter".parse().unwrap());
    assert_eq!(
        UnitIdentifier::Meter.per(UnitIdentifier::Second),
        "meter-per-second".parse().unwrap()
    );
}

#[test]
fn test_unit_display() {
    assert_eq!(
        "kilometer-per-hour",
        UnitIdentifier::Kilometer.per(UnitIdentifier::Hour).as_string()
    );
}

#[test]
fn unit_nested_rates_parse() {
    let u: UnitIdentifier = "bit-per-meter-per-second".parse().unwrap();
    assert_eq!(
        UnitIdentifier::Bit.per(UnitIdentifier::Meter.per(UnitIdentifier::Second)),
        u
    );
    assert!("meter-per-".parse::<UnitIdentifier>().is_err());
    assert!("parsec".parse::<UnitIdentifier>().is_err());
}

#[test]
fn currency_codes_parse() {
    assert_eq!(CurrencyCode::USD, "USD".parse().unwrap());
    assert_eq!(CurrencyCode::EUR, "EUR".parse().unwrap());
    assert_eq!("JPY", CurrencyCode::JPY.as_str());
    let e = "usd".parse::<CurrencyCode>();
    assert!(e.is_err());
    assert_eq!("usd", e.unwrap_err().text);
}

#[test]
fn style_keywords_parse() {
    assert_eq!(CurrencyDisplayStyle::NarrowSymbol, "narrowSymbol".parse().unwrap());
    assert_eq!(CurrencyDisplayStyle::Code, "CODE".parse().unwrap());
    assert!("narrow-symbol".parse::<CurrencyDisplayStyle>().is_err());
    assert_eq!(CurrencySignMode::Accounting, "Accounting".parse().unwrap());
    assert!("signless".parse::<CurrencySignMode>().is_err());
    assert_eq!(UnitDisplayStyle::Long, "LONG".parse().unwrap());
    assert!("tiny".parse::<UnitDisplayStyle>().is_err());
    assert_eq!(GroupingStyle::Auto, "true".parse().unwrap());
    assert_eq!(GroupingStyle::Off, "false".parse().unwrap());
    assert_eq!(GroupingStyle::Min2, "min2".parse().unwrap());
    assert!("Always".parse::<GroupingStyle>().is_err());
}

#[test]
fn number_format_constructors() {
    let c = NumberFormat::currency(CurrencyCode::USD);
    assert!(c.style.is_currency());
    assert!(!c.style.is_decimal());
    let mut style = c.style;
    assert!(style.set_currency_display_style(CurrencyDisplayStyle::Name));
    assert!(style.set_currency_sign_mode(CurrencySignMode::Accounting));
    assert!(!style.set_unit_display_style(UnitDisplayStyle::Narrow));
    let u = NumberFormat::unit(UnitIdentifier::Byte);
    assert!(u.style.is_unit());
    let p = NumberFormat::percent();
    assert!(p.style.is_percent());
    let d = NumberFormat::default();
    assert!(d.style.is_decimal());
    assert_eq!(GroupingStyle::Auto, d.use_grouping);
}
