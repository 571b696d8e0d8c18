use budgetchat::asset::{calculate_asset_price_average, parse_number, parse_request, AssetPrices, RequestType};

#[test]
fn test_number_parsing() {
    assert_eq!(parse_number(&[0x00]), Err(String::from("Malformed number [00]")));
    assert_eq!(
        parse_number(&[0x00, 0x01, 0x02, 0x03, 0x04, 0x05]),
        Err(String::from("Malformed number [00, 01, 02, 03, 04, 05]"))
    );
    assert_eq!(parse_number(&[0x00, 0x00, 0x00, 0x10]), Ok(16));
    assert_eq!(parse_number(&[0xFF, 0xFF, 0xFF, 0xF0]), Ok(-16));
}

#[test]
fn number_parsing_edges() {
    assert_eq!(parse_number(&[]), Err(String::from("Malformed number []")));
    assert_eq!(parse_number(&[0xAB, 0x3F]), Err(String::from("Malformed number [AB, 3F]")));
    assert_eq!(parse_number(&[0x7F, 0xFF, 0xFF, 0xFF]), Ok(i32::MAX));
    assert_eq!(parse_number(&[0x80, 0x00, 0x00, 0x00]), Ok(i32::MIN));
    assert_eq!(parse_number(&[0x01, 0x02, 0x03, 0x04]), Ok(0x01020304));
}

#[test]
fn problem_2_test_request_parsing() {
    assert_eq!(parse_request(&[0x00]), Err(String::from("Requests must have 9 bytes")));
    assert_eq!(
        parse_request(&[0x00, 0x00, 0x00, 0x00, 0x00, 0x00, 0x00, 0x00, 0x00, 0x00]),
        Err(String::from("Requests must have 9 bytes"))
    );
    assert_eq!(parse_request(&[0x00]), Err(String::from("Requests must have 9 bytes")));
    assert_eq!(
        parse_request(&[0x41, 0x00, 0x00, 0x00, 0x00, 0x00, 0x00, 0x00, 0x00]),
        Err(String::from("No operation specified for A"))
    );

    assert_eq!(
        parse_request(&[0x49, 0x00, 0x00, 0x00, 0x01, 0x00, 0x00, 0x00, 0x02]),
        Ok(RequestType::Insert(1, 2))
    );
    assert_eq!(
        parse_request(&[0x51, 0x00, 0x00, 0x00, 0x03, 0x00, 0x00, 0x00, 0x04]),
        Ok(RequestType::Query(3, 4))
    );
}

#[test]
fn test_average_calculation() {
    let prices = vec![(0, 1), (1, 2), (2, 3), (3, 4), (4, 5)];
    assert_eq!(calculate_asset_price_average(&prices, 10, 11), 0);
    assert_eq!(calculate_asset_price_average(&prices, 1, 3), 3);
}

#[test]
fn average_rounds_toward_zero_without_overflow() {
    let prices = vec![(1, -3), (2, -4), (3, 10)];
    assert_eq!(calculate_asset_price_average(&prices, 1, 2), -3);
    assert_eq!(calculate_asset_price_average(&prices, 1, 3), 1);
    assert_eq!(calculate_asset_price_average(&prices, 3, 1), 0);
    let big = vec![(0, i32::MAX), (1, i32::MAX), (2, i32::MAX - 2)];
    assert_eq!(calculate_asset_price_average(&big, 0, 2), i32::MAX - 1);
    let low = vec![(0, i32::MIN), (1, i32::MIN)];
    assert_eq!(calculate_asset_price_average(&low, 0, 1), i32::MIN);
    assert_eq!(calculate_asset_price_average(&[], 0, 1), 0);
}

#[test]
fn asset_session_inserts_and_queries() {
    let mut asset = AssetPrices::new();
    assert_eq!(asset.handle_request(&[0x49, 0, 0, 0x30, 0x39, 0, 0, 0, 0x65]), None);
    assert_eq!(asset.handle_request(&[0x49, 0, 0, 0x30, 0x3A, 0, 0, 0, 0x66]), None);
    assert_eq!(asset.handle_request(&[0x49, 0, 0, 0x30, 0x3B, 0, 0, 0, 0x64]), None);
    assert_eq!(asset.handle_request(&[0x49, 0, 0, 0xA0, 0x00, 0, 0, 0, 0x05]), None);
    assert_eq!(asset.handle_request(&[0x51, 0, 0, 0x30, 0x00, 0, 0, 0x40, 0x00]), Some(101));
    assert_eq!(asset.handle_request(&[0x51, 0, 0, 0x03, 0xE8, 0, 0x01, 0x86, 0xA0]), Some(77));
    assert_eq!(asset.handle_request(&[0x58, 0, 0, 0, 0, 0, 0, 0, 0]), None);
    assert_eq!(asset.handle_request(&[0x49, 0]), None);
    assert_eq!(asset.handle_request(&[0x51, 0, 0, 0, 0, 0, 0, 0, 1]), Some(0));
}
