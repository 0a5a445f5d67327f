use chrono::DateTime;
use record_persist::feed::{
    handle, Args, Config, Record, RfqError, RfqMatch, Step, Venue, VenueData, EXCHANGE,
};
use record_persist::derive::{persist_derive, AppendBody, Data, DeriveInput, FieldDecl, Fields, SchemaBody};
use record_persist::field::Field;
use record_persist::outside::Timestamp;
use record_persist::row::RowBuffer;
use record_persist::schema::{Leaf, LogicalType, PhysicalType, Repetition, TimeUnit};
use record_persist::Persistable;
use rust_decimal::Decimal;

fn rfq_match(channel: &str) -> RfqMatch {
    RfqMatch {
        channel: channel.to_string(),
        maker_order_id: "maker".to_string(),
        taker_order_id: "taker".to_string(),
        time: Timestamp { time: DateTime::from_timestamp(1_700_000_000, 0).unwrap().naive_utc() },
        trade_id: 77,
        product_id: "BTC-USD".to_string(),
        size: Decimal::new(5, 1),
        price: Decimal::new(42, 0),
        side: "buy".to_string(),
    }
}

fn rfq_error(channel: &str) -> RfqError {
    RfqError {
        channel: channel.to_string(),
        message: "failed".to_string(),
        reason: "no such channel".to_string(),
    }
}

fn text() -> Option<String> {
    Some("{...}".to_string())
}

fn skipped(record: Record, text: &str) -> bool {
    matches!(record, Record::Skip { message } if message == text)
}

#[test]
fn the_name_of_a_venue() {
    assert_eq!(Venue::Coinbase.to_string(), "coinbase");
    assert_eq!(EXCHANGE, "coinbase");
    let args = Args { venue: Venue::Coinbase };
    assert_eq!(args.venue, Venue::Coinbase);
    let config = Config {
        name: "coinbase".to_string(),
        ws_url: "wss://ws-feed.exchange.coinbase.com".to_string(),
        channels: vec!["rfq_matches".to_string()],
    };
    assert_eq!(config.channels.len(), 1);
}

#[test]
fn a_match_is_data() {
    match handle(text(), Some(rfq_match("rfq_match")), None) {
        Record::Data { exchange, channel, symbol, data: VenueData::CoinbaseRfqMatch(found) } => {
            assert_eq!(exchange, "coinbase");
            assert_eq!(channel, "rfq_match");
            assert_eq!(symbol, "BTC-USD");
            assert_eq!(found.trade_id, 77);
            assert_eq!(found.side, "buy");
        }
        other => panic!("{:?}", other),
    }
}

#[test]
fn a_match_on_another_channel_is_skipped() {
    assert!(skipped(handle(text(), Some(rfq_match("subscriptions")), None), "{...}"));
    assert!(skipped(
        handle(text(), Some(rfq_match("subscriptions")), Some(rfq_error("error"))),
        "{...}"
    ));
}

#[test]
fn an_error_is_an_error() {
    match handle(text(), None, Some(rfq_error("error"))) {
        Record::Error { message, reason } => {
            assert_eq!(message, "failed");
            assert_eq!(reason, "no such channel");
        }
        other => panic!("{:?}", other),
    }
    assert!(skipped(handle(text(), None, Some(rfq_error("heartbeat"))), "{...}"));
}

#[test]
fn a_match_goes_before_an_error() {
    assert!(matches!(
        handle(text(), Some(rfq_match("rfq_match")), Some(rfq_error("error"))),
        Record::Data { .. }
    ));
}

#[test]
fn what_reads_as_nothing_is_skipped() {
    assert!(skipped(handle(text(), None, None), "{...}"));
    assert!(skipped(handle(Some(String::new()), None, None), ""));
}

#[test]
fn what_is_no_text_is_skipped() {
    assert!(skipped(handle(None, None, None), "no text"));
    assert!(skipped(handle(None, Some(rfq_match("rfq_match")), Some(rfq_error("error"))), "no text"));
}

#[test]
fn the_leaves_of_a_match() {
    let mut fields = Vec::new();
    RfqMatch::schema(&mut fields, None, None, None);
    let text = |name: &str| Leaf {
        name: name.to_string(),
        physical_type: PhysicalType::ByteArray,
        repetition: Repetition::Required,
        logical_type: Some(LogicalType::String),
    };
    let decimal = |name: &str| Leaf {
        name: name.to_string(),
        physical_type: PhysicalType::Double,
        repetition: Repetition::Required,
        logical_type: Some(LogicalType::String),
    };
    assert_eq!(
        fields,
        vec![
            text("channel"),
            text("maker_order_id"),
            text("taker_order_id"),
            Leaf {
                name: "time".to_string(),
                physical_type: PhysicalType::Int64,
                repetition: Repetition::Required,
                logical_type: Some(LogicalType::Timestamp {
                    unit: TimeUnit::Nanos,
                    adjusted_to_utc: true
                }),
            },
            Leaf {
                name: "trade_id".to_string(),
                physical_type: PhysicalType::Int64,
                repetition: Repetition::Required,
                logical_type: None,
            },
            text("product_id"),
            decimal("size"),
            decimal("price"),
            text("side"),
        ]
    );
    assert_eq!(RfqMatch::field_count(), 9);
}

#[test]
fn the_leaves_of_a_match_under_a_name() {
    let mut fields = Vec::new();
    <Option<RfqMatch>>::schema(&mut fields, Some("last"), None, None);
    assert_eq!(fields.len(), 9);
    assert_eq!(fields[0].name, "last_channel");
    assert_eq!(fields[8].name, "last_side");
    assert!(fields.iter().all(|leaf| leaf.repetition == Repetition::Optional));
}

#[test]
fn the_fields_of_a_match() {
    let mut rows = RowBuffer::new();
    rows.begin();
    rfq_match("rfq_match").append(&mut rows).unwrap();
    let fields: Vec<Field> = rows.lanes().iter().map(|lane| lane[0].clone()).collect();
    assert_eq!(
        fields,
        vec![
            Field::Str("rfq_match".to_string()),
            Field::Str("maker".to_string()),
            Field::Str("taker".to_string()),
            Field::ULong(1_700_000_000_000_000_000),
            Field::ULong(77),
            Field::Str("BTC-USD".to_string()),
            Field::Double(0.5f64.to_bits()),
            Field::Double(42.0f64.to_bits()),
            Field::Str("buy".to_string()),
        ]
    );
}

#[test]
fn what_is_done_with_a_record() {
    assert_eq!(handle(text(), Some(rfq_match("rfq_match")), None).step(), Step::Write);
    assert_eq!(handle(text(), None, None).step(), Step::Pass);
    assert_eq!(handle(None, None, None).step(), Step::Pass);
    assert_eq!(handle(text(), None, Some(rfq_error("error"))).step(), Step::Stop);
}

#[test]
fn a_match_is_laid_out_as_its_declaration_derives() {
    let field = |name: &str, ty: &str| FieldDecl {
        ident: Some(name.to_string()),
        ty: ty.to_string(),
        attrs: Vec::new(),
    };
    let derived = persist_derive(&DeriveInput {
        ident: "RfqMatch".to_string(),
        data: Data::Struct(Fields::Named(vec![
            field("channel", "String"),
            field("maker_order_id", "String"),
            field("taker_order_id", "String"),
            field("time", "DateTime<Utc>"),
            field("trade_id", "u64"),
            field("product_id", "String"),
            field("size", "Decimal"),
            field("price", "Decimal"),
            field("side", "String"),
        ])),
    });
    let mut fields = Vec::new();
    RfqMatch::schema(&mut fields, None, None, None);
    let names: Vec<String> = fields.into_iter().map(|leaf| leaf.name).collect();
    match &derived.schema_body {
        SchemaBody::Calls(calls) => {
            let labels: Vec<String> = calls.iter().map(|call| call.label.clone()).collect();
            assert_eq!(labels, names);
            assert!(calls.iter().all(|call| call.logical_type.is_none()));
        }
        other => panic!("{:?}", other),
    }
    assert_eq!(derived.append_body, AppendBody::Calls(names));
}
