//! The records that come from a venue's feed, and what is made of a message.

use crate::derive::field_schema;
use crate::error::PersistError;
use crate::field::FieldView;
use crate::outside::{no_double, Timestamp};
use crate::persist::Persistable;
use crate::row::{lemma_extended_concat, RowBuffer};
use crate::schema::{leaf_views, Leaf, LeafView, LogicalType, Repetition};
use crate::text::{child_name_chars, opt_chars, str_eq};
use rust_decimal::Decimal;
use vstd::prelude::*;

verus! {

/// A venue that data is taken from.
#[derive(Clone, Copy, Debug, PartialEq, Eq, Structural)]
pub enum Venue {
    Coinbase,
}

impl Venue {
    /// The venue's name in lower case.
    pub fn to_string(&self) -> (name: String)
        ensures
            name@ == match *self {
                Venue::Coinbase => "coinbase"@,
            },
    {
        match self {
            Venue::Coinbase => "coinbase".to_owned(),
        }
    }
}

/// What the program is started with.
#[derive(Clone, Copy, Debug)]
pub struct Args {
    pub venue: Venue,
}

/// Where a feed is and what is asked of it.
#[derive(Debug)]
pub struct Config {
    pub name: String,
    pub ws_url: String,
    pub channels: Vec<String>,
}

/// A match of a request for quote.
#[derive(Debug)]
pub struct RfqMatch {
    pub channel: String,
    pub maker_order_id: String,
    pub taker_order_id: String,
    pub time: Timestamp,
    pub trade_id: u64,
    pub product_id: String,
    pub size: Decimal,
    pub price: Decimal,
    pub side: String,
}

/// An error that the venue reports.
#[derive(Debug)]
pub struct RfqError {
    pub channel: String,
    pub message: String,
    pub reason: String,
}

/// The data of one venue.
#[derive(Debug)]
pub enum VenueData {
    CoinbaseRfqMatch(RfqMatch),
}

/// What a message of the feed is taken for.
#[derive(Debug)]
pub enum Record {
    Data { exchange: String, channel: String, symbol: String, data: VenueData },
    Skip { message: String },
    Error { message: String, reason: String },
}

/// The leaves of the field `label` of type `T` in a record laid out under `prefix`.
pub open spec fn field_leaves<T: Persistable>(
    prefix: Option<Seq<char>>,
    label: Seq<char>,
    repetition: Option<Repetition>,
) -> Seq<LeafView> {
    T::leaves(Some(child_name_chars(prefix, label)), repetition, None)
}

impl RfqMatch {
    /// The fields of the members that come before the size.
    pub open spec fn cells_before_size(&self) -> Seq<FieldView> {
        self.channel.cells() + self.maker_order_id.cells() + self.taker_order_id.cells()
            + self.time.cells() + self.trade_id.cells() + self.product_id.cells()
    }
}

impl Persistable for RfqMatch {
    open spec fn needs_name() -> bool {
        false
    }

    open spec fn width() -> nat {
        9
    }

    open spec fn leaves(
        prefix: Option<Seq<char>>,
        repetition: Option<Repetition>,
        logical_type: Option<LogicalType>,
    ) -> Seq<LeafView> {
        field_leaves::<String>(prefix, "channel"@, repetition) + field_leaves::<String>(
            prefix,
            "maker_order_id"@,
            repetition,
        ) + field_leaves::<String>(prefix, "taker_order_id"@, repetition) + field_leaves::<
            Timestamp,
        >(prefix, "time"@, repetition) + field_leaves::<u64>(prefix, "trade_id"@, repetition)
            + field_leaves::<String>(prefix, "product_id"@, repetition) + field_leaves::<Decimal>(
            prefix,
            "size"@,
            repetition,
        ) + field_leaves::<Decimal>(prefix, "price"@, repetition) + field_leaves::<String>(
            prefix,
            "side"@,
            repetition,
        )
    }

    open spec fn cells(&self) -> Seq<FieldView> {
        self.channel.cells() + self.maker_order_id.cells() + self.taker_order_id.cells()
            + self.time.cells() + self.trade_id.cells() + self.product_id.cells()
            + self.size.cells() + self.price.cells() + self.side.cells()
    }

    open spec fn writable(&self) -> bool {
        self.size.writable() && self.price.writable()
    }

    open spec fn written(&self) -> Seq<FieldView> {
        if !self.size.writable() {
            self.cells_before_size()
        } else if !self.price.writable() {
            self.cells_before_size() + self.size.cells()
        } else {
            self.cells()
        }
    }

    fn schema(
        fields: &mut Vec<Leaf>,
        prefix: Option<&str>,
        repetition_override: Option<Repetition>,
        logical_type: Option<LogicalType>,
    ) {
        let ghost before = leaf_views(fields@);
        field_schema::<String>(fields, prefix, "channel", repetition_override, None);
        field_schema::<String>(fields, prefix, "maker_order_id", repetition_override, None);
        field_schema::<String>(fields, prefix, "taker_order_id", repetition_override, None);
        field_schema::<Timestamp>(fields, prefix, "time", repetition_override, None);
        field_schema::<u64>(fields, prefix, "trade_id", repetition_override, None);
        field_schema::<String>(fields, prefix, "product_id", repetition_override, None);
        field_schema::<Decimal>(fields, prefix, "size", repetition_override, None);
        field_schema::<Decimal>(fields, prefix, "price", repetition_override, None);
        field_schema::<String>(fields, prefix, "side", repetition_override, None);
        assert(leaf_views(fields@) =~= before + Self::leaves(
            opt_chars(prefix),
            repetition_override,
            logical_type,
        ));
    }

    fn append(&self, rows: &mut RowBuffer) -> (result: Result<(), PersistError>)
        ensures
            result matches Err(error) ==> no_double(error),
    {
        let ghost start = rows@;
        self.channel.append(rows)?;
        let ghost done = self.channel.cells();
        proof {
            lemma_extended_concat(start, done, self.maker_order_id.cells());
        }
        self.maker_order_id.append(rows)?;
        let ghost done = done + self.maker_order_id.cells();
        proof {
            lemma_extended_concat(start, done, self.taker_order_id.cells());
        }
        self.taker_order_id.append(rows)?;
        let ghost done = done + self.taker_order_id.cells();
        proof {
            lemma_extended_concat(start, done, self.time.cells());
        }
        self.time.append(rows)?;
        let ghost done = done + self.time.cells();
        proof {
            lemma_extended_concat(start, done, self.trade_id.cells());
        }
        self.trade_id.append(rows)?;
        let ghost done = done + self.trade_id.cells();
        proof {
            lemma_extended_concat(start, done, self.product_id.cells());
        }
        self.product_id.append(rows)?;
        let ghost done = done + self.product_id.cells();
        proof {
            lemma_extended_concat(start, done, self.size.cells());
        }
        self.size.append(rows)?;
        let ghost done = done + self.size.cells();
        proof {
            lemma_extended_concat(start, done, self.price.cells());
        }
        self.price.append(rows)?;
        let ghost done = done + self.price.cells();
        proof {
            lemma_extended_concat(start, done, self.side.cells());
        }
        self.side.append(rows)?;
        Ok(())
    }

    fn field_count() -> (count: usize) {
        9
    }
}

/// What is done with a record.
#[derive(Clone, Copy, Debug, PartialEq, Eq, Structural)]
pub enum Step {
    /// The record's data is written as a row.
    Write,
    /// The record is passed over.
    Pass,
    /// No record is taken after this one.
    Stop,
}

impl Record {
    /// What is done with the record: data is written, what was skipped is
    /// passed over, and an error ends the recording.
    pub fn step(&self) -> (step: Step)
        ensures
            step == match *self {
                Record::Data { .. } => Step::Write,
                Record::Skip { .. } => Step::Pass,
                Record::Error { .. } => Step::Stop,
            },
    {
        match self {
            Record::Data { .. } => Step::Write,
            Record::Skip { .. } => Step::Pass,
            Record::Error { .. } => Step::Stop,
        }
    }
}

/// The name under which the venue's data is recorded.
pub const EXCHANGE: &'static str = "coinbase";

/// What a message of the feed is taken for. A message that is no text is
/// skipped. A text that reads as a match on the channel `rfq_match` is
/// data; one that reads as no match, but as an error on the channel
/// `error`, is an error; any other text is skipped.
pub fn handle(text: Option<String>, rfq_match: Option<RfqMatch>, rfq_error: Option<RfqError>) -> (record:
    Record)
    ensures
        match text {
            None => record matches Record::Skip { message } && message@ == "no text"@,
            Some(string) => match rfq_match {
                Some(found) => if found.channel@ == "rfq_match"@ {
                    &&& record matches Record::Data { exchange, channel, symbol, data }
                    &&& exchange@ == "coinbase"@
                    &&& channel@ == found.channel@
                    &&& symbol@ == found.product_id@
                    &&& data == VenueData::CoinbaseRfqMatch(found)
                } else {
                    record == (Record::Skip { message: string })
                },
                None => match rfq_error {
                    Some(found) => if found.channel@ == "error"@ {
                        record == (Record::Error { message: found.message, reason: found.reason })
                    } else {
                        record == (Record::Skip { message: string })
                    },
                    None => record == (Record::Skip { message: string }),
                },
            },
        },
{
    match text {
        None => Record::Skip { message: "no text".to_owned() },
        Some(string) => match rfq_match {
            Some(found) => {
                if str_eq(found.channel.as_str(), "rfq_match") {
                    Record::Data {
                        exchange: EXCHANGE.to_owned(),
                        channel: found.channel.clone(),
                        symbol: found.product_id.clone(),
                        data: VenueData::CoinbaseRfqMatch(found),
                    }
                } else {
                    Record::Skip { message: string }
                }
            },
            None => match rfq_error {
                Some(found) => {
                    if str_eq(found.channel.as_str(), "error") {
                        Record::Error { message: found.message, reason: found.reason }
                    } else {
                        Record::Skip { message: string }
                    }
                },
                None => Record::Skip { message: string },
            },
        },
    }
}

} // verus!
