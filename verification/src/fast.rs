//! The messages of the feed, as the FAST decoder delivers them.
//!
//! One struct stands for each template of the feed, and [`Message`] is their
//! sum. Prices are scaled decimals of the decoder; the two price increments
//! of a security definition, which the feed sends as binary floating point,
//! are held as their IEEE 754 bit patterns.
use vstd::prelude::*;

verus! {

/// A scaled decimal number of the fastlib crate: a mantissa and a power of
/// ten. The library carries such values through and does not look inside.
#[verifier::external_type_specification]
#[verifier::external_body]
pub struct ExDecimal(fastlib::Decimal);

/// `Clone` of fastlib's decimal, which that crate derives: the copy equals
/// the value that was copied.
pub assume_specification[ <fastlib::Decimal as Clone>::clone ](d: &fastlib::Decimal) -> (out:
    fastlib::Decimal)
    ensures
        out == *d,
;

/// A message of the feed, by its template.
#[derive(PartialEq, Debug)]
pub enum Message {
    MDIncRefresh(IncRefresh),
    MDSecurityDefinition(SecurityDefinition),
    MDSnapshotFullRefresh(SnapshotFullRefresh),
    MDHeartbeat(Heartbeat),
    MDLogon(Logon),
    MDLogout(Logout),
    MDSecurityDefinitionRequest(SecurityDefinitionRequest),
    SequenceReset(SequenceReset),
    MDSecurityStatus(SecurityStatus),
    News(News),
    ApplicationMessageRequestAck(ApplicationMessageRequestAck),
    UserNotification(UserNotification),
}

/// The message of template `MDIncRefresh`.
#[derive(PartialEq, Debug)]
pub struct IncRefresh {
    pub message_type: String,
    pub msg_header: MsgHeader,
    pub trade_date: Option<u32>,
    pub md_entries: Vec<MDEntry>,
}

#[derive(PartialEq, Eq, Hash, Clone, Debug)]
pub struct MDEntry {
    pub md_update_action: Option<u32>,
    pub md_price_level: Option<u32>,
    pub md_entry_type: String,
    pub security_id: u32,
    pub security_id_source: u32,
    pub rpt_seq: u32,
    pub md_entry_px: Option<fastlib::Decimal>,
    pub md_entry_time: u32,
    pub md_entry_size: Option<i32>,
    pub quote_condition: Option<String>,
    pub md_quote_type: Option<u32>,
    pub trade_condition: Option<String>,
    pub trade_volume: Option<u32>,
    pub aggressor_side: Option<u32>,
    pub md_workup_state: Option<u32>,
    pub parties: Option<Vec<Party>>,
}

#[derive(PartialEq, Eq, Hash, Clone, Debug)]
pub struct Party {
    pub party_id: u32,
    pub party_id_source: String,
}

/// The message of template `MDSecurityDefinition`.
#[derive(PartialEq, Debug)]
pub struct SecurityDefinition {
    pub message_type: String,
    pub msg_header: MsgHeader,
    pub tot_num_reports: u32,
    pub events: Option<Vec<Event>>,
    pub security_group: Option<String>,
    pub symbol: Option<String>,
    pub security_name: String,
    pub security_desc: String,
    pub security_id: u32,
    pub security_id_source: u32,
    pub cfi_code: String,
    pub security_exchange: Option<String>,
    pub cqg_security_name: Option<String>,
    pub strike_price: Option<fastlib::Decimal>,
    pub strike_currency: Option<String>,
    pub currency: Option<String>,
    pub settl_currency: Option<String>,
    pub md_feed_types: Option<Vec<FeedType>>,
    pub instr_attrib: Option<Vec<InstrAttrib>>,
    pub maturity_month_year: Option<u64>,
    pub min_price_increment: Option<u64>,
    pub min_price_increment_amount: Option<u64>,
    pub display_factor: Option<fastlib::Decimal>,
    pub appl_id: String,
    pub most_active_flag: Option<String>,
    pub connections: Vec<Connection>,
    pub trading_sessions: Vec<TradingSession>,
    pub underlyings: Option<Vec<Underlying>>,
    pub security_sub_type: Option<String>,
    pub legs: Option<Vec<Leg>>,
}

#[derive(PartialEq, Eq, Hash, Clone, Debug)]
pub struct Event {
    pub event_type: u32,
    pub event_date: u64,
    pub event_time: u64,
}

#[derive(PartialEq, Eq, Hash, Clone, Debug)]
pub struct FeedType {
    pub feed_type: String,
    pub market_depth: u32,
}

#[derive(PartialEq, Eq, Hash, Clone, Debug)]
pub struct InstrAttrib {
    pub instr_attrib_type: u64,
    pub instr_attrib_value: Option<String>,
}

#[derive(PartialEq, Eq, Hash, Clone, Debug)]
pub struct Connection {
    pub connection_type: u32,
    pub connection_ip_address: String,
    pub connection_port_number: u32,
}

#[derive(PartialEq, Eq, Hash, Clone, Debug)]
pub struct TradingSession {
    pub trade_date: u64,
    pub trad_ses_start_time: u64,
    pub trad_ses_open_time: u64,
    pub trad_ses_close_time: u64,
    pub trad_ses_end_time: u64,
}

#[derive(PartialEq, Eq, Hash, Clone, Debug)]
pub struct Underlying {
    pub security_id: u32,
    pub security_id_source: u32,
}

#[derive(PartialEq, Eq, Hash, Clone, Debug)]
pub struct Leg {
    pub leg_symbol: String,
    pub leg_security_desc: String,
    pub leg_ratio_qty: fastlib::Decimal,
    pub leg_security_id: u32,
    pub leg_security_id_source: u32,
    pub leg_side: u32,
    pub leg_security_group: String,
    pub leg_cfi_code: String,
    pub leg_currency: String,
    pub leg_maturity_month_year: u64,
    pub leg_strike_price: fastlib::Decimal,
}

/// The message of template `MDSnapshotFullRefresh`.
#[derive(PartialEq, Debug)]
pub struct SnapshotFullRefresh {
    pub message_type: String,
    pub msg_header: MsgHeader,
    pub last_msg_seq_num_processed: u32,
    pub tot_num_reports: u32,
    pub rpt_seq: u32,
    pub security_id: u32,
    pub security_id_source: u32,
    pub md_security_trading_status: Option<u32>,
    pub md_entries: Vec<MDEntrySnapshot>,
}

#[derive(PartialEq, Eq, Hash, Clone, Debug)]
pub struct MDEntrySnapshot {
    pub md_entry_type: String,
    pub md_entry_px: Option<fastlib::Decimal>,
    pub md_entry_size: Option<i32>,
    pub quote_condition: Option<String>,
    pub md_price_level: Option<u32>,
    pub md_workup_state: Option<u32>,
}

/// The message of template `MDHeartbeat`.
#[derive(PartialEq, Debug)]
pub struct Heartbeat {
    pub message_type: String,
    pub msg_header: MsgHeader,
}

/// The message of template `MDLogon`.
#[derive(PartialEq, Debug)]
pub struct Logon {
    pub message_type: String,
    pub msg_header: MsgHeader,
    pub encrypt_method: u32,
    pub heartbeat_int: u32,
}

/// The message of template `MDLogout`.
#[derive(PartialEq, Debug)]
pub struct Logout {
    pub message_type: String,
    pub msg_header: MsgHeader,
    pub text: Option<String>,
}

/// The message of template `MDSecurityDefinitionRequest`.
#[derive(PartialEq, Debug)]
pub struct SecurityDefinitionRequest {
    pub message_type: String,
    pub msg_header: MsgHeader,
    pub appl_id: String,
    pub text: Option<String>,
}

/// The message of template `SequenceReset`.
#[derive(PartialEq, Debug)]
pub struct SequenceReset {
    pub message_type: String,
    pub msg_header: MsgHeader,
    pub new_seq_no: u32,
}

/// The message of template `MDSecurityStatus`.
#[derive(PartialEq, Debug)]
pub struct SecurityStatus {
    pub message_type: String,
    pub msg_header: MsgHeader,
    pub security_id: Option<u32>,
    pub security_id_source: Option<u32>,
    pub symbol: Option<String>,
    pub security_trading_status: Option<u32>,
}

/// The message of template `News`.
#[derive(PartialEq, Debug)]
pub struct News {
    pub message_type: String,
    pub msg_header: MsgHeader,
    pub message_encoding: String,
    pub appl_id: String,
    pub news_id: String,
    pub news_source_id: u32,
    pub last_fragment: Option<String>,
    pub news_ref_ids: Option<Vec<NewsRefID>>,
    pub orig_time: Option<u64>,
    pub urgency: Option<String>,
    pub news_branding: Option<String>,
    pub accession_number: Option<String>,
    pub encoded_headline: Option<Vec<u8>>,
    pub encoded_text: Option<Vec<u8>>,
    pub news_categories: Option<Vec<NewsCategory>>,
}

#[derive(PartialEq, Eq, Hash, Clone, Debug)]
pub struct NewsRefID {
    pub news_ref_id: String,
    pub news_ref_type: u32,
}

#[derive(PartialEq, Eq, Hash, Clone, Debug)]
pub struct NewsCategory {
    pub category_class: u32,
    pub category_code: String,
}

/// The message of template `ApplicationMessageRequestAck`.
#[derive(PartialEq, Debug)]
pub struct ApplicationMessageRequestAck {
    pub message_type: String,
    pub msg_header: MsgHeader,
    pub appl_response_id: String,
    pub appl_req_id: String,
    pub appl_ids: Vec<ApplID>,
}

#[derive(PartialEq, Eq, Hash, Clone, Debug)]
pub struct ApplID {
    pub ref_appl_id: String,
    pub appl_response_error: Option<u32>,
    pub raw_data: Option<Vec<u8>>,
    pub news_source_id: Option<u32>,
    pub connections: Vec<Connection>,
}

/// The message of template `UserNotification`.
#[derive(PartialEq, Debug)]
pub struct UserNotification {
    pub message_type: String,
    pub msg_header: MsgHeader,
    pub user_status: u32,
    pub text: String,
}

/// The fields that every message starts with.
#[derive(PartialEq, Eq, Hash, Clone, Debug)]
pub struct MsgHeader {
    pub appl_ver_id: String,
    pub sender_comp_id: String,
    pub msg_seq_num: u32,
    pub sending_time: u64,
}

} // verus!
