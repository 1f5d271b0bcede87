use vstd::prelude::*;
use crate::json::{
    field_lookup, lemma_lookup_at, ser_obj, sp_obj, wf_fields, FieldV, JsonField, JsonScalar,
    ScalarV,
};
use crate::send_modes::error::LibError;
use crate::strutil::str_eq;

verus! {

/// The closed set of inbound event channels, encoded as the strings
/// "sms" and "push_notification".
///
/// Decoding an out-of-set string fails with `InvalidDeviceMode` rather
/// than aborting; both closed enums of this library behave the same way
/// in every representation.
#[derive(Debug, Clone, Copy, PartialEq, Eq, Structural)]
pub enum EventType {
    SMS,
    PUSH,
}

impl EventType {
    /// The canonical string of this channel.
    pub open spec fn spec_str(self) -> Seq<char> {
        match self {
            EventType::SMS => "sms"@,
            EventType::PUSH => "push_notification"@,
        }
    }

    /// What decoding a string yields: the matching channel, or
    /// `InvalidDeviceMode` for any out-of-set string.
    pub open spec fn spec_decode(s: Seq<char>) -> Result<EventType, LibError> {
        if s == "sms"@ {
            Ok(EventType::SMS)
        } else if s == "push_notification"@ {
            Ok(EventType::PUSH)
        } else {
            Err(LibError::InvalidDeviceMode)
        }
    }

    /// Encodes the channel as its canonical string; total on the enum.
    pub fn encode(&self) -> (r: String)
        ensures
            r@ == self.spec_str(),
    {
        match self {
            EventType::SMS => "sms".to_owned(),
            EventType::PUSH => "push_notification".to_owned(),
        }
    }

    /// Decodes a string; an unrecognized string is an explicit
    /// `InvalidDeviceMode` error, never a panic.
    pub fn decode(s: &str) -> (r: Result<EventType, LibError>)
        ensures
            r == EventType::spec_decode(s@),
    {
        if str_eq(s, "sms") {
            Ok(EventType::SMS)
        } else if str_eq(s, "push_notification") {
            Ok(EventType::PUSH)
        } else {
            Err(LibError::InvalidDeviceMode)
        }
    }
}

/// Decoding inverts encoding for every valid channel value.
pub proof fn lemma_event_type_round_trip(v: EventType)
    ensures
        EventType::spec_decode(v.spec_str()) == Ok::<EventType, LibError>(v),
{
    reveal_strlit("sms");
    reveal_strlit("push_notification");
    assert("sms"@.len() == 3);
    assert("push_notification"@.len() == 17);
}

/// A fixed-point decimal amount: `mantissa / 10^scale`. Stands for the
/// exact decimal values that bank-transaction events carry.
#[derive(Debug, Clone, Copy, PartialEq, Eq, Structural)]
pub struct DecimalValue {
    pub mantissa: i64,
    pub scale: u32,
}

/// A bank transaction signal used to render notifications.
#[derive(Debug, Clone, PartialEq, Eq)]
pub struct Event {
    pub mode_id: String,
    pub bank: String,
    pub amount: DecimalValue,
    pub requisite: Option<String>,
    pub balance: Option<DecimalValue>,
    pub search_by: String,
}

/// An inbound message with its source text and channel.
#[derive(Debug, Clone, PartialEq, Eq)]
pub struct SendEvent {
    pub source: String,
    pub text: String,
    pub event_type: EventType,
}

/// An outbound rendering result: the same fields as `SendEvent` plus the
/// send-mode id it belongs to.
#[derive(Debug, Clone, PartialEq, Eq)]
pub struct TextMessage {
    pub mode_id: String,
    pub source: String,
    pub text: String,
    pub event_type: EventType,
}

/// Rendering context passed to templating. Optional fields absent from
/// the encoded output entirely when unset, never emitted as null.
#[derive(Debug, Clone, PartialEq, Eq)]
pub struct Context {
    pub amount: String,
    pub balance: Option<String>,
    pub requisite: Option<String>,
}

/// The mathematical value of a text message.
pub struct TextMessageV {
    pub mode_id: Seq<char>,
    pub source: Seq<char>,
    pub text: Seq<char>,
    pub event_type: EventType,
}

impl View for TextMessage {
    type V = TextMessageV;

    open spec fn view(&self) -> TextMessageV {
        TextMessageV {
            mode_id: self.mode_id@,
            source: self.source@,
            text: self.text@,
            event_type: self.event_type,
        }
    }
}

/// The mathematical value of a rendering context.
pub struct ContextV {
    pub amount: Seq<char>,
    pub balance: Option<Seq<char>>,
    pub requisite: Option<Seq<char>>,
}

impl View for Context {
    type V = ContextV;

    open spec fn view(&self) -> ContextV {
        ContextV {
            amount: self.amount@,
            balance: self.balance.deep_view(),
            requisite: self.requisite.deep_view(),
        }
    }
}

/// The JSON members of an outbound text message, in wire order.
pub open spec fn text_message_fields(m: TextMessageV) -> Seq<FieldV> {
    seq![
        FieldV { key: "mode_id"@, value: ScalarV::Str(m.mode_id) },
        FieldV { key: "source"@, value: ScalarV::Str(m.source) },
        FieldV { key: "text"@, value: ScalarV::Str(m.text) },
        FieldV { key: "event_type"@, value: ScalarV::Str(m.event_type.spec_str()) },
    ]
}

/// The JSON wire text of a text message.
pub open spec fn spec_text_message_json(m: TextMessageV) -> Seq<char> {
    ser_obj(text_message_fields(m))
}

/// What decoding a member list as a text message yields.
pub open spec fn spec_text_message_from_fields(fs: Seq<FieldV>) -> Result<TextMessageV, LibError> {
    match (
        field_lookup(fs, "mode_id"@),
        field_lookup(fs, "source"@),
        field_lookup(fs, "text"@),
        field_lookup(fs, "event_type"@),
    ) {
        (
            Some(ScalarV::Str(mode_id)),
            Some(ScalarV::Str(source)),
            Some(ScalarV::Str(text)),
            Some(ScalarV::Str(channel)),
        ) => match EventType::spec_decode(channel) {
            Ok(event_type) => Ok(
                TextMessageV { mode_id: mode_id, source: source, text: text, event_type: event_type },
            ),
            Err(_) => Err(LibError::InvalidDeviceMode),
        },
        _ => Err(LibError::InternalServerError),
    }
}

/// What decoding a JSON text as a text message yields.
pub open spec fn spec_text_message_decode(s: Seq<char>) -> Result<TextMessageV, LibError> {
    match sp_obj(s, 0) {
        Some((fs, j)) => if j == s.len() {
            spec_text_message_from_fields(fs)
        } else {
            Err(LibError::InternalServerError)
        },
        None => Err(LibError::InternalServerError),
    }
}

impl TextMessage {
    /// Writes this message as its JSON wire text.
    pub fn to_json(&self) -> (r: String)
        ensures
            r@ == spec_text_message_json(self@),
    {
        let mut fs: Vec<JsonField> = Vec::new();
        fs.push(
            JsonField { key: "mode_id".to_owned(), value: JsonScalar::Str(self.mode_id.clone()) },
        );
        fs.push(
            JsonField { key: "source".to_owned(), value: JsonScalar::Str(self.source.clone()) },
        );
        fs.push(JsonField { key: "text".to_owned(), value: JsonScalar::Str(self.text.clone()) });
        fs.push(
            JsonField {
                key: "event_type".to_owned(),
                value: JsonScalar::Str(self.event_type.encode()),
            },
        );
        proof {
            assert(fs.deep_view() =~= text_message_fields(self@));
        }
        let chars = crate::json::write_obj(&fs);
        crate::trusted::chars_to_string(&chars)
    }

    /// Reads a message out of its JSON wire text; an out-of-set channel
    /// string is an explicit `InvalidDeviceMode` error, never a panic.
    pub fn from_json(s: &str) -> (r: Result<TextMessage, LibError>)
        ensures
            match r {
                Ok(m) => spec_text_message_decode(s@) == Ok::<TextMessageV, LibError>(m@),
                Err(e) => spec_text_message_decode(s@) == Err::<TextMessageV, LibError>(e),
            },
    {
        let chars = crate::strutil::string_to_chars(s);
        let fields = match crate::json::parse_obj(&chars) {
            None => {
                return Err(LibError::InternalServerError);
            },
            Some(fields) => fields,
        };
        let mode_id = match crate::send_modes::send_mode::field_get(&fields, "mode_id") {
            Some(JsonScalar::Str(s)) => s.clone(),
            _ => {
                return Err(LibError::InternalServerError);
            },
        };
        let source = match crate::send_modes::send_mode::field_get(&fields, "source") {
            Some(JsonScalar::Str(s)) => s.clone(),
            _ => {
                return Err(LibError::InternalServerError);
            },
        };
        let text = match crate::send_modes::send_mode::field_get(&fields, "text") {
            Some(JsonScalar::Str(s)) => s.clone(),
            _ => {
                return Err(LibError::InternalServerError);
            },
        };
        let channel = match crate::send_modes::send_mode::field_get(&fields, "event_type") {
            Some(JsonScalar::Str(s)) => s.clone(),
            _ => {
                return Err(LibError::InternalServerError);
            },
        };
        let event_type = match EventType::decode(channel.as_str()) {
            Ok(t) => t,
            Err(_) => {
                return Err(LibError::InvalidDeviceMode);
            },
        };
        Ok(TextMessage { mode_id, source, text, event_type })
    }
}

/// A text message's JSON encoding decodes back to the same value, for
/// every message.
pub proof fn lemma_text_message_json_round_trip(m: TextMessageV)
    ensures
        spec_text_message_decode(spec_text_message_json(m)) == Ok::<TextMessageV, LibError>(m),
{
    reveal_strlit("mode_id");
    reveal_strlit("source");
    reveal_strlit("text");
    reveal_strlit("event_type");
    let fs = text_message_fields(m);
    assert("mode_id"@.len() == 7);
    assert("source"@.len() == 6);
    assert("text"@.len() == 4);
    assert("event_type"@.len() == 10);
    assert(wf_fields(fs));
    lemma_lookup_at(fs, "mode_id"@, 0);
    lemma_lookup_at(fs, "source"@, 1);
    lemma_lookup_at(fs, "text"@, 2);
    lemma_lookup_at(fs, "event_type"@, 3);
    lemma_event_type_round_trip(m.event_type);
    crate::json::lemma_obj_round_trip(fs);
    let s = spec_text_message_json(m);
    assert(sp_obj(s, 0) == Some((fs, s.len() as int)));
}

/// The JSON members of a rendering context: `amount` always; `balance`
/// and `requisite` only when set — an unset optional field is omitted
/// from the output entirely, never emitted as null.
pub open spec fn context_fields(c: ContextV) -> Seq<FieldV> {
    let head = seq![FieldV { key: "amount"@, value: ScalarV::Str(c.amount) }];
    let with_balance = match c.balance {
        Some(b) => head.push(FieldV { key: "balance"@, value: ScalarV::Str(b) }),
        None => head,
    };
    match c.requisite {
        Some(q) => with_balance.push(FieldV { key: "requisite"@, value: ScalarV::Str(q) }),
        None => with_balance,
    }
}

/// The JSON wire text of a rendering context.
pub open spec fn spec_context_json(c: ContextV) -> Seq<char> {
    ser_obj(context_fields(c))
}

impl Context {
    /// Writes this context as its JSON wire text, omitting unset
    /// optional fields entirely.
    pub fn to_json(&self) -> (r: String)
        ensures
            r@ == spec_context_json(self@),
    {
        let mut fs: Vec<JsonField> = Vec::new();
        fs.push(
            JsonField { key: "amount".to_owned(), value: JsonScalar::Str(self.amount.clone()) },
        );
        match &self.balance {
            Some(b) => fs.push(
                JsonField { key: "balance".to_owned(), value: JsonScalar::Str(b.clone()) },
            ),
            None => (),
        }
        match &self.requisite {
            Some(q) => fs.push(
                JsonField { key: "requisite".to_owned(), value: JsonScalar::Str(q.clone()) },
            ),
            None => (),
        }
        proof {
            assert(fs.deep_view() =~= context_fields(self@));
        }
        let chars = crate::json::write_obj(&fs);
        crate::trusted::chars_to_string(&chars)
    }
}

/// An unset optional context field has no JSON member at all.
pub proof fn lemma_context_omits_unset_fields(c: ContextV)
    ensures
        c.balance is None ==> field_lookup(context_fields(c), "balance"@) is None,
        c.requisite is None ==> field_lookup(context_fields(c), "requisite"@) is None,
{
    reveal_strlit("amount");
    reveal_strlit("balance");
    reveal_strlit("requisite");
    assert("amount"@.len() == 6);
    assert("balance"@.len() == 7);
    assert("requisite"@.len() == 9);
    assert("amount"@ != "balance"@) by {
        assert("amount"@[0] == 'a');
        assert("balance"@[0] == 'b');
    }
    let fs = context_fields(c);
    if c.balance is None {
        crate::json::lemma_lookup_none(fs, "balance"@);
    }
    if c.requisite is None {
        crate::json::lemma_lookup_none(fs, "requisite"@);
    }
}

/// The mathematical value of an inbound message.
pub struct SendEventV {
    pub source: Seq<char>,
    pub text: Seq<char>,
    pub event_type: EventType,
}

impl View for SendEvent {
    type V = SendEventV;

    open spec fn view(&self) -> SendEventV {
        SendEventV { source: self.source@, text: self.text@, event_type: self.event_type }
    }
}

/// What decoding a member list as an inbound message yields.
pub open spec fn spec_send_event_from_fields(fs: Seq<FieldV>) -> Result<SendEventV, LibError> {
    match (
        field_lookup(fs, "source"@),
        field_lookup(fs, "text"@),
        field_lookup(fs, "event_type"@),
    ) {
        (Some(ScalarV::Str(source)), Some(ScalarV::Str(text)), Some(ScalarV::Str(channel))) => match EventType::spec_decode(
            channel,
        ) {
            Ok(event_type) => Ok(SendEventV { source: source, text: text, event_type: event_type }),
            Err(_) => Err(LibError::InvalidDeviceMode),
        },
        _ => Err(LibError::InternalServerError),
    }
}

/// What decoding a JSON text as an inbound message yields.
pub open spec fn spec_send_event_decode(s: Seq<char>) -> Result<SendEventV, LibError> {
    match sp_obj(s, 0) {
        Some((fs, j)) => if j == s.len() {
            spec_send_event_from_fields(fs)
        } else {
            Err(LibError::InternalServerError)
        },
        None => Err(LibError::InternalServerError),
    }
}

impl SendEvent {
    /// Reads an inbound message out of its JSON wire text; an out-of-set
    /// channel string is an explicit `InvalidDeviceMode` error.
    pub fn from_json(s: &str) -> (r: Result<SendEvent, LibError>)
        ensures
            match r {
                Ok(m) => spec_send_event_decode(s@) == Ok::<SendEventV, LibError>(m@),
                Err(e) => spec_send_event_decode(s@) == Err::<SendEventV, LibError>(e),
            },
    {
        let chars = crate::strutil::string_to_chars(s);
        let fields = match crate::json::parse_obj(&chars) {
            None => {
                return Err(LibError::InternalServerError);
            },
            Some(fields) => fields,
        };
        let source = match crate::send_modes::send_mode::field_get(&fields, "source") {
            Some(JsonScalar::Str(s)) => s.clone(),
            _ => {
                return Err(LibError::InternalServerError);
            },
        };
        let text = match crate::send_modes::send_mode::field_get(&fields, "text") {
            Some(JsonScalar::Str(s)) => s.clone(),
            _ => {
                return Err(LibError::InternalServerError);
            },
        };
        let channel = match crate::send_modes::send_mode::field_get(&fields, "event_type") {
            Some(JsonScalar::Str(s)) => s.clone(),
            _ => {
                return Err(LibError::InternalServerError);
            },
        };
        let event_type = match EventType::decode(channel.as_str()) {
            Ok(t) => t,
            Err(_) => {
                return Err(LibError::InvalidDeviceMode);
            },
        };
        Ok(SendEvent { source, text, event_type })
    }
}

} // verus!
