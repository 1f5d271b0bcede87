use vstd::prelude::*;
use crate::cache::{CacheValue, CacheValueV};
use crate::json::{
    field_lookup, lemma_lookup_at, ser_obj, sp_obj, wf_fields, FieldV, JsonField, JsonScalar,
    ScalarV,
};
use crate::row::{row_lookup, SqlColumnV, SqlRow, SqlValue, SqlValueV};
use crate::send_modes::error::LibError;
use crate::send_modes::send_mode::SendModeEnum;

verus! {

/// A per-bank notification rendering rule. Read from the relational
/// store, cached as one opaque JSON blob, never mutated by this library.
#[derive(Debug, Clone, PartialEq, Eq)]
pub struct NotificationTemplate {
    pub bank: String,
    pub send_mode: SendModeEnum,
    pub template: String,
    pub search_by: String,
    pub has_requisite: bool,
    pub has_balance: bool,
    pub notification_type: String,
    pub source: String,
    pub need_to_replace_comma: bool,
}

/// The mathematical value of a template.
pub struct NotificationTemplateV {
    pub bank: Seq<char>,
    pub send_mode: SendModeEnum,
    pub template: Seq<char>,
    pub search_by: Seq<char>,
    pub has_requisite: bool,
    pub has_balance: bool,
    pub notification_type: Seq<char>,
    pub source: Seq<char>,
    pub need_to_replace_comma: bool,
}

impl View for NotificationTemplate {
    type V = NotificationTemplateV;

    open spec fn view(&self) -> NotificationTemplateV {
        NotificationTemplateV {
            bank: self.bank@,
            send_mode: self.send_mode,
            template: self.template@,
            search_by: self.search_by@,
            has_requisite: self.has_requisite,
            has_balance: self.has_balance,
            notification_type: self.notification_type@,
            source: self.source@,
            need_to_replace_comma: self.need_to_replace_comma,
        }
    }
}

/// The JSON members of a template, in wire order.
pub open spec fn template_fields(t: NotificationTemplateV) -> Seq<FieldV> {
    seq![
        FieldV { key: "bank"@, value: ScalarV::Str(t.bank) },
        FieldV { key: "send_mode"@, value: ScalarV::Str(t.send_mode.spec_str()) },
        FieldV { key: "template"@, value: ScalarV::Str(t.template) },
        FieldV { key: "search_by"@, value: ScalarV::Str(t.search_by) },
        FieldV { key: "has_requisite"@, value: ScalarV::Bool(t.has_requisite) },
        FieldV { key: "has_balance"@, value: ScalarV::Bool(t.has_balance) },
        FieldV { key: "notification_type"@, value: ScalarV::Str(t.notification_type) },
        FieldV { key: "source"@, value: ScalarV::Str(t.source) },
        FieldV { key: "need_to_replace_comma"@, value: ScalarV::Bool(t.need_to_replace_comma) },
    ]
}

/// The JSON wire text of a template.
pub open spec fn spec_template_json(t: NotificationTemplateV) -> Seq<char> {
    ser_obj(template_fields(t))
}

/// What decoding a member list as a template yields: every member
/// present with its exact name and shape; an out-of-set kind string is
/// `InvalidDeviceMode`; anything else missing or mistyped is
/// `InternalError`.
pub open spec fn spec_template_from_fields(fs: Seq<FieldV>) -> Result<
    NotificationTemplateV,
    LibError,
> {
    match (
        field_lookup(fs, "bank"@),
        field_lookup(fs, "send_mode"@),
        field_lookup(fs, "template"@),
        field_lookup(fs, "search_by"@),
        field_lookup(fs, "has_requisite"@),
        field_lookup(fs, "has_balance"@),
        field_lookup(fs, "notification_type"@),
        field_lookup(fs, "source"@),
        field_lookup(fs, "need_to_replace_comma"@),
    ) {
        (
            Some(ScalarV::Str(bank)),
            Some(ScalarV::Str(ks)),
            Some(ScalarV::Str(template)),
            Some(ScalarV::Str(search_by)),
            Some(ScalarV::Bool(has_requisite)),
            Some(ScalarV::Bool(has_balance)),
            Some(ScalarV::Str(notification_type)),
            Some(ScalarV::Str(source)),
            Some(ScalarV::Bool(need_to_replace_comma)),
        ) => match SendModeEnum::spec_decode(ks) {
            Ok(kind) => Ok(
                NotificationTemplateV {
                    bank: bank,
                    send_mode: kind,
                    template: template,
                    search_by: search_by,
                    has_requisite: has_requisite,
                    has_balance: has_balance,
                    notification_type: notification_type,
                    source: source,
                    need_to_replace_comma: need_to_replace_comma,
                },
            ),
            Err(_) => Err(LibError::InvalidDeviceMode),
        },
        _ => Err(LibError::InternalServerError),
    }
}

/// What decoding a JSON text as a template yields.
pub open spec fn spec_template_decode(s: Seq<char>) -> Result<NotificationTemplateV, LibError> {
    match sp_obj(s, 0) {
        Some((fs, j)) => if j == s.len() {
            spec_template_from_fields(fs)
        } else {
            Err(LibError::InternalServerError)
        },
        None => Err(LibError::InternalServerError),
    }
}

/// What decoding a relational row as a template yields: columns mapped
/// to fields by exact name.
pub open spec fn spec_template_from_row(cols: Seq<SqlColumnV>) -> Result<
    NotificationTemplateV,
    LibError,
> {
    match (
        row_lookup(cols, "bank"@),
        row_lookup(cols, "send_mode"@),
        row_lookup(cols, "template"@),
        row_lookup(cols, "search_by"@),
        row_lookup(cols, "has_requisite"@),
        row_lookup(cols, "has_balance"@),
        row_lookup(cols, "notification_type"@),
        row_lookup(cols, "source"@),
        row_lookup(cols, "need_to_replace_comma"@),
    ) {
        (
            Some(SqlValueV::Text(bank)),
            Some(SqlValueV::Text(ks)),
            Some(SqlValueV::Text(template)),
            Some(SqlValueV::Text(search_by)),
            Some(SqlValueV::Boolean(has_requisite)),
            Some(SqlValueV::Boolean(has_balance)),
            Some(SqlValueV::Text(notification_type)),
            Some(SqlValueV::Text(source)),
            Some(SqlValueV::Boolean(need_to_replace_comma)),
        ) => match SendModeEnum::spec_decode(ks) {
            Ok(kind) => Ok(
                NotificationTemplateV {
                    bank: bank,
                    send_mode: kind,
                    template: template,
                    search_by: search_by,
                    has_requisite: has_requisite,
                    has_balance: has_balance,
                    notification_type: notification_type,
                    source: source,
                    need_to_replace_comma: need_to_replace_comma,
                },
            ),
            Err(_) => Err(LibError::InvalidDeviceMode),
        },
        _ => Err(LibError::InternalServerError),
    }
}

impl NotificationTemplate {
    /// Writes this template as its JSON wire text.
    pub fn to_json(&self) -> (r: String)
        ensures
            r@ == spec_template_json(self@),
    {
        let mut fs: Vec<JsonField> = Vec::new();
        fs.push(JsonField { key: "bank".to_owned(), value: JsonScalar::Str(self.bank.clone()) });
        fs.push(
            JsonField { key: "send_mode".to_owned(), value: JsonScalar::Str(self.send_mode.encode()) },
        );
        fs.push(
            JsonField { key: "template".to_owned(), value: JsonScalar::Str(self.template.clone()) },
        );
        fs.push(
            JsonField { key: "search_by".to_owned(), value: JsonScalar::Str(self.search_by.clone()) },
        );
        fs.push(
            JsonField {
                key: "has_requisite".to_owned(),
                value: JsonScalar::Bool(self.has_requisite),
            },
        );
        fs.push(
            JsonField { key: "has_balance".to_owned(), value: JsonScalar::Bool(self.has_balance) },
        );
        fs.push(
            JsonField {
                key: "notification_type".to_owned(),
                value: JsonScalar::Str(self.notification_type.clone()),
            },
        );
        fs.push(
            JsonField { key: "source".to_owned(), value: JsonScalar::Str(self.source.clone()) },
        );
        fs.push(
            JsonField {
                key: "need_to_replace_comma".to_owned(),
                value: JsonScalar::Bool(self.need_to_replace_comma),
            },
        );
        proof {
            assert(fs.deep_view() =~= template_fields(self@));
        }
        let chars = crate::json::write_obj(&fs);
        crate::trusted::chars_to_string(&chars)
    }

    /// Reads a template out of parsed JSON members.
    pub fn from_fields(fields: &Vec<JsonField>) -> (r: Result<NotificationTemplate, LibError>)
        ensures
            match r {
                Ok(t) => spec_template_from_fields(fields.deep_view()) == Ok::<
                    NotificationTemplateV,
                    LibError,
                >(t@),
                Err(e) => spec_template_from_fields(fields.deep_view()) == Err::<
                    NotificationTemplateV,
                    LibError,
                >(e),
            },
    {
        let bank = match crate::send_modes::send_mode::field_get(fields, "bank") {
            Some(JsonScalar::Str(s)) => s.clone(),
            _ => {
                return Err(LibError::InternalServerError);
            },
        };
        let kind_text = match crate::send_modes::send_mode::field_get(fields, "send_mode") {
            Some(JsonScalar::Str(s)) => s.clone(),
            _ => {
                return Err(LibError::InternalServerError);
            },
        };
        let template = match crate::send_modes::send_mode::field_get(fields, "template") {
            Some(JsonScalar::Str(s)) => s.clone(),
            _ => {
                return Err(LibError::InternalServerError);
            },
        };
        let search_by = match crate::send_modes::send_mode::field_get(fields, "search_by") {
            Some(JsonScalar::Str(s)) => s.clone(),
            _ => {
                return Err(LibError::InternalServerError);
            },
        };
        let has_requisite = match crate::send_modes::send_mode::field_get(fields, "has_requisite") {
            Some(JsonScalar::Bool(b)) => *b,
            _ => {
                return Err(LibError::InternalServerError);
            },
        };
        let has_balance = match crate::send_modes::send_mode::field_get(fields, "has_balance") {
            Some(JsonScalar::Bool(b)) => *b,
            _ => {
                return Err(LibError::InternalServerError);
            },
        };
        let notification_type = match crate::send_modes::send_mode::field_get(
            fields,
            "notification_type",
        ) {
            Some(JsonScalar::Str(s)) => s.clone(),
            _ => {
                return Err(LibError::InternalServerError);
            },
        };
        let source = match crate::send_modes::send_mode::field_get(fields, "source") {
            Some(JsonScalar::Str(s)) => s.clone(),
            _ => {
                return Err(LibError::InternalServerError);
            },
        };
        let need_to_replace_comma = match crate::send_modes::send_mode::field_get(
            fields,
            "need_to_replace_comma",
        ) {
            Some(JsonScalar::Bool(b)) => *b,
            _ => {
                return Err(LibError::InternalServerError);
            },
        };
        let send_mode = match SendModeEnum::decode(kind_text.as_str()) {
            Ok(k) => k,
            Err(_) => {
                return Err(LibError::InvalidDeviceMode);
            },
        };
        Ok(
            NotificationTemplate {
                bank,
                send_mode,
                template,
                search_by,
                has_requisite,
                has_balance,
                notification_type,
                source,
                need_to_replace_comma,
            },
        )
    }

    /// Reads a template out of its JSON wire text.
    pub fn from_json(s: &str) -> (r: Result<NotificationTemplate, LibError>)
        ensures
            match r {
                Ok(t) => spec_template_decode(s@) == Ok::<NotificationTemplateV, LibError>(t@),
                Err(e) => spec_template_decode(s@) == Err::<NotificationTemplateV, LibError>(e),
            },
    {
        let chars = crate::strutil::string_to_chars(s);
        match crate::json::parse_obj(&chars) {
            None => Err(LibError::InternalServerError),
            Some(fields) => NotificationTemplate::from_fields(&fields),
        }
    }

    /// Reads a template out of a relational row.
    pub fn from_row(row: &SqlRow) -> (r: Result<NotificationTemplate, LibError>)
        ensures
            match r {
                Ok(t) => spec_template_from_row(row@) == Ok::<NotificationTemplateV, LibError>(
                    t@,
                ),
                Err(e) => spec_template_from_row(row@) == Err::<NotificationTemplateV, LibError>(
                    e,
                ),
            },
    {
        let bank = match row.get("bank") {
            Some(SqlValue::Text(s)) => s.clone(),
            _ => {
                return Err(LibError::InternalServerError);
            },
        };
        let kind_text = match row.get("send_mode") {
            Some(SqlValue::Text(s)) => s.clone(),
            _ => {
                return Err(LibError::InternalServerError);
            },
        };
        let template = match row.get("template") {
            Some(SqlValue::Text(s)) => s.clone(),
            _ => {
                return Err(LibError::InternalServerError);
            },
        };
        let search_by = match row.get("search_by") {
            Some(SqlValue::Text(s)) => s.clone(),
            _ => {
                return Err(LibError::InternalServerError);
            },
        };
        let has_requisite = match row.get("has_requisite") {
            Some(SqlValue::Boolean(b)) => *b,
            _ => {
                return Err(LibError::InternalServerError);
            },
        };
        let has_balance = match row.get("has_balance") {
            Some(SqlValue::Boolean(b)) => *b,
            _ => {
                return Err(LibError::InternalServerError);
            },
        };
        let notification_type = match row.get("notification_type") {
            Some(SqlValue::Text(s)) => s.clone(),
            _ => {
                return Err(LibError::InternalServerError);
            },
        };
        let source = match row.get("source") {
            Some(SqlValue::Text(s)) => s.clone(),
            _ => {
                return Err(LibError::InternalServerError);
            },
        };
        let need_to_replace_comma = match row.get("need_to_replace_comma") {
            Some(SqlValue::Boolean(b)) => *b,
            _ => {
                return Err(LibError::InternalServerError);
            },
        };
        let send_mode = match SendModeEnum::decode(kind_text.as_str()) {
            Ok(k) => k,
            Err(_) => {
                return Err(LibError::InvalidDeviceMode);
            },
        };
        Ok(
            NotificationTemplate {
                bank,
                send_mode,
                template,
                search_by,
                has_requisite,
                has_balance,
                notification_type,
                source,
                need_to_replace_comma,
            },
        )
    }

    /// Decodes a cached template value; only a binary/bulk payload can
    /// hold one, and any other shape is a decode-type failure.
    pub fn from_redis_value(v: &CacheValue) -> (r: Result<NotificationTemplate, LibError>)
        ensures
            match (v@, r) {
                (CacheValueV::Bulk(b), Ok(t)) => vstd::utf8::valid_utf8(b)
                    && spec_template_decode(vstd::utf8::decode_utf8(b)) == Ok::<
                    NotificationTemplateV,
                    LibError,
                >(t@),
                (CacheValueV::Bulk(b), Err(e)) => (vstd::utf8::valid_utf8(b)
                    ==> spec_template_decode(vstd::utf8::decode_utf8(b)) == Err::<
                    NotificationTemplateV,
                    LibError,
                >(e)) && (!vstd::utf8::valid_utf8(b) ==> e == LibError::InternalServerError),
                (_, Err(e)) => e == LibError::InternalServerError,
                (_, Ok(_)) => false,
            },
    {
        match v {
            CacheValue::Bulk(b) => match crate::trusted::bytes_to_string(b) {
                Some(s) => NotificationTemplate::from_json(s.as_str()),
                None => Err(LibError::InternalServerError),
            },
            _ => Err(LibError::InternalServerError),
        }
    }

    /// Appends this template's cache argument: one binary payload
    /// holding the template's JSON document in UTF-8.
    pub fn write_redis_args(&self, out: &mut Vec<Vec<u8>>)
        ensures
            final(out)@.len() == old(out)@.len() + 1,
            final(out)@ == old(out)@.push(final(out)@[old(out)@.len() as int]),
            ({
                let arg = final(out)@[old(out)@.len() as int]@;
                vstd::utf8::valid_utf8(arg) && vstd::utf8::decode_utf8(arg) == spec_template_json(
                    self@,
                )
            }),
    {
        let json = self.to_json();
        let bytes = crate::trusted::string_into_bytes(json);
        out.push(bytes);
        proof {
            assert(out@ =~= old(out)@.push(out@[old(out)@.len() as int]));
        }
    }
}

/// A template's JSON encoding decodes back to the same value, for every
/// template.
pub proof fn lemma_template_json_round_trip(t: NotificationTemplateV)
    ensures
        spec_template_decode(spec_template_json(t)) == Ok::<NotificationTemplateV, LibError>(t),
{
    reveal_strlit("bank");
    reveal_strlit("send_mode");
    reveal_strlit("template");
    reveal_strlit("search_by");
    reveal_strlit("has_requisite");
    reveal_strlit("has_balance");
    reveal_strlit("notification_type");
    reveal_strlit("source");
    reveal_strlit("need_to_replace_comma");
    let fs = template_fields(t);
    assert("bank"@.len() == 4);
    assert("send_mode"@.len() == 9);
    assert("template"@.len() == 8);
    assert("search_by"@.len() == 9);
    assert("has_requisite"@.len() == 13);
    assert("has_balance"@.len() == 11);
    assert("notification_type"@.len() == 17);
    assert("source"@.len() == 6);
    assert("need_to_replace_comma"@.len() == 21);
    assert("send_mode"@ != "search_by"@) by {
        assert("send_mode"@[2] == 'n');
        assert("search_by"@[2] == 'a');
    }
    assert(wf_fields(fs));
    lemma_lookup_at(fs, "bank"@, 0);
    lemma_lookup_at(fs, "send_mode"@, 1);
    lemma_lookup_at(fs, "template"@, 2);
    lemma_lookup_at(fs, "search_by"@, 3);
    lemma_lookup_at(fs, "has_requisite"@, 4);
    lemma_lookup_at(fs, "has_balance"@, 5);
    lemma_lookup_at(fs, "notification_type"@, 6);
    lemma_lookup_at(fs, "source"@, 7);
    lemma_lookup_at(fs, "need_to_replace_comma"@, 8);
    crate::send_modes::send_mode::lemma_send_mode_kind_round_trip(t.send_mode);
    crate::json::lemma_obj_round_trip(fs);
    let s = spec_template_json(t);
    assert(sp_obj(s, 0) == Some((fs, s.len() as int)));
    assert(spec_template_from_fields(fs) == Ok::<NotificationTemplateV, LibError>(t));
}

} // verus!
