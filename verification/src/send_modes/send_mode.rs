use vstd::prelude::*;
use crate::json::{field_lookup, lemma_lookup_at, lemma_lookup_none, ser_obj, sp_obj, wf_fields, FieldV, JsonField, JsonScalar, ScalarV};
use crate::send_modes::error::LibError;
use crate::strutil::str_eq;
use crate::row::{row_lookup, SqlColumnV, SqlRow, SqlValue, SqlValueV};
use crate::cache::{CacheValue, CacheValueV};

verus! {

/// The closed set of send-mode kinds, encoded as the strings "KRAFT" and
/// "TRADEMO" in JSON and as the same text in a relational varchar/text
/// column. Decoding an out-of-set string fails with `InvalidDeviceMode`.
#[derive(Debug, Clone, Copy, PartialEq, Eq, Structural)]
pub enum SendModeEnum {
    KRAFT,
    TRADEMO,
}

impl SendModeEnum {
    /// The canonical string of this kind, shared by the JSON and SQL
    /// representations.
    pub open spec fn spec_str(self) -> Seq<char> {
        match self {
            SendModeEnum::KRAFT => "KRAFT"@,
            SendModeEnum::TRADEMO => "TRADEMO"@,
        }
    }

    /// What decoding a string yields: the matching kind, or
    /// `InvalidDeviceMode` for any out-of-set string.
    pub open spec fn spec_decode(s: Seq<char>) -> Result<SendModeEnum, LibError> {
        if s == "KRAFT"@ {
            Ok(SendModeEnum::KRAFT)
        } else if s == "TRADEMO"@ {
            Ok(SendModeEnum::TRADEMO)
        } else {
            Err(LibError::InvalidDeviceMode)
        }
    }

    /// The canonical SQL text-column bytes of this kind (ASCII of
    /// `spec_str`).
    pub open spec fn spec_sql_bytes(self) -> Seq<u8> {
        match self {
            SendModeEnum::KRAFT => seq![75u8, 82u8, 65u8, 70u8, 84u8],
            SendModeEnum::TRADEMO => seq![84u8, 82u8, 65u8, 68u8, 69u8, 77u8, 79u8],
        }
    }

    /// What decoding a SQL text-column value yields.
    pub open spec fn spec_from_sql(raw: Seq<u8>) -> Result<SendModeEnum, LibError> {
        if raw == SendModeEnum::KRAFT.spec_sql_bytes() {
            Ok(SendModeEnum::KRAFT)
        } else if raw == SendModeEnum::TRADEMO.spec_sql_bytes() {
            Ok(SendModeEnum::TRADEMO)
        } else {
            Err(LibError::InvalidDeviceMode)
        }
    }

    /// Encodes the kind as its canonical string; total on the enum.
    pub fn encode(&self) -> (r: String)
        ensures
            r@ == self.spec_str(),
    {
        match self {
            SendModeEnum::KRAFT => "KRAFT".to_owned(),
            SendModeEnum::TRADEMO => "TRADEMO".to_owned(),
        }
    }

    /// Decodes a string; an unrecognized string is an explicit
    /// `InvalidDeviceMode` error, never a panic.
    pub fn decode(s: &str) -> (r: Result<SendModeEnum, LibError>)
        ensures
            r == SendModeEnum::spec_decode(s@),
    {
        if str_eq(s, "KRAFT") {
            Ok(SendModeEnum::KRAFT)
        } else if str_eq(s, "TRADEMO") {
            Ok(SendModeEnum::TRADEMO)
        } else {
            Err(LibError::InvalidDeviceMode)
        }
    }

    /// Appends the SQL text-column bytes of this kind to `out`.
    pub fn to_sql(&self, out: &mut Vec<u8>)
        ensures
            final(out)@ == old(out)@ + self.spec_sql_bytes(),
    {
        match self {
            SendModeEnum::KRAFT => {
                out.push(75);
                out.push(82);
                out.push(65);
                out.push(70);
                out.push(84);
            },
            SendModeEnum::TRADEMO => {
                out.push(84);
                out.push(82);
                out.push(65);
                out.push(68);
                out.push(69);
                out.push(77);
                out.push(79);
            },
        }
        proof {
            assert(out@ =~= old(out)@ + self.spec_sql_bytes());
        }
    }

    /// Decodes a SQL text-column value; an unrecognized value is an
    /// explicit `InvalidDeviceMode` error (the whole-row conversion does
    /// not abort).
    pub fn from_sql(raw: &[u8]) -> (r: Result<SendModeEnum, LibError>)
        ensures
            r == SendModeEnum::spec_from_sql(raw@),
    {
        if raw.len() == 5 && raw[0] == 75 && raw[1] == 82 && raw[2] == 65 && raw[3] == 70
            && raw[4] == 84 {
            proof {
                assert(raw@ =~= SendModeEnum::KRAFT.spec_sql_bytes());
            }
            Ok(SendModeEnum::KRAFT)
        } else if raw.len() == 7 && raw[0] == 84 && raw[1] == 82 && raw[2] == 65 && raw[3] == 68
            && raw[4] == 69 && raw[5] == 77 && raw[6] == 79 {
            proof {
                assert(raw@ =~= SendModeEnum::TRADEMO.spec_sql_bytes());
            }
            Ok(SendModeEnum::TRADEMO)
        } else {
            proof {
                if raw@ == SendModeEnum::KRAFT.spec_sql_bytes() {
                    assert(raw@.len() == 5);
                    assert(raw@[0] == 75u8 && raw@[1] == 82u8 && raw@[2] == 65u8 && raw@[3]
                        == 70u8 && raw@[4] == 84u8);
                }
                if raw@ == SendModeEnum::TRADEMO.spec_sql_bytes() {
                    assert(raw@.len() == 7);
                    assert(raw@[0] == 84u8 && raw@[1] == 82u8 && raw@[2] == 65u8 && raw@[3]
                        == 68u8 && raw@[4] == 69u8 && raw@[5] == 77u8 && raw@[6] == 79u8);
                }
            }
            Err(LibError::InvalidDeviceMode)
        }
    }
}

/// Decoding inverts encoding for every valid kind value, in both the
/// JSON/string representation and the SQL text representation.
pub proof fn lemma_send_mode_kind_round_trip(v: SendModeEnum)
    ensures
        SendModeEnum::spec_decode(v.spec_str()) == Ok::<SendModeEnum, LibError>(v),
        SendModeEnum::spec_from_sql(v.spec_sql_bytes()) == Ok::<SendModeEnum, LibError>(v),
{
    reveal_strlit("KRAFT");
    reveal_strlit("TRADEMO");
    assert("KRAFT"@.len() == 5);
    assert("TRADEMO"@.len() == 7);
    assert(SendModeEnum::KRAFT.spec_sql_bytes().len() == 5);
    assert(SendModeEnum::TRADEMO.spec_sql_bytes().len() == 7);
}

/// A named, access-controlled channel instance.
///
/// `private_key`, when present, holds the key's PKCS#1 PEM text with LF
/// line endings; `last_heartbeat` holds the UTC timestamp as RFC 3339
/// text. Both are validated through the outside crates that own those
/// formats when an entity is decoded.
#[derive(Debug, Clone, PartialEq, Eq)]
pub struct SendMode {
    pub id: String,
    pub aggregate_id: String,
    pub name: String,
    pub send_mode: SendModeEnum,
    pub access_token: String,
    pub fingerprint: Option<String>,
    pub private_key: Option<String>,
    pub auto_heartbeat_interval: Option<i32>,
    pub last_heartbeat: String,
}

/// The mathematical value of a `SendMode`: every text field as its
/// character sequence.
pub struct SendModeV {
    pub id: Seq<char>,
    pub aggregate_id: Seq<char>,
    pub name: Seq<char>,
    pub send_mode: SendModeEnum,
    pub access_token: Seq<char>,
    pub fingerprint: Option<Seq<char>>,
    pub private_key: Option<Seq<char>>,
    pub auto_heartbeat_interval: Option<i32>,
    pub last_heartbeat: Seq<char>,
}

impl DeepView for SendMode {
    type V = SendModeV;

    open spec fn deep_view(&self) -> SendModeV {
        self.view()
    }
}

impl View for SendMode {
    type V = SendModeV;

    open spec fn view(&self) -> SendModeV {
        SendModeV {
            id: self.id@,
            aggregate_id: self.aggregate_id@,
            name: self.name@,
            send_mode: self.send_mode,
            access_token: self.access_token@,
            fingerprint: self.fingerprint.deep_view(),
            private_key: self.private_key.deep_view(),
            auto_heartbeat_interval: self.auto_heartbeat_interval,
            last_heartbeat: self.last_heartbeat@,
        }
    }
}

/// Creation payload, produced by a caller and consumed by the API client.
#[derive(Debug, Clone, PartialEq, Eq)]
pub struct NewSendModeRequest {
    pub aggregate_id: String,
    pub name: String,
    pub mode: SendModeEnum,
    pub access_token: String,
    pub auto_heartbeat_interval: Option<i32>,
}

/// The mathematical value of a `NewSendModeRequest`.
pub struct NewSendModeRequestV {
    pub aggregate_id: Seq<char>,
    pub name: Seq<char>,
    pub mode: SendModeEnum,
    pub access_token: Seq<char>,
    pub auto_heartbeat_interval: Option<i32>,
}

impl View for NewSendModeRequest {
    type V = NewSendModeRequestV;

    open spec fn view(&self) -> NewSendModeRequestV {
        NewSendModeRequestV {
            aggregate_id: self.aggregate_id@,
            name: self.name@,
            mode: self.mode,
            access_token: self.access_token@,
            auto_heartbeat_interval: self.auto_heartbeat_interval,
        }
    }
}

/// Rename payload: the send-mode id and its new name.
#[derive(Debug, Clone, PartialEq, Eq)]
pub struct RenameSendModeRequest {
    pub id: String,
    pub name: String,
}

// ---------------------------------------------------------------------------
// JSON transcoding
// ---------------------------------------------------------------------------

/// An optional text as a JSON value: the text, or null.
pub open spec fn opt_str_scalar(o: Option<Seq<char>>) -> ScalarV {
    match o {
        Some(s) => ScalarV::Str(s),
        None => ScalarV::Null,
    }
}

/// An optional interval as a JSON value: the number, or null.
pub open spec fn opt_int_scalar(o: Option<i32>) -> ScalarV {
    match o {
        Some(n) => ScalarV::Int(n as int),
        None => ScalarV::Null,
    }
}

/// The JSON members of a send mode, in wire order. A present private key
/// stands as its PEM text; an absent one has no member at all.
pub open spec fn send_mode_fields(m: SendModeV) -> Seq<FieldV> {
    let head = seq![
        FieldV { key: "id"@, value: ScalarV::Str(m.id) },
        FieldV { key: "aggregate_id"@, value: ScalarV::Str(m.aggregate_id) },
        FieldV { key: "name"@, value: ScalarV::Str(m.name) },
        FieldV { key: "send_mode"@, value: ScalarV::Str(m.send_mode.spec_str()) },
        FieldV { key: "access_token"@, value: ScalarV::Str(m.access_token) },
        FieldV { key: "fingerprint"@, value: opt_str_scalar(m.fingerprint) },
    ];
    let with_key = match m.private_key {
        Some(p) => head.push(FieldV { key: "private_key"@, value: ScalarV::Str(p) }),
        None => head,
    };
    with_key + seq![
        FieldV {
            key: "auto_heartbeat_interval"@,
            value: opt_int_scalar(m.auto_heartbeat_interval),
        },
        FieldV { key: "last_heartbeat"@, value: ScalarV::Str(m.last_heartbeat) },
    ]
}

/// The JSON wire text of a send mode.
pub open spec fn spec_send_mode_json(m: SendModeV) -> Seq<char> {
    ser_obj(send_mode_fields(m))
}

/// Reads an optional text member: absent or null is `None`; any
/// non-string value is a decode failure.
pub open spec fn spec_opt_str_field(v: Option<ScalarV>) -> Result<Option<Seq<char>>, LibError> {
    match v {
        None => Ok(None),
        Some(ScalarV::Null) => Ok(None),
        Some(ScalarV::Str(s)) => Ok(Some(s)),
        Some(_) => Err(LibError::InternalServerError),
    }
}

/// Reads an optional interval member: absent or null is `None`; a number
/// outside the `i32` range, or any non-number, is a decode failure.
pub open spec fn spec_opt_int_field(v: Option<ScalarV>) -> Result<Option<i32>, LibError> {
    match v {
        None => Ok(None),
        Some(ScalarV::Null) => Ok(None),
        Some(ScalarV::Int(n)) => if i32::MIN <= n <= i32::MAX {
            Ok(Some(n as i32))
        } else {
            Err(LibError::InternalServerError)
        },
        Some(_) => Err(LibError::InternalServerError),
    }
}

/// What decoding a member list as a send mode yields: every required
/// member present as text, the kind in the closed set (else
/// `InvalidDeviceMode`), a present private key in valid PEM form and a
/// well-formed RFC 3339 heartbeat (else `InternalError`).
pub open spec fn spec_send_mode_from_fields(fs: Seq<FieldV>) -> Result<SendModeV, LibError> {
    match (
        field_lookup(fs, "id"@),
        field_lookup(fs, "aggregate_id"@),
        field_lookup(fs, "name"@),
        field_lookup(fs, "send_mode"@),
        field_lookup(fs, "access_token"@),
        field_lookup(fs, "last_heartbeat"@),
    ) {
        (
            Some(ScalarV::Str(id)),
            Some(ScalarV::Str(agg)),
            Some(ScalarV::Str(nm)),
            Some(ScalarV::Str(ks)),
            Some(ScalarV::Str(tok)),
            Some(ScalarV::Str(hb)),
        ) => match (
            SendModeEnum::spec_decode(ks),
            spec_opt_str_field(field_lookup(fs, "fingerprint"@)),
            spec_opt_str_field(field_lookup(fs, "private_key"@)),
            spec_opt_int_field(field_lookup(fs, "auto_heartbeat_interval"@)),
        ) {
            (Ok(kind), Ok(fp), Ok(pk), Ok(ahi)) => if (pk matches Some(p) && !crate::trusted::pem_key_ok(p)) {
                Err(LibError::InternalServerError)
            } else if !crate::trusted::rfc3339_ok(hb) {
                Err(LibError::InternalServerError)
            } else {
                Ok(
                    SendModeV {
                        id: id,
                        aggregate_id: agg,
                        name: nm,
                        send_mode: kind,
                        access_token: tok,
                        fingerprint: fp,
                        private_key: pk,
                        auto_heartbeat_interval: ahi,
                        last_heartbeat: hb,
                    },
                )
            },
            (Err(_), _, _, _) => Err(LibError::InvalidDeviceMode),
            _ => Err(LibError::InternalServerError),
        },
        _ => Err(LibError::InternalServerError),
    }
}

/// What decoding a JSON text as a send mode yields: a full parse of the
/// whole text, then the member reading above; anything else is
/// `InternalError`.
pub open spec fn spec_send_mode_decode(s: Seq<char>) -> Result<SendModeV, LibError> {
    match sp_obj(s, 0) {
        Some((fs, j)) => if j == s.len() {
            spec_send_mode_from_fields(fs)
        } else {
            Err(LibError::InternalServerError)
        },
        None => Err(LibError::InternalServerError),
    }
}

/// Encodes an optional PEM-encoded private key as its JSON value: the
/// PEM text, or null. Mirrors how the key member is written on the wire.
pub fn rsa_serialize(key: &Option<String>) -> (r: JsonScalar)
    ensures
        r@ == opt_str_scalar(match key {
            Some(p) => Some(p@),
            None => None,
        }),
{
    match key {
        Some(p) => JsonScalar::Str(p.clone()),
        None => JsonScalar::Null,
    }
}

/// Decodes an optional PEM member: absent or null is an absent key; a
/// string must be valid PKCS#1 PEM, else the decode fails with
/// `InternalError`.
pub fn rsa_deserialize(v: Option<&JsonScalar>) -> (r: Result<Option<String>, LibError>)
    ensures
        ({
            let vv = match v {
                Some(x) => Some(x@),
                None => None,
            };
            match r {
                Ok(pk) => spec_opt_str_field(vv) == Ok::<Option<Seq<char>>, LibError>(
                    match pk {
                        Some(p) => Some(p@),
                        None => None,
                    },
                ) && (pk matches Some(p) ==> crate::trusted::pem_key_ok(p@)),
                Err(e) => e == LibError::InternalServerError && (match spec_opt_str_field(vv) {
                    Ok(o) => o matches Some(p) && !crate::trusted::pem_key_ok(p),
                    Err(_) => true,
                }),
            }
        }),
{
    match v {
        None => Ok(None),
        Some(JsonScalar::Null) => Ok(None),
        Some(JsonScalar::Str(p)) => {
            if crate::trusted::pem_private_key_ok(p.as_str()) {
                Ok(Some(p.clone()))
            } else {
                Err(LibError::InternalServerError)
            }
        },
        Some(_) => Err(LibError::InternalServerError),
    }
}

impl SendMode {
    /// Writes this send mode as its JSON wire text.
    pub fn to_json(&self) -> (r: String)
        ensures
            r@ == spec_send_mode_json(self@),
    {
        let mut fs: Vec<JsonField> = Vec::new();
        fs.push(JsonField { key: "id".to_owned(), value: JsonScalar::Str(self.id.clone()) });
        fs.push(
            JsonField {
                key: "aggregate_id".to_owned(),
                value: JsonScalar::Str(self.aggregate_id.clone()),
            },
        );
        fs.push(JsonField { key: "name".to_owned(), value: JsonScalar::Str(self.name.clone()) });
        fs.push(
            JsonField { key: "send_mode".to_owned(), value: JsonScalar::Str(self.send_mode.encode()) },
        );
        fs.push(
            JsonField {
                key: "access_token".to_owned(),
                value: JsonScalar::Str(self.access_token.clone()),
            },
        );
        match &self.fingerprint {
            Some(fp) => fs.push(
                JsonField { key: "fingerprint".to_owned(), value: JsonScalar::Str(fp.clone()) },
            ),
            None => fs.push(JsonField { key: "fingerprint".to_owned(), value: JsonScalar::Null }),
        }
        match &self.private_key {
            Some(pk) => fs.push(rsa_key_field(pk)),
            None => (),
        }
        match self.auto_heartbeat_interval {
            Some(n) => fs.push(
                JsonField {
                    key: "auto_heartbeat_interval".to_owned(),
                    value: JsonScalar::Int(n as i64),
                },
            ),
            None => fs.push(
                JsonField { key: "auto_heartbeat_interval".to_owned(), value: JsonScalar::Null },
            ),
        }
        fs.push(
            JsonField {
                key: "last_heartbeat".to_owned(),
                value: JsonScalar::Str(self.last_heartbeat.clone()),
            },
        );
        proof {
            assert(fs.deep_view() =~= send_mode_fields(self@));
        }
        let chars = crate::json::write_obj(&fs);
        crate::trusted::chars_to_string(&chars)
    }

    /// Reads a send mode out of parsed JSON members.
    pub fn from_fields(fields: &Vec<JsonField>) -> (r: Result<SendMode, LibError>)
        ensures
            match r {
                Ok(m) => spec_send_mode_from_fields(fields.deep_view()) == Ok::<
                    SendModeV,
                    LibError,
                >(m@),
                Err(e) => spec_send_mode_from_fields(fields.deep_view()) == Err::<
                    SendModeV,
                    LibError,
                >(e),
            },
    {
        let id = match field_get(fields, "id") {
            Some(JsonScalar::Str(s)) => s.clone(),
            _ => {
                return Err(LibError::InternalServerError);
            },
        };
        let aggregate_id = match field_get(fields, "aggregate_id") {
            Some(JsonScalar::Str(s)) => s.clone(),
            _ => {
                return Err(LibError::InternalServerError);
            },
        };
        let name = match field_get(fields, "name") {
            Some(JsonScalar::Str(s)) => s.clone(),
            _ => {
                return Err(LibError::InternalServerError);
            },
        };
        let kind_text = match field_get(fields, "send_mode") {
            Some(JsonScalar::Str(s)) => s.clone(),
            _ => {
                return Err(LibError::InternalServerError);
            },
        };
        let access_token = match field_get(fields, "access_token") {
            Some(JsonScalar::Str(s)) => s.clone(),
            _ => {
                return Err(LibError::InternalServerError);
            },
        };
        let last_heartbeat = match field_get(fields, "last_heartbeat") {
            Some(JsonScalar::Str(s)) => s.clone(),
            _ => {
                return Err(LibError::InternalServerError);
            },
        };
        let send_mode = match SendModeEnum::decode(kind_text.as_str()) {
            Ok(k) => k,
            Err(e) => {
                return Err(e);
            },
        };
        let fingerprint = match field_get(fields, "fingerprint") {
            None => None,
            Some(JsonScalar::Null) => None,
            Some(JsonScalar::Str(s)) => Some(s.clone()),
            Some(_) => {
                return Err(LibError::InternalServerError);
            },
        };
        let private_key = match rsa_deserialize(field_get(fields, "private_key")) {
            Ok(pk) => pk,
            Err(e) => {
                return Err(e);
            },
        };
        let auto_heartbeat_interval = match field_get(fields, "auto_heartbeat_interval") {
            None => None,
            Some(JsonScalar::Null) => None,
            Some(JsonScalar::Int(n)) => {
                let v: i64 = *n;
                if i32::MIN as i64 <= v && v <= i32::MAX as i64 {
                    Some(v as i32)
                } else {
                    return Err(LibError::InternalServerError);
                }
            },
            Some(_) => {
                return Err(LibError::InternalServerError);
            },
        };
        if !crate::trusted::rfc3339_parses(last_heartbeat.as_str()) {
            return Err(LibError::InternalServerError);
        }
        Ok(
            SendMode {
                id,
                aggregate_id,
                name,
                send_mode,
                access_token,
                fingerprint,
                private_key,
                auto_heartbeat_interval,
                last_heartbeat,
            },
        )
    }

    /// Reads a send mode out of its JSON wire text; the whole text must
    /// be one object in the canonical compact form.
    pub fn from_json(s: &str) -> (r: Result<SendMode, LibError>)
        ensures
            match r {
                Ok(m) => spec_send_mode_decode(s@) == Ok::<SendModeV, LibError>(m@),
                Err(e) => spec_send_mode_decode(s@) == Err::<SendModeV, LibError>(e),
            },
    {
        let chars = crate::strutil::string_to_chars(s);
        match crate::json::parse_obj(&chars) {
            None => Err(LibError::InternalServerError),
            Some(fields) => SendMode::from_fields(&fields),
        }
    }
}

/// The JSON member carrying a present private key.
fn rsa_key_field(pem: &String) -> (r: JsonField)
    ensures
        r@ == (FieldV { key: "private_key"@, value: ScalarV::Str(pem@) }),
{
    JsonField { key: "private_key".to_owned(), value: JsonScalar::Str(pem.clone()) }
}

/// Finds the first member named `key`.
pub fn field_get<'a>(fields: &'a Vec<JsonField>, key: &str) -> (r: Option<&'a JsonScalar>)
    ensures
        match r {
            Some(v) => field_lookup(fields.deep_view(), key@) == Some(v@),
            None => field_lookup(fields.deep_view(), key@) is None,
        },
{
    let n: usize = fields.len();
    let mut i: usize = 0;
    proof {
        assert(fields.deep_view().skip(0) =~= fields.deep_view());
    }
    while i < n
        invariant
            n == fields@.len(),
            i <= n,
            field_lookup(fields.deep_view(), key@) == field_lookup(
                fields.deep_view().skip(i as int),
                key@,
            ),
        decreases n - i,
    {
        if crate::strutil::str_eq(fields[i].key.as_str(), key) {
            proof {
                assert(fields.deep_view().skip(i as int)[0] == fields.deep_view()[i as int]);
            }
            return Some(&fields[i].value);
        }
        proof {
            assert(fields.deep_view().skip(i as int)[0] == fields.deep_view()[i as int]);
            assert(fields.deep_view().skip(i as int).skip(1) =~= fields.deep_view().skip(i + 1));
        }
        i += 1;
    }
    proof {
        assert(fields.deep_view().skip(n as int).len() == 0);
    }
    None
}

/// Whether a send mode's optional key and timestamp are valid in the
/// forms the decoder checks: a present private key parses as PKCS#1 PEM
/// and the heartbeat is well-formed RFC 3339 text.
pub open spec fn spec_send_mode_checked(m: SendModeV) -> bool {
    &&& (match m.private_key {
        Some(p) => crate::trusted::pem_key_ok(p),
        None => true,
    })
    &&& crate::trusted::rfc3339_ok(m.last_heartbeat)
}

/// A send mode's wire members read back as the same value: reading the
/// members written for `m` yields `m` whenever its key and timestamp
/// pass the decoder's checks, and an absent private key has no member
/// at all.
pub proof fn lemma_send_mode_fields_round_trip(m: SendModeV)
    ensures
        wf_fields(send_mode_fields(m)),
        spec_send_mode_checked(m) ==> spec_send_mode_from_fields(send_mode_fields(m)) == Ok::<
            SendModeV,
            LibError,
        >(m),
        m.private_key is None ==> field_lookup(send_mode_fields(m), "private_key"@) is None,
{
    reveal_strlit("id");
    reveal_strlit("aggregate_id");
    reveal_strlit("name");
    reveal_strlit("send_mode");
    reveal_strlit("access_token");
    reveal_strlit("fingerprint");
    reveal_strlit("private_key");
    reveal_strlit("auto_heartbeat_interval");
    reveal_strlit("last_heartbeat");
    let fs = send_mode_fields(m);
    assert("id"@.len() == 2);
    assert("aggregate_id"@.len() == 12);
    assert("name"@.len() == 4);
    assert("send_mode"@.len() == 9);
    assert("access_token"@.len() == 12);
    assert("fingerprint"@.len() == 11);
    assert("private_key"@.len() == 11);
    assert("auto_heartbeat_interval"@.len() == 23);
    assert("last_heartbeat"@.len() == 14);
    assert("aggregate_id"@ != "access_token"@) by {
        assert("aggregate_id"@[1] == 'g');
        assert("access_token"@[1] == 'c');
    }
    assert("fingerprint"@ != "private_key"@) by {
        assert("fingerprint"@[0] == 'f');
        assert("private_key"@[0] == 'p');
    }
    let f_ahi = FieldV {
        key: "auto_heartbeat_interval"@,
        value: opt_int_scalar(m.auto_heartbeat_interval),
    };
    let f_hb = FieldV { key: "last_heartbeat"@, value: ScalarV::Str(m.last_heartbeat) };
    match m.private_key {
        None => {
            let ex = seq![
                FieldV { key: "id"@, value: ScalarV::Str(m.id) },
                FieldV { key: "aggregate_id"@, value: ScalarV::Str(m.aggregate_id) },
                FieldV { key: "name"@, value: ScalarV::Str(m.name) },
                FieldV { key: "send_mode"@, value: ScalarV::Str(m.send_mode.spec_str()) },
                FieldV { key: "access_token"@, value: ScalarV::Str(m.access_token) },
                FieldV { key: "fingerprint"@, value: opt_str_scalar(m.fingerprint) },
                f_ahi,
                f_hb,
            ];
            assert(fs =~= ex);
            assert(wf_fields(fs));
            lemma_lookup_at(fs, "id"@, 0);
            lemma_lookup_at(fs, "aggregate_id"@, 1);
            lemma_lookup_at(fs, "name"@, 2);
            lemma_lookup_at(fs, "send_mode"@, 3);
            lemma_lookup_at(fs, "access_token"@, 4);
            lemma_lookup_at(fs, "fingerprint"@, 5);
            lemma_lookup_none(fs, "private_key"@);
            lemma_lookup_at(fs, "auto_heartbeat_interval"@, 6);
            lemma_lookup_at(fs, "last_heartbeat"@, 7);
        },
        Some(p) => {
            let ex = seq![
                FieldV { key: "id"@, value: ScalarV::Str(m.id) },
                FieldV { key: "aggregate_id"@, value: ScalarV::Str(m.aggregate_id) },
                FieldV { key: "name"@, value: ScalarV::Str(m.name) },
                FieldV { key: "send_mode"@, value: ScalarV::Str(m.send_mode.spec_str()) },
                FieldV { key: "access_token"@, value: ScalarV::Str(m.access_token) },
                FieldV { key: "fingerprint"@, value: opt_str_scalar(m.fingerprint) },
                FieldV { key: "private_key"@, value: ScalarV::Str(p) },
                f_ahi,
                f_hb,
            ];
            assert(fs =~= ex);
            assert(wf_fields(fs));
            lemma_lookup_at(fs, "id"@, 0);
            lemma_lookup_at(fs, "aggregate_id"@, 1);
            lemma_lookup_at(fs, "name"@, 2);
            lemma_lookup_at(fs, "send_mode"@, 3);
            lemma_lookup_at(fs, "access_token"@, 4);
            lemma_lookup_at(fs, "fingerprint"@, 5);
            lemma_lookup_at(fs, "private_key"@, 6);
            lemma_lookup_at(fs, "auto_heartbeat_interval"@, 7);
            lemma_lookup_at(fs, "last_heartbeat"@, 8);
        },
    }
    lemma_send_mode_kind_round_trip(m.send_mode);
    if spec_send_mode_checked(m) {
        assert(spec_send_mode_from_fields(fs) == Ok::<SendModeV, LibError>(m));
    }
}

/// A send mode's JSON encoding decodes back to the same value: a present
/// private key (in valid PEM form) round-trips with its PEM text
/// unchanged, and an absent one has no JSON member at all and decodes
/// back to an absent key.
pub proof fn lemma_send_mode_json_round_trip(m: SendModeV)
    ensures
        spec_send_mode_checked(m) ==> spec_send_mode_decode(spec_send_mode_json(m)) == Ok::<
            SendModeV,
            LibError,
        >(m),
        m.private_key is None ==> field_lookup(send_mode_fields(m), "private_key"@) is None,
{
    lemma_send_mode_fields_round_trip(m);
    let fs = send_mode_fields(m);
    crate::json::lemma_obj_round_trip(fs);
    let s = spec_send_mode_json(m);
    assert(sp_obj(s, 0) == Some((fs, s.len() as int)));
}

// ---------------------------------------------------------------------------
// Relational-row and cache transcoding
// ---------------------------------------------------------------------------

/// What decoding a relational row as a send mode yields. Columns map to
/// fields by exact name; an out-of-set kind string is `InvalidDeviceMode`;
/// a private-key column whose text is not valid PEM is tolerated as an
/// absent key rather than failing the row; any missing or mistyped
/// column is `InternalError`.
pub open spec fn spec_send_mode_from_row(cols: Seq<SqlColumnV>) -> Result<SendModeV, LibError> {
    match (
        row_lookup(cols, "id"@),
        row_lookup(cols, "aggregate_id"@),
        row_lookup(cols, "name"@),
        row_lookup(cols, "send_mode"@),
        row_lookup(cols, "access_token"@),
        row_lookup(cols, "private_key"@),
        row_lookup(cols, "last_heartbeat"@),
    ) {
        (
            Some(SqlValueV::Text(id)),
            Some(SqlValueV::Text(agg)),
            Some(SqlValueV::Text(nm)),
            Some(SqlValueV::Text(ks)),
            Some(SqlValueV::Text(tok)),
            Some(SqlValueV::Text(pk)),
            Some(SqlValueV::Timestamp(hb)),
        ) => match (
            SendModeEnum::spec_decode(ks),
            crate::row::spec_opt_text_col(row_lookup(cols, "fingerprint"@)),
            crate::row::spec_opt_int_col(row_lookup(cols, "auto_heartbeat_interval"@)),
        ) {
            (Ok(kind), Ok(fp), Ok(ahi)) => Ok(
                SendModeV {
                    id: id,
                    aggregate_id: agg,
                    name: nm,
                    send_mode: kind,
                    access_token: tok,
                    fingerprint: fp,
                    private_key: if crate::trusted::pem_key_ok(pk) {
                        Some(pk)
                    } else {
                        None
                    },
                    auto_heartbeat_interval: ahi,
                    last_heartbeat: hb,
                },
            ),
            (Err(_), _, _) => Err(LibError::InvalidDeviceMode),
            _ => Err(LibError::InternalServerError),
        },
        _ => Err(LibError::InternalServerError),
    }
}

impl SendMode {
    /// Reads a send mode out of a relational row.
    pub fn from_row(row: &SqlRow) -> (r: Result<SendMode, LibError>)
        ensures
            match r {
                Ok(m) => spec_send_mode_from_row(row@) == Ok::<SendModeV, LibError>(m@),
                Err(e) => spec_send_mode_from_row(row@) == Err::<SendModeV, LibError>(e),
            },
    {
        let id = match row.get("id") {
            Some(SqlValue::Text(s)) => s.clone(),
            _ => {
                return Err(LibError::InternalServerError);
            },
        };
        let aggregate_id = match row.get("aggregate_id") {
            Some(SqlValue::Text(s)) => s.clone(),
            _ => {
                return Err(LibError::InternalServerError);
            },
        };
        let name = match row.get("name") {
            Some(SqlValue::Text(s)) => s.clone(),
            _ => {
                return Err(LibError::InternalServerError);
            },
        };
        let kind_text = match row.get("send_mode") {
            Some(SqlValue::Text(s)) => s.clone(),
            _ => {
                return Err(LibError::InternalServerError);
            },
        };
        let access_token = match row.get("access_token") {
            Some(SqlValue::Text(s)) => s.clone(),
            _ => {
                return Err(LibError::InternalServerError);
            },
        };
        let pem_text = match row.get("private_key") {
            Some(SqlValue::Text(s)) => s.clone(),
            _ => {
                return Err(LibError::InternalServerError);
            },
        };
        let last_heartbeat = match row.get("last_heartbeat") {
            Some(SqlValue::Timestamp(s)) => s.clone(),
            _ => {
                return Err(LibError::InternalServerError);
            },
        };
        let send_mode = match SendModeEnum::decode(kind_text.as_str()) {
            Ok(k) => k,
            Err(_) => {
                return Err(LibError::InvalidDeviceMode);
            },
        };
        let fingerprint = match row.get("fingerprint") {
            Some(SqlValue::Text(s)) => Some(s.clone()),
            Some(SqlValue::Null) => None,
            _ => {
                return Err(LibError::InternalServerError);
            },
        };
        let auto_heartbeat_interval = match row.get("auto_heartbeat_interval") {
            Some(SqlValue::Int4(n)) => Some(*n),
            Some(SqlValue::Null) => None,
            _ => {
                return Err(LibError::InternalServerError);
            },
        };
        let private_key = if crate::trusted::pem_private_key_ok(pem_text.as_str()) {
            Some(pem_text)
        } else {
            None
        };
        Ok(
            SendMode {
                id,
                aggregate_id,
                name,
                send_mode,
                access_token,
                fingerprint,
                private_key,
                auto_heartbeat_interval,
                last_heartbeat,
            },
        )
    }

    /// Decodes a cached entity value. Only a binary/bulk payload can
    /// hold an entity; any other reply shape, or a payload that is not
    /// UTF-8, is a decode-type failure, never a panic.
    pub fn from_redis_value(v: &CacheValue) -> (r: Result<SendMode, LibError>)
        ensures
            match (v@, r) {
                (CacheValueV::Bulk(b), Ok(m)) => vstd::utf8::valid_utf8(b)
                    && spec_send_mode_decode(vstd::utf8::decode_utf8(b)) == Ok::<
                    SendModeV,
                    LibError,
                >(m@),
                (CacheValueV::Bulk(b), Err(e)) => (vstd::utf8::valid_utf8(b)
                    ==> spec_send_mode_decode(vstd::utf8::decode_utf8(b)) == Err::<
                    SendModeV,
                    LibError,
                >(e)) && (!vstd::utf8::valid_utf8(b) ==> e == LibError::InternalServerError),
                (_, Err(e)) => e == LibError::InternalServerError,
                (_, Ok(_)) => false,
            },
    {
        match v {
            CacheValue::Bulk(b) => match crate::trusted::bytes_to_string(b) {
                Some(s) => SendMode::from_json(s.as_str()),
                None => Err(LibError::InternalServerError),
            },
            _ => Err(LibError::InternalServerError),
        }
    }

    /// Appends this entity's cache argument: one binary payload holding
    /// the entity's JSON document in UTF-8.
    pub fn write_redis_args(&self, out: &mut Vec<Vec<u8>>)
        ensures
            final(out)@.len() == old(out)@.len() + 1,
            final(out)@ == old(out)@.push(final(out)@[old(out)@.len() as int]),
            ({
                let arg = final(out)@[old(out)@.len() as int]@;
                vstd::utf8::valid_utf8(arg) && vstd::utf8::decode_utf8(arg)
                    == spec_send_mode_json(self@)
            }),
    {
        let json = self.to_json();
        let bytes = crate::trusted::string_into_bytes(json);
        out.push(bytes);
        proof {
            assert(out@ =~= old(out)@.push(out@[old(out)@.len() as int]));
        }
    }
}

/// The JSON members of a creation payload, in wire order.
pub open spec fn new_send_mode_fields(rv: NewSendModeRequestV) -> Seq<FieldV> {
    seq![
        FieldV { key: "aggregate_id"@, value: ScalarV::Str(rv.aggregate_id) },
        FieldV { key: "name"@, value: ScalarV::Str(rv.name) },
        FieldV { key: "mode"@, value: ScalarV::Str(rv.mode.spec_str()) },
        FieldV { key: "access_token"@, value: ScalarV::Str(rv.access_token) },
        FieldV {
            key: "auto_heartbeat_interval"@,
            value: opt_int_scalar(rv.auto_heartbeat_interval),
        },
    ]
}

/// The JSON wire text of a creation payload.
pub open spec fn spec_new_send_mode_json(rv: NewSendModeRequestV) -> Seq<char> {
    ser_obj(new_send_mode_fields(rv))
}

impl NewSendModeRequest {
    /// Writes this creation payload as its JSON wire text.
    pub fn to_json(&self) -> (r: String)
        ensures
            r@ == spec_new_send_mode_json(self@),
    {
        let mut fs: Vec<JsonField> = Vec::new();
        fs.push(
            JsonField {
                key: "aggregate_id".to_owned(),
                value: JsonScalar::Str(self.aggregate_id.clone()),
            },
        );
        fs.push(JsonField { key: "name".to_owned(), value: JsonScalar::Str(self.name.clone()) });
        fs.push(JsonField { key: "mode".to_owned(), value: JsonScalar::Str(self.mode.encode()) });
        fs.push(
            JsonField {
                key: "access_token".to_owned(),
                value: JsonScalar::Str(self.access_token.clone()),
            },
        );
        match self.auto_heartbeat_interval {
            Some(n) => fs.push(
                JsonField {
                    key: "auto_heartbeat_interval".to_owned(),
                    value: JsonScalar::Int(n as i64),
                },
            ),
            None => fs.push(
                JsonField { key: "auto_heartbeat_interval".to_owned(), value: JsonScalar::Null },
            ),
        }
        proof {
            assert(fs.deep_view() =~= new_send_mode_fields(self@));
        }
        let chars = crate::json::write_obj(&fs);
        crate::trusted::chars_to_string(&chars)
    }
}

/// The JSON members of a rename payload, in wire order.
pub open spec fn rename_fields(id: Seq<char>, name: Seq<char>) -> Seq<FieldV> {
    seq![
        FieldV { key: "id"@, value: ScalarV::Str(id) },
        FieldV { key: "name"@, value: ScalarV::Str(name) },
    ]
}

impl RenameSendModeRequest {
    /// Writes this rename payload as its JSON wire text.
    pub fn to_json(&self) -> (r: String)
        ensures
            r@ == ser_obj(rename_fields(self.id@, self.name@)),
    {
        let mut fs: Vec<JsonField> = Vec::new();
        fs.push(JsonField { key: "id".to_owned(), value: JsonScalar::Str(self.id.clone()) });
        fs.push(JsonField { key: "name".to_owned(), value: JsonScalar::Str(self.name.clone()) });
        proof {
            assert(fs.deep_view() =~= rename_fields(self.id@, self.name@));
        }
        let chars = crate::json::write_obj(&fs);
        crate::trusted::chars_to_string(&chars)
    }
}

} // verus!
