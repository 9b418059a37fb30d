//! The wire shape of every request and value: which fields it has, under
//! which names, and how a shape is read back.

use crate::converter::{SnowflakeType, TypedValue};
use crate::decimal::unsigned_text;
use crate::requests::{
    lemma_wf_positions_present, position_key, position_keys, CertRequestData, ClientEnvironment, ExecRequest, LoginRequest,
    LoginRequestCommon, PasswordRequestData, RenewSessionRequest, SessionParameters, StatementView,
};
use crate::wire::{
    bool_field, fields_view, lemma_fields_view, lemma_lookup_first, number_field, object_field,
    text_field, WireField, WireFieldView, WireValue, WireView,
};
use vstd::hash_map::StringHashMap;
use vstd::prelude::*;

verus! {

/// The wire shape of a typed value: an object with the tag under `type` and
/// the text under `value`.
pub open spec fn typed_wire(t: TypedValue) -> WireView {
    WireView::Object(seq![text_field("type"@, t.kind), text_field("value"@, t.value)])
}

/// The typed value that a wire value holds: its `type` and `value` fields,
/// where both are texts.
pub open spec fn typed_of_wire(w: WireView) -> Option<TypedValue> {
    match (w.field("type"@), w.field("value"@)) {
        (Some(WireView::Text(kind)), Some(WireView::Text(value))) => Some(
            TypedValue { kind, value },
        ),
        _ => None,
    }
}

/// Reading the wire shape of a typed value gives the typed value back.
pub proof fn lemma_typed_round_trip(t: TypedValue)
    ensures
        typed_of_wire(typed_wire(t)) == Some(t),
{
    let fields = seq![text_field("type"@, t.kind), text_field("value"@, t.value)];
    reveal_strlit("type");
    reveal_strlit("value");
    assert("type"@ != "value"@) by {
        assert("type"@.len() != "value"@.len());
    }
    lemma_lookup_first(fields, "type"@, 0);
    lemma_lookup_first(fields, "value"@, 1);
}

impl SnowflakeType {
    /// The wire shape of the typed value.
    pub fn to_wire(&self) -> (w: WireValue)
        ensures
            w@ == typed_wire(self@),
    {
        let mut fields: Vec<WireField> = Vec::new();
        fields.push(WireField::text("type", &self.kind));
        fields.push(WireField::text("value", &self.value));
        proof {
            lemma_fields_view(fields@);
            assert(fields_view(fields@) =~= seq![
                text_field("type"@, self@.kind),
                text_field("value"@, self@.value),
            ]);
        }
        WireValue::object(fields)
    }

    /// Reads a typed value from a wire value: the first field called `type`
    /// and the first called `value`, which must both be texts. Other fields
    /// are passed over.
    pub fn from_wire(w: &WireValue) -> (r: Option<SnowflakeType>)
        ensures
            match r {
                Some(t) => typed_of_wire(w@) == Some(t@),
                None => typed_of_wire(w@) is None,
            },
    {
        match (w.field("type"), w.field("value")) {
            (Some(WireValue::Text(kind)), Some(WireValue::Text(value))) => Some(
                SnowflakeType { kind: kind.clone(), value: value.clone() },
            ),
            _ => None,
        }
    }
}

/// The field of the binding at position `i`: its key, and the wire shape of
/// the typed value that stands under it.
pub open spec fn binding_field(bindings: Map<Seq<char>, TypedValue>, i: nat) -> WireFieldView {
    WireFieldView { name: position_key(i), value: typed_wire(bindings[position_key(i)]) }
}

/// The fields of the first `n` bindings, by position.
pub open spec fn binding_fields(bindings: Map<Seq<char>, TypedValue>, n: nat) -> Seq<
    WireFieldView,
> {
    Seq::new(n, |i: int| binding_field(bindings, (i + 1) as nat))
}

/// The wire shape of a statement request: its five fields under their
/// lower-camel-case names, the bindings as an object keyed by position.
pub open spec fn statement_wire(s: StatementView) -> WireView {
    WireView::Object(
        seq![
            text_field("sqlText"@, s.sql_text),
            bool_field("asyncExec"@, s.async_exec),
            number_field("sequenceId"@, s.sequence_id),
            bool_field("isInternal"@, s.is_internal),
            object_field("bindings"@, binding_fields(s.bindings, s.bindings.len())),
        ],
    )
}

/// The bindings that a list of fields holds: each field's name is a key, its
/// typed value the entry; of two fields with one name the later stands. Nothing
/// where a field holds no typed value.
pub open spec fn bindings_of_fields(fields: Seq<WireFieldView>) -> Option<
    Map<Seq<char>, TypedValue>,
>
    decreases fields.len(),
{
    if fields.len() == 0 {
        Some(Map::empty())
    } else {
        match (bindings_of_fields(fields.drop_last()), typed_of_wire(fields.last().value)) {
            (Some(earlier), Some(t)) => Some(earlier.insert(fields.last().name, t)),
            _ => None,
        }
    }
}

/// The statement request that a wire value holds: the five fields read by
/// their names, each of the kind that the request has it in.
pub open spec fn statement_of_wire(w: WireView) -> Option<StatementView> {
    match (
        w.field("sqlText"@),
        w.field("asyncExec"@),
        w.field("sequenceId"@),
        w.field("isInternal"@),
        w.field("bindings"@),
    ) {
        (
            Some(WireView::Text(sql_text)),
            Some(WireView::Bool(async_exec)),
            Some(WireView::Number(sequence_id)),
            Some(WireView::Bool(is_internal)),
            Some(WireView::Object(fields)),
        ) => match bindings_of_fields(fields) {
            Some(bindings) => Some(
                StatementView { sql_text, async_exec, sequence_id, is_internal, bindings },
            ),
            None => None,
        },
        _ => None,
    }
}

/// Reading the fields of the first `n` bindings gives those bindings back.
proof fn lemma_binding_fields_round_trip(bindings: Map<Seq<char>, TypedValue>, n: nat)
    requires
        forall|i: nat| 1 <= i <= n ==> bindings.contains_key(#[trigger] position_key(i)),
    ensures
        bindings_of_fields(binding_fields(bindings, n)) == Some(
            bindings.restrict(position_keys(n)),
        ),
    decreases n,
{
    let fields = binding_fields(bindings, n);
    if n == 0 {
        assert(bindings.restrict(position_keys(0)) =~= Map::empty());
    } else {
        let fewer = (n - 1) as nat;
        lemma_binding_fields_round_trip(bindings, fewer);
        assert(fields.drop_last() =~= binding_fields(bindings, fewer));
        assert(fields.last() == binding_field(bindings, n));
        lemma_typed_round_trip(bindings[position_key(n)]);
        let earlier = bindings.restrict(position_keys(fewer));
        assert(earlier.insert(position_key(n), bindings[position_key(n)]) =~= bindings.restrict(
            position_keys(n),
        )) by {
            assert forall|k: Seq<char>| position_keys(n).contains(k) <==> (position_keys(
                fewer,
            ).contains(k) || k == position_key(n)) by {
                if position_keys(n).contains(k) {
                    let i = choose|i: nat| 1 <= i <= n && k == #[trigger] position_key(i);
                    if i <= fewer {
                        assert(position_keys(fewer).contains(k));
                    }
                }
                if position_keys(fewer).contains(k) {
                    let i = choose|i: nat| 1 <= i <= fewer && k == #[trigger] position_key(i);
                    assert(position_key(i) == k);
                }
            }
        }
    }
}

/// The five field names of a statement request differ from one another.
proof fn lemma_statement_names_differ()
    ensures
        "sqlText"@ != "asyncExec"@,
        "sqlText"@ != "sequenceId"@,
        "sqlText"@ != "isInternal"@,
        "sqlText"@ != "bindings"@,
        "asyncExec"@ != "sequenceId"@,
        "asyncExec"@ != "isInternal"@,
        "asyncExec"@ != "bindings"@,
        "sequenceId"@ != "isInternal"@,
        "sequenceId"@ != "bindings"@,
        "isInternal"@ != "bindings"@,
{
    reveal_strlit("sqlText");
    reveal_strlit("asyncExec");
    reveal_strlit("sequenceId");
    reveal_strlit("isInternal");
    reveal_strlit("bindings");
    assert("sqlText"@.len() == 7);
    assert("asyncExec"@.len() == 9);
    assert("sequenceId"@.len() == 10);
    assert("isInternal"@.len() == 10);
    assert("bindings"@.len() == 8);
    assert("sequenceId"@[0] != "isInternal"@[0]);
}

/// Serializing a statement request whose bindings are keyed by position,
/// and reading the result by the field names, gives the request back, field
/// for field.
pub proof fn lemma_statement_round_trip(s: StatementView)
    requires
        s.wf(),
    ensures
        statement_of_wire(statement_wire(s)) == Some(s),
{
    let n = s.bindings.len();
    let fields = seq![
        text_field("sqlText"@, s.sql_text),
        bool_field("asyncExec"@, s.async_exec),
        number_field("sequenceId"@, s.sequence_id),
        bool_field("isInternal"@, s.is_internal),
        object_field("bindings"@, binding_fields(s.bindings, n)),
    ];
    lemma_statement_names_differ();
    lemma_lookup_first(fields, "sqlText"@, 0);
    lemma_lookup_first(fields, "asyncExec"@, 1);
    lemma_lookup_first(fields, "sequenceId"@, 2);
    lemma_lookup_first(fields, "isInternal"@, 3);
    lemma_lookup_first(fields, "bindings"@, 4);
    lemma_wf_positions_present(s);
    lemma_binding_fields_round_trip(s.bindings, n);
    assert(s.bindings.restrict(position_keys(n)) =~= s.bindings);
}

impl ExecRequest {
    /// The wire shape of the request; nothing where a position up to the
    /// number of bindings has no entry.
    pub fn to_wire(&self) -> (r: Option<WireValue>)
        ensures
            match r {
                Some(w) => self@.positions_present() && w@ == statement_wire(self@),
                None => !self@.positions_present(),
            },
    {
        let count = self.bindings.len();
        let ghost views = self@.bindings;
        assert(views.dom() =~= self.bindings@.dom());
        let mut bound: Vec<WireField> = Vec::new();
        let mut i: usize = 0;
        while i < count
            invariant
                i <= count,
                count == views.len(),
                views == self@.bindings,
                views.dom() == self.bindings@.dom(),
                fields_view(bound@) == binding_fields(views, i as nat),
                forall|p: nat| 1 <= p <= i ==> views.contains_key(#[trigger] position_key(p)),
            decreases count - i,
        {
            let key = unsigned_text((i + 1) as u64);
            match self.bindings.get(key.as_str()) {
                Some(value) => {
                    let ghost before = bound@;
                    let field = WireField { name: key, value: value.to_wire() };
                    assert(field@ == binding_field(views, (i + 1) as nat)) by {
                        assert(views[position_key((i + 1) as nat)] == value@);
                    }
                    bound.push(field);
                    proof {
                        lemma_fields_view(before);
                        lemma_fields_view(bound@);
                        assert forall|k: int| 0 <= k <= i implies fields_view(bound@)[k]
                            == binding_fields(views, (i + 1) as nat)[k] by {
                            if k < i {
                                assert(bound@[k] == before[k]);
                                assert(fields_view(before)[k] == binding_fields(views, i as nat)[k]);
                            }
                        }
                        assert(fields_view(bound@) =~= binding_fields(views, (i + 1) as nat));
                    }
                },
                None => {
                    assert(!views.contains_key(position_key((i + 1) as nat)));
                    return None;
                },
            }
            i = i + 1;
        }
        let mut fields: Vec<WireField> = Vec::new();
        fields.push(WireField::text("sqlText", &self.sql_text));
        fields.push(WireField::bool("asyncExec", self.async_exec));
        fields.push(WireField::number("sequenceId", self.sequence_id));
        fields.push(WireField::bool("isInternal", self.is_internal));
        fields.push(WireField::object("bindings", bound));
        proof {
            lemma_fields_view(fields@);
            assert(fields_view(fields@) =~= seq![
                text_field("sqlText"@, self@.sql_text),
                bool_field("asyncExec"@, self@.async_exec),
                number_field("sequenceId"@, self@.sequence_id),
                bool_field("isInternal"@, self@.is_internal),
                object_field("bindings"@, binding_fields(views, views.len())),
            ]);
        }
        Some(WireValue::object(fields))
    }

    /// Reads a statement request from a wire value: the first field of each
    /// of the five names, each of its kind, and under `bindings` an object
    /// whose every field holds a typed value. Other fields are passed over.
    pub fn from_wire(w: &WireValue) -> (r: Option<ExecRequest>)
        ensures
            match r {
                Some(req) => statement_of_wire(w@) == Some(req@),
                None => statement_of_wire(w@) is None,
            },
    {
        match (
            w.field("sqlText"),
            w.field("asyncExec"),
            w.field("sequenceId"),
            w.field("isInternal"),
            w.field("bindings"),
        ) {
            (
                Some(WireValue::Text(sql_text)),
                Some(WireValue::Bool(async_exec)),
                Some(WireValue::Number(sequence_id)),
                Some(WireValue::Bool(is_internal)),
                Some(WireValue::Object(fields)),
            ) => {
                let ghost views = fields_view(fields@);
                proof {
                    lemma_fields_view(fields@);
                    assert(WireValue::Text(*sql_text)@ == WireView::Text(sql_text@));
                    assert(WireValue::Bool(*async_exec)@ == WireView::Bool(*async_exec));
                    assert(WireValue::Number(*sequence_id)@ == WireView::Number(*sequence_id));
                    assert(WireValue::Bool(*is_internal)@ == WireView::Bool(*is_internal));
                    assert(WireValue::Object(*fields)@ == WireView::Object(views));
                }
                let mut bindings: StringHashMap<SnowflakeType> = StringHashMap::new();
                assert(bindings@.map_values(|v: SnowflakeType| v@) =~= Map::<
                    Seq<char>,
                    TypedValue,
                >::empty());
                assert(views.take(0) =~= Seq::<WireFieldView>::empty());
                let mut i: usize = 0;
                while i < fields.len()
                    invariant
                        i <= fields.len(),
                        views == fields_view(fields@),
                        views.len() == fields@.len(),
                        bindings_of_fields(views) is None ==> statement_of_wire(w@) is None,
                        forall|k: int| 0 <= k < fields@.len() ==> views[k] == fields@[k]@,
                        bindings_of_fields(views.take(i as int)) == Some(
                            bindings@.map_values(|v: SnowflakeType| v@),
                        ),
                    decreases fields.len() - i,
                {
                    let ghost longer = views.take(i + 1);
                    proof {
                        assert(longer.drop_last() =~= views.take(i as int));
                        assert(longer.last() == views[i as int]);
                        assert(views[i as int] == fields@[i as int]@);
                        assert(bindings_of_fields(longer) == match (
                            bindings_of_fields(longer.drop_last()),
                            typed_of_wire(longer.last().value),
                        ) {
                            (Some(earlier), Some(t)) => Some(earlier.insert(longer.last().name, t)),
                            _ => None,
                        });
                    }
                    match SnowflakeType::from_wire(&fields[i].value) {
                        Some(value) => {
                            let ghost before = bindings@;
                            bindings.insert(fields[i].name.clone(), value);
                            assert(bindings@.map_values(|v: SnowflakeType| v@)
                                =~= before.map_values(|v: SnowflakeType| v@).insert(
                                fields@[i as int].name@,
                                value@,
                            ));
                        },
                        None => {
                            proof {
                                lemma_bindings_of_fields_prefix(views, i + 1);
                            }
                            return None;
                        },
                    }
                    i = i + 1;
                }
                assert(views.take(i as int) =~= views);
                Some(
                    ExecRequest {
                        sql_text: sql_text.clone(),
                        async_exec: *async_exec,
                        sequence_id: *sequence_id,
                        is_internal: *is_internal,
                        bindings,
                    },
                )
            },
            _ => None,
        }
    }
}

/// Where a beginning of a list of fields holds no bindings, neither does the
/// whole list.
proof fn lemma_bindings_of_fields_prefix(fields: Seq<WireFieldView>, n: int)
    requires
        0 <= n <= fields.len(),
        bindings_of_fields(fields.take(n)) is None,
    ensures
        bindings_of_fields(fields) is None,
    decreases fields.len(),
{
    if n < fields.len() {
        assert(fields.drop_last().take(n) =~= fields.take(n));
        lemma_bindings_of_fields_prefix(fields.drop_last(), n);
    } else {
        assert(fields.take(n) =~= fields);
    }
}

impl SessionParameters {
    /// The wire shape: one field, named in upper snake case.
    pub open spec fn wire(&self) -> WireView {
        WireView::Object(
            seq![
                bool_field(
                    "CLIENT_VALIDATE_DEFAULT_PARAMETERS"@,
                    self.client_validate_default_parameters,
                ),
            ],
        )
    }

    /// Builds the wire shape.
    pub fn to_wire(&self) -> (w: WireValue)
        ensures
            w@ == self.wire(),
    {
        let mut fields: Vec<WireField> = Vec::new();
        fields.push(
            WireField::bool(
                "CLIENT_VALIDATE_DEFAULT_PARAMETERS",
                self.client_validate_default_parameters,
            ),
        );
        proof {
            lemma_fields_view(fields@);
            assert(fields_view(fields@) =~= self.wire()->Object_0);
        }
        WireValue::object(fields)
    }
}

impl ClientEnvironment {
    /// The wire shape: the four fields, named in upper snake case.
    pub open spec fn wire(&self) -> WireView {
        WireView::Object(
            seq![
                text_field("APPLICATION"@, self.application@),
                text_field("OS"@, self.os@),
                text_field("OS_VERSION"@, self.os_version@),
                text_field("OCSP_MODE"@, self.ocsp_mode@),
            ],
        )
    }

    /// Builds the wire shape.
    pub fn to_wire(&self) -> (w: WireValue)
        ensures
            w@ == self.wire(),
    {
        let mut fields: Vec<WireField> = Vec::new();
        fields.push(WireField::text("APPLICATION", &self.application));
        fields.push(WireField::text("OS", &self.os));
        fields.push(WireField::text("OS_VERSION", &self.os_version));
        fields.push(WireField::text("OCSP_MODE", &self.ocsp_mode));
        proof {
            lemma_fields_view(fields@);
            assert(fields_view(fields@) =~= self.wire()->Object_0);
        }
        WireValue::object(fields)
    }
}

impl LoginRequestCommon {
    /// The seven common fields, named in upper snake case. A login payload
    /// holds them at its own level, beside its credential fields.
    pub open spec fn wire_fields(&self) -> Seq<WireFieldView> {
        seq![
            text_field("CLIENT_APP_ID"@, self.client_app_id@),
            text_field("CLIENT_APP_VERSION"@, self.client_app_version@),
            text_field("SVN_REVISION"@, self.svn_revision@),
            text_field("ACCOUNT_NAME"@, self.account_name@),
            text_field("LOGIN_NAME"@, self.login_name@),
            WireFieldView { name: "SESSION_PARAMETERS"@, value: self.session_parameters.wire() },
            WireFieldView { name: "CLIENT_ENVIRONMENT"@, value: self.client_environment.wire() },
        ]
    }

    /// The wire shape of the common fields alone.
    pub open spec fn wire(&self) -> WireView {
        WireView::Object(self.wire_fields())
    }

    fn fields(&self) -> (fields: Vec<WireField>)
        ensures
            fields_view(fields@) == self.wire_fields(),
    {
        let mut fields: Vec<WireField> = Vec::new();
        fields.push(WireField::text("CLIENT_APP_ID", &self.client_app_id));
        fields.push(WireField::text("CLIENT_APP_VERSION", &self.client_app_version));
        fields.push(WireField::text("SVN_REVISION", &self.svn_revision));
        fields.push(WireField::text("ACCOUNT_NAME", &self.account_name));
        fields.push(WireField::text("LOGIN_NAME", &self.login_name));
        fields.push(
            WireField {
                name: String::from_str("SESSION_PARAMETERS"),
                value: self.session_parameters.to_wire(),
            },
        );
        fields.push(
            WireField {
                name: String::from_str("CLIENT_ENVIRONMENT"),
                value: self.client_environment.to_wire(),
            },
        );
        proof {
            lemma_fields_view(fields@);
            assert(fields_view(fields@) =~= self.wire_fields());
        }
        fields
    }

    /// Builds the wire shape.
    pub fn to_wire(&self) -> (w: WireValue)
        ensures
            w@ == self.wire(),
    {
        WireValue::object(self.fields())
    }
}

impl PasswordRequestData {
    /// The wire shape: the common fields and, at the same level, the
    /// password.
    pub open spec fn wire(&self) -> WireView {
        WireView::Object(
            self.login_request_common.wire_fields().push(text_field("PASSWORD"@, self.password@)),
        )
    }

    /// Builds the wire shape.
    pub fn to_wire(&self) -> (w: WireValue)
        ensures
            w@ == self.wire(),
    {
        let mut fields = self.login_request_common.fields();
        let ghost common = fields@;
        fields.push(WireField::text("PASSWORD", &self.password));
        proof {
            lemma_fields_view(common);
            lemma_fields_view(fields@);
            assert(fields_view(fields@) =~= self.wire()->Object_0);
        }
        WireValue::object(fields)
    }
}

impl CertRequestData {
    /// The wire shape: the common fields and, at the same level, the
    /// authenticator and the token.
    pub open spec fn wire(&self) -> WireView {
        WireView::Object(
            self.login_request_common.wire_fields().push(
                text_field("AUTHENTICATOR"@, self.authenticator@),
            ).push(text_field("TOKEN"@, self.token@)),
        )
    }

    /// Builds the wire shape.
    pub fn to_wire(&self) -> (w: WireValue)
        ensures
            w@ == self.wire(),
    {
        let mut fields = self.login_request_common.fields();
        let ghost common = fields@;
        fields.push(WireField::text("AUTHENTICATOR", &self.authenticator));
        fields.push(WireField::text("TOKEN", &self.token));
        proof {
            lemma_fields_view(common);
            lemma_fields_view(fields@);
            assert(fields_view(fields@) =~= self.wire()->Object_0);
        }
        WireValue::object(fields)
    }
}

impl LoginRequest<PasswordRequestData> {
    /// The wire shape: the payload under `data`.
    pub open spec fn wire(&self) -> WireView {
        WireView::Object(seq![WireFieldView { name: "data"@, value: self.data.wire() }])
    }

    /// Builds the wire shape.
    pub fn to_wire(&self) -> (w: WireValue)
        ensures
            w@ == self.wire(),
    {
        let mut fields: Vec<WireField> = Vec::new();
        fields.push(WireField { name: String::from_str("data"), value: self.data.to_wire() });
        proof {
            lemma_fields_view(fields@);
            assert(fields_view(fields@) =~= self.wire()->Object_0);
        }
        WireValue::object(fields)
    }
}

impl LoginRequest<CertRequestData> {
    /// The wire shape: the payload under `data`.
    pub open spec fn wire(&self) -> WireView {
        WireView::Object(seq![WireFieldView { name: "data"@, value: self.data.wire() }])
    }

    /// Builds the wire shape.
    pub fn to_wire(&self) -> (w: WireValue)
        ensures
            w@ == self.wire(),
    {
        let mut fields: Vec<WireField> = Vec::new();
        fields.push(WireField { name: String::from_str("data"), value: self.data.to_wire() });
        proof {
            lemma_fields_view(fields@);
            assert(fields_view(fields@) =~= self.wire()->Object_0);
        }
        WireValue::object(fields)
    }
}

impl RenewSessionRequest {
    /// The wire shape: the two fields, named in lower camel case.
    pub open spec fn wire(&self) -> WireView {
        WireView::Object(
            seq![
                text_field("oldSessionToken"@, self.old_session_token@),
                text_field("requestType"@, self.request_type@),
            ],
        )
    }

    /// Builds the wire shape.
    pub fn to_wire(&self) -> (w: WireValue)
        ensures
            w@ == self.wire(),
    {
        let mut fields: Vec<WireField> = Vec::new();
        fields.push(WireField::text("oldSessionToken", &self.old_session_token));
        fields.push(WireField::text("requestType", &self.request_type));
        proof {
            lemma_fields_view(fields@);
            assert(fields_view(fields@) =~= self.wire()->Object_0);
        }
        WireValue::object(fields)
    }
}

} // verus!
