//! Statement requests and the builder that assembles them.

use crate::converter::{SnowflakeType, ToSnowflakeType, TypedValue};
use crate::decimal::{
    decimal_digits, digits_value, lemma_decimal_digits_injective, lemma_digits_value_of_decimal,
    unsigned_text,
};
use vstd::hash_map::StringHashMap;
use vstd::prelude::*;

verus! {

/// The key under which the parameter at 1-based position `i` travels: the
/// decimal numeral of `i`.
pub open spec fn position_key(i: nat) -> Seq<char> {
    decimal_digits(i)
}

/// The keys of the first `n` positions: `"1"`, `"2"`, up to the numeral of `n`.
pub open spec fn position_keys(n: nat) -> Set<Seq<char>> {
    Set::new(|k: Seq<char>| exists|i: nat| 1 <= i <= n && k == #[trigger] position_key(i))
}

/// The parameters keyed by position: the `i`-th parameter bound (counting
/// from 1) stands under `position_key(i)`, and there is no other key.
pub open spec fn position_bindings(params: Seq<TypedValue>) -> Map<Seq<char>, TypedValue> {
    Map::new(
        |k: Seq<char>| position_keys(params.len()).contains(k),
        |k: Seq<char>| params[digits_value(k) - 1],
    )
}

/// The mathematical content of a statement request.
pub struct StatementView {
    pub sql_text: Seq<char>,
    pub async_exec: bool,
    pub sequence_id: u64,
    pub is_internal: bool,
    pub bindings: Map<Seq<char>, TypedValue>,
}

/// A finished statement request. The builder keys its bindings by position.
pub struct ExecRequest {
    pub sql_text: String,
    pub async_exec: bool,
    pub sequence_id: u64,
    pub is_internal: bool,
    pub bindings: StringHashMap<SnowflakeType>,
}

impl StatementView {
    /// Whether every position up to the number of bindings has its key.
    pub open spec fn positions_present(self) -> bool {
        forall|i: nat|
            1 <= i <= self.bindings.len() ==> self.bindings.contains_key(
                #[trigger] position_key(i),
            )
    }

    /// Whether the bindings are keyed by position: the keys are the numerals
    /// of 1 up to the number of bindings, and nothing else.
    pub open spec fn wf(self) -> bool {
        self.bindings.dom() == position_keys(self.bindings.len())
    }
}

impl View for ExecRequest {
    type V = StatementView;

    open spec fn view(&self) -> StatementView {
        StatementView {
            sql_text: self.sql_text@,
            async_exec: self.async_exec,
            sequence_id: self.sequence_id,
            is_internal: self.is_internal,
            bindings: self.bindings@.map_values(|v: SnowflakeType| v@),
        }
    }
}

/// The first `n` positions have `n` keys, all different.
pub proof fn lemma_position_keys_count(n: nat)
    ensures
        position_keys(n).finite(),
        position_keys(n).len() == n,
    decreases n,
{
    if n == 0 {
        assert(position_keys(0) =~= Set::<Seq<char>>::empty());
    } else {
        let fewer = (n - 1) as nat;
        lemma_position_keys_count(fewer);
        assert(!position_keys(fewer).contains(position_key(n))) by {
            if position_keys(fewer).contains(position_key(n)) {
                let i = choose|i: nat|
                    1 <= i <= fewer && position_key(n) == #[trigger] position_key(i);
                lemma_decimal_digits_injective(n, i);
            }
        }
        assert(position_keys(n) =~= position_keys(fewer).insert(position_key(n))) by {
            assert forall|k: Seq<char>| position_keys(n).contains(k) implies position_keys(
                fewer,
            ).insert(position_key(n)).contains(k) by {
                let i = choose|i: nat| 1 <= i <= n && k == #[trigger] position_key(i);
                if i <= fewer {
                    assert(position_keys(fewer).contains(k));
                }
            }
            assert forall|k: Seq<char>| position_keys(fewer).insert(position_key(n)).contains(
                k,
            ) implies position_keys(n).contains(k) by {
                if k != position_key(n) {
                    let i = choose|i: nat| 1 <= i <= fewer && k == #[trigger] position_key(i);
                    assert(position_key(i) == k);
                }
            }
        }
    }
}

/// `N` parameters give exactly `N` entries: the parameter bound `i`-th
/// (counting from 1) stands under the numeral of `i`, and no other key
/// occurs.
pub proof fn lemma_position_bindings_entries(params: Seq<TypedValue>)
    ensures
        position_bindings(params).dom() == position_keys(params.len()),
        position_bindings(params).dom().finite(),
        position_bindings(params).len() == params.len(),
        forall|i: int|
            0 <= i < params.len() ==> {
                &&& position_bindings(params).contains_key(#[trigger] position_key((i + 1) as nat))
                &&& position_bindings(params)[position_key((i + 1) as nat)] == params[i]
            },
{
    let n = params.len();
    lemma_position_keys_count(n);
    assert(position_bindings(params).dom() =~= position_keys(n));
    assert forall|i: int| 0 <= i < n implies {
        &&& position_bindings(params).contains_key(#[trigger] position_key((i + 1) as nat))
        &&& position_bindings(params)[position_key((i + 1) as nat)] == params[i]
    } by {
        lemma_digits_value_of_decimal((i + 1) as nat);
        assert(position_keys(n).contains(position_key((i + 1) as nat)));
    }
}

/// Bindings that are keyed by position have a key for every position.
pub proof fn lemma_wf_positions_present(s: StatementView)
    requires
        s.wf(),
    ensures
        s.positions_present(),
{
    assert forall|i: nat| 1 <= i <= s.bindings.len() implies s.bindings.contains_key(
        #[trigger] position_key(i),
    ) by {
        assert(position_keys(s.bindings.len()).contains(position_key(i)));
    }
}

/// Binding one more parameter adds one key, the next position, and leaves
/// every earlier entry as it was.
pub proof fn lemma_position_bindings_push(params: Seq<TypedValue>, value: TypedValue)
    ensures
        position_bindings(params.push(value)) == position_bindings(params).insert(
            position_key(params.len() + 1),
            value,
        ),
{
    let n = params.len();
    let more = position_bindings(params.push(value));
    let inserted = position_bindings(params).insert(position_key(n + 1), value);
    lemma_digits_value_of_decimal(n + 1);
    assert forall|k: Seq<char>| more.dom().contains(k) <==> inserted.dom().contains(k) by {
        if more.dom().contains(k) {
            let i = choose|i: nat| 1 <= i <= n + 1 && k == #[trigger] position_key(i);
            if i <= n {
                assert(position_keys(n).contains(k));
            }
        }
        if inserted.dom().contains(k) {
            if k == position_key(n + 1) {
                assert(position_keys(n + 1).contains(k));
            } else {
                let i = choose|i: nat| 1 <= i <= n && k == #[trigger] position_key(i);
                assert(position_keys(n + 1).contains(k));
            }
        }
    }
    assert forall|k: Seq<char>| more.dom().contains(k) implies more[k] == inserted[k] by {
        let i = choose|i: nat| 1 <= i <= n + 1 && k == #[trigger] position_key(i);
        lemma_digits_value_of_decimal(i);
        if i <= n {
            assert(position_keys(n).contains(k));
            assert(k != position_key(n + 1)) by {
                if k == position_key(n + 1) {
                    lemma_decimal_digits_injective(i, n + 1);
                }
            }
        }
    }
    assert(more =~= inserted);
}

/// The mathematical content of a builder: what has been staged so far.
pub struct BuilderView {
    pub sql_text: Seq<char>,
    pub bindings: Seq<TypedValue>,
    pub is_internal: bool,
    pub sequence_id: u64,
    pub async_exec: bool,
}

impl BuilderView {
    /// The request that a builder in this state finishes into.
    pub open spec fn request(self) -> StatementView {
        StatementView {
            sql_text: self.sql_text,
            async_exec: self.async_exec,
            sequence_id: self.sequence_id,
            is_internal: self.is_internal,
            bindings: position_bindings(self.bindings),
        }
    }
}

/// Stages the text, parameters and flags of a statement.
pub struct ExecRequestBuilder {
    sql_text: String,
    bindings: Vec<SnowflakeType>,
    is_internal: bool,
    sequence_id: u64,
    async_exec: bool,
}

impl View for ExecRequestBuilder {
    type V = BuilderView;

    closed spec fn view(&self) -> BuilderView {
        BuilderView {
            sql_text: self.sql_text@,
            bindings: self.bindings@.map_values(|v: SnowflakeType| v@),
            is_internal: self.is_internal,
            sequence_id: self.sequence_id,
            async_exec: self.async_exec,
        }
    }
}

impl Default for ExecRequestBuilder {
    /// A builder with an empty statement text and nothing set.
    fn default() -> (r: Self)
        ensures
            r@ == (BuilderView {
                sql_text: Seq::empty(),
                bindings: Seq::empty(),
                is_internal: false,
                sequence_id: 0,
                async_exec: false,
            }),
    {
        let r = ExecRequestBuilder {
            sql_text: String::new(),
            bindings: Vec::new(),
            is_internal: false,
            sequence_id: 0,
            async_exec: false,
        };
        assert(r@.bindings =~= Seq::empty());
        r
    }
}

impl ExecRequestBuilder {
    /// A builder for the statement `sql_text`, with no parameters, sequence
    /// id 0 and both flags off.
    pub fn new(sql_text: &str) -> (r: Self)
        ensures
            r@ == (BuilderView {
                sql_text: sql_text@,
                bindings: Seq::empty(),
                is_internal: false,
                sequence_id: 0,
                async_exec: false,
            }),
    {
        let r = ExecRequestBuilder {
            sql_text: String::from_str(sql_text),
            bindings: Vec::new(),
            is_internal: false,
            sequence_id: 0,
            async_exec: false,
        };
        assert(r@.bindings =~= Seq::empty());
        r
    }

    /// Appends a parameter that is already a typed value. Nothing else
    /// changes.
    pub fn bind_value(self, value: SnowflakeType) -> (r: Self)
        ensures
            r@ == (BuilderView { bindings: self@.bindings.push(value@), ..self@ }),
    {
        let mut r = self;
        r.bindings.push(value);
        assert(r@.bindings =~= self@.bindings.push(value@));
        r
    }

    /// Converts `value` and appends it as the next parameter. Nothing else
    /// changes.
    pub fn bind<T: ToSnowflakeType>(self, value: T) -> (r: Self)
        ensures
            r@ == (BuilderView { bindings: self@.bindings.push(value.snowflake_value()), ..self@ }),
    {
        self.bind_value(value.to_snowflake())
    }

    /// Sets the sequence id; the last call decides. Nothing else changes.
    pub fn sequence_id(self, sequence_id: u64) -> (r: Self)
        ensures
            r@ == (BuilderView { sequence_id, ..self@ }),
    {
        let mut r = self;
        r.sequence_id = sequence_id;
        r
    }

    /// Finishes the request: text, flags and sequence id as staged, and the
    /// `N` parameters under the keys `"1"` to the numeral of `N`, in the order
    /// in which they were bound. The builder is used up.
    pub fn build(self) -> (req: ExecRequest)
        ensures
            req@ == self@.request(),
            req@.wf(),
            req@.positions_present(),
            req@.bindings.len() == self@.bindings.len(),
            forall|i: int|
                0 <= i < self@.bindings.len() ==> {
                    &&& req@.bindings.contains_key(#[trigger] position_key((i + 1) as nat))
                    &&& req@.bindings[position_key((i + 1) as nat)] == self@.bindings[i]
                },
            forall|k: Seq<char>|
                req@.bindings.contains_key(k) ==> exists|i: nat|
                    1 <= i <= self@.bindings.len() && k == #[trigger] position_key(i),
    {
        let ghost staged = self@.bindings;
        let mut bindings: StringHashMap<SnowflakeType> = StringHashMap::new();
        let count = self.bindings.len();
        let mut position: usize = 0;
        assert(bindings@.map_values(|v: SnowflakeType| v@) =~= position_bindings(staged.take(0)));
        for value in it: self.bindings
            invariant
                position == it.index(),
                it.seq().len() == count,
                it.seq().map_values(|v: SnowflakeType| v@) == staged,
                bindings@.map_values(|v: SnowflakeType| v@) == position_bindings(
                    staged.take(position as int),
                ),
        {
            let ghost before = bindings@;
            proof {
                lemma_position_bindings_push(staged.take(position as int), value@);
                assert(staged.take(position as int).push(value@) =~= staged.take(position + 1));
            }
            position = position + 1;
            bindings.insert(unsigned_text(position as u64), value);
            assert(bindings@.map_values(|v: SnowflakeType| v@) =~= before.map_values(
                |v: SnowflakeType| v@,
            ).insert(position_key(position as nat), value@));
        }
        proof {
            assert(staged.take(position as int) =~= staged);
            lemma_position_bindings_entries(staged);
            lemma_wf_positions_present(self@.request());
        }
        ExecRequest {
            sql_text: self.sql_text,
            async_exec: self.async_exec,
            sequence_id: self.sequence_id,
            is_internal: self.is_internal,
            bindings,
        }
    }
}

/// The envelope of a login request.
#[derive(Debug)]
pub struct LoginRequest<T> {
    pub data: T,
}

/// A login request that authenticates by password.
pub type PasswordLoginRequest = LoginRequest<PasswordRequestData>;

/// A login request that authenticates by certificate.
pub type CertLoginRequest = LoginRequest<CertRequestData>;

/// What every login request carries, whatever the way of authenticating.
#[derive(Debug)]
pub struct LoginRequestCommon {
    pub client_app_id: String,
    pub client_app_version: String,
    pub svn_revision: String,
    pub account_name: String,
    pub login_name: String,
    pub session_parameters: SessionParameters,
    pub client_environment: ClientEnvironment,
}

/// The session parameters that a login negotiates.
#[derive(Debug)]
pub struct SessionParameters {
    pub client_validate_default_parameters: bool,
}

/// What a login tells of the client's surroundings.
#[derive(Debug)]
pub struct ClientEnvironment {
    pub application: String,
    pub os: String,
    pub os_version: String,
    pub ocsp_mode: String,
}

/// A login by password: the common fields beside the password.
#[derive(Debug)]
pub struct PasswordRequestData {
    pub login_request_common: LoginRequestCommon,
    pub password: String,
}

/// A login by certificate: the common fields beside the authenticator and the
/// signed token.
#[derive(Debug)]
pub struct CertRequestData {
    pub login_request_common: LoginRequestCommon,
    pub authenticator: String,
    pub token: String,
}

/// A request to exchange a session token for a fresh one.
#[derive(Debug)]
pub struct RenewSessionRequest {
    pub old_session_token: String,
    pub request_type: String,
}

} // verus!
