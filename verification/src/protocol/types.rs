//! Requests, responses and their payloads, in the typed form and in the
//! form that goes over the wire, where the correlation id is text.
//!
//! A correlation id is a UUID. The typed form holds its 128-bit value; the
//! `uuid` crate writes and reads its text.

use vstd::prelude::*;
use vstd::std_specs::convert::TryFromSpec;
use crate::bank::{Account, Error, Transaction};
use crate::bank::model::{AccountView, ActionView, TransactionView, ids_view};
use crate::bank::storage::TransactionAction;

verus! {

/// The text of the UUID with the 128-bit value `id`, as `uuid` writes it.
pub uninterp spec fn uuid_text(id: u128) -> Seq<char>;

/// The 128-bit value of the UUID that `uuid` reads from `text`, if it reads
/// one.
pub uninterp spec fn uuid_parsed(text: Seq<char>) -> Option<u128>;

/// `Uuid::to_string` on the UUID with the value `id`: the text that `uuid`
/// writes for it, which `uuid` reads back as the same UUID.
#[verifier::external_body]
fn uuid_to_text(id: u128) -> (text: String)
    ensures
        text@ == uuid_text(id),
        uuid_parsed(text@) == Some(id),
{
    uuid::Uuid::from_u128(id).to_string()
}

/// `Uuid::parse_str`: the value of the UUID that `text` stands for, or
/// nothing where `uuid` refuses the text.
#[verifier::external_body]
fn uuid_from_text(text: &str) -> (r: Option<u128>)
    ensures
        r == uuid_parsed(text@),
{
    match uuid::Uuid::parse_str(text) {
        Ok(id) => Some(id.as_u128()),
        Err(_) => None,
    }
}

/// `Uuid::new_v4`: the value of a UUID drawn at random.
#[verifier::external_body]
fn random_uuid() -> u128 {
    uuid::Uuid::new_v4().as_u128()
}

/// A correlation id that is no UUID.
#[derive(Debug, PartialEq, Eq)]
pub struct InvalidId;

/// What a transaction did, as it goes over the wire.
#[derive(Debug, PartialEq)]
pub enum TransactionActionSerializer {
    Registration,
    Add(usize),
    Withdraw(usize),
    Transfer { to: String, value: usize, fee: usize },
}

/// A transaction as it goes over the wire.
#[derive(Debug, PartialEq)]
pub struct TransactionSerializer {
    pub id: usize,
    pub action: TransactionActionSerializer,
    pub account_name: String,
}

/// An account as it goes over the wire.
#[derive(Debug, PartialEq)]
pub struct AccountSerializer {
    pub balance: usize,
    pub name: String,
    pub trs: Vec<usize>,
}

/// The operations that a request can ask for.
#[derive(Debug, PartialEq, Eq, Hash)]
pub enum Method {
    CreteAccount,
    IncrBalance,
    DecrBalance,
    MakeTransaction,
    Transaction,
    Transactions,
    AccountTransactions,
    AccountBalance,
}

/// Whether a request was carried out.
#[derive(Debug, PartialEq, Eq)]
pub enum RespCode {
    OK,
    ERR,
}

/// A request in the typed form.
#[derive(Debug)]
pub struct Request<P> {
    pub id: u128,
    pub method: Method,
    pub payload: P,
}

/// A response in the typed form.
#[derive(Debug)]
pub struct Response<P> {
    pub id: u128,
    pub code: RespCode,
    pub payload: Option<P>,
}

/// A response as it goes over the wire.
#[derive(Debug)]
pub struct ResponseSerializer<P> {
    pub id: String,
    pub code: RespCode,
    pub payload: Option<P>,
}

/// A request as it goes over the wire.
#[derive(Debug)]
pub struct RequestSerializer<P> {
    pub id: String,
    pub method: Method,
    pub payload: P,
}

/// Why a request was not carried out.
#[derive(Debug, PartialEq, Eq)]
pub struct ResponseErrorPayload {
    pub error: String,
}

/// The account that a request has opened.
#[derive(Debug, PartialEq)]
pub struct ResponseAccountPayload {
    pub balance: usize,
    pub name: String,
    pub trs: Vec<usize>,
}

/// The identifier of the transaction that a request has made.
#[derive(Debug, PartialEq)]
pub struct ResponseShortTrPayload {
    pub id: usize,
}

/// The transactions that a request has asked for.
#[derive(Debug, PartialEq)]
pub struct ResponseTrsPayload {
    pub trs: Vec<TransactionSerializer>,
}

/// The transaction that a request has asked for.
#[derive(Debug, PartialEq)]
pub struct ResponseTrPayload {
    pub tr: TransactionSerializer,
}

/// The balance that a request has asked for.
#[derive(Debug, PartialEq)]
pub struct ResponseBalancePayload {
    pub balance: usize,
}

/// Asks to open an account.
#[derive(Debug, PartialEq)]
pub struct RequestCreateAccountPayload {
    pub account_name: String,
}

/// Asks to pay in.
#[derive(Debug, PartialEq)]
pub struct RequestIncrBalancePayload {
    pub account_name: String,
    pub value: usize,
}

/// Asks to pay out.
#[derive(Debug, PartialEq)]
pub struct RequestDecrBalancePayload {
    pub account_name: String,
    pub value: usize,
}

/// Asks to move money from one account to another.
#[derive(Debug, PartialEq)]
pub struct RequestMakeTransactionPayload {
    pub account_name: String,
    pub account_to_name: String,
    pub value: usize,
}

/// Asks for the whole log.
#[derive(Debug, PartialEq)]
pub struct RequestTransactionsPayload {}

/// Asks for one transaction.
#[derive(Debug, PartialEq)]
pub struct RequestTransactionByIdPayload {
    pub id: usize,
}

/// Asks for the transactions of an account.
#[derive(Debug, PartialEq)]
pub struct RequestAccountTransactionsPayload {
    pub account_name: String,
}

/// Asks for the balance of an account.
#[derive(Debug, PartialEq)]
pub struct RequestBalancePayload {
    pub account_name: String,
}

impl View for TransactionActionSerializer {
    type V = ActionView;

    open spec fn view(&self) -> ActionView {
        match self {
            TransactionActionSerializer::Registration => ActionView::Registration,
            TransactionActionSerializer::Add(value) => ActionView::Add(*value as nat),
            TransactionActionSerializer::Withdraw(value) => ActionView::Withdraw(*value as nat),
            TransactionActionSerializer::Transfer { to, value, fee } => ActionView::Transfer {
                to: to@,
                value: *value as nat,
                fee: *fee as nat,
            },
        }
    }
}

impl View for TransactionSerializer {
    type V = TransactionView;

    open spec fn view(&self) -> TransactionView {
        TransactionView {
            id: self.id as nat,
            action: self.action@,
            account_name: self.account_name@,
        }
    }
}

impl View for AccountSerializer {
    type V = AccountView;

    open spec fn view(&self) -> AccountView {
        AccountView { name: self.name@, balance: self.balance as nat, trs: ids_view(self.trs@) }
    }
}

impl View for ResponseAccountPayload {
    type V = AccountView;

    open spec fn view(&self) -> AccountView {
        AccountView { name: self.name@, balance: self.balance as nat, trs: ids_view(self.trs@) }
    }
}

/// The views of a list of transactions in their wire form, in order.
pub open spec fn serializer_views(list: Seq<TransactionSerializer>) -> Seq<TransactionView> {
    list.map_values(|tr: TransactionSerializer| tr@)
}

impl Clone for Method {
    fn clone(&self) -> (method: Self)
        ensures
            method == *self,
    {
        match self {
            Method::CreteAccount => Method::CreteAccount,
            Method::IncrBalance => Method::IncrBalance,
            Method::DecrBalance => Method::DecrBalance,
            Method::MakeTransaction => Method::MakeTransaction,
            Method::Transaction => Method::Transaction,
            Method::Transactions => Method::Transactions,
            Method::AccountTransactions => Method::AccountTransactions,
            Method::AccountBalance => Method::AccountBalance,
        }
    }
}

impl Method {
    /// Whether the operation writes to the ledger, and so has to have it to
    /// itself; the others only read and can share it.
    pub fn is_mutating(&self) -> (r: bool)
        ensures
            r == (*self is CreteAccount || *self is IncrBalance || *self is DecrBalance
                || *self is MakeTransaction),
    {
        match self {
            Method::CreteAccount
            | Method::IncrBalance
            | Method::DecrBalance
            | Method::MakeTransaction => true,
            _ => false,
        }
    }
}

impl Default for AccountSerializer {
    fn default() -> (acc: Self)
        ensures
            acc@ == (AccountView { name: Seq::empty(), balance: 0, trs: Seq::empty() }),
    {
        let acc = AccountSerializer { balance: 0, name: String::new(), trs: Vec::new() };
        assert(acc@.trs =~= Seq::<nat>::empty());
        acc
    }
}

impl Response<ResponseErrorPayload> {
    /// The response that says a request failed with `error`.
    pub fn new(req_id: u128, error: String) -> (resp: Self)
        ensures
            resp.id == req_id,
            resp.code is ERR,
            resp.payload matches Some(payload) && payload.error@ == error@,
    {
        Response { id: req_id, code: RespCode::ERR, payload: Some(ResponseErrorPayload { error }) }
    }
}

impl ResponseErrorPayload {
    /// What is said of a request that could not be read.
    pub fn invalid_format() -> (payload: ResponseErrorPayload)
        ensures
            payload.error@ == "InvalidFormat"@,
    {
        ResponseErrorPayload { error: "InvalidFormat".to_string() }
    }

    /// The response that carries this payload to the request `req_id`.
    pub fn to_response(self, req_id: u128) -> (resp: Response<Self>)
        ensures
            resp.id == req_id,
            resp.code is ERR,
            resp.payload == Some(self),
    {
        Response { id: req_id, code: RespCode::ERR, payload: Some(self) }
    }
}

impl From<Error> for ResponseErrorPayload {
    fn from(value: Error) -> (payload: Self)
        ensures
            payload.error@ == value.message_text(),
    {
        ResponseErrorPayload { error: value.message() }
    }
}

impl vstd::std_specs::convert::FromSpecImpl<Error> for ResponseErrorPayload {
    open spec fn obeys_from_spec() -> bool {
        false
    }

    open spec fn from_spec(value: Error) -> Self {
        arbitrary()
    }
}

impl<P> Response<P> {
    /// The response that says the request `req_id` was carried out.
    pub fn ok(req_id: u128, payload: Option<P>) -> (resp: Self)
        ensures
            resp.id == req_id,
            resp.code is OK,
            resp.payload == payload,
    {
        Response { id: req_id, code: RespCode::OK, payload }
    }

    /// The response that says the request `req_id` was not carried out.
    pub fn err(req_id: u128, payload: Option<P>) -> (resp: Self)
        ensures
            resp.id == req_id,
            resp.code is ERR,
            resp.payload == payload,
    {
        Response { id: req_id, code: RespCode::ERR, payload }
    }
}

impl<P> Request<P> {
    /// A request under a correlation id drawn at random.
    pub fn new(method: Method, payload: P) -> (req: Self)
        ensures
            req.method == method,
            req.payload == payload,
    {
        Self { id: random_uuid(), method, payload }
    }
}

impl<P> TryFrom<ResponseSerializer<P>> for Response<P> {
    type Error = InvalidId;

    fn try_from(value: ResponseSerializer<P>) -> (r: Result<Self, InvalidId>) {
        let id = match uuid_from_text(value.id.as_str()) {
            Some(id) => id,
            None => {
                return Err(InvalidId);
            },
        };
        Ok(Response { id, payload: value.payload, code: value.code })
    }
}

impl<P> vstd::std_specs::convert::TryFromSpecImpl<ResponseSerializer<P>> for Response<P> {
    open spec fn obeys_try_from_spec() -> bool {
        true
    }

    open spec fn try_from_spec(value: ResponseSerializer<P>) -> Result<Self, InvalidId> {
        match uuid_parsed(value.id@) {
            Some(id) => Ok(Response { id, payload: value.payload, code: value.code }),
            None => Err(InvalidId),
        }
    }
}

impl<P> From<Request<P>> for RequestSerializer<P> {
    fn from(value: Request<P>) -> (r: Self)
        ensures
            r.id@ == uuid_text(value.id),
            uuid_parsed(r.id@) == Some(value.id),
            r.method == value.method,
            r.payload == value.payload,
    {
        RequestSerializer {
            id: uuid_to_text(value.id),
            method: value.method,
            payload: value.payload,
        }
    }
}

impl<P> vstd::std_specs::convert::FromSpecImpl<Request<P>> for RequestSerializer<P> {
    open spec fn obeys_from_spec() -> bool {
        false
    }

    open spec fn from_spec(value: Request<P>) -> Self {
        arbitrary()
    }
}

impl<P> TryFrom<RequestSerializer<P>> for Request<P> {
    type Error = InvalidId;

    fn try_from(value: RequestSerializer<P>) -> (r: Result<Self, InvalidId>) {
        let id = match uuid_from_text(value.id.as_str()) {
            Some(id) => id,
            None => {
                return Err(InvalidId);
            },
        };
        Ok(Request { id, method: value.method, payload: value.payload })
    }
}

impl<P> vstd::std_specs::convert::TryFromSpecImpl<RequestSerializer<P>> for Request<P> {
    open spec fn obeys_try_from_spec() -> bool {
        true
    }

    open spec fn try_from_spec(value: RequestSerializer<P>) -> Result<Self, InvalidId> {
        match uuid_parsed(value.id@) {
            Some(id) => Ok(Request { id, method: value.method, payload: value.payload }),
            None => Err(InvalidId),
        }
    }
}

impl<P> From<Response<P>> for ResponseSerializer<P> {
    fn from(value: Response<P>) -> (r: Self)
        ensures
            r.id@ == uuid_text(value.id),
            uuid_parsed(r.id@) == Some(value.id),
            r.code == value.code,
            r.payload == value.payload,
    {
        ResponseSerializer {
            id: uuid_to_text(value.id),
            payload: value.payload,
            code: value.code,
        }
    }
}

impl<P> vstd::std_specs::convert::FromSpecImpl<Response<P>> for ResponseSerializer<P> {
    open spec fn obeys_from_spec() -> bool {
        false
    }

    open spec fn from_spec(value: Response<P>) -> Self {
        arbitrary()
    }
}

impl From<ResponseAccountPayload> for AccountSerializer {
    fn from(value: ResponseAccountPayload) -> (acc: Self) {
        AccountSerializer { balance: value.balance, name: value.name, trs: value.trs }
    }
}

impl vstd::std_specs::convert::FromSpecImpl<ResponseAccountPayload> for AccountSerializer {
    open spec fn obeys_from_spec() -> bool {
        true
    }

    open spec fn from_spec(value: ResponseAccountPayload) -> Self {
        AccountSerializer { balance: value.balance, name: value.name, trs: value.trs }
    }
}

impl From<AccountSerializer> for ResponseAccountPayload {
    fn from(value: AccountSerializer) -> (acc: Self) {
        ResponseAccountPayload { balance: value.balance, name: value.name, trs: value.trs }
    }
}

impl vstd::std_specs::convert::FromSpecImpl<AccountSerializer> for ResponseAccountPayload {
    open spec fn obeys_from_spec() -> bool {
        true
    }

    open spec fn from_spec(value: AccountSerializer) -> Self {
        ResponseAccountPayload { balance: value.balance, name: value.name, trs: value.trs }
    }
}

impl From<Account> for ResponseAccountPayload {
    fn from(value: Account) -> (acc: Self) {
        ResponseAccountPayload { balance: value.balance, name: value.name, trs: value.trs }
    }
}

impl vstd::std_specs::convert::FromSpecImpl<Account> for ResponseAccountPayload {
    open spec fn obeys_from_spec() -> bool {
        true
    }

    open spec fn from_spec(value: Account) -> Self {
        ResponseAccountPayload { balance: value.balance, name: value.name, trs: value.trs }
    }
}

impl From<TransactionAction> for TransactionActionSerializer {
    fn from(value: TransactionAction) -> (action: Self) {
        match value {
            TransactionAction::Registration => TransactionActionSerializer::Registration,
            TransactionAction::Add(value) => TransactionActionSerializer::Add(value),
            TransactionAction::Withdraw(value) => TransactionActionSerializer::Withdraw(value),
            TransactionAction::Transfer { to, value, fee } => {
                TransactionActionSerializer::Transfer { to, value, fee }
            },
        }
    }
}

impl vstd::std_specs::convert::FromSpecImpl<TransactionAction> for TransactionActionSerializer {
    open spec fn obeys_from_spec() -> bool {
        true
    }

    open spec fn from_spec(value: TransactionAction) -> Self {
        wire_action(value)
    }
}

/// The wire form of what a transaction did.
pub open spec fn wire_action(value: TransactionAction) -> TransactionActionSerializer {
    match value {
        TransactionAction::Registration => TransactionActionSerializer::Registration,
        TransactionAction::Add(value) => TransactionActionSerializer::Add(value),
        TransactionAction::Withdraw(value) => TransactionActionSerializer::Withdraw(value),
        TransactionAction::Transfer { to, value, fee } => TransactionActionSerializer::Transfer {
            to,
            value,
            fee,
        },
    }
}

/// The typed form of what a transaction did.
pub open spec fn typed_action(value: TransactionActionSerializer) -> TransactionAction {
    match value {
        TransactionActionSerializer::Registration => TransactionAction::Registration,
        TransactionActionSerializer::Add(value) => TransactionAction::Add(value),
        TransactionActionSerializer::Withdraw(value) => TransactionAction::Withdraw(value),
        TransactionActionSerializer::Transfer { to, value, fee } => TransactionAction::Transfer {
            to,
            value,
            fee,
        },
    }
}

impl From<TransactionActionSerializer> for TransactionAction {
    fn from(value: TransactionActionSerializer) -> (action: Self) {
        match value {
            TransactionActionSerializer::Registration => TransactionAction::Registration,
            TransactionActionSerializer::Add(value) => TransactionAction::Add(value),
            TransactionActionSerializer::Withdraw(value) => TransactionAction::Withdraw(value),
            TransactionActionSerializer::Transfer { to, value, fee } => {
                TransactionAction::Transfer { to, value, fee }
            },
        }
    }
}

impl vstd::std_specs::convert::FromSpecImpl<TransactionActionSerializer> for TransactionAction {
    open spec fn obeys_from_spec() -> bool {
        true
    }

    open spec fn from_spec(value: TransactionActionSerializer) -> Self {
        typed_action(value)
    }
}

impl From<Transaction> for TransactionSerializer {
    fn from(value: Transaction) -> (tr: Self)
        ensures
            tr@ == value@,
    {
        TransactionSerializer {
            id: value.id,
            action: TransactionActionSerializer::from(value.action),
            account_name: value.account_name,
        }
    }
}

impl vstd::std_specs::convert::FromSpecImpl<Transaction> for TransactionSerializer {
    open spec fn obeys_from_spec() -> bool {
        true
    }

    open spec fn from_spec(value: Transaction) -> Self {
        TransactionSerializer {
            id: value.id,
            action: wire_action(value.action),
            account_name: value.account_name,
        }
    }
}

impl From<TransactionSerializer> for Transaction {
    fn from(value: TransactionSerializer) -> (tr: Self)
        ensures
            tr@ == value@,
    {
        Transaction {
            id: value.id,
            action: TransactionAction::from(value.action),
            account_name: value.account_name,
        }
    }
}

impl vstd::std_specs::convert::FromSpecImpl<TransactionSerializer> for Transaction {
    open spec fn obeys_from_spec() -> bool {
        true
    }

    open spec fn from_spec(value: TransactionSerializer) -> Self {
        Transaction {
            id: value.id,
            action: typed_action(value.action),
            account_name: value.account_name,
        }
    }
}

/// A request keeps its correlation id, its method and its payload on the
/// way through the wire form and back.
pub proof fn lemma_request_survives_the_wire<P>(req: Request<P>, wire: RequestSerializer<P>)
    requires
        uuid_parsed(wire.id@) == Some(req.id),
        wire.method == req.method,
        wire.payload == req.payload,
    ensures
        Request::<P>::try_from_spec(wire) == Ok::<Request<P>, InvalidId>(req),
{
}

} // verus!
