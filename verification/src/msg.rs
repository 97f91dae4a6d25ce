//! Operation and query messages, and the values they return.

use vstd::prelude::*;

use crate::state::{
    coins_view, kv_view, Coin, CoinV, Entry, EntryV, Metadata, MetadataV, opt_view,
};

verus! {

/// One-time initialization: the two fees.
#[derive(Debug, PartialEq)]
pub struct InstantiateMsg {
    pub registration_fee: Coin,
    pub transfer_fee: Coin,
}

/// A request to register `name` with the given metadata.
#[derive(Debug, PartialEq)]
pub struct RegistrationMsg {
    pub name: String,
    pub metadata: Metadata,
}

/// A state-mutating operation.
#[derive(Debug, PartialEq)]
pub enum ExecuteMsg {
    Register(RegistrationMsg),
    Transfer { name: String, to: String },
    SendFundsTo { name: String },
}

/// Mathematical value of an [`ExecuteMsg`].
#[verifier::ext_equal]
pub enum ExecuteMsgV {
    Register { name: Seq<char>, metadata: MetadataV },
    Transfer { name: Seq<char>, to: Seq<char> },
    SendFundsTo { name: Seq<char> },
}

impl View for ExecuteMsg {
    type V = ExecuteMsgV;

    open spec fn view(&self) -> ExecuteMsgV {
        match self {
            ExecuteMsg::Register(m) => ExecuteMsgV::Register {
                name: m.name@,
                metadata: m.metadata@,
            },
            ExecuteMsg::Transfer { name, to } => ExecuteMsgV::Transfer {
                name: name@,
                to: to@,
            },
            ExecuteMsg::SendFundsTo { name } => ExecuteMsgV::SendFundsTo { name: name@ },
        }
    }
}

/// A read-only query.
#[derive(Debug, PartialEq)]
pub enum QueryMsg {
    Lookup { name: String },
    List { start_after: Option<String>, limit: Option<u32> },
    QueryValidatorInfo { name: String },
}

/// Mathematical value of a [`QueryMsg`].
#[verifier::ext_equal]
pub enum QueryMsgV {
    Lookup { name: Seq<char> },
    List { start_after: Option<Seq<char>>, limit: Option<u32> },
    QueryValidatorInfo { name: Seq<char> },
}

impl View for QueryMsg {
    type V = QueryMsgV;

    open spec fn view(&self) -> QueryMsgV {
        match self {
            QueryMsg::Lookup { name } => QueryMsgV::Lookup { name: name@ },
            QueryMsg::List { start_after, limit } => QueryMsgV::List {
                start_after: opt_view(*start_after),
                limit: *limit,
            },
            QueryMsg::QueryValidatorInfo { name } => QueryMsgV::QueryValidatorInfo {
                name: name@,
            },
        }
    }
}

/// One page of a listing, in ascending name order.
#[derive(Debug, PartialEq)]
pub struct EntryListResponse {
    pub entries: Vec<(String, Entry)>,
}

impl View for EntryListResponse {
    type V = Seq<(Seq<char>, EntryV)>;

    open spec fn view(&self) -> Seq<(Seq<char>, EntryV)> {
        kv_view(self.entries@)
    }
}

/// The caller of an operation and the funds attached to the call.
#[derive(Debug, PartialEq)]
pub struct MessageInfo {
    pub sender: String,
    pub funds: Vec<Coin>,
}

/// Mathematical value of a [`MessageInfo`].
#[verifier::ext_equal]
pub struct MessageInfoV {
    pub sender: Seq<char>,
    pub funds: Seq<CoinV>,
}

impl View for MessageInfo {
    type V = MessageInfoV;

    open spec fn view(&self) -> MessageInfoV {
        MessageInfoV { sender: self.sender@, funds: coins_view(self.funds@) }
    }
}

/// An outbound instruction to transfer funds to an address.
#[derive(Debug, PartialEq)]
pub struct BankSendMsg {
    pub to_address: String,
    pub amount: Vec<Coin>,
}

/// Mathematical value of a [`BankSendMsg`].
#[verifier::ext_equal]
pub struct BankSendMsgV {
    pub to_address: Seq<char>,
    pub amount: Seq<CoinV>,
}

impl View for BankSendMsg {
    type V = BankSendMsgV;

    open spec fn view(&self) -> BankSendMsgV {
        BankSendMsgV { to_address: self.to_address@, amount: coins_view(self.amount@) }
    }
}

/// Result of a successful operation: the outbound instructions it emits.
#[derive(Debug, PartialEq)]
pub struct Response {
    pub messages: Vec<BankSendMsg>,
}

impl View for Response {
    type V = Seq<BankSendMsgV>;

    open spec fn view(&self) -> Seq<BankSendMsgV> {
        Seq::new(self.messages@.len(), |i: int| self.messages@[i]@)
    }
}

/// A record of the external validator directory.
#[derive(Debug, PartialEq)]
pub struct ValidatorInfo {
    pub address: String,
    pub commission: u128,
    pub max_commission: u128,
    pub max_change_rate: u128,
}

/// Mathematical value of a [`ValidatorInfo`].
#[verifier::ext_equal]
pub struct ValidatorInfoV {
    pub address: Seq<char>,
    pub commission: u128,
    pub max_commission: u128,
    pub max_change_rate: u128,
}

impl View for ValidatorInfo {
    type V = ValidatorInfoV;

    open spec fn view(&self) -> ValidatorInfoV {
        ValidatorInfoV {
            address: self.address@,
            commission: self.commission,
            max_commission: self.max_commission,
            max_change_rate: self.max_change_rate,
        }
    }
}

impl Clone for ValidatorInfo {
    fn clone(&self) -> (r: Self)
        ensures
            r@ == self@,
    {
        ValidatorInfo {
            address: self.address.clone(),
            commission: self.commission,
            max_commission: self.max_commission,
            max_change_rate: self.max_change_rate,
        }
    }
}

/// Mathematical value of a validator directory.
pub open spec fn dir_view(v: Seq<ValidatorInfo>) -> Seq<ValidatorInfoV> {
    Seq::new(v.len(), |i: int| v[i]@)
}

/// The answer to a read-only query.
#[derive(Debug, PartialEq)]
pub enum QueryAnswer {
    Entry(Entry),
    List(EntryListResponse),
    ValidatorInfo(ValidatorInfo),
}

/// Mathematical value of a [`QueryAnswer`].
#[verifier::ext_equal]
pub enum QueryAnswerV {
    Entry(EntryV),
    List(Seq<(Seq<char>, EntryV)>),
    ValidatorInfo(ValidatorInfoV),
}

impl View for QueryAnswer {
    type V = QueryAnswerV;

    open spec fn view(&self) -> QueryAnswerV {
        match self {
            QueryAnswer::Entry(e) => QueryAnswerV::Entry(e@),
            QueryAnswer::List(l) => QueryAnswerV::List(l@),
            QueryAnswer::ValidatorInfo(v) => QueryAnswerV::ValidatorInfo(v@),
        }
    }
}

} // verus!
