//! Transactions, and the validation of what arrives from outside.

use vstd::prelude::*;
use vstd::string::StrSliceExecFns;
use vstd::string::StringSliceAdditionalSpecFns;

verus! {

/// The direction of a transaction.
#[derive(Clone, Copy, Debug, PartialEq, Eq, Structural)]
pub enum TransactionKind {
    /// Money comes in.
    Credit,
    /// Money goes out.
    Debit,
}

/// The kind that a token stands for: `c` for a credit, `d` for a debit,
/// nothing else for anything.
pub open spec fn kind_of_token(token: Seq<char>) -> Option<TransactionKind> {
    if token == seq!['c'] {
        Some(TransactionKind::Credit)
    } else if token == seq!['d'] {
        Some(TransactionKind::Debit)
    } else {
        None
    }
}

/// The token that stands for a kind.
pub open spec fn token_of_kind(kind: TransactionKind) -> Seq<char> {
    match kind {
        TransactionKind::Credit => seq!['c'],
        TransactionKind::Debit => seq!['d'],
    }
}

/// Reading back the token of a kind gives that kind.
pub proof fn lemma_token_round_trip(kind: TransactionKind)
    ensures
        kind_of_token(token_of_kind(kind)) == Some(kind),
{
    assert(seq!['c'][0] == 'c');
    assert(seq!['d'][0] == 'd');
}

impl TransactionKind {
    /// The kind that `token` stands for, if it stands for one.
    pub fn from_token(token: &str) -> (kind: Option<TransactionKind>)
        ensures
            kind == kind_of_token(token@),
    {
        if token.unicode_len() != 1 {
            return None;
        }
        let c = token.get_char(0);
        if c == 'c' {
            assert(token@ =~= seq!['c']);
            Some(TransactionKind::Credit)
        } else if c == 'd' {
            assert(token@ =~= seq!['d']);
            Some(TransactionKind::Debit)
        } else {
            assert(seq!['c'][0] == 'c');
            assert(seq!['d'][0] == 'd');
            None
        }
    }

    /// The token that stands for this kind.
    pub fn token(self) -> (token: &'static str)
        ensures
            token@ == token_of_kind(self),
    {
        proof {
            reveal_strlit("c");
            reveal_strlit("d");
        }
        match self {
            TransactionKind::Credit => {
                assert("c"@ =~= seq!['c']);
                "c"
            },
            TransactionKind::Debit => {
                assert("d"@ =~= seq!['d']);
                "d"
            },
        }
    }
}

/// A validated transaction: an amount in the smallest currency unit, its
/// direction, and a short description.
#[derive(Debug, PartialEq, Eq)]
pub struct Transaction {
    pub value: u64,
    pub kind: TransactionKind,
    pub description: String,
}

impl Clone for Transaction {
    fn clone(&self) -> (copy: Self)
        ensures
            copy == *self,
    {
        Transaction {
            value: self.value,
            kind: self.kind,
            description: self.description.clone(),
        }
    }
}

/// A transaction as it arrives, before anything is known of it.
#[derive(Debug, PartialEq, Eq)]
pub struct Payload {
    pub value: i64,
    pub kind: String,
    pub description: String,
}

/// Why a payload is not a transaction.
#[derive(Clone, Copy, Debug, PartialEq, Eq, Structural)]
pub enum InvalidPayload {
    /// The description is empty or longer than ten bytes.
    Description,
    /// The kind is neither `c` nor `d`.
    Kind,
    /// The value is negative.
    Value,
}

/// The length of a description: the number of bytes of its UTF-8 encoding.
pub open spec fn description_length(description: Seq<char>) -> nat {
    vstd::utf8::encode_utf8(description).len()
}

/// A description is acceptable when its length is between one and ten.
pub open spec fn description_fits(description: Seq<char>) -> bool {
    1 <= description_length(description) <= 10
}

/// What is wrong with a payload, if anything: the description is looked at
/// first, then the kind, then the value.
pub open spec fn payload_defect(
    value: int,
    kind: Seq<char>,
    description: Seq<char>,
) -> Option<InvalidPayload> {
    if !description_fits(description) {
        Some(InvalidPayload::Description)
    } else if kind_of_token(kind) is None {
        Some(InvalidPayload::Kind)
    } else if value < 0 {
        Some(InvalidPayload::Value)
    } else {
        None
    }
}

/// Turns a payload into a transaction, or says what is wrong with it.
pub fn validate_payload(payload: Payload) -> (checked: Result<Transaction, InvalidPayload>)
    ensures
        match checked {
            Ok(transaction) => {
                &&& payload_defect(payload.value as int, payload.kind@, payload.description@)
                    is None
                &&& transaction.value == payload.value
                &&& Some(transaction.kind) == kind_of_token(payload.kind@)
                &&& transaction.description == payload.description
            },
            Err(defect) => payload_defect(
                payload.value as int,
                payload.kind@,
                payload.description@,
            ) == Some(defect),
        },
{
    let length = payload.description.as_str().as_bytes().len();
    if length < 1 || length > 10 {
        return Err(InvalidPayload::Description);
    }
    let kind = match TransactionKind::from_token(payload.kind.as_str()) {
        Some(kind) => kind,
        None => {
            return Err(InvalidPayload::Kind);
        },
    };
    if payload.value < 0 {
        return Err(InvalidPayload::Value);
    }
    Ok(Transaction { value: payload.value as u64, kind, description: payload.description })
}

} // verus!
