use vstd::prelude::*;

verus! {

/// A transfer of `amount` from wallet `from` to wallet `to`.
pub struct Transaction {
    pub from: String,
    pub to: String,
    pub amount: i32,
}

/// A transaction together with the node that signed it and its signature
/// (the compressed bytes of a BLS signature).
pub struct SignedTransaction {
    pub transaction: Transaction,
    pub sender_id: usize,
    pub signature: Vec<u8>,
}

/// What one node reports about one transaction; the signed transaction is
/// echoed back only when it was applied.
pub struct TransactionResult {
    pub node_id: usize,
    pub success: bool,
    pub transaction: Option<SignedTransaction>,
}

/// A result with the reporting node's signature over its canonical bytes.
pub struct TransactionVerificationRequest {
    pub result: TransactionResult,
    pub signature_share: Vec<u8>,
}

pub struct TransactionModel {
    pub from: Seq<char>,
    pub to: Seq<char>,
    pub amount: i32,
}

pub struct SignedTransactionModel {
    pub transaction: TransactionModel,
    pub sender_id: usize,
    pub signature: Seq<u8>,
}

pub struct TransactionResultModel {
    pub node_id: usize,
    pub success: bool,
    pub transaction: Option<SignedTransactionModel>,
}

impl View for Transaction {
    type V = TransactionModel;

    open spec fn view(&self) -> TransactionModel {
        TransactionModel { from: self.from@, to: self.to@, amount: self.amount }
    }
}

impl View for SignedTransaction {
    type V = SignedTransactionModel;

    open spec fn view(&self) -> SignedTransactionModel {
        SignedTransactionModel {
            transaction: self.transaction@,
            sender_id: self.sender_id,
            signature: self.signature@,
        }
    }
}

impl View for TransactionResult {
    type V = TransactionResultModel;

    open spec fn view(&self) -> TransactionResultModel {
        TransactionResultModel {
            node_id: self.node_id,
            success: self.success,
            transaction: match self.transaction {
                Some(st) => Some(st@),
                None => None,
            },
        }
    }
}

impl Transaction {
    pub fn new(from: String, to: String, amount: i32) -> (r: Transaction)
        ensures
            r.from@ == from@,
            r.to@ == to@,
            r.amount == amount,
    {
        Transaction { from, to, amount }
    }

    pub fn duplicate(&self) -> (r: Transaction)
        ensures
            r@ == self@,
    {
        Transaction { from: self.from.clone(), to: self.to.clone(), amount: self.amount }
    }
}

impl SignedTransaction {
    pub fn duplicate(&self) -> (r: SignedTransaction)
        ensures
            r@ == self@,
    {
        SignedTransaction {
            transaction: self.transaction.duplicate(),
            sender_id: self.sender_id,
            signature: self.signature.clone(),
        }
    }
}

impl TransactionResult {
    pub fn duplicate(&self) -> (r: TransactionResult)
        ensures
            r@ == self@,
    {
        let transaction = match &self.transaction {
            Some(st) => Some(st.duplicate()),
            None => None,
        };
        TransactionResult { node_id: self.node_id, success: self.success, transaction }
    }
}

} // verus!
