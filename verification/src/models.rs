use vstd::prelude::*;

verus! {

/// A row of a table: it has an integer primary key and can be copied.
pub trait Row: Sized {
    /// The primary key of the row.
    spec fn key_of(&self) -> i32;

    fn key(&self) -> (k: i32)
        ensures
            k == self.key_of(),
    ;

    fn duplicate(&self) -> (r: Self)
        ensures
            r == *self,
    ;
}

/// A signed-in user of the system.
pub struct User {
    pub user_id: i32,
    pub username: String,
    pub full_name: String,
    pub role: String,
}

/// A row of the users table: a user together with their password.
pub struct UserRecord {
    pub user_id: i32,
    pub username: String,
    pub password: String,
    pub full_name: String,
    pub role: String,
}

/// A bank account. The balance is held in cents.
pub struct Account {
    pub account_id: i32,
    pub user_id: i32,
    pub account_type: String,
    pub balance: i64,
    pub status: String,
}

/// A transfer between two accounts, completed at once or waiting for
/// approval. The amount is held in cents.
pub struct Transfer {
    pub transfer_id: i32,
    pub from_account: i32,
    pub to_account: i32,
    pub amount: i64,
    pub status: String,
    pub requested_by: i32,
    pub approved_by: Option<i32>,
    pub created_at: String,
}

/// One side (debit or credit) of a completed transfer, as it appears in an
/// account's history. The amount is held in cents.
pub struct TransactionRecord {
    pub transaction_id: i32,
    pub account_id: i32,
    pub tx_type: String,
    pub amount: i64,
    pub description: String,
    pub created_at: String,
}

/// An entry of the hash-chained audit log.
pub struct AuditRecord {
    pub log_id: i32,
    pub user_id: Option<i32>,
    pub action: String,
    pub details: String,
    pub created_at: String,
    pub prev_hash: String,
    pub current_hash: String,
}

impl User {
    pub fn duplicate(&self) -> (r: User)
        ensures
            r == *self,
    {
        User {
            user_id: self.user_id,
            username: self.username.clone(),
            full_name: self.full_name.clone(),
            role: self.role.clone(),
        }
    }
}

impl Row for UserRecord {
    open spec fn key_of(&self) -> i32 {
        self.user_id
    }

    fn key(&self) -> (k: i32) {
        self.user_id
    }

    fn duplicate(&self) -> (r: Self) {
        UserRecord {
            user_id: self.user_id,
            username: self.username.clone(),
            password: self.password.clone(),
            full_name: self.full_name.clone(),
            role: self.role.clone(),
        }
    }
}

impl Row for Account {
    open spec fn key_of(&self) -> i32 {
        self.account_id
    }

    fn key(&self) -> (k: i32) {
        self.account_id
    }

    fn duplicate(&self) -> (r: Self) {
        Account {
            account_id: self.account_id,
            user_id: self.user_id,
            account_type: self.account_type.clone(),
            balance: self.balance,
            status: self.status.clone(),
        }
    }
}

impl Row for Transfer {
    open spec fn key_of(&self) -> i32 {
        self.transfer_id
    }

    fn key(&self) -> (k: i32) {
        self.transfer_id
    }

    fn duplicate(&self) -> (r: Self) {
        Transfer {
            transfer_id: self.transfer_id,
            from_account: self.from_account,
            to_account: self.to_account,
            amount: self.amount,
            status: self.status.clone(),
            requested_by: self.requested_by,
            approved_by: self.approved_by,
            created_at: self.created_at.clone(),
        }
    }
}

impl Row for TransactionRecord {
    open spec fn key_of(&self) -> i32 {
        self.transaction_id
    }

    fn key(&self) -> (k: i32) {
        self.transaction_id
    }

    fn duplicate(&self) -> (r: Self) {
        TransactionRecord {
            transaction_id: self.transaction_id,
            account_id: self.account_id,
            tx_type: self.tx_type.clone(),
            amount: self.amount,
            description: self.description.clone(),
            created_at: self.created_at.clone(),
        }
    }
}

impl Row for AuditRecord {
    open spec fn key_of(&self) -> i32 {
        self.log_id
    }

    fn key(&self) -> (k: i32) {
        self.log_id
    }

    fn duplicate(&self) -> (r: Self) {
        AuditRecord {
            log_id: self.log_id,
            user_id: self.user_id,
            action: self.action.clone(),
            details: self.details.clone(),
            created_at: self.created_at.clone(),
            prev_hash: self.prev_hash.clone(),
            current_hash: self.current_hash.clone(),
        }
    }
}

} // verus!
