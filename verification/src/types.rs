//! Lock records and the states they move through.

use vstd::prelude::*;
use vstd::string::StringExecFns;
use crate::text::same_text;

verus! {

/// Status of a lock record.
#[derive(Debug, Clone, Copy, PartialEq, Eq, Structural)]
pub enum LockStatus {
    Pending,
    Confirmed,
    Processed,
    Failed,
}

impl LockStatus {
    /// The lower-case name of the status.
    pub open spec fn name(self) -> Seq<char> {
        match self {
            LockStatus::Pending => "pending"@,
            LockStatus::Confirmed => "confirmed"@,
            LockStatus::Processed => "processed"@,
            LockStatus::Failed => "failed"@,
        }
    }

    /// The status that a lower-case name stands for.
    pub open spec fn named(text: Seq<char>) -> Option<LockStatus> {
        if text == "pending"@ {
            Some(LockStatus::Pending)
        } else if text == "confirmed"@ {
            Some(LockStatus::Confirmed)
        } else if text == "processed"@ {
            Some(LockStatus::Processed)
        } else if text == "failed"@ {
            Some(LockStatus::Failed)
        } else {
            None
        }
    }

    /// Whether a record in this state is never changed again.
    pub open spec fn is_terminal(self) -> bool {
        self == LockStatus::Processed || self == LockStatus::Failed
    }

    /// The lower-case name of the status, as the store writes it.
    pub fn as_str(&self) -> (r: &'static str)
        ensures
            r@ == self.name(),
    {
        match self {
            LockStatus::Pending => "pending",
            LockStatus::Confirmed => "confirmed",
            LockStatus::Processed => "processed",
            LockStatus::Failed => "failed",
        }
    }

    /// Reads a status from its lower-case name. Any other text is refused
    /// with a message that repeats it.
    pub fn from_str(s: &str) -> (r: Result<LockStatus, String>)
        ensures
            match r {
                Ok(status) => LockStatus::named(s@) == Some(status),
                Err(message) => LockStatus::named(s@).is_none() && message@ == "Unknown status: "@
                    + s@,
            },
    {
        if same_text(s, "pending") {
            Ok(LockStatus::Pending)
        } else if same_text(s, "confirmed") {
            Ok(LockStatus::Confirmed)
        } else if same_text(s, "processed") {
            Ok(LockStatus::Processed)
        } else if same_text(s, "failed") {
            Ok(LockStatus::Failed)
        } else {
            let mut message = String::from_str("Unknown status: ");
            message.append(s);
            Err(message)
        }
    }

    /// Whether a record in this state is never changed again.
    pub fn terminal(&self) -> (r: bool)
        ensures
            r == self.is_terminal(),
    {
        match self {
            LockStatus::Processed => true,
            LockStatus::Failed => true,
            _ => false,
        }
    }
}

/// One observed deposit, as the store keeps it.
#[derive(Debug, Clone)]
pub struct LockRecord {
    pub id: i64,
    pub lock_id: String,
    pub sender: String,
    pub amount: String,
    pub holochain_agent: String,
    pub tx_hash: String,
    pub block_number: u64,
    pub timestamp: u64,
    pub status: LockStatus,
    pub error_message: Option<String>,
    pub created_at: i64,
    pub updated_at: i64,
}

/// What a [`LockRecord`] holds, as plain values.
pub ghost struct LockRow {
    pub id: int,
    pub lock_id: Seq<char>,
    pub sender: Seq<char>,
    pub amount: Seq<char>,
    pub holochain_agent: Seq<char>,
    pub tx_hash: Seq<char>,
    pub block_number: u64,
    pub timestamp: u64,
    pub status: LockStatus,
    pub error_message: Option<Seq<char>>,
    pub created_at: int,
    pub updated_at: int,
}

impl View for LockRecord {
    type V = LockRow;

    open spec fn view(&self) -> LockRow {
        LockRow {
            id: self.id as int,
            lock_id: self.lock_id@,
            sender: self.sender@,
            amount: self.amount@,
            holochain_agent: self.holochain_agent@,
            tx_hash: self.tx_hash@,
            block_number: self.block_number,
            timestamp: self.timestamp,
            status: self.status,
            error_message: match self.error_message {
                Some(m) => Some(m@),
                None => None,
            },
            created_at: self.created_at as int,
            updated_at: self.updated_at as int,
        }
    }
}

impl LockRecord {
    /// A copy of the record.
    pub fn duplicate(&self) -> (r: LockRecord)
        ensures
            r@ == self@,
    {
        LockRecord {
            id: self.id,
            lock_id: self.lock_id.clone(),
            sender: self.sender.clone(),
            amount: self.amount.clone(),
            holochain_agent: self.holochain_agent.clone(),
            tx_hash: self.tx_hash.clone(),
            block_number: self.block_number,
            timestamp: self.timestamp,
            status: self.status,
            error_message: match &self.error_message {
                Some(m) => Some(m.clone()),
                None => None,
            },
            created_at: self.created_at,
            updated_at: self.updated_at,
        }
    }
}

/// How many records the store holds, in all and in each state.
#[derive(Debug, Clone, Copy, PartialEq, Eq, Structural)]
pub struct DatabaseStats {
    pub total_locks: u64,
    pub pending_locks: u64,
    pub confirmed_locks: u64,
    pub processed_locks: u64,
    pub failed_locks: u64,
}

} // verus!
