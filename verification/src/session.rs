use vstd::prelude::*;

use crate::access_control::{
    can_approve_transfer, can_view_audit_logs, spec_can_approve_transfer, spec_can_view_audit_logs,
};
use crate::audit::{appended_entry, chain_valid, limited_count, list_audit_logs, log_action_at};
use crate::clock::current_timestamp;
use crate::auth::{has_credentials, login, login_answer};
use crate::clock::is_timestamp_text;
use crate::banking::{
    accessible_accounts, approve_transfer, approve_transfer_outcome, get_accessible_accounts,
    get_transaction_history, lemma_recorded_iff_answered, list_pending_transfers, pending_transfers,
    same_tables, says, transfer_money, transfer_money_outcome, visible_history,
};
use crate::models::{Account, AuditRecord, TransactionRecord, Transfer, User};
use crate::store::{Bank, StoreError};
use crate::table::has_room;
use crate::text::{int_text, push_int};

verus! {

/// The screens of the application.
#[derive(Clone, Copy, Debug, PartialEq, Eq, Structural)]
pub enum Screen {
    Login,
    Dashboard,
    Accounts,
    Transfer,
    History,
    PendingTransfers,
    AuditLogs,
}

/// How many audit entries the application lists.
pub const AUDIT_LIST_LIMIT: i32 = 20;

/// What the application shows: who is signed in, which screen, the last
/// status message and the lists loaded for the user.
pub struct Session {
    pub current_user: Option<User>,
    pub screen: Screen,
    pub status_message: String,
    pub accounts: Vec<Account>,
    pub transactions: Vec<TransactionRecord>,
    pub pending_transfers: Vec<Transfer>,
    pub audit_logs: Vec<AuditRecord>,
}

/// The lists show what the signed-in user may see now: their accessible
/// accounts; the pending transfers for a manager; the newest audit entries
/// for a manager or an auditor. Nobody signed in sees nothing.
pub open spec fn lists_fresh(s: Session, bank: Bank) -> bool {
    match s.current_user {
        Some(u) => {
            &&& s.accounts@ == accessible_accounts(bank, u)
            &&& s.pending_transfers@ == (if spec_can_approve_transfer(u) {
                pending_transfers(bank)
            } else {
                seq![]
            })
            &&& s.audit_logs@ == (if spec_can_view_audit_logs(u) {
                bank.audit_log@.reverse().take(limited_count(AUDIT_LIST_LIMIT, bank.audit_log@.len()) as int)
            } else {
                seq![]
            })
        },
        None => {
            &&& s.accounts@.len() == 0
            &&& s.pending_transfers@.len() == 0
            &&& s.audit_logs@.len() == 0
        },
    }
}

/// `s1` is `s0` with only the status message changed to `msg`.
pub open spec fn only_status(s0: Session, s1: Session, msg: Seq<char>) -> bool {
    &&& s1.current_user == s0.current_user
    &&& s1.screen == s0.screen
    &&& s1.status_message@ == msg
    &&& s1.accounts@ == s0.accounts@
    &&& s1.transactions@ == s0.transactions@
    &&& s1.pending_transfers@ == s0.pending_transfers@
    &&& s1.audit_logs@ == s0.audit_logs@
}

/// Only the audit log may have changed: where a time was read and the log
/// has a key left, by one entry recording `action` and `details` for
/// `user_id` at that time; otherwise not at all.
pub open spec fn audited_at(
    b0: Bank,
    b1: Bank,
    user_id: Option<i32>,
    action: Seq<char>,
    details: Seq<char>,
    created_at: Option<Seq<char>>,
) -> bool {
    &&& b1.users@ == b0.users@
    &&& b1.accounts@ == b0.accounts@
    &&& b1.transfers@ == b0.transfers@
    &&& b1.transactions@ == b0.transactions@
    &&& if created_at is Some && has_room(b0.audit_log@, 1) {
        appended_entry(b0.audit_log@, b1.audit_log@, user_id, action, details, created_at->0)
    } else {
        b1.audit_log@ == b0.audit_log@
    }
}

/// What a read of the clock gives: a time chrono writes, or nothing where
/// the clock gives no time.
pub open spec fn clock_reading(t: Option<Seq<char>>) -> bool {
    t matches Some(x) ==> is_timestamp_text(x)
}

/// The text of an optional time.
pub open spec fn text_of(t: Option<&str>) -> Option<Seq<char>> {
    match t {
        Some(x) => Some(x@),
        None => None,
    }
}

/// What signing in with these credentials does, for a sign-in audited at
/// `created_at` (`None`: no time to record it at).
pub open spec fn login_post(
    s0: Session,
    s1: Session,
    b0: Bank,
    b1: Bank,
    username: Seq<char>,
    password: Seq<char>,
    created_at: Option<Seq<char>>,
) -> bool {
    if username.len() == 0 || password.len() == 0 {
        only_status(s0, s1, "Please enter both username and password."@) && same_tables(b0, b1)
    } else if !has_credentials(b0, username, password) {
        only_status(s0, s1, "Invalid username or password."@) && same_tables(b0, b1)
    } else {
        &&& s1.current_user matches Some(u) && login_answer(b0, username, password, Some(u))
            && audited_at(b0, b1, Some(u.user_id), "LOGIN_SUCCESS"@, u.username@ + " logged in as "@ + u.role@,
            created_at)
        &&& s1.screen == Screen::Dashboard
        &&& s1.status_message@ == "Login successful."@
        &&& lists_fresh(s1, b1)
        &&& s1.transactions@ == s0.transactions@
    }
}

/// What signing out does, for a sign-out audited at `created_at` (`None`:
/// no time to record it at).
pub open spec fn logout_post(s0: Session, s1: Session, b0: Bank, b1: Bank, created_at: Option<Seq<char>>) -> bool {
    &&& match s0.current_user {
        Some(u) => audited_at(b0, b1, Some(u.user_id), "LOGOUT"@, u.username@ + " logged out"@, created_at),
        None => same_tables(b0, b1),
    }
    &&& s1.current_user is None
    &&& s1.screen == Screen::Login
    &&& s1.status_message@ == "Logged out."@
    &&& s1.accounts@.len() == 0
    &&& s1.transactions@.len() == 0
    &&& s1.pending_transfers@.len() == 0
    &&& s1.audit_logs@.len() == 0
}

/// Whether the user is offered the transfer screen: everybody but an
/// auditor, who only reads.
pub fn shows_transfer_screen(user: &User) -> (r: bool)
    ensures
        r == (user.role@ != "auditor"@),
{
    !crate::text::str_eq(user.role.as_str(), "auditor")
}

impl Session {
    /// Somebody is signed in exactly when the screen is not the login screen.
    pub open spec fn screen_matches_user(self) -> bool {
        self.current_user is None <==> self.screen == Screen::Login
    }

    /// The start of the application: nobody signed in, the login screen.
    pub fn new() -> (r: Session)
        ensures
            r.current_user is None,
            r.screen == Screen::Login,
            r.screen_matches_user(),
            r.status_message@.len() == 0,
            r.accounts@.len() == 0,
            r.transactions@.len() == 0,
            r.pending_transfers@.len() == 0,
            r.audit_logs@.len() == 0,
    {
        Session {
            current_user: None,
            screen: Screen::Login,
            status_message: String::new(),
            accounts: Vec::new(),
            transactions: Vec::new(),
            pending_transfers: Vec::new(),
            audit_logs: Vec::new(),
        }
    }

    /// Shows `screen`, which only a signed-in user can open; the login
    /// screen is reached by signing out.
    pub fn open_screen(&mut self, screen: Screen)
        ensures
            final(self).screen == (if old(self).current_user is Some && screen != Screen::Login {
                screen
            } else {
                old(self).screen
            }),
            final(self).current_user == old(self).current_user,
            final(self).status_message == old(self).status_message,
            final(self).accounts == old(self).accounts,
            final(self).transactions == old(self).transactions,
            final(self).pending_transfers == old(self).pending_transfers,
            final(self).audit_logs == old(self).audit_logs,
            old(self).screen_matches_user() ==> final(self).screen_matches_user(),
    {
        if self.current_user.is_some() && screen != Screen::Login {
            self.screen = screen;
        }
    }

    /// Reloads the accounts the signed-in user may see.
    pub fn load_accounts(&mut self, bank: &Bank)
        ensures
            final(self).accounts@ == match old(self).current_user {
                Some(u) => accessible_accounts(*bank, u),
                None => seq![],
            },
            final(self).current_user == old(self).current_user,
            final(self).screen == old(self).screen,
            final(self).status_message == old(self).status_message,
            final(self).transactions == old(self).transactions,
            final(self).pending_transfers == old(self).pending_transfers,
            final(self).audit_logs == old(self).audit_logs,
            old(self).screen_matches_user() ==> final(self).screen_matches_user(),
    {
        self.accounts = match &self.current_user {
            Some(u) => get_accessible_accounts(bank, u),
            None => Vec::new(),
        };
    }

    /// Reloads the pending transfers, which only a manager sees.
    pub fn load_pending_transfers(&mut self, bank: &Bank)
        ensures
            final(self).pending_transfers@ == match old(self).current_user {
                Some(u) => if spec_can_approve_transfer(u) {
                    pending_transfers(*bank)
                } else {
                    seq![]
                },
                None => seq![],
            },
            final(self).current_user == old(self).current_user,
            final(self).screen == old(self).screen,
            final(self).status_message == old(self).status_message,
            final(self).accounts == old(self).accounts,
            final(self).transactions == old(self).transactions,
            final(self).audit_logs == old(self).audit_logs,
            old(self).screen_matches_user() ==> final(self).screen_matches_user(),
    {
        self.pending_transfers = match &self.current_user {
            Some(u) => if can_approve_transfer(u) {
                list_pending_transfers(bank)
            } else {
                Vec::new()
            },
            None => Vec::new(),
        };
    }

    /// Reloads the newest audit entries, which a manager or an auditor sees.
    pub fn load_audit_logs(&mut self, bank: &Bank)
        ensures
            final(self).audit_logs@ == match old(self).current_user {
                Some(u) => if spec_can_view_audit_logs(u) {
                    bank.audit_log@.reverse().take(limited_count(AUDIT_LIST_LIMIT, bank.audit_log@.len()) as int)
                } else {
                    seq![]
                },
                None => seq![],
            },
            final(self).current_user == old(self).current_user,
            final(self).screen == old(self).screen,
            final(self).status_message == old(self).status_message,
            final(self).accounts == old(self).accounts,
            final(self).transactions == old(self).transactions,
            final(self).pending_transfers == old(self).pending_transfers,
            old(self).screen_matches_user() ==> final(self).screen_matches_user(),
    {
        self.audit_logs = match &self.current_user {
            Some(u) => if can_view_audit_logs(u) {
                list_audit_logs(bank, AUDIT_LIST_LIMIT)
            } else {
                Vec::new()
            },
            None => Vec::new(),
        };
    }

    /// Reloads the lists for the signed-in user.
    pub fn refresh_all_lists(&mut self, bank: &Bank)
        ensures
            lists_fresh(*final(self), *bank),
            final(self).current_user == old(self).current_user,
            final(self).screen == old(self).screen,
            final(self).status_message == old(self).status_message,
            final(self).transactions == old(self).transactions,
            old(self).screen_matches_user() ==> final(self).screen_matches_user(),
    {
        self.load_accounts(bank);
        self.load_pending_transfers(bank);
        self.load_audit_logs(bank);
    }

    /// Signs in with credentials already trimmed, auditing a sign-in at
    /// `created_at` (`None`: no time to record it at, so nothing is
    /// audited): blank credentials and unknown ones are answered with a
    /// message; on success the sign-in is audited where the log has room,
    /// the dashboard shows and the lists are loaded for the user.
    pub fn login_at(&mut self, bank: &mut Bank, username: &str, password: &str, created_at: Option<&str>)
        requires
            old(bank).wf(),
        ensures
            final(bank).wf(),
            chain_valid(old(bank).audit_log@) ==> chain_valid(final(bank).audit_log@),
            login_post(*old(self), *final(self), *old(bank), *final(bank), username@, password@, text_of(created_at)),
            old(self).screen_matches_user() ==> final(self).screen_matches_user(),
    {
        if username.is_empty() || password.is_empty() {
            self.status_message = String::from_str("Please enter both username and password.");
            return;
        }
        match login(bank, username, password) {
            Some(user) => {
                let mut details = user.username.clone();
                details.append(" logged in as ");
                details.append(user.role.as_str());
                match created_at {
                    Some(t) => {
                        let _ = log_action_at(bank, Some(user.user_id), "LOGIN_SUCCESS", details.as_str(), t);
                    },
                    None => {},
                }
                self.current_user = Some(user);
                self.screen = Screen::Dashboard;
                self.status_message = String::from_str("Login successful.");
                self.refresh_all_lists(bank);
            },
            None => {
                self.status_message = String::from_str("Invalid username or password.");
            },
        }
    }

    /// Signs in with credentials already trimmed, as `login_at` does for
    /// the time read from the clock.
    pub fn login(&mut self, bank: &mut Bank, username: &str, password: &str)
        requires
            old(bank).wf(),
        ensures
            final(bank).wf(),
            chain_valid(old(bank).audit_log@) ==> chain_valid(final(bank).audit_log@),
            exists|t: Option<Seq<char>>| clock_reading(t) && #[trigger] login_post(*old(self), *final(self),
                *old(bank), *final(bank), username@, password@, t),
            old(self).screen_matches_user() ==> final(self).screen_matches_user(),
    {
        let now = current_timestamp();
        match now {
            Some(t) => {
                self.login_at(bank, username, password, Some(t.as_str()));
                assert(clock_reading(Some(t@)));
            },
            None => {
                self.login_at(bank, username, password, None);
                assert(clock_reading(None));
            },
        }
    }

    /// Signs out, auditing the sign-out of a signed-in user at `created_at`
    /// (`None`: no time to record it at, so nothing is audited) where the
    /// log has room; the session returns to the login screen with no lists.
    pub fn logout_at(&mut self, bank: &mut Bank, created_at: Option<&str>)
        requires
            old(bank).wf(),
        ensures
            final(bank).wf(),
            chain_valid(old(bank).audit_log@) ==> chain_valid(final(bank).audit_log@),
            logout_post(*old(self), *final(self), *old(bank), *final(bank), text_of(created_at)),
            final(self).screen_matches_user(),
    {
        match &self.current_user {
            Some(user) => {
                let mut details = user.username.clone();
                details.append(" logged out");
                match created_at {
                    Some(t) => {
                        let _ = log_action_at(bank, Some(user.user_id), "LOGOUT", details.as_str(), t);
                    },
                    None => {},
                }
            },
            None => {},
        }
        self.current_user = None;
        self.screen = Screen::Login;
        self.status_message = String::from_str("Logged out.");
        self.accounts = Vec::new();
        self.transactions = Vec::new();
        self.pending_transfers = Vec::new();
        self.audit_logs = Vec::new();
    }

    /// Signs out, as `logout_at` does for the time read from the clock.
    pub fn logout(&mut self, bank: &mut Bank)
        requires
            old(bank).wf(),
        ensures
            final(bank).wf(),
            chain_valid(old(bank).audit_log@) ==> chain_valid(final(bank).audit_log@),
            exists|t: Option<Seq<char>>| clock_reading(t) && #[trigger] logout_post(*old(self), *final(self),
                *old(bank), *final(bank), t),
            final(self).screen_matches_user(),
    {
        let now = current_timestamp();
        match now {
            Some(t) => {
                self.logout_at(bank, Some(t.as_str()));
                assert(clock_reading(Some(t@)));
            },
            None => {
                self.logout_at(bank, None);
                assert(clock_reading(None));
            },
        }
    }

    /// Loads the history of an account for the signed-in user; `None`
    /// stands for an account id that is not a number.
    pub fn load_history(&mut self, bank: &Bank, account_id: Option<i32>)
        requires
            bank.wf(),
        ensures
            final(self).current_user == old(self).current_user,
            final(self).screen == old(self).screen,
            final(self).accounts@ == old(self).accounts@,
            final(self).pending_transfers@ == old(self).pending_transfers@,
            final(self).audit_logs@ == old(self).audit_logs@,
            account_id is None ==> final(self).transactions@.len() == 0
                && final(self).status_message@ == "Account ID must be a number."@,
            account_id is Some && old(self).current_user is None ==> final(self).transactions@.len() == 0
                && final(self).status_message == old(self).status_message,
            account_id matches Some(id) ==> (old(self).current_user matches Some(u) ==> {
                &&& final(self).transactions@ == visible_history(*bank, u, id)
                &&& final(self).status_message@ == if visible_history(*bank, u, id).len() == 0 {
                    "No history found, or access was denied."@
                } else {
                    "Loaded history for account "@ + int_text(id as int) + "."@
                }
            }),
            old(self).screen_matches_user() ==> final(self).screen_matches_user(),
    {
        self.transactions = Vec::new();
        let id = match account_id {
            Some(v) => v,
            None => {
                self.status_message = String::from_str("Account ID must be a number.");
                return;
            },
        };
        let records = match &self.current_user {
            Some(user) => get_transaction_history(bank, user, id),
            None => { return; },
        };
        if records.len() == 0 {
            self.status_message = String::from_str("No history found, or access was denied.");
        } else {
            let mut msg = String::from_str("Loaded history for account ");
            push_int(&mut msg, id);
            msg.append(".");
            self.status_message = msg;
        }
        self.transactions = records;
    }

    /// Submits a transfer for the signed-in user; `None` stands for an input
    /// that is not a number, the amount being in cents. Where the bank
    /// answers, its message becomes the status, the lists are reloaded and
    /// the first part of the result is `true` (the typed inputs are done
    /// with); where the bank recorded the transfer (pending or completed),
    /// the second part hands it back to be recorded on the chain as well.
    pub fn submit_transfer(
        &mut self,
        bank: &mut Bank,
        from_account: Option<i32>,
        to_account: Option<i32>,
        amount: Option<i64>,
    ) -> (r: (bool, Option<(i32, i32, i64)>))
        requires
            old(bank).wf(),
        ensures
            final(bank).wf(),
            chain_valid(old(bank).audit_log@) ==> chain_valid(final(bank).audit_log@),
            from_account is None ==> only_status(*old(self), *final(self), "From account ID must be a number."@)
                && same_tables(*old(bank), *final(bank)) && r == (false, None::<(i32, i32, i64)>),
            from_account is Some && to_account is None ==> only_status(*old(self), *final(self),
                "To account ID must be a number."@) && same_tables(*old(bank), *final(bank)) && r == (false, None::<(i32, i32, i64)>),
            from_account is Some && to_account is Some && amount is None ==> only_status(*old(self), *final(self),
                "Amount must be a valid number."@) && same_tables(*old(bank), *final(bank)) && r == (false, None::<(i32, i32, i64)>),
            from_account is Some && to_account is Some && amount is Some && old(self).current_user is None ==> r
                == (false, None::<(i32, i32, i64)>) && same_tables(*old(bank), *final(bank)) && *final(self) == *old(self),
            from_account matches Some(f) ==> (to_account matches Some(t) ==> (amount matches Some(a) ==> (
                old(self).current_user matches Some(u) ==> exists|answer: Result<String, StoreError>| {
                &&& #[trigger] transfer_money_outcome(*old(bank), *final(bank), u, f, t, a, answer)
                &&& answer matches Ok(m) ==> final(self).status_message@ == m@ && lists_fresh(*final(self), *final(bank))
                &&& answer is Err ==> only_status(*old(self), *final(self), "Could not submit transfer."@)
                &&& r.0 <==> answer is Ok
                &&& r.1 is Some <==> (says(answer, "Transfer submitted. Awaiting manager approval."@)
                    || says(answer, "Transfer completed successfully."@))
                &&& r.1 is Some ==> r.1 == Some((f, t, a))
            }))),
            final(self).current_user == old(self).current_user,
            final(self).screen == old(self).screen,
            final(self).transactions@ == old(self).transactions@,
            old(self).screen_matches_user() ==> final(self).screen_matches_user(),
    {
        let f = match from_account {
            Some(v) => v,
            None => {
                self.status_message = String::from_str("From account ID must be a number.");
                return (false, None);
            },
        };
        let t = match to_account {
            Some(v) => v,
            None => {
                self.status_message = String::from_str("To account ID must be a number.");
                return (false, None);
            },
        };
        let a = match amount {
            Some(v) => v,
            None => {
                self.status_message = String::from_str("Amount must be a valid number.");
                return (false, None);
            },
        };
        let user = match &self.current_user {
            Some(u) => u.duplicate(),
            None => { return (false, None); },
        };
        let before = bank.transfers.len();
        let ghost b0 = *bank;
        let answer = transfer_money(bank, &user, f, t, a);
        proof {
            if answer != Err::<String, StoreError>(StoreError::ClockUnavailable) || !same_tables(b0, *bank) {
                let created_at = choose|created_at: Seq<char>|
                    is_timestamp_text(created_at) && #[trigger] crate::banking::transfer_money_post(b0, *bank, user, f, t, a, created_at, answer);
                lemma_recorded_iff_answered(b0, *bank, user, f, t, a, created_at, answer);
            }
        }
        match answer {
            Ok(message) => {
                let recorded = bank.transfers.len() > before;
                self.status_message = message;
                self.refresh_all_lists(bank);
                if recorded {
                    (true, Some((f, t, a)))
                } else {
                    (true, None)
                }
            },
            Err(_) => {
                self.status_message = String::from_str("Could not submit transfer.");
                (false, None)
            },
        }
    }

    /// The first step of an approval. `transfer_id` is `None` where the
    /// typed transfer id is not a number, and `pubkey_valid` tells whether
    /// the typed key of the on-chain request parses. Only a manager's
    /// approval goes to the chain: for a manager the id is handed back, to
    /// be approved on chain and then by `approve_selected_transfer`. Any
    /// other signed-in user is answered by the bank at once, which refuses
    /// and audits the attempt.
    pub fn begin_approval(&mut self, bank: &mut Bank, transfer_id: Option<i32>, pubkey_valid: bool) -> (r: Option<i32>)
        requires
            old(bank).wf(),
        ensures
            final(bank).wf(),
            chain_valid(old(bank).audit_log@) ==> chain_valid(final(bank).audit_log@),
            transfer_id is None ==> only_status(*old(self), *final(self), "Transfer ID must be a number."@)
                && same_tables(*old(bank), *final(bank)) && r is None,
            transfer_id is Some && !pubkey_valid ==> only_status(*old(self), *final(self),
                "Transfer request pubkey is invalid."@) && same_tables(*old(bank), *final(bank)) && r is None,
            transfer_id is Some && pubkey_valid && old(self).current_user is None ==> *final(self) == *old(self)
                && same_tables(*old(bank), *final(bank)) && r is None,
            transfer_id matches Some(id) ==> (pubkey_valid ==> (old(self).current_user matches Some(u) ==> (
                spec_can_approve_transfer(u) ==> *final(self) == *old(self) && same_tables(*old(bank), *final(bank))
                    && r == Some(id)))),
            transfer_id matches Some(id) ==> (pubkey_valid ==> (old(self).current_user matches Some(u) ==> (
                !spec_can_approve_transfer(u) ==> r is None && exists|answer: Result<String, StoreError>| {
                    &&& #[trigger] approve_transfer_outcome(*old(bank), *final(bank), u, id, answer)
                    &&& answer matches Ok(m) ==> final(self).status_message@ == m@ && lists_fresh(*final(self), *final(bank))
                    &&& answer is Err ==> only_status(*old(self), *final(self), "Could not approve transfer."@)
                }))),
            final(self).current_user == old(self).current_user,
            final(self).screen == old(self).screen,
            final(self).transactions@ == old(self).transactions@,
            old(self).screen_matches_user() ==> final(self).screen_matches_user(),
    {
        let id = match transfer_id {
            Some(v) => v,
            None => {
                self.status_message = String::from_str("Transfer ID must be a number.");
                return None;
            },
        };
        if !pubkey_valid {
            self.status_message = String::from_str("Transfer request pubkey is invalid.");
            return None;
        }
        let user = match &self.current_user {
            Some(u) => u.duplicate(),
            None => { return None; },
        };
        if can_approve_transfer(&user) {
            return Some(id);
        }
        match approve_transfer(bank, &user, id) {
            Ok(message) => {
                self.status_message = message;
                self.refresh_all_lists(bank);
            },
            Err(_) => {
                self.status_message = String::from_str("Could not approve transfer.");
            },
        }
        None
    }

    /// Reports that the chain refused or could not take an approval, with
    /// the reason the chain client gave.
    pub fn chain_approval_failed(&mut self, reason: &str)
        ensures
            only_status(*old(self), *final(self), "Blockchain approval failed: "@ + reason@),
            old(self).screen_matches_user() ==> final(self).screen_matches_user(),
    {
        let mut status = String::from_str("Blockchain approval failed: ");
        status.append(reason);
        self.status_message = status;
    }

    /// Approves a transfer locally once the chain has approved it. Where the
    /// bank answers, the status tells its message and the chain's success
    /// and the lists are reloaded; `true` is answered then.
    pub fn approve_selected_transfer(&mut self, bank: &mut Bank, transfer_id: i32) -> (r: bool)
        requires
            old(bank).wf(),
        ensures
            final(bank).wf(),
            chain_valid(old(bank).audit_log@) ==> chain_valid(final(bank).audit_log@),
            old(self).current_user is None ==> !r && same_tables(*old(bank), *final(bank))
                && *final(self) == *old(self),
            old(self).current_user matches Some(u) ==> exists|answer: Result<String, StoreError>| {
                &&& #[trigger] approve_transfer_outcome(*old(bank), *final(bank), u, transfer_id, answer)
                &&& answer matches Ok(m) ==> final(self).status_message@ == m@ + " | On-chain approval successful."@
                    && lists_fresh(*final(self), *final(bank)) && r
                &&& answer is Err ==> only_status(*old(self), *final(self),
                    "On-chain approval worked, but local DB approval failed."@) && !r
            },
            final(self).current_user == old(self).current_user,
            final(self).screen == old(self).screen,
            final(self).transactions@ == old(self).transactions@,
            old(self).screen_matches_user() ==> final(self).screen_matches_user(),
    {
        let user = match &self.current_user {
            Some(u) => u.duplicate(),
            None => { return false; },
        };
        match approve_transfer(bank, &user, transfer_id) {
            Ok(message) => {
                let mut status = message;
                status.append(" | On-chain approval successful.");
                self.status_message = status;
                self.refresh_all_lists(bank);
                true
            },
            Err(_) => {
                self.status_message = String::from_str("On-chain approval worked, but local DB approval failed.");
                false
            },
        }
    }
}

} // verus!
