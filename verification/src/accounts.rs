//! Account operations: registration, login, password change, balance
//! recharge, profile updates and the account reports.
//!
//! The single-row mutations follow the guarded pattern: read the row,
//! check the precondition, then write exactly that row; on any
//! non-success outcome the store is left untouched.

use vstd::prelude::*;

use crate::credentials::check_credential;
use crate::credentials::credential_matches;
use crate::credentials::hash_credential;
use crate::dates::Date;
use crate::dates::YearMonth;
use crate::dates::date_in_month_or_later;
use crate::model::Account;
use crate::model::Role;
use crate::model::Store;
use crate::model::gender_ok;
use crate::model::phone_ok;
use crate::validate::phone_valid;

verus! {

/// Everything but the account table (and its id counter) is equal in
/// the two stores.
pub open spec fn unchanged_except_accounts(pre: Store, post: Store) -> bool {
    &&& post.goods@ == pre.goods@
    &&& post.consumption@ == pre.consumption@
    &&& post.lost_items@ == pre.lost_items@
    &&& post.messages@ == pre.messages@
    &&& post.next_goods_id == pre.next_goods_id
    &&& post.next_lost_item_id == pre.next_lost_item_id
    &&& post.next_message_id == pre.next_message_id
}

/// How a registration request can fail outright.
#[derive(Clone, Copy, PartialEq, Eq, Structural, Debug)]
pub enum RegisterError {
    /// The username or the password is empty.
    EmptyInput,
    /// The credential hashing call failed; nothing was stored.
    HashingFailed,
}

/// The answer to a registration request that passed the hard checks.
#[derive(Clone, Copy, PartialEq, Eq, Structural, Debug)]
pub enum RegisterOutcome {
    Registered,
    DuplicateUsername,
    InvalidPhone,
    InvalidGender,
}

/// A login that does not produce an account.
#[derive(Clone, Copy, PartialEq, Eq, Structural, Debug)]
pub enum LoginError {
    /// Unknown username or wrong password, deliberately not told apart.
    InvalidCredentials,
}

/// How a password change can fail.
#[derive(Clone, Copy, PartialEq, Eq, Structural, Debug)]
pub enum PasswordError {
    EmptyNewPassword,
    EmptyCurrentPassword,
    /// No customer account has this id.
    NotFound,
    /// The supplied current password does not verify.
    WrongCredential,
    /// The credential hashing call failed; nothing was stored.
    HashingFailed,
}

/// How a balance recharge can fail.
#[derive(Clone, Copy, PartialEq, Eq, Structural, Debug)]
pub enum RechargeError {
    /// The amount is zero; recharges must be positive.
    InvalidAmount,
    /// No account has this id.
    NotFound,
    /// The account is not a customer.
    NotCustomer,
    /// The new balance would not fit the balance field.
    BalanceOverflow,
}

impl Store {
    /// Registers a new customer account: validates the input shape,
    /// rejects a taken username, hashes the password and appends the
    /// account with a zero balance and a fresh id.
    pub fn register_user(
        &mut self,
        username: String,
        password: String,
        phone: Option<String>,
        gender: Option<u8>,
        join_date: Date,
    ) -> (r: Result<RegisterOutcome, RegisterError>)
        requires
            old(self).wf(),
            join_date.wf(),
            old(self).next_account_id < i64::MAX,
        ensures
            final(self).wf(),
            r == Err::<RegisterOutcome, RegisterError>(RegisterError::EmptyInput) <==> (
            username@.len() == 0 || password@.len() == 0),
            r == Ok::<RegisterOutcome, RegisterError>(RegisterOutcome::InvalidGender) <==> (
            username@.len() > 0 && password@.len() > 0 && (gender matches Some(g) && !gender_ok(
                g,
            ))),
            r == Ok::<RegisterOutcome, RegisterError>(RegisterOutcome::InvalidPhone) <==> (
            username@.len() > 0 && password@.len() > 0 && !(gender matches Some(g) && !gender_ok(g))
                && (phone matches Some(p) && !phone_ok(p@))),
            r == Ok::<RegisterOutcome, RegisterError>(RegisterOutcome::DuplicateUsername) <==> (
            username@.len() > 0 && password@.len() > 0 && !(gender matches Some(g) && !gender_ok(g))
                && !(phone matches Some(p) && !phone_ok(p@)) && old(self).has_username(username@)),
            (r == Ok::<RegisterOutcome, RegisterError>(RegisterOutcome::Registered) || r == Err::<
                RegisterOutcome,
                RegisterError,
            >(RegisterError::HashingFailed)) <==> (username@.len() > 0 && password@.len() > 0 && !(
            gender matches Some(g) && !gender_ok(g)) && !(phone matches Some(p) && !phone_ok(p@))
                && !old(self).has_username(username@)),
            r == Ok::<RegisterOutcome, RegisterError>(RegisterOutcome::Registered) ==> ({
                &&& final(self).accounts@.len() == old(self).accounts@.len() + 1
                &&& final(self).accounts@.drop_last() == old(self).accounts@
                &&& final(self).accounts@.last().id == old(self).next_account_id
                &&& final(self).accounts@.last().username == username
                &&& final(self).accounts@.last().phone == phone
                &&& final(self).accounts@.last().gender == gender
                &&& final(self).accounts@.last().join_date == join_date
                &&& final(self).accounts@.last().balance == 0
                &&& final(self).accounts@.last().role == Role::Customer
                &&& credential_matches(password@, final(self).accounts@.last().credential_hash@)
                &&& final(self).next_account_id == old(self).next_account_id + 1
                &&& unchanged_except_accounts(*old(self), *final(self))
            }),
            r != Ok::<RegisterOutcome, RegisterError>(RegisterOutcome::Registered) ==> *final(self) == *old(
                self,
            ),
    {
        if username.as_str().is_empty() || password.as_str().is_empty() {
            return Err(RegisterError::EmptyInput);
        }
        if let Some(g) = gender {
            if g != 0 && g != 1 {
                return Ok(RegisterOutcome::InvalidGender);
            }
        }
        if let Some(p) = &phone {
            if !phone_valid(p.as_str()) {
                return Ok(RegisterOutcome::InvalidPhone);
            }
        }
        if self.find_account_by_username(&username).is_some() {
            return Ok(RegisterOutcome::DuplicateUsername);
        }
        let hashed = match hash_credential(password.as_str()) {
            Some(h) => h,
            None => {
                return Err(RegisterError::HashingFailed);
            },
        };
        let account = Account {
            id: self.next_account_id,
            username,
            credential_hash: hashed,
            phone,
            gender,
            join_date,
            balance: 0,
            role: Role::Customer,
        };
        self.accounts.push(account);
        self.next_account_id = self.next_account_id + 1;
        proof {
            assert(self.accounts@.drop_last() =~= old(self).accounts@);
            crate::model::lemma_wf_push_account(*old(self), *self);
        }
        Ok(RegisterOutcome::Registered)
    }

    /// Checks a username/password pair against the account table and
    /// hands back the matching account. An unknown username and a
    /// wrong password give the same answer.
    pub fn login<'a>(&'a self, username: &String, password: &String) -> (r: Result<
        &'a Account,
        LoginError,
    >)
        requires
            self.wf(),
        ensures
            r is Ok <==> (self.has_username(username@) && credential_matches(
                password@,
                self.account_by_username(username@).credential_hash@,
            )),
            r matches Ok(a) ==> *a == self.account_by_username(username@) && a.username@
                == username@,
    {
        let i = match self.find_account_by_username(username) {
            Some(i) => i,
            None => {
                return Err(LoginError::InvalidCredentials);
            },
        };
        let stored = &self.accounts[i];
        match check_credential(password.as_str(), stored.credential_hash.as_str()) {
            Some(true) => Ok(stored),
            _ => Err(LoginError::InvalidCredentials),
        }
    }

    /// Changes a customer's password after verifying the current one;
    /// the guarded write replaces only the credential hash.
    pub fn update_user_password(
        &mut self,
        user_id: i64,
        current_password: &String,
        new_password: &String,
    ) -> (r: Result<(), PasswordError>)
        requires
            old(self).wf(),
        ensures
            final(self).wf(),
            r == Err::<(), PasswordError>(PasswordError::EmptyNewPassword) <==> new_password@.len()
                == 0,
            r == Err::<(), PasswordError>(PasswordError::EmptyCurrentPassword) <==> (
            new_password@.len() > 0 && current_password@.len() == 0),
            r == Err::<(), PasswordError>(PasswordError::NotFound) <==> (new_password@.len() > 0
                && current_password@.len() > 0 && !(old(self).has_account(user_id) && old(
                self,
            ).account_of(user_id).role == Role::Customer)),
            r == Err::<(), PasswordError>(PasswordError::WrongCredential) <==> (new_password@.len()
                > 0 && current_password@.len() > 0 && old(self).has_account(user_id) && old(
                self,
            ).account_of(user_id).role == Role::Customer && !credential_matches(
                current_password@,
                old(self).account_of(user_id).credential_hash@,
            )),
            (r is Ok || r == Err::<(), PasswordError>(PasswordError::HashingFailed)) <==> (
            new_password@.len() > 0 && current_password@.len() > 0 && old(self).has_account(user_id)
                && old(self).account_of(user_id).role == Role::Customer && credential_matches(
                current_password@,
                old(self).account_of(user_id).credential_hash@,
            )),
            r is Ok ==> ({
                let i = old(self).account_index(user_id);
                &&& final(self).accounts@.len() == old(self).accounts@.len()
                &&& final(self).accounts@[i].id == user_id
                &&& credential_matches(new_password@, final(self).accounts@[i].credential_hash@)
                &&& forall|j: int|
                    0 <= j < final(self).accounts@.len() && j != i ==> #[trigger] final(self).accounts@[j] == old(
                        self,
                    ).accounts@[j]
                &&& final(self).accounts@[i] == (Account {
                    credential_hash: final(self).accounts@[i].credential_hash,
                    ..old(self).accounts@[i]
                })
                &&& final(self).next_account_id == old(self).next_account_id
                &&& unchanged_except_accounts(*old(self), *final(self))
            }),
            !(r is Ok) ==> *final(self) == *old(self),
    {
        if new_password.as_str().is_empty() {
            return Err(PasswordError::EmptyNewPassword);
        }
        if current_password.as_str().is_empty() {
            return Err(PasswordError::EmptyCurrentPassword);
        }
        let i = match self.find_account(user_id) {
            Some(i) => i,
            None => {
                return Err(PasswordError::NotFound);
            },
        };
        if !matches!(self.accounts[i].role, Role::Customer) {
            return Err(PasswordError::NotFound);
        }
        let ok = match check_credential(
            current_password.as_str(),
            self.accounts[i].credential_hash.as_str(),
        ) {
            Some(b) => b,
            None => false,
        };
        if !ok {
            return Err(PasswordError::WrongCredential);
        }
        let hashed = match hash_credential(new_password.as_str()) {
            Some(h) => h,
            None => {
                return Err(PasswordError::HashingFailed);
            },
        };
        self.accounts[i].credential_hash = hashed;
        proof {
            crate::model::lemma_wf_update_account(*old(self), *self, i as int);
        }
        Ok(())
    }

    /// Adds a positive amount to a customer's balance; the guarded
    /// write touches only that row.
    pub fn recharge_balance(&mut self, user_id: i64, amount: u64) -> (r: Result<(), RechargeError>)
        requires
            old(self).wf(),
        ensures
            final(self).wf(),
            r == Err::<(), RechargeError>(RechargeError::InvalidAmount) <==> amount == 0,
            r == Err::<(), RechargeError>(RechargeError::NotFound) <==> (amount > 0 && !old(
                self,
            ).has_account(user_id)),
            r == Err::<(), RechargeError>(RechargeError::NotCustomer) <==> (amount > 0 && old(
                self,
            ).has_account(user_id) && old(self).account_of(user_id).role != Role::Customer),
            r == Err::<(), RechargeError>(RechargeError::BalanceOverflow) <==> (amount > 0 && old(
                self,
            ).has_account(user_id) && old(self).account_of(user_id).role == Role::Customer && old(
                self,
            ).account_of(user_id).balance + amount > u64::MAX),
            r is Ok <==> (amount > 0 && old(self).has_account(user_id) && old(self).account_of(
                user_id,
            ).role == Role::Customer && old(self).account_of(user_id).balance + amount <= u64::MAX),
            r is Ok ==> ({
                let i = old(self).account_index(user_id);
                &&& final(self).accounts@ == old(self).accounts@.update(
                    i,
                    (Account {
                        balance: (old(self).accounts@[i].balance + amount) as u64,
                        ..old(self).accounts@[i]
                    }),
                )
                &&& final(self).next_account_id == old(self).next_account_id
                &&& unchanged_except_accounts(*old(self), *final(self))
            }),
            !(r is Ok) ==> *final(self) == *old(self),
    {
        if amount == 0 {
            return Err(RechargeError::InvalidAmount);
        }
        let i = match self.find_account(user_id) {
            Some(i) => i,
            None => {
                return Err(RechargeError::NotFound);
            },
        };
        if !matches!(self.accounts[i].role, Role::Customer) {
            return Err(RechargeError::NotCustomer);
        }
        let nb = match self.accounts[i].balance.checked_add(amount) {
            Some(nb) => nb,
            None => {
                return Err(RechargeError::BalanceOverflow);
            },
        };
        self.accounts[i].balance = nb;
        proof {
            crate::model::lemma_wf_update_account(*old(self), *self, i as int);
        }
        Ok(())
    }

    /// Updates a customer's profile. Fields that are not supplied stay
    /// as they are; a supplied empty phone clears the stored one; a
    /// supplied username equal to the current one is ignored.
    pub fn update_user_details(
        &mut self,
        user_id: i64,
        username: Option<String>,
        phone: Option<String>,
        gender: Option<u8>,
    ) -> (r: Result<UpdateDetailsOutcome, UpdateDetailsError>)
        requires
            old(self).wf(),
        ensures
            final(self).wf(),
            r == Err::<UpdateDetailsOutcome, UpdateDetailsError>(UpdateDetailsError::EmptyUsername)
                <==> (username matches Some(n) && n@.len() == 0),
            r == Err::<UpdateDetailsOutcome, UpdateDetailsError>(UpdateDetailsError::UsernameTaken)
                <==> (requested_username(*old(self), user_id, username) matches Some(n) && old(
                self,
            ).has_username(n@)),
            r == Err::<UpdateDetailsOutcome, UpdateDetailsError>(UpdateDetailsError::InvalidPhone)
                <==> (!(username matches Some(n) && n@.len() == 0) && !(requested_username(
                *old(self),
                user_id,
                username,
            ) matches Some(n) && old(self).has_username(n@)) && (phone matches Some(p) && p@.len()
                > 0 && !phone_ok(p@))),
            r == Err::<UpdateDetailsOutcome, UpdateDetailsError>(UpdateDetailsError::InvalidGender)
                <==> (!(username matches Some(n) && n@.len() == 0) && !(requested_username(
                *old(self),
                user_id,
                username,
            ) matches Some(n) && old(self).has_username(n@)) && !(phone matches Some(p) && p@.len()
                > 0 && !phone_ok(p@)) && (gender matches Some(g) && !gender_ok(g))),
            r == Ok::<UpdateDetailsOutcome, UpdateDetailsError>(UpdateDetailsOutcome::Updated)
                <==> (r is Ok && (requested_username(*old(self), user_id, username) is Some
                || phone is Some || gender is Some) && old(self).has_account(user_id) && old(
                self,
            ).account_of(user_id).role == Role::Customer),
            r == Ok::<UpdateDetailsOutcome, UpdateDetailsError>(UpdateDetailsOutcome::Updated)
                ==> ({
                let i = old(self).account_index(user_id);
                &&& final(self).accounts@ == old(self).accounts@.update(
                    i,
                    apply_details(
                        old(self).accounts@[i],
                        requested_username(*old(self), user_id, username),
                        phone,
                        gender,
                    ),
                )
                &&& final(self).next_account_id == old(self).next_account_id
                &&& unchanged_except_accounts(*old(self), *final(self))
            }),
            r != Ok::<UpdateDetailsOutcome, UpdateDetailsError>(UpdateDetailsOutcome::Updated)
                ==> *final(self) == *old(self),
    {
        let mut set_name: Option<String> = None;
        if let Some(n) = username {
            if n.as_str().is_empty() {
                return Err(UpdateDetailsError::EmptyUsername);
            }
            let changing = match self.find_account(user_id) {
                Some(i) => !self.accounts[i].username.eq(&n),
                None => true,
            };
            if changing {
                if self.find_account_by_username(&n).is_some() {
                    return Err(UpdateDetailsError::UsernameTaken);
                }
                set_name = Some(n);
            }
        }
        if let Some(p) = &phone {
            if !p.as_str().is_empty() && !phone_valid(p.as_str()) {
                return Err(UpdateDetailsError::InvalidPhone);
            }
        }
        if let Some(g) = gender {
            if g != 0 && g != 1 {
                return Err(UpdateDetailsError::InvalidGender);
            }
        }
        if set_name.is_none() && phone.is_none() && gender.is_none() {
            return Ok(UpdateDetailsOutcome::NoChange);
        }
        let i = match self.find_account(user_id) {
            Some(i) => i,
            None => {
                return Ok(UpdateDetailsOutcome::NoChange);
            },
        };
        if !matches!(self.accounts[i].role, Role::Customer) {
            return Ok(UpdateDetailsOutcome::NoChange);
        }
        if let Some(n) = set_name {
            self.accounts[i].username = n;
        }
        if let Some(p) = phone {
            if p.as_str().is_empty() {
                self.accounts[i].phone = None;
            } else {
                self.accounts[i].phone = Some(p);
            }
        }
        if let Some(g) = gender {
            self.accounts[i].gender = Some(g);
        }
        proof {
            assert(self.accounts@ =~= old(self).accounts@.update(
                i as int,
                self.accounts@[i as int],
            ));
            crate::model::lemma_wf_rename_account(*old(self), *self, i as int);
        }
        Ok(UpdateDetailsOutcome::Updated)
    }

    /// Hands back the customer account with this id, if there is one.
    pub fn get_user_details(&self, user_id: i64) -> (r: Option<&Account>)
        requires
            self.wf(),
        ensures
            r is Some <==> (self.has_account(user_id) && self.account_of(user_id).role
                == Role::Customer),
            r matches Some(a) ==> *a == self.account_of(user_id),
    {
        match self.find_account(user_id) {
            Some(i) => {
                if matches!(self.accounts[i].role, Role::Customer) {
                    Some(&self.accounts[i])
                } else {
                    None
                }
            },
            None => None,
        }
    }

    /// Counts the customer accounts.
    pub fn get_total_users(&self) -> (r: usize)
        requires
            self.wf(),
        ensures
            r == count_customers(self.accounts@),
    {
        let mut count: usize = 0;
        let mut k: usize = 0;
        while k < self.accounts.len()
            invariant
                k <= self.accounts@.len(),
                count == count_customers(self.accounts@.take(k as int)),
                count <= k,
            decreases self.accounts@.len() - k,
        {
            proof {
                assert(self.accounts@.take(k + 1).drop_last() =~= self.accounts@.take(k as int));
                assert(self.accounts@.take(k + 1).last() == self.accounts@[k as int]);
            }
            if matches!(self.accounts[k].role, Role::Customer) {
                count += 1;
            }
            k += 1;
        }
        proof {
            assert(self.accounts@.take(self.accounts@.len() as int) =~= self.accounts@);
        }
        count
    }

    /// Counts the customer accounts whose join date falls in the given
    /// month or later.
    pub fn get_new_users_this_month(&self, month: YearMonth) -> (r: usize)
        requires
            self.wf(),
        ensures
            r == count_new_customers(self.accounts@, month),
    {
        let mut count: usize = 0;
        let mut k: usize = 0;
        while k < self.accounts.len()
            invariant
                k <= self.accounts@.len(),
                count == count_new_customers(self.accounts@.take(k as int), month),
                count <= k,
            decreases self.accounts@.len() - k,
        {
            proof {
                assert(self.accounts@.take(k + 1).drop_last() =~= self.accounts@.take(k as int));
                assert(self.accounts@.take(k + 1).last() == self.accounts@[k as int]);
            }
            if matches!(self.accounts[k].role, Role::Customer)
                && crate::dates::date_in_month_or_later_exec(self.accounts[k].join_date, month) {
                count += 1;
            }
            k += 1;
        }
        proof {
            assert(self.accounts@.take(self.accounts@.len() as int) =~= self.accounts@);
        }
        count
    }

    /// Lists every account's id and username, in ascending id order
    /// (the order the table is kept in).
    pub fn get_all_users(&self) -> (r: Vec<UserBasicInfo>)
        requires
            self.wf(),
        ensures
            r@.len() == self.accounts@.len(),
            forall|i: int|
                0 <= i < r@.len() ==> (#[trigger] r@[i]).id == self.accounts@[i].id && r@[i].username@
                    == self.accounts@[i].username@,
    {
        let mut out: Vec<UserBasicInfo> = Vec::new();
        let mut k: usize = 0;
        while k < self.accounts.len()
            invariant
                k <= self.accounts@.len(),
                out@.len() == k,
                forall|i: int|
                    0 <= i < k ==> (#[trigger] out@[i]).id == self.accounts@[i].id
                        && out@[i].username@ == self.accounts@[i].username@,
            decreases self.accounts@.len() - k,
        {
            out.push(
                UserBasicInfo {
                    id: self.accounts[k].id,
                    username: self.accounts[k].username.clone(),
                },
            );
            k += 1;
        }
        out
    }
}

/// The id and username of an account, as listed for administration.
pub struct UserBasicInfo {
    pub id: i64,
    pub username: String,
}

/// How a profile update can fail.
#[derive(Clone, Copy, PartialEq, Eq, Structural, Debug)]
pub enum UpdateDetailsError {
    EmptyUsername,
    UsernameTaken,
    InvalidPhone,
    InvalidGender,
}

/// The answer to a profile update that passed validation.
#[derive(Clone, Copy, PartialEq, Eq, Structural, Debug)]
pub enum UpdateDetailsOutcome {
    /// The customer row was written.
    Updated,
    /// Nothing was asked for, or no customer account has this id.
    NoChange,
}

/// The username the update will write: the one supplied, provided it
/// is non-empty and differs from the account's current one (or the
/// account is missing, in which case nothing will be written anyway).
pub open spec fn requested_username(pre: Store, user_id: i64, username: Option<String>) -> Option<
    String,
> {
    match username {
        Some(n) => if n@.len() > 0 && (!pre.has_account(user_id) || pre.account_of(
            user_id,
        ).username@ != n@) {
            Some(n)
        } else {
            None
        },
        None => None,
    }
}

/// The account row after a profile update: a requested username
/// replaces the old one, a supplied empty phone clears the field, a
/// supplied valid phone replaces it, a supplied gender replaces it.
pub open spec fn apply_details(
    a: Account,
    set_name: Option<String>,
    phone: Option<String>,
    gender: Option<u8>,
) -> Account {
    Account {
        username: match set_name {
            Some(n) => n,
            None => a.username,
        },
        phone: match phone {
            Some(p) => if p@.len() == 0 {
                None
            } else {
                Some(p)
            },
            None => a.phone,
        },
        gender: match gender {
            Some(g) => Some(g),
            None => a.gender,
        },
        ..a
    }
}

/// The number of customer accounts in the table.
pub open spec fn count_customers(s: Seq<Account>) -> int
    decreases s.len(),
{
    if s.len() == 0 {
        0
    } else {
        count_customers(s.drop_last()) + if s.last().role == Role::Customer {
            1int
        } else {
            0int
        }
    }
}

/// The number of customer accounts that joined in the given month or
/// later.
pub open spec fn count_new_customers(s: Seq<Account>, m: YearMonth) -> int
    decreases s.len(),
{
    if s.len() == 0 {
        0
    } else {
        count_new_customers(s.drop_last(), m) + if s.last().role == Role::Customer
            && date_in_month_or_later(s.last().join_date, m) {
            1int
        } else {
            0int
        }
    }
}

} // verus!
