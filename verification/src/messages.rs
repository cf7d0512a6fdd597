//! Internal messaging: the administrator writes to any account, a
//! customer writes to the administrator, either side lists its mail,
//! and a receiver marks a message read (exactly once, and nobody
//! else can).

use vstd::prelude::*;

use crate::dates::Date;
use crate::model::Account;
use crate::model::Message;
use crate::model::Role;
use crate::model::Store;

verus! {

/// How sending a message as the administrator can fail.
#[derive(Clone, Copy, PartialEq, Eq, Structural, Debug)]
pub enum SendMessageError {
    /// The body is empty.
    EmptyContent,
    /// Sender and receiver are the same account.
    SameUser,
}

/// The answer to an administrator send that passed validation.
#[derive(Clone, Copy, PartialEq, Eq, Structural, Debug)]
pub enum SendMessageOutcome {
    Sent,
    SenderNotFound,
    ReceiverNotFound,
}

/// How sending a message as a customer can fail.
#[derive(Clone, Copy, PartialEq, Eq, Structural, Debug)]
pub enum CusSendMessageError {
    /// The body is empty.
    EmptyContent,
    /// The sender exists but is not a customer.
    NotACustomer,
}

/// The answer to a customer send that passed validation.
#[derive(Clone, Copy, PartialEq, Eq, Structural, Debug)]
pub enum CusSendMessageOutcome {
    Sent,
    SenderNotFound,
    NoAdministrator,
}

/// How marking a message read can fail.
#[derive(Clone, Copy, PartialEq, Eq, Structural, Debug)]
pub enum MarkReadError {
    /// No message has this id.
    NotFound,
    /// The caller is not the message's receiver; nothing changes.
    NotReceiver,
}

/// The answer to a read-marking by the rightful receiver.
#[derive(Clone, Copy, PartialEq, Eq, Structural, Debug)]
pub enum MarkReadOutcome {
    Marked,
    /// The message had been read before; nothing changes.
    AlreadyRead,
}

/// There is an administrator account.
pub open spec fn has_admin(s: Store) -> bool {
    exists|i: int|
        0 <= i < s.accounts@.len() && (#[trigger] s.accounts@[i]).role == Role::Administrator
}

/// The index of the first administrator account in the table (the
/// one a customer's message goes to); the table's length if there is
/// none.
pub open spec fn first_admin_index(accounts: Seq<Account>) -> int
    decreases accounts.len(),
{
    if accounts.len() == 0 {
        0
    } else if accounts[0].role == Role::Administrator {
        0
    } else {
        1 + first_admin_index(accounts.skip(1))
    }
}

/// The first administrator account in the table.
pub open spec fn first_admin(s: Store) -> Account {
    s.accounts@[first_admin_index(s.accounts@)]
}

/// A scan that found an administrator at index `k`, with none before
/// it, found the first one.
pub proof fn lemma_first_admin_at(accounts: Seq<Account>, k: int)
    requires
        0 <= k < accounts.len(),
        accounts[k].role == Role::Administrator,
        forall|j: int| 0 <= j < k ==> (#[trigger] accounts[j]).role != Role::Administrator,
    ensures
        first_admin_index(accounts) == k,
    decreases k,
{
    if k == 0 {
    } else {
        assert(accounts[0].role != Role::Administrator);
        let rest = accounts.skip(1);
        assert(rest[k - 1] == accounts[k]);
        assert(forall|j: int| 0 <= j < k - 1 ==> (#[trigger] rest[j]) == accounts[j + 1]);
        lemma_first_admin_at(rest, k - 1);
    }
}

/// A message as listed: sender and receiver usernames resolved (under
/// `Store::wf` both accounts exist).
pub struct MessageView {
    pub id: i64,
    pub sender_id: i64,
    pub receiver_id: i64,
    pub sender_username: String,
    pub receiver_username: String,
    pub title: Option<String>,
    pub body: String,
    pub send_date: Date,
    pub read: bool,
}

/// The listed form of one message.
#[verifier::opaque]
pub open spec fn message_view(s: Store, m: Message) -> MessageView {
    MessageView {
        id: m.id,
        sender_id: m.sender,
        receiver_id: m.receiver,
        sender_username: s.account_of(m.sender).username,
        receiver_username: s.account_of(m.receiver).username,
        title: m.title,
        body: m.body,
        send_date: m.send_date,
        read: m.read,
    }
}

impl Store {
    /// Sends a message from one existing account to another; used by
    /// the administrator, who may write to anyone but themselves.
    pub fn admin_send_message(
        &mut self,
        sender_id: i64,
        receiver_id: i64,
        title: Option<String>,
        body: String,
        send_date: Date,
    ) -> (r: Result<SendMessageOutcome, SendMessageError>)
        requires
            old(self).wf(),
            send_date.wf(),
            old(self).next_message_id < i64::MAX,
        ensures
            final(self).wf(),
            r == Err::<SendMessageOutcome, SendMessageError>(SendMessageError::EmptyContent) <==>
                body@.len() == 0,
            r == Err::<SendMessageOutcome, SendMessageError>(SendMessageError::SameUser) <==> (
            body@.len() > 0 && sender_id == receiver_id),
            r == Ok::<SendMessageOutcome, SendMessageError>(SendMessageOutcome::SenderNotFound)
                <==> (body@.len() > 0 && sender_id != receiver_id && !old(self).has_account(
                sender_id,
            )),
            r == Ok::<SendMessageOutcome, SendMessageError>(SendMessageOutcome::ReceiverNotFound)
                <==> (body@.len() > 0 && sender_id != receiver_id && old(self).has_account(sender_id)
                && !old(self).has_account(receiver_id)),
            r == Ok::<SendMessageOutcome, SendMessageError>(SendMessageOutcome::Sent) <==> (
            body@.len() > 0 && sender_id != receiver_id && old(self).has_account(sender_id) && old(
                self,
            ).has_account(receiver_id)),
            r == Ok::<SendMessageOutcome, SendMessageError>(SendMessageOutcome::Sent) ==> ({
                &&& final(self).messages@.len() == old(self).messages@.len() + 1
                &&& final(self).messages@.drop_last() == old(self).messages@
                &&& final(self).messages@.last() == (Message {
                    id: old(self).next_message_id,
                    sender: sender_id,
                    receiver: receiver_id,
                    title,
                    body,
                    send_date,
                    read: false,
                })
                &&& final(self).next_message_id == old(self).next_message_id + 1
                &&& final(self).accounts@ == old(self).accounts@
                &&& final(self).goods@ == old(self).goods@
                &&& final(self).consumption@ == old(self).consumption@
                &&& final(self).lost_items@ == old(self).lost_items@
                &&& final(self).next_account_id == old(self).next_account_id
                &&& final(self).next_goods_id == old(self).next_goods_id
                &&& final(self).next_lost_item_id == old(self).next_lost_item_id
            }),
            r != Ok::<SendMessageOutcome, SendMessageError>(SendMessageOutcome::Sent)
                ==> *final(self) == *old(self),
    {
        if body.as_str().is_empty() {
            return Err(SendMessageError::EmptyContent);
        }
        if sender_id == receiver_id {
            return Err(SendMessageError::SameUser);
        }
        if self.find_account(sender_id).is_none() {
            return Ok(SendMessageOutcome::SenderNotFound);
        }
        if self.find_account(receiver_id).is_none() {
            return Ok(SendMessageOutcome::ReceiverNotFound);
        }
        let row = Message {
            id: self.next_message_id,
            sender: sender_id,
            receiver: receiver_id,
            title,
            body,
            send_date,
            read: false,
        };
        self.messages.push(row);
        self.next_message_id = self.next_message_id + 1;
        proof {
            assert(self.messages@.drop_last() =~= old(self).messages@);
            crate::model::lemma_wf_push_message(*old(self), *self);
        }
        Ok(SendMessageOutcome::Sent)
    }

    /// Sends a message from a customer to the administrator: the
    /// receiver is the first administrator account in the table.
    pub fn customer_send_message(
        &mut self,
        sender_id: i64,
        title: Option<String>,
        body: String,
        send_date: Date,
    ) -> (r: Result<CusSendMessageOutcome, CusSendMessageError>)
        requires
            old(self).wf(),
            send_date.wf(),
            old(self).next_message_id < i64::MAX,
        ensures
            final(self).wf(),
            r == Err::<CusSendMessageOutcome, CusSendMessageError>(CusSendMessageError::EmptyContent)
                <==> body@.len() == 0,
            r == Ok::<CusSendMessageOutcome, CusSendMessageError>(
                CusSendMessageOutcome::NoAdministrator,
            ) <==> (body@.len() > 0 && !has_admin(*old(self))),
            r == Ok::<CusSendMessageOutcome, CusSendMessageError>(
                CusSendMessageOutcome::SenderNotFound,
            ) <==> (body@.len() > 0 && has_admin(*old(self)) && !old(self).has_account(sender_id)),
            r == Err::<CusSendMessageOutcome, CusSendMessageError>(CusSendMessageError::NotACustomer)
                <==> (body@.len() > 0 && has_admin(*old(self)) && old(self).has_account(sender_id)
                && old(self).account_of(sender_id).role != Role::Customer),
            r == Ok::<CusSendMessageOutcome, CusSendMessageError>(CusSendMessageOutcome::Sent) <==> (
            body@.len() > 0 && has_admin(*old(self)) && old(self).has_account(sender_id) && old(
                self,
            ).account_of(sender_id).role == Role::Customer),
            r == Ok::<CusSendMessageOutcome, CusSendMessageError>(CusSendMessageOutcome::Sent)
                ==> ({
                &&& final(self).messages@.len() == old(self).messages@.len() + 1
                &&& final(self).messages@.drop_last() == old(self).messages@
                &&& final(self).messages@.last() == (Message {
                    id: old(self).next_message_id,
                    sender: sender_id,
                    receiver: first_admin(*old(self)).id,
                    title,
                    body,
                    send_date,
                    read: false,
                })
                &&& final(self).next_message_id == old(self).next_message_id + 1
                &&& final(self).accounts@ == old(self).accounts@
                &&& final(self).goods@ == old(self).goods@
                &&& final(self).consumption@ == old(self).consumption@
                &&& final(self).lost_items@ == old(self).lost_items@
                &&& final(self).next_account_id == old(self).next_account_id
                &&& final(self).next_goods_id == old(self).next_goods_id
                &&& final(self).next_lost_item_id == old(self).next_lost_item_id
            }),
            r != Ok::<CusSendMessageOutcome, CusSendMessageError>(CusSendMessageOutcome::Sent)
                ==> *final(self) == *old(self),
    {
        if body.as_str().is_empty() {
            return Err(CusSendMessageError::EmptyContent);
        }
        let admin_idx = match self.find_first_admin() {
            Some(a) => a,
            None => {
                return Ok(CusSendMessageOutcome::NoAdministrator);
            },
        };
        let receiver_id = self.accounts[admin_idx].id;
        let si = match self.find_account(sender_id) {
            Some(si) => si,
            None => {
                return Ok(CusSendMessageOutcome::SenderNotFound);
            },
        };
        if !matches!(self.accounts[si].role, Role::Customer) {
            return Err(CusSendMessageError::NotACustomer);
        }
        let row = Message {
            id: self.next_message_id,
            sender: sender_id,
            receiver: receiver_id,
            title,
            body,
            send_date,
            read: false,
        };
        self.messages.push(row);
        self.next_message_id = self.next_message_id + 1;
        proof {
            assert(self.messages@.drop_last() =~= old(self).messages@);
            crate::model::lemma_wf_push_message(*old(self), *self);
        }
        Ok(CusSendMessageOutcome::Sent)
    }

    /// Finds the first administrator account in the table.
    fn find_first_admin(&self) -> (r: Option<usize>)
        requires
            self.wf(),
        ensures
            r is Some <==> has_admin(*self),
            r matches Some(i) ==> i < self.accounts@.len() && self.accounts@[i as int].role
                == Role::Administrator && i as int == first_admin_index(self.accounts@),
    {
        let mut k: usize = 0;
        while k < self.accounts.len()
            invariant
                self.wf(),
                k <= self.accounts@.len(),
                forall|j: int|
                    0 <= j < k ==> (#[trigger] self.accounts@[j]).role != Role::Administrator,
            decreases self.accounts@.len() - k,
        {
            if matches!(self.accounts[k].role, Role::Administrator) {
                proof {
                    lemma_first_admin_at(self.accounts@, k as int);
                }
                return Some(k);
            }
            k += 1;
        }
        None
    }

    /// Marks a message read. Only the receiver may do it; a message
    /// already read stays as it is.
    pub fn mark_message_as_read(&mut self, message_id: i64, caller_id: i64) -> (r: Result<
        MarkReadOutcome,
        MarkReadError,
    >)
        requires
            old(self).wf(),
        ensures
            final(self).wf(),
            r == Err::<MarkReadOutcome, MarkReadError>(MarkReadError::NotFound) <==> !old(
                self,
            ).has_message(message_id),
            r == Err::<MarkReadOutcome, MarkReadError>(MarkReadError::NotReceiver) <==> (old(
                self,
            ).has_message(message_id) && old(self).message_of(message_id).receiver != caller_id),
            r == Ok::<MarkReadOutcome, MarkReadError>(MarkReadOutcome::AlreadyRead) <==> (old(
                self,
            ).has_message(message_id) && old(self).message_of(message_id).receiver == caller_id
                && old(self).message_of(message_id).read),
            r == Ok::<MarkReadOutcome, MarkReadError>(MarkReadOutcome::Marked) <==> (old(
                self,
            ).has_message(message_id) && old(self).message_of(message_id).receiver == caller_id
                && !old(self).message_of(message_id).read),
            r == Ok::<MarkReadOutcome, MarkReadError>(MarkReadOutcome::Marked) ==> ({
                let i = old(self).message_index(message_id);
                &&& final(self).messages@ == old(self).messages@.update(
                    i,
                    (Message { read: true, ..old(self).messages@[i] }),
                )
                &&& final(self).accounts@ == old(self).accounts@
                &&& final(self).goods@ == old(self).goods@
                &&& final(self).consumption@ == old(self).consumption@
                &&& final(self).lost_items@ == old(self).lost_items@
                &&& final(self).next_account_id == old(self).next_account_id
                &&& final(self).next_goods_id == old(self).next_goods_id
                &&& final(self).next_lost_item_id == old(self).next_lost_item_id
                &&& final(self).next_message_id == old(self).next_message_id
            }),
            r != Ok::<MarkReadOutcome, MarkReadError>(MarkReadOutcome::Marked) ==> *final(self)
                == *old(self),
    {
        let i = match self.find_message(message_id) {
            Some(i) => i,
            None => {
                return Err(MarkReadError::NotFound);
            },
        };
        if self.messages[i].receiver != caller_id {
            return Err(MarkReadError::NotReceiver);
        }
        if self.messages[i].read {
            return Ok(MarkReadOutcome::AlreadyRead);
        }
        self.messages[i].read = true;
        proof {
            assert(self.messages@ =~= old(self).messages@.update(
                i as int,
                self.messages@[i as int],
            ));
            crate::model::lemma_wf_update_message(*old(self), *self, i as int);
        }
        Ok(MarkReadOutcome::Marked)
    }

    /// Lists the messages this account sent, in table order, with
    /// usernames resolved.
    pub fn get_sent_messages(&self, user_id: i64) -> (r: Vec<MessageView>)
        requires
            self.wf(),
        ensures
            r@ == message_listing(*self, self.messages@, user_id, true),
    {
        self.collect_messages(user_id, true)
    }

    /// Lists the messages this account received, in table order, with
    /// usernames resolved.
    pub fn get_recived_messages(&self, user_id: i64) -> (r: Vec<MessageView>)
        requires
            self.wf(),
        ensures
            r@ == message_listing(*self, self.messages@, user_id, false),
    {
        self.collect_messages(user_id, false)
    }

    /// Walks the message table and keeps the rows whose sender (or,
    /// for `by_sender == false`, receiver) is the given account.
    fn collect_messages(&self, user_id: i64, by_sender: bool) -> (r: Vec<MessageView>)
        requires
            self.wf(),
        ensures
            r@ == message_listing(*self, self.messages@, user_id, by_sender),
    {
        let mut out: Vec<MessageView> = Vec::new();
        let mut k: usize = 0;
        while k < self.messages.len()
            invariant
                self.wf(),
                k <= self.messages@.len(),
                out@ == message_listing(
                    *self,
                    self.messages@.take(k as int),
                    user_id,
                    by_sender,
                ),
            decreases self.messages@.len() - k,
        {
            proof {
                assert(self.messages@.take(k + 1).drop_last() =~= self.messages@.take(k as int));
                assert(self.messages@.take(k + 1).last() == self.messages@[k as int]);
            }
            let m = &self.messages[k];
            let keep = if by_sender {
                m.sender == user_id
            } else {
                m.receiver == user_id
            };
            if keep {
                let sender_username = match self.find_account(m.sender) {
                    Some(ai) => self.accounts[ai].username.clone(),
                    None => String::new(),
                };
                let receiver_username = match self.find_account(m.receiver) {
                    Some(ai) => self.accounts[ai].username.clone(),
                    None => String::new(),
                };
                let view = MessageView {
                    id: m.id,
                    sender_id: m.sender,
                    receiver_id: m.receiver,
                    sender_username,
                    receiver_username,
                    title: match &m.title {
                        Some(t) => Some(t.clone()),
                        None => None,
                    },
                    body: m.body.clone(),
                    send_date: m.send_date,
                    read: m.read,
                };
                proof {
                    reveal(message_view);
                    assert(view == message_view(*self, self.messages@[k as int]));
                }
                out.push(view);
            }
            k += 1;
        }
        proof {
            assert(self.messages@.take(self.messages@.len() as int) =~= self.messages@);
        }
        out
    }
}

/// The listing of the messages among `msgs` whose sender (or, for
/// `by_sender == false`, receiver) is the given account: their views,
/// in table order.
pub open spec fn message_listing(s: Store, msgs: Seq<Message>, user_id: i64, by_sender: bool) -> Seq<
    MessageView,
>
    decreases msgs.len(),
{
    if msgs.len() == 0 {
        Seq::empty()
    } else {
        let front = message_listing(s, msgs.drop_last(), user_id, by_sender);
        if (by_sender && msgs.last().sender == user_id) || (!by_sender && msgs.last().receiver
            == user_id) {
            front.push(message_view(s, msgs.last()))
        } else {
            front
        }
    }
}

} // verus!
