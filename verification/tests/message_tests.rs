use cafehub::accounts::RegisterOutcome;
use cafehub::dates::Date;
use cafehub::messages::CusSendMessageError;
use cafehub::messages::CusSendMessageOutcome;
use cafehub::messages::MarkReadError;
use cafehub::messages::MarkReadOutcome;
use cafehub::messages::SendMessageError;
use cafehub::messages::SendMessageOutcome;
use cafehub::model::Role;
use cafehub::model::Store;

fn a_date() -> Date {
    Date { year: 2024, month: 3, day: 14 }
}

/// A store with an administrator (id 1) and a customer (id 2).
fn store_with_admin_and_customer() -> Store {
    let mut store = Store::new();
    let r = store.register_user("admin".to_string(), "pw pw".to_string(), None, None, a_date());
    assert_eq!(r, Ok(RegisterOutcome::Registered));
    store.accounts[0].role = Role::Administrator;
    let r = store.register_user("carol".to_string(), "pw pw".to_string(), None, None, a_date());
    assert_eq!(r, Ok(RegisterOutcome::Registered));
    store
}

#[test]
fn admin_send_message_outcomes() {
    let mut store = store_with_admin_and_customer();
    assert_eq!(
        store.admin_send_message(1, 2, None, "".to_string(), a_date()),
        Err(SendMessageError::EmptyContent)
    );
    assert_eq!(
        store.admin_send_message(1, 1, None, "hi".to_string(), a_date()),
        Err(SendMessageError::SameUser)
    );
    assert_eq!(
        store.admin_send_message(9, 2, None, "hi".to_string(), a_date()),
        Ok(SendMessageOutcome::SenderNotFound)
    );
    assert_eq!(
        store.admin_send_message(1, 9, None, "hi".to_string(), a_date()),
        Ok(SendMessageOutcome::ReceiverNotFound)
    );
    assert_eq!(
        store.admin_send_message(1, 2, Some("note".to_string()), "hi".to_string(), a_date()),
        Ok(SendMessageOutcome::Sent)
    );
    assert_eq!(store.messages.len(), 1);
    assert_eq!(store.messages[0].sender, 1);
    assert_eq!(store.messages[0].receiver, 2);
    assert!(!store.messages[0].read);
}

#[test]
fn customer_send_message_outcomes() {
    let mut store = store_with_admin_and_customer();
    assert_eq!(
        store.customer_send_message(2, None, "".to_string(), a_date()),
        Err(CusSendMessageError::EmptyContent)
    );
    assert_eq!(
        store.customer_send_message(9, None, "hello".to_string(), a_date()),
        Ok(CusSendMessageOutcome::SenderNotFound)
    );
    assert_eq!(
        store.customer_send_message(1, None, "hello".to_string(), a_date()),
        Err(CusSendMessageError::NotACustomer)
    );
    assert_eq!(
        store.customer_send_message(2, None, "hello".to_string(), a_date()),
        Ok(CusSendMessageOutcome::Sent)
    );
    assert_eq!(store.messages[0].receiver, 1);

    // With no administrator at all, the send is answered accordingly.
    let mut lonely = Store::new();
    lonely.register_user("dave".to_string(), "pw".to_string(), None, None, a_date()).unwrap();
    assert_eq!(
        lonely.customer_send_message(1, None, "hello".to_string(), a_date()),
        Ok(CusSendMessageOutcome::NoAdministrator)
    );
}

#[test]
fn mark_message_read_exactly_once_and_only_by_receiver() {
    let mut store = store_with_admin_and_customer();
    store.admin_send_message(1, 2, None, "hi".to_string(), a_date()).unwrap();
    assert_eq!(
        store.mark_message_as_read(9, 2),
        Err(MarkReadError::NotFound)
    );
    assert_eq!(
        store.mark_message_as_read(1, 1),
        Err(MarkReadError::NotReceiver)
    );
    assert!(!store.messages[0].read);
    assert_eq!(store.mark_message_as_read(1, 2), Ok(MarkReadOutcome::Marked));
    assert!(store.messages[0].read);
    assert_eq!(store.mark_message_as_read(1, 2), Ok(MarkReadOutcome::AlreadyRead));
    assert!(store.messages[0].read);
}

#[test]
fn message_listings_resolve_usernames() {
    let mut store = store_with_admin_and_customer();
    store.admin_send_message(1, 2, None, "hi".to_string(), a_date()).unwrap();
    store.customer_send_message(2, None, "hello".to_string(), a_date()).unwrap();

    let sent_by_admin = store.get_sent_messages(1);
    assert_eq!(sent_by_admin.len(), 1);
    assert_eq!(sent_by_admin[0].sender_username, "admin");
    assert_eq!(sent_by_admin[0].receiver_username, "carol");
    assert_eq!(sent_by_admin[0].body, "hi");

    let received_by_admin = store.get_recived_messages(1);
    assert_eq!(received_by_admin.len(), 1);
    assert_eq!(received_by_admin[0].sender_username, "carol");
    assert_eq!(received_by_admin[0].body, "hello");

    assert_eq!(store.get_sent_messages(2).len(), 1);
    assert_eq!(store.get_recived_messages(2).len(), 1);
    assert_eq!(store.get_sent_messages(9).len(), 0);
}
