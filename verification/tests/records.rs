use crudapp::state::JournalError;
use crudapp::state::MAX_MESSAGE_LEN;
use crudapp::state::MAX_TITLE_LEN;
use crudapp::state::Pubkey;
use crudapp::state::bytes_eq;
use crudapp::state::make_journal_entry;
use crudapp::state::pubkey_eq;
use crudapp::state::replace_message;

#[test]
fn make_journal_entry_stores_fields_verbatim() {
    let owner = Pubkey { bytes: [3u8; 32] };
    let entry = make_journal_entry(owner, b"Day1".to_vec(), b"hello".to_vec())
        .expect("texts within bounds must be accepted");
    assert_eq!(entry.owner.bytes, [3u8; 32]);
    assert_eq!(entry.title, b"Day1".to_vec());
    assert_eq!(entry.message, b"hello".to_vec());
}

#[test]
fn make_journal_entry_reports_the_oversized_title_first() {
    let owner = Pubkey { bytes: [3u8; 32] };
    let r = make_journal_entry(
        owner,
        vec![b'x'; MAX_TITLE_LEN + 1],
        vec![b'x'; MAX_MESSAGE_LEN + 1],
    );
    assert_eq!(r.err(), Some(JournalError::TitleTooLong));
    let r = make_journal_entry(owner, b"Day1".to_vec(), vec![b'x'; MAX_MESSAGE_LEN + 1]);
    assert_eq!(r.err(), Some(JournalError::MessageTooLong));
}

#[test]
fn replace_message_changes_only_the_message() {
    let owner = Pubkey { bytes: [3u8; 32] };
    let mut entry = make_journal_entry(owner, b"Day1".to_vec(), b"hello".to_vec()).unwrap();
    let r = replace_message(&mut entry, b"world".to_vec());
    assert_eq!(r, Ok(()));
    assert_eq!(entry.owner.bytes, [3u8; 32]);
    assert_eq!(entry.title, b"Day1".to_vec());
    assert_eq!(entry.message, b"world".to_vec());
}

#[test]
fn replace_message_rejects_an_oversized_message() {
    let owner = Pubkey { bytes: [3u8; 32] };
    let mut entry = make_journal_entry(owner, b"Day1".to_vec(), b"hello".to_vec()).unwrap();
    let r = replace_message(&mut entry, vec![b'x'; MAX_MESSAGE_LEN + 1]);
    assert_eq!(r, Err(JournalError::MessageTooLong));
    assert_eq!(entry.message, b"hello".to_vec());
}

#[test]
fn pubkey_eq_compares_all_bytes() {
    let a = Pubkey { bytes: [5u8; 32] };
    let b = Pubkey { bytes: [5u8; 32] };
    let mut c = Pubkey { bytes: [5u8; 32] };
    c.bytes[31] = 6;
    assert!(pubkey_eq(&a, &b));
    assert!(!pubkey_eq(&a, &c));
}

#[test]
fn bytes_eq_compares_length_and_contents() {
    assert!(bytes_eq(&b"Day1".to_vec(), &b"Day1".to_vec()));
    assert!(!bytes_eq(&b"Day1".to_vec(), &b"Day2".to_vec()));
    assert!(!bytes_eq(&b"Day1".to_vec(), &b"Day10".to_vec()));
    assert!(bytes_eq(&Vec::new(), &Vec::new()));
}
