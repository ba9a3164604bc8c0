use os_kernel::config::{MAIL_BOX_SIZE, MAIL_CONTENT_SIZE};
use os_kernel::fs::mail::{MailBox, MailBoxInner, MailBoxStatus, MailContent, MailSenders, MailStore, MailerRole};
use os_kernel::fs::{get_mail_sender, update_mail_sender, File};
use os_kernel::mm::UserBuffer;

fn buf(bytes: &[u8]) -> UserBuffer {
    UserBuffer::new(bytes.to_vec())
}

#[test]
fn new_pair_has_sender_and_receiver() {
    let mut store = MailStore::new();
    let (s, r) = MailBox::new(&mut store);
    assert_eq!(s.get_role(), MailerRole::Sender);
    assert_eq!(r.get_role(), MailerRole::Reciver);
    assert!(s.writable() && !s.readable());
    assert!(r.readable() && !r.writable());
    assert!(r.is_empty(&store));
    assert!(!r.is_full(&store));
    assert_eq!(store.len(), 1);
}

#[test]
fn round_trip_through_a_pair() {
    let mut store = MailStore::new();
    let (s, r) = MailBox::new(&mut store);
    assert_eq!(s.write(&mut store, &buf(b"hello")), 5);
    assert!(!r.is_empty(&store));
    let mut out = buf(&[0u8; 8]);
    assert_eq!(r.read(&mut store, &mut out), 5);
    assert_eq!(out.data, b"hello\0\0\0".to_vec());
    assert!(r.is_empty(&store));
}

#[test]
fn reading_cuts_the_mail_to_the_buffer_and_drops_the_rest() {
    let mut store = MailStore::new();
    let (s, r) = MailBox::new(&mut store);
    s.write(&mut store, &buf(b"abcdef"));
    s.write(&mut store, &buf(b"xy"));
    let mut out = buf(&[9u8; 3]);
    assert_eq!(r.read(&mut store, &mut out), 3);
    assert_eq!(out.data, b"abc".to_vec());
    let mut out = buf(&[9u8; 3]);
    assert_eq!(r.read(&mut store, &mut out), 2);
    assert_eq!(out.data, vec![b'x', b'y', 9]);
    assert!(r.is_empty(&store));
}

#[test]
fn mail_comes_out_in_order() {
    let mut store = MailStore::new();
    let (s, r) = MailBox::new(&mut store);
    for i in 0..5u8 {
        assert_eq!(s.write(&mut store, &buf(&[i, i])), 2);
    }
    for i in 0..5u8 {
        let mut out = buf(&[0u8; 2]);
        assert_eq!(r.read(&mut store, &mut out), 2);
        assert_eq!(out.data, vec![i, i]);
    }
}

#[test]
fn a_mail_carries_at_most_256_bytes() {
    let mut store = MailStore::new();
    let (s, r) = MailBox::new(&mut store);
    let big: Vec<u8> = (0..300u32).map(|i| (i % 251) as u8).collect();
    assert_eq!(s.write(&mut store, &UserBuffer::new(big.clone())), MAIL_CONTENT_SIZE);
    let mut out = UserBuffer::new(vec![0u8; 300]);
    assert_eq!(r.read(&mut store, &mut out), 256);
    assert_eq!(&out.data[..256], &big[..256]);
    assert_eq!(&out.data[256..], &[0u8; 44][..]);
}

#[test]
fn a_full_mailbox_takes_no_more_mail() {
    let mut store = MailStore::new();
    let (s, r) = MailBox::new(&mut store);
    for i in 0..MAIL_BOX_SIZE {
        assert!(!s.is_full(&store));
        assert_eq!(s.write(&mut store, &buf(&[i as u8])), 1);
    }
    assert!(s.is_full(&store));
    assert_eq!(s.write(&mut store, &buf(b"late")), 0);
    let mut out = buf(&[0u8; 1]);
    assert_eq!(r.read(&mut store, &mut out), 1);
    assert_eq!(out.data, vec![0]);
    assert!(!s.is_full(&store));
    assert_eq!(s.write(&mut store, &buf(b"now")), 3);
    assert!(s.is_full(&store));
}

#[test]
fn reading_an_empty_mailbox_reads_nothing() {
    let mut store = MailStore::new();
    let (_s, r) = MailBox::new(&mut store);
    let mut out = buf(b"keep");
    assert_eq!(r.read(&mut store, &mut out), 0);
    assert_eq!(out.data, b"keep".to_vec());
}

#[test]
fn an_empty_write_sends_an_empty_mail() {
    let mut store = MailStore::new();
    let (s, r) = MailBox::new(&mut store);
    assert_eq!(s.write(&mut store, &buf(b"")), 0);
    assert!(!r.is_empty(&store));
    let mut out = buf(b"zz");
    assert_eq!(r.read(&mut store, &mut out), 0);
    assert_eq!(out.data, b"zz".to_vec());
    assert!(r.is_empty(&store));
}

#[test]
fn from_existed_copies_and_is_independent() {
    let mut store = MailStore::new();
    let (s, r) = MailBox::new(&mut store);
    s.write(&mut store, &buf(b"one"));
    s.write(&mut store, &buf(b"two"));
    let (s2, r2) = MailBox::from_existed(&mut store, &r);
    assert_eq!(s2.get_role(), MailerRole::Sender);
    assert_eq!(r2.get_role(), MailerRole::Reciver);
    assert_eq!(store.len(), 2);
    let mut out = buf(&[0u8; 3]);
    assert_eq!(r2.read(&mut store, &mut out), 3);
    assert_eq!(out.data, b"one".to_vec());
    s2.write(&mut store, &buf(b"new"));
    let mut out = buf(&[0u8; 3]);
    assert_eq!(r.read(&mut store, &mut out), 3);
    assert_eq!(out.data, b"one".to_vec());
    let mut out = buf(&[0u8; 3]);
    assert_eq!(r.read(&mut store, &mut out), 3);
    assert_eq!(out.data, b"two".to_vec());
    assert!(r.is_empty(&store));
    let mut out = buf(&[0u8; 3]);
    assert_eq!(r2.read(&mut store, &mut out), 3);
    assert_eq!(out.data, b"two".to_vec());
    let mut out = buf(&[0u8; 3]);
    assert_eq!(r2.read(&mut store, &mut out), 3);
    assert_eq!(out.data, b"new".to_vec());
}

#[test]
fn inner_status_follows_the_number_of_mails() {
    let mut inner = MailBoxInner::new();
    assert_eq!(inner.status(), MailBoxStatus::EMPTY);
    assert!(inner.recive_mail().is_none());
    for i in 0..MAIL_BOX_SIZE {
        assert!(inner.send_mail(MailContent(vec![i as u8])));
        if i + 1 < MAIL_BOX_SIZE {
            assert_eq!(inner.status(), MailBoxStatus::NORMAL);
        }
    }
    assert_eq!(inner.status(), MailBoxStatus::FULL);
    assert!(!inner.send_mail(MailContent(vec![99])));
    let copy = inner.clone();
    assert_eq!(copy.status(), MailBoxStatus::FULL);
    for i in 0..MAIL_BOX_SIZE {
        let m = inner.recive_mail().unwrap();
        assert_eq!(m.0, vec![i as u8]);
    }
    assert_eq!(inner.status(), MailBoxStatus::EMPTY);
    assert_eq!(copy.status(), MailBoxStatus::FULL);
}

#[test]
fn mail_content_clone_keeps_the_bytes() {
    let c = MailContent(vec![1, 2, 3]);
    assert_eq!(c.clone().0, vec![1, 2, 3]);
    assert!(MailContent::new().0.is_empty());
}

#[test]
fn registry_updates_and_finds_senders() {
    let mut store = MailStore::new();
    let (s1, _r1) = MailBox::new(&mut store);
    let (s2, _r2) = MailBox::new(&mut store);
    let mut senders = MailSenders::new();
    assert!(get_mail_sender(&senders, 7).is_none());
    update_mail_sender(&mut senders, 7, s1);
    update_mail_sender(&mut senders, 9, s2);
    assert_eq!(get_mail_sender(&senders, 7), Some(s1));
    assert_eq!(get_mail_sender(&senders, 9), Some(s2));
    update_mail_sender(&mut senders, 7, s2);
    assert_eq!(get_mail_sender(&senders, 7), Some(s2));
    assert_eq!(get_mail_sender(&senders, 9), Some(s2));
    assert!(get_mail_sender(&senders, 8).is_none());
}
