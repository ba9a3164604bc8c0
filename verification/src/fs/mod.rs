//! Files as the kernel sees them, and the mailboxes that tasks use to pass
//! messages to one another.
use vstd::prelude::*;

pub mod mail;

use crate::mm::UserBuffer;
pub use mail::{MailBox, MailStore, MailSenders, update_mail_sender, get_mail_sender};

verus! {

/// What the kernel can do with an open file.
///
/// A file value is a handle: the state it reads and changes lives in a
/// `MailStore`, so that two handles of one file (a duplicated descriptor,
/// the two ends of a mailbox) see the same contents.
pub trait File {
    spec fn spec_readable(&self) -> bool;

    spec fn spec_writable(&self) -> bool;

    /// The handle refers to state that exists in `store`.
    spec fn belongs_to(&self, store: &MailStore) -> bool;

    /// What a read through this handle gives, from the state of the store
    /// and the bytes of the buffer: how many bytes were read, the buffer
    /// afterwards and the store afterwards.
    spec fn read_spec(&self, store: Seq<Seq<Seq<u8>>>, buf: Seq<u8>) -> (usize, Seq<u8>, Seq<
        Seq<Seq<u8>>,
    >);

    /// What a write through this handle gives: how many bytes were written
    /// and the store afterwards.
    spec fn write_spec(&self, store: Seq<Seq<Seq<u8>>>, buf: Seq<u8>) -> (usize, Seq<
        Seq<Seq<u8>>,
    >);

    fn readable(&self) -> (r: bool)
        ensures
            r == self.spec_readable(),
    ;

    fn writable(&self) -> (r: bool)
        ensures
            r == self.spec_writable(),
    ;

    /// Moves bytes from the file into `buf`; returns how many.
    fn read(&self, store: &mut MailStore, buf: &mut UserBuffer) -> (n: usize)
        requires
            old(store).wf(),
            self.belongs_to(old(store)),
        ensures
            final(store).wf(),
            final(store)@.len() == old(store)@.len(),
            final(buf)@.len() == old(buf)@.len(),
            n <= old(buf)@.len(),
            (n, final(buf)@, final(store)@) == self.read_spec(old(store)@, old(buf)@),
    ;

    /// Moves bytes from `buf` into the file; returns how many.
    fn write(&self, store: &mut MailStore, buf: &UserBuffer) -> (n: usize)
        requires
            old(store).wf(),
            self.belongs_to(old(store)),
        ensures
            final(store).wf(),
            final(store)@.len() == old(store)@.len(),
            n <= buf@.len(),
            (n, final(store)@) == self.write_spec(old(store)@, buf@),
    ;
}

} // verus!
