//! Mailboxes: bounded first-in first-out queues of short messages.
//!
//! A mailbox is reached through two handles, a sender and a receiver, that
//! share one queue. The queues live in a `MailStore`; a `MailBox` names its
//! queue by position in the store.
use vstd::prelude::*;

use std::collections::VecDeque;

use crate::config::{MAIL_BOX_SIZE, MAIL_CONTENT_SIZE};
use crate::fs::File;
use crate::mm::UserBuffer;

verus! {

/// How full a mailbox is.
#[derive(Clone, Copy, PartialEq, Eq, Structural, Debug)]
pub enum MailBoxStatus {
    FULL,
    EMPTY,
    NORMAL,
}

/// Which end of a mailbox a handle is.
#[derive(Clone, Copy, PartialEq, Eq, Structural, Debug)]
pub enum MailerRole {
    Sender,
    Reciver,
}

/// One message.
pub struct MailContent(pub Vec<u8>);

impl View for MailContent {
    type V = Seq<u8>;

    open spec fn view(&self) -> Seq<u8> {
        self.0@
    }
}

impl MailContent {
    pub fn new() -> (r: Self)
        ensures
            r@ == Seq::<u8>::empty(),
    {
        MailContent(Vec::new())
    }
}

impl Clone for MailContent {
    fn clone(&self) -> (r: Self)
        ensures
            r@ == self@,
    {
        let mut bytes: Vec<u8> = Vec::new();
        let mut i: usize = 0;
        while i < self.0.len()
            invariant
                i <= self.0@.len(),
                bytes@ == self.0@.take(i as int),
            decreases self.0@.len() - i,
        {
            bytes.push(self.0[i]);
            i = i + 1;
            assert(bytes@ =~= self.0@.take(i as int));
        }
        assert(bytes@ =~= self.0@);
        MailContent(bytes)
    }
}

/// The messages of one mailbox and how full it is.
pub struct MailBoxInner {
    queue: VecDeque<MailContent>,
    status: MailBoxStatus,
}

pub open spec fn mail_bytes(m: MailContent) -> Seq<u8> {
    m@
}

impl View for MailBoxInner {
    /// The messages, oldest first.
    type V = Seq<Seq<u8>>;

    closed spec fn view(&self) -> Seq<Seq<u8>> {
        self.queue@.map_values(|m: MailContent| mail_bytes(m))
    }
}

impl MailBoxInner {
    /// The queue holds at most `MAIL_BOX_SIZE` messages, and the status says
    /// whether it is full, empty or neither.
    pub closed spec fn wf(&self) -> bool {
        &&& self.queue@.len() <= MAIL_BOX_SIZE
        &&& (self.status == MailBoxStatus::FULL <==> self.queue@.len() == MAIL_BOX_SIZE)
        &&& (self.status == MailBoxStatus::EMPTY <==> self.queue@.len() == 0)
    }

    pub closed spec fn spec_status(&self) -> MailBoxStatus {
        self.status
    }

    /// The status is a function of the number of messages.
    pub proof fn lemma_status(&self)
        requires
            self.wf(),
        ensures
            self@.len() <= MAIL_BOX_SIZE,
            self.spec_status() == status_of_len(self@.len()),
    {
    }

    pub fn new() -> (r: Self)
        ensures
            r.wf(),
            r@ == Seq::<Seq<u8>>::empty(),
    {
        let r = Self { queue: VecDeque::new(), status: MailBoxStatus::EMPTY };
        assert(r@ =~= Seq::<Seq<u8>>::empty());
        r
    }

    pub fn status(&self) -> (r: MailBoxStatus)
        ensures
            r == self.spec_status(),
    {
        self.status
    }

    /// Appends `mail` unless the mailbox is full; says whether it did.
    pub fn send_mail(&mut self, mail: MailContent) -> (r: bool)
        requires
            old(self).wf(),
        ensures
            final(self).wf(),
            r == (old(self)@.len() < MAIL_BOX_SIZE),
            r ==> final(self)@ == old(self)@.push(mail@),
            !r ==> final(self)@ == old(self)@,
    {
        if self.status == MailBoxStatus::FULL {
            return false;
        }
        let ghost bytes = mail@;
        self.queue.push_back(mail);
        if self.queue.len() == MAIL_BOX_SIZE {
            self.status = MailBoxStatus::FULL;
        } else {
            self.status = MailBoxStatus::NORMAL;
        }
        assert(self@ =~= old(self)@.push(bytes));
        true
    }

    /// Takes the oldest message out, unless the mailbox is empty.
    pub fn recive_mail(&mut self) -> (r: Option<MailContent>)
        requires
            old(self).wf(),
        ensures
            final(self).wf(),
            old(self)@.len() == 0 ==> r is None && final(self)@ == old(self)@,
            old(self)@.len() > 0 ==> (r matches Some(m) && m@ == old(self)@[0] && final(self)@
                == old(self)@.drop_first()),
    {
        if self.status == MailBoxStatus::EMPTY {
            return None;
        }
        let c = self.queue.pop_front();
        if self.queue.len() == 0 {
            self.status = MailBoxStatus::EMPTY;
        } else {
            self.status = MailBoxStatus::NORMAL;
        }
        assert(self@ =~= old(self)@.drop_first());
        c
    }
}

/// The status that a mailbox holding `len` messages has.
pub open spec fn status_of_len(len: nat) -> MailBoxStatus {
    if len == MAIL_BOX_SIZE {
        MailBoxStatus::FULL
    } else if len == 0 {
        MailBoxStatus::EMPTY
    } else {
        MailBoxStatus::NORMAL
    }
}

impl Clone for MailBoxInner {
    fn clone(&self) -> (r: Self)
        ensures
            self.wf() ==> r.wf(),
            r@ == self@,
            r.spec_status() == self.spec_status(),
    {
        let mut new = Self::new();
        new.status = self.status;
        let mut i: usize = 0;
        while i < self.queue.len()
            invariant
                i <= self.queue@.len(),
                new.status == self.status,
                new@ == self@.take(i as int),
            decreases self.queue@.len() - i,
        {
            let c = self.queue[i].clone();
            let ghost prev = new.queue@;
            assert(prev.map_values(|m: MailContent| mail_bytes(m)).len() == i);
            assert(c@ == self@[i as int]);
            new.queue.push_back(c);
            assert(new.queue@ == prev.push(c));
            i = i + 1;
            assert(new@ =~= self@.take(i as int));
        }
        assert(new@ =~= self@);
        new
    }
}

/// The queues of all mailboxes.
pub struct MailStore {
    boxes: Vec<MailBoxInner>,
}

pub open spec fn box_mails(b: MailBoxInner) -> Seq<Seq<u8>> {
    b@
}

impl View for MailStore {
    /// For each mailbox, its messages.
    type V = Seq<Seq<Seq<u8>>>;

    closed spec fn view(&self) -> Seq<Seq<Seq<u8>>> {
        self.boxes@.map_values(|b: MailBoxInner| box_mails(b))
    }
}

impl MailStore {
    /// Every mailbox holds at most `MAIL_BOX_SIZE` messages and knows its status.
    pub closed spec fn wf(&self) -> bool {
        forall|i: int| 0 <= i < self.boxes@.len() ==> (#[trigger] self.boxes@[i]).wf()
    }

    /// In a well-formed store no mailbox holds more than `MAIL_BOX_SIZE` messages.
    pub proof fn lemma_bounded(&self, i: int)
        requires
            self.wf(),
            0 <= i < self@.len(),
        ensures
            self@[i].len() <= MAIL_BOX_SIZE,
    {
        assert(self.boxes@[i].wf());
    }

    pub fn new() -> (r: Self)
        ensures
            r.wf(),
            r@ == Seq::<Seq<Seq<u8>>>::empty(),
    {
        let r = MailStore { boxes: Vec::new() };
        assert(r@ =~= Seq::<Seq<Seq<u8>>>::empty());
        r
    }

    pub fn len(&self) -> (r: usize)
        ensures
            r == self@.len(),
    {
        self.boxes.len()
    }

    /// Adds a mailbox holding what `inner` holds; returns its position.
    fn push_inner(&mut self, inner: MailBoxInner) -> (slot: usize)
        requires
            old(self).wf(),
            inner.wf(),
        ensures
            final(self).wf(),
            slot == old(self)@.len(),
            final(self)@ == old(self)@.push(inner@),
    {
        let slot = self.boxes.len();
        let ghost mails = inner@;
        self.boxes.push(inner);
        assert(self@ =~= old(self)@.push(mails));
        slot
    }

    fn is_full_at(&self, slot: usize) -> (r: bool)
        requires
            self.wf(),
            slot < self@.len(),
        ensures
            r == (self@[slot as int].len() == MAIL_BOX_SIZE),
    {
        assert(self.boxes@[slot as int].wf());
        self.boxes[slot].status() == MailBoxStatus::FULL
    }

    fn is_empty_at(&self, slot: usize) -> (r: bool)
        requires
            self.wf(),
            slot < self@.len(),
        ensures
            r == (self@[slot as int].len() == 0),
    {
        assert(self.boxes@[slot as int].wf());
        self.boxes[slot].status() == MailBoxStatus::EMPTY
    }

    fn clone_at(&self, slot: usize) -> (r: MailBoxInner)
        requires
            self.wf(),
            slot < self@.len(),
        ensures
            r.wf(),
            r@ == self@[slot as int],
    {
        assert(self.boxes@[slot as int].wf());
        self.boxes[slot].clone()
    }

    fn send_at(&mut self, slot: usize, mail: MailContent) -> (r: bool)
        requires
            old(self).wf(),
            slot < old(self)@.len(),
        ensures
            final(self).wf(),
            r == (old(self)@[slot as int].len() < MAIL_BOX_SIZE),
            r ==> final(self)@ == old(self)@.update(
                slot as int,
                old(self)@[slot as int].push(mail@),
            ),
            !r ==> final(self)@ == old(self)@,
    {
        assert(self.boxes@[slot as int].wf());
        let r = self.boxes[slot].send_mail(mail);
        proof {
            assert forall|i: int| 0 <= i < self.boxes@.len() implies (
            #[trigger] self.boxes@[i]).wf() by {
                if i != slot {
                    assert(self.boxes@[i] == old(self).boxes@[i]);
                }
            }
            assert(self@ =~= old(self)@.update(slot as int, self.boxes@[slot as int]@));
        }
        r
    }

    fn recive_at(&mut self, slot: usize) -> (r: Option<MailContent>)
        requires
            old(self).wf(),
            slot < old(self)@.len(),
        ensures
            final(self).wf(),
            old(self)@[slot as int].len() == 0 ==> r is None && final(self)@ == old(self)@,
            old(self)@[slot as int].len() > 0 ==> (r matches Some(m) && m@ == old(
                self,
            )@[slot as int][0] && final(self)@ == old(self)@.update(
                slot as int,
                old(self)@[slot as int].drop_first(),
            )),
    {
        assert(self.boxes@[slot as int].wf());
        let r = self.boxes[slot].recive_mail();
        proof {
            assert forall|i: int| 0 <= i < self.boxes@.len() implies (
            #[trigger] self.boxes@[i]).wf() by {
                if i != slot {
                    assert(self.boxes@[i] == old(self).boxes@[i]);
                }
            }
            assert(self@ =~= old(self)@.update(slot as int, self.boxes@[slot as int]@));
        }
        r
    }
}

/// One end of a mailbox.
#[derive(Clone, Copy, PartialEq, Eq, Structural, Debug)]
pub struct MailBox {
    role: MailerRole,
    inner: usize,
}

impl MailBox {
    pub closed spec fn role(&self) -> MailerRole {
        self.role
    }

    /// Position of the shared queue in the store.
    pub closed spec fn slot(&self) -> int {
        self.inner as int
    }

    pub fn get_role(&self) -> (r: MailerRole)
        ensures
            r == self.role(),
    {
        self.role
    }

    /// Makes a new, empty mailbox; returns its sender and its receiver.
    pub fn new(store: &mut MailStore) -> (r: (Self, Self))
        requires
            old(store).wf(),
        ensures
            final(store).wf(),
            final(store)@ == old(store)@.push(Seq::<Seq<u8>>::empty()),
            r.0.role() == MailerRole::Sender,
            r.1.role() == MailerRole::Reciver,
            r.0.slot() == old(store)@.len(),
            r.1.slot() == old(store)@.len(),
    {
        let inner = store.push_inner(MailBoxInner::new());
        (MailBox { role: MailerRole::Sender, inner }, MailBox { role: MailerRole::Reciver, inner })
    }

    pub fn is_full(&self, store: &MailStore) -> (r: bool)
        requires
            store.wf(),
            self.slot() < store@.len(),
        ensures
            r == (store@[self.slot()].len() == MAIL_BOX_SIZE),
    {
        store.is_full_at(self.inner)
    }

    pub fn is_empty(&self, store: &MailStore) -> (r: bool)
        requires
            store.wf(),
            self.slot() < store@.len(),
        ensures
            r == (store@[self.slot()].len() == 0),
    {
        store.is_empty_at(self.inner)
    }

    /// Makes a new mailbox that starts with a copy of the messages of
    /// `exist`'s mailbox; returns its sender and its receiver.
    pub fn from_existed(store: &mut MailStore, exist: &Self) -> (r: (Self, Self))
        requires
            old(store).wf(),
            exist.slot() < old(store)@.len(),
        ensures
            final(store).wf(),
            final(store)@ == old(store)@.push(old(store)@[exist.slot()]),
            r.0.role() == MailerRole::Sender,
            r.1.role() == MailerRole::Reciver,
            r.0.slot() == old(store)@.len(),
            r.1.slot() == old(store)@.len(),
    {
        let copy = store.clone_at(exist.inner);
        let inner = store.push_inner(copy);
        (MailBox { role: MailerRole::Sender, inner }, MailBox { role: MailerRole::Reciver, inner })
    }
}

/// What reading from a mailbox holding `mails` into a buffer holding `buf`
/// gives: how many bytes were copied, the buffer afterwards and the
/// messages afterwards.
pub open spec fn mail_read(mails: Seq<Seq<u8>>, buf: Seq<u8>) -> (usize, Seq<u8>, Seq<Seq<u8>>) {
    if mails.len() == 0 {
        (0, buf, mails)
    } else {
        let k = vstd::math::min(mails[0].len() as int, buf.len() as int);
        (k as usize, mails[0].take(k) + buf.skip(k), mails.drop_first())
    }
}

/// What writing a buffer holding `buf` into a mailbox holding `mails` gives:
/// how many bytes were sent and the messages afterwards.
pub open spec fn mail_write(mails: Seq<Seq<u8>>, buf: Seq<u8>) -> (usize, Seq<Seq<u8>>) {
    if mails.len() >= MAIL_BOX_SIZE {
        (0, mails)
    } else {
        let k = vstd::math::min(MAIL_CONTENT_SIZE as int, buf.len() as int);
        (k as usize, mails.push(buf.take(k)))
    }
}

impl File for MailBox {
    open spec fn spec_readable(&self) -> bool {
        self.role() == MailerRole::Reciver
    }

    open spec fn spec_writable(&self) -> bool {
        self.role() == MailerRole::Sender
    }

    open spec fn belongs_to(&self, store: &MailStore) -> bool {
        0 <= self.slot() < store@.len()
    }

    open spec fn read_spec(&self, store: Seq<Seq<Seq<u8>>>, buf: Seq<u8>) -> (usize, Seq<u8>, Seq<
        Seq<Seq<u8>>,
    >) {
        let r = mail_read(store[self.slot()], buf);
        (r.0, r.1, store.update(self.slot(), r.2))
    }

    open spec fn write_spec(&self, store: Seq<Seq<Seq<u8>>>, buf: Seq<u8>) -> (usize, Seq<
        Seq<Seq<u8>>,
    >) {
        let r = mail_write(store[self.slot()], buf);
        (r.0, store.update(self.slot(), r.1))
    }

    /// The receiving end is readable.
    fn readable(&self) -> (r: bool) {
        self.role == MailerRole::Reciver
    }

    /// The sending end is writable.
    fn writable(&self) -> (r: bool) {
        self.role == MailerRole::Sender
    }

    /// Takes the oldest message and copies as much of it as fits into `buf`;
    /// the rest of that message is lost.
    fn read(&self, store: &mut MailStore, buf: &mut UserBuffer) -> (n: usize)
        ensures
            n == mail_read(old(store)@[self.slot()], old(buf)@).0,
            final(buf)@ == mail_read(old(store)@[self.slot()], old(buf)@).1,
            final(store)@ == old(store)@.update(
                self.slot(),
                mail_read(old(store)@[self.slot()], old(buf)@).2,
            ),
    {
        if self.is_empty(store) {
            assert(old(store)@ =~= old(store)@.update(self.slot(), old(store)@[self.slot()]));
            return 0;
        }
        let mut read_size: usize = 0;
        match store.recive_at(self.inner) {
            Some(mail_content) => {
                let ghost before = buf@;
                while read_size < mail_content.0.len()
                    invariant
                        read_size <= mail_content@.len(),
                        read_size <= buf@.len(),
                        buf@.len() == before.len(),
                        buf@ == mail_content@.take(read_size as int) + before.skip(
                            read_size as int,
                        ),
                    ensures
                        read_size == vstd::math::min(mail_content@.len() as int, before.len() as int),
                        buf@ == mail_content@.take(read_size as int) + before.skip(
                            read_size as int,
                        ),
                    decreases mail_content@.len() - read_size,
                {
                    if read_size < buf.data.len() {
                        buf.data[read_size] = mail_content.0[read_size];
                        read_size = read_size + 1;
                        assert(buf@ =~= mail_content@.take(read_size as int) + before.skip(
                            read_size as int,
                        ));
                    } else {
                        break;
                    }
                }
                read_size
            },
            None => 0,
        }
    }

    /// Sends the first `MAIL_CONTENT_SIZE` bytes of `buf` (all of it when
    /// shorter) as one message, unless the mailbox is full.
    fn write(&self, store: &mut MailStore, buf: &UserBuffer) -> (n: usize)
        ensures
            n == mail_write(old(store)@[self.slot()], buf@).0,
            final(store)@ == old(store)@.update(
                self.slot(),
                mail_write(old(store)@[self.slot()], buf@).1,
            ),
    {
        proof {
            store.lemma_bounded(self.slot());
        }
        if self.is_full(store) {
            assert(old(store)@ =~= old(store)@.update(self.slot(), old(store)@[self.slot()]));
            return 0;
        }
        let mut mail_content = MailContent::new();
        let mut i: usize = 0;
        while i < MAIL_CONTENT_SIZE
            invariant
                i <= MAIL_CONTENT_SIZE,
                i <= buf@.len(),
                mail_content@ == buf@.take(i as int),
            ensures
                i == vstd::math::min(MAIL_CONTENT_SIZE as int, buf@.len() as int),
                mail_content@ == buf@.take(i as int),
            decreases MAIL_CONTENT_SIZE - i,
        {
            if i < buf.data.len() {
                mail_content.0.push(buf.data[i]);
                i = i + 1;
                assert(mail_content@ =~= buf@.take(i as int));
            } else {
                break;
            }
        }
        let write_size = mail_content.0.len();
        if store.send_at(self.inner, mail_content) {
            write_size
        } else {
            0
        }
    }
}


/// What the sending end of a mailbox writes into an empty mailbox, its
/// receiving end reads back: the first `MAIL_CONTENT_SIZE` bytes of the
/// written buffer (all of it when shorter), cut to the length of the
/// reading buffer; afterwards the mailbox is empty again.
pub proof fn law_mail_round_trip(
    store: Seq<Seq<Seq<u8>>>,
    sender: MailBox,
    receiver: MailBox,
    data: Seq<u8>,
    out: Seq<u8>,
)
    requires
        sender.slot() == receiver.slot(),
        0 <= sender.slot() < store.len(),
        store[sender.slot()].len() == 0,
    ensures
        ({
            let (n, store1) = sender.write_spec(store, data);
            let (m, out1, store2) = receiver.read_spec(store1, out);
            &&& n == vstd::math::min(MAIL_CONTENT_SIZE as int, data.len() as int)
            &&& m == vstd::math::min(n as int, out.len() as int)
            &&& out1.take(m as int) == data.take(m as int)
            &&& out1.skip(m as int) == out.skip(m as int)
            &&& store2 == store
        }),
{
    let (n, store1) = sender.write_spec(store, data);
    let (m, out1, store2) = receiver.read_spec(store1, out);
    assert(store1[sender.slot()] =~= seq![data.take(n as int)]);
    assert(out1.take(m as int) =~= data.take(m as int));
    assert(out1.skip(m as int) =~= out.skip(m as int));
    assert(store1[sender.slot()].drop_first() =~= Seq::<Seq<u8>>::empty());
    assert(store[sender.slot()] =~= Seq::<Seq<u8>>::empty());
    assert(store2 =~= store);
}

/// The part of `buf` that one mail carries.
pub open spec fn mail_cut(buf: Seq<u8>) -> Seq<u8> {
    buf.take(vstd::math::min(MAIL_CONTENT_SIZE as int, buf.len() as int))
}

/// The messages of a mailbox holding `mails` after each of `bufs` has been
/// written into it in turn.
pub open spec fn send_all(mails: Seq<Seq<u8>>, bufs: Seq<Seq<u8>>) -> Seq<Seq<u8>>
    decreases bufs.len(),
{
    if bufs.len() == 0 {
        mails
    } else {
        send_all(mail_write(mails, bufs[0]).1, bufs.drop_first())
    }
}

proof fn lemma_send_all(mails: Seq<Seq<u8>>, bufs: Seq<Seq<u8>>)
    requires
        mails.len() + bufs.len() <= MAIL_BOX_SIZE,
    ensures
        send_all(mails, bufs) == mails + bufs.map_values(|b: Seq<u8>| mail_cut(b)),
    decreases bufs.len(),
{
    if bufs.len() == 0 {
        assert(mails + bufs.map_values(|b: Seq<u8>| mail_cut(b)) =~= mails);
    } else {
        let m1 = mail_write(mails, bufs[0]).1;
        assert(m1 == mails.push(mail_cut(bufs[0])));
        lemma_send_all(m1, bufs.drop_first());
        assert(mails + bufs.map_values(|b: Seq<u8>| mail_cut(b)) =~= m1 + bufs.drop_first().map_values(
            |b: Seq<u8>| mail_cut(b),
        ));
    }
}

/// Up to `MAIL_BOX_SIZE` writes into an empty mailbox each send their first
/// `MAIL_CONTENT_SIZE` bytes; the reads that follow get the mails back in
/// the order they were written, each cut to its reading buffer; once all
/// are read, a further read gets nothing.
pub proof fn law_mail_fifo_many(bufs: Seq<Seq<u8>>, outs: Seq<Seq<u8>>)
    requires
        bufs.len() <= MAIL_BOX_SIZE,
        outs.len() == bufs.len(),
    ensures
        forall|i: int|
            0 <= i < bufs.len() ==> #[trigger] mail_write(
                send_all(Seq::<Seq<u8>>::empty(), bufs.take(i)),
                bufs[i],
            ).0 == mail_cut(bufs[i]).len(),
        forall|i: int|
            #![trigger send_all(Seq::<Seq<u8>>::empty(), bufs).skip(i)]
            0 <= i < bufs.len() ==> mail_read(send_all(Seq::<Seq<u8>>::empty(), bufs).skip(i), outs[i])
                == ({
                let m = vstd::math::min(mail_cut(bufs[i]).len() as int, outs[i].len() as int);
                (m as usize, bufs[i].take(m) + outs[i].skip(m), send_all(Seq::<Seq<u8>>::empty(), bufs).skip(i + 1))
            }),
        forall|out: Seq<u8>|
            #[trigger] mail_read(send_all(Seq::<Seq<u8>>::empty(), bufs).skip(bufs.len() as int), out).0 == 0,
{
    let e = Seq::<Seq<u8>>::empty();
    lemma_send_all(e, bufs);
    let all = send_all(e, bufs);
    assert(all =~= bufs.map_values(|b: Seq<u8>| mail_cut(b)));
    assert forall|i: int| 0 <= i < bufs.len() implies #[trigger] mail_write(
        send_all(e, bufs.take(i)),
        bufs[i],
    ).0 == mail_cut(bufs[i]).len() by {
        lemma_send_all(e, bufs.take(i));
        assert(send_all(e, bufs.take(i)).len() == i);
    }
    assert forall|i: int|
        #![trigger send_all(Seq::<Seq<u8>>::empty(), bufs).skip(i)]
        0 <= i < bufs.len() implies mail_read(all.skip(i), outs[i]) == ({
        let m = vstd::math::min(mail_cut(bufs[i]).len() as int, outs[i].len() as int);
        (m as usize, bufs[i].take(m) + outs[i].skip(m), all.skip(i + 1))
    }) by {
        let q = all.skip(i);
        assert(q[0] == mail_cut(bufs[i]));
        let m = vstd::math::min(mail_cut(bufs[i]).len() as int, outs[i].len() as int);
        assert(mail_cut(bufs[i]).take(m) =~= bufs[i].take(m));
        assert(q.drop_first() =~= all.skip(i + 1));
    }
    assert forall|out: Seq<u8>|
        #[trigger] mail_read(all.skip(bufs.len() as int), out).0 == 0 by {
        assert(all.skip(bufs.len() as int).len() == 0);
    }
}

/// Mail comes out in the order it went in: writing into a mailbox that
/// already holds mail does not change which mail is read next.
pub proof fn law_mail_fifo(mails: Seq<Seq<u8>>, data: Seq<u8>, out: Seq<u8>)
    requires
        mails.len() > 0,
    ensures
        mail_read(mail_write(mails, data).1, out).0 == mail_read(mails, out).0,
        mail_read(mail_write(mails, data).1, out).1 == mail_read(mails, out).1,
{
}

/// A mailbox never holds more than `MAIL_BOX_SIZE` mails: a write into a
/// full mailbox sends nothing and changes nothing.
pub proof fn law_mail_capacity(mails: Seq<Seq<u8>>, data: Seq<u8>)
    requires
        mails.len() <= MAIL_BOX_SIZE,
    ensures
        mail_write(mails, data).1.len() <= MAIL_BOX_SIZE,
        mails.len() == MAIL_BOX_SIZE ==> mail_write(mails, data) == (0usize, mails),
        mails.len() < MAIL_BOX_SIZE ==> mail_write(mails, data).1.len() == mails.len() + 1,
{
}

/// Reading from an empty mailbox reads nothing and changes nothing.
pub proof fn law_mail_read_empty(out: Seq<u8>)
    ensures
        mail_read(Seq::<Seq<u8>>::empty(), out) == (0usize, out, Seq::<Seq<u8>>::empty()),
{
}

/// Mailboxes are independent: writing or reading through one handle leaves
/// every other mailbox as it was.
pub proof fn law_mail_independent(
    store: Seq<Seq<Seq<u8>>>,
    a: MailBox,
    b: MailBox,
    data: Seq<u8>,
    out: Seq<u8>,
)
    requires
        a.slot() != b.slot(),
        0 <= a.slot() < store.len(),
        0 <= b.slot() < store.len(),
    ensures
        a.write_spec(store, data).1[b.slot()] == store[b.slot()],
        a.read_spec(store, out).2[b.slot()] == store[b.slot()],
        a.write_spec(store, data).1.len() == store.len(),
        a.read_spec(store, out).2.len() == store.len(),
{
}

/// The senders that tasks write mail through, each under a number.
pub struct MailSenders {
    entries: Vec<(usize, MailBox)>,
}

impl MailSenders {
    /// Each number occurs at most once.
    pub closed spec fn wf(&self) -> bool {
        forall|i: int, j: int|
            0 <= i < self.entries@.len() && 0 <= j < self.entries@.len() && i != j
                ==> #[trigger] self.entries@[i].0 != #[trigger] self.entries@[j].0
    }

    /// How many senders are registered.
    pub closed spec fn size(&self) -> nat {
        self.entries@.len()
    }

    /// The sender registered under `number`, if any.
    pub closed spec fn lookup(&self, number: usize) -> Option<MailBox> {
        if exists|i: int| 0 <= i < self.entries@.len() && self.entries@[i].0 == number {
            let i = choose|i: int| 0 <= i < self.entries@.len() && self.entries@[i].0 == number;
            Some(self.entries@[i].1)
        } else {
            None
        }
    }

    pub fn new() -> (r: Self)
        ensures
            r.wf(),
            r.size() == 0,
            forall|n: usize| r.lookup(n) is None,
    {
        MailSenders { entries: Vec::new() }
    }
}

/// Registers `new_mail_box` as the sender of number `new_number`, in place
/// of any sender registered under that number before.
pub fn update_mail_sender(senders: &mut MailSenders, new_number: usize, new_mail_box: MailBox)
    requires
        old(senders).wf(),
        new_mail_box.role() == MailerRole::Sender,
    ensures
        final(senders).wf(),
        final(senders).lookup(new_number) == Some(new_mail_box),
        forall|n: usize| n != new_number ==> final(senders).lookup(n) == old(senders).lookup(n),
        final(senders).size() == old(senders).size() + (if old(senders).lookup(new_number) is Some {
            0nat
        } else {
            1nat
        }),
{
    let mut i: usize = 0;
    while i < senders.entries.len()
        invariant
            senders.wf(),
            *senders == *old(senders),
            i <= senders.entries@.len(),
            forall|j: int| 0 <= j < i ==> senders.entries@[j].0 != new_number,
        decreases senders.entries@.len() - i,
    {
        if senders.entries[i].0 == new_number {
            let ghost before = senders.entries@;
            senders.entries[i] = (new_number, new_mail_box);
            proof {
                let after = senders.entries@;
                assert(after == before.update(i as int, (new_number, new_mail_box)));
                assert forall|a: int, b: int|
                    0 <= a < after.len() && 0 <= b < after.len() && a != b implies #[trigger] after[a].0
                    != #[trigger] after[b].0 by {
                    assert(before[a].0 == after[a].0);
                    assert(before[b].0 == after[b].0);
                }
                assert(0 <= i < after.len() && after[i as int].0 == new_number);
                assert(before[i as int].0 == new_number);
                assert(old(senders).lookup(new_number) is Some);
                assert forall|n: usize| n != new_number implies senders.lookup(n) == old(
                    senders,
                ).lookup(n) by {
                    if exists|j: int| 0 <= j < before.len() && before[j].0 == n {
                        let j = choose|j: int| 0 <= j < before.len() && before[j].0 == n;
                        assert(after[j].0 == n);
                        let k = choose|k: int| 0 <= k < after.len() && after[k].0 == n;
                        assert(k == j);
                    } else {
                        assert forall|k: int| 0 <= k < after.len() implies after[k].0 != n by {
                            assert(after[k].0 == before[k].0);
                        }
                    }
                }
            }
            return;
        }
        i = i + 1;
    }
    let ghost before = senders.entries@;
    senders.entries.push((new_number, new_mail_box));
    proof {
        let after = senders.entries@;
        assert(old(senders).lookup(new_number) is None);
        assert(after == before.push((new_number, new_mail_box)));
        assert(after[before.len() as int].0 == new_number);
        assert forall|n: usize| n != new_number implies senders.lookup(n) == old(senders).lookup(
            n,
        ) by {
            if exists|j: int| 0 <= j < before.len() && before[j].0 == n {
                let j = choose|j: int| 0 <= j < before.len() && before[j].0 == n;
                assert(after[j].0 == n);
                let k = choose|k: int| 0 <= k < after.len() && after[k].0 == n;
                assert(k == j);
            } else {
                assert forall|k: int| 0 <= k < after.len() implies after[k].0 != n by {
                    if k < before.len() {
                        assert(after[k].0 == before[k].0);
                    }
                }
            }
        }
    }
}

/// The sender registered under `number`, if any.
pub fn get_mail_sender(senders: &MailSenders, number: usize) -> (r: Option<MailBox>)
    requires
        senders.wf(),
    ensures
        r == senders.lookup(number),
{
    let mut i: usize = 0;
    while i < senders.entries.len()
        invariant
            senders.wf(),
            i <= senders.entries@.len(),
            forall|j: int| 0 <= j < i ==> senders.entries@[j].0 != number,
        decreases senders.entries@.len() - i,
    {
        if senders.entries[i].0 == number {
            let r = senders.entries[i].1;
            proof {
                let k = choose|k: int|
                    0 <= k < senders.entries@.len() && senders.entries@[k].0 == number;
                assert(k == i);
            }
            return Some(r);
        }
        i = i + 1;
    }
    None
}

} // verus!
