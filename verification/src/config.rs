use vstd::prelude::*;

verus! {

/// Size of a virtual-memory page in bytes.
pub const PAGE_SIZE: usize = 4096;

/// Number of mails a mailbox holds before it is full.
pub const MAIL_BOX_SIZE: usize = 16;

/// Largest number of bytes one mail carries.
pub const MAIL_CONTENT_SIZE: usize = 256;

} // verus!
