//! Virtual addresses as the x86_64 crate checks them: a value of
//! [`VirtAddr`] is always canonical, and every address is made by asking
//! `x86_64::VirtAddr::try_new`.
use vstd::prelude::*;

verus! {

/// Lowest address of the canonical upper half.
pub const UPPER_HALF_START: u64 = 0xffff_8000_0000_0000;

/// First address that is no longer in the canonical lower half.
pub const LOWER_HALF_END: u64 = 0x0000_8000_0000_0000;

/// First address with a bit in the range 48 to 64 set.
pub const ADDRESS_48_BIT_END: u64 = 0x0001_0000_0000_0000;

/// Bits 48 to 64, which sign extension of bit 47 sets.
pub const SIGN_EXTENSION_BITS: u64 = 0xffff_0000_0000_0000;

/// An address is canonical when bits 47 to 64 are all zero or all one.
pub open spec fn is_canonical(addr: u64) -> bool {
    addr < LOWER_HALF_END || addr >= UPPER_HALF_START
}

/// What `x86_64::VirtAddr::try_new` makes of a raw value: a canonical value
/// stays as it is, a value whose bits 48 to 64 are null but whose bit 47 is
/// set is sign-extended, and any other value is refused.
pub open spec fn checked_virt_addr(addr: u64) -> Option<u64> {
    if is_canonical(addr) {
        Some(addr)
    } else if addr < ADDRESS_48_BIT_END {
        Some((addr + SIGN_EXTENSION_BITS) as u64)
    } else {
        None
    }
}

/// Calls `x86_64::VirtAddr::try_new`. Its documentation and source: it
/// succeeds when bits 48 to 64 are a copy of bit 47 (the value is kept) or
/// are all null (bit 47 is copied into them), and fails otherwise.
#[verifier::external_body]
fn virt_addr_try_new(addr: u64) -> (r: Option<u64>)
    ensures
        r == checked_virt_addr(addr),
{
    match x86_64::VirtAddr::try_new(addr) {
        Ok(a) => Some(a.as_u64()),
        Err(_) => None,
    }
}

/// What `VirtAddr::new` makes of a value: a canonical value is kept; a
/// value is accepted exactly when it is canonical or below 2^48; the result
/// is canonical and keeps the value's low 48 bits.
pub proof fn lemma_checked_virt_addr(addr: u64)
    ensures
        is_canonical(addr) ==> checked_virt_addr(addr) == Some(addr),
        checked_virt_addr(addr) is Some <==> is_canonical(addr) || addr < ADDRESS_48_BIT_END,
        checked_virt_addr(addr) is Some ==> is_canonical(checked_virt_addr(addr)->0)
            && checked_virt_addr(addr)->0 % 0x1_0000_0000_0000 == addr % 0x1_0000_0000_0000,
{
}

/// A canonical 64-bit virtual address.
#[derive(Debug, Clone, Copy)]
pub struct VirtAddr {
    addr: u64,
}

impl View for VirtAddr {
    type V = u64;

    closed spec fn view(&self) -> u64 {
        self.addr
    }
}

impl VirtAddr {
    #[verifier::type_invariant]
    spec fn canonical(self) -> bool {
        is_canonical(self.addr)
    }

    /// Makes a canonical address from `addr`, sign-extending bit 47 where
    /// bits 48 to 64 are null. Such data in those bits that is no sign
    /// extension makes the x86_64 crate panic; it is ruled out here.
    pub fn new(addr: u64) -> (r: VirtAddr)
        requires
            checked_virt_addr(addr) is Some,
        ensures
            r@ == checked_virt_addr(addr)->0,
            is_canonical(r@),
    {
        let checked = virt_addr_try_new(addr);
        match checked {
            Some(a) => VirtAddr { addr: a },
            None => VirtAddr { addr: 0 },
        }
    }

    /// Makes a canonical address from `addr`, or `None` where bits 48 to 64
    /// hold data that is no sign extension of bit 47.
    pub fn try_new(addr: u64) -> (r: Option<VirtAddr>)
        ensures
            r is Some <==> checked_virt_addr(addr) is Some,
            r is Some ==> r->0@ == checked_virt_addr(addr)->0,
    {
        match virt_addr_try_new(addr) {
            Some(a) => Some(VirtAddr { addr: a }),
            None => None,
        }
    }

    /// The address as a number.
    pub fn as_u64(&self) -> (r: u64)
        ensures
            r == self@,
            is_canonical(r),
    {
        proof {
            use_type_invariant(self);
        }
        self.addr
    }

    /// This address moved up by `offset`, checked as a new address: the sum
    /// must not overflow and must be accepted by `VirtAddr::new`.
    pub fn add(&self, offset: u64) -> (r: VirtAddr)
        requires
            self@ + offset <= u64::MAX,
            checked_virt_addr((self@ + offset) as u64) is Some,
        ensures
            r@ == checked_virt_addr((self@ + offset) as u64)->0,
    {
        VirtAddr::new(self.addr + offset)
    }
}

} // verus!
