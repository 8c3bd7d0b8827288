//! The decisions behind configfs attributes of a block device: how a value is shown into an
//! attribute page, and when a store into the device's configuration is refused.

use vstd::prelude::*;
use crate::error::Error;

verus! {

/// Size in bytes of a configfs attribute page.
pub const PAGE_SIZE: usize = 4096;

/// Writes the text of a shown value into an attribute page, as much of it as fits.
///
/// Returns the number of bytes written when all of `text` fits, and fails with
/// [`Error::EINVAL`] when it does not. The bytes of the page past the written ones are left as
/// they were.
pub fn fill_page(text: &[u8], page: &mut [u8; PAGE_SIZE]) -> (r: Result<usize, Error>)
    ensures
        ({
            let n = if text@.len() <= PAGE_SIZE { text@.len() as int } else { PAGE_SIZE as int };
            &&& final(page)@.subrange(0, n) == text@.subrange(0, n)
            &&& final(page)@.subrange(n, PAGE_SIZE as int) == old(page)@.subrange(n, PAGE_SIZE as int)
        }),
        text@.len() <= PAGE_SIZE ==> r == Ok::<usize, Error>(text@.len() as usize),
        text@.len() > PAGE_SIZE ==> r == Err::<usize, Error>(Error::EINVAL),
{
    let n = if text.len() <= PAGE_SIZE { text.len() } else { PAGE_SIZE };
    let mut i: usize = 0;
    while i < n
        invariant
            n <= PAGE_SIZE,
            n <= text@.len(),
            n == (if text@.len() <= PAGE_SIZE { text@.len() as int } else { PAGE_SIZE as int }),
            i <= n,
            page@.len() == PAGE_SIZE,
            forall|k: int| 0 <= k < i ==> page@[k] == text@[k],
            forall|k: int| i <= k < PAGE_SIZE ==> page@[k] == old(page)@[k],
        decreases n - i,
    {
        page[i] = text[i];
        i = i + 1;
    }
    assert(page@.subrange(0, n as int) =~= text@.subrange(0, n as int));
    assert(page@.subrange(n as int, PAGE_SIZE as int) =~= old(page)@.subrange(n as int, PAGE_SIZE as int));
    if text.len() <= PAGE_SIZE {
        Ok(text.len())
    } else {
        Err(Error::EINVAL)
    }
}

/// Decides a store into the configuration of a device: a store is refused with
/// [`Error::EBUSY`] while the device is powered, and goes ahead otherwise.
pub fn store_with_power_check(powered: bool) -> (r: Result<(), Error>)
    ensures
        powered ==> r == Err::<(), Error>(Error::EBUSY),
        !powered ==> r == Ok::<(), Error>(()),
{
    if powered {
        return Err(Error::EBUSY);
    }
    Ok(())
}

/// Decides a store of a number read from an attribute page: a page that did not read as a
/// number is refused with its own error, before the device's power is looked at; a powered
/// device then refuses with [`Error::EBUSY`]; otherwise the number goes to the store.
pub fn store_number_with_power_check<T>(parsed: Result<T, Error>, powered: bool) -> (r: Result<T, Error>)
    ensures
        parsed is Err ==> r == parsed,
        parsed is Ok && powered ==> r == Err::<T, Error>(Error::EBUSY),
        parsed is Ok && !powered ==> r == parsed,
{
    let value = match parsed {
        Ok(v) => v,
        Err(e) => return Err(e),
    };
    if powered {
        return Err(Error::EBUSY);
    }
    Ok(value)
}

} // verus!
