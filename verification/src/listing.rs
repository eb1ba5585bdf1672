//! Accumulation of paginated listing results into one logical list.
//!
//! The list API returns interfaces a page at a time, each page carrying an
//! optional continuation token. The caller drives the page requests; this
//! module holds the one decision the loop makes: append the page's interfaces
//! to what was gathered so far, and continue exactly while a token is present.

use vstd::prelude::*;
use crate::model::EniRecord;

verus! {

/// One page of a paginated listing: its interfaces and the continuation
/// token, absent on the final page.
pub struct ListPage {
    pub interfaces: Vec<EniRecord>,
    pub next_token: Option<String>,
}

/// Folds one page into the accumulated listing and hands back the page's
/// continuation token: the listing becomes the concatenation of what was
/// gathered and the page's interfaces, in order, and the caller must request
/// another page exactly when the returned token is present.
pub fn accumulate_page(acc: &mut Vec<EniRecord>, page: ListPage) -> (next: Option<String>)
    ensures
        final(acc)@ == old(acc)@ + page.interfaces@,
        final(acc).deep_view() == old(acc).deep_view() + page.interfaces.deep_view(),
        next == page.next_token,
{
    let ListPage { mut interfaces, next_token } = page;
    let ghost before = *acc;
    acc.append(&mut interfaces);
    proof {
        assert(acc.deep_view() =~= before.deep_view() + page.interfaces.deep_view());
    }
    next_token
}

} // verus!
