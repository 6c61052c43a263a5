//! The plain data behind rendered pages: titles, navigation items, flash
//! messages, and the arithmetic of pagination links. Rendering itself is
//! not the library's business; these values are handed to whatever layer
//! draws them.

use vstd::prelude::*;

verus! {

/// The tone of a flash message.
#[derive(Clone, Copy, Debug, PartialEq, Eq, Structural)]
pub enum FlashType {
    Success,
    Warning,
    Error,
}

/// A one-shot message shown at the top of the next rendered page.
pub struct Flash {
    pub message: String,
    pub flash_type: FlashType,
}

/// One navigation link.
pub struct NavItem {
    pub title: String,
    pub link: String,
    pub hidden: bool,
}

impl NavItem {
    /// A visible navigation link.
    pub fn new(title: String, link: String) -> (r: NavItem)
        ensures
            r.title == title,
            r.link == link,
            !r.hidden,
    {
        NavItem { title, link, hidden: false }
    }

    /// A navigation link that is kept but not shown.
    pub fn hidden(title: String, link: String) -> (r: NavItem)
        ensures
            r.title == title,
            r.link == link,
            r.hidden,
    {
        NavItem { title, link, hidden: true }
    }
}

/// Everything a rendered page needs besides its body.
pub struct Page {
    pub rel_path: String,
    pub title: String,
    pub nav: Vec<NavItem>,
    pub flash: Option<Flash>,
    pub previous: Option<NavItem>,
    pub next: Option<NavItem>,
}

impl Page {
    /// A page with no flash and no pagination links yet.
    pub fn new(rel_path: String, title: String, nav: Vec<NavItem>) -> (r: Page)
        ensures
            r.rel_path == rel_path,
            r.title == title,
            r.nav == nav,
            r.flash is None,
            r.previous is None,
            r.next is None,
    {
        Page { rel_path, title, nav, flash: None, previous: None, next: None }
    }

    /// Replaces the page's flash with a success message.
    pub fn flash_success(&mut self, message: String)
        ensures
            final(self).flash == Some(Flash { message, flash_type: FlashType::Success }),
            final(self).rel_path == old(self).rel_path,
            final(self).title == old(self).title,
            final(self).nav == old(self).nav,
            final(self).previous == old(self).previous,
            final(self).next == old(self).next,
    {
        self.flash = Some(Flash { message, flash_type: FlashType::Success });
    }
}

/// The offsets of the pagination links a page gets: a previous page
/// whenever this one does not start at the newest entry, stepping back by
/// `limit` but never past the start; and a next page whenever this page
/// came back non-empty, stepping forward by `limit` and saturating at the
/// top of `usize`.
pub fn page_nav(offset: usize, limit: usize, returned: usize) -> (r: (Option<usize>, Option<usize>))
    ensures
        r.0 == if offset > 0 {
            Some(if offset >= limit { (offset - limit) as usize } else { 0usize })
        } else {
            None::<usize>
        },
        r.1 == if returned > 0 {
            Some(if offset + limit <= usize::MAX { (offset + limit) as usize } else { usize::MAX })
        } else {
            None::<usize>
        },
{
    let previous = if offset > 0 {
        Some(if offset >= limit { offset - limit } else { 0 })
    } else {
        None
    };
    let next = if returned > 0 {
        Some(if limit <= usize::MAX - offset { offset + limit } else { usize::MAX })
    } else {
        None
    };
    (previous, next)
}

} // verus!
