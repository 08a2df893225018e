use vstd::prelude::*;
use crate::paginate::{batches_view, enumerate_pages, walk_items, Batch};
use crate::state::opt_view;

verus! {

/// The record that puts `subject` on `list`; the service stamps it with the
/// time of its creation.
pub struct ListItem {
    pub list: String,
    pub subject: String,
}

/// A moderation list, named by its record reference (an `at://` URI).
pub struct ModList(pub String);

impl View for ModList {
    type V = Seq<char>;

    open spec fn view(&self) -> Seq<char> {
        self.0@
    }
}

impl ModList {
    pub fn new(list: String) -> (r: Self)
        ensures
            r@ == list@,
    {
        ModList(list)
    }

    /// The list's record reference.
    pub fn reference(&self) -> (r: &str)
        ensures
            r@ == self@,
    {
        self.0.as_str()
    }

    /// The record that adds `subject` to this list. Adding a subject that is
    /// already there is left to the service, which accepts duplicates.
    pub fn item_for(&self, subject: String) -> (r: ListItem)
        ensures
            r.list@ == self@,
            r.subject@ == subject@,
    {
        ListItem { list: self.0.clone(), subject }
    }

    /// The member the list received last: the first one its listing yields,
    /// over the pages that the listing hands out from its start.
    pub fn most_recent_member(&self, pages: &Vec<Batch>) -> (r: Option<String>)
        ensures
            walk_items(batches_view(pages@)).len() == 0 ==> r.is_none(),
            walk_items(batches_view(pages@)).len() > 0 ==> opt_view(r) == Some(
                walk_items(batches_view(pages@))[0].subject,
            ),
    {
        let items = enumerate_pages(self.0.clone(), None, pages).items;
        if items.len() == 0 {
            None
        } else {
            Some(items[0].subject.clone())
        }
    }
}

} // verus!
