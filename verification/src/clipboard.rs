//! Internal clipboard holding the last copied text.

use vstd::prelude::*;

verus! {

/// The internal clipboard; the console exposes no system selection, so the
/// text lives here only.
pub struct Clipboard {
    pub text: String,
}

impl Clipboard {
    /// An empty clipboard.
    pub fn new() -> (r: Clipboard)
        ensures
            r.text@ == Seq::<char>::empty(),
    {
        Clipboard { text: String::new() }
    }

    /// Replace the clipboard contents.
    pub fn set(&mut self, text: String)
        ensures
            final(self).text == text,
    {
        self.text = text;
    }

    /// The current contents.
    pub fn get(&self) -> (r: &str)
        ensures
            r@ == self.text@,
    {
        self.text.as_str()
    }

    /// Whether nothing has been copied yet (or the empty string was).
    pub fn is_empty(&self) -> (r: bool)
        ensures
            r == (self.text@.len() == 0),
    {
        self.text.as_str().is_empty()
    }
}

} // verus!
