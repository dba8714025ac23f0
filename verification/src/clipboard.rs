//! In-process clipboard for text widgets: the text last copied or cut.
//!
//! This is not the system clipboard. The host keeps one `Clipboard` for the
//! whole process and hands it to the functions below.

use vstd::prelude::*;

verus! {

pub struct Clipboard {
    text: String,
}

impl Clipboard {
    pub closed spec fn contents(&self) -> Seq<char> {
        self.text@
    }

    /// An empty clipboard.
    pub fn new() -> (c: Clipboard)
        ensures
            c.contents() == Seq::<char>::empty(),
    {
        Clipboard { text: String::new() }
    }
}

/// Writes `text` to the clipboard, replacing what it held.
pub fn set_clipboard(clipboard: &mut Clipboard, text: &str)
    ensures
        final(clipboard).contents() == text@,
{
    clipboard.text = text.to_owned();
}

/// The clipboard's current contents.
pub fn get_clipboard(clipboard: &Clipboard) -> (s: String)
    ensures
        s@ == clipboard.contents(),
{
    clipboard.text.clone()
}

/// Empties the clipboard.
pub fn clear_clipboard(clipboard: &mut Clipboard)
    ensures
        final(clipboard).contents() == Seq::<char>::empty(),
{
    clipboard.text = String::new();
}

} // verus!
