//! Terminal hyperlink escape sequences. Whether the terminal
//! supports them is probed by the caller; these helpers only build
//! the text.

use vstd::prelude::*;

verus! {

/// An OSC 8 hyperlink when the terminal supports them, else the
/// plain text.
pub fn hyperlink(url: &str, text: &str, supported: bool) -> (r: String)
    ensures
        supported ==> r@ == "\u{1b}]8;;"@ + url@ + "\u{1b}\\"@ + text@ + "\u{1b}]8;;\u{1b}\\"@,
        !supported ==> r@ == text@,
{
    if supported {
        let mut r: String = "\u{1b}]8;;".to_owned();
        r.append(url);
        r.append("\u{1b}\\");
        r.append(text);
        r.append("\u{1b}]8;;\u{1b}\\");
        r
    } else {
        text.to_owned()
    }
}

/// A `file://` hyperlink to a local path.
pub fn file_hyperlink(path: &str, text: &str, supported: bool) -> (r: String)
    ensures
        supported ==> r@ == "\u{1b}]8;;"@ + ("file://"@ + path@) + "\u{1b}\\"@ + text@
            + "\u{1b}]8;;\u{1b}\\"@,
        !supported ==> r@ == text@,
{
    let mut url: String = "file://".to_owned();
    url.append(path);
    hyperlink(url.as_str(), text, supported)
}

} // verus!
