//! Keyboard layout of the host compositor.
//!
//! The program around the library is a client of the host for a moment: it
//! binds the seat, takes its keyboard, and gets the layout as an XKB keymap.

use vstd::prelude::*;
use vstd::string::StrSliceExecFns;
use vstd::utf8::{decode_utf8, valid_utf8};

use crate::text::same_text;

verus! {

/// The largest keymap that is accepted (1 MiB).
pub const MAX_KEYMAP_SIZE: usize = 1024 * 1024;

/// The text that `String::from_utf8_lossy` makes of bytes.
pub uninterp spec fn lossy_utf8(bytes: Seq<u8>) -> Seq<char>;

/// Calls `String::from_utf8_lossy`. It is named by [`lossy_utf8`]; beside that,
/// valid UTF-8 is decoded as it is. What stands for bytes that are not valid is
/// not stated.
#[verifier::external_body]
fn lossy_text(bytes: &[u8]) -> (text: String)
    ensures
        text@ == lossy_utf8(bytes@),
        valid_utf8(bytes@) ==> text@ == decode_utf8(bytes@),
{
    String::from_utf8_lossy(bytes).into_owned()
}

/// `text` without the NUL characters at its end.
pub open spec fn without_nuls(text: Seq<char>) -> Seq<char>
    decreases text.len(),
{
    if text.len() > 0 && text.last() == '\0' {
        without_nuls(text.drop_last())
    } else {
        text
    }
}

/// Drops the NUL characters at the end of a text.
pub fn trim_nuls(text: &str) -> (trimmed: String)
    ensures
        trimmed@ == without_nuls(text@),
{
    let mut end: usize = text.unicode_len();
    assert(text@.take(end as int) =~= text@);
    while end > 0 && text.get_char(end - 1) == '\0'
        invariant
            end <= text@.len(),
            without_nuls(text@) == without_nuls(text@.take(end as int)),
        decreases end,
    {
        assert(text@.take(end as int).drop_last() =~= text@.take(end - 1));
        end = end - 1;
    }
    assert(text@.take(end as int) =~= text@.subrange(0, end as int));
    text.substring_char(0, end).to_owned()
}

/// The keymap in the bytes that the host shares: text that ends in NUL.
pub fn keymap_text(bytes: &[u8]) -> (keymap: String)
    ensures
        keymap@ == without_nuls(lossy_utf8(bytes@)),
        valid_utf8(bytes@) ==> keymap@ == without_nuls(decode_utf8(bytes@)),
{
    trim_nuls(&lossy_text(bytes))
}

/// A keymap does not end in NUL, and is the text up to there.
pub proof fn trimmed_keymap(text: Seq<char>)
    ensures
        without_nuls(text).is_prefix_of(text),
        without_nuls(text).len() > 0 ==> without_nuls(text).last() != '\0',
        forall|i: int| without_nuls(text).len() <= i < text.len() ==> text[i] == '\0',
    decreases text.len(),
{
    if text.len() > 0 && text.last() == '\0' {
        trimmed_keymap(text.drop_last());
        let kept = without_nuls(text);
        assert(kept =~= text.subrange(0, kept.len() as int)) by {
            assert(kept =~= text.drop_last().subrange(0, kept.len() as int));
        }
        assert forall|i: int| kept.len() <= i < text.len() implies text[i] == '\0' by {
            if i < text.len() - 1 {
                assert(text.drop_last()[i] == text[i]);
            }
        }
    } else {
        assert(text =~= text.subrange(0, text.len() as int));
    }
}

/// What a [`KeymapReader`] stands for.
#[verifier::ext_equal]
pub struct ReaderView {
    pub has_seat: bool,
    pub has_keyboard: bool,
    pub keymap: Option<Seq<char>>,
}

/// The way to the host's keymap.
#[derive(Debug)]
pub struct KeymapReader {
    has_seat: bool,
    has_keyboard: bool,
    keymap: Option<String>,
}

impl View for KeymapReader {
    type V = ReaderView;

    closed spec fn view(&self) -> ReaderView {
        ReaderView {
            has_seat: self.has_seat,
            has_keyboard: self.has_keyboard,
            keymap: match self.keymap {
                Some(k) => Some(k@),
                None => None,
            },
        }
    }
}

impl KeymapReader {
    /// Nothing has been bound.
    pub fn new() -> (r: KeymapReader)
        ensures
            r@ == (ReaderView { has_seat: false, has_keyboard: false, keymap: None }),
    {
        KeymapReader { has_seat: false, has_keyboard: false, keymap: None }
    }

    /// The host announces a global. Gives the version in which it is to be
    /// bound, if it is the first seat.
    pub fn on_global(&mut self, interface: &str, version: u32) -> (bind: Option<u32>)
        ensures
            bind == if interface@ == "wl_seat"@ && !old(self)@.has_seat {
                Some(
                    if version < 1 {
                        version
                    } else {
                        1
                    },
                )
            } else {
                None
            },
            final(self)@ == (ReaderView {
                has_seat: old(self)@.has_seat || bind is Some,
                ..old(self)@
            }),
    {
        if same_text(interface, "wl_seat") && !self.has_seat {
            self.has_seat = true;
            Some(
                if version < 1 {
                    version
                } else {
                    1
                },
            )
        } else {
            None
        }
    }

    /// The seat announces its capabilities. Gives whether its keyboard is to be
    /// taken.
    pub fn on_capabilities(&mut self, keyboard: bool) -> (take: bool)
        ensures
            take == (keyboard && !old(self)@.has_keyboard),
            final(self)@ == (ReaderView {
                has_keyboard: old(self)@.has_keyboard || take,
                ..old(self)@
            }),
    {
        if keyboard && !self.has_keyboard {
            self.has_keyboard = true;
            true
        } else {
            false
        }
    }

    /// The keyboard offers a keymap. Gives how many bytes are to be read: none
    /// for another format, for an empty keymap and for one that is too large.
    pub fn on_keymap(&self, xkb_v1: bool, size: u32) -> (read: Option<usize>)
        ensures
            read == if xkb_v1 && 0 < size <= MAX_KEYMAP_SIZE {
                Some(size as usize)
            } else {
                None
            },
    {
        if xkb_v1 && size != 0 && size as usize <= MAX_KEYMAP_SIZE {
            Some(size as usize)
        } else {
            None
        }
    }

    /// The bytes of the keymap have been read.
    pub fn on_keymap_bytes(&mut self, bytes: &[u8])
        ensures
            final(self)@ == (ReaderView {
                keymap: Some(without_nuls(lossy_utf8(bytes@))),
                ..old(self)@
            }),
            valid_utf8(bytes@) ==> final(self)@.keymap == Some(without_nuls(decode_utf8(bytes@))),
    {
        self.keymap = Some(keymap_text(bytes));
    }

    /// The keymap, if the host gave one.
    pub fn into_keymap(self) -> (keymap: Option<String>)
        ensures
            match keymap {
                Some(k) => self@.keymap == Some(k@),
                None => self@.keymap is None,
            },
    {
        self.keymap
    }
}

/// Keymaps of up to 1 MiB are accepted.
pub proof fn keymap_limit()
    ensures
        MAX_KEYMAP_SIZE == 1_048_576,
{
}

} // verus!
