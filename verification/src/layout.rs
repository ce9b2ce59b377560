//! The geometry of the screen and the status bar: how the main area is
//! split, where the message box goes and which message it shows, and the
//! key hints.
use vstd::prelude::*;
use crate::state::{App, AppModel};

verus! {

/// The key hints of the status bar: pairs of key and action.
pub open spec fn status_hints_spec(compressing: bool) -> Seq<(Seq<char>, Seq<char>)> {
    if compressing {
        seq![("[Esc]"@, " Cancel   "@), ("[q]"@, " Quit"@)]
    } else {
        seq![
            ("[↑↓]"@, " Nav   "@),
            ("[Space]"@, " Queue   "@),
            ("[Enter]"@, " Open Dir   "@),
            ("[←→]"@, " Change   "@),
            ("[Tab]"@, " Switch Panel   │   "@),
            ("[c]"@, " Compress   "@),
            ("[C]"@, " Clear   "@),
            ("[q]"@, " Quit"@),
        ]
    }
}

fn hint(v: &mut Vec<(String, String)>, key: &str, action: &str)
    ensures
        final(v)@.len() == old(v)@.len() + 1,
        forall|i: int| 0 <= i < old(v)@.len() ==> final(v)@[i] == old(v)@[i],
        final(v)@.last().0@ == key@ && final(v)@.last().1@ == action@,
{
    v.push((key.to_string(), action.to_string()));
}

/// The key hints of the status bar, as pairs of key and action.
pub fn status_hints(compressing: bool) -> (v: Vec<(String, String)>)
    ensures
        v@.len() == status_hints_spec(compressing).len(),
        forall|i: int|
            0 <= i < v@.len() ==> (#[trigger] v@[i]).0@ == status_hints_spec(compressing)[i].0 && v@[i].1@
                == status_hints_spec(compressing)[i].1,
{
    let mut v: Vec<(String, String)> = Vec::new();
    if compressing {
        hint(&mut v, "[Esc]", " Cancel   ");
        hint(&mut v, "[q]", " Quit");
    } else {
        hint(&mut v, "[↑↓]", " Nav   ");
        hint(&mut v, "[Space]", " Queue   ");
        hint(&mut v, "[Enter]", " Open Dir   ");
        hint(&mut v, "[←→]", " Change   ");
        hint(&mut v, "[Tab]", " Switch Panel   │   ");
        hint(&mut v, "[c]", " Compress   ");
        hint(&mut v, "[C]", " Clear   ");
        hint(&mut v, "[q]", " Quit");
    }
    v
}

/// The message box for a message of `message_len` bytes on a screen of the
/// given size: half the width but no wider than the message needs, at
/// least 40 columns, five rows, centred. `(left, top, width, height)`.
pub open spec fn popup_rect_spec(area_width: nat, area_height: nat, message_len: nat) -> (nat, nat, nat, nat) {
    let half = area_width / 2;
    let fit = message_len + 10;
    let w0 = if half < fit {
        half
    } else {
        fit
    };
    let w: nat = if w0 > 40 {
        w0
    } else {
        40
    };
    (((area_width - w) as nat) / 2, ((area_height - 5) as nat) / 2, w, 5)
}

/// Where the message box goes. The screen must be at least 40 columns by
/// 5 rows, and the message shorter than the addressable memory.
pub fn popup_rect(area_width: u16, area_height: u16, message_len: usize) -> (r: (u16, u16, u16, u16))
    requires
        area_width >= 40,
        area_height >= 5,
        message_len + 10 <= usize::MAX,
    ensures
        (r.0 as nat, r.1 as nat, r.2 as nat, r.3 as nat) == popup_rect_spec(
            area_width as nat,
            area_height as nat,
            message_len as nat,
        ),
{
    let half = area_width as usize / 2;
    let fit = message_len + 10;
    let w0 = if half < fit {
        half
    } else {
        fit
    };
    let w: usize = if w0 > 40 {
        w0
    } else {
        40
    };
    let left = ((area_width as usize - w) / 2) as u16;
    let top = ((area_height as usize - 5) / 2) as u16;
    (left, top, w as u16, 5)
}

/// How the main area is split: with a selected file on a screen at least
/// 100 columns wide, into the file list (half), the settings (a quarter)
/// and the output panel (the rest less two separator columns); otherwise
/// the list alone. Widths `(files, settings, output)`.
pub open spec fn main_split_spec(width: nat, has_selected: bool) -> Option<(nat, nat, nat)> {
    if width >= 100 && has_selected {
        let f = width * 50 / 100;
        let s = width * 25 / 100;
        Some((f, s, (width - f - s - 2) as nat))
    } else {
        None
    }
}

/// The split of the main area; the widths are worked out in 16-bit
/// arithmetic, so a split screen may be at most 1310 columns wide.
pub fn main_split(width: u16, has_selected: bool) -> (r: Option<(u16, u16, u16)>)
    requires
        width >= 100 && has_selected ==> width as nat * 50 <= u16::MAX,
    ensures
        match r {
            Some((f, s, o)) => main_split_spec(width as nat, has_selected) == Some((f as nat, s as nat, o as nat)),
            None => main_split_spec(width as nat, has_selected) is None,
        },
{
    if width >= 100 && has_selected {
        let f = width * 50 / 100;
        let s = width * 25 / 100;
        Some((f, s, width - f - s - 2))
    } else {
        None
    }
}

/// Which message box is shown: an error before a success message.
pub open spec fn popup_choice(m: AppModel) -> Option<(bool, Seq<char>)> {
    match m.error_message {
        Some(e) => Some((true, e)),
        None => match m.success_message {
            Some(s) => Some((false, s)),
            None => None,
        },
    }
}

impl App {
    /// The message box to show: `(is_error, message)`.
    pub fn popup_message(&self) -> (r: Option<(bool, String)>)
        ensures
            match r {
                Some((err, msg)) => popup_choice(self.model()) == Some((err, msg@)),
                None => popup_choice(self.model()) is None,
            },
    {
        match &self.error_message {
            Some(e) => Some((true, e.clone())),
            None => match &self.success_message {
                Some(s) => Some((false, s.clone())),
                None => None,
            },
        }
    }
}

} // verus!
