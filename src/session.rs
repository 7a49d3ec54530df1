//! The state of one avatar source between host callbacks: the avatar, the
//! mode and face shown, and the keys held.
use vstd::prelude::*;

use crate::asset::ImageView;
use crate::avatar::{default_mode_name, Avatar};
use crate::input::{InputEvent, InputState};
use crate::render::{current_face, draws_view, is_frame_of, render_frame, DrawCommand};
use crate::table::{find_named, key_index, key_lookup};

verus! {

/// The digit that `n` (below 10) is written with.
pub open spec fn digit_text(n: int) -> Seq<char> {
    "0123456789"@.subrange(n, n + 1)
}

/// The name of a host virtual-key number: digits, lower-case letters,
/// `f1` to `f12`, `escape`, and `unknown` for the rest.
pub open spec fn vkey_name_of(v: u32) -> Seq<char> {
    if 48 <= v <= 57 {
        digit_text(v - 48)
    } else if 65 <= v <= 90 {
        "abcdefghijklmnopqrstuvwxyz"@.subrange(v - 65, v - 64)
    } else if 112 <= v <= 120 {
        "f"@ + digit_text(v - 111)
    } else if 121 <= v <= 123 {
        "f1"@ + digit_text(v - 121)
    } else if v == 27 {
        "escape"@
    } else {
        "unknown"@
    }
}

fn digit_string(n: u32) -> (r: String)
    requires
        n < 10,
    ensures
        r@ == digit_text(n as int),
{
    let digits = "0123456789";
    proof {
        reveal_strlit("0123456789");
    }
    digits.substring_char(n as usize, n as usize + 1).to_string()
}

/// The key name of a host virtual-key number.
pub fn vkey_name(v: u32) -> (r: String)
    ensures
        r@ == vkey_name_of(v),
{
    if 48 <= v && v <= 57 {
        digit_string(v - 48)
    } else if 65 <= v && v <= 90 {
        let letters = "abcdefghijklmnopqrstuvwxyz";
        proof {
            reveal_strlit("abcdefghijklmnopqrstuvwxyz");
        }
        letters.substring_char((v - 65) as usize, (v - 64) as usize).to_string()
    } else if 112 <= v && v <= 120 {
        let d = digit_string(v - 111);
        "f".to_string().concat(d.as_str())
    } else if 121 <= v && v <= 123 {
        let d = digit_string(v - 121);
        "f1".to_string().concat(d.as_str())
    } else if v == 27 {
        "escape".to_string()
    } else {
        "unknown".to_string()
    }
}

pub open spec fn opt_text(o: Option<String>) -> Option<Seq<char>> {
    match o {
        Some(s) => Some(s@),
        None => None,
    }
}

/// The face after key `key` is pressed: `1` to `4` pick the faces `f1` to
/// `f4` where they exist, `0` and `escape` clear the face, and a key that is
/// itself a face hotkey picks that face.
pub open spec fn face_after_key(
    faces: Seq<(Seq<char>, ImageView)>,
    current: Option<Seq<char>>,
    key: Seq<char>,
) -> Option<Seq<char>> {
    let numbered = if key == "1"@ || key == "2"@ || key == "3"@ || key == "4"@ {
        if key_index(faces, "f"@ + key) is Some {
            Some("f"@ + key)
        } else {
            current
        }
    } else if key == "0"@ || key == "escape"@ {
        None
    } else {
        current
    };
    if key_index(faces, key) is Some {
        Some(key)
    } else {
        numbered
    }
}

/// The face shown after key `key` is pressed.
pub fn next_face(avatar: &Avatar, current: &Option<String>, key: &str) -> (r: Option<String>)
    ensures
        opt_text(r) == face_after_key(avatar@.faces, opt_text(*current), key@),
{
    if find_named(&avatar.face_images, key).is_some() {
        return Some(key.to_string());
    }
    let same = |s: &str| -> (b: bool)
        ensures
            b == (key@ == s@),
        { crate::keys::same_text(key, s) };
    if same("1") || same("2") || same("3") || same("4") {
        let f = "f".to_string().concat(key);
        if find_named(&avatar.face_images, f.as_str()).is_some() {
            Some(f)
        } else {
            current.clone()
        }
    } else if same("0") || same("escape") {
        None
    } else {
        current.clone()
    }
}

/// One avatar source: its avatar (none where loading failed), the path it
/// was loaded from, the mode and face shown, the keys held and the canvas.
pub struct SourceState {
    pub avatar: Option<Avatar>,
    pub avatar_path: String,
    pub current_mode: String,
    pub current_face: Option<String>,
    pub input: InputState,
    pub width: u32,
    pub height: u32,
}

/// The mode a source starts in: the one asked for, else the avatar's
/// default, else none.
pub open spec fn starting_mode(avatar: Option<Avatar>, asked: Option<String>) -> Seq<char> {
    match asked {
        Some(m) => m@,
        None => match avatar {
            Some(a) => match default_mode_name(a@) {
                Some(n) => n,
                None => Seq::empty(),
            },
            None => Seq::empty(),
        },
    }
}

/// The face a source starts with: the avatar settings' default face.
pub open spec fn starting_face(avatar: Option<Avatar>) -> Option<Seq<char>> {
    match avatar {
        Some(a) => match a.settings {
            Some(s) => opt_text(s.default_face),
            None => None,
        },
        None => None,
    }
}

impl SourceState {
    pub open spec fn wf(&self) -> bool {
        self.input.wf()
    }

    /// A source showing `avatar`, loaded from `avatar_path`, in mode `mode`
    /// where one is asked for.
    pub fn new(avatar_path: String, avatar: Option<Avatar>, mode: Option<String>, width: u32, height: u32) -> (r: SourceState)
        ensures
            r.wf(),
            r.avatar == avatar,
            r.avatar_path@ == avatar_path@,
            r.current_mode@ == starting_mode(avatar, mode),
            opt_text(r.current_face) == starting_face(avatar),
            r.input.pressed_keys().len() == 0,
            r.width == width,
            r.height == height,
    {
        let current_mode = match mode {
            Some(m) => m,
            None => match &avatar {
                Some(a) => match a.default_mode_name() {
                    Some(n) => n.clone(),
                    None => String::new(),
                },
                None => String::new(),
            },
        };
        let current_face = match &avatar {
            Some(a) => match &a.settings {
                Some(s) => s.default_face.clone(),
                None => None,
            },
            None => None,
        };
        SourceState {
            avatar,
            avatar_path,
            current_mode,
            current_face,
            input: InputState::new(),
            width,
            height,
        }
    }

    /// Whether a new avatar path asks for the avatar to be loaded again.
    pub fn path_changed(&self, path: &str) -> (r: bool)
        ensures
            r == (self.avatar_path@ != path@),
    {
        !crate::keys::same_text(self.avatar_path.as_str(), path)
    }

    /// Shows the avatar loaded from a new path; the face starts over.
    pub fn replace_avatar(&mut self, avatar_path: String, avatar: Option<Avatar>)
        requires
            old(self).wf(),
        ensures
            final(self).wf(),
            final(self).avatar == avatar,
            final(self).avatar_path@ == avatar_path@,
            opt_text(final(self).current_face) == starting_face(avatar),
            final(self).current_mode == old(self).current_mode,
            final(self).input == old(self).input,
    {
        let current_face = match &avatar {
            Some(a) => match &a.settings {
                Some(s) => s.default_face.clone(),
                None => None,
            },
            None => None,
        };
        self.avatar = avatar;
        self.avatar_path = avatar_path;
        self.current_face = current_face;
    }

    /// Takes the key events of one tick.
    pub fn tick(&mut self, events: &Vec<InputEvent>)
        requires
            old(self).wf(),
        ensures
            final(self).wf(),
            forall|k: u32| #[trigger] final(self).input.pressed_keys().contains(k) <==> crate::input::held_after(
                old(self).input.pressed_keys(),
                events@,
                k,
            ),
            final(self).avatar == old(self).avatar,
            final(self).current_face == old(self).current_face,
            final(self).current_mode == old(self).current_mode,
    {
        self.input.apply_all(events);
    }

    /// A key of the host's focused window: a press may switch the face. It
    /// does not count as a held key.
    pub fn key_click(&mut self, vkey: u32, pressed: bool)
        ensures
            (pressed && old(self).avatar is Some) ==> opt_text(final(self).current_face) == face_after_key(
                old(self).avatar->Some_0@.faces,
                opt_text(old(self).current_face),
                vkey_name_of(vkey),
            ),
            !(pressed && old(self).avatar is Some) ==> final(self).current_face == old(self).current_face,
            final(self).avatar == old(self).avatar,
            final(self).input == old(self).input,
            final(self).current_mode == old(self).current_mode,
    {
        if pressed {
            match &self.avatar {
                Some(a) => {
                    let name = vkey_name(vkey);
                    let f = next_face(a, &self.current_face, name.as_str());
                    self.current_face = f;
                },
                None => {},
            }
        }
    }

    /// The draw list of the current frame: nothing without an avatar or
    /// where the avatar lacks the current mode.
    pub fn frame(&self) -> (r: Vec<DrawCommand<'_>>)
        ensures
            match self.avatar {
                Some(a) => match key_lookup(a@.modes, self.current_mode@) {
                    Some(m) => is_frame_of(
                        draws_view(r@),
                        m,
                        current_face(a@.faces, self.current_face),
                        self.input.pressed_keys(),
                    ),
                    None => r@.len() == 0,
                },
                None => r@.len() == 0,
            },
    {
        match &self.avatar {
            Some(a) => render_frame(a, self.current_mode.as_str(), &self.current_face, self.input.pressed()),
            None => Vec::new(),
        }
    }
}

} // verus!
