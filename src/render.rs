//! The frame selector: which images to draw, in which order, for the keys
//! that are held.
use vstd::prelude::*;

use crate::asset::{ImageData, ImageView};
use crate::avatar::Avatar;
use crate::keys::{key_code_for_name, key_code_of};
use crate::mode::{HandView, LoadedMode, ModeView};
use crate::table::{find_coded, find_named, key_index, key_lookup, lemma_key_index_bounds};

verus! {

/// The layers of a frame, from the back to the front.
#[derive(Clone, Copy, Debug, PartialEq, Eq, Structural)]
pub enum Layer {
    Background,
    CatBody,
    Face,
    KeyCap,
    LeftHand,
    RightHand,
}

/// One image to draw at `(x, y)` of the canvas, at its own size.
#[derive(Clone, Copy, Debug)]
pub struct DrawCommand<'a> {
    pub layer: Layer,
    pub image: &'a ImageData,
    pub x: i32,
    pub y: i32,
}

pub struct DrawView {
    pub layer: Layer,
    pub image: ImageView,
    pub x: i32,
    pub y: i32,
}

impl<'a> View for DrawCommand<'a> {
    type V = DrawView;

    open spec fn view(&self) -> DrawView {
        DrawView { layer: self.layer, image: self.image@, x: self.x, y: self.y }
    }
}

/// A draw list seen through the views of its commands.
pub open spec fn draws_view(s: Seq<DrawCommand>) -> Seq<DrawView> {
    s.map_values(|c: DrawCommand| c@)
}

/// An image drawn at the canvas origin.
pub open spec fn draw_at_origin(layer: Layer, image: ImageView) -> DrawView {
    DrawView { layer, image, x: 0, y: 0 }
}

pub open spec fn optional_draw(layer: Layer, image: Option<ImageView>) -> Seq<DrawView> {
    match image {
        Some(i) => seq![draw_at_origin(layer, i)],
        None => Seq::empty(),
    }
}

/// The key caps whose key is held, in the order of the cap table.
pub open spec fn cap_draws(caps: Seq<(Seq<char>, ImageView)>, pressed: Seq<u32>) -> Seq<DrawView>
    decreases caps.len(),
{
    if caps.len() == 0 {
        Seq::empty()
    } else {
        let prev = cap_draws(caps.drop_last(), pressed);
        match key_code_of(caps.last().0) {
            Some(c) => if pressed.contains(c) {
                prev.push(draw_at_origin(Layer::KeyCap, caps.last().1))
            } else {
                prev
            },
            None => prev,
        }
    }
}

/// A key that may drive a hand: none where no held key has a frame,
/// else a held key with a frame.
pub open spec fn valid_choice(frames: Seq<(u32, ImageView)>, pressed: Seq<u32>, choice: Option<u32>) -> bool {
    match choice {
        None => forall|i: int| 0 <= i < pressed.len() ==> key_index(frames, #[trigger] pressed[i]) is None,
        Some(k) => pressed.contains(k) && key_index(frames, k) is Some,
    }
}

/// A hand's layer: the frame of the chosen key, else the resting image;
/// nothing where the mode has no such hand.
pub open spec fn hand_draws(
    layer: Layer,
    hand: Option<HandView>,
    frames: Seq<(u32, ImageView)>,
    choice: Option<u32>,
) -> Seq<DrawView> {
    match hand {
        Some(h) => match choice {
            Some(k) => match key_lookup(frames, k) {
                Some(img) => seq![draw_at_origin(layer, img)],
                None => seq![draw_at_origin(layer, h.up)],
            },
            None => seq![draw_at_origin(layer, h.up)],
        },
        None => Seq::empty(),
    }
}

/// The draw list of a frame, for the keys `lk` and `rk` that drive the hands.
pub open spec fn frame_draws(
    mode: ModeView,
    face: Option<ImageView>,
    pressed: Seq<u32>,
    lk: Option<u32>,
    rk: Option<u32>,
) -> Seq<DrawView> {
    optional_draw(Layer::Background, mode.background)
        + optional_draw(Layer::CatBody, mode.cat_background)
        + optional_draw(Layer::Face, face)
        + cap_draws(mode.key_images, pressed)
        + hand_draws(Layer::LeftHand, mode.left_hand, mode.left_frames, lk)
        + hand_draws(Layer::RightHand, mode.right_hand, mode.right_frames, rk)
}

/// The draw lists that the selector may emit: hands driven by any valid choice.
pub open spec fn is_frame_of(r: Seq<DrawView>, mode: ModeView, face: Option<ImageView>, pressed: Seq<u32>) -> bool {
    exists|lk: Option<u32>, rk: Option<u32>|
        valid_choice(mode.left_frames, pressed, lk) && valid_choice(mode.right_frames, pressed, rk)
            && r == #[trigger] frame_draws(mode, face, pressed, lk, rk)
}

pub open spec fn face_view(face: Option<&ImageData>) -> Option<ImageView> {
    match face {
        Some(i) => Some(i@),
        None => None,
    }
}

/// Whether `code` is held.
pub fn is_pressed(pressed: &Vec<u32>, code: u32) -> (r: bool)
    ensures
        r == pressed@.contains(code),
{
    let mut i: usize = 0;
    while i < pressed.len()
        invariant
            i <= pressed@.len(),
            forall|j: int| 0 <= j < i ==> pressed@[j] != code,
        decreases pressed@.len() - i,
    {
        if pressed[i] == code {
            return true;
        }
        i = i + 1;
    }
    false
}

/// The first held key that has a frame in `frames`.
pub fn pick_hand_key(frames: &Vec<(u32, ImageData)>, pressed: &Vec<u32>) -> (r: Option<u32>)
    ensures
        valid_choice(crate::table::coded_view(frames@), pressed@, r),
{
    let ghost fv = crate::table::coded_view(frames@);
    let mut i: usize = 0;
    while i < pressed.len()
        invariant
            i <= pressed@.len(),
            fv == crate::table::coded_view(frames@),
            forall|j: int| 0 <= j < i ==> key_index(fv, #[trigger] pressed@[j]) is None,
        decreases pressed@.len() - i,
    {
        if find_coded(frames, pressed[i]).is_some() {
            assert(pressed@[i as int] == pressed[i as int]);
            return Some(pressed[i]);
        }
        i = i + 1;
    }
    None
}

fn push_hand<'a>(
    out: &mut Vec<DrawCommand<'a>>,
    layer: Layer,
    hand: &'a Option<crate::mode::HandData>,
    frames: &'a Vec<(u32, ImageData)>,
    choice: Option<u32>,
)
    ensures
        draws_view(final(out)@) == draws_view(old(out)@) + hand_draws(
            layer,
            crate::mode::hand_opt_view(*hand),
            crate::table::coded_view(frames@),
            choice,
        ),
{
    let ghost before = draws_view(out@);
    match hand {
        Some(h) => {
            let image = match choice {
                Some(k) => match find_coded(frames, k) {
                    Some(i) => &frames[i].1,
                    None => &h.up_image,
                },
                None => &h.up_image,
            };
            out.push(DrawCommand { layer, image, x: 0, y: 0 });
            assert(draws_view(out@) =~= before + seq![draw_at_origin(layer, image@)]);
        },
        None => {
            assert(draws_view(out@) =~= before + Seq::<DrawView>::empty());
        },
    }
}

fn push_optional<'a>(out: &mut Vec<DrawCommand<'a>>, layer: Layer, image: Option<&'a ImageData>)
    ensures
        draws_view(final(out)@) == draws_view(old(out)@) + optional_draw(layer, face_view(image)),
{
    let ghost before = draws_view(out@);
    match image {
        Some(i) => {
            out.push(DrawCommand { layer, image: i, x: 0, y: 0 });
            assert(draws_view(out@) =~= before + seq![draw_at_origin(layer, i@)]);
        },
        None => {
            assert(draws_view(out@) =~= before + Seq::<DrawView>::empty());
        },
    }
}

/// The draw list of one frame of `mode`, with `face` shown and the keys of
/// `pressed` held: background, cat body, face, the caps of held keys, then
/// the left and the right hand, each at the canvas origin. A hand shows the
/// frame of a held key where one has a frame, else its resting image.
pub fn select_frame<'a>(mode: &'a LoadedMode, face: Option<&'a ImageData>, pressed: &Vec<u32>) -> (r: Vec<DrawCommand<'a>>)
    ensures
        is_frame_of(draws_view(r@), mode@, face_view(face), pressed@),
{
    let mut out: Vec<DrawCommand<'a>> = Vec::new();
    assert(draws_view(out@) =~= Seq::<DrawView>::empty());
    push_optional(&mut out, Layer::Background, mode.background.as_ref());
    push_optional(&mut out, Layer::CatBody, mode.cat_background.as_ref());
    push_optional(&mut out, Layer::Face, face);
    let ghost head = draws_view(out@);
    let caps = &mode.key_images;
    let ghost cv = crate::table::named_view(caps@);
    assert(cv.subrange(0, 0) =~= Seq::<(Seq<char>, ImageView)>::empty());
    assert(head =~= head + cap_draws(cv.subrange(0, 0), pressed@));
    let mut i: usize = 0;
    while i < caps.len()
        invariant
            i <= caps@.len(),
            cv == crate::table::named_view(caps@),
            draws_view(out@) == head + cap_draws(cv.subrange(0, i as int), pressed@),
        decreases caps@.len() - i,
    {
        let ghost before = draws_view(out@);
        assert(cv.subrange(0, i + 1).drop_last() =~= cv.subrange(0, i as int));
        match key_code_for_name(caps[i].0.as_str()) {
            Some(c) => {
                if is_pressed(pressed, c) {
                    out.push(DrawCommand { layer: Layer::KeyCap, image: &caps[i].1, x: 0, y: 0 });
                    assert(draws_view(out@) =~= before.push(draw_at_origin(Layer::KeyCap, caps[i as int].1@)));
                }
            },
            None => {},
        }
        i = i + 1;
    }
    assert(cv.subrange(0, caps@.len() as int) =~= cv);
    let lk = pick_hand_key(&mode.left_hand_key_frames, pressed);
    let rk = pick_hand_key(&mode.right_hand_key_frames, pressed);
    push_hand(&mut out, Layer::LeftHand, &mode.left_hand, &mode.left_hand_key_frames, lk);
    push_hand(&mut out, Layer::RightHand, &mode.right_hand, &mode.right_hand_key_frames, rk);
    assert(draws_view(out@) =~= frame_draws(mode@, face_view(face), pressed@, lk, rk));
    out
}


/// The face shown for hotkey `key`, where the avatar has that face.
pub open spec fn current_face(faces: Seq<(Seq<char>, ImageView)>, key: Option<String>) -> Option<ImageView> {
    match key {
        Some(k) => key_lookup(faces, k@),
        None => None,
    }
}

/// The frame of the avatar in mode `mode_name`, with the face of hotkey
/// `face_key` and the keys of `pressed` held. A mode that the avatar does
/// not have draws nothing.
pub fn render_frame<'a>(avatar: &'a Avatar, mode_name: &str, face_key: &Option<String>, pressed: &Vec<u32>) -> (r: Vec<
    DrawCommand<'a>,
>)
    ensures
        match key_lookup(avatar@.modes, mode_name@) {
            Some(m) => is_frame_of(draws_view(r@), m, current_face(avatar@.faces, *face_key), pressed@),
            None => r@.len() == 0,
        },
{
    match avatar.get_mode(mode_name) {
        Some(mode) => {
            let face = match face_key {
                Some(k) => avatar.get_face_by_key(k.as_str()),
                None => None,
            };
            select_frame(mode, face, pressed)
        },
        None => Vec::new(),
    }
}

/// The commands of one layer, in order.
pub open spec fn layer_draws(r: Seq<DrawView>, layer: Layer) -> Seq<DrawView>
    decreases r.len(),
{
    if r.len() == 0 {
        Seq::empty()
    } else {
        let prev = layer_draws(r.drop_last(), layer);
        if r.last().layer == layer {
            prev.push(r.last())
        } else {
            prev
        }
    }
}

/// A hand's resting image, where the mode has that hand.
pub open spec fn resting_image(hand: Option<HandView>) -> Option<ImageView> {
    match hand {
        Some(h) => Some(h.up),
        None => None,
    }
}

proof fn lemma_layer_draws_add(a: Seq<DrawView>, b: Seq<DrawView>, layer: Layer)
    ensures
        layer_draws(a + b, layer) == layer_draws(a, layer) + layer_draws(b, layer),
    decreases b.len(),
{
    if b.len() == 0 {
        assert(a + b =~= a);
        assert(layer_draws(a, layer) + layer_draws(b, layer) =~= layer_draws(a, layer));
    } else {
        assert((a + b).drop_last() =~= a + b.drop_last());
        lemma_layer_draws_add(a, b.drop_last(), layer);
        assert((a + b).last() == b.last());
        if b.last().layer == layer {
            assert(layer_draws(a + b, layer) =~= layer_draws(a, layer) + layer_draws(b, layer));
        } else {
            assert(layer_draws(a + b, layer) =~= layer_draws(a, layer) + layer_draws(b, layer));
        }
    }
}

proof fn lemma_layer_draws_single(x: DrawView, layer: Layer)
    ensures
        layer_draws(seq![x], layer) == (if x.layer == layer { seq![x] } else { Seq::<DrawView>::empty() }),
{
    let s = seq![x];
    assert(s.drop_last() =~= Seq::<DrawView>::empty());
    assert(s.drop_last().len() == 0);
    assert(layer_draws(s.drop_last(), layer) == Seq::<DrawView>::empty());
    assert(s.last() == x);
    assert(Seq::<DrawView>::empty().push(x) =~= s);
}

proof fn lemma_layer_draws_optional(l: Layer, image: Option<ImageView>, layer: Layer)
    ensures
        layer_draws(optional_draw(l, image), layer) == (if l == layer { optional_draw(l, image) } else { Seq::<DrawView>::empty() }),
{
    match image {
        Some(i) => lemma_layer_draws_single(draw_at_origin(l, i), layer),
        None => {},
    }
}

proof fn lemma_layer_draws_hand(
    l: Layer,
    hand: Option<HandView>,
    frames: Seq<(u32, ImageView)>,
    choice: Option<u32>,
    layer: Layer,
)
    ensures
        layer_draws(hand_draws(l, hand, frames, choice), layer) == (if l == layer {
            hand_draws(l, hand, frames, choice)
        } else {
            Seq::<DrawView>::empty()
        }),
{
    match hand {
        Some(h) => match choice {
            Some(k) => match key_lookup(frames, k) {
                Some(img) => lemma_layer_draws_single(draw_at_origin(l, img), layer),
                None => lemma_layer_draws_single(draw_at_origin(l, h.up), layer),
            },
            None => lemma_layer_draws_single(draw_at_origin(l, h.up), layer),
        },
        None => {},
    }
}

proof fn lemma_layer_draws_caps(caps: Seq<(Seq<char>, ImageView)>, pressed: Seq<u32>, layer: Layer)
    ensures
        layer_draws(cap_draws(caps, pressed), layer) == (if layer == Layer::KeyCap {
            cap_draws(caps, pressed)
        } else {
            Seq::<DrawView>::empty()
        }),
    decreases caps.len(),
{
    if caps.len() > 0 {
        lemma_layer_draws_caps(caps.drop_last(), pressed, layer);
        let prev = cap_draws(caps.drop_last(), pressed);
        let x = draw_at_origin(Layer::KeyCap, caps.last().1);
        assert(prev.push(x) =~= prev + seq![x]);
        lemma_layer_draws_add(prev, seq![x], layer);
        lemma_layer_draws_single(x, layer);
        if layer == Layer::KeyCap {
            assert(prev + seq![x] =~= prev.push(x));
        } else {
            assert(layer_draws(prev, layer) + Seq::<DrawView>::empty() =~= Seq::<DrawView>::empty());
        }
    }
}

/// The commands of each layer of a frame.
proof fn lemma_frame_layers(
    mode: ModeView,
    face: Option<ImageView>,
    pressed: Seq<u32>,
    lk: Option<u32>,
    rk: Option<u32>,
    layer: Layer,
)
    ensures
        layer == Layer::KeyCap ==> layer_draws(frame_draws(mode, face, pressed, lk, rk), layer) == cap_draws(
            mode.key_images,
            pressed,
        ),
        layer == Layer::LeftHand ==> layer_draws(frame_draws(mode, face, pressed, lk, rk), layer) == hand_draws(
            Layer::LeftHand,
            mode.left_hand,
            mode.left_frames,
            lk,
        ),
        layer == Layer::RightHand ==> layer_draws(frame_draws(mode, face, pressed, lk, rk), layer)
            == hand_draws(Layer::RightHand, mode.right_hand, mode.right_frames, rk),
{
    let a = optional_draw(Layer::Background, mode.background);
    let b = optional_draw(Layer::CatBody, mode.cat_background);
    let c = optional_draw(Layer::Face, face);
    let d = cap_draws(mode.key_images, pressed);
    let e = hand_draws(Layer::LeftHand, mode.left_hand, mode.left_frames, lk);
    let f = hand_draws(Layer::RightHand, mode.right_hand, mode.right_frames, rk);
    lemma_layer_draws_add(a, b, layer);
    lemma_layer_draws_add(a + b, c, layer);
    lemma_layer_draws_add(a + b + c, d, layer);
    lemma_layer_draws_add(a + b + c + d, e, layer);
    lemma_layer_draws_add(a + b + c + d + e, f, layer);
    lemma_layer_draws_optional(Layer::Background, mode.background, layer);
    lemma_layer_draws_optional(Layer::CatBody, mode.cat_background, layer);
    lemma_layer_draws_optional(Layer::Face, face, layer);
    lemma_layer_draws_caps(mode.key_images, pressed, layer);
    lemma_layer_draws_hand(Layer::LeftHand, mode.left_hand, mode.left_frames, lk, layer);
    lemma_layer_draws_hand(Layer::RightHand, mode.right_hand, mode.right_frames, rk, layer);
    let z = Seq::<DrawView>::empty();
    if layer == Layer::KeyCap {
        assert(z + z + z + d + z + z =~= d);
    } else if layer == Layer::LeftHand {
        assert(z + z + z + z + e + z =~= e);
    } else if layer == Layer::RightHand {
        assert(z + z + z + z + z + f =~= f);
    }
}

proof fn lemma_cap_draws_none_held(caps: Seq<(Seq<char>, ImageView)>)
    ensures
        cap_draws(caps, Seq::empty()) == Seq::<DrawView>::empty(),
    decreases caps.len(),
{
    if caps.len() > 0 {
        lemma_cap_draws_none_held(caps.drop_last());
    }
}

proof fn lemma_cap_draws_gating(caps: Seq<(Seq<char>, ImageView)>, pressed: Seq<u32>)
    ensures
        forall|j: int|
            0 <= j < caps.len() && key_code_of(caps[j].0) is Some && pressed.contains(
                key_code_of(caps[j].0)->Some_0,
            ) ==> #[trigger] cap_draws(caps, pressed).contains(draw_at_origin(Layer::KeyCap, caps[j].1)),
        forall|d: DrawView| #[trigger]
            cap_draws(caps, pressed).contains(d) ==> exists|j: int|
                0 <= j < caps.len() && key_code_of(caps[j].0) is Some && pressed.contains(
                    key_code_of(caps[j].0)->Some_0,
                ) && d == draw_at_origin(Layer::KeyCap, #[trigger] caps[j].1),
    decreases caps.len(),
{
    if caps.len() > 0 {
        let init = caps.drop_last();
        lemma_cap_draws_gating(init, pressed);
        let prev = cap_draws(init, pressed);
        let cur = cap_draws(caps, pressed);
        assert forall|j: int|
            0 <= j < caps.len() && key_code_of(caps[j].0) is Some && pressed.contains(
                key_code_of(caps[j].0)->Some_0,
            ) implies #[trigger] cur.contains(draw_at_origin(Layer::KeyCap, caps[j].1)) by {
            if j < caps.len() - 1 {
                assert(init[j] == caps[j]);
                assert(prev.contains(draw_at_origin(Layer::KeyCap, init[j].1)));
                let t = choose|t: int| 0 <= t < prev.len() && prev[t] == draw_at_origin(Layer::KeyCap, init[j].1);
                assert(cur[t] == prev[t]);
            } else {
                assert(cur[cur.len() - 1] == draw_at_origin(Layer::KeyCap, caps[j].1));
            }
        }
        assert forall|d: DrawView| #[trigger] cur.contains(d) implies exists|j: int|
            0 <= j < caps.len() && key_code_of(caps[j].0) is Some && pressed.contains(
                key_code_of(caps[j].0)->Some_0,
            ) && d == draw_at_origin(Layer::KeyCap, #[trigger] caps[j].1) by {
            let t = choose|t: int| 0 <= t < cur.len() && cur[t] == d;
            if t < prev.len() {
                assert(prev[t] == cur[t]);
                assert(prev.contains(d));
                let j = choose|j: int|
                    0 <= j < init.len() && key_code_of(init[j].0) is Some && pressed.contains(
                        key_code_of(init[j].0)->Some_0,
                    ) && d == draw_at_origin(Layer::KeyCap, #[trigger] init[j].1);
                assert(init[j] == caps[j]);
            } else {
                let j = caps.len() - 1;
                assert(caps[j] == caps.last());
            }
        }
    }
}

/// With no key held, a frame is the background, the cat body, the face and
/// the resting image of each hand, those of them that exist, in that order.
pub proof fn law_frame_without_keys(mode: ModeView, face: Option<ImageView>, r: Seq<DrawView>)
    requires
        is_frame_of(r, mode, face, Seq::empty()),
    ensures
        r == optional_draw(Layer::Background, mode.background) + optional_draw(Layer::CatBody, mode.cat_background)
            + optional_draw(Layer::Face, face) + optional_draw(Layer::LeftHand, resting_image(mode.left_hand))
            + optional_draw(Layer::RightHand, resting_image(mode.right_hand)),
{
    let (lk, rk) = choose|lk: Option<u32>, rk: Option<u32>|
        valid_choice(mode.left_frames, Seq::empty(), lk) && valid_choice(mode.right_frames, Seq::empty(), rk)
            && r == #[trigger] frame_draws(mode, face, Seq::empty(), lk, rk);
    assert(lk is None);
    assert(rk is None);
    lemma_cap_draws_none_held(mode.key_images);
    assert(hand_draws(Layer::LeftHand, mode.left_hand, mode.left_frames, lk) =~= optional_draw(
        Layer::LeftHand,
        resting_image(mode.left_hand),
    ));
    assert(hand_draws(Layer::RightHand, mode.right_hand, mode.right_frames, rk) =~= optional_draw(
        Layer::RightHand,
        resting_image(mode.right_hand),
    ));
    let a = optional_draw(Layer::Background, mode.background) + optional_draw(Layer::CatBody, mode.cat_background)
        + optional_draw(Layer::Face, face);
    assert(a + Seq::<DrawView>::empty() =~= a);
}

proof fn lemma_hand_selection(
    l: Layer,
    hand: Option<HandView>,
    frames: Seq<(u32, ImageView)>,
    pressed: Seq<u32>,
    choice: Option<u32>,
)
    requires
        hand is Some,
        valid_choice(frames, pressed, choice),
    ensures
        hand_draws(l, hand, frames, choice).len() == 1,
        hand_draws(l, hand, frames, choice)[0].layer == l,
        (forall|i: int| 0 <= i < pressed.len() ==> key_index(frames, #[trigger] pressed[i]) is None)
            ==> hand_draws(l, hand, frames, choice)[0].image == hand->Some_0.up,
        (exists|i: int| 0 <= i < pressed.len() && key_index(frames, #[trigger] pressed[i]) is Some)
            ==> exists|k: u32|
            pressed.contains(k) && #[trigger] key_lookup(frames, k) == Some(hand_draws(l, hand, frames, choice)[0].image),
{
    if let Some(k) = choice {
        lemma_key_index_bounds(frames, k);
        let i = choose|i: int| 0 <= i < pressed.len() && pressed[i] == k;
        assert(key_index(frames, pressed[i]) is Some);
    }
}

/// A hand shows its resting image where no held key has a frame for it,
/// and otherwise the frame of a held key that has one.
pub proof fn law_hand_selection(mode: ModeView, face: Option<ImageView>, pressed: Seq<u32>, r: Seq<DrawView>)
    requires
        is_frame_of(r, mode, face, pressed),
    ensures
        mode.left_hand is Some ==> {
            let d = layer_draws(r, Layer::LeftHand);
            &&& d.len() == 1
            &&& (forall|i: int| 0 <= i < pressed.len() ==> key_index(mode.left_frames, #[trigger] pressed[i]) is None)
                ==> d[0].image == mode.left_hand->Some_0.up
            &&& (exists|i: int| 0 <= i < pressed.len() && key_index(mode.left_frames, #[trigger] pressed[i]) is Some)
                ==> exists|k: u32| pressed.contains(k) && #[trigger] key_lookup(mode.left_frames, k) == Some(d[0].image)
        },
        mode.right_hand is Some ==> {
            let d = layer_draws(r, Layer::RightHand);
            &&& d.len() == 1
            &&& (forall|i: int| 0 <= i < pressed.len() ==> key_index(mode.right_frames, #[trigger] pressed[i]) is None)
                ==> d[0].image == mode.right_hand->Some_0.up
            &&& (exists|i: int| 0 <= i < pressed.len() && key_index(mode.right_frames, #[trigger] pressed[i]) is Some)
                ==> exists|k: u32| pressed.contains(k) && #[trigger] key_lookup(mode.right_frames, k) == Some(d[0].image)
        },
        mode.left_hand is None ==> layer_draws(r, Layer::LeftHand).len() == 0,
        mode.right_hand is None ==> layer_draws(r, Layer::RightHand).len() == 0,
{
    let (lk, rk) = choose|lk: Option<u32>, rk: Option<u32>|
        valid_choice(mode.left_frames, pressed, lk) && valid_choice(mode.right_frames, pressed, rk)
            && r == #[trigger] frame_draws(mode, face, pressed, lk, rk);
    lemma_frame_layers(mode, face, pressed, lk, rk, Layer::LeftHand);
    lemma_frame_layers(mode, face, pressed, lk, rk, Layer::RightHand);
    if mode.left_hand is Some {
        lemma_hand_selection(Layer::LeftHand, mode.left_hand, mode.left_frames, pressed, lk);
    }
    if mode.right_hand is Some {
        lemma_hand_selection(Layer::RightHand, mode.right_hand, mode.right_frames, pressed, rk);
    }
}

/// A key cap is drawn exactly when the code of its key is held.
pub proof fn law_key_cap_gating(mode: ModeView, face: Option<ImageView>, pressed: Seq<u32>, r: Seq<DrawView>)
    requires
        is_frame_of(r, mode, face, pressed),
    ensures
        forall|j: int|
            0 <= j < mode.key_images.len() && key_code_of(mode.key_images[j].0) is Some && pressed.contains(
                key_code_of(mode.key_images[j].0)->Some_0,
            ) ==> #[trigger] layer_draws(r, Layer::KeyCap).contains(
                draw_at_origin(Layer::KeyCap, mode.key_images[j].1),
            ),
        forall|d: DrawView| #[trigger]
            layer_draws(r, Layer::KeyCap).contains(d) ==> exists|j: int|
                0 <= j < mode.key_images.len() && key_code_of(mode.key_images[j].0) is Some && pressed.contains(
                    key_code_of(mode.key_images[j].0)->Some_0,
                ) && d == draw_at_origin(Layer::KeyCap, #[trigger] mode.key_images[j].1),
{
    let (lk, rk) = choose|lk: Option<u32>, rk: Option<u32>|
        valid_choice(mode.left_frames, pressed, lk) && valid_choice(mode.right_frames, pressed, rk)
            && r == #[trigger] frame_draws(mode, face, pressed, lk, rk);
    lemma_frame_layers(mode, face, pressed, lk, rk, Layer::KeyCap);
    lemma_cap_draws_gating(mode.key_images, pressed);
}

/// A mode without images draws nothing where no face is shown, whatever is held.
pub proof fn law_imageless_frame_is_empty(mode: ModeView, pressed: Seq<u32>, r: Seq<DrawView>)
    requires
        is_frame_of(r, mode, None, pressed),
        mode.background is None,
        mode.cat_background is None,
        mode.left_hand is None,
        mode.right_hand is None,
        mode.key_images.len() == 0,
    ensures
        r.len() == 0,
{
    let (lk, rk) = choose|lk: Option<u32>, rk: Option<u32>|
        valid_choice(mode.left_frames, pressed, lk) && valid_choice(mode.right_frames, pressed, rk)
            && r == #[trigger] frame_draws(mode, None, pressed, lk, rk);
    assert(r =~= Seq::<DrawView>::empty());
}

} // verus!
