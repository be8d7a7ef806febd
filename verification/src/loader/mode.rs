//! Loading one avatar mode: backgrounds, hands, key images and key frames.

use std::collections::HashMap;
use vstd::prelude::*;
use crate::loader::config::{LoadError, ModeConfig};
use crate::loader::image::{
    fetch_image, hand_option_view, image_option_view, load_error_text, named_image_models, stored_image, HandData, HandModel, ImageData,
    ImageModel, ImageStore,
};
use crate::str_map::StrMap;
use crate::text::{
    contains_seq, contains_str, int_text, join_spec, lemma_parse_decimal_text, parse_u32, parse_u32_spec,
    path_join,
};

verus! {

broadcast use vstd::std_specs::hash::group_hash_axioms;

/// Images of a keycode-keyed map, as models.
pub open spec fn coded_image_models(m: Map<u32, ImageData>) -> Map<u32, ImageModel> {
    m.map_values(|d: ImageData| d@)
}

/// Key names that the key mapping may use in place of a numeric keycode,
/// with their evdev keycodes.
pub open spec fn key_code_table() -> Map<Seq<char>, u32> {
    Map::empty()
        .insert("lctrl"@, 29u32)
        .insert("rctrl"@, 97u32)
        .insert("lshift"@, 42u32)
        .insert("rshift"@, 54u32)
        .insert("lalt"@, 56u32)
        .insert("ralt"@, 100u32)
        .insert("space"@, 57u32)
        .insert("enter"@, 28u32)
        .insert("tab"@, 15u32)
        .insert("backspace"@, 14u32)
        .insert("escape"@, 1u32)
        .insert("up"@, 103u32)
        .insert("down"@, 108u32)
        .insert("left"@, 105u32)
        .insert("right"@, 106u32)
        .insert("a"@, 30u32)
        .insert("b"@, 48u32)
        .insert("c"@, 46u32)
        .insert("d"@, 32u32)
        .insert("e"@, 18u32)
        .insert("f"@, 33u32)
        .insert("g"@, 34u32)
        .insert("h"@, 35u32)
        .insert("i"@, 23u32)
        .insert("j"@, 36u32)
        .insert("k"@, 37u32)
        .insert("l"@, 38u32)
        .insert("m"@, 50u32)
        .insert("n"@, 49u32)
        .insert("o"@, 24u32)
        .insert("p"@, 25u32)
        .insert("q"@, 16u32)
        .insert("r"@, 19u32)
        .insert("s"@, 31u32)
        .insert("t"@, 20u32)
        .insert("u"@, 22u32)
        .insert("v"@, 47u32)
        .insert("w"@, 17u32)
        .insert("x"@, 45u32)
        .insert("y"@, 21u32)
        .insert("z"@, 44u32)
        .insert("0"@, 11u32)
        .insert("1"@, 2u32)
        .insert("2"@, 3u32)
        .insert("3"@, 4u32)
        .insert("4"@, 5u32)
        .insert("5"@, 6u32)
        .insert("6"@, 7u32)
        .insert("7"@, 8u32)
        .insert("8"@, 9u32)
        .insert("9"@, 10u32)
}

/// The key names of a key mapping stand for the evdev codes of their keys
/// (`KEY_*` in linux/input-event-codes.h): control keys, the four arrows,
/// letters and digits, each name for its own key. A name that is not a
/// number resolves through this table ("m" is `KEY_M`, 50; "right" is
/// `KEY_RIGHT`, 106); a digit name is read as the number it spells.
pub proof fn lemma_key_names_are_evdev_codes()
    ensures
        key_code_table()["lctrl"@] == 29u32,
        key_code_table()["rctrl"@] == 97u32,
        key_code_table()["lshift"@] == 42u32,
        key_code_table()["rshift"@] == 54u32,
        key_code_table()["lalt"@] == 56u32,
        key_code_table()["ralt"@] == 100u32,
        key_code_table()["space"@] == 57u32,
        key_code_table()["enter"@] == 28u32,
        key_code_table()["tab"@] == 15u32,
        key_code_table()["backspace"@] == 14u32,
        key_code_table()["escape"@] == 1u32,
        key_code_table()["up"@] == 103u32,
        key_code_table()["down"@] == 108u32,
        key_code_table()["left"@] == 105u32,
        key_code_table()["right"@] == 106u32,
        key_code_table()["a"@] == 30u32,
        key_code_table()["b"@] == 48u32,
        key_code_table()["c"@] == 46u32,
        key_code_table()["d"@] == 32u32,
        key_code_table()["e"@] == 18u32,
        key_code_table()["f"@] == 33u32,
        key_code_table()["g"@] == 34u32,
        key_code_table()["h"@] == 35u32,
        key_code_table()["i"@] == 23u32,
        key_code_table()["j"@] == 36u32,
        key_code_table()["k"@] == 37u32,
        key_code_table()["l"@] == 38u32,
        key_code_table()["m"@] == 50u32,
        key_code_table()["n"@] == 49u32,
        key_code_table()["o"@] == 24u32,
        key_code_table()["p"@] == 25u32,
        key_code_table()["q"@] == 16u32,
        key_code_table()["r"@] == 19u32,
        key_code_table()["s"@] == 31u32,
        key_code_table()["t"@] == 20u32,
        key_code_table()["u"@] == 22u32,
        key_code_table()["v"@] == 47u32,
        key_code_table()["w"@] == 17u32,
        key_code_table()["x"@] == 45u32,
        key_code_table()["y"@] == 21u32,
        key_code_table()["z"@] == 44u32,
        key_code_table()["0"@] == 11u32,
        key_code_table()["1"@] == 2u32,
        key_code_table()["2"@] == 3u32,
        key_code_table()["3"@] == 4u32,
        key_code_table()["4"@] == 5u32,
        key_code_table()["5"@] == 6u32,
        key_code_table()["6"@] == 7u32,
        key_code_table()["7"@] == 8u32,
        key_code_table()["8"@] == 9u32,
        key_code_table()["9"@] == 10u32,
        key_code_of("lctrl"@) == Some(29u32),
        key_code_of("rctrl"@) == Some(97u32),
        key_code_of("lshift"@) == Some(42u32),
        key_code_of("rshift"@) == Some(54u32),
        key_code_of("lalt"@) == Some(56u32),
        key_code_of("ralt"@) == Some(100u32),
        key_code_of("space"@) == Some(57u32),
        key_code_of("enter"@) == Some(28u32),
        key_code_of("tab"@) == Some(15u32),
        key_code_of("backspace"@) == Some(14u32),
        key_code_of("escape"@) == Some(1u32),
        key_code_of("up"@) == Some(103u32),
        key_code_of("down"@) == Some(108u32),
        key_code_of("left"@) == Some(105u32),
        key_code_of("right"@) == Some(106u32),
        key_code_of("a"@) == Some(30u32),
        key_code_of("b"@) == Some(48u32),
        key_code_of("c"@) == Some(46u32),
        key_code_of("d"@) == Some(32u32),
        key_code_of("e"@) == Some(18u32),
        key_code_of("f"@) == Some(33u32),
        key_code_of("g"@) == Some(34u32),
        key_code_of("h"@) == Some(35u32),
        key_code_of("i"@) == Some(23u32),
        key_code_of("j"@) == Some(36u32),
        key_code_of("k"@) == Some(37u32),
        key_code_of("l"@) == Some(38u32),
        key_code_of("m"@) == Some(50u32),
        key_code_of("n"@) == Some(49u32),
        key_code_of("o"@) == Some(24u32),
        key_code_of("p"@) == Some(25u32),
        key_code_of("q"@) == Some(16u32),
        key_code_of("r"@) == Some(19u32),
        key_code_of("s"@) == Some(31u32),
        key_code_of("t"@) == Some(20u32),
        key_code_of("u"@) == Some(22u32),
        key_code_of("v"@) == Some(47u32),
        key_code_of("w"@) == Some(17u32),
        key_code_of("x"@) == Some(45u32),
        key_code_of("y"@) == Some(21u32),
        key_code_of("z"@) == Some(44u32),
{
    assert("lctrl"@.len() == 5 && "lctrl"@[0] == 'l' && "lctrl"@[1] == 'c' && "lctrl"@[2] == 't' && "lctrl"@[3] == 'r' && "lctrl"@[4] == 'l') by { reveal_strlit("lctrl"); }
    assert("rctrl"@.len() == 5 && "rctrl"@[0] == 'r' && "rctrl"@[1] == 'c' && "rctrl"@[2] == 't' && "rctrl"@[3] == 'r' && "rctrl"@[4] == 'l') by { reveal_strlit("rctrl"); }
    assert("lshift"@.len() == 6 && "lshift"@[0] == 'l' && "lshift"@[1] == 's' && "lshift"@[2] == 'h' && "lshift"@[3] == 'i' && "lshift"@[4] == 'f' && "lshift"@[5] == 't') by { reveal_strlit("lshift"); }
    assert("rshift"@.len() == 6 && "rshift"@[0] == 'r' && "rshift"@[1] == 's' && "rshift"@[2] == 'h' && "rshift"@[3] == 'i' && "rshift"@[4] == 'f' && "rshift"@[5] == 't') by { reveal_strlit("rshift"); }
    assert("lalt"@.len() == 4 && "lalt"@[0] == 'l' && "lalt"@[1] == 'a' && "lalt"@[2] == 'l' && "lalt"@[3] == 't') by { reveal_strlit("lalt"); }
    assert("ralt"@.len() == 4 && "ralt"@[0] == 'r' && "ralt"@[1] == 'a' && "ralt"@[2] == 'l' && "ralt"@[3] == 't') by { reveal_strlit("ralt"); }
    assert("space"@.len() == 5 && "space"@[0] == 's' && "space"@[1] == 'p' && "space"@[2] == 'a' && "space"@[3] == 'c' && "space"@[4] == 'e') by { reveal_strlit("space"); }
    assert("enter"@.len() == 5 && "enter"@[0] == 'e' && "enter"@[1] == 'n' && "enter"@[2] == 't' && "enter"@[3] == 'e' && "enter"@[4] == 'r') by { reveal_strlit("enter"); }
    assert("tab"@.len() == 3 && "tab"@[0] == 't' && "tab"@[1] == 'a' && "tab"@[2] == 'b') by { reveal_strlit("tab"); }
    assert("backspace"@.len() == 9 && "backspace"@[0] == 'b' && "backspace"@[1] == 'a' && "backspace"@[2] == 'c' && "backspace"@[3] == 'k' && "backspace"@[4] == 's' && "backspace"@[5] == 'p' && "backspace"@[6] == 'a' && "backspace"@[7] == 'c' && "backspace"@[8] == 'e') by { reveal_strlit("backspace"); }
    assert("escape"@.len() == 6 && "escape"@[0] == 'e' && "escape"@[1] == 's' && "escape"@[2] == 'c' && "escape"@[3] == 'a' && "escape"@[4] == 'p' && "escape"@[5] == 'e') by { reveal_strlit("escape"); }
    assert("up"@.len() == 2 && "up"@[0] == 'u' && "up"@[1] == 'p') by { reveal_strlit("up"); }
    assert("down"@.len() == 4 && "down"@[0] == 'd' && "down"@[1] == 'o' && "down"@[2] == 'w' && "down"@[3] == 'n') by { reveal_strlit("down"); }
    assert("left"@.len() == 4 && "left"@[0] == 'l' && "left"@[1] == 'e' && "left"@[2] == 'f' && "left"@[3] == 't') by { reveal_strlit("left"); }
    assert("right"@.len() == 5 && "right"@[0] == 'r' && "right"@[1] == 'i' && "right"@[2] == 'g' && "right"@[3] == 'h' && "right"@[4] == 't') by { reveal_strlit("right"); }
    assert("a"@.len() == 1 && "a"@[0] == 'a') by { reveal_strlit("a"); }
    assert("b"@.len() == 1 && "b"@[0] == 'b') by { reveal_strlit("b"); }
    assert("c"@.len() == 1 && "c"@[0] == 'c') by { reveal_strlit("c"); }
    assert("d"@.len() == 1 && "d"@[0] == 'd') by { reveal_strlit("d"); }
    assert("e"@.len() == 1 && "e"@[0] == 'e') by { reveal_strlit("e"); }
    assert("f"@.len() == 1 && "f"@[0] == 'f') by { reveal_strlit("f"); }
    assert("g"@.len() == 1 && "g"@[0] == 'g') by { reveal_strlit("g"); }
    assert("h"@.len() == 1 && "h"@[0] == 'h') by { reveal_strlit("h"); }
    assert("i"@.len() == 1 && "i"@[0] == 'i') by { reveal_strlit("i"); }
    assert("j"@.len() == 1 && "j"@[0] == 'j') by { reveal_strlit("j"); }
    assert("k"@.len() == 1 && "k"@[0] == 'k') by { reveal_strlit("k"); }
    assert("l"@.len() == 1 && "l"@[0] == 'l') by { reveal_strlit("l"); }
    assert("m"@.len() == 1 && "m"@[0] == 'm') by { reveal_strlit("m"); }
    assert("n"@.len() == 1 && "n"@[0] == 'n') by { reveal_strlit("n"); }
    assert("o"@.len() == 1 && "o"@[0] == 'o') by { reveal_strlit("o"); }
    assert("p"@.len() == 1 && "p"@[0] == 'p') by { reveal_strlit("p"); }
    assert("q"@.len() == 1 && "q"@[0] == 'q') by { reveal_strlit("q"); }
    assert("r"@.len() == 1 && "r"@[0] == 'r') by { reveal_strlit("r"); }
    assert("s"@.len() == 1 && "s"@[0] == 's') by { reveal_strlit("s"); }
    assert("t"@.len() == 1 && "t"@[0] == 't') by { reveal_strlit("t"); }
    assert("u"@.len() == 1 && "u"@[0] == 'u') by { reveal_strlit("u"); }
    assert("v"@.len() == 1 && "v"@[0] == 'v') by { reveal_strlit("v"); }
    assert("w"@.len() == 1 && "w"@[0] == 'w') by { reveal_strlit("w"); }
    assert("x"@.len() == 1 && "x"@[0] == 'x') by { reveal_strlit("x"); }
    assert("y"@.len() == 1 && "y"@[0] == 'y') by { reveal_strlit("y"); }
    assert("z"@.len() == 1 && "z"@[0] == 'z') by { reveal_strlit("z"); }
    assert("0"@.len() == 1 && "0"@[0] == '0') by { reveal_strlit("0"); }
    assert("1"@.len() == 1 && "1"@[0] == '1') by { reveal_strlit("1"); }
    assert("2"@.len() == 1 && "2"@[0] == '2') by { reveal_strlit("2"); }
    assert("3"@.len() == 1 && "3"@[0] == '3') by { reveal_strlit("3"); }
    assert("4"@.len() == 1 && "4"@[0] == '4') by { reveal_strlit("4"); }
    assert("5"@.len() == 1 && "5"@[0] == '5') by { reveal_strlit("5"); }
    assert("6"@.len() == 1 && "6"@[0] == '6') by { reveal_strlit("6"); }
    assert("7"@.len() == 1 && "7"@[0] == '7') by { reveal_strlit("7"); }
    assert("8"@.len() == 1 && "8"@[0] == '8') by { reveal_strlit("8"); }
    assert("9"@.len() == 1 && "9"@[0] == '9') by { reveal_strlit("9"); }
}

/// The keycode a key-mapping entry names: the number it spells, else the
/// code of the key name.
pub open spec fn key_code_of(name: Seq<char>) -> Option<u32> {
    match parse_u32_spec(name) {
        Some(v) => Some(v),
        None => if key_code_table().contains_key(name) {
            Some(key_code_table()[name])
        } else {
            None
        },
    }
}

/// Whether `code` is an arrow key (up, down, left, right).
pub open spec fn is_arrow_key(code: u32) -> bool {
    code == 103 || code == 108 || code == 105 || code == 106
}

/// Whether a hand frame belongs to the right hand: a path that mentions
/// "righthand" is the right hand's, else one that mentions "lefthand" is
/// the left hand's; otherwise arrow keys go to the right hand and all
/// other keys to the left.
pub open spec fn on_right_hand(hand_path: Seq<char>, code: u32) -> bool {
    if contains_seq(hand_path, "righthand"@) {
        true
    } else if contains_seq(hand_path, "lefthand"@) {
        false
    } else {
        is_arrow_key(code)
    }
}

/// Key images and per-hand key frames.
pub ghost struct KeyAssets {
    pub key_images: Map<Seq<char>, ImageModel>,
    pub left: Map<u32, ImageModel>,
    pub right: Map<u32, ImageModel>,
}

pub open spec fn no_key_assets() -> KeyAssets {
    KeyAssets { key_images: Map::empty(), left: Map::empty(), right: Map::empty() }
}

/// One key-mapping entry `key -> [key_image, hand_image, ..]` applied to `acc`.
pub open spec fn key_entry_step(
    mode: Seq<char>,
    store: Map<Seq<char>, Result<ImageData, String>>,
    acc: KeyAssets,
    key: Seq<char>,
    paths: Seq<String>,
) -> KeyAssets {
    if paths.len() >= 2 {
        let acc1 = match stored_image(store, join_spec(mode, paths[0]@)) {
            Some(img) => KeyAssets { key_images: acc.key_images.insert(key, img), left: acc.left, right: acc.right },
            None => acc,
        };
        match stored_image(store, join_spec(mode, paths[1]@)) {
            Some(hand) => match key_code_of(key) {
                Some(code) => if on_right_hand(paths[1]@, code) {
                    KeyAssets { key_images: acc1.key_images, left: acc1.left, right: acc1.right.insert(code, hand) }
                } else {
                    KeyAssets { key_images: acc1.key_images, left: acc1.left.insert(code, hand), right: acc1.right }
                },
                None => acc1,
            },
            None => acc1,
        }
    } else {
        acc
    }
}

/// The key assets that a key mapping yields, entry by entry in order.
pub open spec fn key_mapping_assets(
    mode: Seq<char>,
    store: Map<Seq<char>, Result<ImageData, String>>,
    entries: Seq<(String, Vec<String>)>,
) -> KeyAssets
    decreases entries.len(),
{
    if entries.len() == 0 {
        no_key_assets()
    } else {
        key_entry_step(
            mode,
            store,
            key_mapping_assets(mode, store, entries.drop_last()),
            entries.last().0@,
            entries.last().1@,
        )
    }
}

/// Legacy key images added to `start`: `bindings[i]` shows image
/// `names[i]` from `keys_dir`, a later binding overriding an earlier one.
pub open spec fn legacy_key_images(
    keys_dir: Seq<char>,
    store: Map<Seq<char>, Result<ImageData, String>>,
    names: Seq<String>,
    bindings: Seq<String>,
    start: Map<Seq<char>, ImageModel>,
) -> Map<Seq<char>, ImageModel>
    decreases bindings.len(),
{
    if bindings.len() == 0 {
        start
    } else {
        let prev = legacy_key_images(keys_dir, store, names, bindings.drop_last(), start);
        let i = bindings.len() - 1;
        if i < names.len() && names[i]@.len() > 0 {
            match stored_image(store, join_spec(keys_dir, names[i]@)) {
                Some(img) => prev.insert(bindings[i]@, img),
                None => prev,
            }
        } else {
            prev
        }
    }
}

/// The frames of `names` in `dir` that could be loaded, in order.
pub open spec fn loaded_frames(dir: Seq<char>, store: Map<Seq<char>, Result<ImageData, String>>, names: Seq<String>) -> Seq<
    ImageModel,
>
    decreases names.len(),
{
    if names.len() == 0 {
        seq![]
    } else {
        let prev = loaded_frames(dir, store, names.drop_last());
        match stored_image(store, join_spec(dir, names.last()@)) {
            Some(img) => prev.push(img),
            None => prev,
        }
    }
}

/// A legacy hand: the up image and frames from directory `hand_path`; none
/// without a loadable up image.
pub open spec fn legacy_hand(
    mode: Seq<char>,
    hand_path: Seq<char>,
    up_name: Option<String>,
    frame_names: Option<Vec<String>>,
    store: Map<Seq<char>, Result<ImageData, String>>,
) -> Option<HandModel> {
    let dir = join_spec(mode, hand_path);
    match up_name {
        Some(n) => match stored_image(store, join_spec(dir, n@)) {
            Some(up) => Some(
                HandModel {
                    up,
                    frames: match frame_names {
                        Some(v) => loaded_frames(dir, store, v@),
                        None => seq![],
                    },
                },
            ),
            None => None,
        },
        None => None,
    }
}

/// A hand whose up image is named directly under the mode directory.
pub open spec fn direct_hand(mode: Seq<char>, up: Option<String>, store: Map<Seq<char>, Result<ImageData, String>>) -> Option<
    HandModel,
> {
    match up {
        Some(p) => if p@.len() > 0 {
            match stored_image(store, join_spec(mode, p@)) {
                Some(img) => Some(HandModel { up: img, frames: seq![] }),
                None => None,
            }
        } else {
            None
        },
        None => None,
    }
}

/// The legacy hand directory a mode names, if it names a non-empty one.
pub open spec fn legacy_hand_dir(path: Option<String>) -> Option<Seq<char>> {
    match path {
        Some(p) => if p@.len() > 0 {
            Some(p@)
        } else {
            None
        },
        None => None,
    }
}

/// A hand as the mode loads it: the direct hand, replaced by the legacy
/// hand when the mode has no key mapping and names a legacy hand directory.
pub open spec fn hand_spec(
    mode: Seq<char>,
    has_key_mapping: bool,
    up: Option<String>,
    legacy_path: Option<String>,
    frame_names: Option<Vec<String>>,
    store: Map<Seq<char>, Result<ImageData, String>>,
) -> Option<HandModel> {
    match legacy_hand_dir(legacy_path) {
        Some(dir) => if has_key_mapping {
            direct_hand(mode, up, store)
        } else {
            legacy_hand(mode, dir, up, frame_names, store)
        },
        None => direct_hand(mode, up, store),
    }
}

pub open spec fn left_hand_spec(mode: Seq<char>, c: ModeConfig, store: Map<Seq<char>, Result<ImageData, String>>) -> Option<
    HandModel,
> {
    hand_spec(mode, c.key_mapping is Some, c.left_hand_up_image, c.left_hand_image_path, c.left_hand_images, store)
}

pub open spec fn right_hand_spec(mode: Seq<char>, c: ModeConfig, store: Map<Seq<char>, Result<ImageData, String>>) -> Option<
    HandModel,
> {
    hand_spec(
        mode,
        c.key_mapping is Some,
        c.right_hand_up_image,
        c.right_hand_image_path,
        c.right_hand_images,
        store,
    )
}

/// The legacy key images of a mode without a key mapping, added to `start`.
pub open spec fn legacy_keys_spec(
    mode: Seq<char>,
    c: ModeConfig,
    store: Map<Seq<char>, Result<ImageData, String>>,
    start: Map<Seq<char>, ImageModel>,
) -> Map<Seq<char>, ImageModel> {
    match c.keys_image_path {
        Some(kp) => match c.keys_images {
            Some(names) => match c.key_bindings {
                Some(b) => if kp@.len() > 0 {
                    legacy_key_images(join_spec(mode, kp@), store, names@, b@, start)
                } else {
                    start
                },
                None => start,
            },
            None => start,
        },
        None => start,
    }
}

/// The key assets of a mode.
pub open spec fn key_assets_spec(mode: Seq<char>, c: ModeConfig, store: Map<Seq<char>, Result<ImageData, String>>) -> KeyAssets {
    match c.key_mapping {
        Some(entries) => key_mapping_assets(mode, store, entries@),
        None => KeyAssets {
            key_images: legacy_keys_spec(mode, c, store, Map::empty()),
            left: Map::empty(),
            right: Map::empty(),
        },
    }
}

/// The key-mapping image paths: for each entry with two paths, its key
/// image and its hand image, in order.
pub open spec fn key_mapping_paths(mode: Seq<char>, entries: Seq<(String, Vec<String>)>) -> Seq<Seq<char>>
    decreases entries.len(),
{
    if entries.len() == 0 {
        seq![]
    } else {
        let prev = key_mapping_paths(mode, entries.drop_last());
        let paths = entries.last().1@;
        if paths.len() >= 2 {
            prev.push(join_spec(mode, paths[0]@)).push(join_spec(mode, paths[1]@))
        } else {
            prev
        }
    }
}

/// The paths of frames `names` in `dir`.
pub open spec fn frame_paths(dir: Seq<char>, names: Seq<String>) -> Seq<Seq<char>>
    decreases names.len(),
{
    if names.len() == 0 {
        seq![]
    } else {
        frame_paths(dir, names.drop_last()).push(join_spec(dir, names.last()@))
    }
}

/// The legacy key image paths: for each binding with a non-empty image name.
pub open spec fn legacy_key_paths(keys_dir: Seq<char>, names: Seq<String>, bindings: Seq<String>) -> Seq<
    Seq<char>,
>
    decreases bindings.len(),
{
    if bindings.len() == 0 {
        seq![]
    } else {
        let prev = legacy_key_paths(keys_dir, names, bindings.drop_last());
        let i = bindings.len() - 1;
        if i < names.len() && names[i]@.len() > 0 {
            prev.push(join_spec(keys_dir, names[i]@))
        } else {
            prev
        }
    }
}

/// The image paths of a direct hand.
pub open spec fn direct_hand_paths(mode: Seq<char>, up: Option<String>) -> Seq<Seq<char>> {
    match up {
        Some(p) => if p@.len() > 0 {
            seq![join_spec(mode, p@)]
        } else {
            seq![]
        },
        None => seq![],
    }
}

/// The image paths of a legacy hand named by `legacy_path`.
pub open spec fn legacy_hand_paths(
    mode: Seq<char>,
    legacy_path: Option<String>,
    up: Option<String>,
    frame_names: Option<Vec<String>>,
) -> Seq<Seq<char>> {
    match legacy_hand_dir(legacy_path) {
        Some(d) => {
            let dir = join_spec(mode, d);
            (match up {
                Some(n) => seq![join_spec(dir, n@)],
                None => seq![],
            }) + (match frame_names {
                Some(v) => frame_paths(dir, v@),
                None => seq![],
            })
        },
        None => seq![],
    }
}

/// The legacy key image paths of a mode.
pub open spec fn legacy_keys_paths(mode: Seq<char>, c: ModeConfig) -> Seq<Seq<char>> {
    match c.keys_image_path {
        Some(kp) => match c.keys_images {
            Some(names) => match c.key_bindings {
                Some(b) => if kp@.len() > 0 {
                    legacy_key_paths(join_spec(mode, kp@), names@, b@)
                } else {
                    seq![]
                },
                None => seq![],
            },
            None => seq![],
        },
        None => seq![],
    }
}

/// Every image path that loading the mode in `mode` with `c` looks up.
pub open spec fn mode_image_paths(mode: Seq<char>, c: ModeConfig) -> Seq<Seq<char>> {
    seq![join_spec(mode, c.background_image@), join_spec(mode, c.cat_background_image@)] + direct_hand_paths(
        mode,
        c.left_hand_up_image,
    ) + direct_hand_paths(mode, c.right_hand_up_image) + match c.key_mapping {
        Some(entries) => key_mapping_paths(mode, entries@),
        None => legacy_hand_paths(mode, c.left_hand_image_path, c.left_hand_up_image, c.left_hand_images)
            + legacy_hand_paths(mode, c.right_hand_image_path, c.right_hand_up_image, c.right_hand_images)
            + legacy_keys_paths(mode, c),
    }
}

/// The texts of a sequence of strings.
pub open spec fn texts(v: Seq<String>) -> Seq<Seq<char>> {
    v.map_values(|s: String| s@)
}

/// Two image stores agree on the paths `ps`.
pub open spec fn agree_on(s1: Map<Seq<char>, Result<ImageData, String>>, s2: Map<Seq<char>, Result<ImageData, String>>, ps: Seq<Seq<char>>) -> bool {
    forall|p: Seq<char>| ps.contains(p) ==> stored_image(s1, p) == stored_image(s2, p)
}

proof fn lemma_agree_append(s1: Map<Seq<char>, Result<ImageData, String>>, s2: Map<Seq<char>, Result<ImageData, String>>, a: Seq<Seq<char>>, b: Seq<Seq<char>>)
    requires
        agree_on(s1, s2, a + b),
    ensures
        agree_on(s1, s2, a),
        agree_on(s1, s2, b),
{
    assert forall|p: Seq<char>| a.contains(p) implies stored_image(s1, p) == stored_image(s2, p) by {
        let i = choose|i: int| 0 <= i < a.len() && a[i] == p;
        assert((a + b)[i] == p);
    }
    assert forall|p: Seq<char>| b.contains(p) implies stored_image(s1, p) == stored_image(s2, p) by {
        let i = choose|i: int| 0 <= i < b.len() && b[i] == p;
        assert((a + b)[a.len() + i] == p);
    }
}

proof fn lemma_agree_push(s1: Map<Seq<char>, Result<ImageData, String>>, s2: Map<Seq<char>, Result<ImageData, String>>, a: Seq<Seq<char>>, p: Seq<char>)
    requires
        agree_on(s1, s2, a.push(p)),
    ensures
        agree_on(s1, s2, a),
        stored_image(s1, p) == stored_image(s2, p),
{
    assert(a.push(p) =~= a + seq![p]);
    lemma_agree_append(s1, s2, a, seq![p]);
    assert(seq![p][0] == p);
}

proof fn lemma_key_mapping_frame(
    mode: Seq<char>,
    s1: Map<Seq<char>, Result<ImageData, String>>,
    s2: Map<Seq<char>, Result<ImageData, String>>,
    entries: Seq<(String, Vec<String>)>,
)
    requires
        agree_on(s1, s2, key_mapping_paths(mode, entries)),
    ensures
        key_mapping_assets(mode, s1, entries) == key_mapping_assets(mode, s2, entries),
    decreases entries.len(),
{
    if entries.len() > 0 {
        let prev = key_mapping_paths(mode, entries.drop_last());
        let paths = entries.last().1@;
        if paths.len() >= 2 {
            lemma_agree_push(s1, s2, prev.push(join_spec(mode, paths[0]@)), join_spec(mode, paths[1]@));
            lemma_agree_push(s1, s2, prev, join_spec(mode, paths[0]@));
        }
        lemma_key_mapping_frame(mode, s1, s2, entries.drop_last());
    }
}

proof fn lemma_frames_frame(
    dir: Seq<char>,
    s1: Map<Seq<char>, Result<ImageData, String>>,
    s2: Map<Seq<char>, Result<ImageData, String>>,
    names: Seq<String>,
)
    requires
        agree_on(s1, s2, frame_paths(dir, names)),
    ensures
        loaded_frames(dir, s1, names) == loaded_frames(dir, s2, names),
    decreases names.len(),
{
    if names.len() > 0 {
        lemma_agree_push(s1, s2, frame_paths(dir, names.drop_last()), join_spec(dir, names.last()@));
        lemma_frames_frame(dir, s1, s2, names.drop_last());
    }
}

proof fn lemma_legacy_keys_frame(
    keys_dir: Seq<char>,
    s1: Map<Seq<char>, Result<ImageData, String>>,
    s2: Map<Seq<char>, Result<ImageData, String>>,
    names: Seq<String>,
    bindings: Seq<String>,
    start: Map<Seq<char>, ImageModel>,
)
    requires
        agree_on(s1, s2, legacy_key_paths(keys_dir, names, bindings)),
    ensures
        legacy_key_images(keys_dir, s1, names, bindings, start) == legacy_key_images(
            keys_dir,
            s2,
            names,
            bindings,
            start,
        ),
    decreases bindings.len(),
{
    if bindings.len() > 0 {
        let prev = legacy_key_paths(keys_dir, names, bindings.drop_last());
        let i = bindings.len() - 1;
        if i < names.len() && names[i]@.len() > 0 {
            lemma_agree_push(s1, s2, prev, join_spec(keys_dir, names[i]@));
        }
        lemma_legacy_keys_frame(keys_dir, s1, s2, names, bindings.drop_last(), start);
    }
}

proof fn lemma_legacy_hand_frame(
    mode: Seq<char>,
    s1: Map<Seq<char>, Result<ImageData, String>>,
    s2: Map<Seq<char>, Result<ImageData, String>>,
    legacy_path: Option<String>,
    up: Option<String>,
    frame_names: Option<Vec<String>>,
)
    requires
        agree_on(s1, s2, legacy_hand_paths(mode, legacy_path, up, frame_names)),
        legacy_hand_dir(legacy_path) is Some,
    ensures
        legacy_hand(mode, legacy_hand_dir(legacy_path)->0, up, frame_names, s1) == legacy_hand(
            mode,
            legacy_hand_dir(legacy_path)->0,
            up,
            frame_names,
            s2,
        ),
{
    let dir = join_spec(mode, legacy_hand_dir(legacy_path)->0);
    let ups = match up {
        Some(n) => seq![join_spec(dir, n@)],
        None => seq![],
    };
    let frames = match frame_names {
        Some(v) => frame_paths(dir, v@),
        None => seq![],
    };
    lemma_agree_append(s1, s2, ups, frames);
    if let Some(n) = up {
        assert(ups[0] == join_spec(dir, n@));
    }
    if let Some(v) = frame_names {
        lemma_frames_frame(dir, s1, s2, v@);
    }
}

/// Loading a mode looks only at the images in `mode_image_paths`: two image
/// stores that agree there give the same loaded mode.
pub proof fn lemma_load_reads_only_mode_image_paths(
    mode: Seq<char>,
    name: Seq<char>,
    c: ModeConfig,
    s1: Map<Seq<char>, Result<ImageData, String>>,
    s2: Map<Seq<char>, Result<ImageData, String>>,
    m: LoadedMode,
)
    requires
        agree_on(s1, s2, mode_image_paths(mode, c)),
    ensures
        m.loaded_as(mode, name, c, s1) <==> m.loaded_as(mode, name, c, s2),
{
    let bg = seq![join_spec(mode, c.background_image@), join_spec(mode, c.cat_background_image@)];
    let lh = direct_hand_paths(mode, c.left_hand_up_image);
    let rh = direct_hand_paths(mode, c.right_hand_up_image);
    let rest = match c.key_mapping {
        Some(entries) => key_mapping_paths(mode, entries@),
        None => legacy_hand_paths(mode, c.left_hand_image_path, c.left_hand_up_image, c.left_hand_images)
            + legacy_hand_paths(mode, c.right_hand_image_path, c.right_hand_up_image, c.right_hand_images)
            + legacy_keys_paths(mode, c),
    };
    assert(mode_image_paths(mode, c) == bg + lh + rh + rest);
    lemma_agree_append(s1, s2, bg + lh + rh, rest);
    lemma_agree_append(s1, s2, bg + lh, rh);
    lemma_agree_append(s1, s2, bg, lh);
    assert(bg[0] == join_spec(mode, c.background_image@));
    assert(bg[1] == join_spec(mode, c.cat_background_image@));
    if let Some(p) = c.left_hand_up_image {
        if p@.len() > 0 {
            assert(lh[0] == join_spec(mode, p@));
        }
    }
    if let Some(p) = c.right_hand_up_image {
        if p@.len() > 0 {
            assert(rh[0] == join_spec(mode, p@));
        }
    }
    match c.key_mapping {
        Some(entries) => {
            lemma_key_mapping_frame(mode, s1, s2, entries@);
        },
        None => {
            let l = legacy_hand_paths(mode, c.left_hand_image_path, c.left_hand_up_image, c.left_hand_images);
            let r = legacy_hand_paths(mode, c.right_hand_image_path, c.right_hand_up_image, c.right_hand_images);
            lemma_agree_append(s1, s2, l + r, legacy_keys_paths(mode, c));
            lemma_agree_append(s1, s2, l, r);
            if legacy_hand_dir(c.left_hand_image_path) is Some {
                lemma_legacy_hand_frame(mode, s1, s2, c.left_hand_image_path, c.left_hand_up_image, c.left_hand_images);
            }
            if legacy_hand_dir(c.right_hand_image_path) is Some {
                lemma_legacy_hand_frame(mode, s1, s2, c.right_hand_image_path, c.right_hand_up_image, c.right_hand_images);
            }
            match c.keys_image_path {
                Some(kp) => match c.keys_images {
                    Some(names) => match c.key_bindings {
                        Some(b) => if kp@.len() > 0 {
                            lemma_legacy_keys_frame(join_spec(mode, kp@), s1, s2, names@, b@, Map::empty());
                        },
                        None => {},
                    },
                    None => {},
                },
                None => {},
            }
        },
    }
}

/// An entry whose key names another code leaves the frames of `code` as
/// they were.
proof fn lemma_entry_keeps_other_code(
    mode: Seq<char>,
    store: Map<Seq<char>, Result<ImageData, String>>,
    acc: KeyAssets,
    key: Seq<char>,
    paths: Seq<String>,
    code: u32,
)
    requires
        key_code_of(key) != Some(code),
    ensures
        ({
            let next = key_entry_step(mode, store, acc, key, paths);
            &&& next.left.contains_key(code) == acc.left.contains_key(code)
            &&& next.right.contains_key(code) == acc.right.contains_key(code)
            &&& acc.left.contains_key(code) ==> next.left[code] == acc.left[code]
            &&& acc.right.contains_key(code) ==> next.right[code] == acc.right[code]
        }),
{
}

/// The key frames of a key mapping's first `n` entries, where none of
/// them names `code`, hold no frame for `code`.
proof fn lemma_code_not_named(
    mode: Seq<char>,
    store: Map<Seq<char>, Result<ImageData, String>>,
    entries: Seq<(String, Vec<String>)>,
    n: int,
    code: u32,
)
    requires
        0 <= n <= entries.len(),
        forall|j: int| 0 <= j < n ==> key_code_of((#[trigger] entries[j]).0@) != Some(code),
    ensures
        !key_mapping_assets(mode, store, entries.take(n)).left.contains_key(code),
        !key_mapping_assets(mode, store, entries.take(n)).right.contains_key(code),
    decreases n,
{
    if n > 0 {
        lemma_code_not_named(mode, store, entries, n - 1, code);
        assert(entries.take(n).drop_last() =~= entries.take(n - 1));
        let prev = key_mapping_assets(mode, store, entries.take(n - 1));
        lemma_entry_keeps_other_code(mode, store, prev, entries[n - 1].0@, entries[n - 1].1@, code);
    }
}

/// After the entry `i` that alone names `code`, the frame it gave stays on
/// its side through the first `n` entries.
proof fn lemma_code_frame_stays(
    mode: Seq<char>,
    store: Map<Seq<char>, Result<ImageData, String>>,
    entries: Seq<(String, Vec<String>)>,
    i: int,
    n: int,
    code: u32,
)
    requires
        0 <= i < n <= entries.len(),
        forall|j: int| 0 <= j < entries.len() && j != i ==> key_code_of((#[trigger] entries[j]).0@) != Some(code),
    ensures
        ({
            let at = key_mapping_assets(mode, store, entries.take(i + 1));
            let now = key_mapping_assets(mode, store, entries.take(n));
            &&& now.left.contains_key(code) == at.left.contains_key(code)
            &&& now.right.contains_key(code) == at.right.contains_key(code)
            &&& at.left.contains_key(code) ==> now.left[code] == at.left[code]
            &&& at.right.contains_key(code) ==> now.right[code] == at.right[code]
        }),
    decreases n,
{
    if n > i + 1 {
        lemma_code_frame_stays(mode, store, entries, i, n - 1, code);
        assert(entries.take(n).drop_last() =~= entries.take(n - 1));
        let prev = key_mapping_assets(mode, store, entries.take(n - 1));
        lemma_entry_keeps_other_code(mode, store, prev, entries[n - 1].0@, entries[n - 1].1@, code);
    }
}

/// Where a key mapping's hand frame goes: the frame of an entry
/// `[key_image, hand_image, ..]` whose hand image loads, and whose key is
/// the only one naming its keycode, lands in the right hand's key frames
/// when the hand image path mentions "righthand", in the left hand's when
/// it mentions "lefthand" (and not "righthand"), and otherwise in the right
/// hand's for the arrow keys (evdev 103 up, 105 left, 106 right, 108 down)
/// and in the left hand's for every other key; never in both.
pub proof fn lemma_key_frame_hand(
    m: LoadedMode,
    mode_path: Seq<char>,
    mode_name: Seq<char>,
    config: ModeConfig,
    store: Map<Seq<char>, Result<ImageData, String>>,
    i: int,
    code: u32,
)
    requires
        m.loaded_as(mode_path, mode_name, config, store),
        config.key_mapping is Some,
        0 <= i < config.key_mapping->0@.len(),
        config.key_mapping->0@[i].1@.len() >= 2,
        stored_image(store, join_spec(mode_path, config.key_mapping->0@[i].1@[1]@)) is Some,
        key_code_of(config.key_mapping->0@[i].0@) == Some(code),
        forall|j: int|
            0 <= j < config.key_mapping->0@.len() && j != i ==> key_code_of(
                (#[trigger] config.key_mapping->0@[j]).0@,
            ) != Some(code),
    ensures
        ({
            let hand_path = config.key_mapping->0@[i].1@[1]@;
            let hand = stored_image(store, join_spec(mode_path, hand_path));
            let right = contains_seq(hand_path, "righthand"@) || (!contains_seq(hand_path, "lefthand"@) && (code
                == 103 || code == 105 || code == 106 || code == 108));
            &&& right ==> m.right_hand_key_frames@.contains_key(code) && hand == Some(
                m.right_hand_key_frames@[code]@,
            ) && !m.left_hand_key_frames@.contains_key(code)
            &&& !right ==> m.left_hand_key_frames@.contains_key(code) && hand == Some(
                m.left_hand_key_frames@[code]@,
            ) && !m.right_hand_key_frames@.contains_key(code)
        }),
{
    let entries = config.key_mapping->0@;
    let n = entries.len() as int;
    lemma_code_not_named(mode_path, store, entries, i, code);
    assert(entries.take(i + 1).drop_last() =~= entries.take(i));
    lemma_code_frame_stays(mode_path, store, entries, i, n, code);
    assert(entries.take(n) =~= entries);
    let keys = key_assets_spec(mode_path, config, store);
    assert(coded_image_models(m.left_hand_key_frames@).contains_key(code) == m.left_hand_key_frames@.contains_key(
        code,
    ));
    assert(coded_image_models(m.right_hand_key_frames@).contains_key(code)
        == m.right_hand_key_frames@.contains_key(code));
    if m.left_hand_key_frames@.contains_key(code) {
        assert(coded_image_models(m.left_hand_key_frames@)[code] == m.left_hand_key_frames@[code]@);
    }
    if m.right_hand_key_frames@.contains_key(code) {
        assert(coded_image_models(m.right_hand_key_frames@)[code] == m.right_hand_key_frames@[code]@);
    }
}

/// Both hands load alike. With a key mapping, or without a legacy hand
/// directory, a hand is its up image named directly under the mode
/// directory (a non-empty name whose image loads), with no frames, and no
/// hand otherwise. Without a key mapping, a non-empty legacy hand directory
/// gives the hand whose up image, in that directory, loads, and no hand
/// when it does not.
pub proof fn lemma_hands_load_alike(
    m: LoadedMode,
    mode_path: Seq<char>,
    mode_name: Seq<char>,
    config: ModeConfig,
    store: Map<Seq<char>, Result<ImageData, String>>,
)
    requires
        m.loaded_as(mode_path, mode_name, config, store),
    ensures
        // The left hand, named directly under the mode directory.
        config.key_mapping is Some || !(config.left_hand_image_path is Some && config.left_hand_image_path->0@.len() > 0) ==> (config.left_hand_up_image is Some && config.left_hand_up_image->0@.len() > 0 && stored_image(store, join_spec(mode_path, config.left_hand_up_image->0@)) is Some ==> m.left_hand is Some
            && stored_image(store, join_spec(mode_path, config.left_hand_up_image->0@)) == Some(m.left_hand->0.up_image@)
            && m.left_hand->0.frame_images@.len() == 0),
        config.key_mapping is Some || !(config.left_hand_image_path is Some && config.left_hand_image_path->0@.len() > 0) ==> (!(config.left_hand_up_image is Some && config.left_hand_up_image->0@.len() > 0 && stored_image(store, join_spec(mode_path, config.left_hand_up_image->0@)) is Some) ==> m.left_hand is None),
        // The left hand, from its legacy directory.
        config.key_mapping is None && config.left_hand_image_path is Some && config.left_hand_image_path->0@.len() > 0 ==> (config.left_hand_up_image is Some && stored_image(store, join_spec(join_spec(mode_path, config.left_hand_image_path->0@), config.left_hand_up_image->0@)) is Some
            ==> m.left_hand is Some && stored_image(store, join_spec(join_spec(mode_path, config.left_hand_image_path->0@), config.left_hand_up_image->0@)) == Some(m.left_hand->0.up_image@)),
        config.key_mapping is None && config.left_hand_image_path is Some && config.left_hand_image_path->0@.len() > 0 ==> (!(config.left_hand_up_image is Some && stored_image(store, join_spec(join_spec(mode_path, config.left_hand_image_path->0@), config.left_hand_up_image->0@)) is Some)
            ==> m.left_hand is None),
        // The right hand, named directly under the mode directory.
        config.key_mapping is Some || !(config.right_hand_image_path is Some && config.right_hand_image_path->0@.len() > 0) ==> (config.right_hand_up_image is Some && config.right_hand_up_image->0@.len() > 0 && stored_image(store, join_spec(mode_path, config.right_hand_up_image->0@)) is Some ==> m.right_hand is Some
            && stored_image(store, join_spec(mode_path, config.right_hand_up_image->0@)) == Some(m.right_hand->0.up_image@)
            && m.right_hand->0.frame_images@.len() == 0),
        config.key_mapping is Some || !(config.right_hand_image_path is Some && config.right_hand_image_path->0@.len() > 0) ==> (!(config.right_hand_up_image is Some && config.right_hand_up_image->0@.len() > 0 && stored_image(store, join_spec(mode_path, config.right_hand_up_image->0@)) is Some) ==> m.right_hand is None),
        // The right hand, from its legacy directory.
        config.key_mapping is None && config.right_hand_image_path is Some && config.right_hand_image_path->0@.len() > 0 ==> (config.right_hand_up_image is Some && stored_image(store, join_spec(join_spec(mode_path, config.right_hand_image_path->0@), config.right_hand_up_image->0@)) is Some
            ==> m.right_hand is Some && stored_image(store, join_spec(join_spec(mode_path, config.right_hand_image_path->0@), config.right_hand_up_image->0@)) == Some(m.right_hand->0.up_image@)),
        config.key_mapping is None && config.right_hand_image_path is Some && config.right_hand_image_path->0@.len() > 0 ==> (!(config.right_hand_up_image is Some && stored_image(store, join_spec(join_spec(mode_path, config.right_hand_image_path->0@), config.right_hand_up_image->0@)) is Some)
            ==> m.right_hand is None),
{
    if m.left_hand is Some {
        assert(m.left_hand->0@.frames.len() == m.left_hand->0.frame_images@.len());
    }
    if m.right_hand is Some {
        assert(m.right_hand->0@.frames.len() == m.right_hand->0.frame_images@.len());
    }
}

/// A key-mapping entry named by the decimal digits of a keycode stands for
/// that keycode.
pub proof fn lemma_numeric_key_name(code: u32)
    ensures
        key_code_of(int_text(code as int)) == Some(code),
{
    lemma_parse_decimal_text(code);
}

/// Loaded mode with all assets.
#[derive(Debug)]
pub struct LoadedMode {
    pub name: String,
    pub config: ModeConfig,
    pub base_path: String,
    // Images
    pub background: Option<ImageData>,
    pub cat_background: Option<ImageData>,
    // Hands
    pub left_hand: Option<HandData>,
    pub right_hand: Option<HandData>,
    // Keys: key_name -> key_image
    pub key_images: StrMap<ImageData>,
    // Hand frames for each key: keycode -> hand_frame_image
    pub left_hand_key_frames: HashMap<u32, ImageData>,
    pub right_hand_key_frames: HashMap<u32, ImageData>,
    // Face expressions
    pub face_images: Vec<ImageData>,
}

impl LoadedMode {
    /// The keycode that key-mapping entry `name` stands for.
    fn key_code_for(key_to_code: &StrMap<u32>, name: &str) -> (r: Option<u32>)
        requires
            key_to_code@ == key_code_table(),
        ensures
            r == key_code_of(name@),
    {
        match parse_u32(name) {
            Some(v) => Some(v),
            None => match key_to_code.get(name) {
                Some(c) => Some(*c),
                None => None,
            },
        }
    }

    /// The image `name` under `base_path`, if it could be loaded.
    fn load_optional_image(base_path: &str, name: &str, images: &ImageStore) -> (r: Option<ImageData>)
        ensures
            image_option_view(r) == stored_image(images@, join_spec(base_path@, name@)),
    {
        let path = path_join(base_path, name);
        match fetch_image(images, path.as_str()) {
            Ok(img) => Some(img),
            Err(_) => None,
        }
    }

    /// A legacy hand in directory `hand_path` under `base_path`: its up image
    /// (required) and whichever of its frames could be loaded. Without an up
    /// image name this fails with "Missing up image for hand"; when the up
    /// image does not load, with the error of that load.
    pub fn load_hand_data(
        base_path: &str,
        hand_path: &str,
        up_image_name: &Option<String>,
        frame_names: &Option<Vec<String>>,
        images: &ImageStore,
    ) -> (r: Result<HandData, LoadError>)
        ensures
            match r {
                Ok(h) => legacy_hand(base_path@, hand_path@, *up_image_name, *frame_names, images@) == Some(h@),
                Err(e) => legacy_hand(base_path@, hand_path@, *up_image_name, *frame_names, images@) is None
                    && match up_image_name {
                    None => e matches LoadError::InvalidConfig(m) && m@ == "Missing up image for hand"@,
                    Some(n) => e matches LoadError::InvalidConfig(m) && m@ == load_error_text(
                        images@,
                        join_spec(join_spec(base_path@, hand_path@), n@),
                    ),
                },
            },
    {
        let hand_dir = path_join(base_path, hand_path);
        // Load up image
        let up_image = match up_image_name {
            Some(name) => {
                let up_path = path_join(hand_dir.as_str(), name.as_str());
                fetch_image(images, up_path.as_str())?
            },
            None => {
                return Err(LoadError::InvalidConfig("Missing up image for hand".to_owned()));
            },
        };
        // Load frame images
        let mut frame_images: Vec<ImageData> = Vec::new();
        if let Some(names) = frame_names {
            for i in 0..names.len()
                invariant
                    frame_images@.map_values(|d: ImageData| d@) == loaded_frames(
                        hand_dir@,
                        images@,
                        names@.take(i as int),
                    ),
            {
                let ghost before = frame_images@;
                assert(names@.take(i + 1).drop_last() =~= names@.take(i as int));
                if let Some(img) = Self::load_optional_image(hand_dir.as_str(), names[i].as_str(), images) {
                    frame_images.push(img);
                    assert(frame_images@.map_values(|d: ImageData| d@) =~= before.map_values(
                        |d: ImageData| d@,
                    ).push(img@));
                }
            }
            assert(names@.take(names@.len() as int) =~= names@);
        } else {
            assert(frame_images@.map_values(|d: ImageData| d@) =~= seq![]);
        }
        Ok(HandData { up_image, frame_images })
    }

    /// Loads the mode in directory `mode_path` from its configuration and
    /// the images that could be loaded.
    pub fn load(mode_path: &str, mode_name: &str, config: ModeConfig, images: &ImageStore) -> (r: Result<
        Self,
        LoadError,
    >)
        ensures
            r matches Ok(m) && m.loaded_as(mode_path@, mode_name@, config, images@),
    {
        // Load background images
        let background = Self::load_optional_image(mode_path, config.background_image.as_str(), images);
        let cat_background = Self::load_optional_image(
            mode_path,
            config.cat_background_image.as_str(),
            images,
        );
        // Load hands using new direct path format
        let mut left_hand: Option<HandData> = None;
        if let Some(left_up_path) = &config.left_hand_up_image {
            if !left_up_path.as_str().is_empty() {
                if let Some(up_image) = Self::load_optional_image(mode_path, left_up_path.as_str(), images) {
                    left_hand = Some(HandData { up_image, frame_images: Vec::new() });
                }
            }
        }
        let mut right_hand: Option<HandData> = None;
        if let Some(right_up_path) = &config.right_hand_up_image {
            if !right_up_path.as_str().is_empty() {
                if let Some(up_image) = Self::load_optional_image(mode_path, right_up_path.as_str(), images) {
                    right_hand = Some(HandData { up_image, frame_images: Vec::new() });
                }
            }
        }
        proof {
            let emp = Seq::<ImageData>::empty();
            assert(emp.map_values(|d: ImageData| d@) =~= Seq::<ImageModel>::empty());
        }
        assert(hand_option_view(left_hand) == direct_hand(mode_path@, config.left_hand_up_image, images@));
        assert(hand_option_view(right_hand) == direct_hand(mode_path@, config.right_hand_up_image, images@));
        let mut key_images: StrMap<ImageData> = StrMap::new();
        let mut left_hand_key_frames: HashMap<u32, ImageData> = HashMap::new();
        let mut right_hand_key_frames: HashMap<u32, ImageData> = HashMap::new();
        assert(named_image_models(key_images@) =~= Map::empty());
        assert(coded_image_models(left_hand_key_frames@) =~= Map::empty());
        assert(coded_image_models(right_hand_key_frames@) =~= Map::empty());
        if let Some(key_mapping) = &config.key_mapping {
            // Load from KeyMapping: key name -> [key image path, hand image path]
            let key_to_code = Self::get_key_code_mapping();
            for i in 0..key_mapping.len()
                invariant
                    key_to_code@ == key_code_table(),
                    ({
                        let acc = key_mapping_assets(mode_path@, images@, key_mapping@.take(i as int));
                        &&& named_image_models(key_images@) == acc.key_images
                        &&& coded_image_models(left_hand_key_frames@) == acc.left
                        &&& coded_image_models(right_hand_key_frames@) == acc.right
                    }),
            {
                assert(key_mapping@.take(i + 1).drop_last() =~= key_mapping@.take(i as int));
                let key_name = &key_mapping[i].0;
                let paths = &key_mapping[i].1;
                if paths.len() >= 2 {
                    // Load key image
                    if let Some(key_img) = Self::load_optional_image(mode_path, paths[0].as_str(), images) {
                        let ghost before = key_images@;
                        key_images.insert(key_name.clone(), key_img);
                        assert(named_image_models(key_images@) =~= named_image_models(before).insert(
                            key_name@,
                            key_img@,
                        ));
                    }
                    // Load hand frame image and determine which hand
                    if let Some(hand_img) = Self::load_optional_image(mode_path, paths[1].as_str(), images) {
                        if let Some(keycode) = Self::key_code_for(&key_to_code, key_name.as_str()) {
                            // Determine which hand: a path containing "righthand" is the right
                            // hand's, one containing "lefthand" the left hand's; otherwise
                            // arrow keys (103, 108, 105, 106) go right and others left.
                            let is_right_hand = if contains_str(paths[1].as_str(), "righthand") {
                                true
                            } else if contains_str(paths[1].as_str(), "lefthand") {
                                false
                            } else {
                                keycode == 103 || keycode == 108 || keycode == 105 || keycode == 106
                            };
                            if is_right_hand {
                                let ghost before = right_hand_key_frames@;
                                right_hand_key_frames.insert(keycode, hand_img);
                                assert(coded_image_models(right_hand_key_frames@) =~= coded_image_models(
                                    before,
                                ).insert(keycode, hand_img@));
                            } else {
                                let ghost before = left_hand_key_frames@;
                                left_hand_key_frames.insert(keycode, hand_img);
                                assert(coded_image_models(left_hand_key_frames@) =~= coded_image_models(
                                    before,
                                ).insert(keycode, hand_img@));
                            }
                        }
                    }
                }
            }
            assert(key_mapping@.take(key_mapping@.len() as int) =~= key_mapping@);
        } else {
            // Fallback to legacy format for backward compatibility
            Self::load_legacy_keys(
                &mut left_hand,
                &mut right_hand,
                &mut key_images,
                mode_path,
                &config,
                images,
            )?;
        }
        Ok(LoadedMode {
            name: mode_name.to_owned(),
            config,
            base_path: mode_path.to_owned(),
            background,
            cat_background,
            left_hand,
            right_hand,
            key_images,
            left_hand_key_frames,
            right_hand_key_frames,
            face_images: Vec::new(),
        })
    }

    /// Appends the texts of `other` to `v`.
    fn append_paths(v: &mut Vec<String>, other: Vec<String>)
        ensures
            texts(final(v)@) == texts(old(v)@) + texts(other@),
    {
        let ghost added = other@;
        let mut other = other;
        v.append(&mut other);
        assert(texts(v@) =~= texts(old(v)@) + texts(added));
    }

    fn push_path(v: &mut Vec<String>, p: String)
        ensures
            texts(final(v)@) == texts(old(v)@).push(p@),
    {
        v.push(p);
        assert(texts(final(v)@) =~= texts(old(v)@).push(p@));
    }

    fn direct_hand_image_paths(mode_path: &str, up: &Option<String>) -> (r: Vec<String>)
        ensures
            texts(r@) == direct_hand_paths(mode_path@, *up),
    {
        let mut r: Vec<String> = Vec::new();
        if let Some(p) = up {
            if !p.as_str().is_empty() {
                Self::push_path(&mut r, path_join(mode_path, p.as_str()));
            }
        }
        assert(texts(r@) =~= direct_hand_paths(mode_path@, *up));
        r
    }

    fn legacy_hand_image_paths(
        mode_path: &str,
        legacy_path: &Option<String>,
        up: &Option<String>,
        frame_names: &Option<Vec<String>>,
    ) -> (r: Vec<String>)
        ensures
            texts(r@) == legacy_hand_paths(mode_path@, *legacy_path, *up, *frame_names),
    {
        let mut r: Vec<String> = Vec::new();
        assert(texts(r@) =~= seq![]);
        if let Some(d) = legacy_path {
            if !d.as_str().is_empty() {
                let dir = path_join(mode_path, d.as_str());
                if let Some(n) = up {
                    Self::push_path(&mut r, path_join(dir.as_str(), n.as_str()));
                }
                let ghost ups = texts(r@);
                if let Some(names) = frame_names {
                    for i in 0..names.len()
                        invariant
                            texts(r@) == ups + frame_paths(dir@, names@.take(i as int)),
                    {
                        assert(names@.take(i + 1).drop_last() =~= names@.take(i as int));
                        Self::push_path(&mut r, path_join(dir.as_str(), names[i].as_str()));
                        assert(ups + frame_paths(dir@, names@.take(i + 1)) =~= (ups + frame_paths(
                            dir@,
                            names@.take(i as int),
                        )).push(join_spec(dir@, names@[i as int]@)));
                    }
                    assert(names@.take(names@.len() as int) =~= names@);
                } else {
                    assert(ups + seq![] =~= ups);
                }
                assert(ups =~= match up {
                    Some(n) => seq![join_spec(dir@, n@)],
                    None => Seq::<Seq<char>>::empty(),
                });
            }
        }
        r
    }

    /// Every image path that loading the mode in `mode_path` with `config`
    /// looks up: loading exactly these into the store is enough (see
    /// `lemma_load_reads_only_mode_image_paths`).
    pub fn image_paths(mode_path: &str, config: &ModeConfig) -> (r: Vec<String>)
        ensures
            texts(r@) == mode_image_paths(mode_path@, *config),
    {
        let mut r: Vec<String> = Vec::new();
        assert(texts(r@) =~= seq![]);
        Self::push_path(&mut r, path_join(mode_path, config.background_image.as_str()));
        Self::push_path(&mut r, path_join(mode_path, config.cat_background_image.as_str()));
        Self::append_paths(&mut r, Self::direct_hand_image_paths(mode_path, &config.left_hand_up_image));
        Self::append_paths(&mut r, Self::direct_hand_image_paths(mode_path, &config.right_hand_up_image));
        let ghost head = texts(r@);
        if let Some(key_mapping) = &config.key_mapping {
            for i in 0..key_mapping.len()
                invariant
                    texts(r@) == head + key_mapping_paths(mode_path@, key_mapping@.take(i as int)),
            {
                assert(key_mapping@.take(i + 1).drop_last() =~= key_mapping@.take(i as int));
                let paths = &key_mapping[i].1;
                if paths.len() >= 2 {
                    let ghost before = texts(r@);
                    Self::push_path(&mut r, path_join(mode_path, paths[0].as_str()));
                    Self::push_path(&mut r, path_join(mode_path, paths[1].as_str()));
                    assert(head + key_mapping_paths(mode_path@, key_mapping@.take(i + 1)) =~= before.push(
                        join_spec(mode_path@, paths@[0]@),
                    ).push(join_spec(mode_path@, paths@[1]@)));
                } else {
                    assert(key_mapping_paths(mode_path@, key_mapping@.take(i + 1)) == key_mapping_paths(
                        mode_path@,
                        key_mapping@.take(i as int),
                    ));
                }
            }
            assert(key_mapping@.take(key_mapping@.len() as int) =~= key_mapping@);
        } else {
            Self::append_paths(
                &mut r,
                Self::legacy_hand_image_paths(
                    mode_path,
                    &config.left_hand_image_path,
                    &config.left_hand_up_image,
                    &config.left_hand_images,
                ),
            );
            Self::append_paths(
                &mut r,
                Self::legacy_hand_image_paths(
                    mode_path,
                    &config.right_hand_image_path,
                    &config.right_hand_up_image,
                    &config.right_hand_images,
                ),
            );
            let ghost hands = texts(r@);
            if let (Some(key_path), Some(key_names), Some(key_bindings)) = (
                &config.keys_image_path,
                &config.keys_images,
                &config.key_bindings,
            ) {
                if !key_path.as_str().is_empty() {
                    let keys_dir = path_join(mode_path, key_path.as_str());
                    for i in 0..key_bindings.len()
                        invariant
                            texts(r@) == hands + legacy_key_paths(keys_dir@, key_names@, key_bindings@.take(i as int)),
                    {
                        assert(key_bindings@.take(i + 1).drop_last() =~= key_bindings@.take(i as int));
                        if i < key_names.len() && !key_names[i].as_str().is_empty() {
                            let ghost before = texts(r@);
                            Self::push_path(&mut r, path_join(keys_dir.as_str(), key_names[i].as_str()));
                            assert(hands + legacy_key_paths(keys_dir@, key_names@, key_bindings@.take(i + 1))
                                =~= before.push(join_spec(keys_dir@, key_names@[i as int]@)));
                        }
                    }
                    assert(key_bindings@.take(key_bindings@.len() as int) =~= key_bindings@);
                } else {
                    assert(hands + seq![] =~= hands);
                }
            } else {
                assert(hands + seq![] =~= hands);
            }
        }
        r
    }

    /// Legacy key loading for backward compatibility: legacy hand
    /// directories replace the hands, legacy key images are added.
    fn load_legacy_keys(
        left_hand: &mut Option<HandData>,
        right_hand: &mut Option<HandData>,
        key_images: &mut StrMap<ImageData>,
        mode_path: &str,
        config: &ModeConfig,
        images: &ImageStore,
    ) -> (r: Result<(), LoadError>)
        ensures
            r is Ok,
            hand_option_view(*final(left_hand)) == match legacy_hand_dir(config.left_hand_image_path) {
                Some(dir) => legacy_hand(
                    mode_path@,
                    dir,
                    config.left_hand_up_image,
                    config.left_hand_images,
                    images@,
                ),
                None => hand_option_view(*old(left_hand)),
            },
            hand_option_view(*final(right_hand)) == match legacy_hand_dir(config.right_hand_image_path) {
                Some(dir) => legacy_hand(
                    mode_path@,
                    dir,
                    config.right_hand_up_image,
                    config.right_hand_images,
                    images@,
                ),
                None => hand_option_view(*old(right_hand)),
            },
            named_image_models(final(key_images)@) == legacy_keys_spec(
                mode_path@,
                *config,
                images@,
                named_image_models(old(key_images)@),
            ),
    {
        // Load left hand (legacy)
        if let Some(path) = &config.left_hand_image_path {
            if !path.as_str().is_empty() {
                *left_hand = Self::load_hand_data(
                    mode_path,
                    path.as_str(),
                    &config.left_hand_up_image,
                    &config.left_hand_images,
                    images,
                ).ok();
            }
        }
        // Load right hand (legacy)
        if let Some(path) = &config.right_hand_image_path {
            if !path.as_str().is_empty() {
                *right_hand = Self::load_hand_data(
                    mode_path,
                    path.as_str(),
                    &config.right_hand_up_image,
                    &config.right_hand_images,
                    images,
                ).ok();
            }
        }
        // Load key images (legacy)
        if let (Some(key_path), Some(key_names), Some(key_bindings)) = (
            &config.keys_image_path,
            &config.keys_images,
            &config.key_bindings,
        ) {
            if !key_path.as_str().is_empty() {
                let keys_dir = path_join(mode_path, key_path.as_str());
                let ghost start = named_image_models(key_images@);
                for i in 0..key_bindings.len()
                    invariant
                        named_image_models(key_images@) == legacy_key_images(
                            keys_dir@,
                            images@,
                            key_names@,
                            key_bindings@.take(i as int),
                            start,
                        ),
                {
                    assert(key_bindings@.take(i + 1).drop_last() =~= key_bindings@.take(i as int));
                    if i < key_names.len() && !key_names[i].as_str().is_empty() {
                        if let Some(img) = Self::load_optional_image(
                            keys_dir.as_str(),
                            key_names[i].as_str(),
                            images,
                        ) {
                            let ghost before = key_images@;
                            key_images.insert(key_bindings[i].clone(), img);
                            assert(named_image_models(key_images@) =~= named_image_models(before).insert(
                                key_bindings@[i as int]@,
                                img@,
                            ));
                        }
                    }
                }
                assert(key_bindings@.take(key_bindings@.len() as int) =~= key_bindings@);
            }
        }
        Ok(())
    }

    /// The evdev keycodes of the key names a key mapping may use.
    fn get_key_code_mapping() -> (map: StrMap<u32>)
        ensures
            map@ == key_code_table(),
    {
        let mut map = StrMap::new();
        // Control keys
        map.insert("lctrl".to_owned(), 29);
        map.insert("rctrl".to_owned(), 97);
        map.insert("lshift".to_owned(), 42);
        map.insert("rshift".to_owned(), 54);
        map.insert("lalt".to_owned(), 56);
        map.insert("ralt".to_owned(), 100);
        map.insert("space".to_owned(), 57);
        map.insert("enter".to_owned(), 28);
        map.insert("tab".to_owned(), 15);
        map.insert("backspace".to_owned(), 14);
        map.insert("escape".to_owned(), 1);

        // Arrow keys
        map.insert("up".to_owned(), 103);
        map.insert("down".to_owned(), 108);
        map.insert("left".to_owned(), 105);
        map.insert("right".to_owned(), 106);

        // Letters
        map.insert("a".to_owned(), 30);
        map.insert("b".to_owned(), 48);
        map.insert("c".to_owned(), 46);
        map.insert("d".to_owned(), 32);
        map.insert("e".to_owned(), 18);
        map.insert("f".to_owned(), 33);
        map.insert("g".to_owned(), 34);
        map.insert("h".to_owned(), 35);
        map.insert("i".to_owned(), 23);
        map.insert("j".to_owned(), 36);
        map.insert("k".to_owned(), 37);
        map.insert("l".to_owned(), 38);
        map.insert("m".to_owned(), 50);
        map.insert("n".to_owned(), 49);
        map.insert("o".to_owned(), 24);
        map.insert("p".to_owned(), 25);
        map.insert("q".to_owned(), 16);
        map.insert("r".to_owned(), 19);
        map.insert("s".to_owned(), 31);
        map.insert("t".to_owned(), 20);
        map.insert("u".to_owned(), 22);
        map.insert("v".to_owned(), 47);
        map.insert("w".to_owned(), 17);
        map.insert("x".to_owned(), 45);
        map.insert("y".to_owned(), 21);
        map.insert("z".to_owned(), 44);

        // Numbers
        map.insert("0".to_owned(), 11);
        map.insert("1".to_owned(), 2);
        map.insert("2".to_owned(), 3);
        map.insert("3".to_owned(), 4);
        map.insert("4".to_owned(), 5);
        map.insert("5".to_owned(), 6);
        map.insert("6".to_owned(), 7);
        map.insert("7".to_owned(), 8);
        map.insert("8".to_owned(), 9);
        map.insert("9".to_owned(), 10);
        map
    }

    /// What a mode loaded from directory `mode_path` with `config` holds,
    /// given the images that could be loaded.
    pub open spec fn loaded_as(
        self,
        mode_path: Seq<char>,
        mode_name: Seq<char>,
        config: ModeConfig,
        store: Map<Seq<char>, Result<ImageData, String>>,
    ) -> bool {
        let keys = key_assets_spec(mode_path, config, store);
        &&& self.name@ == mode_name
        &&& self.config == config
        &&& self.base_path@ == mode_path
        &&& image_option_view(self.background) == stored_image(store, join_spec(mode_path, config.background_image@))
        &&& image_option_view(self.cat_background) == stored_image(
            store,
            join_spec(mode_path, config.cat_background_image@),
        )
        &&& hand_option_view(self.left_hand) == left_hand_spec(mode_path, config, store)
        &&& hand_option_view(self.right_hand) == right_hand_spec(mode_path, config, store)
        &&& named_image_models(self.key_images@) == keys.key_images
        &&& coded_image_models(self.left_hand_key_frames@) == keys.left
        &&& coded_image_models(self.right_hand_key_frames@) == keys.right
        &&& self.face_images@.len() == 0
    }
}

} // verus!
