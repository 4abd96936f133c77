use vstd::prelude::*;
use vstd::utf8::{valid_utf8, decode_utf8};
use crate::json::{Json, JsonV, opt_view};
use crate::codec::{json_doc, b64_json_doc, json_shaped, looks_like_json, utf8_text, decode_json,
    decode_base64_json, encode_json, text_of_json};
use crate::normalizer::{normalize, text_of_arg, extract_layout_from_value};
use crate::projector::{project, style_to_layout};

verus! {

/// Longest preview, in characters, of a frame that gave no layout.
pub const PREVIEW_CHARS: usize = 240;

/// Why a message gave no layout.
pub enum Diagnosis {
    /// No frame opens an object or an array.
    NoJsonFrame,
    /// The last JSON-shaped frame is not UTF-8.
    NotUtf8,
    /// The start of the last JSON-shaped frame.
    Preview(String),
}

pub open spec fn frame_text(b: Seq<u8>) -> Option<Seq<char>> {
    if json_shaped(b) && valid_utf8(b) {
        Some(decode_utf8(b))
    } else {
        None
    }
}

pub open spec fn layout_text(l: Option<JsonV>) -> Option<Seq<char>> {
    match l {
        Some(x) => text_of_json(x),
        None => None,
    }
}

/// The layout text one frame gives on its own.
pub open spec fn frame_layout(b: Seq<u8>) -> Option<Seq<char>> {
    match frame_text(b) {
        Some(t) => match json_doc(t) {
            Some(v) => layout_text(normalize(v)),
            None => None,
        },
        None => None,
    }
}

/// The first layout given by a frame at or after `i`.
pub open spec fn first_layout(fs: Seq<Seq<u8>>, i: int) -> Option<Seq<char>>
    decreases fs.len() - i,
{
    if i < 0 || i >= fs.len() {
        None
    } else if frame_layout(fs[i]) is Some {
        frame_layout(fs[i])
    } else {
        first_layout(fs, i + 1)
    }
}

/// Index of the last JSON-shaped frame before `n`.
pub open spec fn last_shaped(fs: Seq<Seq<u8>>, n: int) -> Option<int>
    decreases n,
{
    if n <= 0 || n > fs.len() {
        None
    } else if json_shaped(fs[n - 1]) {
        Some(n - 1)
    } else {
        last_shaped(fs, n - 1)
    }
}

/// The style a frame carries as base64 in its command arguments, as a layout.
pub open spec fn fallback_layout(b: Seq<u8>) -> Option<Seq<char>> {
    match frame_text(b) {
        Some(t) => match json_doc(t) {
            Some(v) => match text_of_arg(v, "data_base64"@) {
                Some(e) => match b64_json_doc(e) {
                    Some(st) => layout_text(project(st, None)),
                    None => None,
                },
                None => None,
            },
            None => None,
        },
        None => None,
    }
}

/// The layout text a multi-part message gives: the first frame that gives one,
/// else the base64 style of the last JSON-shaped frame.
pub open spec fn scan(fs: Seq<Seq<u8>>) -> Option<Seq<char>> {
    if first_layout(fs, 0) is Some {
        first_layout(fs, 0)
    } else {
        match last_shaped(fs, fs.len() as int) {
            Some(k) => fallback_layout(fs[k]),
            None => None,
        }
    }
}

pub open spec fn frames_view(frames: Seq<Vec<u8>>) -> Seq<Seq<u8>> {
    frames.map_values(|f: Vec<u8>| f@)
}

pub open spec fn diagnosis(fs: Seq<Seq<u8>>) -> Option<Seq<char>> {
    match last_shaped(fs, fs.len() as int) {
        Some(k) => if valid_utf8(fs[k]) {
            let t = decode_utf8(fs[k]);
            Some(if t.len() > PREVIEW_CHARS { t.subrange(0, PREVIEW_CHARS as int) } else { t })
        } else {
            None
        },
        None => None,
    }
}

fn frame_layout_exec(b: &[u8]) -> (r: Option<String>)
    ensures
        opt_text(r) == frame_layout(b@),
{
    if !looks_like_json(b) {
        return None;
    }
    let t = match utf8_text(b) {
        Some(t) => t,
        None => return None,
    };
    let v = match decode_json(t.as_str()) {
        Some(v) => v,
        None => return None,
    };
    match extract_layout_from_value(v) {
        Some(l) => encode_json(&l),
        None => None,
    }
}

pub open spec fn opt_text(o: Option<String>) -> Option<Seq<char>> {
    match o {
        Some(s) => Some(s@),
        None => None,
    }
}

fn take_data_base64(v: &Json) -> (r: Option<&String>)
    ensures
        match r {
            Some(s) => text_of_arg(v@, "data_base64"@) == Some(s@),
            None => text_of_arg(v@, "data_base64"@) is None,
        },
{
    match v.get("cmd") {
        Some(c) => match c.get("args") {
            Some(a) => a.get_str("data_base64"),
            None => None,
        },
        None => None,
    }
}

fn fallback_layout_exec(b: &[u8]) -> (r: Option<String>)
    ensures
        opt_text(r) == fallback_layout(b@),
{
    if !looks_like_json(b) {
        return None;
    }
    let t = match utf8_text(b) {
        Some(t) => t,
        None => return None,
    };
    let v = match decode_json(t.as_str()) {
        Some(v) => v,
        None => return None,
    };
    let e = match take_data_base64(&v) {
        Some(e) => e,
        None => return None,
    };
    let st = match decode_base64_json(e.as_str()) {
        Some(st) => st,
        None => return None,
    };
    match style_to_layout(st, None) {
        Some(l) => encode_json(&l),
        None => None,
    }
}

fn last_json_frame(frames: &Vec<Vec<u8>>) -> (r: Option<usize>)
    ensures
        r is Some ==> r->0 < frames@.len(),
        match r {
            Some(k) => last_shaped(frames_view(frames@), frames@.len() as int) == Some(k as int),
            None => last_shaped(frames_view(frames@), frames@.len() as int) is None,
        },
{
    let ghost fv = frames_view(frames@);
    let mut n: usize = frames.len();
    while n > 0
        invariant
            fv == frames_view(frames@),
            n <= frames@.len(),
            last_shaped(fv, frames@.len() as int) == last_shaped(fv, n as int),
        decreases n,
    {
        assert(fv[n - 1] == frames@[n - 1]@);
        if looks_like_json(frames[n - 1].as_slice()) {
            return Some(n - 1);
        }
        n = n - 1;
    }
    None
}

/// The layout text a multi-part message gives: frames are tried in order and
/// the first that yields a layout wins; failing that, the last JSON-shaped
/// frame is searched for a base64 style in its command arguments.
pub fn scan_frames(frames: &Vec<Vec<u8>>) -> (r: Option<String>)
    ensures
        opt_text(r) == scan(frames_view(frames@)),
{
    let ghost fv = frames_view(frames@);
    let mut i: usize = 0;
    while i < frames.len()
        invariant
            fv == frames_view(frames@),
            i <= frames@.len(),
            first_layout(fv, 0) == first_layout(fv, i as int),
        decreases frames@.len() - i,
    {
        assert(fv[i as int] == frames@[i as int]@);
        let l = frame_layout_exec(frames[i].as_slice());
        if l.is_some() {
            return l;
        }
        i = i + 1;
    }
    match last_json_frame(frames) {
        Some(k) => {
            assert(fv[k as int] == frames@[k as int]@);
            fallback_layout_exec(frames[k].as_slice())
        },
        None => None,
    }
}

/// Why a message gave no layout: a preview of at most `PREVIEW_CHARS`
/// characters of its last JSON-shaped frame, or the reason there is none.
pub fn diagnose(frames: &Vec<Vec<u8>>) -> (r: Diagnosis)
    ensures
        match r {
            Diagnosis::Preview(p) => diagnosis(frames_view(frames@)) == Some(p@),
            Diagnosis::NotUtf8 => diagnosis(frames_view(frames@)) is None
                && last_shaped(frames_view(frames@), frames@.len() as int) is Some,
            Diagnosis::NoJsonFrame => last_shaped(frames_view(frames@), frames@.len() as int) is None,
        },
{
    let ghost fv = frames_view(frames@);
    match last_json_frame(frames) {
        Some(k) => {
            assert(fv[k as int] == frames@[k as int]@);
            match utf8_text(frames[k].as_slice()) {
                Some(t) => {
                    let n = t.unicode_len();
                    if n > PREVIEW_CHARS {
                        Diagnosis::Preview(t.substring_char(0, PREVIEW_CHARS).to_owned())
                    } else {
                        Diagnosis::Preview(t)
                    }
                },
                None => Diagnosis::NotUtf8,
            }
        },
        None => Diagnosis::NoJsonFrame,
    }
}

/// When the first frame gives a layout, the message gives that layout,
/// whatever the later frames hold.
pub proof fn lemma_first_frame_wins(fs: Seq<Seq<u8>>)
    requires
        fs.len() >= 1,
        frame_layout(fs[0]) is Some,
    ensures
        scan(fs) == frame_layout(fs[0]),
{
}

} // verus!
