//! Display rotation: reading it from the inspector's stream listing, and the
//! filter that corrects it.
use vstd::prelude::*;
use crate::json::{
    array_member, array_member_of, integer, integer_of, json_document, json_member, json_text,
    member, member_of, parse_json, text,
};
use crate::text::{chars_of, i32_of, parse_i32};

verus! {

/// A rotation in degrees as one of 0, 90, 180 and 270; any other angle
/// counts as no rotation.
pub open spec fn normalized_rotation(deg: int) -> i32 {
    let d = deg % 360;
    if d == 0 || d == 90 || d == 180 || d == 270 {
        d as i32
    } else {
        0
    }
}

/// Normalizes a rotation to one of 0, 90, 180 and 270 degrees.
pub fn normalize_rotation_degrees(deg: i32) -> (r: i32)
    ensures
        r == normalized_rotation(deg as int),
{
    let d: i64 = if deg >= 0 {
        (deg as i64) % 360
    } else {
        let m = (-(deg as i64)) % 360;
        proof {
            let x = deg as int;
            assert(x % 360 == (if m == 0 { 0 } else { 360 - m })) by (nonlinear_arith)
                requires
                    x < 0,
                    m == (-x) % 360,
            ;
        }
        if m == 0 {
            0
        } else {
            360 - m
        }
    };
    if d == 0 || d == 90 || d == 180 || d == 270 {
        d as i32
    } else {
        0
    }
}

/// The filter that corrects a rotation: 90 degrees turn back by a
/// counter-clockwise transpose, 180 by both flips, 270 by a clockwise
/// transpose; no rotation needs none.
pub open spec fn rotation_filter(deg: int) -> Option<Seq<char>> {
    let d = normalized_rotation(deg);
    if d == 90 {
        Some("transpose=2"@)
    } else if d == 180 {
        Some("hflip,vflip"@)
    } else if d == 270 {
        Some("transpose=1"@)
    } else {
        None
    }
}

/// The filter that corrects a rotation, if it needs one.
pub fn rotation_filter_for_degrees(deg: i32) -> (r: Option<&'static str>)
    ensures
        match r {
            Some(f) => rotation_filter(deg as int) == Some(f@),
            None => rotation_filter(deg as int) is None,
        },
{
    let d = normalize_rotation_degrees(deg);
    if d == 90 {
        Some("transpose=2")
    } else if d == 180 {
        Some("hflip,vflip")
    } else if d == 270 {
        Some("transpose=1")
    } else {
        None
    }
}

/// An integer cut to the range of `i32`.
pub open spec fn saturated_i32(v: i64) -> i32 {
    if v > i32::MAX {
        i32::MAX
    } else if v < i32::MIN {
        i32::MIN
    } else {
        v as i32
    }
}

/// The rotation tag of a video stream entry, `rotate` or else `Rotate`, where
/// it is text holding an `i32`.
pub open spec fn tag_rotation(video: serde_json::Value) -> Option<i32> {
    let tags = json_member(video, "tags"@);
    let entry = match member_of(tags, "rotate"@) {
        Some(v) => Some(v),
        None => member_of(tags, "Rotate"@),
    };
    match entry {
        Some(v) => match json_text(v) {
            Some(t) => i32_of(t),
            None => None,
        },
        None => None,
    }
}

/// The rotation of one side-data entry: its `rotation` as an integer, or else
/// as text holding an `i32`, normalized; 0 where neither gives a rotation.
pub open spec fn item_rotation(item: serde_json::Value) -> i32 {
    let r = json_member(item, "rotation"@);
    let numeric = match integer_of(r) {
        Some(i) => normalized_rotation(saturated_i32(i) as int),
        None => 0,
    };
    if numeric != 0 {
        numeric
    } else {
        match r {
            Some(v) => match json_text(v) {
                Some(t) => match i32_of(t) {
                    Some(d) => normalized_rotation(d as int),
                    None => 0,
                },
                None => 0,
            },
            None => 0,
        }
    }
}

/// The first nonzero rotation among side-data entries, or 0.
pub open spec fn first_side_rotation(items: Seq<serde_json::Value>) -> i32
    decreases items.len(),
{
    if items.len() == 0 {
        0
    } else if item_rotation(items[0]) != 0 {
        item_rotation(items[0])
    } else {
        first_side_rotation(items.drop_first())
    }
}

/// The rotation that the inspector's listing of the first video stream
/// gives: its rotation tag where it has a readable one, else the first
/// nonzero rotation in its side data; 0 where the listing is no JSON or
/// names no stream.
pub open spec fn detected_rotation(b: Seq<u8>) -> i32 {
    match json_document(b) {
        None => 0,
        Some(doc) => {
            let streams = array_member(doc, "streams"@);
            if streams.len() == 0 {
                0
            } else {
                match tag_rotation(streams[0]) {
                    Some(d) => normalized_rotation(d as int),
                    None => first_side_rotation(array_member(streams[0], "side_data_list"@)),
                }
            }
        },
    }
}

fn saturate_i32(v: i64) -> (r: i32)
    ensures
        r == saturated_i32(v),
{
    if v > i32::MAX as i64 {
        i32::MAX
    } else if v < i32::MIN as i64 {
        i32::MIN
    } else {
        v as i32
    }
}

fn text_i32(v: Option<&serde_json::Value>) -> (r: Option<i32>)
    ensures
        r == match v {
            Some(x) => match json_text(*x) {
                Some(t) => i32_of(t),
                None => None,
            },
            None => None,
        },
{
    match v {
        Some(x) => match text(x) {
            Some(t) => parse_i32(&chars_of(t)),
            None => None,
        },
        None => None,
    }
}

fn side_item_rotation(item: &serde_json::Value) -> (r: i32)
    ensures
        r == item_rotation(*item),
{
    let r = member(item, "rotation");
    let numeric = match r {
        Some(v) => match integer(v) {
            Some(i) => normalize_rotation_degrees(saturate_i32(i)),
            None => 0,
        },
        None => 0,
    };
    if numeric != 0 {
        return numeric;
    }
    match text_i32(r) {
        Some(d) => normalize_rotation_degrees(d),
        None => 0,
    }
}

/// Reads the display rotation of the first video stream from the
/// inspector's JSON listing; best effort, 0 where nothing can be read.
pub fn rotation_from_probe_json(stdout: &[u8]) -> (r: i32)
    ensures
        r == detected_rotation(stdout@),
{
    let doc = match parse_json(stdout) {
        Ok(d) => d,
        Err(_) => {
            return 0;
        },
    };
    let streams = match array_member_of(&doc, "streams") {
        Some(s) => s,
        None => {
            return 0;
        },
    };
    if streams.len() == 0 {
        return 0;
    }
    let video = &streams[0];
    let tags = member(video, "tags");
    let entry = match tags {
        Some(t) => match member(t, "rotate") {
            Some(v) => Some(v),
            None => member(t, "Rotate"),
        },
        None => None,
    };
    match text_i32(entry) {
        Some(d) => {
            return normalize_rotation_degrees(d);
        },
        None => {},
    }
    let items = match array_member_of(video, "side_data_list") {
        Some(s) => s,
        None => {
            return 0;
        },
    };
    first_nonzero_rotation(items)
}

fn first_nonzero_rotation(items: &Vec<serde_json::Value>) -> (r: i32)
    ensures
        r == first_side_rotation(items@),
{
    let ghost all = items@;
    assert(all.skip(0) =~= all);
    let mut i: usize = 0;
    while i < items.len()
        invariant
            all == items@,
            i <= all.len(),
            first_side_rotation(all) == first_side_rotation(all.skip(i as int)),
        decreases all.len() - i,
    {
        let d = side_item_rotation(&items[i]);
        assert(all.skip(i as int)[0] == all[i as int]);
        if d != 0 {
            return d;
        }
        assert(all.skip(i as int).drop_first() =~= all.skip(i + 1));
        i = i + 1;
    }
    assert(all.skip(i as int).len() == 0);
    0
}

} // verus!
