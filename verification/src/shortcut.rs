//! Tiles: shortcuts that carry the shared id of a group, so that the taskbar puts
//! them into one button with the windows of the group.

use vstd::prelude::*;

use crate::num;
use crate::text;
use crate::winutil;

verus! {

/// The name of the directory below the data directory that holds tiles.
pub const PIN_DIR_NAME: &'static str = "pin";

/// The directory of pinned tiles, below the application data of the user.
pub const TASKBAR_DIR: &'static str =
    "Microsoft\\Internet Explorer\\Quick Launch\\User Pinned\\TaskBar";

/// What is to become of a tile that is to be removed.
pub enum Unpin {
    /// There is none.
    NotPinned,
    /// It is the tile of the group and is deleted.
    Delete,
    /// It is left alone, and why.
    Refused(String),
}

// ---------------------------------------------------------------------------
// Models
// ---------------------------------------------------------------------------

/// A path and an index behind the last comma; where what stands there is no
/// index, all of it is the path, and the index is zero.
pub open spec fn icon_parts(spec: Seq<char>) -> (Seq<char>, int) {
    match text::last_occurrence(spec, ","@) {
        Some(p) => match num::signed(spec.skip(p + 1), 10, i32::MAX as nat) {
            Some(i) => (spec.take(p), i),
            None => (spec, 0),
        },
        None => (spec, 0),
    }
}

/// A number with its sign, in decimal digits.
pub open spec fn signed_decimal(i: int) -> Seq<char> {
    if i < 0 {
        seq!['-'] + num::decimal((-i) as nat)
    } else {
        num::decimal(i as nat)
    }
}

// ---------------------------------------------------------------------------
// Laws
// ---------------------------------------------------------------------------

/// A path and an index with a comma between them are taken apart again, whatever
/// the path holds.
pub proof fn law_icon_round_trip(path: Seq<char>, index: i32)
    ensures
        icon_parts(path + ","@ + signed_decimal(index as int)) == (path, index as int),
{
    reveal_strlit(",");
    let t = signed_decimal(index as int);
    let s = path + ","@ + t;
    let p = path.len() as int;
    let n = if index < 0 {
        (-(index as int)) as nat
    } else {
        index as nat
    };
    num::lemma_numeral(n, 10);
    assert forall|j: int| p < j <= s.len() implies !text::occurs_at(s, ","@, j) by {
        if text::occurs_at(s, ","@, j) {
            assert(s.subrange(j, j + 1)[0] == s[j]);
            assert(s[j] == t[j - p - 1]);
            let d = num::decimal(n);
            if index < 0 {
                if j > p + 1 {
                    assert(num::upper_hex_digit(d[j - p - 2]));
                }
            } else {
                assert(num::upper_hex_digit(d[j - p - 1]));
            }
        }
    }
    assert(s.subrange(p, p + 1) =~= ","@);
    text::lemma_last_occurrence_is(s, ","@, p);
    assert(s.skip(p + 1) =~= t);
    assert(s.take(p) =~= path);
    if index < 0 {
        assert(t.skip(1) =~= num::decimal(n));
    } else {
        num::lemma_numeral_round_trip(n, 10, i32::MAX as nat);
        assert(num::upper_hex_digit(t[0]));
    }
}

/// What stands behind the last comma is the index where it is a number; else there is no
/// index, and all of it is the path.
pub proof fn law_icon_index(path: Seq<char>, tail: Seq<char>, index: int)
    requires
        !tail.contains(','),
    ensures
        icon_parts(tail) == (tail, 0int),
        num::signed(tail, 10, i32::MAX as nat) == Some(index) ==> icon_parts(path + ","@ + tail)
            == (path, index),
        num::signed(tail, 10, i32::MAX as nat) is None ==> icon_parts(path + ","@ + tail) == (
            path + ","@ + tail,
            0int,
        ),
{
    reveal_strlit(",");
    assert forall|j: int| !text::occurs_at(tail, ","@, j) by {
        if text::occurs_at(tail, ","@, j) {
            assert(tail.subrange(j, j + 1)[0] == tail[j]);
        }
    }
    text::lemma_last_occurrence(tail, ","@, tail.len() as int);
    let s = path + ","@ + tail;
    let p = path.len() as int;
    assert forall|j: int| p < j <= s.len() implies !text::occurs_at(s, ","@, j) by {
        if text::occurs_at(s, ","@, j) {
            assert(s.subrange(j, j + 1)[0] == s[j]);
            assert(s[j] == tail[j - p - 1]);
        }
    }
    assert(s.subrange(p, p + 1) =~= ","@);
    text::lemma_last_occurrence_is(s, ","@, p);
    assert(s.skip(p + 1) =~= tail);
    assert(s.take(p) =~= path);
}

/// A number is written with a minus sign where it is negative.
pub proof fn law_signed_numbers(n: nat)
    ensures
        signed_decimal(n as int) == num::decimal(n),
        n > 0 ==> signed_decimal(-(n as int)) == seq!['-'] + num::decimal(n),
{
}

/// Where tiles are.
pub proof fn law_tile_places()
    ensures
        PIN_DIR_NAME@ == "pin"@,
        TASKBAR_DIR@ == "Microsoft\\Internet Explorer\\Quick Launch\\User Pinned\\TaskBar"@,
{
}

// ---------------------------------------------------------------------------
// Functions
// ---------------------------------------------------------------------------

/// Takes an icon apart: its path and its index. The path must not be empty.
pub fn parse_icon_spec(spec: &str) -> (r: Result<(String, i32), String>)
    ensures
        match r {
            Ok((path, index)) => path@.len() > 0 && icon_parts(spec@) == (path@, index as int),
            Err(e) => icon_parts(spec@).0.len() == 0 && e@ == "icon path must not be empty"@,
        },
{
    let s: Vec<char> = text::chars_of(spec);
    let n: usize = s.len();
    let comma: Vec<char> = text::chars_of(",");
    proof {
        reveal_strlit(",");
        text::lemma_last_occurrence(s@, ","@, s@.len() as int);
    }
    let mut end: usize = n;
    let mut index: i32 = 0;
    if let Some(p) = text::find_last(s.as_slice(), comma.as_slice()) {
        let tail: Vec<char> = text::copy_range(s.as_slice(), p + 1, n);
        assert(tail@ =~= spec@.skip(p + 1));
        if let Some(i) = num::read_i32(tail.as_slice()) {
            end = p;
            index = i;
        }
    }
    assert(spec@.take(n as int) =~= spec@);
    let path: Vec<char> = text::copy_range(s.as_slice(), 0, end);
    assert(path@ =~= spec@.take(end as int));
    if path.len() == 0 {
        return Err("icon path must not be empty".to_owned());
    }
    Ok((text::text_of(path.as_slice()), index))
}

/// The file name of the tile of a group.
pub fn lnk_file_name(group_name: &str) -> (r: String)
    ensures
        r@ == group_name@ + ".lnk"@,
{
    let mut r: String = group_name.to_owned();
    r.push_str(".lnk");
    r
}

/// The directory of tiles below a data directory.
pub fn pin_dir(base: &str) -> (r: String)
    ensures
        r@ == winutil::joined_path(base@, PIN_DIR_NAME@),
{
    winutil::join_path(base, PIN_DIR_NAME)
}

/// The directory of pinned tiles below the application data of the user.
pub fn taskbar_dir(app_data: &str) -> (r: String)
    ensures
        r@ == winutil::joined_path(app_data@, TASKBAR_DIR@),
{
    winutil::join_path(app_data, TASKBAR_DIR)
}

/// The description of a tile.
pub fn tile_description(aumid: &str) -> (r: String)
    ensures
        r@ == "tbg-lite group tile ("@ + aumid@ + ")"@,
{
    let mut r: String = "tbg-lite group tile (".to_owned();
    r.push_str(aumid);
    r.push_str(")");
    r
}

/// Whether a tile that was just written holds the id that it should: `readback` is
/// what its file says.
pub fn verify_tile(aumid: &str, readback: &str, path: &str) -> (r: Result<(), String>)
    ensures
        aumid@ == readback@ ==> r is Ok,
        aumid@ != readback@ ==> (r matches Err(e) && e@
            == "pin: AUMID verification failed: expected '"@ + aumid@ + "', file says '"@
            + readback@ + "' ("@ + path@ + ")"@),
{
    if text::same_text(readback, aumid) {
        Ok(())
    } else {
        let mut e: String = "pin: AUMID verification failed: expected '".to_owned();
        e.push_str(aumid);
        e.push_str("', file says '");
        e.push_str(readback);
        e.push_str("' (");
        e.push_str(path);
        e.push_str(")");
        Err(e)
    }
}

/// What is to become of the file that may be the tile of a group: `found` is the id
/// that it holds, or why it cannot be read; none where there is no file. A file
/// with another id is not touched.
pub fn unpin(aumid: &str, found: Option<Result<String, String>>, path: &str) -> (r: Unpin)
    ensures
        match found {
            None => r is NotPinned,
            Some(Err(e)) => r matches Unpin::Refused(w) && w@ == "unpin: "@ + e@,
            Some(Ok(id)) => if id@ == aumid@ {
                r is Delete
            } else {
                r matches Unpin::Refused(w) && w@ == "unpin: refusing to delete '"@ + path@
                    + "': expected AUMID '"@ + aumid@ + "', file says '"@ + id@ + "'"@
            },
        },
{
    match found {
        None => Unpin::NotPinned,
        Some(Err(e)) => {
            let mut w: String = "unpin: ".to_owned();
            w.push_str(e.as_str());
            Unpin::Refused(w)
        },
        Some(Ok(id)) => {
            if text::same_text(id.as_str(), aumid) {
                Unpin::Delete
            } else {
                let mut w: String = "unpin: refusing to delete '".to_owned();
                w.push_str(path);
                w.push_str("': expected AUMID '");
                w.push_str(aumid);
                w.push_str("', file says '");
                w.push_str(id.as_str());
                w.push_str("'");
                Unpin::Refused(w)
            }
        },
    }
}

} // verus!
