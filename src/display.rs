//! Displays as the operating system reports them, the listing handed to
//! callers, and the choice of which display to capture.
use vstd::prelude::*;
use vstd::string::{StrSliceExecFns, StringExecFns};

use crate::error::CaptureError;

verus! {

/// What the operating system reports of one attached display.
#[derive(Clone, Copy, Debug, PartialEq, Eq, Structural)]
pub struct ScreenInfo {
    pub id: u32,
    /// Horizontal position of the display's top-left corner.
    pub x: i32,
    /// Vertical position of the display's top-left corner.
    pub y: i32,
    pub width: u32,
    pub height: u32,
    /// The platform marks this display as its main one.
    pub is_primary: bool,
}

/// One entry of a display listing.
#[derive(Clone, Debug, PartialEq, Eq)]
pub struct Display {
    pub id: u32,
    /// A label built from the other fields, for people to read.
    pub name: String,
    pub width: u32,
    pub height: u32,
    /// This is the display that a capture of the primary display takes.
    pub is_primary: bool,
}

/// Which display a capture is of.
#[derive(Clone, Copy, Debug, PartialEq, Eq, Structural)]
pub enum Selector {
    /// The primary display.
    Primary,
    /// The display with this id.
    ById(u32),
}

pub open spec fn at_origin(s: ScreenInfo) -> bool {
    s.x == 0 && s.y == 0
}

/// `i` is the first display that the platform marks as primary.
pub open spec fn first_flagged(ds: Seq<ScreenInfo>, i: int) -> bool {
    &&& 0 <= i < ds.len()
    &&& ds[i].is_primary
    &&& forall|j: int| 0 <= j < i ==> !(#[trigger] ds[j]).is_primary
}

/// `i` is the first display whose top-left corner is at `(0, 0)`.
pub open spec fn first_at_origin(ds: Seq<ScreenInfo>, i: int) -> bool {
    &&& 0 <= i < ds.len()
    &&& at_origin(ds[i])
    &&& forall|j: int| 0 <= j < i ==> !at_origin(#[trigger] ds[j])
}

/// `i` is the first display with the given id.
pub open spec fn first_with_id(ds: Seq<ScreenInfo>, id: u32, i: int) -> bool {
    &&& 0 <= i < ds.len()
    &&& ds[i].id == id
    &&& forall|j: int| 0 <= j < i ==> (#[trigger] ds[j]).id != id
}

/// The primary display is the first one that the platform marks as
/// primary; failing that, the first one at the origin; failing that, the
/// first one listed.
pub open spec fn is_primary_choice(ds: Seq<ScreenInfo>, i: int) -> bool {
    if exists|k: int| 0 <= k < ds.len() && (#[trigger] ds[k]).is_primary {
        first_flagged(ds, i)
    } else if exists|k: int| 0 <= k < ds.len() && at_origin(#[trigger] ds[k]) {
        first_at_origin(ds, i)
    } else {
        0 == i < ds.len()
    }
}

/// `i` is the display that the selector picks out of `ds`.
pub open spec fn is_choice(ds: Seq<ScreenInfo>, sel: Selector, i: int) -> bool {
    match sel {
        Selector::Primary => is_primary_choice(ds, i),
        Selector::ById(id) => first_with_id(ds, id, i),
    }
}

/// The selector picks some display out of `ds`.
pub open spec fn has_choice(ds: Seq<ScreenInfo>, sel: Selector) -> bool {
    match sel {
        Selector::Primary => ds.len() > 0,
        Selector::ById(id) => exists|k: int| 0 <= k < ds.len() && (#[trigger] ds[k]).id == id,
    }
}

/// The error when the selector picks nothing.
pub open spec fn missing_error(sel: Selector) -> CaptureError {
    match sel {
        Selector::Primary => CaptureError::NoDisplaysFound,
        Selector::ById(_) => CaptureError::MonitorNotFound,
    }
}

pub open spec fn digit_char(d: nat) -> char {
    seq!['0', '1', '2', '3', '4', '5', '6', '7', '8', '9'][d as int]
}

/// The decimal digits of `n`, without leading zeros.
pub open spec fn decimal(n: nat) -> Seq<char>
    decreases n,
{
    if n < 10 {
        seq![digit_char(n)]
    } else {
        decimal(n / 10).push(digit_char(n % 10))
    }
}

/// `Display <id>: <width>x<height>`, followed by ` (primary)` for the
/// primary display.
pub open spec fn display_name(id: nat, width: nat, height: nat, primary: bool) -> Seq<char> {
    let base = "Display "@ + decimal(id) + ": "@ + decimal(width) + "x"@ + decimal(height);
    if primary {
        base + " (primary)"@
    } else {
        base
    }
}

/// The listing entry for the `i`-th display of `ds`.
pub open spec fn describes(d: Display, ds: Seq<ScreenInfo>, i: int) -> bool {
    let s = ds[i];
    &&& d.id == s.id
    &&& d.width == s.width
    &&& d.height == s.height
    &&& d.is_primary == is_primary_choice(ds, i)
    &&& d.name@ == display_name(s.id as nat, s.width as nat, s.height as nat, d.is_primary)
}

fn digit_str(d: u32) -> (r: &'static str)
    requires
        d < 10,
    ensures
        r@ == seq![digit_char(d as nat)],
{
    let digits = "0123456789";
    proof {
        reveal_strlit("0123456789");
        assert(digits@ =~= seq!['0', '1', '2', '3', '4', '5', '6', '7', '8', '9']);
    }
    let r = digits.substring_ascii(d as usize, d as usize + 1);
    assert(r@ =~= seq![digit_char(d as nat)]);
    r
}

/// Appends the decimal digits of `n`.
fn push_decimal(s: &mut String, n: u32)
    ensures
        final(s)@ == old(s)@ + decimal(n as nat),
    decreases n,
{
    if n >= 10 {
        push_decimal(s, n / 10);
    }
    s.append(digit_str(n % 10));
    proof {
        if n >= 10 {
            assert(final(s)@ =~= old(s)@ + decimal(n as nat));
        } else {
            assert(final(s)@ =~= old(s)@ + decimal(n as nat));
        }
    }
}

/// The label of a display in a listing.
pub fn display_label(id: u32, width: u32, height: u32, primary: bool) -> (r: String)
    ensures
        r@ == display_name(id as nat, width as nat, height as nat, primary),
{
    let mut s = String::from_str("Display ");
    push_decimal(&mut s, id);
    s.append(": ");
    push_decimal(&mut s, width);
    s.append("x");
    push_decimal(&mut s, height);
    if primary {
        s.append(" (primary)");
    }
    s
}

/// The index of the first display that the platform marks as primary.
fn first_flagged_index(ds: &Vec<ScreenInfo>) -> (r: Option<usize>)
    ensures
        r matches Some(i) ==> first_flagged(ds@, i as int),
        r is None ==> forall|k: int| 0 <= k < ds@.len() ==> !(#[trigger] ds@[k]).is_primary,
{
    let mut i: usize = 0;
    while i < ds.len()
        invariant
            i <= ds@.len(),
            forall|j: int| 0 <= j < i ==> !(#[trigger] ds@[j]).is_primary,
        decreases ds@.len() - i,
    {
        if ds[i].is_primary {
            return Some(i);
        }
        i += 1;
    }
    None
}

/// The index of the first display whose corner is at the origin.
fn first_origin_index(ds: &Vec<ScreenInfo>) -> (r: Option<usize>)
    ensures
        r matches Some(i) ==> first_at_origin(ds@, i as int),
        r is None ==> forall|k: int| 0 <= k < ds@.len() ==> !at_origin(#[trigger] ds@[k]),
{
    let mut i: usize = 0;
    while i < ds.len()
        invariant
            i <= ds@.len(),
            forall|j: int| 0 <= j < i ==> !at_origin(#[trigger] ds@[j]),
        decreases ds@.len() - i,
    {
        if ds[i].x == 0 && ds[i].y == 0 {
            return Some(i);
        }
        i += 1;
    }
    None
}

/// The index of the first display with the given id.
pub fn index_of_id(ds: &Vec<ScreenInfo>, id: u32) -> (r: Option<usize>)
    ensures
        r matches Some(i) ==> first_with_id(ds@, id, i as int),
        r is None <==> !exists|k: int| 0 <= k < ds@.len() && (#[trigger] ds@[k]).id == id,
{
    let mut i: usize = 0;
    while i < ds.len()
        invariant
            i <= ds@.len(),
            forall|j: int| 0 <= j < i ==> (#[trigger] ds@[j]).id != id,
        decreases ds@.len() - i,
    {
        if ds[i].id == id {
            return Some(i);
        }
        i += 1;
    }
    None
}

/// The index of the primary display: the first one that the platform marks
/// as primary, else the first at the origin, else the first one listed.
/// `None` exactly when there is no display.
pub fn primary_index(ds: &Vec<ScreenInfo>) -> (r: Option<usize>)
    ensures
        r matches Some(i) ==> is_primary_choice(ds@, i as int),
        r is None <==> ds@.len() == 0,
{
    if ds.len() == 0 {
        return None;
    }
    match first_flagged_index(ds) {
        Some(i) => Some(i),
        None => match first_origin_index(ds) {
            Some(i) => Some(i),
            None => Some(0),
        },
    }
}

/// The display that `sel` picks out of `ds`: the primary display, or the
/// first one with the requested id. With nothing to pick, the error is
/// `NoDisplaysFound` for the primary display and `MonitorNotFound` for an
/// id.
pub fn select_screen(ds: &Vec<ScreenInfo>, sel: Selector) -> (r: Result<ScreenInfo, CaptureError>)
    ensures
        r is Ok <==> has_choice(ds@, sel),
        r matches Ok(s) ==> exists|i: int| is_choice(ds@, sel, i) && s == ds@[i],
        r matches Err(e) ==> e == missing_error(sel),
{
    let found = match sel {
        Selector::Primary => primary_index(ds),
        Selector::ById(id) => index_of_id(ds, id),
    };
    match found {
        Some(i) => {
            assert(is_choice(ds@, sel, i as int));
            Ok(ds[i])
        },
        None => Err(
            match sel {
                Selector::Primary => CaptureError::NoDisplaysFound,
                Selector::ById(_) => CaptureError::MonitorNotFound,
            },
        ),
    }
}

/// The listing of the displays in `ds`, in their order, each with its
/// label; exactly the display that a capture of the primary display would
/// take is marked primary. No display at all is `NoDisplaysFound`.
pub fn describe_screens(ds: &Vec<ScreenInfo>) -> (r: Result<Vec<Display>, CaptureError>)
    ensures
        r is Err <==> ds@.len() == 0,
        r matches Err(e) ==> e == CaptureError::NoDisplaysFound,
        r matches Ok(v) ==> v@.len() == ds@.len() && forall|i: int|
            0 <= i < ds@.len() ==> describes(#[trigger] v@[i], ds@, i),
{
    let primary = match primary_index(ds) {
        Some(p) => p,
        None => {
            return Err(CaptureError::NoDisplaysFound);
        },
    };
    let mut out: Vec<Display> = Vec::new();
    let mut i: usize = 0;
    while i < ds.len()
        invariant
            i <= ds@.len(),
            out@.len() == i,
            is_primary_choice(ds@, primary as int),
            forall|j: int| 0 <= j < i ==> describes(#[trigger] out@[j], ds@, j),
        decreases ds@.len() - i,
    {
        let s = ds[i];
        let is_primary = i == primary;
        proof {
            lemma_primary_choice_unique(ds@, primary as int, i as int);
        }
        let name = display_label(s.id, s.width, s.height, is_primary);
        out.push(Display { id: s.id, name, width: s.width, height: s.height, is_primary });
        i += 1;
    }
    Ok(out)
}

/// At most one display is the primary choice.
pub proof fn lemma_primary_choice_unique(ds: Seq<ScreenInfo>, i: int, j: int)
    requires
        is_primary_choice(ds, i),
    ensures
        is_primary_choice(ds, j) <==> i == j,
{
    if is_primary_choice(ds, j) && i != j {
        if exists|k: int| 0 <= k < ds.len() && (#[trigger] ds[k]).is_primary {
            if i < j {
                assert(!ds[i].is_primary);
            } else {
                assert(!ds[j].is_primary);
            }
        } else if exists|k: int| 0 <= k < ds.len() && at_origin(#[trigger] ds[k]) {
            if i < j {
                assert(!at_origin(ds[i]));
            } else {
                assert(!at_origin(ds[j]));
            }
        }
    }
}

/// With no display at all there is nothing to capture as the primary
/// display, and the error for that is `NoDisplaysFound`, the same error that
/// the listing gives.
pub proof fn lemma_no_displays(ds: Seq<ScreenInfo>)
    requires
        ds.len() == 0,
    ensures
        !has_choice(ds, Selector::Primary),
        missing_error(Selector::Primary) == CaptureError::NoDisplaysFound,
{
}

/// An id that no listed display carries selects nothing, and the error for
/// that is `MonitorNotFound`.
pub proof fn lemma_unknown_id(ds: Seq<ScreenInfo>, id: u32)
    requires
        forall|k: int| 0 <= k < ds.len() ==> (#[trigger] ds[k]).id != id,
    ensures
        !has_choice(ds, Selector::ById(id)),
        missing_error(Selector::ById(id)) == CaptureError::MonitorNotFound,
{
}

/// When exactly one display sits at the origin, and any display that the
/// platform marks primary is that one, it is the primary display wherever
/// it stands in the list.
pub proof fn lemma_primary_at_origin(ds: Seq<ScreenInfo>, i: int)
    requires
        0 <= i < ds.len(),
        at_origin(ds[i]),
        forall|j: int| 0 <= j < ds.len() && j != i ==> !at_origin(#[trigger] ds[j]),
        forall|j: int| 0 <= j < ds.len() && (#[trigger] ds[j]).is_primary ==> j == i,
    ensures
        is_primary_choice(ds, i),
{
    assert(exists|k: int| 0 <= k < ds.len() && at_origin(#[trigger] ds[k]));
}

/// When no display sits at the origin and none is marked primary, the
/// first display listed is the primary one.
pub proof fn lemma_primary_fallback(ds: Seq<ScreenInfo>)
    requires
        ds.len() > 0,
        forall|j: int|
            0 <= j < ds.len() ==> !at_origin(#[trigger] ds[j]) && !ds[j].is_primary,
    ensures
        is_primary_choice(ds, 0),
{
}

} // verus!
