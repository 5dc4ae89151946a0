//! The command surface: token parsing for every chat command.
//!
//! The host's chat layer hands over whitespace-split byte tokens; parsing
//! turns them into one `Command`, rejecting malformed numeric or time
//! arguments with `FormatError`. Unrecognized input is ignored, as the
//! host treats such chat lines as meant for someone else.

use vstd::prelude::*;
use crate::entity::{CefEntity, ANGLE_LIM, SCALE_LIM};
use crate::entity_manager::{find_index_s, is_closest, lookup_s, EntityManager};
use crate::error::Error;
use crate::geometry::POS_LIM;
use crate::vec3::{v3_add, v3_bounded, Vec3Fx};
use crate::parse::{dec_val, fx_val, parse_fx, parse_time, parse_u64, time_val, u64_ok};

verus! {

/// Byte-for-byte equality of two token slices.
fn bytes_eq(a: &[u8], b: &[u8]) -> (r: bool)
    ensures
        r == (a@ == b@),
{
    let n = a.len();
    if n != b.len() {
        proof {
            assert(a@ != b@) by {
                assert(a@.len() != b@.len());
            }
        }
        return false;
    }
    let mut i: usize = 0;
    while i < n
        invariant
            n == a@.len() && n == b@.len(),
            i <= n,
            forall|j: int| 0 <= j < i ==> a@[j] == b@[j],
        decreases n - i,
    {
        if a[i] != b[i] {
            return false;
        }
        i = i + 1;
    }
    proof {
        assert(a@ =~= b@);
    }
    true
}

/// The bytes of the token `create`.
pub open spec fn kw_create() -> Seq<u8> {
    seq![99u8, 114u8, 101u8, 97u8, 116u8, 101u8]
}

/// The bytes of the token `search`.
pub open spec fn kw_search() -> Seq<u8> {
    seq![115u8, 101u8, 97u8, 114u8, 99u8, 104u8]
}

/// The bytes of the token `here`.
pub open spec fn kw_here() -> Seq<u8> {
    seq![104u8, 101u8, 114u8, 101u8]
}

/// The bytes of the token `move`.
pub open spec fn kw_move_word() -> Seq<u8> {
    seq![109u8, 111u8, 118u8, 101u8]
}

/// The bytes of the token `at`.
pub open spec fn kw_at() -> Seq<u8> {
    seq![97u8, 116u8]
}

/// The bytes of the token `tp`.
pub open spec fn kw_tp() -> Seq<u8> {
    seq![116u8, 112u8]
}

/// The bytes of the token `angle`.
pub open spec fn kw_angle() -> Seq<u8> {
    seq![97u8, 110u8, 103u8, 108u8, 101u8]
}

/// The bytes of the token `angles`.
pub open spec fn kw_angles() -> Seq<u8> {
    seq![97u8, 110u8, 103u8, 108u8, 101u8, 115u8]
}

/// The bytes of the token `scale`.
pub open spec fn kw_scale() -> Seq<u8> {
    seq![115u8, 99u8, 97u8, 108u8, 101u8]
}

/// The bytes of the token `load`.
pub open spec fn kw_load() -> Seq<u8> {
    seq![108u8, 111u8, 97u8, 100u8]
}

/// The bytes of the token `play`.
pub open spec fn kw_play() -> Seq<u8> {
    seq![112u8, 108u8, 97u8, 121u8]
}

/// The bytes of the token `stop`.
pub open spec fn kw_stop() -> Seq<u8> {
    seq![115u8, 116u8, 111u8, 112u8]
}

/// The bytes of the token `close`.
pub open spec fn kw_close() -> Seq<u8> {
    seq![99u8, 108u8, 111u8, 115u8, 101u8]
}

/// The bytes of the token `remove`.
pub open spec fn kw_remove_word() -> Seq<u8> {
    seq![114u8, 101u8, 109u8, 111u8, 118u8, 101u8]
}

/// The bytes of the token `clear`.
pub open spec fn kw_clear() -> Seq<u8> {
    seq![99u8, 108u8, 101u8, 97u8, 114u8]
}

/// The bytes of the token `closeall`.
pub open spec fn kw_closeall() -> Seq<u8> {
    seq![99u8, 108u8, 111u8, 115u8, 101u8, 97u8, 108u8, 108u8]
}

/// The bytes of the token `removeall`.
pub open spec fn kw_removeall() -> Seq<u8> {
    seq![114u8, 101u8, 109u8, 111u8, 118u8, 101u8, 97u8, 108u8, 108u8]
}

/// The bytes of the token `stopall`.
pub open spec fn kw_stopall() -> Seq<u8> {
    seq![115u8, 116u8, 111u8, 112u8, 97u8, 108u8, 108u8]
}

/// The bytes of the token `clearall`.
pub open spec fn kw_clearall() -> Seq<u8> {
    seq![99u8, 108u8, 101u8, 97u8, 114u8, 97u8, 108u8, 108u8]
}

/// The bytes of the token `refresh`.
pub open spec fn kw_refresh() -> Seq<u8> {
    seq![114u8, 101u8, 102u8, 114u8, 101u8, 115u8, 104u8]
}

/// The bytes of the token `reload`.
pub open spec fn kw_reload() -> Seq<u8> {
    seq![114u8, 101u8, 108u8, 111u8, 97u8, 100u8]
}

/// The bytes of the token `click`.
pub open spec fn kw_click() -> Seq<u8> {
    seq![99u8, 108u8, 105u8, 99u8, 107u8]
}

/// The bytes of the token `type`.
pub open spec fn kw_type_word() -> Seq<u8> {
    seq![116u8, 121u8, 112u8, 101u8]
}

/// The bytes of the token `time`.
pub open spec fn kw_time() -> Seq<u8> {
    seq![116u8, 105u8, 109u8, 101u8]
}

/// The bytes of the token `seek`.
pub open spec fn kw_seek() -> Seq<u8> {
    seq![115u8, 101u8, 101u8, 107u8]
}

/// The bytes of the token `resize`.
pub open spec fn kw_resize() -> Seq<u8> {
    seq![114u8, 101u8, 115u8, 105u8, 122u8, 101u8]
}

/// Whether `t` is the token `create`.
fn is_create(t: &[u8]) -> (r: bool)
    ensures
        r == (t@ == kw_create()),
{
    let k: Vec<u8> = vec![99u8, 114u8, 101u8, 97u8, 116u8, 101u8];
    proof {
        assert(k@ =~= kw_create());
    }
    bytes_eq(t, k.as_slice())
}

/// Whether `t` is the token `search`.
fn is_search(t: &[u8]) -> (r: bool)
    ensures
        r == (t@ == kw_search()),
{
    let k: Vec<u8> = vec![115u8, 101u8, 97u8, 114u8, 99u8, 104u8];
    proof {
        assert(k@ =~= kw_search());
    }
    bytes_eq(t, k.as_slice())
}

/// Whether `t` is the token `here`.
fn is_here(t: &[u8]) -> (r: bool)
    ensures
        r == (t@ == kw_here()),
{
    let k: Vec<u8> = vec![104u8, 101u8, 114u8, 101u8];
    proof {
        assert(k@ =~= kw_here());
    }
    bytes_eq(t, k.as_slice())
}

/// Whether `t` is the token `move`.
fn is_move_word(t: &[u8]) -> (r: bool)
    ensures
        r == (t@ == kw_move_word()),
{
    let k: Vec<u8> = vec![109u8, 111u8, 118u8, 101u8];
    proof {
        assert(k@ =~= kw_move_word());
    }
    bytes_eq(t, k.as_slice())
}

/// Whether `t` is the token `at`.
fn is_at(t: &[u8]) -> (r: bool)
    ensures
        r == (t@ == kw_at()),
{
    let k: Vec<u8> = vec![97u8, 116u8];
    proof {
        assert(k@ =~= kw_at());
    }
    bytes_eq(t, k.as_slice())
}

/// Whether `t` is the token `tp`.
fn is_tp(t: &[u8]) -> (r: bool)
    ensures
        r == (t@ == kw_tp()),
{
    let k: Vec<u8> = vec![116u8, 112u8];
    proof {
        assert(k@ =~= kw_tp());
    }
    bytes_eq(t, k.as_slice())
}

/// Whether `t` is the token `angle`.
fn is_angle(t: &[u8]) -> (r: bool)
    ensures
        r == (t@ == kw_angle()),
{
    let k: Vec<u8> = vec![97u8, 110u8, 103u8, 108u8, 101u8];
    proof {
        assert(k@ =~= kw_angle());
    }
    bytes_eq(t, k.as_slice())
}

/// Whether `t` is the token `angles`.
fn is_angles(t: &[u8]) -> (r: bool)
    ensures
        r == (t@ == kw_angles()),
{
    let k: Vec<u8> = vec![97u8, 110u8, 103u8, 108u8, 101u8, 115u8];
    proof {
        assert(k@ =~= kw_angles());
    }
    bytes_eq(t, k.as_slice())
}

/// Whether `t` is the token `scale`.
fn is_scale(t: &[u8]) -> (r: bool)
    ensures
        r == (t@ == kw_scale()),
{
    let k: Vec<u8> = vec![115u8, 99u8, 97u8, 108u8, 101u8];
    proof {
        assert(k@ =~= kw_scale());
    }
    bytes_eq(t, k.as_slice())
}

/// Whether `t` is the token `load`.
fn is_load(t: &[u8]) -> (r: bool)
    ensures
        r == (t@ == kw_load()),
{
    let k: Vec<u8> = vec![108u8, 111u8, 97u8, 100u8];
    proof {
        assert(k@ =~= kw_load());
    }
    bytes_eq(t, k.as_slice())
}

/// Whether `t` is the token `play`.
fn is_play(t: &[u8]) -> (r: bool)
    ensures
        r == (t@ == kw_play()),
{
    let k: Vec<u8> = vec![112u8, 108u8, 97u8, 121u8];
    proof {
        assert(k@ =~= kw_play());
    }
    bytes_eq(t, k.as_slice())
}

/// Whether `t` is the token `stop`.
fn is_stop(t: &[u8]) -> (r: bool)
    ensures
        r == (t@ == kw_stop()),
{
    let k: Vec<u8> = vec![115u8, 116u8, 111u8, 112u8];
    proof {
        assert(k@ =~= kw_stop());
    }
    bytes_eq(t, k.as_slice())
}

/// Whether `t` is the token `close`.
fn is_close(t: &[u8]) -> (r: bool)
    ensures
        r == (t@ == kw_close()),
{
    let k: Vec<u8> = vec![99u8, 108u8, 111u8, 115u8, 101u8];
    proof {
        assert(k@ =~= kw_close());
    }
    bytes_eq(t, k.as_slice())
}

/// Whether `t` is the token `remove`.
fn is_remove_word(t: &[u8]) -> (r: bool)
    ensures
        r == (t@ == kw_remove_word()),
{
    let k: Vec<u8> = vec![114u8, 101u8, 109u8, 111u8, 118u8, 101u8];
    proof {
        assert(k@ =~= kw_remove_word());
    }
    bytes_eq(t, k.as_slice())
}

/// Whether `t` is the token `clear`.
fn is_clear(t: &[u8]) -> (r: bool)
    ensures
        r == (t@ == kw_clear()),
{
    let k: Vec<u8> = vec![99u8, 108u8, 101u8, 97u8, 114u8];
    proof {
        assert(k@ =~= kw_clear());
    }
    bytes_eq(t, k.as_slice())
}

/// Whether `t` is the token `closeall`.
fn is_closeall(t: &[u8]) -> (r: bool)
    ensures
        r == (t@ == kw_closeall()),
{
    let k: Vec<u8> = vec![99u8, 108u8, 111u8, 115u8, 101u8, 97u8, 108u8, 108u8];
    proof {
        assert(k@ =~= kw_closeall());
    }
    bytes_eq(t, k.as_slice())
}

/// Whether `t` is the token `removeall`.
fn is_removeall(t: &[u8]) -> (r: bool)
    ensures
        r == (t@ == kw_removeall()),
{
    let k: Vec<u8> = vec![114u8, 101u8, 109u8, 111u8, 118u8, 101u8, 97u8, 108u8, 108u8];
    proof {
        assert(k@ =~= kw_removeall());
    }
    bytes_eq(t, k.as_slice())
}

/// Whether `t` is the token `stopall`.
fn is_stopall(t: &[u8]) -> (r: bool)
    ensures
        r == (t@ == kw_stopall()),
{
    let k: Vec<u8> = vec![115u8, 116u8, 111u8, 112u8, 97u8, 108u8, 108u8];
    proof {
        assert(k@ =~= kw_stopall());
    }
    bytes_eq(t, k.as_slice())
}

/// Whether `t` is the token `clearall`.
fn is_clearall(t: &[u8]) -> (r: bool)
    ensures
        r == (t@ == kw_clearall()),
{
    let k: Vec<u8> = vec![99u8, 108u8, 101u8, 97u8, 114u8, 97u8, 108u8, 108u8];
    proof {
        assert(k@ =~= kw_clearall());
    }
    bytes_eq(t, k.as_slice())
}

/// Whether `t` is the token `refresh`.
fn is_refresh(t: &[u8]) -> (r: bool)
    ensures
        r == (t@ == kw_refresh()),
{
    let k: Vec<u8> = vec![114u8, 101u8, 102u8, 114u8, 101u8, 115u8, 104u8];
    proof {
        assert(k@ =~= kw_refresh());
    }
    bytes_eq(t, k.as_slice())
}

/// Whether `t` is the token `reload`.
fn is_reload(t: &[u8]) -> (r: bool)
    ensures
        r == (t@ == kw_reload()),
{
    let k: Vec<u8> = vec![114u8, 101u8, 108u8, 111u8, 97u8, 100u8];
    proof {
        assert(k@ =~= kw_reload());
    }
    bytes_eq(t, k.as_slice())
}

/// Whether `t` is the token `click`.
fn is_click(t: &[u8]) -> (r: bool)
    ensures
        r == (t@ == kw_click()),
{
    let k: Vec<u8> = vec![99u8, 108u8, 105u8, 99u8, 107u8];
    proof {
        assert(k@ =~= kw_click());
    }
    bytes_eq(t, k.as_slice())
}

/// Whether `t` is the token `type`.
fn is_type_word(t: &[u8]) -> (r: bool)
    ensures
        r == (t@ == kw_type_word()),
{
    let k: Vec<u8> = vec![116u8, 121u8, 112u8, 101u8];
    proof {
        assert(k@ =~= kw_type_word());
    }
    bytes_eq(t, k.as_slice())
}

/// Whether `t` is the token `time`.
fn is_time(t: &[u8]) -> (r: bool)
    ensures
        r == (t@ == kw_time()),
{
    let k: Vec<u8> = vec![116u8, 105u8, 109u8, 101u8];
    proof {
        assert(k@ =~= kw_time());
    }
    bytes_eq(t, k.as_slice())
}

/// Whether `t` is the token `seek`.
fn is_seek(t: &[u8]) -> (r: bool)
    ensures
        r == (t@ == kw_seek()),
{
    let k: Vec<u8> = vec![115u8, 101u8, 101u8, 107u8];
    proof {
        assert(k@ =~= kw_seek());
    }
    bytes_eq(t, k.as_slice())
}

/// Whether `t` is the token `resize`.
fn is_resize(t: &[u8]) -> (r: bool)
    ensures
        r == (t@ == kw_resize()),
{
    let k: Vec<u8> = vec![114u8, 101u8, 115u8, 105u8, 122u8, 101u8];
    proof {
        assert(k@ =~= kw_resize());
    }
    bytes_eq(t, k.as_slice())
}

/// The page a fresh screen opens on.
pub open spec fn default_url() -> Seq<u8> {
    seq![104u8, 116u8, 116u8, 112u8, 115u8, 58u8, 47u8, 47u8, 119u8, 119u8, 119u8, 46u8, 99u8, 108u8, 97u8, 115u8, 115u8, 105u8, 99u8, 117u8, 98u8, 101u8, 46u8, 110u8, 101u8, 116u8, 47u8]
}

/// All tokens from `i` on, run together with nothing between.
pub open spec fn concat_from(args: Seq<Vec<u8>>, i: int) -> Seq<u8>
    decreases args.len() - i when 0 <= i <= args.len()
{
    if i >= args.len() {
        Seq::empty()
    } else {
        args[i]@ + concat_from(args, i + 1)
    }
}

/// All tokens from `i` on, joined with single spaces.
pub open spec fn join_from(args: Seq<Vec<u8>>, i: int) -> Seq<u8>
    decreases args.len() - i when 0 <= i <= args.len()
{
    if i >= args.len() {
        Seq::empty()
    } else if i == args.len() - 1 {
        args[i]@
    } else {
        args[i]@ + seq![32u8] + join_from(args, i + 1)
    }
}

/// A parsed value that can stand as a world coordinate.
pub open spec fn pos_arg_ok(t: Seq<u8>) -> bool {
    fx_val(t) matches Some(v) && -POS_LIM <= v <= POS_LIM
}

/// A parsed value that can stand as a rotation angle.
pub open spec fn angle_arg_ok(t: Seq<u8>) -> bool {
    fx_val(t) matches Some(v) && -ANGLE_LIM <= v <= ANGLE_LIM
}

/// A parsed value that can stand as a scale factor.
pub open spec fn scale_arg_ok(t: Seq<u8>) -> bool {
    fx_val(t) matches Some(v) && 0 < v <= SCALE_LIM
}

/// A decimal that fits a `u32`.
pub open spec fn u32_ok(t: Seq<u8>) -> bool {
    u64_ok(t) && dec_val(t) <= u32::MAX
}

pub open spec fn is_create_form(args: Seq<Vec<u8>>) -> bool {
    args.len() >= 1 && args[0]@ == kw_create()
}

pub open spec fn is_search_form(args: Seq<Vec<u8>>) -> bool {
    args.len() >= 1 && args[0]@ == kw_search()
}

pub open spec fn is_here_id_form(args: Seq<Vec<u8>>) -> bool {
    args.len() == 2 && args[0]@ == kw_here()
}

pub open spec fn is_move_form(args: Seq<Vec<u8>>) -> bool {
    args.len() == 1 && (args[0]@ == kw_here() || args[0]@ == kw_move_word())
}

pub open spec fn is_at_form(args: Seq<Vec<u8>>) -> bool {
    args.len() == 4 && (args[0]@ == kw_at() || args[0]@ == kw_tp())
}

pub open spec fn is_angles_form(args: Seq<Vec<u8>>) -> bool {
    args.len() == 3 && (args[0]@ == kw_angle() || args[0]@ == kw_angles())
}

pub open spec fn is_scale_form(args: Seq<Vec<u8>>) -> bool {
    args.len() == 2 && args[0]@ == kw_scale()
}

pub open spec fn is_play_form(args: Seq<Vec<u8>>) -> bool {
    args.len() >= 1 && (args[0]@ == kw_load() || args[0]@ == kw_play())
}

pub open spec fn is_stop_form(args: Seq<Vec<u8>>) -> bool {
    args.len() == 1 && args[0]@ == kw_stop()
}

pub open spec fn is_close_form(args: Seq<Vec<u8>>) -> bool {
    args.len() == 1 && (args[0]@ == kw_close() || args[0]@ == kw_remove_word() || args[0]@
        == kw_clear())
}

pub open spec fn is_close_all_form(args: Seq<Vec<u8>>) -> bool {
    args.len() == 1 && (args[0]@ == kw_closeall() || args[0]@ == kw_removeall() || args[0]@
        == kw_stopall() || args[0]@ == kw_clearall())
}

pub open spec fn is_refresh_form(args: Seq<Vec<u8>>) -> bool {
    args.len() == 1 && (args[0]@ == kw_refresh() || args[0]@ == kw_reload())
}

pub open spec fn is_click_aim_form(args: Seq<Vec<u8>>) -> bool {
    args.len() == 1 && args[0]@ == kw_click()
}

pub open spec fn is_click_at_form(args: Seq<Vec<u8>>) -> bool {
    args.len() == 3 && args[0]@ == kw_click()
}

pub open spec fn is_type_form(args: Seq<Vec<u8>>) -> bool {
    args.len() >= 1 && args[0]@ == kw_type_word()
}

pub open spec fn is_seek_form(args: Seq<Vec<u8>>) -> bool {
    args.len() == 2 && (args[0]@ == kw_time() || args[0]@ == kw_seek())
}

pub open spec fn is_resize_form(args: Seq<Vec<u8>>) -> bool {
    args.len() == 3 && args[0]@ == kw_resize()
}

/// No recognized command shape fits the tokens.
pub open spec fn no_known_form(args: Seq<Vec<u8>>) -> bool {
    &&& !is_create_form(args)
    &&& !is_search_form(args)
    &&& !is_here_id_form(args)
    &&& !is_move_form(args)
    &&& !is_at_form(args)
    &&& !is_angles_form(args)
    &&& !is_scale_form(args)
    &&& !is_play_form(args)
    &&& !is_stop_form(args)
    &&& !is_close_form(args)
    &&& !is_close_all_form(args)
    &&& !is_refresh_form(args)
    &&& !is_click_aim_form(args)
    &&& !is_click_at_form(args)
    &&& !is_type_form(args)
    &&& !is_seek_form(args)
    &&& !is_resize_form(args)
}

/// A recognized shape whose numeric or time argument is malformed.
pub open spec fn bad_argument(args: Seq<Vec<u8>>) -> bool {
    ||| is_here_id_form(args) && !u64_ok(args[1]@)
    ||| is_at_form(args) && !(pos_arg_ok(args[1]@) && pos_arg_ok(args[2]@) && pos_arg_ok(
        args[3]@,
    ))
    ||| is_angles_form(args) && !(angle_arg_ok(args[1]@) && angle_arg_ok(args[2]@))
    ||| is_scale_form(args) && !scale_arg_ok(args[1]@)
    ||| is_click_at_form(args) && !(u32_ok(args[1]@) && u32_ok(args[2]@))
    ||| is_seek_form(args) && time_val(args[1]@) is None
    ||| is_resize_form(args) && !(u32_ok(args[1]@) && u32_ok(args[2]@))
}

/// One parsed chat command, numbers already in fixed point.
#[derive(Debug)]
pub enum Command {
    Create { url: Vec<u8> },
    Search { query: Vec<u8> },
    HereById { id: u64 },
    MoveClosest,
    At { x: i64, y: i64, z: i64 },
    Angles { rot_x: i64, rot_y: i64 },
    Scale { scale: i64 },
    Play { url: Vec<u8> },
    Stop,
    Close,
    CloseAll,
    Refresh,
    ClickAim,
    ClickAt { x: u32, y: u32 },
    Type { text: Vec<u8> },
    Seek { seconds: u64 },
    Resize { width: u32, height: u32 },
    Ignore,
}

/// Concatenates tokens from `from` on.
fn concat_args(args: &Vec<Vec<u8>>, from: usize) -> (r: Vec<u8>)
    requires
        from <= args@.len(),
    ensures
        r@ == concat_from(args@, from as int),
{
    let mut r: Vec<u8> = Vec::new();
    let mut i: usize = from;
    while i < args.len()
        invariant
            from <= i <= args@.len(),
            concat_from(args@, from as int) == r@ + concat_from(args@, i as int),
        decreases args@.len() - i,
    {
        let ghost r0 = r@;
        r.extend_from_slice(args[i].as_slice());
        i = i + 1;
        proof {
            assert(r0 + (args@[i - 1]@ + concat_from(args@, i as int)) =~= r@ + concat_from(
                args@,
                i as int,
            ));
        }
    }
    proof {
        assert(r@ + concat_from(args@, args@.len() as int) =~= r@);
    }
    r
}

/// Joins tokens from `from` on with single spaces.
fn join_args(args: &Vec<Vec<u8>>, from: usize) -> (r: Vec<u8>)
    requires
        from <= args@.len(),
    ensures
        r@ == join_from(args@, from as int),
{
    let mut r: Vec<u8> = Vec::new();
    let n = args.len();
    if from >= n {
        return r;
    }
    let mut i: usize = from;
    while i < n
        invariant
            from <= i <= n,
            n == args@.len(),
            from < n,
            join_from(args@, from as int) == r@ + join_from(args@, i as int),
            i < n ==> r@ + args@[i as int]@ + (if i + 1 < n {
                seq![32u8] + join_from(args@, i as int + 1)
            } else {
                Seq::<u8>::empty()
            }) == join_from(args@, from as int),
        decreases n - i,
    {
        let ghost r0 = r@;
        r.extend_from_slice(args[i].as_slice());
        if i + 1 < n {
            r.push(32);
        }
        i = i + 1;
        proof {
            if i < n {
                assert(join_from(args@, i as int) == args@[i as int]@ + seq![32u8] + join_from(
                    args@,
                    i as int + 1,
                ) || join_from(args@, i as int) == args@[i as int]@);
            }
            if i - 1 + 1 < n {
                assert(r@ =~= r0 + args@[i - 1]@ + seq![32u8]);
            } else {
                assert(r@ =~= r0 + args@[i - 1]@);
            }
            assert(join_from(args@, from as int) == r@ + join_from(args@, i as int) || i >= n);
            if i >= n {
                assert(join_from(args@, from as int) =~= r@);
            }
        }
    }
    proof {
        assert(join_from(args@, from as int) =~= r@);
    }
    r
}

/// Turns chat tokens into one command: recognized shapes parse their
/// arguments (a malformed one is a `FormatError`), anything else is
/// ignored.
pub fn parse_command(args: &Vec<Vec<u8>>) -> (r: Result<Command, Error>)
    ensures
        match r {
            Ok(c) => match c {
                Command::Create { url } => is_create_form(args@) && url@ == (if args@.len() == 1 {
                    default_url()
                } else {
                    concat_from(args@, 1)
                }),
                Command::Search { query } => is_search_form(args@) && query@ == join_from(
                    args@,
                    1,
                ),
                Command::HereById { id } => is_here_id_form(args@) && u64_ok(args@[1]@) && id
                    == dec_val(args@[1]@),
                Command::MoveClosest => is_move_form(args@),
                Command::At { x, y, z } => is_at_form(args@) && fx_val(args@[1]@) == Some(
                    x as int,
                ) && fx_val(args@[2]@) == Some(y as int) && fx_val(args@[3]@) == Some(z as int)
                    && -POS_LIM <= x <= POS_LIM && -POS_LIM <= y <= POS_LIM && -POS_LIM <= z
                    <= POS_LIM,
                Command::Angles { rot_x, rot_y } => is_angles_form(args@) && fx_val(args@[1]@)
                    == Some(rot_x as int) && fx_val(args@[2]@) == Some(rot_y as int) && -ANGLE_LIM
                    <= rot_x <= ANGLE_LIM && -ANGLE_LIM <= rot_y <= ANGLE_LIM,
                Command::Scale { scale } => is_scale_form(args@) && fx_val(args@[1]@) == Some(
                    scale as int,
                ) && 0 < scale <= SCALE_LIM,
                Command::Play { url } => is_play_form(args@) && url@ == concat_from(args@, 1),
                Command::Stop => is_stop_form(args@),
                Command::Close => is_close_form(args@),
                Command::CloseAll => is_close_all_form(args@),
                Command::Refresh => is_refresh_form(args@),
                Command::ClickAim => is_click_aim_form(args@),
                Command::ClickAt { x, y } => is_click_at_form(args@) && u32_ok(args@[1]@)
                    && u32_ok(args@[2]@) && x == dec_val(args@[1]@) && y == dec_val(args@[2]@),
                Command::Type { text } => is_type_form(args@) && text@ == join_from(args@, 1),
                Command::Seek { seconds } => is_seek_form(args@) && time_val(args@[1]@) == Some(
                    seconds as int,
                ),
                Command::Resize { width, height } => is_resize_form(args@) && u32_ok(args@[1]@)
                    && u32_ok(args@[2]@) && width == dec_val(args@[1]@) && height == dec_val(
                    args@[2]@,
                ),
                Command::Ignore => no_known_form(args@),
            },
            Err(e) => e == Error::FormatError && bad_argument(args@),
        },
{
    let n = args.len();
    if n == 0 {
        return Ok(Command::Ignore);
    }
    let t0 = args[0].as_slice();
    if is_create(t0) {
        let url = if n == 1 {
            let u: Vec<u8> = vec![
                104u8, 116u8, 116u8, 112u8, 115u8, 58u8, 47u8, 47u8, 119u8, 119u8, 119u8, 46u8,
                99u8, 108u8, 97u8, 115u8, 115u8, 105u8, 99u8, 117u8, 98u8, 101u8, 46u8, 110u8,
                101u8, 116u8, 47u8,
            ];
            proof {
                assert(u@ =~= default_url());
            }
            u
        } else {
            concat_args(args, 1)
        };
        return Ok(Command::Create { url });
    }
    if is_search(t0) {
        return Ok(Command::Search { query: join_args(args, 1) });
    }
    if is_here(t0) && n == 2 {
        let id = match parse_u64(args[1].as_slice()) {
            Ok(v) => v,
            Err(e) => {
                return Err(e);
            },
        };
        return Ok(Command::HereById { id });
    }
    if (is_here(t0) || is_move_word(t0)) && n == 1 {
        return Ok(Command::MoveClosest);
    }
    if (is_at(t0) || is_tp(t0)) && n == 4 {
        let x = match parse_fx(args[1].as_slice()) {
            Ok(v) => v,
            Err(e) => {
                return Err(e);
            },
        };
        let y = match parse_fx(args[2].as_slice()) {
            Ok(v) => v,
            Err(e) => {
                return Err(e);
            },
        };
        let z = match parse_fx(args[3].as_slice()) {
            Ok(v) => v,
            Err(e) => {
                return Err(e);
            },
        };
        if x < -POS_LIM || x > POS_LIM || y < -POS_LIM || y > POS_LIM || z < -POS_LIM || z
            > POS_LIM {
            return Err(Error::FormatError);
        }
        return Ok(Command::At { x, y, z });
    }
    if (is_angle(t0) || is_angles(t0)) && n == 3 {
        let rot_x = match parse_fx(args[1].as_slice()) {
            Ok(v) => v,
            Err(e) => {
                return Err(e);
            },
        };
        let rot_y = match parse_fx(args[2].as_slice()) {
            Ok(v) => v,
            Err(e) => {
                return Err(e);
            },
        };
        if rot_x < -ANGLE_LIM || rot_x > ANGLE_LIM || rot_y < -ANGLE_LIM || rot_y > ANGLE_LIM {
            return Err(Error::FormatError);
        }
        return Ok(Command::Angles { rot_x, rot_y });
    }
    if is_scale(t0) && n == 2 {
        let sc = match parse_fx(args[1].as_slice()) {
            Ok(v) => v,
            Err(e) => {
                return Err(e);
            },
        };
        if sc <= 0 || sc > SCALE_LIM {
            return Err(Error::FormatError);
        }
        return Ok(Command::Scale { scale: sc });
    }
    if is_load(t0) || is_play(t0) {
        return Ok(Command::Play { url: concat_args(args, 1) });
    }
    if is_stop(t0) && n == 1 {
        return Ok(Command::Stop);
    }
    if (is_close(t0) || is_remove_word(t0) || is_clear(t0)) && n == 1 {
        return Ok(Command::Close);
    }
    if (is_closeall(t0) || is_removeall(t0) || is_stopall(t0) || is_clearall(t0)) && n == 1 {
        return Ok(Command::CloseAll);
    }
    if (is_refresh(t0) || is_reload(t0)) && n == 1 {
        return Ok(Command::Refresh);
    }
    if is_click(t0) && n == 1 {
        return Ok(Command::ClickAim);
    }
    if is_click(t0) && n == 3 {
        let x = match parse_u64(args[1].as_slice()) {
            Ok(v) => v,
            Err(e) => {
                return Err(e);
            },
        };
        let y = match parse_u64(args[2].as_slice()) {
            Ok(v) => v,
            Err(e) => {
                return Err(e);
            },
        };
        if x > 0xFFFF_FFFF || y > 0xFFFF_FFFF {
            return Err(Error::FormatError);
        }
        return Ok(Command::ClickAt { x: x as u32, y: y as u32 });
    }
    if is_type_word(t0) {
        return Ok(Command::Type { text: join_args(args, 1) });
    }
    if (is_time(t0) || is_seek(t0)) && n == 2 {
        let seconds = match parse_time(args[1].as_slice()) {
            Ok(v) => v,
            Err(e) => {
                return Err(e);
            },
        };
        return Ok(Command::Seek { seconds });
    }
    if is_resize(t0) && n == 3 {
        let w = match parse_u64(args[1].as_slice()) {
            Ok(v) => v,
            Err(e) => {
                return Err(e);
            },
        };
        let h = match parse_u64(args[2].as_slice()) {
            Ok(v) => v,
            Err(e) => {
                return Err(e);
            },
        };
        if w > 0xFFFF_FFFF || h > 0xFFFF_FFFF {
            return Err(Error::FormatError);
        }
        return Ok(Command::Resize { width: w as u32, height: h as u32 });
    }
    Ok(Command::Ignore)
}

/// What the host knows of the player when a command arrives: positions
/// in fixed point, and the look direction the shell derived from the
/// player's pitch and yaw.
pub struct PlayerSnapshot {
    pub position: Vec3Fx,
    pub eye_position: Vec3Fx,
    pub pitch: i64,
    pub yaw: i64,
    pub dir: Vec3Fx,
}

impl PlayerSnapshot {
    /// Bounds that keep a spawned screen inside engine range.
    pub open spec fn wf(&self) -> bool {
        &&& v3_bounded(self.position@, 0xF0_0000)
        &&& v3_bounded(self.eye_position@, 0xF0_0000)
        &&& v3_bounded(self.dir@, 0x10_0000)
        &&& -0xFF_0000_0000 <= self.pitch <= 0xFF_0000_0000
        &&& -0xFF_0000_0000 <= self.yaw <= 0xFF_0000_0000
    }
}

/// One browser-surface action the shell must carry out; the library
/// decides, the shell performs and reports back on a later tick.
#[derive(Debug)]
pub enum SurfaceOp {
    CreateSurface { id: u64, url: Vec<u8> },
    Navigate { id: u64, url: Vec<u8> },
    Reload { id: u64 },
    SendClick { id: u64, x: u32, y: u32 },
    SendText { id: u64, text: Vec<u8> },
    SetTime { id: u64, seconds: u64 },
    Resize { id: u64, width: u32, height: u32 },
    RemoveSurface { id: u64 },
    Search { query: Vec<u8> },
    QueryAim { id: u64 },
}

/// The blank page a stopped screen is steered to.
pub open spec fn blank_url() -> Seq<u8> {
    seq![100u8, 97u8, 116u8, 97u8, 58u8, 116u8, 101u8, 120u8, 116u8, 47u8, 104u8, 116u8, 109u8, 108u8, 44u8]
}

/// An entity placed one look-vector ahead of the player's eye and turned
/// to face the player.
pub open spec fn moved_entity(e: CefEntity, p: PlayerSnapshot) -> CefEntity {
    CefEntity {
        pos: Vec3Fx {
            x: (p.eye_position.x + p.dir.x) as i64,
            y: (p.eye_position.y + p.dir.y) as i64,
            z: (p.eye_position.z + p.dir.z) as i64,
        },
        rot_x: (23592960 - p.pitch) as i64,
        rot_y: (p.yaw + 11796480) as i64,
        ..e
    }
}

/// Places the entity one look-vector ahead of the player's eye and turns
/// it to face the player.
pub fn move_entity(entity: &mut CefEntity, player: &PlayerSnapshot)
    requires
        old(entity).wf(),
        player.wf(),
    ensures
        final(entity).wf(),
        *final(entity) == moved_entity(*old(entity), *player),
{
    let pos = v3_add(player.eye_position, player.dir);
    entity.set_position(pos);
    entity.set_angles(23592960 - player.pitch, player.yaw + 11796480);
}

/// Applies `move_entity` to the entity under `id` in the registry.
pub fn move_entity_by_id(manager: &mut EntityManager, id: u64, player: &PlayerSnapshot) -> (r:
    Result<(), Error>)
    requires
        old(manager).wf(),
        player.wf(),
    ensures
        final(manager).wf(),
        match r {
            Ok(()) => {
                &&& lookup_s(old(manager).entities@, id) is Some
                &&& old(manager).replaced(
                    *final(manager),
                    find_index_s(old(manager).entities@, id),
                    moved_entity(
                        old(manager).entities@[find_index_s(old(manager).entities@, id)],
                        *player,
                    ),
                )
            },
            Err(err) => {
                &&& err == Error::NotFound
                &&& lookup_s(old(manager).entities@, id) is None
                &&& *final(manager) == *old(manager)
            },
        },
{
    let pos = v3_add(player.eye_position, player.dir);
    match manager.set_position_by_id(id, pos) {
        Ok(()) => {},
        Err(e) => {
            return Err(e);
        },
    }
    let ghost s0 = old(manager).entities@;
    let ghost mid = *manager;
    proof {
        crate::entity_manager::lemma_find_index_properties(s0, id);
        let i = find_index_s(s0, id);
        assert(mid.entities@ == s0.update(i, mid.entities@[i]));
        assert(mid.entities@[i].id == id);
        crate::entity_manager::lemma_update_keeps_find(s0, i, mid.entities@[i]);
        assert(find_index_s(mid.entities@, id) == i);
    }
    match manager.set_angles_by_id(id, 23592960 - player.pitch, player.yaw + 11796480) {
        Ok(()) => {
            proof {
                let i = find_index_s(s0, id);
                assert(manager.entities@ =~= s0.update(
                    i,
                    moved_entity(s0[i], *player),
                ));
            }
            Ok(())
        },
        Err(e) => Err(e),
    }
}


/// Numeric payloads stay inside engine range; `parse_command` only
/// builds commands that satisfy this.
pub open spec fn cmd_wf(cmd: Command) -> bool {
    match cmd {
        Command::At { x, y, z } => -POS_LIM <= x <= POS_LIM && -POS_LIM <= y <= POS_LIM
            && -POS_LIM <= z <= POS_LIM,
        Command::Angles { rot_x, rot_y } => -ANGLE_LIM <= rot_x <= ANGLE_LIM && -ANGLE_LIM
            <= rot_y <= ANGLE_LIM,
        Command::Scale { scale } => 0 < scale <= SCALE_LIM,
        _ => true,
    }
}

/// Carries out one parsed command against the registry, handing back the
/// browser-surface actions the shell must perform.
///
/// Commands that target "the closest screen" fail with `NotFound` on an
/// empty registry; a stale identifier fails the same way.
pub fn dispatch_command(
    manager: &mut EntityManager,
    player: &PlayerSnapshot,
    cmd: Command,
    is_self: bool,
) -> (r: Result<Vec<SurfaceOp>, Error>)
    requires
        old(manager).wf(),
        player.wf(),
        old(manager).next_id < u64::MAX,
        cmd_wf(cmd),
    ensures
        final(manager).wf(),
        match cmd {
            Command::Create { url } => r matches Ok(ops) && final(manager).next_id == old(manager).next_id + 1 && final(manager).entities@.len() == old(manager).entities@.len() + 1
                && final(manager).entities@.drop_last() == old(manager).entities@ && ({
                let e = final(manager).entities@.last();
                &&& e.id == old(manager).next_id
                &&& e.scale == 65536
                &&& e.surface is None
                &&& e.media_time == 0
                &&& e == moved_entity(e, *player)
                &&& e.texture_all_white()
            }) && ops@.len() == 1 && (ops@[0] matches SurfaceOp::CreateSurface { id, url: u }
                && id == old(manager).next_id && u == url),
            Command::Search { query } => r matches Ok(ops) && *final(manager) == *old(manager)
                && (is_self ==> ops@.len() == 1 && (ops@[0] matches SurfaceOp::Search {
                query: q,
            } && q == query)) && (!is_self ==> ops@.len() == 0),
            Command::HereById { id } => match r {
                Ok(ops) => ops@.len() == 0 && lookup_s(old(manager).entities@, id) is Some && old(manager).replaced(
                    *final(manager),
                    find_index_s(old(manager).entities@, id),
                    moved_entity(
                        old(manager).entities@[find_index_s(old(manager).entities@, id)],
                        *player,
                    ),
                ),
                Err(e) => e == Error::NotFound && lookup_s(old(manager).entities@, id) is None
                    && *final(manager) == *old(manager),
            },
            Command::MoveClosest => match r {
                Ok(ops) => ops@.len() == 0 && exists|cid: u64|
                    #[trigger] is_closest(old(manager).entities@, player.eye_position@, cid)
                        && old(manager).replaced(
                        *final(manager),
                        find_index_s(old(manager).entities@, cid),
                        moved_entity(
                            old(manager).entities@[find_index_s(old(manager).entities@, cid)],
                            *player,
                        ),
                    ),
                Err(e) => e == Error::NotFound && old(manager).entities@.len() == 0 && *final(manager) == *old(manager),
            },
            Command::At { x, y, z } => match r {
                Ok(ops) => ops@.len() == 0 && exists|cid: u64|
                    #[trigger] is_closest(old(manager).entities@, player.eye_position@, cid)
                        && old(manager).replaced(
                        *final(manager),
                        find_index_s(old(manager).entities@, cid),
                        CefEntity {
                            pos: Vec3Fx { x, y, z },
                            ..old(manager).entities@[find_index_s(old(manager).entities@, cid)]
                        },
                    ),
                Err(e) => e == Error::NotFound && old(manager).entities@.len() == 0 && *final(manager) == *old(manager),
            },
            Command::Angles { rot_x, rot_y } => match r {
                Ok(ops) => ops@.len() == 0 && exists|cid: u64|
                    #[trigger] is_closest(old(manager).entities@, player.eye_position@, cid)
                        && old(manager).replaced(
                        *final(manager),
                        find_index_s(old(manager).entities@, cid),
                        CefEntity {
                            rot_x,
                            rot_y,
                            ..old(manager).entities@[find_index_s(old(manager).entities@, cid)]
                        },
                    ),
                Err(e) => e == Error::NotFound && old(manager).entities@.len() == 0 && *final(manager) == *old(manager),
            },
            Command::Scale { scale } => match r {
                Ok(ops) => ops@.len() == 0 && exists|cid: u64|
                    #[trigger] is_closest(old(manager).entities@, player.eye_position@, cid)
                        && old(manager).replaced(
                        *final(manager),
                        find_index_s(old(manager).entities@, cid),
                        CefEntity {
                            scale,
                            ..old(manager).entities@[find_index_s(old(manager).entities@, cid)]
                        },
                    ),
                Err(e) => e == Error::NotFound && old(manager).entities@.len() == 0 && *final(manager) == *old(manager),
            },
            Command::Play { url } => match r {
                Ok(ops) => *final(manager) == *old(manager) && ops@.len() == 1 && (ops@[0] matches
                    SurfaceOp::Navigate { id, url: u } && is_closest(
                    old(manager).entities@,
                    player.eye_position@,
                    id,
                ) && u == url),
                Err(e) => e == Error::NotFound && old(manager).entities@.len() == 0 && *final(manager) == *old(manager),
            },
            Command::Stop => match r {
                Ok(ops) => *final(manager) == *old(manager) && ops@.len() == 1 && (ops@[0] matches
                    SurfaceOp::Navigate { id, url: u } && is_closest(
                    old(manager).entities@,
                    player.eye_position@,
                    id,
                ) && u@ == blank_url()),
                Err(e) => e == Error::NotFound && old(manager).entities@.len() == 0 && *final(manager) == *old(manager),
            },
            Command::Close => match r {
                Ok(ops) => ops@.len() == 1 && (ops@[0] matches SurfaceOp::RemoveSurface { id }
                    && is_closest(old(manager).entities@, player.eye_position@, id) && final(manager).entities@ == old(manager).entities@.remove(
                    find_index_s(old(manager).entities@, id),
                ) && find_index_s(final(manager).entities@, id) == -1) && final(manager).next_id
                    == old(manager).next_id,
                Err(e) => e == Error::NotFound && old(manager).entities@.len() == 0 && *final(manager) == *old(manager),
            },
            Command::CloseAll => r matches Ok(ops) && final(manager).entities@.len() == 0 && final(manager).next_id == old(manager).next_id && ops@.len() == old(manager).entities@.len()
                && forall|i: int|
                0 <= i < ops@.len() ==> ops@[i] == (SurfaceOp::RemoveSurface {
                    id: old(manager).entities@[i].id,
                }),
            Command::Refresh => match r {
                Ok(ops) => *final(manager) == *old(manager) && ops@.len() == 1 && (ops@[0] matches
                    SurfaceOp::Reload { id } && is_closest(
                    old(manager).entities@,
                    player.eye_position@,
                    id,
                )),
                Err(e) => e == Error::NotFound && old(manager).entities@.len() == 0 && *final(manager) == *old(manager),
            },
            Command::ClickAim => match r {
                Ok(ops) => *final(manager) == *old(manager) && ops@.len() == 1 && (ops@[0] matches
                    SurfaceOp::QueryAim { id } && is_closest(
                    old(manager).entities@,
                    player.eye_position@,
                    id,
                )),
                Err(e) => e == Error::NotFound && old(manager).entities@.len() == 0 && *final(manager) == *old(manager),
            },
            Command::ClickAt { x, y } => match r {
                Ok(ops) => *final(manager) == *old(manager) && ops@.len() == 1 && (ops@[0] matches
                    SurfaceOp::SendClick { id, x: px, y: py } && is_closest(
                    old(manager).entities@,
                    player.eye_position@,
                    id,
                ) && px == x && py == y),
                Err(e) => e == Error::NotFound && old(manager).entities@.len() == 0 && *final(manager) == *old(manager),
            },
            Command::Type { text } => match r {
                Ok(ops) => *final(manager) == *old(manager) && ops@.len() == 1 && (ops@[0] matches
                    SurfaceOp::SendText { id, text: t } && is_closest(
                    old(manager).entities@,
                    player.eye_position@,
                    id,
                ) && t == text),
                Err(e) => e == Error::NotFound && old(manager).entities@.len() == 0 && *final(manager) == *old(manager),
            },
            Command::Seek { seconds } => match r {
                Ok(ops) => ops@.len() == 1 && (ops@[0] matches SurfaceOp::SetTime {
                    id,
                    seconds: secs,
                } && is_closest(old(manager).entities@, player.eye_position@, id) && secs
                    == seconds && old(manager).replaced(
                    *final(manager),
                    find_index_s(old(manager).entities@, id),
                    CefEntity {
                        media_time: seconds,
                        ..old(manager).entities@[find_index_s(old(manager).entities@, id)]
                    },
                )),
                Err(e) => e == Error::NotFound && old(manager).entities@.len() == 0 && *final(manager) == *old(manager),
            },
            Command::Resize { width, height } => match r {
                Ok(ops) => *final(manager) == *old(manager) && ops@.len() == 1 && (ops@[0] matches
                    SurfaceOp::Resize { id, width: w, height: h } && is_closest(
                    old(manager).entities@,
                    player.eye_position@,
                    id,
                ) && w == width && h == height),
                Err(e) => e == Error::NotFound && old(manager).entities@.len() == 0 && *final(manager) == *old(manager),
            },
            Command::Ignore => r matches Ok(ops) && ops@.len() == 0 && *final(manager) == *old(manager),
        },
{
    match cmd {
        Command::Create { url } => {
            let id = manager.create_entity();
            let ghost mid = *manager;
            match move_entity_by_id(manager, id, player) {
                Ok(()) => {},
                Err(_) => {},
            }
            proof {
                assert(manager.entities@.drop_last() =~= old(manager).entities@);
            }
            let mut ops: Vec<SurfaceOp> = Vec::new();
            ops.push(SurfaceOp::CreateSurface { id, url });
            Ok(ops)
        },
        Command::Search { query } => {
            let mut ops: Vec<SurfaceOp> = Vec::new();
            if is_self {
                ops.push(SurfaceOp::Search { query });
            }
            Ok(ops)
        },
        Command::HereById { id } => {
            match move_entity_by_id(manager, id, player) {
                Ok(()) => Ok(Vec::new()),
                Err(e) => Err(e),
            }
        },
        Command::MoveClosest => {
            let cid = match manager.with_closest(player.eye_position) {
                Ok(c) => c,
                Err(e) => {
                    return Err(e);
                },
            };
            match move_entity_by_id(manager, cid, player) {
                Ok(()) => Ok(Vec::new()),
                Err(e) => Err(e),
            }
        },
        Command::At { x, y, z } => {
            let cid = match manager.with_closest(player.eye_position) {
                Ok(c) => c,
                Err(e) => {
                    return Err(e);
                },
            };
            match manager.set_position_by_id(cid, Vec3Fx::new(x, y, z)) {
                Ok(()) => Ok(Vec::new()),
                Err(e) => Err(e),
            }
        },
        Command::Angles { rot_x, rot_y } => {
            let cid = match manager.with_closest(player.eye_position) {
                Ok(c) => c,
                Err(e) => {
                    return Err(e);
                },
            };
            match manager.set_angles_by_id(cid, rot_x, rot_y) {
                Ok(()) => Ok(Vec::new()),
                Err(e) => Err(e),
            }
        },
        Command::Scale { scale } => {
            let cid = match manager.with_closest(player.eye_position) {
                Ok(c) => c,
                Err(e) => {
                    return Err(e);
                },
            };
            match manager.set_scale_by_id(cid, scale) {
                Ok(()) => Ok(Vec::new()),
                Err(e) => Err(e),
            }
        },
        Command::Play { url } => {
            let cid = match manager.with_closest(player.eye_position) {
                Ok(c) => c,
                Err(e) => {
                    return Err(e);
                },
            };
            let mut ops: Vec<SurfaceOp> = Vec::new();
            ops.push(SurfaceOp::Navigate { id: cid, url });
            Ok(ops)
        },
        Command::Stop => {
            let cid = match manager.with_closest(player.eye_position) {
                Ok(c) => c,
                Err(e) => {
                    return Err(e);
                },
            };
            let u: Vec<u8> = vec![
                100u8, 97u8, 116u8, 97u8, 58u8, 116u8, 101u8, 120u8, 116u8, 47u8, 104u8, 116u8,
                109u8, 108u8, 44u8,
            ];
            proof {
                assert(u@ =~= blank_url());
            }
            let mut ops: Vec<SurfaceOp> = Vec::new();
            ops.push(SurfaceOp::Navigate { id: cid, url: u });
            Ok(ops)
        },
        Command::Close => {
            let cid = match manager.with_closest(player.eye_position) {
                Ok(c) => c,
                Err(e) => {
                    return Err(e);
                },
            };
            match manager.remove_entity(cid) {
                Ok(()) => {},
                Err(_) => {},
            }
            let mut ops: Vec<SurfaceOp> = Vec::new();
            ops.push(SurfaceOp::RemoveSurface { id: cid });
            Ok(ops)
        },
        Command::CloseAll => {
            let n = manager.entities.len();
            let mut ops: Vec<SurfaceOp> = Vec::new();
            let mut i: usize = 0;
            while i < n
                invariant
                    *manager == *old(manager),
                    old(manager).wf(),
                    n == manager.entities@.len(),
                    i <= n,
                    ops@.len() == i,
                    forall|j: int|
                        0 <= j < i ==> ops@[j] == (SurfaceOp::RemoveSurface {
                            id: old(manager).entities@[j].id,
                        }),
                decreases n - i,
            {
                let id = manager.entities[i].id;
                ops.push(SurfaceOp::RemoveSurface { id });
                i = i + 1;
            }
            manager.remove_all_entities();
            Ok(ops)
        },
        Command::Refresh => {
            let cid = match manager.with_closest(player.eye_position) {
                Ok(c) => c,
                Err(e) => {
                    return Err(e);
                },
            };
            let mut ops: Vec<SurfaceOp> = Vec::new();
            ops.push(SurfaceOp::Reload { id: cid });
            Ok(ops)
        },
        Command::ClickAim => {
            let cid = match manager.with_closest(player.eye_position) {
                Ok(c) => c,
                Err(e) => {
                    return Err(e);
                },
            };
            let mut ops: Vec<SurfaceOp> = Vec::new();
            ops.push(SurfaceOp::QueryAim { id: cid });
            Ok(ops)
        },
        Command::ClickAt { x, y } => {
            let cid = match manager.with_closest(player.eye_position) {
                Ok(c) => c,
                Err(e) => {
                    return Err(e);
                },
            };
            let mut ops: Vec<SurfaceOp> = Vec::new();
            ops.push(SurfaceOp::SendClick { id: cid, x, y });
            Ok(ops)
        },
        Command::Type { text } => {
            let cid = match manager.with_closest(player.eye_position) {
                Ok(c) => c,
                Err(e) => {
                    return Err(e);
                },
            };
            let mut ops: Vec<SurfaceOp> = Vec::new();
            ops.push(SurfaceOp::SendText { id: cid, text });
            Ok(ops)
        },
        Command::Seek { seconds } => {
            let cid = match manager.with_closest(player.eye_position) {
                Ok(c) => c,
                Err(e) => {
                    return Err(e);
                },
            };
            match manager.set_media_time_by_id(cid, seconds) {
                Ok(()) => {},
                Err(_) => {},
            }
            let mut ops: Vec<SurfaceOp> = Vec::new();
            ops.push(SurfaceOp::SetTime { id: cid, seconds });
            Ok(ops)
        },
        Command::Resize { width, height } => {
            let cid = match manager.with_closest(player.eye_position) {
                Ok(c) => c,
                Err(e) => {
                    return Err(e);
                },
            };
            let mut ops: Vec<SurfaceOp> = Vec::new();
            ops.push(SurfaceOp::Resize { id: cid, width, height });
            Ok(ops)
        },
        Command::Ignore => Ok(Vec::new()),
    }
}


/// The length of every keyword token.
proof fn lemma_kw_len()
    ensures
        kw_create().len() == 6,
        kw_search().len() == 6,
        kw_here().len() == 4,
        kw_move_word().len() == 4,
        kw_at().len() == 2,
        kw_tp().len() == 2,
        kw_angle().len() == 5,
        kw_angles().len() == 6,
        kw_scale().len() == 5,
        kw_load().len() == 4,
        kw_play().len() == 4,
        kw_stop().len() == 4,
        kw_close().len() == 5,
        kw_remove_word().len() == 6,
        kw_clear().len() == 5,
        kw_closeall().len() == 8,
        kw_removeall().len() == 9,
        kw_stopall().len() == 7,
        kw_clearall().len() == 8,
        kw_refresh().len() == 7,
        kw_reload().len() == 6,
        kw_click().len() == 5,
        kw_type_word().len() == 4,
        kw_time().len() == 4,
        kw_seek().len() == 4,
        kw_resize().len() == 6,
{
}

/// Keywords of equal length are still different tokens.
proof fn lemma_kw_distinct()
    ensures
        kw_create() != kw_search(),
        kw_create() != kw_angles(),
        kw_create() != kw_remove_word(),
        kw_create() != kw_reload(),
        kw_create() != kw_resize(),
        kw_search() != kw_angles(),
        kw_search() != kw_remove_word(),
        kw_search() != kw_reload(),
        kw_search() != kw_resize(),
        kw_here() != kw_move_word(),
        kw_here() != kw_load(),
        kw_here() != kw_play(),
        kw_here() != kw_stop(),
        kw_here() != kw_type_word(),
        kw_here() != kw_time(),
        kw_here() != kw_seek(),
        kw_move_word() != kw_load(),
        kw_move_word() != kw_play(),
        kw_move_word() != kw_stop(),
        kw_move_word() != kw_type_word(),
        kw_move_word() != kw_time(),
        kw_move_word() != kw_seek(),
        kw_at() != kw_tp(),
        kw_angle() != kw_scale(),
        kw_angle() != kw_close(),
        kw_angle() != kw_clear(),
        kw_angle() != kw_click(),
        kw_angles() != kw_remove_word(),
        kw_angles() != kw_reload(),
        kw_angles() != kw_resize(),
        kw_scale() != kw_close(),
        kw_scale() != kw_clear(),
        kw_scale() != kw_click(),
        kw_load() != kw_play(),
        kw_load() != kw_stop(),
        kw_load() != kw_type_word(),
        kw_load() != kw_time(),
        kw_load() != kw_seek(),
        kw_play() != kw_stop(),
        kw_play() != kw_type_word(),
        kw_play() != kw_time(),
        kw_play() != kw_seek(),
        kw_stop() != kw_type_word(),
        kw_stop() != kw_time(),
        kw_stop() != kw_seek(),
        kw_close() != kw_clear(),
        kw_close() != kw_click(),
        kw_remove_word() != kw_reload(),
        kw_remove_word() != kw_resize(),
        kw_clear() != kw_click(),
        kw_closeall() != kw_clearall(),
        kw_stopall() != kw_refresh(),
        kw_reload() != kw_resize(),
        kw_type_word() != kw_time(),
        kw_type_word() != kw_seek(),
        kw_time() != kw_seek(),
{
    assert(kw_create() != kw_search()) by {
        assert(kw_create()[0] == 99u8 && kw_search()[0] == 115u8);
    }
    assert(kw_create() != kw_angles()) by {
        assert(kw_create()[0] == 99u8 && kw_angles()[0] == 97u8);
    }
    assert(kw_create() != kw_remove_word()) by {
        assert(kw_create()[0] == 99u8 && kw_remove_word()[0] == 114u8);
    }
    assert(kw_create() != kw_reload()) by {
        assert(kw_create()[0] == 99u8 && kw_reload()[0] == 114u8);
    }
    assert(kw_create() != kw_resize()) by {
        assert(kw_create()[0] == 99u8 && kw_resize()[0] == 114u8);
    }
    assert(kw_search() != kw_angles()) by {
        assert(kw_search()[0] == 115u8 && kw_angles()[0] == 97u8);
    }
    assert(kw_search() != kw_remove_word()) by {
        assert(kw_search()[0] == 115u8 && kw_remove_word()[0] == 114u8);
    }
    assert(kw_search() != kw_reload()) by {
        assert(kw_search()[0] == 115u8 && kw_reload()[0] == 114u8);
    }
    assert(kw_search() != kw_resize()) by {
        assert(kw_search()[0] == 115u8 && kw_resize()[0] == 114u8);
    }
    assert(kw_here() != kw_move_word()) by {
        assert(kw_here()[0] == 104u8 && kw_move_word()[0] == 109u8);
    }
    assert(kw_here() != kw_load()) by {
        assert(kw_here()[0] == 104u8 && kw_load()[0] == 108u8);
    }
    assert(kw_here() != kw_play()) by {
        assert(kw_here()[0] == 104u8 && kw_play()[0] == 112u8);
    }
    assert(kw_here() != kw_stop()) by {
        assert(kw_here()[0] == 104u8 && kw_stop()[0] == 115u8);
    }
    assert(kw_here() != kw_type_word()) by {
        assert(kw_here()[0] == 104u8 && kw_type_word()[0] == 116u8);
    }
    assert(kw_here() != kw_time()) by {
        assert(kw_here()[0] == 104u8 && kw_time()[0] == 116u8);
    }
    assert(kw_here() != kw_seek()) by {
        assert(kw_here()[0] == 104u8 && kw_seek()[0] == 115u8);
    }
    assert(kw_move_word() != kw_load()) by {
        assert(kw_move_word()[0] == 109u8 && kw_load()[0] == 108u8);
    }
    assert(kw_move_word() != kw_play()) by {
        assert(kw_move_word()[0] == 109u8 && kw_play()[0] == 112u8);
    }
    assert(kw_move_word() != kw_stop()) by {
        assert(kw_move_word()[0] == 109u8 && kw_stop()[0] == 115u8);
    }
    assert(kw_move_word() != kw_type_word()) by {
        assert(kw_move_word()[0] == 109u8 && kw_type_word()[0] == 116u8);
    }
    assert(kw_move_word() != kw_time()) by {
        assert(kw_move_word()[0] == 109u8 && kw_time()[0] == 116u8);
    }
    assert(kw_move_word() != kw_seek()) by {
        assert(kw_move_word()[0] == 109u8 && kw_seek()[0] == 115u8);
    }
    assert(kw_at() != kw_tp()) by {
        assert(kw_at()[0] == 97u8 && kw_tp()[0] == 116u8);
    }
    assert(kw_angle() != kw_scale()) by {
        assert(kw_angle()[0] == 97u8 && kw_scale()[0] == 115u8);
    }
    assert(kw_angle() != kw_close()) by {
        assert(kw_angle()[0] == 97u8 && kw_close()[0] == 99u8);
    }
    assert(kw_angle() != kw_clear()) by {
        assert(kw_angle()[0] == 97u8 && kw_clear()[0] == 99u8);
    }
    assert(kw_angle() != kw_click()) by {
        assert(kw_angle()[0] == 97u8 && kw_click()[0] == 99u8);
    }
    assert(kw_angles() != kw_remove_word()) by {
        assert(kw_angles()[0] == 97u8 && kw_remove_word()[0] == 114u8);
    }
    assert(kw_angles() != kw_reload()) by {
        assert(kw_angles()[0] == 97u8 && kw_reload()[0] == 114u8);
    }
    assert(kw_angles() != kw_resize()) by {
        assert(kw_angles()[0] == 97u8 && kw_resize()[0] == 114u8);
    }
    assert(kw_scale() != kw_close()) by {
        assert(kw_scale()[0] == 115u8 && kw_close()[0] == 99u8);
    }
    assert(kw_scale() != kw_clear()) by {
        assert(kw_scale()[0] == 115u8 && kw_clear()[0] == 99u8);
    }
    assert(kw_scale() != kw_click()) by {
        assert(kw_scale()[0] == 115u8 && kw_click()[0] == 99u8);
    }
    assert(kw_load() != kw_play()) by {
        assert(kw_load()[0] == 108u8 && kw_play()[0] == 112u8);
    }
    assert(kw_load() != kw_stop()) by {
        assert(kw_load()[0] == 108u8 && kw_stop()[0] == 115u8);
    }
    assert(kw_load() != kw_type_word()) by {
        assert(kw_load()[0] == 108u8 && kw_type_word()[0] == 116u8);
    }
    assert(kw_load() != kw_time()) by {
        assert(kw_load()[0] == 108u8 && kw_time()[0] == 116u8);
    }
    assert(kw_load() != kw_seek()) by {
        assert(kw_load()[0] == 108u8 && kw_seek()[0] == 115u8);
    }
    assert(kw_play() != kw_stop()) by {
        assert(kw_play()[0] == 112u8 && kw_stop()[0] == 115u8);
    }
    assert(kw_play() != kw_type_word()) by {
        assert(kw_play()[0] == 112u8 && kw_type_word()[0] == 116u8);
    }
    assert(kw_play() != kw_time()) by {
        assert(kw_play()[0] == 112u8 && kw_time()[0] == 116u8);
    }
    assert(kw_play() != kw_seek()) by {
        assert(kw_play()[0] == 112u8 && kw_seek()[0] == 115u8);
    }
    assert(kw_stop() != kw_type_word()) by {
        assert(kw_stop()[0] == 115u8 && kw_type_word()[0] == 116u8);
    }
    assert(kw_stop() != kw_time()) by {
        assert(kw_stop()[0] == 115u8 && kw_time()[0] == 116u8);
    }
    assert(kw_stop() != kw_seek()) by {
        assert(kw_stop()[1] == 116u8 && kw_seek()[1] == 101u8);
    }
    assert(kw_close() != kw_clear()) by {
        assert(kw_close()[2] == 111u8 && kw_clear()[2] == 101u8);
    }
    assert(kw_close() != kw_click()) by {
        assert(kw_close()[2] == 111u8 && kw_click()[2] == 105u8);
    }
    assert(kw_remove_word() != kw_reload()) by {
        assert(kw_remove_word()[2] == 109u8 && kw_reload()[2] == 108u8);
    }
    assert(kw_remove_word() != kw_resize()) by {
        assert(kw_remove_word()[2] == 109u8 && kw_resize()[2] == 115u8);
    }
    assert(kw_clear() != kw_click()) by {
        assert(kw_clear()[2] == 101u8 && kw_click()[2] == 105u8);
    }
    assert(kw_closeall() != kw_clearall()) by {
        assert(kw_closeall()[2] == 111u8 && kw_clearall()[2] == 101u8);
    }
    assert(kw_stopall() != kw_refresh()) by {
        assert(kw_stopall()[0] == 115u8 && kw_refresh()[0] == 114u8);
    }
    assert(kw_reload() != kw_resize()) by {
        assert(kw_reload()[2] == 108u8 && kw_resize()[2] == 115u8);
    }
    assert(kw_type_word() != kw_time()) by {
        assert(kw_type_word()[1] == 121u8 && kw_time()[1] == 105u8);
    }
    assert(kw_type_word() != kw_seek()) by {
        assert(kw_type_word()[0] == 116u8 && kw_seek()[0] == 115u8);
    }
    assert(kw_time() != kw_seek()) by {
        assert(kw_time()[0] == 116u8 && kw_seek()[0] == 115u8);
    }
}

/// The parsed fixed-point value of a token (zero when it has none).
pub open spec fn fx_some(t: Seq<u8>) -> int {
    match fx_val(t) {
        Some(v) => v,
        None => 0,
    }
}

/// The parsed time value of a token in seconds (zero when it has none).
pub open spec fn time_some(t: Seq<u8>) -> int {
    match time_val(t) {
        Some(v) => v,
        None => 0,
    }
}

/// The page a create without tokens opens, or the run-together tokens.
pub open spec fn create_url_s(args: Seq<Vec<u8>>) -> Seq<u8> {
    if args.len() == 1 {
        default_url()
    } else {
        concat_from(args, 1)
    }
}

/// One chat command, end to end: parse the tokens, then carry the
/// command out. `is_self` says whether the local player issued it, which
/// gates the search helper as the host only answers its own queries.
///
/// The contract restates, per recognized token shape, what the command
/// does: what the registry looks like afterwards, which surface actions
/// come back, and exactly when `NotFound` or `FormatError` is reported.
#[verifier::rlimit(100)]
#[verifier::spinoff_prover]
pub fn command_callback(
    manager: &mut EntityManager,
    player: &PlayerSnapshot,
    args: &Vec<Vec<u8>>,
    is_self: bool,
) -> (r: Result<Vec<SurfaceOp>, Error>)
    requires
        old(manager).wf(),
        player.wf(),
        old(manager).next_id < u64::MAX,
    ensures
        final(manager).wf(),
        bad_argument(args@) ==> r == Err::<Vec<SurfaceOp>, Error>(Error::FormatError) && *final(manager) == *old(manager),
        no_known_form(args@) ==> (r matches Ok(ops) && ops@.len() == 0) && *final(manager)
            == *old(manager),
        is_create_form(args@) ==> (r matches Ok(ops) && final(manager).next_id == old(manager).next_id + 1 && final(manager).entities@.len() == old(manager).entities@.len() + 1
            && final(manager).entities@.drop_last() == old(manager).entities@ && ({
            let e = final(manager).entities@.last();
            &&& e.id == old(manager).next_id
            &&& e.scale == 65536
            &&& e.surface is None
            &&& e.media_time == 0
            &&& e == moved_entity(e, *player)
            &&& e.texture_all_white()
            &&& lookup_s(final(manager).entities@, e.id) == Some(e)
        }) && ops@.len() == 1 && (ops@[0] matches SurfaceOp::CreateSurface { id, url: u } && id
            == old(manager).next_id && u@ == create_url_s(args@))),
        is_search_form(args@) ==> (r matches Ok(ops) && *final(manager) == *old(manager) && (
        is_self ==> ops@.len() == 1 && (ops@[0] matches SurfaceOp::Search { query: q } && q@
            == join_from(args@, 1))) && (!is_self ==> ops@.len() == 0)),
        is_here_id_form(args@) && u64_ok(args@[1]@) ==> ({
            let id = dec_val(args@[1]@) as u64;
            match r {
                Ok(ops) => ops@.len() == 0 && lookup_s(old(manager).entities@, id) is Some && old(manager).replaced(
                    *final(manager),
                    find_index_s(old(manager).entities@, id),
                    moved_entity(
                        old(manager).entities@[find_index_s(old(manager).entities@, id)],
                        *player,
                    ),
                ),
                Err(e) => e == Error::NotFound && lookup_s(old(manager).entities@, id) is None
                    && *final(manager) == *old(manager),
            }
        }),
        is_move_form(args@) ==> match r {
            Ok(ops) => ops@.len() == 0 && exists|cid: u64|
                #[trigger] is_closest(old(manager).entities@, player.eye_position@, cid) && old(manager).replaced(
                    *final(manager),
                    find_index_s(old(manager).entities@, cid),
                    moved_entity(
                        old(manager).entities@[find_index_s(old(manager).entities@, cid)],
                        *player,
                    ),
                ),
            Err(e) => e == Error::NotFound && old(manager).entities@.len() == 0 && *final(manager)
                == *old(manager),
        },
        is_at_form(args@) && pos_arg_ok(args@[1]@) && pos_arg_ok(args@[2]@) && pos_arg_ok(
            args@[3]@,
        ) ==> match r {
            Ok(ops) => ops@.len() == 0 && exists|cid: u64|
                #[trigger] is_closest(old(manager).entities@, player.eye_position@, cid) && old(manager).replaced(
                    *final(manager),
                    find_index_s(old(manager).entities@, cid),
                    CefEntity {
                        pos: Vec3Fx {
                            x: fx_some(args@[1]@) as i64,
                            y: fx_some(args@[2]@) as i64,
                            z: fx_some(args@[3]@) as i64,
                        },
                        ..old(manager).entities@[find_index_s(old(manager).entities@, cid)]
                    },
                ),
            Err(e) => e == Error::NotFound && old(manager).entities@.len() == 0 && *final(manager)
                == *old(manager),
        },
        is_angles_form(args@) && angle_arg_ok(args@[1]@) && angle_arg_ok(args@[2]@) ==> match r {
            Ok(ops) => ops@.len() == 0 && exists|cid: u64|
                #[trigger] is_closest(old(manager).entities@, player.eye_position@, cid) && old(manager).replaced(
                    *final(manager),
                    find_index_s(old(manager).entities@, cid),
                    CefEntity {
                        rot_x: fx_some(args@[1]@) as i64,
                        rot_y: fx_some(args@[2]@) as i64,
                        ..old(manager).entities@[find_index_s(old(manager).entities@, cid)]
                    },
                ),
            Err(e) => e == Error::NotFound && old(manager).entities@.len() == 0 && *final(manager)
                == *old(manager),
        },
        is_scale_form(args@) && scale_arg_ok(args@[1]@) ==> match r {
            Ok(ops) => ops@.len() == 0 && exists|cid: u64|
                #[trigger] is_closest(old(manager).entities@, player.eye_position@, cid) && old(manager).replaced(
                    *final(manager),
                    find_index_s(old(manager).entities@, cid),
                    CefEntity {
                        scale: fx_some(args@[1]@) as i64,
                        ..old(manager).entities@[find_index_s(old(manager).entities@, cid)]
                    },
                ),
            Err(e) => e == Error::NotFound && old(manager).entities@.len() == 0 && *final(manager)
                == *old(manager),
        },
        is_play_form(args@) ==> match r {
            Ok(ops) => *final(manager) == *old(manager) && ops@.len() == 1 && (ops@[0] matches
                SurfaceOp::Navigate { id, url: u } && is_closest(
                old(manager).entities@,
                player.eye_position@,
                id,
            ) && u@ == concat_from(args@, 1)),
            Err(e) => e == Error::NotFound && old(manager).entities@.len() == 0 && *final(manager)
                == *old(manager),
        },
        is_stop_form(args@) ==> match r {
            Ok(ops) => *final(manager) == *old(manager) && ops@.len() == 1 && (ops@[0] matches
                SurfaceOp::Navigate { id, url: u } && is_closest(
                old(manager).entities@,
                player.eye_position@,
                id,
            ) && u@ == blank_url()),
            Err(e) => e == Error::NotFound && old(manager).entities@.len() == 0 && *final(manager)
                == *old(manager),
        },
        is_close_form(args@) ==> match r {
            Ok(ops) => ops@.len() == 1 && (ops@[0] matches SurfaceOp::RemoveSurface { id }
                && is_closest(old(manager).entities@, player.eye_position@, id) && final(manager).entities@ == old(manager).entities@.remove(
                find_index_s(old(manager).entities@, id),
            ) && find_index_s(final(manager).entities@, id) == -1 && lookup_s(
                final(manager).entities@,
                id,
            ) is None) && final(manager).next_id == old(manager).next_id,
            Err(e) => e == Error::NotFound && old(manager).entities@.len() == 0 && *final(manager)
                == *old(manager),
        },
        is_close_all_form(args@) ==> (r matches Ok(ops) && final(manager).entities@.len() == 0
            && final(manager).next_id == old(manager).next_id && ops@.len() == old(manager).entities@.len() && forall|i: int|
            0 <= i < ops@.len() ==> ops@[i] == (SurfaceOp::RemoveSurface {
                id: old(manager).entities@[i].id,
            })),
        is_refresh_form(args@) ==> match r {
            Ok(ops) => *final(manager) == *old(manager) && ops@.len() == 1 && (ops@[0] matches
                SurfaceOp::Reload { id } && is_closest(
                old(manager).entities@,
                player.eye_position@,
                id,
            )),
            Err(e) => e == Error::NotFound && old(manager).entities@.len() == 0 && *final(manager)
                == *old(manager),
        },
        is_click_aim_form(args@) ==> match r {
            Ok(ops) => *final(manager) == *old(manager) && ops@.len() == 1 && (ops@[0] matches
                SurfaceOp::QueryAim { id } && is_closest(
                old(manager).entities@,
                player.eye_position@,
                id,
            )),
            Err(e) => e == Error::NotFound && old(manager).entities@.len() == 0 && *final(manager)
                == *old(manager),
        },
        is_click_at_form(args@) && u32_ok(args@[1]@) && u32_ok(args@[2]@) ==> match r {
            Ok(ops) => *final(manager) == *old(manager) && ops@.len() == 1 && (ops@[0] matches
                SurfaceOp::SendClick { id, x: px, y: py } && is_closest(
                old(manager).entities@,
                player.eye_position@,
                id,
            ) && px == dec_val(args@[1]@) && py == dec_val(args@[2]@)),
            Err(e) => e == Error::NotFound && old(manager).entities@.len() == 0 && *final(manager)
                == *old(manager),
        },
        is_type_form(args@) ==> match r {
            Ok(ops) => *final(manager) == *old(manager) && ops@.len() == 1 && (ops@[0] matches
                SurfaceOp::SendText { id, text: t } && is_closest(
                old(manager).entities@,
                player.eye_position@,
                id,
            ) && t@ == join_from(args@, 1)),
            Err(e) => e == Error::NotFound && old(manager).entities@.len() == 0 && *final(manager)
                == *old(manager),
        },
        is_seek_form(args@) && time_val(args@[1]@) is Some ==> match r {
            Ok(ops) => ops@.len() == 1 && (ops@[0] matches SurfaceOp::SetTime {
                id,
                seconds,
            } && is_closest(old(manager).entities@, player.eye_position@, id) && seconds
                == time_some(args@[1]@) && old(manager).replaced(
                *final(manager),
                find_index_s(old(manager).entities@, id),
                CefEntity {
                    media_time: seconds,
                    ..old(manager).entities@[find_index_s(old(manager).entities@, id)]
                },
            )),
            Err(e) => e == Error::NotFound && old(manager).entities@.len() == 0 && *final(manager)
                == *old(manager),
        },
        is_resize_form(args@) && u32_ok(args@[1]@) && u32_ok(args@[2]@) ==> match r {
            Ok(ops) => *final(manager) == *old(manager) && ops@.len() == 1 && (ops@[0] matches
                SurfaceOp::Resize { id, width, height } && is_closest(
                old(manager).entities@,
                player.eye_position@,
                id,
            ) && width == dec_val(args@[1]@) && height == dec_val(args@[2]@)),
            Err(e) => e == Error::NotFound && old(manager).entities@.len() == 0 && *final(manager)
                == *old(manager),
        },
{
    let cmd = match parse_command(args) {
        Ok(c) => c,
        Err(e) => {
            return Err(e);
        },
    };
    let ghost gcmd = cmd;
    let r = dispatch_command(manager, player, cmd, is_self);
    proof {
        lemma_kw_len();
        lemma_kw_distinct();
        if is_create_form(args@) {
            crate::entity_manager::lemma_find_index_properties(final(manager).entities@, old(manager).next_id);
        }
    }
    r
}

} // verus!
